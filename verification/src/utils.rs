//! Package-name validation and normalization: the rules a manifest name must
//! follow, and the transform that derives a usable name from a project name.

use vstd::prelude::*;

use crate::text::str_chars;

verus! {

/// A character allowed to open the name part: lower-case letters, digits,
/// `-` and `~`.
pub open spec fn name_first(c: char) -> bool {
    ||| (97 <= c as u32 && c as u32 <= 122)
    ||| (48 <= c as u32 && c as u32 <= 57)
    ||| c == '-'
    ||| c == '~'
}

/// A character allowed inside the name part: also `.` and `_`.
pub open spec fn name_rest(c: char) -> bool {
    name_first(c) || c == '.' || c == '_'
}

/// A character allowed to open the scope part: also `*`.
pub open spec fn scope_first(c: char) -> bool {
    name_first(c) || c == '*'
}

/// A character allowed inside the scope part.
pub open spec fn scope_rest(c: char) -> bool {
    scope_first(c) || c == '.' || c == '_'
}

/// A valid bare name: non-empty, an opening character, then inner ones.
pub open spec fn valid_name_part(s: Seq<char>) -> bool {
    s.len() >= 1 && name_first(s[0]) && forall|i: int| 1 <= i < s.len() ==> name_rest(#[trigger] s[i])
}

/// A valid scope: non-empty, an opening character, then inner ones.
pub open spec fn valid_scope_part(s: Seq<char>) -> bool {
    s.len() >= 1 && scope_first(s[0]) && forall|i: int|
        1 <= i < s.len() ==> scope_rest(#[trigger] s[i])
}

/// A valid package name: a bare name, or `@scope/name`.
pub open spec fn valid_package_name(s: Seq<char>) -> bool {
    if s.len() > 0 && s[0] == '@' {
        exists|j: int|
            1 < j < s.len() && s[j] == '/' && valid_scope_part(#[trigger] s.subrange(1, j))
                && valid_name_part(s.skip(j + 1))
    } else {
        valid_name_part(s)
    }
}

/// Whether `cs[lo..hi]` is a valid name part.
#[verifier::loop_isolation(false)]
fn check_name_part(cs: &Vec<char>, lo: usize, hi: usize) -> (r: bool)
    requires
        lo <= hi <= cs@.len(),
    ensures
        r == valid_name_part(cs@.subrange(lo as int, hi as int)),
{
    let ghost part = cs@.subrange(lo as int, hi as int);
    if lo == hi {
        return false;
    }
    let c0 = cs[lo];
    let u0 = c0 as u32;
    if !((97 <= u0 && u0 <= 122) || (48 <= u0 && u0 <= 57) || c0 == '-' || c0 == '~') {
        proof {
            assert(part[0] == cs@[lo as int]);
        }
        return false;
    }
    let mut i: usize = lo + 1;
    while i < hi
        invariant
            lo + 1 <= i <= hi,
            forall|l: int| 1 <= l < i - lo ==> name_rest(#[trigger] part[l]),
        decreases hi - i,
    {
        let c = cs[i];
        let u = c as u32;
        if !((97 <= u && u <= 122) || (48 <= u && u <= 57) || c == '-' || c == '~' || c == '.'
            || c == '_') {
            proof {
                assert(part[i - lo] == cs@[i as int]);
            }
            return false;
        }
        i += 1;
    }
    proof {
        assert(part[0] == cs@[lo as int]);
    }
    true
}

/// Whether `cs[lo..hi]` is a valid scope part.
#[verifier::loop_isolation(false)]
fn check_scope_part(cs: &Vec<char>, lo: usize, hi: usize) -> (r: bool)
    requires
        lo <= hi <= cs@.len(),
    ensures
        r == valid_scope_part(cs@.subrange(lo as int, hi as int)),
{
    let ghost part = cs@.subrange(lo as int, hi as int);
    if lo == hi {
        return false;
    }
    let c0 = cs[lo];
    let u0 = c0 as u32;
    if !((97 <= u0 && u0 <= 122) || (48 <= u0 && u0 <= 57) || c0 == '-' || c0 == '~' || c0 == '*') {
        proof {
            assert(part[0] == cs@[lo as int]);
        }
        return false;
    }
    let mut i: usize = lo + 1;
    while i < hi
        invariant
            lo + 1 <= i <= hi,
            forall|l: int| 1 <= l < i - lo ==> scope_rest(#[trigger] part[l]),
        decreases hi - i,
    {
        let c = cs[i];
        let u = c as u32;
        if !((97 <= u && u <= 122) || (48 <= u && u <= 57) || c == '-' || c == '~' || c == '*'
            || c == '.' || c == '_') {
            proof {
                assert(part[i - lo] == cs@[i as int]);
            }
            return false;
        }
        i += 1;
    }
    proof {
        assert(part[0] == cs@[lo as int]);
    }
    true
}

/// Whether the string is a valid package name: an optional `@scope/` prefix,
/// then a bare name of lower-case letters, digits and `-.~_`.
#[verifier::loop_isolation(false)]
pub fn is_valid_package_name(package_name: &String) -> (r: bool)
    ensures
        r == valid_package_name(package_name@),
{
    let cs = str_chars(package_name.as_str());
    let n = cs.len();
    if n == 0 {
        return false;
    }
    if cs[0] != '@' {
        proof {
            assert(cs@.subrange(0, n as int) =~= cs@);
        }
        return check_name_part(&cs, 0, n);
    }
    // find the first slash
    let mut j: usize = 1;
    while j < n && cs[j] != '/'
        invariant
            1 <= j <= n,
            forall|l: int| 1 <= l < j ==> cs@[l] != '/',
        decreases n - j,
    {
        j += 1;
    }
    if j == n {
        // no slash at all: no split can satisfy the scoped form
        proof {
            assert forall|l: int| 1 < l < cs@.len() implies !(cs@[l] == '/'
                && valid_scope_part(cs@.subrange(1, l)) && valid_name_part(
                cs@.skip(l + 1),
            )) by {}
        }
        return false;
    }
    if j <= 1 {
        // the name begins with "@/": the scope part would be empty
        proof {
            assert forall|l: int| 1 < l < cs@.len() implies !(cs@[l] == '/'
                && valid_scope_part(cs@.subrange(1, l)) && valid_name_part(
                cs@.skip(l + 1),
            )) by {
                if cs@[l] == '/' && valid_scope_part(cs@.subrange(1, l)) {
                    assert(cs@.subrange(1, l)[0] == cs@[1]);
                }
            }
        }
        return false;
    }
    let scope_ok = check_scope_part(&cs, 1, j);
    let name_ok = check_name_part(&cs, j + 1, n);
    proof {
        assert(cs@.subrange(j + 1, n as int) =~= cs@.skip(j + 1));
    }
    if scope_ok && name_ok {
        proof {
            assert(1 < j < cs@.len() && cs@[j as int] == '/');
        }
        true
    } else {
        // any later slash would leave a slash inside the scope part
        proof {
            assert forall|l: int| 1 < l < cs@.len() implies !(cs@[l] == '/'
                && valid_scope_part(cs@.subrange(1, l)) && valid_name_part(
                cs@.skip(l + 1),
            )) by {
                if l > j && cs@[l] == '/' && valid_scope_part(cs@.subrange(1, l)) {
                    assert(cs@.subrange(1, l)[j - 1] == cs@[j as int]);
                    assert(scope_rest('/') == false);
                }
            }
        }
        false
    }
}

/// A whitespace character.
pub open spec fn is_ws(c: char) -> bool {
    c == ' ' || c == '\t' || c == '\n' || c == '\r' || c == '\u{b}' || c == '\u{c}'
}

/// A character allowed to stay in a normalized name.
pub open spec fn is_name_char(c: char) -> bool {
    (97 <= c as u32 && c as u32 <= 122) || (48 <= c as u32 && c as u32 <= 57) || c == '-' || c
        == '~'
}

/// The sequence without its longest prefix of characters satisfying `p`.
pub open spec fn drop_while(s: Seq<char>, p: spec_fn(char) -> bool) -> Seq<char>
    decreases s.len(),
{
    if s.len() > 0 && p(s[0]) {
        drop_while(s.skip(1), p)
    } else {
        s
    }
}

/// `drop_while` only removes characters from the front.
pub proof fn lemma_drop_while_len(s: Seq<char>, p: spec_fn(char) -> bool)
    ensures
        drop_while(s, p).len() <= s.len(),
        s.len() > 0 && p(s[0]) ==> drop_while(s, p).len() < s.len(),
    decreases s.len(),
{
    if s.len() > 0 && p(s[0]) {
        lemma_drop_while_len(s.skip(1), p);
    }
}

/// Every maximal run of characters satisfying `p` collapsed to one `r`.
pub open spec fn collapse_runs(s: Seq<char>, p: spec_fn(char) -> bool, r: char) -> Seq<char>
    decreases s.len(),
{
    if s.len() == 0 {
        Seq::empty()
    } else if p(s[0]) {
        proof {
            lemma_drop_while_len(s, p);
        }
        seq![r] + collapse_runs(drop_while(s, p), p, r)
    } else {
        seq![s[0]] + collapse_runs(s.skip(1), p, r)
    }
}

/// The sequence without its trailing characters satisfying `p`.
pub open spec fn trim_end(s: Seq<char>, p: spec_fn(char) -> bool) -> Seq<char>
    decreases s.len(),
{
    if s.len() > 0 && p(s[s.len() - 1]) {
        trim_end(s.drop_last(), p)
    } else {
        s
    }
}

/// The sequence without leading and trailing whitespace.
pub open spec fn trimmed(s: Seq<char>) -> Seq<char> {
    trim_end(drop_while(s, run_pred(true)), run_pred(true))
}

/// The normalized form of a project name: whitespace runs become `_`, one
/// leading `.` or `_` is dropped, and every other run of characters outside
/// the allowed set becomes `-`.
pub open spec fn normalized_name(s: Seq<char>) -> Seq<char> {
    let u = collapse_runs(trimmed(s), run_pred(true), '_');
    let v = if u.len() > 0 && (u[0] == '.' || u[0] == '_') {
        u.skip(1)
    } else {
        u
    };
    collapse_runs(v, run_pred(false), '-')
}

/// Whether `c` is whitespace.
fn ws_exec(c: char) -> (r: bool)
    ensures
        r == is_ws(c),
{
    c == ' ' || c == '\t' || c == '\n' || c == '\r' || c == '\u{b}' || c == '\u{c}'
}

/// Whether `c` may stay in a normalized name.
fn name_char_exec(c: char) -> (r: bool)
    ensures
        r == is_name_char(c),
{
    let u = c as u32;
    (97 <= u && u <= 122) || (48 <= u && u <= 57) || c == '-' || c == '~'
}

/// The run predicate used by one collapse pass.
pub open spec fn run_pred(use_ws: bool) -> spec_fn(char) -> bool {
    if use_ws {
        |c: char| is_ws(c)
    } else {
        |c: char| !is_name_char(c)
    }
}

/// Whether `c` belongs to the run class of this pass.
fn pred_exec(use_ws: bool, c: char) -> (r: bool)
    ensures
        r == run_pred(use_ws)(c),
{
    if use_ws {
        ws_exec(c)
    } else {
        !name_char_exec(c)
    }
}

/// The index just past the run of class characters starting at `i`.
#[verifier::loop_isolation(false)]
fn skip_run(s: &Vec<char>, use_ws: bool, i: usize) -> (j: usize)
    requires
        i <= s@.len(),
    ensures
        i <= j <= s@.len(),
        drop_while(s@.skip(i as int), run_pred(use_ws)) == s@.skip(j as int),
        j == s@.len() || !run_pred(use_ws)(s@[j as int]),
{
    let ghost p = run_pred(use_ws);
    let mut j: usize = i;
    while j < s.len() && pred_exec(use_ws, s[j])
        invariant
            i <= j <= s@.len(),
            drop_while(s@.skip(i as int), p) == drop_while(s@.skip(j as int), p),
        decreases s@.len() - j,
    {
        proof {
            assert(s@.skip(j as int)[0] == s@[j as int]);
            assert(s@.skip(j as int).skip(1) =~= s@.skip(j + 1));
        }
        j += 1;
    }
    proof {
        if j < s@.len() {
            assert(s@.skip(j as int)[0] == s@[j as int]);
        }
        assert(drop_while(s@.skip(j as int), p) == s@.skip(j as int));
    }
    j
}

/// Collapses every maximal run of class characters into one `r`.
#[verifier::loop_isolation(false)]
fn collapse_ws_runs(s: &Vec<char>, use_ws: bool, r: char) -> (out: Vec<char>)
    ensures
        out@ == collapse_runs(s@, run_pred(use_ws), r),
{
    let ghost p = run_pred(use_ws);
    let mut out: Vec<char> = Vec::new();
    let mut i: usize = 0;
    proof {
        assert(s@.skip(0) =~= s@);
    }
    while i < s.len()
        invariant
            i <= s@.len(),
            collapse_runs(s@, p, r) == out@ + collapse_runs(s@.skip(i as int), p, r),
        decreases s@.len() - i,
    {
        let c = s[i];
        let hit = pred_exec(use_ws, c);
        proof {
            assert(s@.skip(i as int)[0] == s@[i as int]);
        }
        if hit {
            let ghost pre = out@;
            out.push(r);
            let j = skip_run(s, use_ws, i);
            proof {
                assert(collapse_runs(s@.skip(i as int), p, r) == seq![r] + collapse_runs(
                    s@.skip(j as int),
                    p,
                    r,
                ));
                assert(pre + (seq![r] + collapse_runs(s@.skip(j as int), p, r)) =~= out@
                    + collapse_runs(s@.skip(j as int), p, r));
            }
            i = j;
        } else {
            let ghost pre = out@;
            out.push(c);
            proof {
                assert(s@.skip(i as int).skip(1) =~= s@.skip(i + 1));
                assert(pre + (seq![s@[i as int]] + collapse_runs(s@.skip(i + 1), p, r)) =~= out@
                    + collapse_runs(s@.skip(i + 1), p, r));
            }
            i += 1;
        }
    }
    proof {
        assert(out@ + collapse_runs(s@.skip(s@.len() as int), p, r) =~= out@);
    }
    out
}

/// Normalizes a project name into a usable package name: trims whitespace,
/// turns inner whitespace runs into `_`, drops one leading `.` or `_`, and
/// turns every remaining run of disallowed characters into `-`.
#[verifier::loop_isolation(false)]
pub fn to_valid_package_name(package_name: &String) -> (r: String)
    ensures
        r@ == normalized_name(package_name@),
{
    let cs = str_chars(package_name.as_str());
    // trim leading and trailing whitespace
    proof {
        assert(cs@.skip(0) =~= cs@);
    }
    let lo = skip_run(&cs, true, 0);
    let ghost dropped = cs@.skip(lo as int);
    let mut hi: usize = cs.len();
    while hi > lo && ws_exec(cs[hi - 1])
        invariant
            lo <= hi <= cs@.len(),
            trim_end(dropped, run_pred(true)) == trim_end(
                cs@.subrange(lo as int, hi as int),
                run_pred(true),
            ),
        decreases hi,
    {
        proof {
            let cur = cs@.subrange(lo as int, hi as int);
            assert(cur[cur.len() - 1] == cs@[hi - 1]);
            assert(cur.drop_last() =~= cs@.subrange(lo as int, hi - 1));
        }
        hi -= 1;
    }
    proof {
        let cur = cs@.subrange(lo as int, hi as int);
        if hi > lo {
            assert(cur[cur.len() - 1] == cs@[hi - 1]);
        }
        assert(trim_end(cur, run_pred(true)) == cur);
        assert(trimmed(cs@) == cs@.subrange(lo as int, hi as int));
    }
    let mut t: Vec<char> = Vec::new();
    let mut i: usize = lo;
    while i < hi
        invariant
            lo <= i <= hi,
            t@ == cs@.subrange(lo as int, i as int),
        decreases hi - i,
    {
        t.push(cs[i]);
        proof {
            assert(t@ =~= cs@.subrange(lo as int, i + 1));
        }
        i += 1;
    }
    // whitespace runs become underscores
    let u = collapse_ws_runs(&t, true, '_');
    // one leading dot or underscore is dropped
    let mut v: Vec<char> = Vec::new();
    let mut start: usize = 0;
    if u.len() > 0 {
        let c0 = u[0];
        if c0 == '.' || c0 == '_' {
            start = 1;
        }
    }
    let mut k: usize = start;
    while k < u.len()
        invariant
            start <= k <= u@.len(),
            v@ == u@.subrange(start as int, k as int),
        decreases u@.len() - k,
    {
        v.push(u[k]);
        proof {
            assert(v@ =~= u@.subrange(start as int, k + 1));
        }
        k += 1;
    }
    proof {
        if start == 1 {
            assert(u@.subrange(1, u@.len() as int) =~= u@.skip(1));
        } else {
            assert(u@.subrange(0, u@.len() as int) =~= u@);
        }
    }
    // disallowed runs become dashes
    let w = collapse_ws_runs(&v, false, '-');
    crate::text::chars_to_string(&w)
}

} // verus!
