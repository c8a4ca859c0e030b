//! Pretty serialization of structured values: the exact text the scaffolder
//! writes for package manifests and lint configurations. Two-space indent,
//! one line per array element or object pair.

use vstd::prelude::*;

use crate::value::{
    arr_view, lemma_arr_view_index, lemma_obj_view_index, obj_view, value_view, StructuredValue,
    ValueView,
};

verus! {

/// A decimal digit as a character.
pub open spec fn digit_char(d: nat) -> char {
    ((48 + d) as u8) as char
}

/// The decimal form of a natural number.
pub open spec fn dec_nat(n: nat) -> Seq<char>
    decreases n,
{
    if n < 10 {
        seq![digit_char(n)]
    } else {
        dec_nat(n / 10).push(digit_char(n % 10))
    }
}

/// The decimal form of an integer.
pub open spec fn dec_int(n: int) -> Seq<char> {
    if n < 0 {
        seq!['-'] + dec_nat((-n) as nat)
    } else {
        dec_nat(n as nat)
    }
}

/// A hexadecimal digit as a lower-case character.
pub open spec fn hex_char(d: nat) -> char {
    if d < 10 {
        ((48 + d) as u8) as char
    } else {
        ((87 + d) as u8) as char
    }
}

/// The JSON escape of one string character.
pub open spec fn esc_char(c: char) -> Seq<char> {
    if c == '"' {
        seq!['\\', '"']
    } else if c == '\\' {
        seq!['\\', '\\']
    } else if c == '\u{8}' {
        seq!['\\', 'b']
    } else if c == '\u{c}' {
        seq!['\\', 'f']
    } else if c == '\n' {
        seq!['\\', 'n']
    } else if c == '\r' {
        seq!['\\', 'r']
    } else if c == '\t' {
        seq!['\\', 't']
    } else if (c as u32) < 32 {
        seq!['\\', 'u', '0', '0', hex_char((c as u32 / 16) as nat), hex_char(
            (c as u32 % 16) as nat,
        )]
    } else {
        seq![c]
    }
}

/// The body of a JSON string: every character escaped.
pub open spec fn escaped(s: Seq<char>) -> Seq<char>
    decreases s.len(),
{
    if s.len() == 0 {
        Seq::empty()
    } else {
        esc_char(s[0]) + escaped(s.skip(1))
    }
}

/// A quoted JSON string.
pub open spec fn quoted(s: Seq<char>) -> Seq<char> {
    seq!['"'] + escaped(s) + seq!['"']
}

/// The indent step.
pub open spec fn two_spaces() -> Seq<char> {
    seq![' ', ' ']
}

/// The pretty rendering of a value, `ind` being the enclosing indentation.
pub open spec fn json_text(v: ValueView, ind: Seq<char>) -> Seq<char>
    decreases v, 0int, 0int,
{
    match v {
        ValueView::Null => seq!['n', 'u', 'l', 'l'],
        ValueView::Bool(b) => if b {
            seq!['t', 'r', 'u', 'e']
        } else {
            seq!['f', 'a', 'l', 's', 'e']
        },
        ValueView::Num(n) => dec_int(n),
        ValueView::Str(s) => quoted(s),
        ValueView::Arr(items) => if items.len() == 0 {
            seq!['[', ']']
        } else {
            seq!['['] + arr_items(items, ind + two_spaces()) + seq!['\n'] + ind + seq![']']
        },
        ValueView::Obj(pairs) => if pairs.len() == 0 {
            seq!['{', '}']
        } else {
            seq!['{'] + obj_items(pairs, ind + two_spaces()) + seq!['\n'] + ind + seq!['}']
        },
    }
}

/// The comma-separated lines of a non-empty array body.
pub open spec fn arr_items(items: Seq<ValueView>, ind: Seq<char>) -> Seq<char>
    decreases items, 1int, 0int,
{
    if items.len() == 0 {
        Seq::empty()
    } else {
        let entry = seq!['\n'] + ind + json_text(items[0], ind);
        if items.len() == 1 {
            entry
        } else {
            entry + seq![','] + arr_items(items.skip(1), ind)
        }
    }
}

/// The comma-separated lines of a non-empty object body.
pub open spec fn obj_items(pairs: Seq<(Seq<char>, ValueView)>, ind: Seq<char>) -> Seq<char>
    decreases pairs, 1int, 0int,
{
    if pairs.len() == 0 {
        Seq::empty()
    } else {
        let entry = seq!['\n'] + ind + quoted(pairs[0].0) + seq![':', ' '] + json_text(
            pairs[0].1,
            ind,
        );
        if pairs.len() == 1 {
            entry
        } else {
            entry + seq![','] + obj_items(pairs.skip(1), ind)
        }
    }
}

/// The full pretty rendering of a value.
pub open spec fn json_pretty(v: ValueView) -> Seq<char> {
    json_text(v, Seq::empty())
}

/// Appends the indentation prefix.
#[verifier::loop_isolation(false)]
fn write_indent(ind: &Vec<char>, out: &mut String)
    ensures
        final (out)@ == old(out)@ + ind@,
{
    let mut i: usize = 0;
    while i < ind.len()
        invariant
            i <= ind@.len(),
            out@ == old(out)@ + ind@.take(i as int),
        decreases ind@.len() - i,
    {
        out.push(ind[i]);
        proof {
            assert(out@ =~= old(out)@ + ind@.take(i + 1));
        }
        i += 1;
    }
    proof {
        assert(old(out)@ + ind@.take(ind@.len() as int) =~= old(out)@ + ind@);
    }
}

/// The indentation one level deeper.
#[verifier::loop_isolation(false)]
fn deeper(ind: &Vec<char>) -> (r: Vec<char>)
    ensures
        r@ == ind@ + two_spaces(),
{
    let mut r: Vec<char> = Vec::new();
    let mut i: usize = 0;
    while i < ind.len()
        invariant
            i <= ind@.len(),
            r@ == ind@.take(i as int),
        decreases ind@.len() - i,
    {
        r.push(ind[i]);
        proof {
            assert(r@ =~= ind@.take(i + 1));
        }
        i += 1;
    }
    r.push(' ');
    r.push(' ');
    proof {
        assert(r@ =~= ind@ + two_spaces());
    }
    r
}

/// Appends the decimal form of `m`.
fn write_u64(m: u64, out: &mut String)
    ensures
        final (out)@ == old(out)@ + dec_nat(m as nat),
    decreases m,
{
    if m < 10 {
        out.push((48 + m as u8) as char);
        proof {
            assert(out@ =~= old(out)@ + dec_nat(m as nat));
        }
    } else {
        write_u64(m / 10, out);
        out.push((48 + (m % 10) as u8) as char);
        proof {
            assert(out@ =~= old(out)@ + dec_nat(m as nat));
        }
    }
}

/// Appends the decimal form of `n`.
fn write_num(n: i64, out: &mut String)
    ensures
        final (out)@ == old(out)@ + dec_int(n as int),
{
    if n < 0 {
        out.push('-');
        let mag: u64 = ((-(n + 1)) as u64) + 1;
        write_u64(mag, out);
        proof {
            assert(mag as nat == (-(n as int)) as nat);
            assert(out@ =~= old(out)@ + dec_int(n as int));
        }
    } else {
        write_u64(n as u64, out);
    }
}

/// `escaped` distributes over concatenation.
proof fn lemma_escaped_concat(a: Seq<char>, b: Seq<char>)
    ensures
        escaped(a + b) == escaped(a) + escaped(b),
    decreases a.len(),
{
    if a.len() == 0 {
        assert(a + b =~= b);
        assert(escaped(a) + escaped(b) =~= escaped(b));
    } else {
        assert((a + b).skip(1) =~= a.skip(1) + b);
        lemma_escaped_concat(a.skip(1), b);
        assert(escaped(a + b) =~= escaped(a) + escaped(b));
    }
}

/// Appends the escaped body of `s`.
#[verifier::loop_isolation(false)]
#[verifier::rlimit(50)]
fn write_escaped(s: &String, out: &mut String)
    ensures
        final (out)@ == old(out)@ + escaped(s@),
{
    let cs = crate::text::str_chars(s.as_str());
    let mut i: usize = 0;
    while i < cs.len()
        invariant
            i <= cs@.len(),
            out@ == old(out)@ + escaped(s@.take(i as int)),
        decreases cs@.len() - i,
    {
        let c = cs[i];
        if c == '"' {
            out.push('\\');
            out.push('"');
        } else if c == '\\' {
            out.push('\\');
            out.push('\\');
        } else if c == '\u{8}' {
            out.push('\\');
            out.push('b');
        } else if c == '\u{c}' {
            out.push('\\');
            out.push('f');
        } else if c == '\n' {
            out.push('\\');
            out.push('n');
        } else if c == '\r' {
            out.push('\\');
            out.push('r');
        } else if c == '\t' {
            out.push('\\');
            out.push('t');
        } else if (c as u32) < 32 {
            let code = c as u32;
            let hi = (code / 16) as u8;
            let lo = (code % 16) as u8;
            out.push('\\');
            out.push('u');
            out.push('0');
            out.push('0');
            out.push(if hi < 10 {
                (48 + hi) as char
            } else {
                (87 + hi) as char
            });
            out.push(if lo < 10 {
                (48 + lo) as char
            } else {
                (87 + lo) as char
            });
        } else {
            out.push(c);
        }
        proof {
            lemma_escaped_concat(s@.take(i as int), seq![s@[i as int]]);
            assert(s@.take(i + 1) =~= s@.take(i as int) + seq![s@[i as int]]);
            let single = seq![s@[i as int]];
            assert(single.len() == 1 && single[0] == s@[i as int]);
            assert(single.skip(1) =~= Seq::<char>::empty());
            assert(escaped(single) == esc_char(single[0]) + escaped(single.skip(1)));
            assert(escaped(Seq::<char>::empty()) == Seq::<char>::empty());
            assert(escaped(single) =~= esc_char(s@[i as int]));
            assert(out@ =~= old(out)@ + escaped(s@.take(i + 1)));
        }
        i += 1;
    }
    proof {
        assert(s@.take(s@.len() as int) =~= s@);
    }
}

/// Appends `s` as a quoted JSON string.
fn write_quoted(s: &String, out: &mut String)
    ensures
        final (out)@ == old(out)@ + quoted(s@),
{
    out.push('"');
    write_escaped(s, out);
    out.push('"');
    proof {
        assert(out@ =~= old(out)@ + quoted(s@));
    }
}

/// Appends the pretty rendering of `v` at indentation `ind`.
#[verifier::loop_isolation(false)]
fn write_value(v: &StructuredValue, ind: &Vec<char>, out: &mut String)
    ensures
        final (out)@ == old(out)@ + json_text(v@, ind@),
    decreases *v, 0int, 0int,
{
    match v {
        StructuredValue::Null => {
            out.push('n');
            out.push('u');
            out.push('l');
            out.push('l');
            proof {
                assert(out@ =~= old(out)@ + json_text(v@, ind@));
            }
        },
        StructuredValue::Bool(b) => {
            if *b {
                out.push('t');
                out.push('r');
                out.push('u');
                out.push('e');
            } else {
                out.push('f');
                out.push('a');
                out.push('l');
                out.push('s');
                out.push('e');
            }
            proof {
                assert(out@ =~= old(out)@ + json_text(v@, ind@));
            }
        },
        StructuredValue::Num(n) => {
            write_num(*n, out);
        },
        StructuredValue::Str(s) => {
            write_quoted(s, out);
        },
        StructuredValue::Arr(items) => {
            if items.len() == 0 {
                out.push('[');
                out.push(']');
                proof {
                    assert(out@ =~= old(out)@ + json_text(v@, ind@));
                }
            } else {
                out.push('[');
                let ind2 = deeper(ind);
                write_arr_items(items, 0, &ind2, out);
                out.push('\n');
                write_indent(ind, out);
                out.push(']');
                proof {
                    lemma_arr_view_index(items@);
                    assert(arr_view(items@).skip(0) =~= arr_view(items@));
                    assert(out@ =~= old(out)@ + json_text(v@, ind@));
                }
            }
        },
        StructuredValue::Obj(pairs) => {
            if pairs.len() == 0 {
                out.push('{');
                out.push('}');
                proof {
                    assert(out@ =~= old(out)@ + json_text(v@, ind@));
                }
            } else {
                out.push('{');
                let ind2 = deeper(ind);
                write_obj_items(pairs, 0, &ind2, out);
                out.push('\n');
                write_indent(ind, out);
                out.push('}');
                proof {
                    lemma_obj_view_index(pairs@);
                    assert(obj_view(pairs@).skip(0) =~= obj_view(pairs@));
                    assert(out@ =~= old(out)@ + json_text(v@, ind@));
                }
            }
        },
    }
}

/// Appends the lines for the array elements from `start` on.
fn write_arr_items(items: &Vec<StructuredValue>, start: usize, ind: &Vec<char>, out: &mut String)
    requires
        start < items@.len(),
    ensures
        final (out)@ == old(out)@ + arr_items(arr_view(items@).skip(start as int), ind@),
    decreases items@, 1int, items@.len() - start,
{
    proof {
        lemma_arr_view_index(items@);
    }
    let n = items.len();
    out.push('\n');
    write_indent(ind, out);
    write_value(&items[start], ind, out);
    if start + 1 < n {
        out.push(',');
        write_arr_items(items, start + 1, ind, out);
        proof {
            assert(arr_view(items@).skip(start as int).skip(1) =~= arr_view(items@).skip(
                start + 1,
            ));
            assert(arr_view(items@).skip(start as int)[0] == value_view(items@[start as int]));
            assert(out@ =~= old(out)@ + arr_items(arr_view(items@).skip(start as int), ind@));
        }
    } else {
        proof {
            assert(arr_view(items@).skip(start as int).len() == 1);
            assert(arr_view(items@).skip(start as int)[0] == value_view(items@[start as int]));
            assert(out@ =~= old(out)@ + arr_items(arr_view(items@).skip(start as int), ind@));
        }
    }
}

/// Appends the lines for the object pairs from `start` on.
fn write_obj_items(
    pairs: &Vec<(String, StructuredValue)>,
    start: usize,
    ind: &Vec<char>,
    out: &mut String,
)
    requires
        start < pairs@.len(),
    ensures
        final (out)@ == old(out)@ + obj_items(obj_view(pairs@).skip(start as int), ind@),
    decreases pairs@, 1int, pairs@.len() - start,
{
    proof {
        lemma_obj_view_index(pairs@);
    }
    let n = pairs.len();
    out.push('\n');
    write_indent(ind, out);
    write_quoted(&pairs[start].0, out);
    out.push(':');
    out.push(' ');
    write_value(&pairs[start].1, ind, out);
    if start + 1 < n {
        out.push(',');
        write_obj_items(pairs, start + 1, ind, out);
        proof {
            assert(obj_view(pairs@).skip(start as int).skip(1) =~= obj_view(pairs@).skip(
                start + 1,
            ));
            assert(obj_view(pairs@).skip(start as int)[0] == (
                pairs@[start as int].0@,
                value_view(pairs@[start as int].1),
            ));
            assert(out@ =~= old(out)@ + obj_items(obj_view(pairs@).skip(start as int), ind@));
        }
    } else {
        proof {
            assert(obj_view(pairs@).skip(start as int).len() == 1);
            assert(obj_view(pairs@).skip(start as int)[0] == (
                pairs@[start as int].0@,
                value_view(pairs@[start as int].1),
            ));
            assert(out@ =~= old(out)@ + obj_items(obj_view(pairs@).skip(start as int), ind@));
        }
    }
}

/// The pretty JSON text of a value: two-space indent, one line per element.
pub fn to_json_pretty(v: &StructuredValue) -> (r: String)
    ensures
        r@ == json_pretty(v@),
{
    let mut out = String::new();
    let ind: Vec<char> = Vec::new();
    write_value(v, &ind, &mut out);
    proof {
        assert(out@ =~= json_pretty(v@));
    }
    out
}

} // verus!
