//! The configuration synthesizer: builds the derived lint configuration and
//! the dependency-manifest fragment from the chosen style guide and feature
//! flags, and accumulates the three output config files.

use vstd::prelude::*;

use crate::value::{
    has_key, lookup, obj_insert, obj_view, value_view, merge_view, StructuredValue, ValueView,
    find_key, lemma_obj_view_index, lemma_key_index, lemma_view_variants, obj_insert_exec,
};

verus! {

/// The style guide a generated project follows: a pure selector, never
/// combined with another.
#[derive(Debug, Clone, Copy)]
pub enum StyleGuide {
    Default,
    Airbnb,
    Standard,
}

/// The lower-case name of a style guide.
pub open spec fn label_view(sg: StyleGuide) -> Seq<char> {
    match sg {
        StyleGuide::Default => "default"@,
        StyleGuide::Airbnb => "airbnb"@,
        StyleGuide::Standard => "standard"@,
    }
}

impl StyleGuide {
    /// The lower-case name of the style guide.
    pub fn label(&self) -> (r: String)
        ensures
            r@ == label_view(*self),
    {
        match self {
            StyleGuide::Default => String::from_str("default"),
            StyleGuide::Airbnb => String::from_str("airbnb"),
            StyleGuide::Standard => String::from_str("standard"),
        }
    }
}

/// One output file: its name and the text accumulated for it so far. A file
/// whose buffer was never written is not emitted.
#[derive(Debug, Clone)]
pub struct ConfigFile(pub String, pub Option<String>);

impl ConfigFile {
    /// The file's name.
    pub open spec fn name_view(&self) -> Seq<char> {
        self.0@
    }

    /// The accumulated text, if any was pushed.
    pub open spec fn text_view(&self) -> Option<Seq<char>> {
        match self.1 {
            Some(s) => Some(s@),
            None => None,
        }
    }

    /// An empty buffer under the given file name.
    pub fn new(name: String) -> (r: Self)
        ensures
            r.name_view() == name@,
            r.text_view() is None,
    {
        Self(name, None)
    }

    /// Appends `value` to the buffer; a first push creates it.
    pub fn push_string(&mut self, value: String)
        ensures
            final (self).name_view() == old(self).name_view(),
            final (self).text_view() == match old(self).text_view() {
                Some(t) => Some(t + value@),
                None => Some(value@),
            },
    {
        if let Some(v) = &mut self.1 {
            v.append(value.as_str());
        } else {
            self.1 = Some(value);
        }
    }
}

/// The bundle of the three derived config files.
#[derive(Debug, Clone)]
pub struct ConfigFiles {
    pub editorconfig: ConfigFile,
    pub eslintrc: ConfigFile,
    pub prettierrc: ConfigFile,
}

impl ConfigFiles {
    /// Three empty buffers under the canonical file names.
    pub fn new() -> (r: Self)
        ensures
            r.editorconfig.name_view() == ".editorconfig"@,
            r.eslintrc.name_view() == ".eslintrc"@,
            r.prettierrc.name_view() == ".prettierrc"@,
            r.editorconfig.text_view() is None,
            r.eslintrc.text_view() is None,
            r.prettierrc.text_view() is None,
    {
        Self {
            editorconfig: ConfigFile::new(String::from_str(".editorconfig")),
            eslintrc: ConfigFile::new(String::from_str(".eslintrc")),
            prettierrc: ConfigFile::new(String::from_str(".prettierrc")),
        }
    }
}

/// Whether the fixed version table knows this dependency name.
pub open spec fn known_dep(n: Seq<char>) -> bool {
    ||| n == "@rushstack/eslint-patch"@
    ||| n == "@vue/eslint-config-airbnb"@
    ||| n == "@vue/eslint-config-airbnb-with-typescript"@
    ||| n == "@vue/eslint-config-prettier"@
    ||| n == "@vue/eslint-config-standard"@
    ||| n == "@vue/eslint-config-standard-with-typescript"@
    ||| n == "@vue/eslint-config-typescript"@
    ||| n == "eslint"@
    ||| n == "eslint-plugin-vue"@
    ||| n == "prettier"@
    ||| n == "standard"@
    ||| n == "typescript"@
}

/// The pinned version range of a known dependency.
pub open spec fn version_of(n: Seq<char>) -> Seq<char> {
    if n == "@rushstack/eslint-patch"@ {
        "^1.1.4"@
    } else if n == "@vue/eslint-config-airbnb"@ {
        "^7.0.0"@
    } else if n == "@vue/eslint-config-airbnb-with-typescript"@ {
        "^7.0.0"@
    } else if n == "@vue/eslint-config-prettier"@ {
        "^7.0.0"@
    } else if n == "@vue/eslint-config-standard"@ {
        "^8.0.1"@
    } else if n == "@vue/eslint-config-standard-with-typescript"@ {
        "^8.0.0"@
    } else if n == "@vue/eslint-config-typescript"@ {
        "^11.0.0"@
    } else if n == "eslint"@ {
        "^8.22.0"@
    } else if n == "eslint-plugin-vue"@ {
        "^9.3.0"@
    } else if n == "prettier"@ {
        "^2.7.1"@
    } else if n == "standard"@ {
        "^17.0.0"@
    } else {
        "~4.7.4"@
    }
}

/// The version range pinned for `name`, if the table knows it.
fn version_lookup(name: &String) -> (r: Option<String>)
    ensures
        match r {
            Some(v) => known_dep(name@) && v@ == version_of(name@),
            None => !known_dep(name@),
        },
{
    if *name == String::from_str("@rushstack/eslint-patch") {
        Some(String::from_str("^1.1.4"))
    } else if *name == String::from_str("@vue/eslint-config-airbnb") {
        Some(String::from_str("^7.0.0"))
    } else if *name == String::from_str("@vue/eslint-config-airbnb-with-typescript") {
        Some(String::from_str("^7.0.0"))
    } else if *name == String::from_str("@vue/eslint-config-prettier") {
        Some(String::from_str("^7.0.0"))
    } else if *name == String::from_str("@vue/eslint-config-standard") {
        Some(String::from_str("^8.0.1"))
    } else if *name == String::from_str("@vue/eslint-config-standard-with-typescript") {
        Some(String::from_str("^8.0.0"))
    } else if *name == String::from_str("@vue/eslint-config-typescript") {
        Some(String::from_str("^11.0.0"))
    } else if *name == String::from_str("eslint") {
        Some(String::from_str("^8.22.0"))
    } else if *name == String::from_str("eslint-plugin-vue") {
        Some(String::from_str("^9.3.0"))
    } else if *name == String::from_str("prettier") {
        Some(String::from_str("^2.7.1"))
    } else if *name == String::from_str("standard") {
        Some(String::from_str("^17.0.0"))
    } else if *name == String::from_str("typescript") {
        Some(String::from_str("~4.7.4"))
    } else {
        None
    }
}

/// The lint configuration under construction.
#[derive(Debug)]
pub struct EslintConfig(pub StructuredValue);

impl View for EslintConfig {
    type V = ValueView;

    open spec fn view(&self) -> ValueView {
        self.0@
    }
}

/// The model of a fresh lint configuration: `root` set, the framework's
/// essential rule set as the only extension.
pub open spec fn eslint_base() -> ValueView {
    ValueView::Obj(
        seq![
            ("root"@, ValueView::Bool(true)),
            ("extends"@, ValueView::Arr(seq![ValueView::Str("plugin:vue/essential"@)])),
        ],
    )
}

impl EslintConfig {
    /// A fresh lint configuration.
    pub fn new() -> (r: Self)
        ensures
            r@ == eslint_base(),
    {
        let mut pairs: Vec<(String, StructuredValue)> = Vec::new();
        pairs.push((String::from_str("root"), StructuredValue::Bool(true)));
        let mut exts: Vec<StructuredValue> = Vec::new();
        exts.push(StructuredValue::Str(String::from_str("plugin:vue/essential")));
        pairs.push((String::from_str("extends"), StructuredValue::Arr(exts)));
        let r = EslintConfig(StructuredValue::Obj(pairs));
        proof {
            let m = obj_view(r.0->Obj_0@);
            lemma_obj_view_index(r.0->Obj_0@);
            assert(m.len() == 2);
            assert(m[0].0 == "root"@);
            assert(m[0].1 == ValueView::Bool(true));
            assert(m[1].0 == "extends"@);
            let e = r.0->Obj_0@[1].1->Arr_0@;
            crate::value::lemma_arr_view_index(e);
            assert(crate::value::arr_view(e).len() == 1);
            assert(crate::value::arr_view(e)[0] == ValueView::Str("plugin:vue/essential"@));
            assert(m[1].1 == ValueView::Arr(crate::value::arr_view(e)));
            assert(m[1] =~~= ("extends"@, ValueView::Arr(seq![ValueView::Str("plugin:vue/essential"@)])));
            assert(m =~~= eslint_base()->Obj_0);
            assert(r@ =~~= eslint_base());
        }
        r
    }

    /// Appends a rule-set identifier to the `extends` array.
    pub fn add_extend(&mut self, plugin: &str)
        requires
            old(self)@ is Obj,
            has_key(old(self)@->Obj_0, "extends"@),
            lookup(old(self)@->Obj_0, "extends"@) is Arr,
        ensures
            final (self)@ == ValueView::Obj(
                obj_insert(
                    old(self)@->Obj_0,
                    "extends"@,
                    ValueView::Arr(
                        lookup(old(self)@->Obj_0, "extends"@)->Arr_0.push(
                            ValueView::Str(plugin@),
                        ),
                    ),
                ),
            ),
    {
        let key = String::from_str("extends");
        match &self.0 {
            StructuredValue::Obj(pairs) => {
                proof {
                    lemma_obj_view_index(pairs@);
                }
                match find_key(pairs, &key) {
                    Some(j) => {
                        let arr = match &pairs[j].1 {
                            StructuredValue::Arr(items) => {
                                let mut copy = crate::value::clone_values(items);
                                let ghost pre = copy@;
                                copy.push(StructuredValue::Str(String::from_str(plugin)));
                                proof {
                                    crate::value::lemma_arr_view_index(pre);
                                    crate::value::lemma_arr_view_index(copy@);
                                    crate::value::lemma_arr_view_index(items@);
                                    assert(crate::value::arr_view(copy@)
                                        =~= crate::value::arr_view(items@).push(
                                        ValueView::Str(plugin@),
                                    ));
                                }
                                copy
                            },
                            _ => {
                                proof {
                                    lemma_view_variants(pairs@[j as int].1);
                                    assert(false);
                                }
                                Vec::new()
                            },
                        };
                        let next = obj_insert_exec(pairs, &key, StructuredValue::Arr(arr));
                        proof {
                            crate::value::lemma_arr_view_index(
                                pairs@[j as int].1->Arr_0@,
                            );
                        }
                        self.0 = StructuredValue::Obj(next);
                        proof {
                            assert(final (self)@->Obj_0 =~= obj_insert(
                                old(self)@->Obj_0,
                                "extends"@,
                                ValueView::Arr(
                                    lookup(old(self)@->Obj_0, "extends"@)->Arr_0.push(
                                        ValueView::Str(plugin@),
                                    ),
                                ),
                            ));
                        }
                    },
                    None => {
                        proof {
                            assert(false);
                        }
                    },
                }
            },
            _ => {
                proof {
                    lemma_view_variants(self.0);
                    assert(false);
                }
            },
        }
    }

    /// The configuration as a structured value.
    pub fn get_value(&self) -> (r: &StructuredValue)
        ensures
            r@ == self@,
    {
        &self.0
    }

    /// Deep-merges a caller-supplied overlay into the configuration.
    pub fn merge(&mut self, other: &StructuredValue)
        ensures
            final (self)@ == merge_view(old(self)@, other@),
    {
        self.0 = crate::value::merge(&self.0, other);
    }

    /// Binds `key` to `val` at the top level of the configuration.
    pub fn set_val(&mut self, key: String, val: StructuredValue)
        requires
            old(self)@ is Obj,
        ensures
            final (self)@ == ValueView::Obj(obj_insert(old(self)@->Obj_0, key@, val@)),
    {
        match &self.0 {
            StructuredValue::Obj(pairs) => {
                let next = obj_insert_exec(pairs, &key, val);
                self.0 = StructuredValue::Obj(next);
            },
            _ => {
                proof {
                    lemma_view_variants(self.0);
                    assert(false);
                }
            },
        }
    }
}

/// The dependency-manifest fragment under construction.
#[derive(Debug)]
pub struct PkgConfig(pub StructuredValue);

impl View for PkgConfig {
    type V = ValueView;

    open spec fn view(&self) -> ValueView {
        self.0@
    }
}

/// The model of a fresh fragment: an empty `devDependencies` section.
pub open spec fn pkg_base() -> ValueView {
    ValueView::Obj(seq![("devDependencies"@, ValueView::Obj(Seq::empty()))])
}

/// A fragment's `devDependencies` section.
pub open spec fn dev_deps(v: ValueView) -> Seq<(Seq<char>, ValueView)> {
    lookup(v->Obj_0, "devDependencies"@)->Obj_0
}

/// A fragment whose `devDependencies` section is present and is an object.
pub open spec fn pkg_ok(v: ValueView) -> bool {
    &&& v is Obj
    &&& has_key(v->Obj_0, "devDependencies"@)
    &&& lookup(v->Obj_0, "devDependencies"@) is Obj
}

impl PkgConfig {
    /// A fresh dependency fragment.
    pub fn new() -> (r: Self)
        ensures
            r@ == pkg_base(),
            pkg_ok(r@),
    {
        let mut pairs: Vec<(String, StructuredValue)> = Vec::new();
        let inner: Vec<(String, StructuredValue)> = Vec::new();
        pairs.push((String::from_str("devDependencies"), StructuredValue::Obj(inner)));
        let r = PkgConfig(StructuredValue::Obj(pairs));
        proof {
            let m = obj_view(r.0->Obj_0@);
            lemma_obj_view_index(r.0->Obj_0@);
            assert(m.len() == 1);
            assert(m[0].0 == "devDependencies"@);
            let inner = r.0->Obj_0@[0].1->Obj_0@;
            lemma_obj_view_index(inner);
            assert(obj_view(inner) =~= Seq::<(Seq<char>, ValueView)>::empty());
            assert(m[0].1 =~~= ValueView::Obj(Seq::empty()));
            assert(m =~~= pkg_base()->Obj_0);
            assert(r@ =~~= pkg_base());
            crate::value::lemma_key_index_at(r@->Obj_0, "devDependencies"@, 0);
        }
        r
    }

    /// Adds `name` at its pinned version to `devDependencies`. The version
    /// table is a closed set: an unknown name is a programming error and is
    /// excluded by precondition.
    pub fn add_dependency(&mut self, name: &str)
        requires
            known_dep(name@),
            pkg_ok(old(self)@),
        ensures
            final (self)@ == ValueView::Obj(
                obj_insert(
                    old(self)@->Obj_0,
                    "devDependencies"@,
                    ValueView::Obj(
                        obj_insert(
                            dev_deps(old(self)@),
                            name@,
                            ValueView::Str(version_of(name@)),
                        ),
                    ),
                ),
            ),
            pkg_ok(final (self)@),
    {
        let key = String::from_str("devDependencies");
        let owned = String::from_str(name);
        let version = match version_lookup(&owned) {
            Some(v) => v,
            None => {
                proof {
                    assert(false);
                }
                String::new()
            },
        };
        match &self.0 {
            StructuredValue::Obj(pairs) => {
                proof {
                    lemma_obj_view_index(pairs@);
                }
                match find_key(pairs, &key) {
                    Some(j) => {
                        let inner = match &pairs[j].1 {
                            StructuredValue::Obj(sec) => obj_insert_exec(
                                sec,
                                &owned,
                                StructuredValue::Str(version),
                            ),
                            _ => {
                                proof {
                                    lemma_view_variants(pairs@[j as int].1);
                                    assert(false);
                                }
                                Vec::new()
                            },
                        };
                        let next = obj_insert_exec(pairs, &key, StructuredValue::Obj(inner));
                        self.0 = StructuredValue::Obj(next);
                        proof {
                            assert(final (self)@->Obj_0 =~= obj_insert(
                                old(self)@->Obj_0,
                                "devDependencies"@,
                                ValueView::Obj(
                                    obj_insert(
                                        dev_deps(old(self)@),
                                        name@,
                                        ValueView::Str(version_of(name@)),
                                    ),
                                ),
                            ));
                            lemma_pkg_ok_after_insert(
                                old(self)@->Obj_0,
                                obj_insert(
                                    dev_deps(old(self)@),
                                    name@,
                                    ValueView::Str(version_of(name@)),
                                ),
                            );
                        }
                    },
                    None => {
                        proof {
                            assert(false);
                        }
                    },
                }
            },
            _ => {
                proof {
                    lemma_view_variants(self.0);
                    assert(false);
                }
            },
        }
    }

    /// Deep-merges a caller-supplied overlay into the fragment.
    pub fn merge(&mut self, other: &StructuredValue)
        ensures
            final (self)@ == merge_view(old(self)@, other@),
    {
        self.0 = crate::value::merge(&self.0, other);
    }

    /// The value bound to `key` at the top level, if any.
    pub fn get(&self, key: &String) -> (r: Option<&StructuredValue>)
        requires
            self@ is Obj,
        ensures
            match r {
                Some(v) => has_key(self@->Obj_0, key@) && v@ == lookup(self@->Obj_0, key@),
                None => !has_key(self@->Obj_0, key@),
            },
    {
        match &self.0 {
            StructuredValue::Obj(pairs) => {
                proof {
                    lemma_obj_view_index(pairs@);
                }
                match find_key(pairs, key) {
                    Some(j) => {
                        proof {
                            lemma_key_index(obj_view(pairs@), key@);
                        }
                        Some(&pairs[j].1)
                    },
                    None => None,
                }
            },
            _ => {
                proof {
                    lemma_view_variants(self.0);
                    assert(false);
                }
                None
            },
        }
    }

    /// Whether `devDependencies` holds `name`.
    pub fn has_dependency(&self, name: &str) -> (r: bool)
        requires
            pkg_ok(self@),
        ensures
            r == has_key(dev_deps(self@), name@),
    {
        let key = String::from_str("devDependencies");
        let owned = String::from_str(name);
        match &self.0 {
            StructuredValue::Obj(pairs) => {
                proof {
                    lemma_obj_view_index(pairs@);
                }
                match find_key(pairs, &key) {
                    Some(j) => {
                        proof {
                            lemma_key_index(obj_view(pairs@), key@);
                        }
                        match &pairs[j].1 {
                            StructuredValue::Obj(sec) => {
                                proof {
                                    lemma_obj_view_index(sec@);
                                }
                                match find_key(sec, &owned) {
                                    Some(_) => true,
                                    None => false,
                                }
                            },
                            _ => {
                                proof {
                                    lemma_view_variants(pairs@[j as int].1);
                                    assert(false);
                                }
                                false
                            },
                        }
                    },
                    None => {
                        proof {
                            assert(false);
                        }
                        false
                    },
                }
            },
            _ => {
                proof {
                    lemma_view_variants(self.0);
                    assert(false);
                }
                false
            },
        }
    }
}

/// The rule-set extensions a style guide and language pair appends.
pub open spec fn rule_extends(sg: StyleGuide, ts: bool) -> Seq<Seq<char>> {
    match (sg, ts) {
        (StyleGuide::Default, true) => seq![
            "eslint:recommended"@,
            "@vue/eslint-config-typescript"@,
        ],
        (StyleGuide::Default, false) => seq!["eslint:recommended"@],
        (StyleGuide::Airbnb, false) => seq!["@vue/eslint-config-airbnb"@],
        (StyleGuide::Standard, false) => seq!["@vue/eslint-config-standard"@],
        (StyleGuide::Airbnb, true) => seq!["@vue/eslint-config-airbnb-with-typescript"@],
        (StyleGuide::Standard, true) => seq!["@vue/eslint-config-standard-with-typescript"@],
    }
}

/// The dependencies the same pair adds.
pub open spec fn rule_deps(sg: StyleGuide, ts: bool) -> Seq<Seq<char>> {
    match (sg, ts) {
        (StyleGuide::Default, true) => seq!["@vue/eslint-config-typescript"@],
        (StyleGuide::Default, false) => Seq::empty(),
        (StyleGuide::Airbnb, false) => seq!["@vue/eslint-config-airbnb"@],
        (StyleGuide::Standard, false) => seq!["@vue/eslint-config-standard"@],
        (StyleGuide::Airbnb, true) => seq!["@vue/eslint-config-airbnb-with-typescript"@],
        (StyleGuide::Standard, true) => Seq::empty(),
    }
}

/// Every dependency the synthesizer adds, in order: the base linter and its
/// framework plugin, the compatibility patch where a non-default rule set
/// meets type checking or a formatter, the rule-set packages, and the
/// formatter with its bridge rule set.
pub open spec fn dep_list(sg: StyleGuide, ts: bool, prettier: bool) -> Seq<Seq<char>> {
    seq!["eslint"@, "eslint-plugin-vue"@] + (if !(sg is Default) && (ts || prettier) {
        seq!["@rushstack/eslint-patch"@]
    } else {
        Seq::empty()
    }) + rule_deps(sg, ts) + (if prettier {
        seq!["prettier"@, "@vue/eslint-config-prettier"@]
    } else {
        Seq::empty()
    })
}

/// One dependency added to a fragment, as `add_dependency` does it.
pub open spec fn add_dep(v: ValueView, name: Seq<char>) -> ValueView {
    ValueView::Obj(
        obj_insert(
            v->Obj_0,
            "devDependencies"@,
            ValueView::Obj(obj_insert(dev_deps(v), name, ValueView::Str(version_of(name)))),
        ),
    )
}

/// The dependencies of `names` added in order.
pub open spec fn add_deps(v: ValueView, names: Seq<Seq<char>>) -> ValueView
    decreases names.len(),
{
    if names.len() == 0 {
        v
    } else {
        add_dep(add_deps(v, names.drop_last()), names[names.len() - 1])
    }
}

/// The dependency fragment the synthesizer builds before any caller overlay.
pub open spec fn synthesized_pkg(sg: StyleGuide, ts: bool, prettier: bool) -> ValueView {
    add_deps(pkg_base(), dep_list(sg, ts, prettier))
}

/// The fragment after the caller's additional dependencies, if any.
pub open spec fn merged_pkg(
    sg: StyleGuide,
    ts: bool,
    prettier: bool,
    extra: Option<ValueView>,
) -> ValueView {
    match extra {
        Some(e) => merge_view(synthesized_pkg(sg, ts, prettier), e),
        None => synthesized_pkg(sg, ts, prettier),
    }
}

/// One rule-set identifier appended, as `add_extend` does it.
pub open spec fn add_ext(v: ValueView, name: Seq<char>) -> ValueView {
    ValueView::Obj(
        obj_insert(
            v->Obj_0,
            "extends"@,
            ValueView::Arr(lookup(v->Obj_0, "extends"@)->Arr_0.push(ValueView::Str(name))),
        ),
    )
}

/// The identifiers of `names` appended in order.
pub open spec fn add_exts(v: ValueView, names: Seq<Seq<char>>) -> ValueView
    decreases names.len(),
{
    if names.len() == 0 {
        v
    } else {
        add_ext(add_exts(v, names.drop_last()), names[names.len() - 1])
    }
}

/// Every extension the synthesizer appends, in order; the formatter's bridge
/// rule set always comes last.
pub open spec fn ext_list(sg: StyleGuide, ts: bool, prettier: bool) -> Seq<Seq<char>> {
    rule_extends(sg, ts) + (if prettier {
        seq!["@vue/eslint-config-prettier"@]
    } else {
        Seq::empty()
    })
}

/// The lint configuration the synthesizer builds before any caller overlay.
pub open spec fn synthesized_eslint(sg: StyleGuide, ts: bool, prettier: bool) -> ValueView {
    add_exts(eslint_base(), ext_list(sg, ts, prettier))
}

/// The configuration after the caller's additional configuration, if any.
pub open spec fn merged_eslint(
    sg: StyleGuide,
    ts: bool,
    prettier: bool,
    cfg: Option<ValueView>,
) -> ValueView {
    match cfg {
        Some(c) => merge_view(synthesized_eslint(sg, ts, prettier), c),
        None => synthesized_eslint(sg, ts, prettier),
    }
}

/// The finalized configuration: the default style guide also pins the parser
/// to the latest language version.
pub open spec fn final_eslint(
    sg: StyleGuide,
    ts: bool,
    prettier: bool,
    cfg: Option<ValueView>,
) -> ValueView {
    let m = merged_eslint(sg, ts, prettier, cfg);
    if sg is Default {
        ValueView::Obj(
            obj_insert(
                m->Obj_0,
                "parserOptions"@,
                ValueView::Obj(seq![("ecmaVersion"@, ValueView::Str("latest"@))]),
            ),
        )
    } else {
        m
    }
}

/// The placeholder token some rule-set identifiers embed.
pub open spec fn alias_placeholder() -> Seq<char> {
    "CREATE_ALIAS_SETTING_PLACEHOLDER"@
}

/// The destructuring-import expression substituted for the placeholder.
pub open spec fn alias_setting(sg: StyleGuide) -> Seq<char> {
    "...require('@vue/eslint-config-"@ + label_view(sg) + "/createAliasSetting')"@
}

/// The serialized configuration with the placeholder substituted.
pub open spec fn stringified(v: ValueView, sg: StyleGuide) -> Seq<char> {
    crate::text::replace_all(crate::json::json_pretty(v), alias_placeholder(), alias_setting(sg))
}

/// Whether the compatibility patch ended up among the dependencies.
pub open spec fn patch_present(pkgv: ValueView) -> bool {
    has_key(dev_deps(pkgv), "@rushstack/eslint-patch"@)
}

/// The full text of the lint rule file.
pub open spec fn eslintrc_text(
    sg: StyleGuide,
    ts: bool,
    prettier: bool,
    cfg: Option<ValueView>,
    patched: bool,
) -> Seq<char> {
    (if sg is Default {
        "/* eslint-env node */\n"@
    } else {
        Seq::empty()
    }) + (if patched {
        "require('@rushstack/eslint-patch/modern-module-resolution')\\n\\n"@
    } else {
        Seq::empty()
    }) + "module.exports = "@ + stringified(final_eslint(sg, ts, prettier, cfg), sg) + "\n"@
}

/// The text of the formatter settings file.
pub open spec fn prettierrc_text(sg: StyleGuide) -> Seq<char> {
    match sg {
        StyleGuide::Default => Seq::empty(),
        _ => crate::json::json_pretty(crate::editor_config::prettier_settings_view()),
    }
}

/// After rebinding `devDependencies` to an object, the fragment is still
/// well-formed.
proof fn lemma_pkg_ok_after_insert(
    m: Seq<(Seq<char>, ValueView)>,
    inner: Seq<(Seq<char>, ValueView)>,
)
    requires
        has_key(m, "devDependencies"@),
    ensures
        pkg_ok(
            ValueView::Obj(obj_insert(m, "devDependencies"@, ValueView::Obj(inner))),
        ),
{
    let k = "devDependencies"@;
    crate::value::lemma_key_index(m, k);
    let i = crate::value::key_index(m, k);
    let m2 = obj_insert(m, k, ValueView::Obj(inner));
    crate::value::lemma_key_index_at(m2, k, i);
}

/// The fresh lint configuration has its `extends` array in place.
proof fn lemma_eslint_base_shape()
    ensures
        eslint_base() is Obj,
        has_key(eslint_base()->Obj_0, "extends"@),
        lookup(eslint_base()->Obj_0, "extends"@) == ValueView::Arr(
            seq![ValueView::Str("plugin:vue/essential"@)],
        ),
{
    reveal_strlit("root");
    reveal_strlit("extends");
    assert("root"@.len() == 4);
    assert("extends"@.len() == 7);
    crate::value::lemma_key_index_at(eslint_base()->Obj_0, "extends"@, 1);
}

/// Appending an extension keeps the `extends` array reachable.
proof fn lemma_add_ext_shape(v: ValueView, n: Seq<char>)
    requires
        v is Obj,
        has_key(v->Obj_0, "extends"@),
        lookup(v->Obj_0, "extends"@) is Arr,
    ensures
        add_ext(v, n) is Obj,
        has_key(add_ext(v, n)->Obj_0, "extends"@),
        lookup(add_ext(v, n)->Obj_0, "extends"@) == ValueView::Arr(
            lookup(v->Obj_0, "extends"@)->Arr_0.push(ValueView::Str(n)),
        ),
{
    crate::value::lemma_obj_insert_lookup(
        v->Obj_0,
        "extends"@,
        ValueView::Arr(lookup(v->Obj_0, "extends"@)->Arr_0.push(ValueView::Str(n))),
        "extends"@,
    );
}

/// The `extends` array of the synthesized configuration: the framework's
/// essential rule set first, then the chosen rule sets in order.
pub proof fn lemma_add_exts_content(v: ValueView, names: Seq<Seq<char>>)
    requires
        v is Obj,
        has_key(v->Obj_0, "extends"@),
        lookup(v->Obj_0, "extends"@) is Arr,
    ensures
        add_exts(v, names) is Obj,
        has_key(add_exts(v, names)->Obj_0, "extends"@),
        lookup(add_exts(v, names)->Obj_0, "extends"@) is Arr,
        lookup(add_exts(v, names)->Obj_0, "extends"@)->Arr_0 == lookup(
            v->Obj_0,
            "extends"@,
        )->Arr_0 + names.map_values(|n: Seq<char>| ValueView::Str(n)),
    decreases names.len(),
{
    let strs = |n: Seq<char>| ValueView::Str(n);
    if names.len() == 0 {
        assert(lookup(v->Obj_0, "extends"@)->Arr_0 + names.map_values(strs) =~= lookup(
            v->Obj_0,
            "extends"@,
        )->Arr_0);
    } else {
        lemma_add_exts_content(v, names.drop_last());
        lemma_add_ext_shape(add_exts(v, names.drop_last()), names[names.len() - 1]);
        assert(names.drop_last().map_values(strs) =~= names.map_values(strs).drop_last());
        assert(lookup(v->Obj_0, "extends"@)->Arr_0 + names.map_values(strs) =~= (lookup(
            v->Obj_0,
            "extends"@,
        )->Arr_0 + names.map_values(strs).drop_last()).push(
            ValueView::Str(names[names.len() - 1]),
        ));
    }
}

/// Law: when a formatter is requested, the formatter's bridge rule set is
/// the last entry of the synthesized `extends` array.
pub proof fn lemma_formatter_extends_last(sg: StyleGuide, ts: bool)
    ensures
        ({
            let exts = lookup(synthesized_eslint(sg, ts, true)->Obj_0, "extends"@)->Arr_0;
            exts.len() > 0 && exts[exts.len() - 1] == ValueView::Str(
                "@vue/eslint-config-prettier"@,
            )
        }),
{
    lemma_eslint_base_shape();
    lemma_add_exts_content(eslint_base(), ext_list(sg, ts, true));
    let names = ext_list(sg, ts, true);
    assert(names[names.len() - 1] == "@vue/eslint-config-prettier"@);
    assert(names.map_values(|n: Seq<char>| ValueView::Str(n))[names.len() - 1]
        == ValueView::Str("@vue/eslint-config-prettier"@));
}

/// The serialized lint configuration with the placeholder replaced by the
/// style guide's destructuring-import expression.
fn stringify_js(eslint_config: &EslintConfig, style_guide: &StyleGuide) -> (r: String)
    ensures
        r@ == stringified(eslint_config@, *style_guide),
{
    let text = crate::json::to_json_pretty(eslint_config.get_value());
    let cs = crate::text::str_chars(text.as_str());
    let pat = crate::text::str_chars("CREATE_ALIAS_SETTING_PLACEHOLDER");
    proof {
        reveal_strlit("CREATE_ALIAS_SETTING_PLACEHOLDER");
        assert(alias_placeholder().len() == 32);
    }
    let mut repl = String::from_str("...require('@vue/eslint-config-");
    let label = style_guide.label();
    repl.append(label.as_str());
    repl.append("/createAliasSetting')");
    let rep = crate::text::str_chars(repl.as_str());
    let out_cs = crate::text::replace_all_chars(&cs, &pat, &rep);
    let out = crate::text::chars_to_string(&out_cs);
    proof {
        assert(rep@ == alias_setting(*style_guide));
    }
    out
}

/// What the synthesizer is asked to build: the style guide, the two feature
/// flags, and the caller's optional configuration and dependency overlays.
pub struct CreateConfig {
    pub style_guide: StyleGuide,
    pub has_typescript: bool,
    pub needs_prettier: bool,
    pub additional_config: Option<StructuredValue>,
    pub additional_dependencies: Option<StructuredValue>,
}

/// The model of an optional overlay.
pub open spec fn opt_view(o: Option<StructuredValue>) -> Option<ValueView> {
    match o {
        Some(v) => Some(v@),
        None => None,
    }
}

impl CreateConfig {
    /// Builds the dependency fragment and the three config file buffers from
    /// the chosen flags. A caller overlay that destroys the shape the
    /// synthesizer relies on (the `devDependencies` object, or the
    /// configuration object itself under the default style guide) is a
    /// programming error and is excluded by precondition.
    #[verifier::rlimit(100)]
    pub fn create(&self) -> (r: (PkgConfig, ConfigFiles))
        requires
            pkg_ok(
                merged_pkg(
                    self.style_guide,
                    self.has_typescript,
                    self.needs_prettier,
                    opt_view(self.additional_dependencies),
                ),
            ),
            self.style_guide is Default && self.additional_config is Some ==> merged_eslint(
                self.style_guide,
                self.has_typescript,
                self.needs_prettier,
                opt_view(self.additional_config),
            ) is Obj,
        ensures
            r.0@ == merged_pkg(
                self.style_guide,
                self.has_typescript,
                self.needs_prettier,
                opt_view(self.additional_dependencies),
            ),
            r.1.editorconfig.name_view() == ".editorconfig"@,
            r.1.eslintrc.name_view() == ".eslintrc"@,
            r.1.prettierrc.name_view() == ".prettierrc"@,
            r.1.editorconfig.text_view() == (if self.style_guide is Default {
                Option::<Seq<char>>::None
            } else {
                Option::<Seq<char>>::Some(crate::editor_config::editor_text(self.style_guide))
            }),
            r.1.eslintrc.text_view() == Some(
                eslintrc_text(
                    self.style_guide,
                    self.has_typescript,
                    self.needs_prettier,
                    opt_view(self.additional_config),
                    patch_present(r.0@),
                ),
            ),
            r.1.prettierrc.text_view() == (if self.needs_prettier {
                Option::<Seq<char>>::Some(prettierrc_text(self.style_guide))
            } else {
                Option::<Seq<char>>::None
            }),
    {
        let style_guide = self.style_guide;
        let has_typescript = self.has_typescript;
        let needs_prettier = self.needs_prettier;

        let mut pkg = PkgConfig::new();
        let ghost mut dnames: Seq<Seq<char>> = Seq::empty();
        proof {
            assert(pkg@ == add_deps(pkg_base(), dnames));
        }

        pkg.add_dependency("eslint");
        proof {
            assert(dnames.push("eslint"@).drop_last() =~= dnames);
            dnames = dnames.push("eslint"@);
            assert(pkg@ == add_deps(pkg_base(), dnames));
        }
        pkg.add_dependency("eslint-plugin-vue");
        proof {
            assert(dnames.push("eslint-plugin-vue"@).drop_last() =~= dnames);
            dnames = dnames.push("eslint-plugin-vue"@);
            assert(pkg@ == add_deps(pkg_base(), dnames));
        }

        match &style_guide {
            StyleGuide::Default => {},
            _ => {
                if has_typescript || needs_prettier {
                    pkg.add_dependency("@rushstack/eslint-patch");
                    proof {
                        assert(dnames.push("@rushstack/eslint-patch"@).drop_last() =~= dnames);
                        dnames = dnames.push("@rushstack/eslint-patch"@);
                        assert(pkg@ == add_deps(pkg_base(), dnames));
                    }
                }
            },
        }

        let mut eslint_config = EslintConfig::new();
        let ghost mut enames: Seq<Seq<char>> = Seq::empty();
        proof {
            lemma_eslint_base_shape();
            assert(eslint_config@ == add_exts(eslint_base(), enames));
            lemma_add_exts_content(eslint_base(), enames);
        }

        match (&style_guide, has_typescript) {
            (StyleGuide::Default, true) => {
                eslint_config.add_extend("eslint:recommended");
                proof {
                    assert(enames.push("eslint:recommended"@).drop_last() =~= enames);
                    enames = enames.push("eslint:recommended"@);
                    assert(eslint_config@ == add_exts(eslint_base(), enames));
                    lemma_add_exts_content(eslint_base(), enames);
                }
                eslint_config.add_extend("@vue/eslint-config-typescript");
                proof {
                    assert(enames.push("@vue/eslint-config-typescript"@).drop_last() =~= enames);
                    enames = enames.push("@vue/eslint-config-typescript"@);
                    assert(eslint_config@ == add_exts(eslint_base(), enames));
                    lemma_add_exts_content(eslint_base(), enames);
                }
                pkg.add_dependency("@vue/eslint-config-typescript");
                proof {
                    assert(dnames.push("@vue/eslint-config-typescript"@).drop_last() =~= dnames);
                    dnames = dnames.push("@vue/eslint-config-typescript"@);
                    assert(pkg@ == add_deps(pkg_base(), dnames));
                }
            },
            (StyleGuide::Default, false) => {
                eslint_config.add_extend("eslint:recommended");
                proof {
                    assert(enames.push("eslint:recommended"@).drop_last() =~= enames);
                    enames = enames.push("eslint:recommended"@);
                    assert(eslint_config@ == add_exts(eslint_base(), enames));
                    lemma_add_exts_content(eslint_base(), enames);
                }
            },
            (StyleGuide::Airbnb, false) => {
                eslint_config.add_extend("@vue/eslint-config-airbnb");
                proof {
                    assert(enames.push("@vue/eslint-config-airbnb"@).drop_last() =~= enames);
                    enames = enames.push("@vue/eslint-config-airbnb"@);
                    assert(eslint_config@ == add_exts(eslint_base(), enames));
                    lemma_add_exts_content(eslint_base(), enames);
                }
                pkg.add_dependency("@vue/eslint-config-airbnb");
                proof {
                    assert(dnames.push("@vue/eslint-config-airbnb"@).drop_last() =~= dnames);
                    dnames = dnames.push("@vue/eslint-config-airbnb"@);
                    assert(pkg@ == add_deps(pkg_base(), dnames));
                }
            },
            (StyleGuide::Standard, false) => {
                eslint_config.add_extend("@vue/eslint-config-standard");
                proof {
                    assert(enames.push("@vue/eslint-config-standard"@).drop_last() =~= enames);
                    enames = enames.push("@vue/eslint-config-standard"@);
                    assert(eslint_config@ == add_exts(eslint_base(), enames));
                    lemma_add_exts_content(eslint_base(), enames);
                }
                pkg.add_dependency("@vue/eslint-config-standard");
                proof {
                    assert(dnames.push("@vue/eslint-config-standard"@).drop_last() =~= dnames);
                    dnames = dnames.push("@vue/eslint-config-standard"@);
                    assert(pkg@ == add_deps(pkg_base(), dnames));
                }
            },
            (StyleGuide::Airbnb, true) => {
                eslint_config.add_extend("@vue/eslint-config-airbnb-with-typescript");
                proof {
                    assert(enames.push("@vue/eslint-config-airbnb-with-typescript"@).drop_last()
                        =~= enames);
                    enames = enames.push("@vue/eslint-config-airbnb-with-typescript"@);
                    assert(eslint_config@ == add_exts(eslint_base(), enames));
                    lemma_add_exts_content(eslint_base(), enames);
                }
                pkg.add_dependency("@vue/eslint-config-airbnb-with-typescript");
                proof {
                    assert(dnames.push("@vue/eslint-config-airbnb-with-typescript"@).drop_last()
                        =~= dnames);
                    dnames = dnames.push("@vue/eslint-config-airbnb-with-typescript"@);
                    assert(pkg@ == add_deps(pkg_base(), dnames));
                }
            },
            (StyleGuide::Standard, true) => {
                eslint_config.add_extend("@vue/eslint-config-standard-with-typescript");
                proof {
                    assert(enames.push(
                        "@vue/eslint-config-standard-with-typescript"@,
                    ).drop_last() =~= enames);
                    enames = enames.push("@vue/eslint-config-standard-with-typescript"@);
                    assert(eslint_config@ == add_exts(eslint_base(), enames));
                    lemma_add_exts_content(eslint_base(), enames);
                }
            },
        }

        if needs_prettier {
            pkg.add_dependency("prettier");
            proof {
                assert(dnames.push("prettier"@).drop_last() =~= dnames);
                dnames = dnames.push("prettier"@);
                assert(pkg@ == add_deps(pkg_base(), dnames));
            }
            pkg.add_dependency("@vue/eslint-config-prettier");
            proof {
                assert(dnames.push("@vue/eslint-config-prettier"@).drop_last() =~= dnames);
                dnames = dnames.push("@vue/eslint-config-prettier"@);
                assert(pkg@ == add_deps(pkg_base(), dnames));
            }
            eslint_config.add_extend("@vue/eslint-config-prettier");
            proof {
                assert(enames.push("@vue/eslint-config-prettier"@).drop_last() =~= enames);
                enames = enames.push("@vue/eslint-config-prettier"@);
                assert(eslint_config@ == add_exts(eslint_base(), enames));
                lemma_add_exts_content(eslint_base(), enames);
            }
        }

        proof {
            assert(dnames =~= dep_list(style_guide, has_typescript, needs_prettier));
            assert(enames =~= ext_list(style_guide, has_typescript, needs_prettier));
            assert(pkg@ == synthesized_pkg(style_guide, has_typescript, needs_prettier));
            assert(eslint_config@ == synthesized_eslint(
                style_guide,
                has_typescript,
                needs_prettier,
            ));
        }

        match &self.additional_dependencies {
            Some(dep) => pkg.merge(dep),
            None => {},
        }

        match &self.additional_config {
            Some(config) => eslint_config.merge(config),
            None => {},
        }

        let mut files = ConfigFiles::new();

        match &style_guide {
            StyleGuide::Default => {
                files.eslintrc.push_string(String::from_str("/* eslint-env node */\n"));

                let mut opts: Vec<(String, StructuredValue)> = Vec::new();
                opts.push(
                    (
                        String::from_str("ecmaVersion"),
                        StructuredValue::Str(String::from_str("latest")),
                    ),
                );
                let opts_value = StructuredValue::Obj(opts);
                proof {
                    let m = obj_view(opts_value->Obj_0@);
                    lemma_obj_view_index(opts_value->Obj_0@);
                    assert(m.len() == 1);
                    assert(m[0].0 == "ecmaVersion"@);
                    assert(m[0].1 == ValueView::Str("latest"@));
                    assert(m =~~= seq![("ecmaVersion"@, ValueView::Str("latest"@))]);
                    assert(opts_value@ =~~= ValueView::Obj(
                        seq![("ecmaVersion"@, ValueView::Str("latest"@))],
                    ));
                }
                eslint_config.set_val(String::from_str("parserOptions"), opts_value);
            },
            _ => {
                let editor_config = crate::editor_config::Editorconfilgs::new();
                let config = editor_config.get(&style_guide);
                files.editorconfig.push_string(config);
            },
        }

        proof {
            assert(eslint_config@ == final_eslint(
                style_guide,
                has_typescript,
                needs_prettier,
                opt_view(self.additional_config),
            ));
        }

        if pkg.has_dependency("@rushstack/eslint-patch") {
            files.eslintrc.push_string(
                String::from_str("require('@rushstack/eslint-patch/modern-module-resolution')\\n\\n"),
            );
        }

        let mut export_line = String::from_str("module.exports = ");
        let body = stringify_js(&eslint_config, &style_guide);
        export_line.append(body.as_str());
        export_line.append("\n");
        files.eslintrc.push_string(export_line);

        proof {
            assert(files.eslintrc.text_view() == Some(
                eslintrc_text(
                    style_guide,
                    has_typescript,
                    needs_prettier,
                    opt_view(self.additional_config),
                    patch_present(pkg@),
                ),
            )) by {
                assert(files.eslintrc.text_view()->0 =~= eslintrc_text(
                    style_guide,
                    has_typescript,
                    needs_prettier,
                    opt_view(self.additional_config),
                    patch_present(pkg@),
                ));
            }
        }

        if needs_prettier {
            match &style_guide {
                StyleGuide::Default => {
                    files.prettierrc.push_string(String::new());
                },
                _ => {
                    let settings = crate::editor_config::Prettierconfigs::new();
                    let value = settings.get(&style_guide);
                    let text = crate::json::to_json_pretty(&value);
                    files.prettierrc.push_string(text);
                },
            }
        }

        (pkg, files)
    }
}

} // verus!
