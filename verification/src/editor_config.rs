//! Fixed per-style-guide templates: editor settings text and formatter
//! settings objects, one literal variant for each non-default style guide.

use vstd::prelude::*;

use crate::create_eslint_config::StyleGuide;
use crate::value::{lemma_obj_view_index, obj_view, StructuredValue, ValueView};

verus! {

/// The editor settings text of the Airbnb style guide.
pub open spec fn airbnb_editor_text() -> Seq<char> {
    "root = true\n[*.{js,jsx,mjs,cjs,ts,tsx,mts,cts,vue}]\ncharset = utf-8\nend_of_line = lf\nindent_size = 2\nindent_style = space\ninsert_final_newline = true\nmax_line_length = 100\ntrim_trailing_whitespace = true\n"@
}

/// The editor settings text of the Standard style guide.
pub open spec fn standard_editor_text() -> Seq<char> {
    "root = true\n\n[*.{js,jsx,mjs,cjs,ts,tsx,mts,cts,vue}]\ncharset = utf-8\nindent_size = 2\nindent_style = space\ninsert_final_newline = true\ntrim_trailing_whitespace = true"@
}

/// The editor settings text a style guide selects: the default style guide
/// has none.
pub open spec fn editor_text(sg: StyleGuide) -> Seq<char> {
    match sg {
        StyleGuide::Airbnb => airbnb_editor_text(),
        StyleGuide::Standard => standard_editor_text(),
        StyleGuide::Default => Seq::empty(),
    }
}

/// The two editor settings variants, one per non-default style guide.
pub struct Editorconfilgs {
    pub airbnb: String,
    pub standard: String,
}

impl Editorconfilgs {
    /// The fixed editor settings texts.
    pub fn new() -> (r: Self)
        ensures
            r.airbnb@ == airbnb_editor_text(),
            r.standard@ == standard_editor_text(),
    {
        let airbnb = String::from_str(
            "root = true\n[*.{js,jsx,mjs,cjs,ts,tsx,mts,cts,vue}]\ncharset = utf-8\nend_of_line = lf\nindent_size = 2\nindent_style = space\ninsert_final_newline = true\nmax_line_length = 100\ntrim_trailing_whitespace = true\n",
        );
        let standard = String::from_str(
            "root = true\n\n[*.{js,jsx,mjs,cjs,ts,tsx,mts,cts,vue}]\ncharset = utf-8\nindent_size = 2\nindent_style = space\ninsert_final_newline = true\ntrim_trailing_whitespace = true",
        );
        Self { airbnb, standard }
    }

    /// The text for the given style guide; empty for the default one.
    pub fn get(&self, style_guide: &StyleGuide) -> (r: String)
        ensures
            r@ == match *style_guide {
                StyleGuide::Airbnb => self.airbnb@,
                StyleGuide::Standard => self.standard@,
                StyleGuide::Default => Seq::<char>::empty(),
            },
    {
        match style_guide {
            StyleGuide::Airbnb => self.airbnb.clone(),
            StyleGuide::Standard => self.standard.clone(),
            StyleGuide::Default => String::new(),
        }
    }
}

/// The model of the fixed formatter settings.
pub open spec fn prettier_settings_view() -> ValueView {
    ValueView::Obj(
        seq![
            ("$schema"@, ValueView::Str("https://json.schemastore.org/prettierrc"@)),
            ("arrowParens"@, ValueView::Str("always"@)),
            ("bracketSameLine"@, ValueView::Bool(false)),
            ("bracketSpacing"@, ValueView::Bool(true)),
            ("endOfLine"@, ValueView::Str("lf"@)),
            ("jsxSingleQuote"@, ValueView::Bool(false)),
            ("printWidth"@, ValueView::Num(100)),
            ("proseWrap"@, ValueView::Str("preserve"@)),
            ("quoteProps"@, ValueView::Str("as-needed"@)),
            ("semi"@, ValueView::Bool(true)),
            ("singleQuote"@, ValueView::Bool(true)),
            ("tabWidth"@, ValueView::Num(2)),
            ("trailingComma"@, ValueView::Str("all"@)),
            ("useTabs"@, ValueView::Bool(false)),
        ],
    )
}

/// The fixed formatter settings object.
fn build_prettier_settings() -> (r: StructuredValue)
    ensures
        r@ == prettier_settings_view(),
{
    let mut pairs: Vec<(String, StructuredValue)> = Vec::new();
    pairs.push(
        (
            String::from_str("$schema"),
            StructuredValue::Str(String::from_str("https://json.schemastore.org/prettierrc")),
        ),
    );
    pairs.push(
        (String::from_str("arrowParens"), StructuredValue::Str(String::from_str("always"))),
    );
    pairs.push((String::from_str("bracketSameLine"), StructuredValue::Bool(false)));
    pairs.push((String::from_str("bracketSpacing"), StructuredValue::Bool(true)));
    pairs.push((String::from_str("endOfLine"), StructuredValue::Str(String::from_str("lf"))));
    pairs.push((String::from_str("jsxSingleQuote"), StructuredValue::Bool(false)));
    pairs.push((String::from_str("printWidth"), StructuredValue::Num(100)));
    pairs.push(
        (String::from_str("proseWrap"), StructuredValue::Str(String::from_str("preserve"))),
    );
    pairs.push(
        (String::from_str("quoteProps"), StructuredValue::Str(String::from_str("as-needed"))),
    );
    pairs.push((String::from_str("semi"), StructuredValue::Bool(true)));
    pairs.push((String::from_str("singleQuote"), StructuredValue::Bool(true)));
    pairs.push((String::from_str("tabWidth"), StructuredValue::Num(2)));
    pairs.push((String::from_str("trailingComma"), StructuredValue::Str(String::from_str("all"))));
    pairs.push((String::from_str("useTabs"), StructuredValue::Bool(false)));
    let r = StructuredValue::Obj(pairs);
    proof {
        let m = obj_view(r->Obj_0@);
        lemma_obj_view_index(r->Obj_0@);
        assert(m.len() == 14);
        assert(m =~~= prettier_settings_view()->Obj_0);
        assert(r@ =~~= prettier_settings_view());
    }
    r
}

/// The two formatter settings variants; both non-default style guides share
/// one fixed table.
pub struct Prettierconfigs {
    pub airbnb: StructuredValue,
    pub standard: StructuredValue,
}

impl Prettierconfigs {
    /// The fixed formatter settings.
    pub fn new() -> (r: Self)
        ensures
            r.airbnb@ == prettier_settings_view(),
            r.standard@ == prettier_settings_view(),
    {
        Self { airbnb: build_prettier_settings(), standard: build_prettier_settings() }
    }

    /// The settings for the given style guide; empty for the default one.
    pub fn get(&self, style_guide: &StyleGuide) -> (r: StructuredValue)
        ensures
            r@ == match *style_guide {
                StyleGuide::Airbnb => self.airbnb@,
                StyleGuide::Standard => self.standard@,
                StyleGuide::Default => ValueView::Obj(Seq::empty()),
            },
    {
        match style_guide {
            StyleGuide::Airbnb => self.airbnb.deep_clone(),
            StyleGuide::Standard => self.standard.deep_clone(),
            StyleGuide::Default => {
                let pairs: Vec<(String, StructuredValue)> = Vec::new();
                let r = StructuredValue::Obj(pairs);
                proof {
                    lemma_obj_view_index(r->Obj_0@);
                    assert(obj_view(r->Obj_0@) =~= Seq::<(Seq<char>, ValueView)>::empty());
                }
                r
            },
        }
    }
}

/// The formatter settings for each non-default style guide, Airbnb first.
pub fn create_config() -> (r: [StructuredValue; 2])
    ensures
        r@.len() == 2,
        r@[0]@ == prettier_settings_view(),
        r@[1]@ == prettier_settings_view(),
{
    let airbnb = build_prettier_settings();
    let standard = build_prettier_settings();
    [airbnb, standard]
}

} // verus!
