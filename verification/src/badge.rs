//! Options of a data badge, and their translation to and from attributes.

use vstd::prelude::*;
use crate::attributes::Attributes;
use crate::strings::str_eq;
use crate::dialog::opt_view;

verus! {

/// Options of a data badge: sampler, suffix, alignment, style and whether a
/// colon follows the title.
pub struct Options {
    pub sampler: Option<String>,
    pub suffix: Option<String>,
    pub align: Option<String>,
    pub style: Option<String>,
    pub colon: bool,
}

/// Badge options with their strings taken by their characters.
pub struct OptionsView {
    pub sampler: Option<Seq<char>>,
    pub suffix: Option<Seq<char>>,
    pub align: Option<Seq<char>>,
    pub style: Option<Seq<char>>,
    pub colon: bool,
}

impl View for Options {
    type V = OptionsView;

    open spec fn view(&self) -> OptionsView {
        OptionsView {
            sampler: opt_view(self.sampler),
            suffix: opt_view(self.suffix),
            align: opt_view(self.align),
            style: opt_view(self.style),
            colon: self.colon,
        }
    }
}

/// The value an attribute map holds for a key, if any.
pub open spec fn attr(m: Map<Seq<char>, String>, k: Seq<char>) -> Option<Seq<char>> {
    if m.contains_key(k) {
        Some(m[k]@)
    } else {
        None
    }
}

/// The colon flag that a map of attributes sets: `has-colon` decides over
/// `has_colon`, each turning the colon on exactly when it reads `true`; with
/// neither, the colon stays on.
pub open spec fn colon_from(m: Map<Seq<char>, String>) -> bool {
    match attr(m, "has-colon"@) {
        Some(v) => v == "true"@,
        None => match attr(m, "has_colon"@) {
            Some(v) => v == "true"@,
            None => true,
        },
    }
}

/// The options that a map of attributes describes.
pub open spec fn options_from(m: Map<Seq<char>, String>) -> OptionsView {
    OptionsView {
        sampler: attr(m, "sampler"@),
        suffix: attr(m, "suffix"@),
        align: attr(m, "align"@),
        style: attr(m, "style"@),
        colon: colon_from(m),
    }
}

/// Adds an optional entry to a map of attribute values.
pub open spec fn put_opt(m: Map<Seq<char>, Seq<char>>, k: Seq<char>, v: Option<Seq<char>>) -> Map<
    Seq<char>,
    Seq<char>,
> {
    match v {
        Some(x) => m.insert(k, x),
        None => m,
    }
}

/// The attributes that options turn into: each set option under its name,
/// and `has_colon` set to `true` when the colon is on.
pub open spec fn attributes_of(o: OptionsView) -> Map<Seq<char>, Seq<char>> {
    let m = put_opt(Map::empty(), "sampler"@, o.sampler);
    let m = put_opt(m, "suffix"@, o.suffix);
    let m = put_opt(m, "align"@, o.align);
    let m = put_opt(m, "style"@, o.style);
    if o.colon {
        m.insert("has_colon"@, "true"@)
    } else {
        m
    }
}

/// An attribute map taken by the characters of its values.
pub open spec fn attr_values(m: Map<Seq<char>, String>) -> Map<Seq<char>, Seq<char>> {
    m.map_values(|v: String| v@)
}

fn clone_opt(o: &Option<String>) -> (res: Option<String>)
    ensures
        opt_view(res) == opt_view(*o),
{
    match o {
        Some(s) => Some(s.clone()),
        None => None,
    }
}

fn get_attr(attributes: &Attributes, k: &str) -> (res: Option<String>)
    requires
        attributes.wf(),
    ensures
        opt_view(res) == attr(attributes@, k@),
{
    match attributes.get(k) {
        Some(v) => Some(v.clone()),
        None => None,
    }
}

impl Default for Options {
    /// The default options: nothing set, colon on.
    fn default() -> (res: Self)
        ensures
            res@ == (OptionsView { sampler: None, suffix: None, align: None, style: None, colon: true }),
    {
        Options { sampler: None, suffix: None, align: None, style: None, colon: true }
    }
}

impl Options {

    /// Sets the sampler.
    pub fn sampler(self, sampler: &str) -> (res: Self)
        ensures
            res@ == (OptionsView { sampler: Some(sampler@), ..self@ }),
    {
        Options { sampler: Some(sampler.to_owned()), ..self }
    }

    /// Sets the suffix.
    pub fn suffix(self, suffix: &str) -> (res: Self)
        ensures
            res@ == (OptionsView { suffix: Some(suffix@), ..self@ }),
    {
        Options { suffix: Some(suffix.to_owned()), ..self }
    }

    /// Sets the alignment.
    pub fn align(self, align: &str) -> (res: Self)
        ensures
            res@ == (OptionsView { align: Some(align@), ..self@ }),
    {
        Options { align: Some(align.to_owned()), ..self }
    }

    /// Sets the style.
    pub fn style(self, style: &str) -> (res: Self)
        ensures
            res@ == (OptionsView { style: Some(style@), ..self@ }),
    {
        Options { style: Some(style.to_owned()), ..self }
    }

    /// Turns the colon on or off.
    pub fn colon(self, colon: bool) -> (res: Self)
        ensures
            res@ == (OptionsView { colon, ..self@ }),
    {
        Options { colon, ..self }
    }

    /// The options that a map of attributes describes.
    pub fn from_attributes(attributes: &Attributes) -> (res: Self)
        requires
            attributes.wf(),
        ensures
            res@ == options_from(attributes@),
    {
        let mut options = Options::default();
        options.sampler = get_attr(attributes, "sampler");
        options.suffix = get_attr(attributes, "suffix");
        options.align = get_attr(attributes, "align");
        options.style = get_attr(attributes, "style");
        if let Some(colon) = attributes.get("has_colon") {
            options.colon = str_eq(colon.as_str(), "true");
        }
        if let Some(colon) = attributes.get("has-colon") {
            options.colon = str_eq(colon.as_str(), "true");
        }
        options
    }

    /// The attributes these options turn into.
    pub fn to_attributes(&self) -> (res: Attributes)
        ensures
            res.wf(),
            attr_values(res@) == attributes_of(self@),
    {
        let mut attributes = Attributes::new();
        if let Some(sampler) = &self.sampler {
            attributes.insert("sampler".to_owned(), sampler.clone());
        }
        if let Some(suffix) = &self.suffix {
            attributes.insert("suffix".to_owned(), suffix.clone());
        }
        if let Some(align) = &self.align {
            attributes.insert("align".to_owned(), align.clone());
        }
        if let Some(style) = &self.style {
            attributes.insert("style".to_owned(), style.clone());
        }
        if self.colon {
            attributes.insert("has_colon".to_owned(), "true".to_owned());
        }
        proof {
            assert(attr_values(attributes@) =~= attributes_of(self@));
        }
        attributes
    }
}

impl Clone for Options {
    fn clone(&self) -> (res: Self)
        ensures
            res@ == self@,
    {
        Options {
            sampler: clone_opt(&self.sampler),
            suffix: clone_opt(&self.suffix),
            align: clone_opt(&self.align),
            style: clone_opt(&self.style),
            colon: self.colon,
        }
    }
}

/// Options with the colon on survive the trip through attributes: reading
/// back the attributes they turn into gives the same options.
pub proof fn lemma_options_roundtrip(o: OptionsView, m: Map<Seq<char>, String>)
    requires
        o.colon,
        attr_values(m) == attributes_of(o),
    ensures
        options_from(m) == o,
{
    reveal_strlit("sampler");
    reveal_strlit("suffix");
    reveal_strlit("align");
    reveal_strlit("style");
    reveal_strlit("has_colon");
    reveal_strlit("has-colon");
    reveal_strlit("true");
    let a = attributes_of(o);
    assert(m.dom() =~= a.dom());
    assert("sampler"@.len() != "suffix"@.len() && "sampler"@.len() != "align"@.len());
    assert("sampler"@.len() != "style"@.len() && "suffix"@.len() != "align"@.len());
    assert("suffix"@.len() != "style"@.len() && "align"@[0] != "style"@[0]);
    assert("has_colon"@.len() != "sampler"@.len() && "has_colon"@.len() != "suffix"@.len());
    assert("has_colon"@.len() != "align"@.len() && "has_colon"@.len() != "style"@.len());
    assert("has-colon"@[3] != "has_colon"@[3]);
    assert("has-colon"@.len() != "sampler"@.len() && "has-colon"@.len() != "suffix"@.len());
    assert("has-colon"@.len() != "align"@.len() && "has-colon"@.len() != "style"@.len());
    assert(!a.contains_key("has-colon"@));
    assert(a["has_colon"@] == "true"@);
    assert(m["has_colon"@]@ == a["has_colon"@]);
    if o.sampler is Some {
        assert(m["sampler"@]@ == a["sampler"@]);
    }
    if o.suffix is Some {
        assert(m["suffix"@]@ == a["suffix"@]);
    }
    if o.align is Some {
        assert(m["align"@]@ == a["align"@]);
    }
    if o.style is Some {
        assert(m["style"@]@ == a["style"@]);
    }
}

/// Without `has-colon`, a `has_colon` attribute decides the colon: it is on
/// exactly when `has_colon` reads `true`.
pub proof fn lemma_has_colon_decides(m: Map<Seq<char>, String>)
    requires
        !m.contains_key("has-colon"@),
        m.contains_key("has_colon"@),
    ensures
        options_from(m).colon == (m["has_colon"@]@ == "true"@),
{
}

/// Options with the colon off survive the trip through attributes when
/// `has_colon` says `false`: reading back the attributes they turn into,
/// with `has_colon` set to `false`, gives the same options.
pub proof fn lemma_options_roundtrip_colon_off(o: OptionsView, m: Map<Seq<char>, String>)
    requires
        !o.colon,
        attr_values(m) == attributes_of(o).insert("has_colon"@, "false"@),
    ensures
        options_from(m) == o,
{
    reveal_strlit("sampler");
    reveal_strlit("suffix");
    reveal_strlit("align");
    reveal_strlit("style");
    reveal_strlit("has_colon");
    reveal_strlit("has-colon");
    reveal_strlit("true");
    reveal_strlit("false");
    let a = attributes_of(o).insert("has_colon"@, "false"@);
    assert(m.dom() =~= a.dom());
    assert("sampler"@.len() != "suffix"@.len() && "sampler"@.len() != "align"@.len());
    assert("sampler"@.len() != "style"@.len() && "suffix"@.len() != "align"@.len());
    assert("suffix"@.len() != "style"@.len() && "align"@[0] != "style"@[0]);
    assert("has_colon"@.len() != "sampler"@.len() && "has_colon"@.len() != "suffix"@.len());
    assert("has_colon"@.len() != "align"@.len() && "has_colon"@.len() != "style"@.len());
    assert("has-colon"@[3] != "has_colon"@[3]);
    assert("has-colon"@.len() != "sampler"@.len() && "has-colon"@.len() != "suffix"@.len());
    assert("has-colon"@.len() != "align"@.len() && "has-colon"@.len() != "style"@.len());
    assert("false"@ != "true"@) by {
        assert("false"@.len() != "true"@.len());
    }
    assert(!a.contains_key("has-colon"@));
    assert(m["has_colon"@]@ == a["has_colon"@]);
    if o.sampler is Some {
        assert(m["sampler"@]@ == a["sampler"@]);
    }
    if o.suffix is Some {
        assert(m["suffix"@]@ == a["suffix"@]);
    }
    if o.align is Some {
        assert(m["align"@]@ == a["align"@]);
    }
    if o.style is Some {
        assert(m["style"@]@ == a["style"@]);
    }
}

} // verus!
