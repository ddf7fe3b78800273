//! Icon enums: each variant of an enum declared as a set of icons names an
//! icon file and a constant, and may carry a description.

use vstd::prelude::*;
use convert_case::{Case, Casing};
use crate::item::{ItemData, ItemDataView, VariantView, parse_item, parsed_item, variant_view};
use crate::strings::{has_prefix, remove_all, remove_str, starts_with, str_eq, str_seqs, substring};

verus! {

/// What `convert_case` makes of a CamelCase name in UPPER_SNAKE_CASE.
pub uninterp spec fn upper_snake_case(s: Seq<char>) -> Seq<char>;

/// What `convert_case` makes of a CamelCase name in kebab-case.
pub uninterp spec fn kebab_case(s: Seq<char>) -> Seq<char>;

/// Turns a CamelCase name into UPPER_SNAKE_CASE
/// (`convert_case`: `from_case(Case::Camel).to_case(Case::UpperSnake)`).
#[verifier::external_body]
fn to_upper_snake_case(s: &str) -> (res: String)
    ensures
        res@ == upper_snake_case(s@),
{
    s.from_case(Case::Camel).to_case(Case::UpperSnake)
}

/// Turns a CamelCase name into kebab-case
/// (`convert_case`: `from_case(Case::Camel).to_case(Case::Kebab)`).
#[verifier::external_body]
fn to_kebab_case(s: &str) -> (res: String)
    ensures
        res@ == kebab_case(s@),
{
    s.from_case(Case::Camel).to_case(Case::Kebab)
}

/// An icon of an icon enum: the variant's path, the constant its file is
/// read into, the file, and the description.
pub struct IconEntry {
    pub path: String,
    pub constant: String,
    pub file: String,
    pub descr: String,
}

/// An icon entry with its strings taken by their characters.
pub struct IconEntryView {
    pub path: Seq<char>,
    pub constant: Seq<char>,
    pub file: Seq<char>,
    pub descr: Seq<char>,
}

impl View for IconEntry {
    type V = IconEntryView;

    open spec fn view(&self) -> IconEntryView {
        IconEntryView { path: self.path@, constant: self.constant@, file: self.file@, descr: self.descr@ }
    }
}

/// Icon entries taken by their views.
pub open spec fn entries_view(es: Seq<IconEntry>) -> Seq<IconEntryView> {
    es.map_values(|e: IconEntry| e@)
}

/// Whether an attribute's text is a `descr` attribute (its path is the one
/// identifier `descr`).
pub open spec fn is_descr_attr(a: Seq<char>) -> bool {
    a == "# [descr]"@ || (has_prefix(a, "# [descr "@) && !has_prefix(a, "# [descr ::"@))
}

/// How many of the attributes are `descr` attributes.
pub open spec fn descr_count(attrs: Seq<Seq<char>>) -> nat
    decreases attrs.len(),
{
    if attrs.len() == 0 {
        0
    } else {
        descr_count(attrs.drop_last()) + if is_descr_attr(attrs.last()) {
            1nat
        } else {
            0nat
        }
    }
}

/// The first `descr` attribute, if any.
pub open spec fn first_descr(attrs: Seq<Seq<char>>) -> Option<Seq<char>>
    decreases attrs.len(),
{
    if attrs.len() == 0 {
        None
    } else {
        match first_descr(attrs.drop_last()) {
            Some(a) => Some(a),
            None => if is_descr_attr(attrs.last()) {
                Some(attrs.last())
            } else {
                None
            },
        }
    }
}

/// The value of a `descr` attribute whose one argument is `default = ...`.
pub open spec fn default_arg(a: Seq<char>) -> Option<Seq<char>> {
    let p = "# [descr (default = "@;
    if has_prefix(a, p) && a.len() >= p.len() + 2 && a.subrange(a.len() - 2, a.len() as int) == ")]"@ {
        Some(a.subrange(p.len() as int, a.len() - 2))
    } else {
        None
    }
}

/// An icon's description: the `default` value of its first `descr`
/// attribute, without quotes; else the variant's name.
pub open spec fn icon_descr(name: Seq<char>, attrs: Seq<Seq<char>>) -> Seq<char> {
    match first_descr(attrs) {
        Some(a) => match default_arg(a) {
            Some(v) => remove_all(v, seq!['"']),
            None => name,
        },
        None => name,
    }
}

/// The icon entry of a variant of the enum `enum_name`.
pub open spec fn icon_entry(enum_name: Seq<char>, v: VariantView) -> IconEntryView {
    IconEntryView {
        path: enum_name + "::"@ + v.0,
        constant: upper_snake_case(v.0),
        file: "../../root/resources/icons/"@ + kebab_case(v.0),
        descr: icon_descr(v.0, v.2),
    }
}

/// The answer to a variant with more than one `descr` attribute.
pub open spec fn icon_error(v: VariantView) -> Seq<char> {
    "#[field]: more than one #[field()] attributes while processing "@ + v.1
}

/// The entries of an icon enum's variants, in order, or the error for the
/// first variant with more than one `descr` attribute.
pub open spec fn icon_entries_of(enum_name: Seq<char>, vs: Seq<VariantView>) -> Result<Seq<IconEntryView>, Seq<char>>
    decreases vs.len(),
{
    if vs.len() == 0 {
        Ok(seq![])
    } else {
        match icon_entries_of(enum_name, vs.drop_last()) {
            Err(e) => Err(e),
            Ok(r) => if descr_count(vs.last().2) > 1 {
                Err(icon_error(vs.last()))
            } else {
                Ok(r.push(icon_entry(enum_name, vs.last())))
            },
        }
    }
}

fn is_descr(a: &str) -> (res: bool)
    ensures
        res == is_descr_attr(a@),
{
    str_eq(a, "# [descr]") || (starts_with(a, "# [descr ") && !starts_with(a, "# [descr ::"))
}

fn descr_attrs(attrs: &Vec<String>) -> (res: (usize, Option<String>))
    ensures
        res.0 == descr_count(str_seqs(attrs@)),
        match first_descr(str_seqs(attrs@)) {
            Some(a) => res.1 matches Some(s) && s@ == a,
            None => res.1 is None,
        },
{
    let ghost av = str_seqs(attrs@);
    let mut count: usize = 0;
    let mut first: Option<String> = None;
    let mut i: usize = 0;
    proof {
        assert(av.take(0) =~= Seq::<Seq<char>>::empty());
    }
    while i < attrs.len()
        invariant
            i <= attrs@.len(),
            av == str_seqs(attrs@),
            count == descr_count(av.take(i as int)),
            count <= i,
            match first_descr(av.take(i as int)) {
                Some(a) => first matches Some(s) && s@ == a,
                None => first is None,
            },
        decreases attrs@.len() - i,
    {
        proof {
            assert(av.take(i + 1).drop_last() =~= av.take(i as int));
            assert(av.take(i + 1).last() == attrs@[i as int]@);
        }
        if is_descr(attrs[i].as_str()) {
            count = count + 1;
            if first.is_none() {
                first = Some(attrs[i].clone());
            }
        }
        i = i + 1;
    }
    proof {
        assert(av.take(attrs@.len() as int) =~= av);
    }
    (count, first)
}

fn descr_of(name: &str, first: Option<String>) -> (res: String)
    ensures
        res@ == match first {
            Some(a) => match default_arg(a@) {
                Some(v) => remove_all(v, seq!['"']),
                None => name@,
            },
            None => name@,
        },
{
    match first {
        Some(a) => {
            let p = "# [descr (default = ";
            let n = a.unicode_len();
            let k = p.unicode_len();
            if starts_with(a.as_str(), p) && n >= 2 && n - 2 >= k && str_eq(substring(a.as_str(), n - 2, n).as_str(), ")]") {
                let v = substring(a.as_str(), k, n - 2);
                proof {
                    reveal_strlit("\"");
                    assert("\""@ =~= seq!['"']);
                    assert(default_arg(a@) == Some(v@));
                }
                remove_str(v.as_str(), "\"")
            } else {
                name.to_owned()
            }
        },
        None => name.to_owned(),
    }
}

/// The entries of the variants of the icon enum `enum_name`, in order; the
/// error for the first variant with more than one `descr` attribute.
pub fn icon_entries(enum_name: &str, variants: &Vec<(String, String, Vec<String>)>) -> (res: Result<Vec<IconEntry>, String>)
    ensures
        match icon_entries_of(enum_name@, variants@.map_values(|v: (String, String, Vec<String>)| variant_view(v))) {
            Ok(es) => res matches Ok(r) && entries_view(r@) == es,
            Err(e) => res matches Err(m) && m@ == e,
        },
{
    let ghost vv = variants@.map_values(|v: (String, String, Vec<String>)| variant_view(v));
    let mut res: Vec<IconEntry> = Vec::new();
    let mut i: usize = 0;
    proof {
        assert(vv.take(0) =~= Seq::<VariantView>::empty());
        assert(entries_view(res@) =~= Seq::<IconEntryView>::empty());
    }
    while i < variants.len()
        invariant
            i <= variants@.len(),
            vv == variants@.map_values(|v: (String, String, Vec<String>)| variant_view(v)),
            icon_entries_of(enum_name@, vv.take(i as int)) == Ok::<Seq<IconEntryView>, Seq<char>>(entries_view(res@)),
        decreases variants@.len() - i,
    {
        proof {
            assert(vv.take(i + 1).drop_last() =~= vv.take(i as int));
            assert(vv.take(i + 1).last() == variant_view(variants@[i as int]));
        }
        let (name, text, attrs) = &variants[i];
        let (count, first) = descr_attrs(attrs);
        if count > 1 {
            let mut e = "#[field]: more than one #[field()] attributes while processing ".to_owned();
            e.append(text.as_str());
            proof {
                lemma_entries_err_stays(enum_name@, vv, i as int + 1);
            }
            return Err(e);
        }
        let mut path = enum_name.to_owned();
        path.append("::");
        path.append(name.as_str());
        let mut file = "../../root/resources/icons/".to_owned();
        file.append(to_kebab_case(name.as_str()).as_str());
        let entry = IconEntry { path, constant: to_upper_snake_case(name.as_str()), file, descr: descr_of(name.as_str(), first) };
        let ghost before = entries_view(res@);
        res.push(entry);
        proof {
            assert(entries_view(res@) =~= before.push(icon_entry(enum_name@, vv[i as int])));
        }
        i = i + 1;
    }
    proof {
        assert(vv.take(variants@.len() as int) =~= vv);
    }
    Ok(res)
}

/// Once an error comes out for a prefix of the variants, it is the answer
/// for the whole list.
proof fn lemma_entries_err_stays(enum_name: Seq<char>, vs: Seq<VariantView>, k: int)
    requires
        0 <= k <= vs.len(),
        icon_entries_of(enum_name, vs.take(k)) is Err,
    ensures
        icon_entries_of(enum_name, vs) == icon_entries_of(enum_name, vs.take(k)),
    decreases vs.len() - k,
{
    if k < vs.len() {
        assert(vs.take(k + 1).drop_last() =~= vs.take(k));
        lemma_entries_err_stays(enum_name, vs, k + 1);
    } else {
        assert(vs.take(k) =~= vs);
    }
}

/// The message for an icon set declared on anything but an enum.
pub open spec fn icons_enums_only() -> Seq<char> {
    "#[enums] macro only supports enums"@
}

/// The icon entries of an enum given as source text: the parser's message
/// when it does not read as an item, the error above when it is not an
/// enum, else what `icon_entries` gives for its name and variants.
pub fn icon_entries_from_source(text: &str) -> (res: Result<Vec<IconEntry>, String>)
    ensures
        match parsed_item(text@) {
            Err(m) => res matches Err(e) && e@ == m,
            Ok(item) => match item.data {
                ItemDataView::Enum(vs) => match icon_entries_of(item.name, vs) {
                    Ok(es) => res matches Ok(r) && entries_view(r@) == es,
                    Err(e) => res matches Err(m) && m@ == e,
                },
                _ => res matches Err(e) && e@ == icons_enums_only(),
            },
        },
{
    let item = parse_item(text)?;
    match &item.data {
        ItemData::Enum(vs) => icon_entries(item.name.as_str(), vs),
        _ => Err("#[enums] macro only supports enums".to_owned()),
    }
}

} // verus!
