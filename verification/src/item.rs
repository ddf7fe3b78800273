//! Declared items read from their source text: what the declaration
//! attributes of views, layouts and icon enums check before they generate
//! code.

use vstd::prelude::*;
use quote::ToTokens;
use syn::parse::Parser;
use syn::{parse_str, DeriveInput, Field, Type};
use syn::Data::{Enum, Struct};
use crate::attributes::{Attributes, StrMap, attr_view};
use crate::declare::{ArgKind, ArgView, args_view, parse_args, parsed_args, has_html_field, check_html_field, html_field_error};
use crate::layout::{FieldAttr, Layout, field_attrs_view};
use crate::strings::{
    find_seq, find_str, has_prefix, lemma_find_seq, lowercase, starts_with, str_eq, str_seqs, substring, to_lower,
};

verus! {

/// How a declared item is made, with each part as its source text (tokens
/// separated by single spaces).
pub enum ItemData {
    /// A struct: the text of all its fields (in braces when they are
    /// named), and the text of each field.
    Struct(String, Vec<String>),
    /// An enum: each variant's name, its whole text (attributes included),
    /// and the text of each of its attributes.
    Enum(Vec<(String, String, Vec<String>)>),
    /// A union.
    Union,
}

/// A declared item: its name and how it is made.
pub struct ItemModel {
    pub name: String,
    pub data: ItemData,
}

/// A variant of an enum by its name, its text and its attributes' texts.
pub type VariantView = (Seq<char>, Seq<char>, Seq<Seq<char>>);

/// How an item is made, with its strings taken by their characters.
pub enum ItemDataView {
    Struct(bool, Seq<Seq<char>>),
    Enum(Seq<VariantView>),
    Union,
}

/// A declared item with its strings taken by their characters.
pub struct ItemView {
    pub name: Seq<char>,
    pub data: ItemDataView,
}

/// The view of an enum variant's parts.
pub open spec fn variant_view(v: (String, String, Vec<String>)) -> VariantView {
    (v.0@, v.1@, str_seqs(v.2@))
}

/// How an item is made, taken by its view: a struct's fields are named
/// when their text opens with a brace.
pub open spec fn data_view(d: ItemData) -> ItemDataView {
    match d {
        ItemData::Struct(ft, fs) => ItemDataView::Struct(has_prefix(ft@, "{"@), str_seqs(fs@)),
        ItemData::Enum(vs) => ItemDataView::Enum(vs@.map_values(|v: (String, String, Vec<String>)| variant_view(v))),
        ItemData::Union => ItemDataView::Union,
    }
}

impl View for ItemModel {
    type V = ItemView;

    open spec fn view(&self) -> ItemView {
        ItemView { name: self.name@, data: data_view(self.data) }
    }
}

/// What `syn` reads from an item's source text (`syn::parse_str` as a
/// `DeriveInput`): the item, or the parser's error message.
pub uninterp spec fn parsed_item(text: Seq<char>) -> Result<ItemView, Seq<char>>;

/// Reads a struct, enum or union from its source text with `syn`
/// (`syn::parse_str::<DeriveInput>`): its name and how it is made, each part
/// written back as its tokens (`quote::ToTokens`, printed by `proc_macro2`).
/// What comes out is named, not stated: it is syn's grammar.
#[verifier::external_body]
fn parse_item_parts(text: &str) -> (res: Result<(String, ItemData), String>)
    ensures
        match res {
            Ok(p) => parsed_item(text@) == Ok::<ItemView, Seq<char>>(ItemView { name: p.0@, data: data_view(p.1) }),
            Err(e) => parsed_item(text@) == Err::<ItemView, Seq<char>>(e@),
        },
{
    let ast = parse_str::<DeriveInput>(text).map_err(|e| e.to_string())?;
    let t = |x: &dyn ToTokens| x.to_token_stream().to_string();
    Ok((t(&ast.ident), match ast.data {
        Struct(s) => ItemData::Struct(t(&s.fields), s.fields.iter().map(|f| t(f)).collect()),
        Enum(e) => ItemData::Enum(e.variants.iter().map(|v| (t(&v.ident), t(v), v.attrs.iter().map(|a| t(a)).collect())).collect()),
        _ => ItemData::Union,
    }))
}

/// Reads a declared item from its source text; the parser's message when it
/// is not a struct, enum or union.
pub(crate) fn parse_item(text: &str) -> (res: Result<ItemModel, String>)
    ensures
        match res {
            Ok(m) => parsed_item(text@) == Ok::<ItemView, Seq<char>>(m@),
            Err(e) => parsed_item(text@) == Err::<ItemView, Seq<char>>(e@),
        },
{
    let (name, data) = parse_item_parts(text)?;
    Ok(ItemModel { name, data })
}

/// A named field of a struct: its name, its type, the last segment of its
/// type when the type is a path, and each attribute's path and argument
/// tokens, all as their source text.
pub struct FieldModel {
    pub name: String,
    pub ty: String,
    pub path_name: Option<String>,
    pub attrs: Vec<(String, String)>,
}

/// A named field with its strings taken by their characters.
pub struct FieldView {
    pub name: Seq<char>,
    pub ty: Seq<char>,
    pub path_name: Option<Seq<char>>,
    pub attrs: Seq<(Seq<char>, Seq<char>)>,
}

impl View for FieldModel {
    type V = FieldView;

    open spec fn view(&self) -> FieldView {
        FieldView {
            name: self.name@,
            ty: self.ty@,
            path_name: match self.path_name {
                Some(t) => Some(t@),
                None => None,
            },
            attrs: self.attrs@.map_values(|p: (String, String)| (p.0@, p.1@)),
        }
    }
}

/// What `syn` reads from a named field's source text
/// (`syn::Field::parse_named`): the field, or the parser's error message.
pub uninterp spec fn parsed_field(text: Seq<char>) -> Result<FieldView, Seq<char>>;

/// Reads a named field from its source text with `syn`
/// (`syn::Field::parse_named`), each part written back as its tokens. What
/// comes out is named, not stated: it is syn's grammar.
#[verifier::external_body]
fn parse_field(text: &str) -> (res: Result<FieldModel, String>)
    ensures
        match res {
            Ok(f) => parsed_field(text@) == Ok::<FieldView, Seq<char>>(f@),
            Err(e) => parsed_field(text@) == Err::<FieldView, Seq<char>>(e@),
        },
{
    let f = Field::parse_named.parse_str(text).map_err(|e| e.to_string())?;
    let t = |x: &dyn ToTokens| x.to_token_stream().to_string();
    let path_name = match &f.ty {
        Type::Path(p) => p.path.segments.last().map(|s| t(&s.ident)),
        _ => None,
    };
    let attrs = f.attrs.iter().map(|a| (t(&a.path), a.tokens.to_string())).collect();
    Ok(FieldModel { name: t(&f.ident), ty: t(&f.ty), path_name, attrs })
}

/// The fields read from their texts, in order; the first parser's message
/// when one does not read as a named field.
pub open spec fn parsed_fields(texts: Seq<Seq<char>>) -> Result<Seq<FieldView>, Seq<char>>
    decreases texts.len(),
{
    if texts.len() == 0 {
        Ok(seq![])
    } else {
        match parsed_fields(texts.drop_last()) {
            Err(e) => Err(e),
            Ok(fs) => match parsed_field(texts.last()) {
                Err(e) => Err(e),
                Ok(f) => Ok(fs.push(f)),
            },
        }
    }
}

/// Once a prefix of the fields fails to read, the whole list fails alike.
proof fn lemma_fields_err_stays(texts: Seq<Seq<char>>, k: int)
    requires
        0 <= k <= texts.len(),
        parsed_fields(texts.take(k)) is Err,
    ensures
        parsed_fields(texts) == parsed_fields(texts.take(k)),
    decreases texts.len() - k,
{
    if k < texts.len() {
        assert(texts.take(k + 1).drop_last() =~= texts.take(k));
        lemma_fields_err_stays(texts, k + 1);
    } else {
        assert(texts.take(k) =~= texts);
    }
}

/// Reads the fields of a struct from their texts, in order.
pub fn read_fields(texts: &Vec<String>) -> (res: Result<Vec<FieldModel>, String>)
    ensures
        match parsed_fields(str_seqs(texts@)) {
            Ok(fs) => res matches Ok(r) && r@.map_values(|f: FieldModel| f@) == fs,
            Err(e) => res matches Err(m) && m@ == e,
        },
{
    let ghost tv = str_seqs(texts@);
    let mut res: Vec<FieldModel> = Vec::new();
    let mut i: usize = 0;
    proof {
        assert(tv.take(0) =~= Seq::<Seq<char>>::empty());
        assert(res@.map_values(|f: FieldModel| f@) =~= Seq::<FieldView>::empty());
    }
    while i < texts.len()
        invariant
            i <= texts@.len(),
            tv == str_seqs(texts@),
            parsed_fields(tv.take(i as int)) == Ok::<Seq<FieldView>, Seq<char>>(res@.map_values(|f: FieldModel| f@)),
        decreases texts@.len() - i,
    {
        proof {
            assert(tv.take(i + 1).drop_last() =~= tv.take(i as int));
            assert(tv.take(i + 1).last() == texts@[i as int]@);
        }
        match parse_field(texts[i].as_str()) {
            Ok(f) => {
                let ghost before = res@.map_values(|f: FieldModel| f@);
                let ghost fv = f@;
                res.push(f);
                proof {
                    assert(res@.map_values(|f: FieldModel| f@) =~= before.push(fv));
                }
            },
            Err(e) => {
                proof {
                    lemma_fields_err_stays(tv, i + 1);
                }
                return Err(e);
            },
        }
        i = i + 1;
    }
    proof {
        assert(tv.take(texts@.len() as int) =~= tv);
    }
    Ok(res)
}

/// The names and types of fields.
pub open spec fn names_and_types(fs: Seq<FieldView>) -> Seq<(Seq<char>, Seq<char>)> {
    fs.map_values(|f: FieldView| (f.name, f.ty))
}

/// The spellings of the `html` field's type that an HTML view accepts, as
/// their tokens are written.
pub open spec fn html_type_spellings() -> Seq<Seq<char>> {
    seq![
        "Arc < Mutex < Option < Arc < workflow_ux :: view :: Html > > > >"@,
        "Arc < Mutex < Option < Arc < view :: Html > > > >"@,
        "Arc < Mutex < Option < Arc < Html > > > >"@,
        "std :: sync :: Arc < Mutex < Option < std :: sync :: Arc < view :: Html > > > >"@,
        "std :: sync :: Arc < std :: sync :: Mutex < Option < std :: sync :: Arc < workflow_ux :: view :: Html > > > >"@,
        "std :: sync :: Arc < std :: sync :: Mutex < Option < std :: sync :: Arc < view :: Html > > > >"@,
        "std :: sync :: Arc < std :: sync :: Mutex < Option < std :: sync :: Arc < Html > > > >"@,
    ]
}

/// The accepted spellings of the `html` field's type.
pub fn html_types() -> (res: Vec<String>)
    ensures
        str_seqs(res@) == html_type_spellings(),
{
    let res = vec![
        "Arc < Mutex < Option < Arc < workflow_ux :: view :: Html > > > >".to_owned(),
        "Arc < Mutex < Option < Arc < view :: Html > > > >".to_owned(),
        "Arc < Mutex < Option < Arc < Html > > > >".to_owned(),
        "std :: sync :: Arc < Mutex < Option < std :: sync :: Arc < view :: Html > > > >".to_owned(),
        "std :: sync :: Arc < std :: sync :: Mutex < Option < std :: sync :: Arc < workflow_ux :: view :: Html > > > >".to_owned(),
        "std :: sync :: Arc < std :: sync :: Mutex < Option < std :: sync :: Arc < view :: Html > > > >".to_owned(),
        "std :: sync :: Arc < std :: sync :: Mutex < Option < std :: sync :: Arc < Html > > > >".to_owned(),
    ];
    proof {
        assert(str_seqs(res@) =~= html_type_spellings());
    }
    res
}

/// The message for a declaration as an HTML view of anything but a struct.
pub open spec fn html_view_structs_only() -> Seq<char> {
    "#[HtmlView] macro only supports structs"@
}

/// The message for an HTML view without a fitting `html` field.
pub open spec fn html_field_message() -> Seq<char> {
    "#[HtmlView] struct require 'html' member/property. \n`html: Arc<Mutex<Option<Arc<workflow_ux::view::Html>>>>`"@
}

/// The answer to a declaration as an HTML view: only a struct can be one,
/// and a struct with named fields needs an `html` field of an accepted
/// type; structs with unnamed fields or none pass.
pub open spec fn html_view_gate(item: ItemView) -> Result<(), Seq<char>> {
    match item.data {
        ItemDataView::Struct(named, texts) => if !named {
            Ok(())
        } else {
            match parsed_fields(texts) {
                Err(e) => Err(e),
                Ok(fs) => if has_html_field(names_and_types(fs), html_type_spellings()) {
                    Ok(())
                } else {
                    Err(html_field_message())
                },
            }
        },
        _ => Err(html_view_structs_only()),
    }
}

/// Checks an item declared as an HTML view.
pub fn html_view_check(item: &ItemModel) -> (res: Result<(), String>)
    ensures
        match res {
            Ok(()) => html_view_gate(item@) == Ok::<(), Seq<char>>(()),
            Err(e) => html_view_gate(item@) == Err::<(), Seq<char>>(e@),
        },
{
    match &item.data {
        ItemData::Struct(ft, texts) => {
            if starts_with(ft.as_str(), "{") {
                let fields = read_fields(texts)?;
                let ghost fv = fields@.map_values(|f: FieldModel| f@);
                let mut pairs: Vec<(String, String)> = Vec::new();
                let mut i: usize = 0;
                while i < fields.len()
                    invariant
                        i <= fields@.len(),
                        fv == fields@.map_values(|f: FieldModel| f@),
                        pairs@.map_values(|p: (String, String)| (p.0@, p.1@)) == names_and_types(fv.take(i as int)),
                    decreases fields@.len() - i,
                {
                    let ghost before = pairs@.map_values(|p: (String, String)| (p.0@, p.1@));
                    pairs.push((fields[i].name.clone(), fields[i].ty.clone()));
                    proof {
                        assert(pairs@.map_values(|p: (String, String)| (p.0@, p.1@)) =~= before.push(
                            (fv[i as int].name, fv[i as int].ty),
                        ));
                        assert(names_and_types(fv.take(i + 1)) =~= names_and_types(fv.take(i as int)).push(
                            (fv[i as int].name, fv[i as int].ty),
                        ));
                    }
                    i = i + 1;
                }
                proof {
                    assert(fv.take(fields@.len() as int) =~= fv);
                }
                let types = html_types();
                proof {
                    assert(types@.map_values(|s: String| s@) =~= html_type_spellings());
                }
                if !check_html_field(&pairs, &types) {
                    return Err(html_field_error());
                }
            }
            Ok(())
        },
        _ => Err("#[HtmlView] macro only supports structs".to_owned()),
    }
}

/// Checks an HTML view declaration given as source text: the parser's
/// message when it does not read as an item, else the answer of
/// `html_view_check`.
pub fn html_view_check_source(text: &str) -> (res: Result<(), String>)
    ensures
        match parsed_item(text@) {
            Err(m) => res matches Err(e) && e@ == m,
            Ok(item) => match res {
                Ok(()) => html_view_gate(item) == Ok::<(), Seq<char>>(()),
                Err(e) => html_view_gate(item) == Err::<(), Seq<char>>(e@),
            },
        },
{
    let item = parse_item(text)?;
    html_view_check(&item)
}

/// The message for a layout declared on anything but a struct with named
/// fields.
pub open spec fn panel_structs_only() -> Seq<char> {
    "#[panel] macro only supports structs"@
}

/// The message for a field of a layout whose type is not a path.
pub open spec fn type_path_error() -> Seq<char> {
    "layout macro - unable to resolve type path"@
}

/// A string literal's text without its quotes; any other text as it is.
pub open spec fn unquoted(v: Seq<char>) -> Seq<char> {
    if v.len() >= 2 && v[0] == '"' && v[v.len() - 1] == '"' {
        v.subrange(1, v.len() - 1)
    } else {
        v
    }
}

/// The key and value an attribute argument sets: `key = value` sets the
/// key to the value (a string literal without its quotes), and a bare name
/// sets it to `true`; any other argument sets nothing.
pub open spec fn arg_pair(a: ArgView) -> Option<(Seq<char>, Seq<char>)> {
    match a {
        ArgView::Path(segs) => if segs.len() == 1 {
            Some((segs[0], "true"@))
        } else {
            None
        },
        ArgView::Other(t) => {
            let k = find_seq(t, " = "@);
            if k < t.len() {
                Some((t.take(k), unquoted(t.skip(k + 3))))
            } else {
                None
            }
        },
        ArgView::Array(_) => None,
    }
}

/// What the arguments set, in order: a later argument replaces the value of
/// a key that an earlier one set.
pub open spec fn args_map(av: Seq<ArgView>) -> Map<Seq<char>, Seq<char>>
    decreases av.len(),
{
    if av.len() == 0 {
        Map::empty()
    } else {
        let m = args_map(av.drop_last());
        match arg_pair(av.last()) {
            Some((k, v)) => m.insert(k, v),
            None => m,
        }
    }
}

/// The arguments of an attribute, from the text of its tokens: those in
/// its parentheses, read as declaration arguments; none when it has no
/// parentheses or they do not read.
pub open spec fn attr_args(t: Seq<char>) -> Map<Seq<char>, Seq<char>> {
    if t.len() >= 2 && t[0] == '(' && t[t.len() - 1] == ')' {
        match parsed_args(t.subrange(1, t.len() - 1)) {
            Ok(av) => args_map(av),
            Err(_) => Map::empty(),
        }
    } else {
        Map::empty()
    }
}

/// Whether an attribute of a field with control type `ct` bears on the
/// layout: `field`, `layout`, `section`, `pane`, or the control type.
pub open spec fn is_layout_attr(path: Seq<char>, ct: Seq<char>) -> bool {
    path == "field"@ || path == "layout"@ || path == "section"@ || path == "pane"@ || path == ct
}

/// The attributes of a field that bear on the layout, in order, each by its
/// name and arguments.
pub open spec fn layout_attrs(attrs: Seq<(Seq<char>, Seq<char>)>, ct: Seq<char>) -> Seq<
    (Seq<char>, Map<Seq<char>, Seq<char>>),
>
    decreases attrs.len(),
{
    if attrs.len() == 0 {
        seq![]
    } else {
        let prev = layout_attrs(attrs.drop_last(), ct);
        let (p, t) = attrs.last();
        if is_layout_attr(p, ct) {
            prev.push((p, attr_args(t)))
        } else {
            prev
        }
    }
}

/// A field of a layout: its name, its type, its control type (the lowercase
/// of its type's last segment), and its attributes that bear on the layout.
pub struct LayoutField {
    pub name: String,
    pub ty: String,
    pub control_type: String,
    pub attrs: Vec<FieldAttr>,
}

/// A layout field with its strings taken by their characters.
pub struct LayoutFieldView {
    pub name: Seq<char>,
    pub ty: Seq<char>,
    pub control_type: Seq<char>,
    pub attrs: Seq<(Seq<char>, Map<Seq<char>, Seq<char>>)>,
}

impl View for LayoutField {
    type V = LayoutFieldView;

    open spec fn view(&self) -> LayoutFieldView {
        LayoutFieldView {
            name: self.name@,
            ty: self.ty@,
            control_type: self.control_type@,
            attrs: field_attrs_view(self.attrs@),
        }
    }
}

/// Layout fields taken by their views.
pub open spec fn layout_fields_view(v: Seq<LayoutField>) -> Seq<LayoutFieldView> {
    v.map_values(|f: LayoutField| f@)
}

/// Whether every field's type is a path.
pub open spec fn all_path_types(fs: Seq<FieldView>) -> bool {
    forall|i: int| 0 <= i < fs.len() ==> (#[trigger] fs[i]).path_name is Some
}

/// A field of a layout, given that its type is a path.
pub open spec fn layout_field_of(f: FieldView) -> LayoutFieldView {
    let ct = lowercase(f.path_name->0);
    LayoutFieldView { name: f.name, ty: f.ty, control_type: ct, attrs: layout_attrs(f.attrs, ct) }
}

/// The fields of a layout with their control types and attributes.
pub open spec fn fields_with_control_types(fs: Seq<FieldView>) -> Seq<LayoutFieldView> {
    fs.map_values(|f: FieldView| layout_field_of(f))
}

/// The answer to a declaration as a layout: only a struct with named fields
/// can be one, and each of its fields' types must be a path.
pub open spec fn layout_answer(item: ItemView) -> Result<Seq<LayoutFieldView>, Seq<char>> {
    match item.data {
        ItemDataView::Struct(true, texts) => match parsed_fields(texts) {
            Err(e) => Err(e),
            Ok(fs) => if all_path_types(fs) {
                Ok(fields_with_control_types(fs))
            } else {
                Err(type_path_error())
            },
        },
        _ => Err(panel_structs_only()),
    }
}

fn unquote(v: &str) -> (res: String)
    ensures
        res@ == unquoted(v@),
{
    let n = v.unicode_len();
    if n >= 2 && v.get_char(0) == '"' && v.get_char(n - 1) == '"' {
        substring(v, 1, n - 1)
    } else {
        v.to_owned()
    }
}

fn arg_pair_of(a: &ArgKind) -> (res: Option<(String, String)>)
    ensures
        match arg_pair(a@) {
            Some((k, v)) => res matches Some(p) && p.0@ == k && p.1@ == v,
            None => res is None,
        },
{
    match a {
        ArgKind::Path(segs) => if segs.len() == 1 {
            Some((segs[0].clone(), "true".to_owned()))
        } else {
            None
        },
        ArgKind::Other(t) => {
            let n = t.as_str().unicode_len();
            let k = find_str(t.as_str(), " = ");
            proof {
                lemma_find_seq(t@, " = "@);
                reveal_strlit(" = ");
            }
            if k < n {
                let key = substring(t.as_str(), 0, k);
                let rest = substring(t.as_str(), k + 3, n);
                Some((key, unquote(rest.as_str())))
            } else {
                None
            }
        },
        ArgKind::Array(_) => None,
    }
}

fn read_attr_args(t: &str) -> (res: Attributes)
    ensures
        res.wf(),
        attr_view(res@) == attr_args(t@),
{
    let mut res: Attributes = StrMap::new();
    proof {
        assert(attr_view(res@) =~= Map::<Seq<char>, Seq<char>>::empty());
    }
    let n = t.unicode_len();
    if n >= 2 && t.get_char(0) == '(' && t.get_char(n - 1) == ')' {
        let inner = substring(t, 1, n - 1);
        match parse_args(inner.as_str()) {
            Ok(args) => {
                let ghost av = args_view(args@);
                let mut i: usize = 0;
                proof {
                    assert(av.take(0) =~= Seq::<ArgView>::empty());
                }
                while i < args.len()
                    invariant
                        i <= args@.len(),
                        av == args_view(args@),
                        res.wf(),
                        attr_view(res@) == args_map(av.take(i as int)),
                    decreases args@.len() - i,
                {
                    proof {
                        assert(av.take(i + 1).drop_last() =~= av.take(i as int));
                        assert(av.take(i + 1).last() == args@[i as int]@);
                    }
                    match arg_pair_of(&args[i]) {
                        Some((k, v)) => res.set(k.as_str(), v),
                        None => {},
                    }
                    i = i + 1;
                }
                proof {
                    assert(av.take(args@.len() as int) =~= av);
                }
            },
            Err(_) => {},
        }
    }
    res
}

fn is_layout_attr_name(path: &str, ct: &str) -> (res: bool)
    ensures
        res == is_layout_attr(path@, ct@),
{
    str_eq(path, "field") || str_eq(path, "layout") || str_eq(path, "section") || str_eq(path, "pane")
        || str_eq(path, ct)
}

fn read_layout_attrs(attrs: &Vec<(String, String)>, ct: &str) -> (res: Vec<FieldAttr>)
    ensures
        field_attrs_view(res@) == layout_attrs(attrs@.map_values(|p: (String, String)| (p.0@, p.1@)), ct@),
        forall|i: int| 0 <= i < res@.len() ==> (#[trigger] res@[i]).args.wf(),
{
    let ghost av = attrs@.map_values(|p: (String, String)| (p.0@, p.1@));
    let mut res: Vec<FieldAttr> = Vec::new();
    let mut i: usize = 0;
    proof {
        assert(av.take(0) =~= Seq::<(Seq<char>, Seq<char>)>::empty());
        assert(field_attrs_view(res@) =~= Seq::<(Seq<char>, Map<Seq<char>, Seq<char>>)>::empty());
    }
    while i < attrs.len()
        invariant
            i <= attrs@.len(),
            av == attrs@.map_values(|p: (String, String)| (p.0@, p.1@)),
            field_attrs_view(res@) == layout_attrs(av.take(i as int), ct@),
            forall|j: int| 0 <= j < res@.len() ==> (#[trigger] res@[j]).args.wf(),
        decreases attrs@.len() - i,
    {
        proof {
            assert(av.take(i + 1).drop_last() =~= av.take(i as int));
            assert(av.take(i + 1).last() == av[i as int]);
        }
        let (p, t) = &attrs[i];
        if is_layout_attr_name(p.as_str(), ct) {
            let args = read_attr_args(t.as_str());
            let ghost before = field_attrs_view(res@);
            let a = FieldAttr { name: p.clone(), args };
            let ghost aview = (a.name@, attr_view(a.args@));
            res.push(a);
            proof {
                assert(field_attrs_view(res@) =~= before.push(aview));
            }
        }
        i = i + 1;
    }
    proof {
        assert(av.take(attrs@.len() as int) =~= av);
    }
    res
}

/// The fields of an item declared as a layout, with their control types and
/// their attributes that bear on the layout.
pub fn layout_fields(item: ItemModel) -> (res: Result<Vec<LayoutField>, String>)
    ensures
        match layout_answer(item@) {
            Ok(fs) => res matches Ok(r) && layout_fields_view(r@) == fs,
            Err(e) => res matches Err(m) && m@ == e,
        },
{
    let ghost iv = item@;
    let texts = match item.data {
        ItemData::Struct(ft, texts) => if starts_with(ft.as_str(), "{") {
            texts
        } else {
            return Err("#[panel] macro only supports structs".to_owned());
        },
        _ => return Err("#[panel] macro only supports structs".to_owned()),
    };
    let fields = read_fields(&texts)?;
    let ghost fv = fields@.map_values(|f: FieldModel| f@);
    let mut res: Vec<LayoutField> = Vec::new();
    let mut i: usize = 0;
    proof {
        assert(layout_fields_view(res@) =~= Seq::<LayoutFieldView>::empty());
    }
    while i < fields.len()
        invariant
            i <= fields@.len(),
            fv == fields@.map_values(|f: FieldModel| f@),
            iv == item@,
            iv.data matches ItemDataView::Struct(true, tv) && parsed_fields(tv) == Ok::<Seq<FieldView>, Seq<char>>(fv),
            all_path_types(fv.take(i as int)),
            layout_fields_view(res@) == fields_with_control_types(fv.take(i as int)),
        decreases fields@.len() - i,
    {
        let f = &fields[i];
        match &f.path_name {
            None => {
                proof {
                    assert(fv[i as int].path_name is None);
                    assert(!all_path_types(fv));
                    assert(layout_answer(iv) == Err::<Seq<LayoutFieldView>, Seq<char>>(type_path_error()));
                }
                return Err("layout macro - unable to resolve type path".to_owned());
            },
            Some(tn) => {
                let ct = to_lower(tn.as_str());
                let attrs = read_layout_attrs(&f.attrs, ct.as_str());
                let ghost before = layout_fields_view(res@);
                let lf = LayoutField { name: f.name.clone(), ty: f.ty.clone(), control_type: ct, attrs };
                let ghost lv = lf@;
                res.push(lf);
                proof {
                    assert(lv == layout_field_of(fv[i as int]));
                    assert(layout_fields_view(res@) =~= before.push(lv));
                    assert(fields_with_control_types(fv.take(i + 1)) =~= fields_with_control_types(
                        fv.take(i as int),
                    ).push(layout_field_of(fv[i as int])));
                    assert forall|j: int| 0 <= j < i + 1 implies (#[trigger] fv.take(i + 1)[j]).path_name is Some by {
                        if j < i {
                            assert(fv.take(i + 1)[j] == fv.take(i as int)[j]);
                        }
                    }
                }
            },
        }
        i = i + 1;
    }
    proof {
        assert(fv.take(fields@.len() as int) =~= fv);
    }
    Ok(res)
}

/// The fields of a layout declaration given as source text: the parser's
/// message when it does not read as an item, else the answer of
/// `layout_fields`.
pub fn layout_fields_from_source(text: &str) -> (res: Result<Vec<LayoutField>, String>)
    ensures
        match parsed_item(text@) {
            Err(m) => res matches Err(e) && e@ == m,
            Ok(item) => match layout_answer(item) {
                Ok(fs) => res matches Ok(r) && layout_fields_view(r@) == fs,
                Err(e) => res matches Err(m) && m@ == e,
            },
        },
{
    let item = parse_item(text)?;
    layout_fields(item)
}

/// The fields a layout adds before the declared ones: a form its footer, a
/// staged layout the index of the stage shown and the names of its stages.
pub open spec fn extra_fields(l: Layout) -> Seq<Seq<char>> {
    match l {
        Layout::Form => seq!["_footer"@],
        Layout::Stage => seq!["_stage_index"@, "_stages"@],
        _ => seq![],
    }
}

/// The fields of the struct a layout declaration becomes, in order: the
/// layout, the fields the layout adds, then the declared fields.
pub open spec fn struct_field_names(l: Layout, names: Seq<Seq<char>>) -> Seq<Seq<char>> {
    seq!["_layout"@] + extra_fields(l) + names
}

/// The names of layout fields, in order.
pub open spec fn field_names(fs: Seq<LayoutFieldView>) -> Seq<Seq<char>> {
    fs.map_values(|f: LayoutFieldView| f.name)
}

/// The fields of the struct a layout declaration becomes, by name.
pub fn layout_struct_fields(layout: Layout, fields: &Vec<LayoutField>) -> (res: Vec<String>)
    ensures
        str_seqs(res@) == struct_field_names(layout, field_names(layout_fields_view(fields@))),
{
    let mut res: Vec<String> = vec!["_layout".to_owned()];
    match layout {
        Layout::Form => res.push("_footer".to_owned()),
        Layout::Stage => {
            res.push("_stage_index".to_owned());
            res.push("_stages".to_owned());
        },
        _ => {},
    }
    let ghost head = str_seqs(res@);
    proof {
        assert(head =~= seq!["_layout"@] + extra_fields(layout));
    }
    let ghost names = field_names(layout_fields_view(fields@));
    let mut i: usize = 0;
    while i < fields.len()
        invariant
            i <= fields@.len(),
            names == field_names(layout_fields_view(fields@)),
            str_seqs(res@) == head + names.take(i as int),
        decreases fields@.len() - i,
    {
        let ghost before = str_seqs(res@);
        res.push(fields[i].name.clone());
        proof {
            assert(str_seqs(res@) =~= before.push(names[i as int]));
            assert(names.take(i + 1) =~= names.take(i as int).push(names[i as int]));
            assert(head + names.take(i + 1) =~= (head + names.take(i as int)).push(names[i as int]));
        }
        i = i + 1;
    }
    proof {
        assert(names.take(fields@.len() as int) =~= names);
    }
    res
}

/// The names of a staged layout's stages: its declared fields, in order.
pub fn stage_names(fields: &Vec<LayoutField>) -> (res: Vec<String>)
    ensures
        str_seqs(res@) == field_names(layout_fields_view(fields@)),
{
    let ghost names = field_names(layout_fields_view(fields@));
    let mut res: Vec<String> = Vec::new();
    let mut i: usize = 0;
    while i < fields.len()
        invariant
            i <= fields@.len(),
            names == field_names(layout_fields_view(fields@)),
            str_seqs(res@) == names.take(i as int),
        decreases fields@.len() - i,
    {
        let ghost before = str_seqs(res@);
        res.push(fields[i].name.clone());
        proof {
            assert(str_seqs(res@) =~= before.push(names[i as int]));
            assert(names.take(i + 1) =~= names.take(i as int).push(names[i as int]));
        }
        i = i + 1;
    }
    proof {
        assert(names.take(fields@.len() as int) =~= names);
    }
    res
}

} // verus!
