//! Layouts: their styles, which attributes of a field configure its control
//! and which its container, the requirements a layout declaration must
//! meet, and how a section wraps the controls put into it.

use vstd::prelude::*;
use crate::attributes::{Attributes, StrMap, attr_view};
use crate::strings::{lowercase, to_lower, all_ascii, ascii_lowercase, str_eq, str_seqs, join_seqs, join_with};

verus! {

/// How a layout arranges what it holds.
#[derive(Clone, Copy, Debug, PartialEq, Eq, Structural)]
pub enum ElementLayoutStyle {
    Form,
    Stage,
    Section,
    Pane,
    Panel,
    Page,
    Group,
    Html,
}

/// The name of a layout style.
pub open spec fn style_type(s: ElementLayoutStyle) -> Seq<char> {
    match s {
        ElementLayoutStyle::Form => "form"@,
        ElementLayoutStyle::Stage => "stage"@,
        ElementLayoutStyle::Section => "section"@,
        ElementLayoutStyle::Pane => "pane"@,
        ElementLayoutStyle::Panel => "panel"@,
        ElementLayoutStyle::Page => "page"@,
        ElementLayoutStyle::Group => "group"@,
        ElementLayoutStyle::Html => "html"@,
    }
}

impl ElementLayoutStyle {
    /// The name of the style.
    pub fn get_type(&self) -> (res: &'static str)
        ensures
            res@ == style_type(*self),
    {
        match self {
            Self::Form => "form",
            Self::Stage => "stage",
            Self::Section => "section",
            Self::Pane => "pane",
            Self::Panel => "panel",
            Self::Page => "page",
            Self::Group => "group",
            Self::Html => "html",
        }
    }

    /// The style as text: `ElementLayoutStyle::` and its name.
    pub fn to_string(&self) -> (res: String)
        ensures
            res@ == "ElementLayoutStyle::"@ + style_type(*self),
    {
        let mut res = "ElementLayoutStyle::".to_owned();
        res.append(self.get_type());
        res
    }

    /// The class of the element holding a layout of this style:
    /// the style's name and `-container`.
    pub fn container_class(&self) -> (res: String)
        ensures
            res@ == style_type(*self) + "-container"@,
    {
        let mut res = self.get_type().to_owned();
        res.append("-container");
        res
    }
}

/// The layouts a struct can be declared as.
#[derive(Clone, Copy, Debug, PartialEq, Eq, Structural)]
pub enum Layout {
    Form,
    Stage,
    Section,
    Pane,
    Panel,
    Page,
    Group,
    Html,
}

/// The style of a declared layout.
pub open spec fn layout_style(l: Layout) -> ElementLayoutStyle {
    match l {
        Layout::Form => ElementLayoutStyle::Form,
        Layout::Stage => ElementLayoutStyle::Stage,
        Layout::Section => ElementLayoutStyle::Section,
        Layout::Pane => ElementLayoutStyle::Pane,
        Layout::Panel => ElementLayoutStyle::Panel,
        Layout::Page => ElementLayoutStyle::Page,
        Layout::Group => ElementLayoutStyle::Group,
        Layout::Html => ElementLayoutStyle::Html,
    }
}

impl Layout {
    /// The style of the layout.
    pub fn style(&self) -> (res: ElementLayoutStyle)
        ensures
            res == layout_style(*self),
    {
        match self {
            Layout::Form => ElementLayoutStyle::Form,
            Layout::Stage => ElementLayoutStyle::Stage,
            Layout::Section => ElementLayoutStyle::Section,
            Layout::Pane => ElementLayoutStyle::Pane,
            Layout::Panel => ElementLayoutStyle::Panel,
            Layout::Page => ElementLayoutStyle::Page,
            Layout::Group => ElementLayoutStyle::Group,
            Layout::Html => ElementLayoutStyle::Html,
        }
    }
}

/// An attribute of a field in a layout declaration: its name (`field`,
/// `layout`, `pane`, the control's type in lower case, ...) and its
/// arguments.
pub struct FieldAttr {
    pub name: String,
    pub args: Attributes,
}

/// The attributes of a field taken by their names and argument views.
pub open spec fn field_attrs_view(attrs: Seq<FieldAttr>) -> Seq<(Seq<char>, Map<Seq<char>, Seq<char>>)> {
    attrs.map_values(|a: FieldAttr| (a.name@, attr_view(a.args@)))
}

/// The arguments of all attributes with the given name, merged in order
/// (a later one replaces the values of keys it shares); none when no
/// attribute has that name.
pub open spec fn named_args(attrs: Seq<(Seq<char>, Map<Seq<char>, Seq<char>>)>, name: Seq<char>) -> Option<
    Map<Seq<char>, Seq<char>>,
>
    decreases attrs.len(),
{
    if attrs.len() == 0 {
        None
    } else {
        let prev = named_args(attrs.drop_last(), name);
        let (n, a) = attrs.last();
        if n == name {
            Some(
                match prev {
                    Some(p) => p.union_prefer_right(a),
                    None => a,
                },
            )
        } else {
            prev
        }
    }
}

/// The first of two argument sets that exists, or none.
pub open spec fn first_of(
    a: Option<Map<Seq<char>, Seq<char>>>,
    b: Option<Map<Seq<char>, Seq<char>>>,
) -> Map<Seq<char>, Seq<char>> {
    match a {
        Some(m) => m,
        None => match b {
            Some(m) => m,
            None => Map::empty(),
        },
    }
}

/// The arguments for a field's control: those of the attribute named after
/// the control's type in lower case, else those of `field`.
pub open spec fn control_args(control_type: Seq<char>, attrs: Seq<(Seq<char>, Map<Seq<char>, Seq<char>>)>) -> Map<
    Seq<char>,
    Seq<char>,
> {
    first_of(named_args(attrs, lowercase(control_type)), named_args(attrs, "field"@))
}

/// The arguments for a field's container: those of `layout`, else those of
/// `pane`.
pub open spec fn container_args(attrs: Seq<(Seq<char>, Map<Seq<char>, Seq<char>>)>) -> Map<
    Seq<char>,
    Seq<char>,
> {
    first_of(named_args(attrs, "layout"@), named_args(attrs, "pane"@))
}

/// Merges the arguments of the attributes named `name`, in order; none
/// when there is no such attribute.
fn merged_args(attrs: &Vec<FieldAttr>, name: &str) -> (res: Option<Attributes>)
    requires
        forall|i: int| 0 <= i < attrs@.len() ==> (#[trigger] attrs@[i]).args.wf(),
    ensures
        match res {
            Some(m) => m.wf() && named_args(field_attrs_view(attrs@), name@) == Some(attr_view(m@)),
            None => named_args(field_attrs_view(attrs@), name@) is None,
        },
{
    let ghost views = field_attrs_view(attrs@);
    let mut res: Option<Attributes> = None;
    let mut i: usize = 0;
    while i < attrs.len()
        invariant
            i <= attrs@.len(),
            views == field_attrs_view(attrs@),
            forall|k: int| 0 <= k < attrs@.len() ==> (#[trigger] attrs@[k]).args.wf(),
            match res {
                Some(m) => m.wf() && named_args(views.take(i as int), name@) == Some(attr_view(m@)),
                None => named_args(views.take(i as int), name@) is None,
            },
        decreases attrs@.len() - i,
    {
        proof {
            assert(views.take(i + 1).drop_last() =~= views.take(i as int));
            assert(views.take(i + 1).last() == views[i as int]);
        }
        let a = &attrs[i];
        if str_eq(a.name.as_str(), name) {
            let mut m = match res {
                Some(m) => m,
                None => StrMap::new(),
            };
            let ghost had = named_args(views.take(i as int), name@);
            m.merge_from(&a.args);
            proof {
                if had is None {
                    assert(attr_view(Map::<Seq<char>, String>::empty()) =~= Map::<Seq<char>, Seq<char>>::empty());
                }
                assert(Map::<Seq<char>, Seq<char>>::empty().union_prefer_right(attr_view(a.args@))
                    =~= attr_view(a.args@));
            }
            res = Some(m);
        }
        i = i + 1;
    }
    proof {
        assert(views.take(attrs@.len() as int) =~= views);
    }
    res
}

/// The arguments for a field's control and for its container, from the
/// attributes of the field and the name of the control's type.
pub fn field_args(control_type: &str, attrs: &Vec<FieldAttr>) -> (res: (Attributes, Attributes))
    requires
        forall|i: int| 0 <= i < attrs@.len() ==> (#[trigger] attrs@[i]).args.wf(),
    ensures
        res.0.wf(),
        res.1.wf(),
        attr_view(res.0@) == control_args(control_type@, field_attrs_view(attrs@)),
        all_ascii(control_type@) ==> attr_view(res.0@) == first_of(
            named_args(field_attrs_view(attrs@), ascii_lowercase(control_type@)),
            named_args(field_attrs_view(attrs@), "field"@),
        ),
        attr_view(res.1@) == container_args(field_attrs_view(attrs@)),
{
    let lower = to_lower(control_type);
    let ctl = match merged_args(attrs, lower.as_str()) {
        Some(m) => m,
        None => match merged_args(attrs, "field") {
            Some(m) => m,
            None => StrMap::new(),
        },
    };
    let container = match merged_args(attrs, "layout") {
        Some(m) => m,
        None => match merged_args(attrs, "pane") {
            Some(m) => m,
            None => StrMap::new(),
        },
    };
    proof {
        assert(attr_view(Map::<Seq<char>, String>::empty()) =~= Map::<Seq<char>, Seq<char>>::empty());
    }
    (ctl, container)
}

/// The name under which a section sets one of its attributes on the control
/// it wraps: `no_info` and `no_icon` become `no-info` and `no-icon`.
pub open spec fn section_attr_name(k: Seq<char>) -> Seq<char> {
    if k == "no_info"@ {
        "no-info"@
    } else if k == "no_icon"@ {
        "no-icon"@
    } else {
        k
    }
}

/// The attributes a section sets on the control it wraps, for its keys in
/// order: every one but `title`, renamed.
pub open spec fn section_attrs(keys: Seq<Seq<char>>, m: Map<Seq<char>, Seq<char>>) -> Seq<
    (Seq<char>, Seq<char>),
>
    decreases keys.len(),
{
    if keys.len() == 0 {
        seq![]
    } else {
        let prev = section_attrs(keys.drop_last(), m);
        let k = keys.last();
        if k == "title"@ {
            prev
        } else {
            prev.push((section_attr_name(k), m[k]))
        }
    }
}

/// Pairs of strings taken by their characters.
pub open spec fn pairs_view(v: Seq<(String, String)>) -> Seq<(Seq<char>, Seq<char>)> {
    v.map_values(|p: (String, String)| (p.0@, p.1@))
}

/// What a section sets on the control it wraps: its title, its other
/// attributes, and whether its documentation is read as markdown.
pub struct SectionPlan {
    pub title: Option<String>,
    pub attributes: Vec<(String, String)>,
    pub parse_doc: bool,
}

fn section_attr_name_of(k: &str) -> (res: String)
    ensures
        res@ == section_attr_name(k@),
{
    if str_eq(k, "no_info") {
        "no-info".to_owned()
    } else if str_eq(k, "no_icon") {
        "no-icon".to_owned()
    } else {
        k.to_owned()
    }
}

/// What a section with the given attributes sets on the control it wraps:
/// the `title`, if any; every other attribute in key order, `no_info` and
/// `no_icon` renamed `no-info` and `no-icon`; and whether its documentation
/// is markdown, which it is unless `md_doc` reads `false`.
pub fn section_plan(attributes: &Attributes) -> (res: SectionPlan)
    requires
        attributes.wf(),
    ensures
        res.title matches Some(t) ==> attributes@.contains_key("title"@) && t@ == attributes@["title"@]@,
        res.title is None ==> !attributes@.contains_key("title"@),
        pairs_view(res.attributes@) == section_attrs(attributes.key_seq(), attr_view(attributes@)),
        res.parse_doc == !(attributes@.contains_key("md_doc"@) && attributes@["md_doc"@]@ == "false"@),
{
    proof {
        attributes.lemma_entries();
    }
    let title = match attributes.get("title") {
        Some(t) => Some(t.clone()),
        None => None,
    };
    let parse_doc = match attributes.get("md_doc") {
        Some(v) => !str_eq(v.as_str(), "false"),
        None => true,
    };
    let ghost keys = attributes.key_seq();
    let ghost m = attr_view(attributes@);
    let mut list: Vec<(String, String)> = Vec::new();
    let n = attributes.len();
    let mut i: usize = 0;
    while i < n
        invariant
            i <= n,
            n == keys.len(),
            keys == attributes.key_seq(),
            m == attr_view(attributes@),
            attributes.wf(),
            attributes.value_seq().len() == keys.len(),
            forall|j: int|
                0 <= j < keys.len() ==> #[trigger] attributes@.contains_key(keys[j]) && attributes@[keys[j]]
                    == attributes.value_seq()[j],
            pairs_view(list@) == section_attrs(keys.take(i as int), m),
        decreases n - i,
    {
        let k = attributes.key_at(i);
        let v = attributes.value_at(i);
        let ghost before = pairs_view(list@);
        proof {
            assert(keys.take(i + 1).drop_last() =~= keys.take(i as int));
            assert(keys.take(i + 1).last() == keys[i as int]);
            assert(attributes@.contains_key(keys[i as int]));
            assert(attributes@[keys[i as int]] == *v);
            assert(m[keys[i as int]] == v@);
        }
        if !str_eq(k.as_str(), "title") {
            let name = section_attr_name_of(k.as_str());
            let ghost pair = (name@, v@);
            list.push((name, v.clone()));
            proof {
                assert(pairs_view(list@) =~= before.push(pair));
            }
        }
        i = i + 1;
    }
    proof {
        assert(keys.take(n as int) =~= keys);
    }
    SectionPlan { title, attributes: list, parse_doc }
}

/// Whether a section shows the documentation of the control it wraps: it
/// does unless the control's `docs` attribute reads `consume`.
pub fn section_shows_docs(docs_attr: Option<&str>) -> (res: bool)
    ensures
        res == match docs_attr {
            Some(d) => d@ != "consume"@,
            None => true,
        },
{
    match docs_attr {
        Some(d) => !str_eq(d, "consume"),
        None => true,
    }
}

/// The documentation a section shows: the lines joined with line feeds.
pub fn section_info(docs: &Vec<String>) -> (res: String)
    ensures
        res@ == join_seqs(str_seqs(docs@), "\n"@),
{
    join_with(docs, "\n")
}

/// A text with every `_` made a `-`.
pub open spec fn dashed(k: Seq<char>) -> Seq<char> {
    k.map_values(|c: char| if c == '_' { '-' } else { c })
}

/// The section's flags reach the control in the control's spelling: for
/// every key of the section other than `title`, the control gets an
/// attribute with the key's value, under the key's name with `_` made `-`
/// when the key is the `no_info` or `no_icon` flag, and under the key itself
/// otherwise; and no attribute reaches the control spelled `no_info` or
/// `no_icon`.
pub proof fn lemma_section_flags_dashed(keys: Seq<Seq<char>>, m: Map<Seq<char>, Seq<char>>)
    ensures
        forall|i: int|
            #![trigger keys[i]]
            0 <= i < keys.len() && keys[i] != "title"@ ==> section_attrs(keys, m).contains(
                (
                    if keys[i] == "no_info"@ || keys[i] == "no_icon"@ {
                        dashed(keys[i])
                    } else {
                        keys[i]
                    },
                    m[keys[i]],
                ),
            ),
        forall|j: int|
            #![trigger section_attrs(keys, m)[j]]
            0 <= j < section_attrs(keys, m).len() ==> section_attrs(keys, m)[j].0 != "no_info"@
                && section_attrs(keys, m)[j].0 != "no_icon"@,
    decreases keys.len(),
{
    reveal_strlit("no_info");
    reveal_strlit("no_icon");
    reveal_strlit("no-info");
    reveal_strlit("no-icon");
    reveal_strlit("title");
    assert(dashed("no_info"@) =~= "no-info"@);
    assert(dashed("no_icon"@) =~= "no-icon"@);
    if keys.len() > 0 {
        let prefix = keys.drop_last();
        lemma_section_flags_dashed(prefix, m);
        let prev = section_attrs(prefix, m);
        let cur = section_attrs(keys, m);
        let k = keys.last();
        assert forall|i: int|
            #![trigger keys[i]]
            0 <= i < keys.len() && keys[i] != "title"@ implies cur.contains(
                (
                    if keys[i] == "no_info"@ || keys[i] == "no_icon"@ {
                        dashed(keys[i])
                    } else {
                        keys[i]
                    },
                    m[keys[i]],
                ),
            ) by {
            let p = (
                if keys[i] == "no_info"@ || keys[i] == "no_icon"@ {
                    dashed(keys[i])
                } else {
                    keys[i]
                },
                m[keys[i]],
            );
            if i < prefix.len() {
                assert(prefix[i] == keys[i]);
                assert(prev.contains(p));
                let j = choose|j: int| 0 <= j < prev.len() && prev[j] == p;
                if k != "title"@ {
                    assert(cur[j] == p);
                }
            } else {
                assert(cur[cur.len() - 1] == p);
            }
        }
        assert forall|j: int|
            #![trigger cur[j]]
            0 <= j < cur.len() implies cur[j].0 != "no_info"@ && cur[j].0 != "no_icon"@ by {
            if j < prev.len() {
                assert(cur[j] == prev[j]);
            } else {
                assert(cur[j].0 == section_attr_name(k));
                assert("no-info"@ != "no_info"@ && "no-icon"@ != "no_icon"@ && "no-info"@ != "no_icon"@
                    && "no-icon"@ != "no_info"@) by {
                    assert("no-info"@[2] != "no_info"@[2]);
                    assert("no-icon"@[2] != "no_icon"@[2]);
                    assert("no-info"@[2] != "no_icon"@[2]);
                    assert("no-icon"@[2] != "no_info"@[2]);
                }
            }
        }
    }
}

} // verus!
