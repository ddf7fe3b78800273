//! Form controls: how each sets up its element from its attributes, the
//! initial value it takes, and the helpers fields share.

use vstd::prelude::*;
use crate::attributes::{Attributes, entries_view};
use crate::strings::{str_eq, subst, replace_chars};

verus! {

/// What a control does to its element while it is set up.
#[derive(Debug, PartialEq, Eq)]
pub enum ElementOp {
    /// Sets an attribute.
    Attr(String, String),
    /// Sets the inner HTML.
    Html(String),
    /// Sets the text.
    Text(String),
}

/// An element operation with its strings taken by their characters.
pub enum OpView {
    Attr(Seq<char>, Seq<char>),
    Html(Seq<char>),
    Text(Seq<char>),
}

impl View for ElementOp {
    type V = OpView;

    open spec fn view(&self) -> OpView {
        match self {
            ElementOp::Attr(k, v) => OpView::Attr(k@, v@),
            ElementOp::Html(h) => OpView::Html(h@),
            ElementOp::Text(t) => OpView::Text(t@),
        }
    }
}

/// A list of element operations taken by their views.
pub open spec fn ops_view(v: Seq<ElementOp>) -> Seq<OpView> {
    v.map_values(|o: ElementOp| o@)
}

/// What an attribute of a control becomes, when it is not set as it is.
#[derive(Clone, Copy, Debug)]
pub enum AttrRule {
    /// It is left out.
    Drop,
    /// It is set under another name.
    Rename(&'static str),
    /// It is set under a given name with a given value.
    SetTo(&'static str, &'static str),
    /// Its value becomes the inner HTML.
    Html,
    /// Its value becomes the text.
    Text,
}

/// An attribute rule with its strings taken by their characters.
pub enum RuleView {
    Drop,
    Rename(Seq<char>),
    SetTo(Seq<char>, Seq<char>),
    Html,
    Text,
}

impl View for AttrRule {
    type V = RuleView;

    open spec fn view(&self) -> RuleView {
        match self {
            AttrRule::Drop => RuleView::Drop,
            AttrRule::Rename(n) => RuleView::Rename(n@),
            AttrRule::SetTo(n, v) => RuleView::SetTo(n@, v@),
            AttrRule::Html => RuleView::Html,
            AttrRule::Text => RuleView::Text,
        }
    }
}

/// The rules of a control, taken by their views.
pub open spec fn rules_view(rules: Seq<(&'static str, AttrRule)>) -> Seq<(Seq<char>, RuleView)> {
    rules.map_values(|r: (&'static str, AttrRule)| (r.0@, r.1@))
}

/// The rule for an attribute: the first one given for its name, if any.
pub open spec fn rule_for(rules: Seq<(Seq<char>, RuleView)>, k: Seq<char>) -> Option<RuleView>
    decreases rules.len(),
{
    if rules.len() == 0 {
        None
    } else if rules[0].0 == k {
        Some(rules[0].1)
    } else {
        rule_for(rules.drop_first(), k)
    }
}

/// What an attribute becomes under its rule.
pub open spec fn op_for(rule: Option<RuleView>, k: Seq<char>, v: Seq<char>) -> Option<OpView> {
    match rule {
        None => Some(OpView::Attr(k, v)),
        Some(RuleView::Drop) => None,
        Some(RuleView::Rename(n)) => Some(OpView::Attr(n, v)),
        Some(RuleView::SetTo(n, w)) => Some(OpView::Attr(n, w)),
        Some(RuleView::Html) => Some(OpView::Html(v)),
        Some(RuleView::Text) => Some(OpView::Text(v)),
    }
}

/// What the attributes become, in key order, under the rules.
pub open spec fn applied(es: Seq<(Seq<char>, Seq<char>)>, rules: Seq<(Seq<char>, RuleView)>) -> Seq<OpView>
    decreases es.len(),
{
    if es.len() == 0 {
        seq![]
    } else {
        let prev = applied(es.drop_last(), rules);
        match op_for(rule_for(rules, es.last().0), es.last().0, es.last().1) {
            Some(o) => prev.push(o),
            None => prev,
        }
    }
}

fn find_rule(rules: &Vec<(&'static str, AttrRule)>, k: &str) -> (res: Option<AttrRule>)
    ensures
        match res {
            Some(r) => rule_for(rules_view(rules@), k@) == Some(r@),
            None => rule_for(rules_view(rules@), k@) is None,
        },
{
    let ghost rv = rules_view(rules@);
    let mut i: usize = 0;
    proof {
        assert(rv.skip(0) =~= rv);
    }
    while i < rules.len()
        invariant
            i <= rules@.len(),
            rv == rules_view(rules@),
            rule_for(rv.skip(i as int), k@) == rule_for(rv, k@),
        decreases rules@.len() - i,
    {
        proof {
            assert(rv.skip(i as int).drop_first() =~= rv.skip(i + 1));
            assert(rv.skip(i as int)[0] == rv[i as int]);
        }
        let (name, rule) = rules[i];
        if str_eq(name, k) {
            return Some(rule);
        }
        i = i + 1;
    }
    proof {
        assert(rv.skip(i as int).len() == 0);
    }
    None
}

fn op_of(rule: Option<AttrRule>, k: &String, v: &String) -> (res: Option<ElementOp>)
    ensures
        match res {
            Some(o) => op_for(
                match rule {
                    Some(r) => Some(r@),
                    None => None,
                },
                k@,
                v@,
            ) == Some(o@),
            None => op_for(
                match rule {
                    Some(r) => Some(r@),
                    None => None,
                },
                k@,
                v@,
            ) is None,
        },
{
    match rule {
        None => Some(ElementOp::Attr(k.clone(), v.clone())),
        Some(AttrRule::Drop) => None,
        Some(AttrRule::Rename(n)) => Some(ElementOp::Attr(n.to_owned(), v.clone())),
        Some(AttrRule::SetTo(n, w)) => Some(ElementOp::Attr(n.to_owned(), w.to_owned())),
        Some(AttrRule::Html) => Some(ElementOp::Html(v.clone())),
        Some(AttrRule::Text) => Some(ElementOp::Text(v.clone())),
    }
}

/// What the attributes become, in key order, under the rules: an attribute
/// without a rule is set as it is.
pub fn apply_rules(attrs: &Attributes, rules: &Vec<(&'static str, AttrRule)>) -> (res: Vec<ElementOp>)
    requires
        attrs.wf(),
    ensures
        ops_view(res@) == applied(entries_view(attrs), rules_view(rules@)),
{
    let es = attrs.entries();
    let ghost ev = es@.map_values(|p: (String, String)| (p.0@, p.1@));
    let mut res: Vec<ElementOp> = Vec::new();
    let mut i: usize = 0;
    while i < es.len()
        invariant
            i <= es@.len(),
            ev == es@.map_values(|p: (String, String)| (p.0@, p.1@)),
            ops_view(res@) == applied(ev.take(i as int), rules_view(rules@)),
        decreases es@.len() - i,
    {
        proof {
            assert(ev.take(i + 1).drop_last() =~= ev.take(i as int));
            assert(ev.take(i + 1).last() == ev[i as int]);
        }
        let ghost before = ops_view(res@);
        let rule = find_rule(rules, es[i].0.as_str());
        match op_of(rule, &es[i].0, &es[i].1) {
            Some(o) => {
                let ghost ov = o@;
                res.push(o);
                proof {
                    assert(ops_view(res@) =~= before.push(ov));
                }
            },
            None => {},
        }
        i = i + 1;
    }
    proof {
        assert(ev.take(es@.len() as int) =~= ev);
    }
    res
}

/// The options of a control backed by a list of choices: each choice's
/// value and the text shown for it.
pub open spec fn choices_view(items: Seq<(String, String)>) -> Seq<(Seq<char>, Seq<char>)> {
    items.map_values(|p: (String, String)| (p.0@, p.1@))
}

/// The first choice value that is not empty, or nothing.
pub open spec fn first_choice(items: Seq<(Seq<char>, Seq<char>)>) -> Seq<char>
    decreases items.len(),
{
    if items.len() == 0 {
        seq![]
    } else if items[0].0.len() > 0 {
        items[0].0
    } else {
        first_choice(items.drop_first())
    }
}

/// The first choice value that is not empty, or nothing.
pub fn first_choice_of(items: &Vec<(String, String)>) -> (res: String)
    ensures
        res@ == first_choice(choices_view(items@)),
{
    let ghost cv = choices_view(items@);
    let mut i: usize = 0;
    proof {
        assert(cv.skip(0) =~= cv);
    }
    while i < items.len()
        invariant
            i <= items@.len(),
            cv == choices_view(items@),
            first_choice(cv.skip(i as int)) == first_choice(cv),
        decreases items@.len() - i,
    {
        proof {
            assert(cv.skip(i as int).drop_first() =~= cv.skip(i + 1));
            assert(cv.skip(i as int)[0] == cv[i as int]);
        }
        if items[i].0.as_str().unicode_len() > 0 {
            return items[i].0.clone();
        }
        i = i + 1;
    }
    proof {
        assert(cv.skip(i as int).len() == 0);
    }
    String::new()
}

/// The value of an attribute, if set.
pub open spec fn attr_value(attrs: &Attributes, k: Seq<char>) -> Option<Seq<char>> {
    if attrs@.contains_key(k) {
        Some(attrs@[k]@)
    } else {
        None
    }
}

fn attr_value_of(attrs: &Attributes, k: &str) -> (res: Option<String>)
    requires
        attrs.wf(),
    ensures
        match res {
            Some(v) => attr_value(attrs, k@) == Some(v@),
            None => attr_value(attrs, k@) is None,
        },
{
    match attrs.get(k) {
        Some(v) => Some(v.clone()),
        None => None,
    }
}

/// How a control sets up its element: the operations on the element, in
/// order, and the value the control starts with.
pub struct ControlSetup {
    pub ops: Vec<ElementOp>,
    pub value: String,
}

/// A checkbox: `title`, `html` and `label` become its inner HTML, every
/// other attribute is set as it is.
pub fn checkbox_setup(attrs: &Attributes) -> (res: Vec<ElementOp>)
    requires
        attrs.wf(),
    ensures
        ops_view(res@) == applied(
            entries_view(attrs),
            seq![("title"@, RuleView::Html), ("html"@, RuleView::Html), ("label"@, RuleView::Html)],
        ),
{
    let rules = vec![("title", AttrRule::Html), ("html", AttrRule::Html), ("label", AttrRule::Html)];
    proof {
        assert(rules_view(rules@) =~= seq![
            ("title"@, RuleView::Html),
            ("html"@, RuleView::Html),
            ("label"@, RuleView::Html),
        ]);
    }
    apply_rules(attrs, &rules)
}

/// An action button: it reads `ACTION BUTTON`; then `text` sets its text,
/// `html` its inner HTML, and every other attribute is set as it is.
pub fn action_setup(attrs: &Attributes) -> (res: Vec<ElementOp>)
    requires
        attrs.wf(),
    ensures
        ops_view(res@) == seq![OpView::Text("ACTION BUTTON"@)] + applied(
            entries_view(attrs),
            seq![("text"@, RuleView::Text), ("html"@, RuleView::Html)],
        ),
{
    let rules = vec![("text", AttrRule::Text), ("html", AttrRule::Html)];
    proof {
        assert(rules_view(rules@) =~= seq![("text"@, RuleView::Text), ("html"@, RuleView::Html)]);
    }
    let rest = apply_rules(attrs, &rules);
    let mut res: Vec<ElementOp> = vec![ElementOp::Text("ACTION BUTTON".to_owned())];
    let ghost rv = ops_view(rest@);
    let mut rest = rest;
    res.append(&mut rest);
    proof {
        assert(ops_view(res@) =~= seq![OpView::Text("ACTION BUTTON"@)] + rv);
    }
    res
}

/// A token selection: `multiple` is left out (a multiple selection has a
/// control of its own), `hide_name` and `small_badge` are set as
/// `hide-name` and `small-badge`, every other attribute as it is.
pub fn token_select_setup(attrs: &Attributes) -> (res: Vec<ElementOp>)
    requires
        attrs.wf(),
    ensures
        ops_view(res@) == applied(
            entries_view(attrs),
            seq![
                ("multiple"@, RuleView::Drop),
                ("hide_name"@, RuleView::Rename("hide-name"@)),
                ("small_badge"@, RuleView::Rename("small-badge"@)),
            ],
        ),
{
    let rules = vec![
        ("multiple", AttrRule::Drop),
        ("hide_name", AttrRule::Rename("hide-name")),
        ("small_badge", AttrRule::Rename("small-badge")),
    ];
    proof {
        assert(rules_view(rules@) =~= seq![
            ("multiple"@, RuleView::Drop),
            ("hide_name"@, RuleView::Rename("hide-name"@)),
            ("small_badge"@, RuleView::Rename("small-badge"@)),
        ]);
    }
    apply_rules(attrs, &rules)
}

/// A data badge: `text` becomes its inner HTML, `has_colon` and
/// `has-colon` set `has-colon` to `true`, every other attribute is set as it
/// is; the title comes last.
pub fn badge_setup(attrs: &Attributes, title: &str) -> (res: Vec<ElementOp>)
    requires
        attrs.wf(),
    ensures
        ops_view(res@) == applied(
            entries_view(attrs),
            seq![
                ("text"@, RuleView::Html),
                ("has_colon"@, RuleView::SetTo("has-colon"@, "true"@)),
                ("has-colon"@, RuleView::SetTo("has-colon"@, "true"@)),
            ],
        ).push(OpView::Attr("title"@, title@)),
{
    let rules = vec![
        ("text", AttrRule::Html),
        ("has_colon", AttrRule::SetTo("has-colon", "true")),
        ("has-colon", AttrRule::SetTo("has-colon", "true")),
    ];
    proof {
        assert(rules_view(rules@) =~= seq![
            ("text"@, RuleView::Html),
            ("has_colon"@, RuleView::SetTo("has-colon"@, "true"@)),
            ("has-colon"@, RuleView::SetTo("has-colon"@, "true"@)),
        ]);
    }
    let mut res = apply_rules(attrs, &rules);
    let ghost before = ops_view(res@);
    res.push(ElementOp::Attr("title".to_owned(), title.to_owned()));
    proof {
        assert(ops_view(res@) =~= before.push(OpView::Attr("title"@, title@)));
    }
    res
}

/// A single selection from a list of choices: `multiple` is left out,
/// `value` is set as `selected` and is the value it starts with (nothing
/// when absent), every other attribute is set as it is.
pub fn select_setup(attrs: &Attributes) -> (res: ControlSetup)
    requires
        attrs.wf(),
    ensures
        ops_view(res.ops@) == applied(
            entries_view(attrs),
            seq![("multiple"@, RuleView::Drop), ("value"@, RuleView::Rename("selected"@))],
        ),
        res.value@ == match attr_value(attrs, "value"@) {
            Some(v) => v,
            None => Seq::<char>::empty(),
        },
{
    let rules = vec![("multiple", AttrRule::Drop), ("value", AttrRule::Rename("selected"))];
    proof {
        assert(rules_view(rules@) =~= seq![
            ("multiple"@, RuleView::Drop),
            ("value"@, RuleView::Rename("selected"@)),
        ]);
    }
    let ops = apply_rules(attrs, &rules);
    let value = match attr_value_of(attrs, "value") {
        Some(v) => v,
        None => String::new(),
    };
    ControlSetup { ops, value }
}

/// A choice between radio buttons: `value` is the value it starts with,
/// else the first choice that is not empty; every other attribute is set as
/// it is; then `selected` is set to that value.
pub fn radios_setup(attrs: &Attributes, items: &Vec<(String, String)>) -> (res: ControlSetup)
    requires
        attrs.wf(),
    ensures
        res.value@ == match attr_value(attrs, "value"@) {
            Some(v) => v,
            None => first_choice(choices_view(items@)),
        },
        ops_view(res.ops@) == applied(entries_view(attrs), seq![("value"@, RuleView::Drop)]).push(
            OpView::Attr("selected"@, res.value@),
        ),
{
    let rules = vec![("value", AttrRule::Drop)];
    proof {
        assert(rules_view(rules@) =~= seq![("value"@, RuleView::Drop)]);
    }
    let mut ops = apply_rules(attrs, &rules);
    let value = match attr_value_of(attrs, "value") {
        Some(v) => v,
        None => first_choice_of(items),
    };
    let ghost before = ops_view(ops@);
    ops.push(ElementOp::Attr("selected".to_owned(), value.clone()));
    proof {
        assert(ops_view(ops@) =~= before.push(OpView::Attr("selected"@, value@)));
    }
    ControlSetup { ops, value }
}

/// A row of radio buttons: it starts with the first choice that is not
/// empty, set as `selected`; then every attribute is set as it is.
pub fn radio_btns_setup(attrs: &Attributes, items: &Vec<(String, String)>) -> (res: ControlSetup)
    requires
        attrs.wf(),
    ensures
        res.value@ == first_choice(choices_view(items@)),
        ops_view(res.ops@) == seq![OpView::Attr("selected"@, res.value@)] + applied(
            entries_view(attrs),
            seq![],
        ),
{
    let rules: Vec<(&'static str, AttrRule)> = Vec::new();
    proof {
        assert(rules_view(rules@) =~= Seq::<(Seq<char>, RuleView)>::empty());
    }
    let value = first_choice_of(items);
    let mut rest = apply_rules(attrs, &rules);
    let ghost rv = ops_view(rest@);
    let mut ops: Vec<ElementOp> = vec![ElementOp::Attr("selected".to_owned(), value.clone())];
    ops.append(&mut rest);
    proof {
        assert(ops_view(ops@) =~= seq![OpView::Attr("selected"@, value@)] + rv);
    }
    ControlSetup { ops, value }
}

/// A multiple selection: `multiple` is set to `true`, then every attribute
/// as it is.
pub fn multiselect_setup(attrs: &Attributes) -> (res: Vec<ElementOp>)
    requires
        attrs.wf(),
    ensures
        ops_view(res@) == seq![OpView::Attr("multiple"@, "true"@)] + applied(entries_view(attrs), seq![]),
{
    let rules: Vec<(&'static str, AttrRule)> = Vec::new();
    proof {
        assert(rules_view(rules@) =~= Seq::<(Seq<char>, RuleView)>::empty());
    }
    let mut rest = apply_rules(attrs, &rules);
    let ghost rv = ops_view(rest@);
    let mut ops: Vec<ElementOp> = vec![ElementOp::Attr("multiple".to_owned(), "true".to_owned())];
    ops.append(&mut rest);
    proof {
        assert(ops_view(ops@) =~= seq![OpView::Attr("multiple"@, "true"@)] + rv);
    }
    ops
}

/// A selector of choices: its items are elements of type `item_type`
/// (`flow-menu-item` unless given) carrying their value in `value_prop`
/// (`value` unless given); it starts with the first choice that is not
/// empty, set as `selected`, is labelled `Menu`, names `value_prop` as
/// `valueattr`, and every other attribute is set as it is.
pub fn selector_setup(attrs: &Attributes, items: &Vec<(String, String)>) -> (res: (ControlSetup, String, String))
    requires
        attrs.wf(),
    ensures
        res.1@ == match attr_value(attrs, "item_type"@) {
            Some(v) => v,
            None => "flow-menu-item"@,
        },
        res.2@ == match attr_value(attrs, "value_prop"@) {
            Some(v) => v,
            None => "value"@,
        },
        res.0.value@ == first_choice(choices_view(items@)),
        ops_view(res.0.ops@) == seq![
            OpView::Attr("selected"@, res.0.value@),
            OpView::Attr("label"@, "Menu"@),
            OpView::Attr("valueattr"@, res.2@),
        ] + applied(
            entries_view(attrs),
            seq![("item_type"@, RuleView::Drop), ("value_prop"@, RuleView::Drop)],
        ),
{
    let item_type = match attr_value_of(attrs, "item_type") {
        Some(v) => v,
        None => "flow-menu-item".to_owned(),
    };
    let value_prop = match attr_value_of(attrs, "value_prop") {
        Some(v) => v,
        None => "value".to_owned(),
    };
    let value = first_choice_of(items);
    let rules = vec![("item_type", AttrRule::Drop), ("value_prop", AttrRule::Drop)];
    proof {
        assert(rules_view(rules@) =~= seq![
            ("item_type"@, RuleView::Drop),
            ("value_prop"@, RuleView::Drop),
        ]);
    }
    let mut rest = apply_rules(attrs, &rules);
    let ghost rv = ops_view(rest@);
    let mut ops: Vec<ElementOp> = vec![
        ElementOp::Attr("selected".to_owned(), value.clone()),
        ElementOp::Attr("label".to_owned(), "Menu".to_owned()),
        ElementOp::Attr("valueattr".to_owned(), value_prop.clone()),
    ];
    ops.append(&mut rest);
    proof {
        assert(ops_view(ops@) =~= seq![
            OpView::Attr("selected"@, value@),
            OpView::Attr("label"@, "Menu"@),
            OpView::Attr("valueattr"@, value_prop@),
        ] + rv);
    }
    (ControlSetup { ops, value }, item_type, value_prop)
}

/// A text input (and the seed-phrase input): it starts with the `value`
/// attribute, or nothing; its value and `tab-index` are set first, then
/// every attribute as it is.
pub fn input_setup(attrs: &Attributes) -> (res: ControlSetup)
    requires
        attrs.wf(),
    ensures
        res.value@ == match attr_value(attrs, "value"@) {
            Some(v) => v,
            None => Seq::<char>::empty(),
        },
        ops_view(res.ops@) == seq![OpView::Attr("value"@, Seq::<char>::empty()), OpView::Attr("tab-index"@, "0"@)]
            + applied(entries_view(attrs), seq![]),
{
    let rules: Vec<(&'static str, AttrRule)> = Vec::new();
    proof {
        assert(rules_view(rules@) =~= Seq::<(Seq<char>, RuleView)>::empty());
    }
    let mut rest = apply_rules(attrs, &rules);
    let ghost rv = ops_view(rest@);
    let mut ops: Vec<ElementOp> = vec![
        ElementOp::Attr("value".to_owned(), String::new()),
        ElementOp::Attr("tab-index".to_owned(), "0".to_owned()),
    ];
    ops.append(&mut rest);
    proof {
        assert(ops_view(ops@) =~= seq![
            OpView::Attr("value"@, Seq::<char>::empty()),
            OpView::Attr("tab-index"@, "0"@),
        ] + rv);
    }
    let value = match attr_value_of(attrs, "value") {
        Some(v) => v,
        None => String::new(),
    };
    ControlSetup { ops, value }
}

/// The heading of a seed-phrase input: its `heading` attribute, or
/// `Enter 24-word seed phrase`.
pub fn mnemonic_heading(attrs: &Attributes) -> (res: String)
    requires
        attrs.wf(),
    ensures
        res@ == match attr_value(attrs, "heading"@) {
            Some(v) => v,
            None => "Enter 24-word seed phrase"@,
        },
{
    match attr_value_of(attrs, "heading") {
        Some(v) => v,
        None => "Enter 24-word seed phrase".to_owned(),
    }
}

/// Helpers shared by fields.
pub struct FieldHelper {}

/// Pairs of strings taken by their characters.
pub open spec fn string_pairs(v: Seq<(String, String)>) -> Seq<(Seq<char>, Seq<char>)> {
    v.map_values(|p: (String, String)| (p.0@, p.1@))
}

impl FieldHelper {
    /// The categories offered: text and key of each.
    pub fn get_categories() -> (res: Vec<(String, String)>)
        ensures
            string_pairs(res@) == seq![
                ("Category 1"@, "cat-1"@),
                ("Category 2"@, "cat-2"@),
                ("Category 3"@, "cat-3"@),
            ],
    {
        let res = vec![
            ("Category 1".to_owned(), "cat-1".to_owned()),
            ("Category 2".to_owned(), "cat-2".to_owned()),
            ("Category 3".to_owned(), "cat-3".to_owned()),
        ];
        proof {
            assert(string_pairs(res@) =~= seq![
                ("Category 1"@, "cat-1"@),
                ("Category 2"@, "cat-2"@),
                ("Category 3"@, "cat-3"@),
            ]);
        }
        res
    }

    /// The subcategories of a category, by its key: two for `cat-1` and for
    /// `cat-2`, none for any other.
    pub fn get_subcategories(parent: &str) -> (res: Vec<(String, String)>)
        ensures
            string_pairs(res@) == (if parent@ == "cat-1"@ {
                seq![("Category 1 - A"@, "cat-1-a"@), ("Category 1 - B"@, "cat-1-b"@)]
            } else if parent@ == "cat-2"@ {
                seq![("Category 2 - A"@, "cat-2-a"@), ("Category 2 - B"@, "cat-2-b"@)]
            } else {
                seq![]
            }),
    {
        let mut list: Vec<(String, String)> = Vec::new();
        if str_eq(parent, "cat-1") {
            list.push(("Category 1 - A".to_owned(), "cat-1-a".to_owned()));
            list.push(("Category 1 - B".to_owned(), "cat-1-b".to_owned()));
        } else if str_eq(parent, "cat-2") {
            list.push(("Category 2 - A".to_owned(), "cat-2-a".to_owned()));
            list.push(("Category 2 - B".to_owned(), "cat-2-b".to_owned()));
        }
        proof {
            if parent@ == "cat-1"@ {
                assert(string_pairs(list@) =~= seq![
                    ("Category 1 - A"@, "cat-1-a"@),
                    ("Category 1 - B"@, "cat-1-b"@),
                ]);
            } else if parent@ == "cat-2"@ {
                assert(string_pairs(list@) =~= seq![
                    ("Category 2 - A"@, "cat-2-a"@),
                    ("Category 2 - B"@, "cat-2-b"@),
                ]);
            } else {
                assert(string_pairs(list@) =~= Seq::<(Seq<char>, Seq<char>)>::empty());
            }
        }
        list
    }

    /// The value an attribute is set to: the value with each `"` written
    /// `&quot;`.
    pub fn attr_value(value: &str) -> (res: String)
        ensures
            res@ == subst(value@, '"', '"', "&quot;"@),
    {
        replace_chars(value, '"', '"', "&quot;")
    }

    /// A value made safe for an attribute: each `"` and `'` written
    /// `&quot;`.
    pub fn clean_value_for_attr(value: &str) -> (res: String)
        ensures
            res@ == subst(value@, '"', '\'', "&quot;"@),
    {
        replace_chars(value, '"', '\'', "&quot;")
    }
}

/// A menu of choices, as far as the library has told it which choice to
/// select.
pub struct FlowMenuBase {
    pub selected: Option<String>,
}

impl FlowMenuBase {
    /// A menu told nothing yet.
    pub fn new() -> (res: Self)
        ensures
            res.selected is None,
    {
        FlowMenuBase { selected: None }
    }

    /// Selects the choice with the given value.
    pub fn select(&mut self, selection: &str)
        ensures
            final(self).selected matches Some(s) && s@ == selection@,
    {
        self.selected = Some(selection.to_owned());
    }
}

} // verus!
