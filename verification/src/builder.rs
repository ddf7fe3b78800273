//! List builders: the items a list holds, found by id, edited, deleted and
//! reordered; the rows that show them and the actions a row offers; and
//! which of the builder's buttons show.

use vstd::prelude::*;
use crate::strings::{str_eq, str_seqs};

verus! {

/// An item of a list builder, known by its id.
pub trait ListBuilderItem {
    /// The id the item reports.
    spec fn spec_id(&self) -> Seq<char>;

    /// The id of the item.
    fn id(&self) -> (res: String)
        ensures
            res@ == self.spec_id(),
    ;
}

/// An item with the id it reports.
pub open spec fn entry_of<I: ListBuilderItem>(item: I) -> (Seq<char>, I) {
    (item.spec_id(), item)
}

/// The position of the first entry with id `id` at or after `from`, or the
/// number of entries when there is none.
pub open spec fn first_with_id<I>(entries: Seq<(Seq<char>, I)>, id: Seq<char>, from: int) -> int
    decreases entries.len() - from,
{
    if from < 0 || from >= entries.len() {
        entries.len() as int
    } else if entries[from].0 == id {
        from
    } else {
        first_with_id(entries, id, from + 1)
    }
}

proof fn lemma_first_with_id<I>(entries: Seq<(Seq<char>, I)>, id: Seq<char>, from: int)
    requires
        0 <= from,
    ensures
        first_with_id(entries, id, from) <= entries.len(),
        from <= entries.len() ==> from <= first_with_id(entries, id, from),
        first_with_id(entries, id, from) < entries.len() ==> entries[first_with_id(entries, id, from)].0
            == id,
        forall|k: int| from <= k < first_with_id(entries, id, from) ==> (#[trigger] entries[k]).0 != id,
    decreases entries.len() - from,
{
    if from < entries.len() && entries[from].0 != id {
        lemma_first_with_id(entries, id, from + 1);
    }
}

/// Whether an entry's id differs from `id`.
pub open spec fn other_id<I>(id: Seq<char>) -> spec_fn((Seq<char>, I)) -> bool {
    |e: (Seq<char>, I)| e.0 != id
}

/// The entries without those with id `id`, in order.
pub open spec fn without_id<I>(entries: Seq<(Seq<char>, I)>, id: Seq<char>) -> Seq<(Seq<char>, I)> {
    entries.filter(other_id(id))
}

/// The entries once the first with id `id` moves one place up (towards the
/// front) or down, and whether it moved: it does not when there is no such
/// entry, or when it is already first (up) or last (down).
pub open spec fn reordered<I>(entries: Seq<(Seq<char>, I)>, id: Seq<char>, up: bool) -> (Seq<(Seq<char>, I)>, bool) {
    let i = first_with_id(entries, id, 0);
    if i >= entries.len() {
        (entries, false)
    } else if (i == 0 && up) || (i == entries.len() - 1 && !up) {
        (entries, false)
    } else {
        let j = if up {
            i - 1
        } else {
            i + 1
        };
        (entries.update(i, entries[j]).update(j, entries[i]), true)
    }
}

/// The items of a list builder, in order, each with the id it reported
/// when it was put in.
pub struct ListItems<I: ListBuilderItem> {
    ids: Vec<String>,
    items: Vec<I>,
}

impl<I: ListBuilderItem> View for ListItems<I> {
    type V = Seq<(Seq<char>, I)>;

    closed spec fn view(&self) -> Seq<(Seq<char>, I)> {
        Seq::new(self.items@.len(), |k: int| (self.ids@[k]@, self.items@[k]))
    }
}

impl<I: ListBuilderItem> ListItems<I> {
    /// Well-formedness: one id per item.
    pub closed spec fn wf(&self) -> bool {
        self.ids@.len() == self.items@.len()
    }

    /// A list with no items.
    pub fn new() -> (res: Self)
        ensures
            res.wf(),
            res@ == Seq::<(Seq<char>, I)>::empty(),
    {
        let res = ListItems { ids: Vec::new(), items: Vec::new() };
        proof {
            assert(res@ =~= Seq::<(Seq<char>, I)>::empty());
        }
        res
    }

    /// The number of items.
    pub fn items_len(&self) -> (res: usize)
        requires
            self.wf(),
        ensures
            res == self@.len(),
    {
        self.items.len()
    }

    /// The items.
    pub fn value(&self) -> (res: &Vec<I>)
        requires
            self.wf(),
        ensures
            res@.len() == self@.len(),
            forall|k: int| 0 <= k < res@.len() ==> res@[k] == #[trigger] self@[k].1,
    {
        &self.items
    }

    /// Adds an item at the end, with the id it reports.
    pub fn push_item(&mut self, item: I)
        requires
            old(self).wf(),
        ensures
            final(self).wf(),
            final(self)@ == old(self)@.push(entry_of(item)),
    {
        let ghost before = self@;
        let id = item.id();
        let ghost idv = id@;
        let ghost it = item;
        self.ids.push(id);
        self.items.push(item);
        proof {
            assert(self@ =~= before.push(entry_of(it)));
        }
    }

    /// Replaces the items, each with the id it reports.
    pub fn set_value(&mut self, items: Vec<I>)
        requires
            old(self).wf(),
        ensures
            final(self).wf(),
            final(self)@ == items@.map_values(|x: I| entry_of(x)),
    {
        let mut fresh: ListItems<I> = ListItems::new();
        let mut rest = items;
        let ghost all = rest@;
        let n = rest.len();
        let mut k: usize = 0;
        proof {
            assert(rest@ =~= all.skip(0));
            assert(all.take(0).map_values(|x: I| entry_of(x)) =~= Seq::<(Seq<char>, I)>::empty());
        }
        while rest.len() > 0
            invariant
                fresh.wf(),
                k <= n,
                n == all.len(),
                rest@ == all.skip(k as int),
                fresh@ == all.take(k as int).map_values(|x: I| entry_of(x)),
            decreases rest@.len(),
        {
            let item = rest.remove(0);
            proof {
                assert(item == all[k as int]);
                assert(rest@ =~= all.skip(k + 1));
            }
            let ghost before = fresh@;
            fresh.push_item(item);
            proof {
                assert(all.take(k + 1) =~= all.take(k as int).push(all[k as int]));
                assert(fresh@ =~= all.take(k + 1).map_values(|x: I| entry_of(x)));
            }
            k = k + 1;
        }
        proof {
            assert(all.take(k as int) =~= all);
        }
        *self = fresh;
    }

    /// The position of the first item with id `id`, if any.
    pub fn find_index(&self, id: &str) -> (res: Option<usize>)
        requires
            self.wf(),
        ensures
            match res {
                Some(i) => i == first_with_id(self@, id@, 0) && i < self@.len(),
                None => first_with_id(self@, id@, 0) == self@.len(),
            },
    {
        proof {
            lemma_first_with_id(self@, id@, 0);
        }
        let mut i: usize = 0;
        while i < self.ids.len()
            invariant
                self.wf(),
                i <= self@.len(),
                first_with_id(self@, id@, i as int) == first_with_id(self@, id@, 0),
            decreases self@.len() - i,
        {
            if str_eq(self.ids[i].as_str(), id) {
                return Some(i);
            }
            i = i + 1;
        }
        None
    }

    /// The first item with id `id`, if any.
    pub fn get_item(&self, id: &str) -> (res: Option<&I>)
        requires
            self.wf(),
        ensures
            match res {
                Some(x) => first_with_id(self@, id@, 0) < self@.len() && *x == self@[first_with_id(
                    self@,
                    id@,
                    0,
                )].1,
                None => first_with_id(self@, id@, 0) == self@.len(),
            },
    {
        match self.find_index(id) {
            Some(i) => Some(&self.items[i]),
            None => None,
        }
    }

    /// Puts `item` in the place of the first item with the id it reports;
    /// nothing changes when there is none.
    pub fn update_item(&mut self, item: I)
        requires
            old(self).wf(),
        ensures
            final(self).wf(),
            ({
                let i = first_with_id(old(self)@, item.spec_id(), 0);
                final(self)@ == if i < old(self)@.len() {
                    old(self)@.update(i, entry_of(item))
                } else {
                    old(self)@
                }
            }),
    {
        let ghost it = item;
        let id = item.id();
        proof {
            lemma_first_with_id(self@, id@, 0);
        }
        match self.find_index(id.as_str()) {
            Some(i) => {
                self.items.set(i, item);
                proof {
                    assert(self@ =~= old(self)@.update(i as int, (id@, it)));
                }
            },
            None => {},
        }
    }

    /// Takes out every item with id `id`.
    #[verifier::spinoff_prover]
    pub fn delete(&mut self, id: &str) -> (res: bool)
        requires
            old(self).wf(),
        ensures
            final(self).wf(),
            final(self)@ == without_id(old(self)@, id@),
            res,
    {
        let ghost start = self@;
        let n = self.items.len();
        let mut rest_items: Vec<I> = Vec::new();
        std::mem::swap(&mut rest_items, &mut self.items);
        let mut rest_ids: Vec<String> = Vec::new();
        std::mem::swap(&mut rest_ids, &mut self.ids);
        let mut kept: ListItems<I> = ListItems::new();
        let mut k: usize = 0;
        proof {
            assert(start.take(0).filter(other_id(id@)) =~= Seq::<(Seq<char>, I)>::empty());
        }
        while rest_items.len() > 0
            invariant
                k <= start.len(),
                n == start.len(),
                rest_items@.len() == rest_ids@.len(),
                rest_items@.len() + k == n,
                forall|j: int|
                    0 <= j < rest_items@.len() ==> (#[trigger] rest_ids@[j])@ == start[k + j].0
                        && rest_items@[j] == start[k + j].1,
                kept.wf(),
                kept@ == start.take(k as int).filter(other_id(id@)),
            decreases rest_items@.len(),
        {
            let ghost ids_before = rest_ids@;
            let ghost items_before = rest_items@;
            proof {
                assert(ids_before[0]@ == start[k as int].0);
            }
            let item = rest_items.remove(0);
            let item_id = rest_ids.remove(0);
            proof {
                reveal(Seq::filter);
                assert(item == start[k as int].1);
                assert(item_id@ == start[k as int].0);
                assert(start.take(k + 1).drop_last() =~= start.take(k as int));
                assert(start.take(k + 1).last() == start[k as int]);
                assert forall|j: int| 0 <= j < rest_items@.len() implies (#[trigger] rest_ids@[j])@
                    == start[k + 1 + j].0 && rest_items@[j] == start[k + 1 + j].1 by {
                    assert(rest_ids@[j] == ids_before[j + 1]);
                    assert(rest_items@[j] == items_before[j + 1]);
                    assert(ids_before[j + 1]@ == start[k + (j + 1)].0);
                }
            }
            if !str_eq(item_id.as_str(), id) {
                let ghost before = kept@;
                kept.ids.push(item_id);
                kept.items.push(item);
                proof {
                    assert(kept@ =~= before.push(start[k as int]));
                    assert(start.take(k + 1).filter(other_id(id@)) == start.take(k as int).filter(
                        other_id(id@),
                    ).push(start[k as int]));
                }
            } else {
                proof {
                    assert(start.take(k + 1).filter(other_id(id@)) == start.take(k as int).filter(
                        other_id(id@),
                    ));
                }
            }
            k = k + 1;
        }
        proof {
            assert(start.take(k as int) =~= start);
        }
        *self = kept;
        true
    }

    /// Moves the first item with id `id` one place up (towards the front)
    /// or down; tells whether it moved.
    pub fn order(&mut self, id: &str, up: bool) -> (res: bool)
        requires
            old(self).wf(),
        ensures
            final(self).wf(),
            (final(self)@, res) == reordered(old(self)@, id@, up),
    {
        proof {
            lemma_first_with_id(self@, id@, 0);
        }
        let i = match self.find_index(id) {
            Some(i) => i,
            None => return false,
        };
        let last = self.items.len() - 1;
        if (i == 0 && up) || (i == last && !up) {
            return false;
        }
        let j = if up {
            i - 1
        } else {
            i + 1
        };
        let ghost a = self@[i as int];
        let ghost b = self@[j as int];
        let lo = if up {
            j
        } else {
            i
        };
        let x = self.items.remove(lo + 1);
        self.items.insert(lo, x);
        let y = self.ids.remove(lo + 1);
        self.ids.insert(lo, y);
        proof {
            assert(self@ =~= old(self)@.update(i as int, b).update(j as int, a));
        }
        true
    }
}

/// Deleting the items with an id leaves none with that id, and keeps every
/// other item.
pub proof fn lemma_delete_removes<I>(entries: Seq<(Seq<char>, I)>, id: Seq<char>)
    ensures
        forall|k: int|
            0 <= k < without_id(entries, id).len() ==> (#[trigger] without_id(entries, id)[k]).0 != id,
        forall|k: int|
            0 <= k < entries.len() && (#[trigger] entries[k]).0 != id ==> without_id(
                entries,
                id,
            ).contains(entries[k]),
{
    let f = other_id::<I>(id);
    assert forall|k: int| 0 <= k < without_id(entries, id).len() implies (#[trigger] without_id(
        entries,
        id,
    )[k]).0 != id by {
        entries.lemma_filter_pred(f, k);
    }
    assert forall|k: int| 0 <= k < entries.len() && (#[trigger] entries[k]).0 != id implies without_id(
        entries,
        id,
    ).contains(entries[k]) by {
        entries.lemma_filter_contains(f, k);
    }
}

/// Moving an item up and then down again, when it moved, gives back the list
/// one started with, provided ids do not repeat.
pub proof fn lemma_order_up_down<I>(entries: Seq<(Seq<char>, I)>, id: Seq<char>)
    requires
        forall|a: int, b: int|
            0 <= a < b < entries.len() ==> (#[trigger] entries[a]).0 != (#[trigger] entries[b]).0,
    ensures
        reordered(entries, id, true).1 ==> reordered(reordered(entries, id, true).0, id, false)
            == (entries, true),
{
    lemma_first_with_id(entries, id, 0);
    let i = first_with_id(entries, id, 0);
    if reordered(entries, id, true).1 {
        let moved = reordered(entries, id, true).0;
        assert(moved[i - 1] == entries[i]);
        assert forall|k: int| 0 <= k < i - 1 implies (#[trigger] moved[k]).0 != id by {
            assert(moved[k] == entries[k]);
        }
        lemma_first_with_id(moved, id, 0);
        assert(first_with_id(moved, id, 0) == i - 1) by {
            let f = first_with_id(moved, id, 0);
            if f < i - 1 {
                assert(moved[f].0 == id);
            } else if f > i - 1 {
                assert(moved[i - 1].0 == id);
            }
        }
        assert(moved.update(i - 1, moved[i]).update(i, moved[i - 1]) =~= entries);
    }
}

/// What a row of a list offers to do with its item.
#[derive(Clone, Copy, Debug, PartialEq, Eq, Structural)]
pub enum RowAction {
    OrderUp,
    OrderDown,
    Edit,
    Delete,
}

/// The name an action goes by in a row's markup.
pub open spec fn action_name(a: RowAction) -> Seq<char> {
    match a {
        RowAction::OrderUp => "order-up"@,
        RowAction::OrderDown => "order-down"@,
        RowAction::Edit => "edit"@,
        RowAction::Delete => "delete"@,
    }
}

/// The action a name stands for, if any.
pub open spec fn action_of(s: Seq<char>) -> Option<RowAction> {
    if s == "edit"@ {
        Some(RowAction::Edit)
    } else if s == "delete"@ {
        Some(RowAction::Delete)
    } else if s == "order-up"@ {
        Some(RowAction::OrderUp)
    } else if s == "order-down"@ {
        Some(RowAction::OrderDown)
    } else {
        None
    }
}

impl RowAction {
    /// The name the action goes by in a row's markup (`data-action`).
    pub fn as_str(&self) -> (res: &'static str)
        ensures
            res@ == action_name(*self),
    {
        match self {
            RowAction::OrderUp => "order-up",
            RowAction::OrderDown => "order-down",
            RowAction::Edit => "edit",
            RowAction::Delete => "delete",
        }
    }

    /// The icon of the action's button: `info-row-` and its name.
    pub fn icon(&self) -> (res: String)
        ensures
            res@ == "info-row-"@ + action_name(*self),
    {
        let mut res = "info-row-".to_owned();
        res.append(self.as_str());
        res
    }

    /// The action a clicked button's `data-action` stands for, if any.
    pub fn from_str(s: &str) -> (res: Option<RowAction>)
        ensures
            res == action_of(s@),
    {
        if str_eq(s, "edit") {
            Some(RowAction::Edit)
        } else if str_eq(s, "delete") {
            Some(RowAction::Delete)
        } else if str_eq(s, "order-up") {
            Some(RowAction::OrderUp)
        } else if str_eq(s, "order-down") {
            Some(RowAction::OrderDown)
        } else {
            None
        }
    }
}

/// Reading an action's name gives the action back.
pub proof fn lemma_action_roundtrip(a: RowAction)
    ensures
        action_of(action_name(a)) == Some(a),
{
    reveal_strlit("edit");
    reveal_strlit("delete");
    reveal_strlit("order-up");
    reveal_strlit("order-down");
    assert("order-up"@ != "edit"@) by {
        assert("order-up"@.len() != "edit"@.len());
    }
    assert("order-up"@ != "delete"@) by {
        assert("order-up"@[0] != "delete"@[0]);
    }
    assert("order-down"@ != "edit"@) by {
        assert("order-down"@.len() != "edit"@.len());
    }
    assert("order-down"@ != "delete"@) by {
        assert("order-down"@[0] != "delete"@[0]);
    }
    assert("order-down"@ != "order-up"@) by {
        assert("order-down"@.len() != "order-up"@.len());
    }
    assert("delete"@ != "edit"@) by {
        assert("delete"@.len() != "edit"@.len());
    }
}

/// A row of a list: its item's id, title and optional parts, and which
/// actions it offers.
pub struct ListRow {
    pub id: String,
    pub title: String,
    pub description: Option<String>,
    pub sub: Option<String>,
    pub value: Option<String>,
    pub left_icon: Option<String>,
    pub right_icon: Option<String>,
    pub cls: Option<String>,
    pub editable: bool,
    pub deletable: bool,
    pub orderable: bool,
}

impl Default for ListRow {
    fn default() -> (res: Self)
        ensures
            res.id@.len() == 0,
            res.title@.len() == 0,
            res.description is None,
            res.sub is None,
            res.value is None,
            res.left_icon is None,
            res.right_icon is None,
            res.cls is None,
            res.editable,
            res.deletable,
            res.orderable,
    {
        ListRow {
            id: String::new(),
            title: String::new(),
            description: None,
            sub: None,
            value: None,
            left_icon: None,
            right_icon: None,
            cls: None,
            editable: true,
            deletable: true,
            orderable: true,
        }
    }
}

/// The actions a row offers, in the order of their buttons: up and down
/// when it can be reordered, edit, then delete.
pub open spec fn row_actions(orderable: bool, editable: bool, deletable: bool) -> Seq<RowAction> {
    (if orderable {
        seq![RowAction::OrderUp, RowAction::OrderDown]
    } else {
        seq![]
    }) + (if editable {
        seq![RowAction::Edit]
    } else {
        seq![]
    }) + (if deletable {
        seq![RowAction::Delete]
    } else {
        seq![]
    })
}

impl ListRow {
    /// The actions the row offers, in the order of their buttons.
    pub fn actions(&self) -> (res: Vec<RowAction>)
        ensures
            res@ == row_actions(self.orderable, self.editable, self.deletable),
    {
        let mut res: Vec<RowAction> = Vec::new();
        if self.orderable {
            res.push(RowAction::OrderUp);
            res.push(RowAction::OrderDown);
        }
        if self.editable {
            res.push(RowAction::Edit);
        }
        if self.deletable {
            res.push(RowAction::Delete);
        }
        proof {
            assert(res@ =~= row_actions(self.orderable, self.editable, self.deletable));
        }
        res
    }
}

/// A part of a row's element: a text in an element of a class, an image of
/// a class, an action's button, or the box that holds the titles.
#[derive(Debug, PartialEq, Eq)]
pub enum RowPart {
    Text(String, String),
    Image(String, String),
    Action(RowAction),
    TitleBox,
}

/// A row part with its strings taken by their characters.
pub enum RowPartView {
    Text(Seq<char>, Seq<char>),
    Image(Seq<char>, Seq<char>),
    Action(RowAction),
    TitleBox,
}

impl View for RowPart {
    type V = RowPartView;

    open spec fn view(&self) -> RowPartView {
        match self {
            RowPart::Text(c, t) => RowPartView::Text(c@, t@),
            RowPart::Image(c, s) => RowPartView::Image(c@, s@),
            RowPart::Action(a) => RowPartView::Action(*a),
            RowPart::TitleBox => RowPartView::TitleBox,
        }
    }
}

/// Row parts taken by their views.
pub open spec fn parts_view(v: Seq<RowPart>) -> Seq<RowPartView> {
    v.map_values(|p: RowPart| p@)
}

/// A text part of the class, when there is a text.
pub open spec fn text_part(class: Seq<char>, o: Option<String>) -> Seq<RowPartView> {
    match o {
        Some(t) => seq![RowPartView::Text(class, t@)],
        None => seq![],
    }
}

/// An image part of the class, when there is a source.
pub open spec fn image_part(class: Seq<char>, o: Option<String>) -> Seq<RowPartView> {
    match o {
        Some(src) => seq![RowPartView::Image(class, src@)],
        None => seq![],
    }
}

/// How a row's element is made: its classes (`info-row` and the row's own
/// class, if any); the title box's parts (the title, the subtitle and the
/// description); and the row's parts in order (the left icon, the title box,
/// the value, the action buttons, the right icon).
pub struct RowPlan {
    pub classes: Vec<String>,
    pub title_box: Vec<RowPart>,
    pub parts: Vec<RowPart>,
}

/// The classes of a row's element.
pub open spec fn row_classes(row: ListRow) -> Seq<Seq<char>> {
    match row.cls {
        Some(c) => seq!["info-row"@, c@],
        None => seq!["info-row"@],
    }
}

/// The parts of a row's title box.
pub open spec fn row_title_box(row: ListRow) -> Seq<RowPartView> {
    seq![RowPartView::Text("title"@, row.title@)] + text_part("sub-title"@, row.sub) + text_part(
        "description"@,
        row.description,
    )
}

/// The parts of a row's element, in order.
pub open spec fn row_parts(row: ListRow) -> Seq<RowPartView> {
    image_part("icon left"@, row.left_icon) + seq![RowPartView::TitleBox] + text_part("value"@, row.value)
        + row_actions(row.orderable, row.editable, row.deletable).map_values(|a: RowAction| RowPartView::Action(a))
        + image_part("icon right"@, row.right_icon)
}

fn push_text(v: &mut Vec<RowPart>, class: &str, o: &Option<String>)
    ensures
        parts_view(final(v)@) == parts_view(old(v)@) + text_part(class@, *o),
{
    let ghost before = parts_view(v@);
    match o {
        Some(t) => v.push(RowPart::Text(class.to_owned(), t.clone())),
        None => {},
    }
    proof {
        assert(parts_view(v@) =~= before + text_part(class@, *o));
    }
}

fn push_image(v: &mut Vec<RowPart>, class: &str, o: &Option<String>)
    ensures
        parts_view(final(v)@) == parts_view(old(v)@) + image_part(class@, *o),
{
    let ghost before = parts_view(v@);
    match o {
        Some(t) => v.push(RowPart::Image(class.to_owned(), t.clone())),
        None => {},
    }
    proof {
        assert(parts_view(v@) =~= before + image_part(class@, *o));
    }
}

impl ListRow {
    /// How the row's element is made.
    pub fn row_plan(&self) -> (res: RowPlan)
        ensures
            str_seqs(res.classes@) == row_classes(*self),
            parts_view(res.title_box@) == row_title_box(*self),
            parts_view(res.parts@) == row_parts(*self),
    {
        let mut classes: Vec<String> = vec!["info-row".to_owned()];
        match &self.cls {
            Some(c) => classes.push(c.clone()),
            None => {},
        }
        proof {
            assert(str_seqs(classes@) =~= row_classes(*self));
        }
        let mut title_box: Vec<RowPart> = vec![RowPart::Text("title".to_owned(), self.title.clone())];
        proof {
            assert(parts_view(title_box@) =~= seq![RowPartView::Text("title"@, self.title@)]);
        }
        push_text(&mut title_box, "sub-title", &self.sub);
        push_text(&mut title_box, "description", &self.description);
        proof {
            assert(parts_view(title_box@) =~= row_title_box(*self));
        }
        let mut parts: Vec<RowPart> = Vec::new();
        proof {
            assert(parts_view(parts@) =~= Seq::<RowPartView>::empty());
        }
        push_image(&mut parts, "icon left", &self.left_icon);
        let ghost p1 = parts_view(parts@);
        parts.push(RowPart::TitleBox);
        proof {
            assert(parts_view(parts@) =~= p1 + seq![RowPartView::TitleBox]);
        }
        push_text(&mut parts, "value", &self.value);
        let acts = self.actions();
        let ghost p2 = parts_view(parts@);
        let mut i: usize = 0;
        while i < acts.len()
            invariant
                i <= acts@.len(),
                parts_view(parts@) == p2 + acts@.take(i as int).map_values(|a: RowAction| RowPartView::Action(a)),
            decreases acts@.len() - i,
        {
            let ghost before = parts_view(parts@);
            parts.push(RowPart::Action(acts[i]));
            proof {
                assert(acts@.take(i + 1) =~= acts@.take(i as int).push(acts@[i as int]));
                assert(parts_view(parts@) =~= before.push(RowPartView::Action(acts@[i as int])));
                assert(acts@.take(i + 1).map_values(|a: RowAction| RowPartView::Action(a)) =~= acts@.take(
                    i as int,
                ).map_values(|a: RowAction| RowPartView::Action(a)).push(RowPartView::Action(acts@[i as int])));
            }
            i = i + 1;
        }
        proof {
            assert(acts@.take(acts@.len() as int) =~= acts@);
        }
        push_image(&mut parts, "icon right", &self.right_icon);
        proof {
            assert(parts_view(parts@) =~= row_parts(*self));
        }
        RowPlan { classes, title_box, parts }
    }
}

/// Which of a list builder's buttons show, what its save button reads,
/// whether its form is open, and the id of the item being edited, if any.
pub struct BuilderUi {
    pub add_visible: bool,
    pub save_visible: bool,
    pub form_open: bool,
    pub save_label: String,
    pub editing: Option<String>,
}

impl BuilderUi {
    /// A builder whose form is closed and whose list has just been drawn;
    /// `addable` tells whether items can be added.
    pub fn new(addable: bool) -> (res: Self)
        ensures
            res.add_visible == addable,
            !res.save_visible,
            !res.form_open,
            res.save_label@ == "Save"@,
            res.editing is None,
    {
        BuilderUi {
            add_visible: addable,
            save_visible: false,
            form_open: false,
            save_label: "Save".to_owned(),
            editing: None,
        }
    }

    /// Opens the form: the add button hides, save and cancel show.
    pub fn set_form(&mut self)
        ensures
            final(self).form_open,
            !final(self).add_visible,
            final(self).save_visible,
            final(self).save_label == old(self).save_label,
            final(self).editing == old(self).editing,
    {
        self.form_open = true;
        self.add_visible = false;
        self.save_visible = true;
    }

    /// The add button was clicked: the save button reads `Add`, no item is
    /// being edited, and the form opens when the list builder has one.
    pub fn on_add_click(&mut self, show_form: bool)
        ensures
            final(self).save_label@ == "Add"@,
            final(self).editing is None,
            show_form ==> final(self).form_open && !final(self).add_visible && final(self).save_visible,
            !show_form ==> final(self).form_open == old(self).form_open && final(self).add_visible
                == old(self).add_visible && final(self).save_visible == old(self).save_visible,
    {
        if show_form {
            self.set_form();
        }
        self.save_label = "Add".to_owned();
        self.editing = None;
    }

    /// The edit button of the item `id` was clicked: it is being edited,
    /// the save button reads `Update`, and the form opens when the list
    /// builder has one.
    pub fn on_edit_click(&mut self, id: String, show_form: bool)
        ensures
            final(self).save_label@ == "Update"@,
            final(self).editing == Some(id),
            show_form ==> final(self).form_open && !final(self).add_visible && final(self).save_visible,
            !show_form ==> final(self).form_open == old(self).form_open && final(self).add_visible
                == old(self).add_visible && final(self).save_visible == old(self).save_visible,
    {
        self.editing = Some(id);
        self.save_label = "Update".to_owned();
        if show_form {
            self.set_form();
        }
    }

    /// The form was saved: when the list builder found it valid, the form
    /// closes and the list is drawn again, the add button showing when
    /// items can be added.
    pub fn on_save_click(&mut self, valid: bool, addable: bool)
        ensures
            valid ==> !final(self).form_open && !final(self).save_visible && final(self).add_visible
                == addable,
            valid ==> final(self).save_label == old(self).save_label && final(self).editing == old(
                self,
            ).editing,
            !valid ==> *final(self) == *old(self),
    {
        if valid {
            self.save_visible = false;
            self.form_open = false;
            self.add_visible = addable;
        }
    }

    /// The form was cancelled: it closes, and the add button shows when
    /// items can be added.
    pub fn on_cancel_click(&mut self, addable: bool)
        ensures
            !final(self).form_open,
            !final(self).save_visible,
            final(self).add_visible == addable,
            final(self).save_label == old(self).save_label,
            final(self).editing == old(self).editing,
    {
        self.save_visible = false;
        self.form_open = false;
        self.add_visible = addable;
    }

    /// The list was drawn again: the add button shows when items can be
    /// added.
    pub fn on_list_updated(&mut self, addable: bool)
        ensures
            final(self).add_visible == addable,
            final(self).save_visible == old(self).save_visible,
            final(self).form_open == old(self).form_open,
            final(self).save_label == old(self).save_label,
            final(self).editing == old(self).editing,
    {
        self.add_visible = addable;
    }
}

} // verus!
