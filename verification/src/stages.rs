//! Staged layouts: the footer's buttons, and how a layout declared as
//! stages moves from one stage to the next and back.

use vstd::prelude::*;
use crate::attributes::StrMap;
use crate::strings::{str_eq, str_seqs};

verus! {

/// What a stage footer has been told about one of its buttons: whether it
/// is enabled and whether it is shown (`None` where nothing was said).
#[derive(Clone, Copy, Debug, PartialEq, Eq, Structural)]
pub struct ButtonState {
    pub enabled: Option<bool>,
    pub visible: Option<bool>,
}

/// The state of a button that nothing has been said about.
pub open spec fn untouched() -> ButtonState {
    ButtonState { enabled: None, visible: None }
}

/// The state of a button in a footer's map of buttons.
pub open spec fn button_in(m: Map<Seq<char>, ButtonState>, btn: Seq<char>) -> ButtonState {
    if m.contains_key(btn) {
        m[btn]
    } else {
        untouched()
    }
}

/// The footer of a staged layout, with its buttons by name (`previous`,
/// `next`, `submit`).
pub struct StageFooter {
    buttons: StrMap<ButtonState>,
}

impl View for StageFooter {
    type V = Map<Seq<char>, ButtonState>;

    closed spec fn view(&self) -> Map<Seq<char>, ButtonState> {
        self.buttons@
    }
}

impl StageFooter {
    /// Well-formedness of the map of buttons.
    pub closed spec fn wf(&self) -> bool {
        self.buttons.wf()
    }

    /// A footer that has been told nothing yet.
    pub fn new() -> (res: Self)
        ensures
            res.wf(),
            res@ == Map::<Seq<char>, ButtonState>::empty(),
    {
        StageFooter { buttons: StrMap::new() }
    }

    /// What the footer has been told about a button.
    pub fn button(&self, btn: &str) -> (res: ButtonState)
        requires
            self.wf(),
        ensures
            res == button_in(self@, btn@),
    {
        match self.buttons.get(btn) {
            Some(b) => *b,
            None => ButtonState { enabled: None, visible: None },
        }
    }

    fn set(&mut self, btn: &str, state: ButtonState)
        requires
            old(self).wf(),
        ensures
            final(self).wf(),
            final(self)@ == old(self)@.insert(btn@, state),
    {
        let _ = self.buttons.insert(btn.to_owned(), state);
    }

    /// Enables a button.
    pub fn enable_btn(&mut self, btn: &str)
        requires
            old(self).wf(),
        ensures
            final(self).wf(),
            final(self)@ == old(self)@.insert(
                btn@,
                ButtonState { enabled: Some(true), ..button_in(old(self)@, btn@) },
            ),
    {
        let b = self.button(btn);
        self.set(btn, ButtonState { enabled: Some(true), ..b });
    }

    /// Disables a button.
    pub fn disable_btn(&mut self, btn: &str)
        requires
            old(self).wf(),
        ensures
            final(self).wf(),
            final(self)@ == old(self)@.insert(
                btn@,
                ButtonState { enabled: Some(false), ..button_in(old(self)@, btn@) },
            ),
    {
        let b = self.button(btn);
        self.set(btn, ButtonState { enabled: Some(false), ..b });
    }

    /// Shows a button.
    pub fn show_btn(&mut self, btn: &str)
        requires
            old(self).wf(),
        ensures
            final(self).wf(),
            final(self)@ == old(self)@.insert(
                btn@,
                ButtonState { visible: Some(true), ..button_in(old(self)@, btn@) },
            ),
    {
        let b = self.button(btn);
        self.set(btn, ButtonState { visible: Some(true), ..b });
    }

    /// Hides a button.
    pub fn hide_btn(&mut self, btn: &str)
        requires
            old(self).wf(),
        ensures
            final(self).wf(),
            final(self)@ == old(self)@.insert(
                btn@,
                ButtonState { visible: Some(false), ..button_in(old(self)@, btn@) },
            ),
    {
        let b = self.button(btn);
        self.set(btn, ButtonState { visible: Some(false), ..b });
    }
}

/// A staged layout: the names of its stages, the index of the one shown,
/// and its footer.
pub struct Stages {
    names: Vec<String>,
    index: usize,
    footer: StageFooter,
}

/// A staged layout with its strings taken by their characters.
pub struct StagesModel {
    pub names: Seq<Seq<char>>,
    pub index: nat,
    pub footer: Map<Seq<char>, ButtonState>,
}

impl View for Stages {
    type V = StagesModel;

    closed spec fn view(&self) -> StagesModel {
        StagesModel { names: str_seqs(self.names@), index: self.index as nat, footer: self.footer@ }
    }
}

/// The footer once the stage at `index` of `count` is shown: `previous` is
/// disabled on the first stage and enabled elsewhere; on the last stage
/// `submit` is shown, elsewhere it is hidden and `next` is shown.
pub open spec fn footer_at(f: Map<Seq<char>, ButtonState>, index: nat, count: nat) -> Map<
    Seq<char>,
    ButtonState,
> {
    let f1 = f.insert(
        "previous"@,
        ButtonState { enabled: Some(index != 0), ..button_in(f, "previous"@) },
    );
    if index + 1 == count {
        f1.insert("submit"@, ButtonState { visible: Some(true), ..button_in(f1, "submit"@) })
    } else {
        let f2 = f1.insert("submit"@, ButtonState { visible: Some(false), ..button_in(f1, "submit"@) });
        f2.insert("next"@, ButtonState { visible: Some(true), ..button_in(f2, "next"@) })
    }
}

/// The layout once the stage at `index` is shown.
pub open spec fn at_stage(m: StagesModel, index: nat) -> StagesModel {
    StagesModel { index, footer: footer_at(m.footer, index, m.names.len()), ..m }
}

/// The layout after `previous`: the stage before is shown, unless this is
/// the first. Tells whether it moved.
pub open spec fn after_prev(m: StagesModel) -> (StagesModel, bool) {
    if m.index == 0 {
        (m, false)
    } else {
        (at_stage(m, (m.index - 1) as nat), true)
    }
}

/// The layout after `next`, given whether the stage shown is valid: the
/// stage after is shown, unless the stage is invalid or the last. Tells
/// whether it moved.
pub open spec fn after_next(m: StagesModel, valid: bool) -> (StagesModel, bool) {
    if !valid || m.index + 1 == m.names.len() {
        (m, false)
    } else {
        (at_stage(m, m.index + 1), true)
    }
}

impl Stages {
    /// Well-formedness: there is a stage, and the index points at one.
    pub closed spec fn wf(&self) -> bool {
        &&& self.footer.wf()
        &&& self.names@.len() > 0
        &&& self.index < self.names@.len()
    }

    /// A staged layout with the stages of the given names, showing the first.
    pub fn new(names: Vec<String>) -> (res: Self)
        requires
            names@.len() > 0,
        ensures
            res.wf(),
            res@ == at_stage(
                StagesModel { names: str_seqs(names@), index: 0, footer: Map::empty() },
                0,
            ),
    {
        let mut res = Stages { names, index: 0, footer: StageFooter::new() };
        res.set_stage_index(0);
        res
    }

    /// The index of the stage shown.
    pub fn index(&self) -> (res: usize)
        ensures
            res == self@.index,
    {
        self.index
    }

    /// The name of the stage shown.
    pub fn stage_name(&self) -> (res: &str)
        requires
            self.wf(),
        ensures
            res@ == self@.names[self@.index as int],
            self@.index < self@.names.len(),
    {
        self.names[self.index].as_str()
    }

    /// Whether the stage at position `i` is hidden: every stage is, but for
    /// those of the name of the stage shown.
    pub fn is_hidden(&self, i: usize) -> (res: bool)
        requires
            self.wf(),
            i < self@.names.len(),
        ensures
            res == (self@.names[i as int] != self@.names[self@.index as int]),
    {
        !str_eq(self.names[i].as_str(), self.names[self.index].as_str())
    }

    /// What the footer has been told about a button.
    pub fn footer_button(&self, btn: &str) -> (res: ButtonState)
        requires
            self.wf(),
        ensures
            res == button_in(self@.footer, btn@),
    {
        self.footer.button(btn)
    }

    /// Shows the stage at `index` and brings the footer in line; tells
    /// that the stage shown is one of the layout's.
    pub fn set_stage_index(&mut self, index: usize) -> (res: bool)
        requires
            old(self).wf(),
            index < old(self)@.names.len(),
        ensures
            final(self).wf(),
            final(self)@ == at_stage(old(self)@, index as nat),
            res,
    {
        proof {
            reveal_strlit("previous");
            reveal_strlit("submit");
            reveal_strlit("next");
        }
        proof {
            assert(str_seqs(self.names@).len() == self.names@.len());
        }
        self.index = index;
        if index == 0 {
            self.footer.disable_btn("previous");
        } else {
            self.footer.enable_btn("previous");
        }
        if index == self.names.len() - 1 {
            self.footer.show_btn("submit");
        } else {
            self.footer.hide_btn("submit");
            self.footer.show_btn("next");
        }
        true
    }

    /// Shows the stage before, unless this is the first; tells whether it
    /// moved.
    pub fn show_prev_stage(&mut self) -> (res: bool)
        requires
            old(self).wf(),
        ensures
            final(self).wf(),
            (final(self)@, res) == after_prev(old(self)@),
    {
        if self.index == 0 {
            false
        } else {
            self.set_stage_index(self.index - 1)
        }
    }

    /// Shows the stage after, when the stage shown is valid and not the
    /// last; tells whether it moved.
    pub fn show_next_stage(&mut self, valid: bool) -> (res: bool)
        requires
            old(self).wf(),
        ensures
            final(self).wf(),
            (final(self)@, res) == after_next(old(self)@, valid),
    {
        if !valid {
            return false;
        }
        proof {
            assert(str_seqs(self.names@).len() == self.names@.len());
        }
        if self.index == self.names.len() - 1 {
            false
        } else {
            self.set_stage_index(self.index + 1)
        }
    }
}

/// Going on to the next stage and back returns to the stage one started
/// from, and shows the first stage only on the first: after any move the
/// `previous` button is enabled exactly when the stage shown is not the
/// first, and `submit` is shown exactly when it is the last.
pub proof fn lemma_next_then_prev(m: StagesModel, valid: bool)
    requires
        m.names.len() > 0,
        m.index < m.names.len(),
    ensures
        after_next(m, valid).1 ==> after_prev(after_next(m, valid).0).1 && after_prev(
            after_next(m, valid).0,
        ).0.index == m.index,
        after_next(m, valid).1 ==> button_in(after_next(m, valid).0.footer, "previous"@).enabled
            == Some(true),
        after_next(m, valid).1 ==> button_in(after_next(m, valid).0.footer, "submit"@).visible == Some(
            after_next(m, valid).0.index + 1 == m.names.len(),
        ),
{
    reveal_strlit("previous");
    reveal_strlit("submit");
    reveal_strlit("next");
    assert("next"@ != "submit"@) by {
        assert("next"@.len() != "submit"@.len());
    }
    assert("previous"@ != "submit"@) by {
        assert("previous"@.len() != "submit"@.len());
    }
}

} // verus!
