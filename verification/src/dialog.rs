//! Dialogs: their buttons, with names and style classes, the button sets of
//! a dialog, how a button is drawn, and how a dialog opens and closes.

use vstd::prelude::*;
use crate::strings::{str_eq, subst, replace_chars, lowercase, to_lower};
use crate::attributes::StrMap;
use vstd::std_specs::convert::FromSpecImpl;

verus! {

/// Style class of a dialog button.
#[derive(Debug)]
pub enum ButtonClass {
    Primary,
    Secondary,
    Success,
    Warning,
    Info,
}

/// The name of a button class.
pub open spec fn class_name(c: ButtonClass) -> Seq<char> {
    match c {
        ButtonClass::Primary => "Primary"@,
        ButtonClass::Secondary => "Secondary"@,
        ButtonClass::Success => "Success"@,
        ButtonClass::Warning => "Warning"@,
        ButtonClass::Info => "Info"@,
    }
}

impl ButtonClass {
    /// The class name, as a string.
    pub fn to_string(&self) -> (res: String)
        ensures
            res@ == class_name(*self),
    {
        match self {
            ButtonClass::Primary => String::from_str("Primary"),
            ButtonClass::Secondary => String::from_str("Secondary"),
            ButtonClass::Success => String::from_str("Success"),
            ButtonClass::Warning => String::from_str("Warning"),
            ButtonClass::Info => String::from_str("Info"),
        }
    }
}

/// A dialog button: one of the standard buttons, a custom one named by its
/// text, or a button carrying a name and a style class.
#[allow(non_camel_case_types)]
#[derive(Debug)]
pub enum Button {
    OK,
    Cancel,
    Done,
    Save,
    Exit,
    TryIt,
    NotNow,
    Subscribe,
    Accept,
    Decline,
    Run,
    Delete,
    Print,
    Start,
    Stop,
    Discard,
    Yes,
    No,
    GotIt,
    Custom(String),
    __WithClass(String, String),
}

/// What a button is, with its strings taken by their characters.
pub enum ButtonView {
    OK,
    Cancel,
    Done,
    Save,
    Exit,
    TryIt,
    NotNow,
    Subscribe,
    Accept,
    Decline,
    Run,
    Delete,
    Print,
    Start,
    Stop,
    Discard,
    Yes,
    No,
    GotIt,
    Custom(Seq<char>),
    WithClass(Seq<char>, Seq<char>),
}

impl View for Button {
    type V = ButtonView;

    open spec fn view(&self) -> ButtonView {
        match self {
            Button::OK => ButtonView::OK,
            Button::Cancel => ButtonView::Cancel,
            Button::Done => ButtonView::Done,
            Button::Save => ButtonView::Save,
            Button::Exit => ButtonView::Exit,
            Button::TryIt => ButtonView::TryIt,
            Button::NotNow => ButtonView::NotNow,
            Button::Subscribe => ButtonView::Subscribe,
            Button::Accept => ButtonView::Accept,
            Button::Decline => ButtonView::Decline,
            Button::Run => ButtonView::Run,
            Button::Delete => ButtonView::Delete,
            Button::Print => ButtonView::Print,
            Button::Start => ButtonView::Start,
            Button::Stop => ButtonView::Stop,
            Button::Discard => ButtonView::Discard,
            Button::Yes => ButtonView::Yes,
            Button::No => ButtonView::No,
            Button::GotIt => ButtonView::GotIt,
            Button::Custom(s) => ButtonView::Custom(s@),
            Button::__WithClass(n, c) => ButtonView::WithClass(n@, c@),
        }
    }
}

/// The name shown on a button.
pub open spec fn button_name(b: ButtonView) -> Seq<char> {
    match b {
        ButtonView::OK => "Ok"@,
        ButtonView::Cancel => "Cancel"@,
        ButtonView::Done => "Done"@,
        ButtonView::Save => "Save"@,
        ButtonView::Exit => "Exit"@,
        ButtonView::TryIt => "Try It"@,
        ButtonView::NotNow => "Not Now"@,
        ButtonView::Subscribe => "Subscribe"@,
        ButtonView::Accept => "Accept"@,
        ButtonView::Decline => "Decline"@,
        ButtonView::Run => "Run"@,
        ButtonView::Delete => "Delete"@,
        ButtonView::Print => "Print"@,
        ButtonView::Start => "Start"@,
        ButtonView::Stop => "Stop"@,
        ButtonView::Discard => "Discard"@,
        ButtonView::Yes => "Yes"@,
        ButtonView::No => "No"@,
        ButtonView::GotIt => "Got It"@,
        ButtonView::Custom(s) => s,
        ButtonView::WithClass(n, _c) => n,
    }
}

/// The style class a button carries, if any.
pub open spec fn button_class(b: ButtonView) -> Option<Seq<char>> {
    match b {
        ButtonView::WithClass(_n, c) => Some(c),
        _ => None,
    }
}

/// Number of standard buttons.
pub const STANDARD_BUTTONS: usize = 19;

/// The standard buttons, by position.
pub open spec fn standard_button(i: int) -> ButtonView {
    seq![ButtonView::OK, ButtonView::Cancel, ButtonView::Done, ButtonView::Save, ButtonView::Exit, ButtonView::TryIt, ButtonView::NotNow, ButtonView::Subscribe, ButtonView::Accept, ButtonView::Decline, ButtonView::Run, ButtonView::Delete, ButtonView::Print, ButtonView::Start, ButtonView::Stop, ButtonView::Discard, ButtonView::Yes, ButtonView::No, ButtonView::GotIt][i]
}

/// The first standard button at or after position `i` whose name is `s`, or
/// else a custom button named `s`.
pub open spec fn find_standard(s: Seq<char>, i: int) -> ButtonView
    decreases STANDARD_BUTTONS - i,
{
    if i < 0 || i >= STANDARD_BUTTONS {
        ButtonView::Custom(s)
    } else if s == button_name(standard_button(i)) {
        standard_button(i)
    } else {
        find_standard(s, i + 1)
    }
}

/// The button a name stands for: the standard button of that name, or else
/// a custom button with that name.
pub open spec fn button_from_name(s: Seq<char>) -> ButtonView {
    find_standard(s, 0)
}

/// Whether a button is one of the standard buttons.
pub open spec fn is_standard(b: ButtonView) -> bool {
    !(b is Custom) && !(b is WithClass)
}

fn standard_button_at(i: usize) -> (res: Button)
    requires
        i < STANDARD_BUTTONS,
    ensures
        res@ == standard_button(i as int),
{
    match i {
        0 => Button::OK,
        1 => Button::Cancel,
        2 => Button::Done,
        3 => Button::Save,
        4 => Button::Exit,
        5 => Button::TryIt,
        6 => Button::NotNow,
        7 => Button::Subscribe,
        8 => Button::Accept,
        9 => Button::Decline,
        10 => Button::Run,
        11 => Button::Delete,
        12 => Button::Print,
        13 => Button::Start,
        14 => Button::Stop,
        15 => Button::Discard,
        16 => Button::Yes,
        17 => Button::No,
        _ => Button::GotIt,
    }
}

fn standard_name_at(i: usize) -> (res: &'static str)
    requires
        i < STANDARD_BUTTONS,
    ensures
        res@ == button_name(standard_button(i as int)),
{
    match i {
        0 => "Ok",
        1 => "Cancel",
        2 => "Done",
        3 => "Save",
        4 => "Exit",
        5 => "Try It",
        6 => "Not Now",
        7 => "Subscribe",
        8 => "Accept",
        9 => "Decline",
        10 => "Run",
        11 => "Delete",
        12 => "Print",
        13 => "Start",
        14 => "Stop",
        15 => "Discard",
        16 => "Yes",
        17 => "No",
        _ => "Got It",
    }
}

impl Button {
    /// The same button, carrying the given style class.
    pub fn with_class(&self, class: ButtonClass) -> (res: Self)
        ensures
            res@ == ButtonView::WithClass(button_name(self@), class_name(class)),
    {
        let (name, _cls) = self.name_and_class();
        Button::__WithClass(name, class.to_string())
    }

    /// The button's name and its style class, if it carries one.
    pub fn name_and_class(&self) -> (res: (String, Option<String>))
        ensures
            res.0@ == button_name(self@),
            match res.1 {
                Some(c) => button_class(self@) == Some(c@),
                None => button_class(self@) is None,
            },
    {
        match self {
            Button::OK => (String::from_str("Ok"), None),
            Button::Cancel => (String::from_str("Cancel"), None),
            Button::Done => (String::from_str("Done"), None),
            Button::Save => (String::from_str("Save"), None),
            Button::Exit => (String::from_str("Exit"), None),
            Button::TryIt => (String::from_str("Try It"), None),
            Button::NotNow => (String::from_str("Not Now"), None),
            Button::Subscribe => (String::from_str("Subscribe"), None),
            Button::Accept => (String::from_str("Accept"), None),
            Button::Decline => (String::from_str("Decline"), None),
            Button::Run => (String::from_str("Run"), None),
            Button::Delete => (String::from_str("Delete"), None),
            Button::Print => (String::from_str("Print"), None),
            Button::Start => (String::from_str("Start"), None),
            Button::Stop => (String::from_str("Stop"), None),
            Button::Discard => (String::from_str("Discard"), None),
            Button::Yes => (String::from_str("Yes"), None),
            Button::No => (String::from_str("No"), None),
            Button::GotIt => (String::from_str("Got It"), None),
            Button::Custom(s) => (s.clone(), None),
            Button::__WithClass(n, c) => (n.clone(), Some(c.clone())),
        }
    }

    /// The button of the given name; a name that is not a standard button's
    /// gives a custom button, so a button always comes back.
    pub fn from_str(s: &str) -> (res: Option<Self>)
        ensures
            res matches Some(b) && b@ == button_from_name(s@),
    {
        let mut i: usize = 0;
        while i < STANDARD_BUTTONS
            invariant
                i <= STANDARD_BUTTONS,
                button_from_name(s@) == find_standard(s@, i as int),
            decreases STANDARD_BUTTONS - i,
        {
            if str_eq(s, standard_name_at(i)) {
                return Some(standard_button_at(i));
            }
            i = i + 1;
        }
        Some(Button::Custom(s.to_owned()))
    }
}

/// Every name reads back as itself: the button that `from_str` gives for a
/// name is shown under that same name.
pub proof fn lemma_from_name_keeps_name(s: Seq<char>)
    ensures
        button_name(button_from_name(s)) == s,
{
    lemma_find_standard_keeps_name(s, 0);
}

proof fn lemma_find_standard_keeps_name(s: Seq<char>, i: int)
    requires
        0 <= i <= STANDARD_BUTTONS,
    ensures
        button_name(find_standard(s, i)) == s,
    decreases STANDARD_BUTTONS - i,
{
    if i < STANDARD_BUTTONS {
        lemma_find_standard_keeps_name(s, i + 1);
    }
}

#[verifier::rlimit(60)]
proof fn lemma_standard_names_distinct(i: int, j: int)
    requires
        0 <= i < STANDARD_BUTTONS,
        0 <= j < STANDARD_BUTTONS,
        i != j,
    ensures
        button_name(standard_button(i)) != button_name(standard_button(j)),
{
    reveal_strlit("Ok");
    reveal_strlit("Cancel");
    reveal_strlit("Done");
    reveal_strlit("Save");
    reveal_strlit("Exit");
    reveal_strlit("Try It");
    reveal_strlit("Not Now");
    reveal_strlit("Subscribe");
    reveal_strlit("Accept");
    reveal_strlit("Decline");
    reveal_strlit("Run");
    reveal_strlit("Delete");
    reveal_strlit("Print");
    reveal_strlit("Start");
    reveal_strlit("Stop");
    reveal_strlit("Discard");
    reveal_strlit("Yes");
    reveal_strlit("No");
    reveal_strlit("Got It");
    let names = button_name(standard_button(i));
    let namet = button_name(standard_button(j));
    assert(i == 0 || i == 1 || i == 2 || i == 3 || i == 4 || i == 5 || i == 6 || i == 7 || i == 8
        || i == 9 || i == 10 || i == 11 || i == 12 || i == 13 || i == 14 || i == 15 || i == 16
        || i == 17 || i == 18);
    assert(j == 0 || j == 1 || j == 2 || j == 3 || j == 4 || j == 5 || j == 6 || j == 7 || j == 8
        || j == 9 || j == 10 || j == 11 || j == 12 || j == 13 || j == 14 || j == 15 || j == 16
        || j == 17 || j == 18);
    assert(names.len() != namet.len() || names[0] != namet[0] || names[names.len() - 1]
        != namet[namet.len() - 1]);
}

proof fn lemma_find_standard_at(s: Seq<char>, i: int, k: int)
    requires
        0 <= i <= k < STANDARD_BUTTONS,
        s == button_name(standard_button(k)),
    ensures
        find_standard(s, i) == standard_button(k),
    decreases k - i,
{
    if i < k {
        lemma_standard_names_distinct(i, k);
        lemma_find_standard_at(s, i + 1, k);
    }
}

/// A standard button is found again from its name.
pub proof fn lemma_standard_button_roundtrip(b: ButtonView)
    requires
        is_standard(b),
    ensures
        button_from_name(button_name(b)) == b,
{
    let k: int = match b {
        ButtonView::OK => 0int,
        ButtonView::Cancel => 1int,
        ButtonView::Done => 2int,
        ButtonView::Save => 3int,
        ButtonView::Exit => 4int,
        ButtonView::TryIt => 5int,
        ButtonView::NotNow => 6int,
        ButtonView::Subscribe => 7int,
        ButtonView::Accept => 8int,
        ButtonView::Decline => 9int,
        ButtonView::Run => 10int,
        ButtonView::Delete => 11int,
        ButtonView::Print => 12int,
        ButtonView::Start => 13int,
        ButtonView::Stop => 14int,
        ButtonView::Discard => 15int,
        ButtonView::Yes => 16int,
        ButtonView::No => 17int,
        ButtonView::GotIt => 18int,
        _ => 0,
    };
    assert(standard_button(k) == b);
    lemma_find_standard_at(button_name(b), 0, k);
}

/// A name that no standard button has gives the custom button of that name.
pub proof fn lemma_custom_button_roundtrip(s: Seq<char>)
    requires
        !is_standard(button_from_name(s)),
    ensures
        button_from_name(s) == ButtonView::Custom(s),
{
    lemma_find_custom(s, 0);
}

proof fn lemma_find_custom(s: Seq<char>, i: int)
    requires
        0 <= i <= STANDARD_BUTTONS,
        !is_standard(find_standard(s, i)),
    ensures
        find_standard(s, i) == ButtonView::Custom(s),
    decreases STANDARD_BUTTONS - i,
{
    if i < STANDARD_BUTTONS && s != button_name(standard_button(i)) {
        lemma_find_custom(s, i + 1);
    }
}


impl Clone for Button {
    fn clone(&self) -> (res: Self)
        ensures
            res@ == self@,
    {
        match self {
            Button::OK => Button::OK,
            Button::Cancel => Button::Cancel,
            Button::Done => Button::Done,
            Button::Save => Button::Save,
            Button::Exit => Button::Exit,
            Button::TryIt => Button::TryIt,
            Button::NotNow => Button::NotNow,
            Button::Subscribe => Button::Subscribe,
            Button::Accept => Button::Accept,
            Button::Decline => Button::Decline,
            Button::Run => Button::Run,
            Button::Delete => Button::Delete,
            Button::Print => Button::Print,
            Button::Start => Button::Start,
            Button::Stop => Button::Stop,
            Button::Discard => Button::Discard,
            Button::Yes => Button::Yes,
            Button::No => Button::No,
            Button::GotIt => Button::GotIt,
            Button::Custom(s) => Button::Custom(s.clone()),
            Button::__WithClass(n, c) => Button::__WithClass(n.clone(), c.clone()),
        }
    }
}

impl Button {
    /// The button's name, as it is shown.
    pub fn to_string(&self) -> (res: String)
        ensures
            res@ == button_name(self@),
    {
        self.name_and_class().0
    }
}

/// A button of a dialog, with the class it is shown with.
pub struct DialogButtonData {
    pub btn: Button,
    pub class: Option<String>,
}

/// An optional string, taken by its characters.
pub open spec fn opt_view(o: Option<String>) -> Option<Seq<char>> {
    match o {
        Some(s) => Some(s@),
        None => None,
    }
}

impl View for DialogButtonData {
    type V = (ButtonView, Option<Seq<char>>);

    open spec fn view(&self) -> (ButtonView, Option<Seq<char>>) {
        (self.btn@, opt_view(self.class))
    }
}

fn clone_opt_string(o: &Option<String>) -> (res: Option<String>)
    ensures
        opt_view(res) == opt_view(*o),
{
    match o {
        Some(s) => Some(s.clone()),
        None => None,
    }
}

impl Clone for DialogButtonData {
    fn clone(&self) -> (res: Self)
        ensures
            res@ == self@,
    {
        DialogButtonData { btn: self.btn.clone(), class: clone_opt_string(&self.class) }
    }
}

impl From<Button> for DialogButtonData {
    fn from(btn: Button) -> (res: Self) {
        DialogButtonData { btn, class: None }
    }
}

impl FromSpecImpl<Button> for DialogButtonData {
    open spec fn obeys_from_spec() -> bool {
        true
    }

    open spec fn from_spec(v: Button) -> Self {
        DialogButtonData { btn: v, class: None }
    }
}

/// What can stand for a dialog button: a button, a button with a class
/// name, or the button data itself.
pub trait ToButtonData {
    /// The button and class this value stands for.
    spec fn button_data(&self) -> (ButtonView, Option<Seq<char>>);

    /// Builds the button data this value stands for.
    fn to_button_data(&self) -> (res: DialogButtonData)
        ensures
            res@ == self.button_data(),
    ;
}

impl ToButtonData for Button {
    open spec fn button_data(&self) -> (ButtonView, Option<Seq<char>>) {
        (self@, None)
    }

    fn to_button_data(&self) -> (res: DialogButtonData) {
        DialogButtonData { btn: self.clone(), class: None }
    }
}

impl<'a> ToButtonData for (Button, &'a str) {
    open spec fn button_data(&self) -> (ButtonView, Option<Seq<char>>) {
        (self.0@, Some(self.1@))
    }

    fn to_button_data(&self) -> (res: DialogButtonData) {
        DialogButtonData { btn: self.0.clone(), class: Some(self.1.to_owned()) }
    }
}

impl ToButtonData for DialogButtonData {
    open spec fn button_data(&self) -> (ButtonView, Option<Seq<char>>) {
        self@
    }

    fn to_button_data(&self) -> (res: DialogButtonData) {
        self.clone()
    }
}

/// The button data of each entry of a list.
pub open spec fn button_data_list<D: ToButtonData>(list: Seq<D>) -> Seq<(ButtonView, Option<Seq<char>>)> {
    list.map_values(|d: D| d.button_data())
}

/// The views of a list of button data.
pub open spec fn data_views(list: Seq<DialogButtonData>) -> Seq<(ButtonView, Option<Seq<char>>)> {
    list.map_values(|d: DialogButtonData| d@)
}

impl DialogButtonData {
    /// The button data of each entry, in order.
    pub fn list_from<D: ToButtonData>(list: &[D]) -> (res: Vec<DialogButtonData>)
        ensures
            data_views(res@) == button_data_list(list@),
    {
        let mut res: Vec<DialogButtonData> = Vec::new();
        let mut i: usize = 0;
        while i < list.len()
            invariant
                i <= list@.len(),
                data_views(res@) == button_data_list(list@.subrange(0, i as int)),
            decreases list.len() - i,
        {
            let d = list[i].to_button_data();
            let ghost prev = res@;
            let ghost dv = d@;
            res.push(d);
            proof {
                assert(data_views(res@) =~= data_views(prev).push(dv));
                assert(list@.subrange(0, i + 1) =~= list@.subrange(0, i as int).push(list@[i as int]));
                assert(data_views(res@) =~= button_data_list(list@.subrange(0, i + 1)));
            }
            i = i + 1;
        }
        proof {
            assert(list@.subrange(0, list@.len() as int) =~= list@);
        }
        res
    }
}

/// The buttons of a dialog, in its left, center and right groups.
pub struct DialogButtons {
    pub left: Vec<DialogButtonData>,
    pub center: Vec<DialogButtonData>,
    pub right: Vec<DialogButtonData>,
}

impl DialogButtons {
    /// The three groups, each entry turned into button data.
    pub fn new<A: ToButtonData, B: ToButtonData, C: ToButtonData>(
        left: &[A],
        center: &[B],
        right: &[C],
    ) -> (res: Self)
        ensures
            data_views(res.left@) == button_data_list(left@),
            data_views(res.center@) == button_data_list(center@),
            data_views(res.right@) == button_data_list(right@),
    {
        DialogButtons {
            left: DialogButtonData::list_from(left),
            center: DialogButtonData::list_from(center),
            right: DialogButtonData::list_from(right),
        }
    }
}

/// How a button is drawn: the action it reports (its name without double
/// quotes), its style class in lower case (none when it has no class), and
/// its text (its name).
pub open spec fn button_markup(b: ButtonView) -> (Seq<char>, Seq<char>, Seq<char>) {
    (
        subst(button_name(b), '"', '"', ""@),
        lowercase(
            match button_class(b) {
                Some(c) => c,
                None => seq![],
            },
        ),
        button_name(b),
    )
}

impl Button {
    /// How the button is drawn: the action it reports, its style class and
    /// its text.
    pub fn render_parts(&self) -> (res: (String, String, String))
        ensures
            (res.0@, res.1@, res.2@) == button_markup(self@),
    {
        let (name, class) = self.name_and_class();
        let action = replace_chars(name.as_str(), '"', '"', "");
        let cls = match class {
            Some(c) => to_lower(c.as_str()),
            None => to_lower(""),
        };
        proof {
            reveal_strlit("");
            assert(""@ =~= Seq::<char>::empty());
        }
        (action, cls, name)
    }
}

/// The state of a dialog: its id, whether clicking outside it leaves it
/// open (modal), whether it is open, and whether its close icon shows.
pub struct DialogState {
    pub id: String,
    pub modal: bool,
    pub open: bool,
    pub close_icon: bool,
}

impl DialogState {
    /// A closed, modal dialog with the given unique part of its id
    /// (`dialog_` and that part), its close icon hidden.
    pub fn new(unique: &str) -> (res: Self)
        ensures
            res.id@ == "dialog_"@ + unique@,
            res.modal,
            !res.open,
            !res.close_icon,
    {
        let mut id = "dialog_".to_owned();
        id.append(unique);
        DialogState { id, modal: true, open: false, close_icon: false }
    }

    /// Sets whether the dialog is modal.
    pub fn with_modal(&mut self, modal: bool)
        ensures
            *final(self) == (DialogState { modal, ..*old(self) }),
    {
        self.modal = modal;
    }

    /// Shows or hides the close icon.
    pub fn with_close_icon(&mut self, show: bool)
        ensures
            *final(self) == (DialogState { close_icon: show, ..*old(self) }),
    {
        self.close_icon = show;
    }

    /// A click outside the dialog: a dialog that is not modal closes; tells
    /// whether it did.
    pub fn on_mask_click(&self) -> (res: bool)
        ensures
            res == !self.modal,
    {
        !self.modal
    }

    /// The button a click on a button reporting `action` stands for.
    pub fn on_btn_click(&self, action: &str) -> (res: Option<Button>)
        ensures
            res matches Some(b) && b@ == button_from_name(action@),
    {
        Button::from_str(action)
    }
}

/// The dialogs that are open, by id.
pub struct OpenDialogs {
    ids: StrMap<bool>,
}

impl View for OpenDialogs {
    type V = Set<Seq<char>>;

    closed spec fn view(&self) -> Set<Seq<char>> {
        self.ids@.dom()
    }
}

impl OpenDialogs {
    /// Well-formedness of the map of ids.
    pub closed spec fn wf(&self) -> bool {
        self.ids.wf()
    }

    /// No dialog open.
    pub fn new() -> (res: Self)
        ensures
            res.wf(),
            res@ == Set::<Seq<char>>::empty(),
    {
        let res = OpenDialogs { ids: StrMap::new() };
        proof {
            assert(res@ =~= Set::<Seq<char>>::empty());
        }
        res
    }

    /// Whether the dialog with this id is open.
    pub fn contains(&self, id: &str) -> (res: bool)
        requires
            self.wf(),
        ensures
            res == self@.contains(id@),
    {
        self.ids.contains_key(id)
    }

    /// Shows a dialog: it opens and is counted among the open ones.
    pub fn show(&mut self, dialog: &mut DialogState)
        requires
            old(self).wf(),
        ensures
            final(self).wf(),
            final(self)@ == old(self)@.insert(old(dialog).id@),
            *final(dialog) == (DialogState { open: true, ..*old(dialog) }),
    {
        dialog.open = true;
        let _ = self.ids.insert(dialog.id.clone(), true);
        proof {
            assert(self@ =~= old(self)@.insert(old(dialog).id@));
        }
    }

    /// Closes a dialog: it is hidden and no longer counted among the open
    /// ones.
    pub fn close(&mut self, dialog: &mut DialogState)
        requires
            old(self).wf(),
        ensures
            final(self).wf(),
            final(self)@ == old(self)@.remove(old(dialog).id@),
            *final(dialog) == (DialogState { open: false, ..*old(dialog) }),
    {
        dialog.open = false;
        let _ = self.ids.remove(dialog.id.as_str());
        proof {
            assert(self@ =~= old(self)@.remove(old(dialog).id@));
        }
    }
}

/// Showing a dialog and closing it again leaves the open dialogs as they
/// were, when it was not open before.
pub proof fn lemma_show_then_close(open: Set<Seq<char>>, id: Seq<char>)
    requires
        !open.contains(id),
    ensures
        open.insert(id).remove(id) == open,
{
    assert(open.insert(id).remove(id) =~= open);
}

} // verus!
