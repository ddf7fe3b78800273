//! Form categories, the form handler interface, the data a form collects,
//! and the steps of staged forms.

use vstd::prelude::*;
use crate::error::Error;
use crate::attributes::StrMap;
use crate::strings::{replace_all, replace_str, decimal, decimal_string, str_seqs};

verus! {

/// A category of a form: a key and the text shown for it.
pub struct Category {
    pub key: String,
    pub text: String,
}

impl Category {
    /// A category with the given text and key.
    pub fn new(text: String, key: String) -> (res: Self)
        ensures
            res.text == text,
            res.key == key,
    {
        Category { text, key }
    }
}

impl From<(String, String)> for Category {
    /// A category from a pair of text and key, in that order.
    fn from(t: (String, String)) -> (res: Self) {
        Category::new(t.0, t.1)
    }
}

impl vstd::std_specs::convert::FromSpecImpl<(String, String)> for Category {
    open spec fn obeys_from_spec() -> bool {
        true
    }

    open spec fn from_spec(t: (String, String)) -> Self {
        Category { text: t.0, key: t.1 }
    }
}

/// What a form does when it is loaded and when it is submitted.
pub trait FormHandler {
    /// Loads the form.
    fn load(&self) -> Result<(), Error>;

    /// Submits the form.
    fn submit(&self) -> Result<(), Error>;
}

/// A value a form collects. Floating-point numbers are held by their bits
/// (`to_bits`); an object is held serialized.
pub enum FormDataValue {
    String(String),
    Bool(bool),
    U8(u8),
    U16(u16),
    U32(u32),
    U64(u64),
    U128(u128),
    F32(u32),
    F64(u64),
    List(Vec<String>),
    Object(Vec<u8>),
}

/// A form value with its strings taken by their characters.
pub enum FormValueView {
    String(Seq<char>),
    Bool(bool),
    U8(u8),
    U16(u16),
    U32(u32),
    U64(u64),
    U128(u128),
    F32(u32),
    F64(u64),
    List(Seq<Seq<char>>),
    Object(Seq<u8>),
}

impl View for FormDataValue {
    type V = FormValueView;

    open spec fn view(&self) -> FormValueView {
        match self {
            FormDataValue::String(s) => FormValueView::String(s@),
            FormDataValue::Bool(b) => FormValueView::Bool(*b),
            FormDataValue::U8(v) => FormValueView::U8(*v),
            FormDataValue::U16(v) => FormValueView::U16(*v),
            FormDataValue::U32(v) => FormValueView::U32(*v),
            FormDataValue::U64(v) => FormValueView::U64(*v),
            FormDataValue::U128(v) => FormValueView::U128(*v),
            FormDataValue::F32(v) => FormValueView::F32(*v),
            FormDataValue::F64(v) => FormValueView::F64(*v),
            FormDataValue::List(l) => FormValueView::List(str_seqs(l@)),
            FormDataValue::Object(o) => FormValueView::Object(o@),
        }
    }
}

/// The data a form collects: an optional id and values by name.
pub struct FormData {
    pub id: Option<String>,
    values: StrMap<FormDataValue>,
}

/// Form data with its strings taken by their characters.
pub struct FormDataModel {
    pub id: Option<Seq<char>>,
    pub values: Map<Seq<char>, FormValueView>,
}

impl View for FormData {
    type V = FormDataModel;

    closed spec fn view(&self) -> FormDataModel {
        FormDataModel {
            id: match self.id {
                Some(i) => Some(i@),
                None => None,
            },
            values: self.values@.map_values(|v: FormDataValue| v@),
        }
    }
}

/// The value under a name, if any.
pub open spec fn value_of(d: FormDataModel, name: Seq<char>) -> Option<FormValueView> {
    if d.values.contains_key(name) {
        Some(d.values[name])
    } else {
        None
    }
}

impl FormData {
    /// Well-formedness of the map of values.
    pub closed spec fn wf(&self) -> bool {
        self.values.wf()
    }

    /// Form data with the given id and no values.
    pub fn new(id: Option<String>) -> (res: Self)
        ensures
            res.wf(),
            res@.id == match id {
                Some(i) => Some(i@),
                None => None::<Seq<char>>,
            },
            res@.values == Map::<Seq<char>, FormValueView>::empty(),
    {
        let res = FormData { id, values: StrMap::new() };
        proof {
            assert(res@.values =~= Map::<Seq<char>, FormValueView>::empty());
        }
        res
    }

    /// Form data without id or values.
    pub fn empty() -> (res: Self)
        ensures
            res.wf(),
            res@.id is None,
            res@.values == Map::<Seq<char>, FormValueView>::empty(),
    {
        FormData::new(None)
    }

    /// The id.
    pub fn id(&self) -> (res: Option<String>)
        ensures
            match res {
                Some(i) => self@.id == Some(i@),
                None => self@.id is None,
            },
    {
        match &self.id {
            Some(i) => Some(i.clone()),
            None => None,
        }
    }

    /// Sets the id.
    pub fn with_id(&mut self, id: Option<String>)
        requires
            old(self).wf(),
        ensures
            final(self).wf(),
            final(self)@.values == old(self)@.values,
            final(self)@.id == match id {
                Some(i) => Some(i@),
                None => None::<Seq<char>>,
            },
    {
        self.id = id;
    }

    /// The value under a name, if any.
    pub fn get(&self, name: &str) -> (res: Option<&FormDataValue>)
        requires
            self.wf(),
        ensures
            match res {
                Some(v) => value_of(self@, name@) == Some(v@),
                None => value_of(self@, name@) is None,
            },
    {
        self.values.get(name)
    }

    /// Puts a value under a name, replacing any value there.
    pub fn add(&mut self, name: &str, value: FormDataValue)
        requires
            old(self).wf(),
        ensures
            final(self).wf(),
            final(self)@.id == old(self)@.id,
            final(self)@.values == old(self)@.values.insert(name@, value@),
    {
        let ghost v = value@;
        let ghost before = self@.values;
        let _ = self.values.insert(name.to_owned(), value);
        proof {
            assert(self@.values =~= before.insert(name@, v));
        }
    }

    /// Puts a list of strings under a name.
    pub fn add_list(&mut self, name: &str, list: Vec<String>)
        requires
            old(self).wf(),
        ensures
            final(self).wf(),
            final(self)@.id == old(self)@.id,
            final(self)@.values == old(self)@.values.insert(name@, FormValueView::List(str_seqs(list@))),
    {
        self.add(name, FormDataValue::List(list));
    }

    /// Puts a serialized object under a name.
    pub fn add_object(&mut self, name: &str, data: Vec<u8>)
        requires
            old(self).wf(),
        ensures
            final(self).wf(),
            final(self)@.id == old(self)@.id,
            final(self)@.values == old(self)@.values.insert(name@, FormValueView::Object(data@)),
    {
        self.add(name, FormDataValue::Object(data));
    }

    /// The serialized object under a name, if an object is there.
    pub fn get_object(&self, name: &str) -> (res: Option<Vec<u8>>)
        requires
            self.wf(),
        ensures
            match res {
                Some(o) => value_of(self@, name@) == Some(FormValueView::Object(o@)),
                None => !(value_of(self@, name@) matches Some(FormValueView::Object(_))),
            },
    {
        match self.get(name) {
            Some(FormDataValue::Object(o)) => Some(o.clone()),
            _ => None,
        }
    }

    /// Puts a string under a name.
    pub fn add_string(&mut self, name: &str, value: String)
        requires
            old(self).wf(),
        ensures
            final(self).wf(),
            final(self)@.id == old(self)@.id,
            final(self)@.values == old(self)@.values.insert(name@, FormValueView::String(value@)),
    {
        self.add(name, FormDataValue::String(value));
    }

    /// The string under a name, if a string is there.
    pub fn get_string(&self, name: &str) -> (res: Option<String>)
        requires
            self.wf(),
        ensures
            match res {
                Some(s) => value_of(self@, name@) == Some(FormValueView::String(s@)),
                None => !(value_of(self@, name@) matches Some(FormValueView::String(_))),
            },
    {
        match self.get(name) {
            Some(FormDataValue::String(s)) => Some(s.clone()),
            _ => None,
        }
    }

    /// Puts a flag under a name.
    pub fn add_bool(&mut self, name: &str, value: bool)
        requires
            old(self).wf(),
        ensures
            final(self).wf(),
            final(self)@.id == old(self)@.id,
            final(self)@.values == old(self)@.values.insert(name@, FormValueView::Bool(value)),
    {
        self.add(name, FormDataValue::Bool(value));
    }

    /// The flag under a name, if a flag is there.
    pub fn get_bool(&self, name: &str) -> (res: Option<bool>)
        requires
            self.wf(),
        ensures
            match res {
                Some(v) => value_of(self@, name@) == Some(FormValueView::Bool(v)),
                None => !(value_of(self@, name@) matches Some(FormValueView::Bool(_))),
            },
    {
        match self.get(name) {
            Some(FormDataValue::Bool(v)) => Some(*v),
            _ => None,
        }
    }

    /// Puts a `u8` under a name.
    pub fn add_u8(&mut self, name: &str, value: u8)
        requires
            old(self).wf(),
        ensures
            final(self).wf(),
            final(self)@.id == old(self)@.id,
            final(self)@.values == old(self)@.values.insert(name@, FormValueView::U8(value)),
    {
        self.add(name, FormDataValue::U8(value));
    }

    /// The `u8` under a name, if one is there.
    pub fn get_u8(&self, name: &str) -> (res: Option<u8>)
        requires
            self.wf(),
        ensures
            match res {
                Some(v) => value_of(self@, name@) == Some(FormValueView::U8(v)),
                None => !(value_of(self@, name@) matches Some(FormValueView::U8(_))),
            },
    {
        match self.get(name) {
            Some(FormDataValue::U8(v)) => Some(*v),
            _ => None,
        }
    }

    /// Puts a `u16` under a name.
    pub fn add_u16(&mut self, name: &str, value: u16)
        requires
            old(self).wf(),
        ensures
            final(self).wf(),
            final(self)@.id == old(self)@.id,
            final(self)@.values == old(self)@.values.insert(name@, FormValueView::U16(value)),
    {
        self.add(name, FormDataValue::U16(value));
    }

    /// The `u16` under a name, if one is there.
    pub fn get_u16(&self, name: &str) -> (res: Option<u16>)
        requires
            self.wf(),
        ensures
            match res {
                Some(v) => value_of(self@, name@) == Some(FormValueView::U16(v)),
                None => !(value_of(self@, name@) matches Some(FormValueView::U16(_))),
            },
    {
        match self.get(name) {
            Some(FormDataValue::U16(v)) => Some(*v),
            _ => None,
        }
    }

    /// Puts a `u32` under a name.
    pub fn add_u32(&mut self, name: &str, value: u32)
        requires
            old(self).wf(),
        ensures
            final(self).wf(),
            final(self)@.id == old(self)@.id,
            final(self)@.values == old(self)@.values.insert(name@, FormValueView::U32(value)),
    {
        self.add(name, FormDataValue::U32(value));
    }

    /// The `u32` under a name, if one is there.
    pub fn get_u32(&self, name: &str) -> (res: Option<u32>)
        requires
            self.wf(),
        ensures
            match res {
                Some(v) => value_of(self@, name@) == Some(FormValueView::U32(v)),
                None => !(value_of(self@, name@) matches Some(FormValueView::U32(_))),
            },
    {
        match self.get(name) {
            Some(FormDataValue::U32(v)) => Some(*v),
            _ => None,
        }
    }

    /// Puts a `u64` under a name.
    pub fn add_u64(&mut self, name: &str, value: u64)
        requires
            old(self).wf(),
        ensures
            final(self).wf(),
            final(self)@.id == old(self)@.id,
            final(self)@.values == old(self)@.values.insert(name@, FormValueView::U64(value)),
    {
        self.add(name, FormDataValue::U64(value));
    }

    /// The `u64` under a name, if one is there.
    pub fn get_u64(&self, name: &str) -> (res: Option<u64>)
        requires
            self.wf(),
        ensures
            match res {
                Some(v) => value_of(self@, name@) == Some(FormValueView::U64(v)),
                None => !(value_of(self@, name@) matches Some(FormValueView::U64(_))),
            },
    {
        match self.get(name) {
            Some(FormDataValue::U64(v)) => Some(*v),
            _ => None,
        }
    }

    /// Puts a `u128` under a name.
    pub fn add_u128(&mut self, name: &str, value: u128)
        requires
            old(self).wf(),
        ensures
            final(self).wf(),
            final(self)@.id == old(self)@.id,
            final(self)@.values == old(self)@.values.insert(name@, FormValueView::U128(value)),
    {
        self.add(name, FormDataValue::U128(value));
    }

    /// The `u128` under a name, if one is there.
    pub fn get_u128(&self, name: &str) -> (res: Option<u128>)
        requires
            self.wf(),
        ensures
            match res {
                Some(v) => value_of(self@, name@) == Some(FormValueView::U128(v)),
                None => !(value_of(self@, name@) matches Some(FormValueView::U128(_))),
            },
    {
        match self.get(name) {
            Some(FormDataValue::U128(v)) => Some(*v),
            _ => None,
        }
    }

    /// Puts an `f32`, given by its bits, under a name.
    pub fn add_f32(&mut self, name: &str, bits: u32)
        requires
            old(self).wf(),
        ensures
            final(self).wf(),
            final(self)@.id == old(self)@.id,
            final(self)@.values == old(self)@.values.insert(name@, FormValueView::F32(bits)),
    {
        self.add(name, FormDataValue::F32(bits));
    }

    /// The bits of the `f32` under a name, if one is there.
    pub fn get_f32(&self, name: &str) -> (res: Option<u32>)
        requires
            self.wf(),
        ensures
            match res {
                Some(v) => value_of(self@, name@) == Some(FormValueView::F32(v)),
                None => !(value_of(self@, name@) matches Some(FormValueView::F32(_))),
            },
    {
        match self.get(name) {
            Some(FormDataValue::F32(v)) => Some(*v),
            _ => None,
        }
    }

    /// Puts an `f64`, given by its bits, under a name.
    pub fn add_f64(&mut self, name: &str, bits: u64)
        requires
            old(self).wf(),
        ensures
            final(self).wf(),
            final(self)@.id == old(self)@.id,
            final(self)@.values == old(self)@.values.insert(name@, FormValueView::F64(bits)),
    {
        self.add(name, FormDataValue::F64(bits));
    }

    /// The bits of the `f64` under a name, if one is there.
    pub fn get_f64(&self, name: &str) -> (res: Option<u64>)
        requires
            self.wf(),
        ensures
            match res {
                Some(v) => value_of(self@, name@) == Some(FormValueView::F64(v)),
                None => !(value_of(self@, name@) matches Some(FormValueView::F64(_))),
            },
    {
        match self.get(name) {
            Some(FormDataValue::F64(v)) => Some(*v),
            _ => None,
        }
    }
}

/// A value put under a name is what a read of that name gives back, and a
/// read of any other name gives what it gave before.
pub proof fn lemma_read_after_add(d: FormDataModel, name: Seq<char>, v: FormValueView, other: Seq<char>)
    ensures
        value_of(FormDataModel { values: d.values.insert(name, v), ..d }, name) == Some(v),
        other != name ==> value_of(FormDataModel { values: d.values.insert(name, v), ..d }, other)
            == value_of(d, other),
{
}

/// The steps of a staged form: how many there are, which is shown, the
/// title template, and the data collected so far.
pub struct FormStages {
    pub index: u8,
    pub count: usize,
    pub title: String,
    pub data: FormData,
}

/// A staged form with its strings taken by their characters.
pub struct FormStagesModel {
    pub index: u8,
    pub count: nat,
    pub title: Seq<char>,
}

impl View for FormStages {
    type V = FormStagesModel;

    closed spec fn view(&self) -> FormStagesModel {
        FormStagesModel { index: self.index, count: self.count as nat, title: self.title@ }
    }
}

/// The label of a staged form's submit button once the step at `index` is
/// shown, and the index kept: `Next` before the last step, `Submit` on it;
/// an index past the last is brought back to it (modulo 256).
pub open spec fn step_label(index: u8, count: nat) -> (Seq<char>, u8) {
    let last = (count - 1) as nat;
    if (index as nat) < last {
        ("Next"@, index)
    } else {
        ("Submit"@, (last % 256) as u8)
    }
}

/// A title template filled in: `[INDEX]` becomes the number of the step
/// shown, counting from one, and `[STEPS]` the number of steps.
pub open spec fn rendered_title(title: Seq<char>, index: u8, count: nat) -> Seq<char> {
    replace_all(replace_all(title, "[INDEX]"@, decimal(index as nat + 1)), "[STEPS]"@, decimal(count))
}

impl FormStages {
    /// A staged form with no steps, showing the first, with the given title
    /// template (`Step [INDEX]/[STEPS]` when none is given).
    pub fn new(title: Option<String>) -> (res: Self)
        ensures
            res@.index == 0,
            res@.count == 0,
            res@.title == match title {
                Some(t) => t@,
                None => "Step [INDEX]/[STEPS]"@,
            },
            res.data.wf(),
            res.data@.id is None,
            res.data@.values == Map::<Seq<char>, FormValueView>::empty(),
    {
        let title = match title {
            Some(t) => t,
            None => "Step [INDEX]/[STEPS]".to_owned(),
        };
        FormStages { index: 0, count: 0, title, data: FormData::new(None) }
    }

    /// Adds a step.
    pub fn add_stage(&mut self)
        requires
            old(self)@.count < usize::MAX,
        ensures
            final(self)@ == (FormStagesModel { count: old(self)@.count + 1, ..old(self)@ }),
            final(self).data == old(self).data,
    {
        self.count = self.count + 1;
    }

    /// The number of steps.
    pub fn len(&self) -> (res: usize)
        ensures
            res == self@.count,
    {
        self.count
    }

    /// Whether there are no steps.
    pub fn is_empty(&self) -> (res: bool)
        ensures
            res == (self@.count == 0),
    {
        self.count == 0
    }

    /// The index of the step shown.
    pub fn index(&self) -> (res: u8)
        ensures
            res == self@.index,
    {
        self.index
    }

    /// The title template.
    pub fn title(&self) -> (res: String)
        ensures
            res@ == self@.title,
    {
        self.title.clone()
    }

    /// Whether the step shown is the last one or beyond.
    pub fn is_finished(&self) -> (res: bool)
        ensures
            res == (self@.index + 1 >= self@.count),
    {
        (self.index as usize) + 1 >= self.count
    }

    /// Whether the step shown is the first.
    pub fn is_first(&self) -> (res: bool)
        ensures
            res == (self@.index == 0),
    {
        self.index == 0
    }

    /// Whether the step shown is the last.
    pub fn is_last(&self) -> (res: bool)
        ensures
            res == (self@.count == self@.index + 1),
    {
        self.count == (self.index as usize) + 1
    }

    /// Shows the step at `index`. With a footer, its submit button is
    /// labelled `Next` before the last step and `Submit` on it, and an index
    /// past the last is brought back to it; the label is handed back.
    pub fn set_index(&mut self, index: u8, has_footer: bool) -> (res: Option<&'static str>)
        requires
            has_footer ==> old(self)@.count > 0,
        ensures
            final(self).data == old(self).data,
            final(self)@.count == old(self)@.count,
            final(self)@.title == old(self)@.title,
            has_footer ==> (res matches Some(l) && (l@, final(self)@.index) == step_label(
                index,
                old(self)@.count,
            )),
            !has_footer ==> res is None && final(self)@.index == index,
    {
        if !has_footer {
            self.index = index;
            return None;
        }
        let last = self.count - 1;
        if (index as usize) < last {
            self.index = index;
            Some("Next")
        } else {
            self.index = (last % 256) as u8;
            Some("Submit")
        }
    }

    /// Moves on to the next step unless the last one is shown; tells whether
    /// it did, and the label of the submit button when there is a footer.
    pub fn next(&mut self, has_footer: bool) -> (res: (bool, Option<&'static str>))
        requires
            old(self)@.index + 1 < old(self)@.count ==> old(self)@.index < 255,
        ensures
            final(self).data == old(self).data,
            final(self)@.count == old(self)@.count,
            final(self)@.title == old(self)@.title,
            old(self)@.index + 1 >= old(self)@.count ==> !res.0 && res.1 is None && final(self)@
                == old(self)@,
            old(self)@.index + 1 < old(self)@.count ==> res.0,
            old(self)@.index + 1 < old(self)@.count && has_footer ==> (res.1 matches Some(l) && (
            l@,
            final(self)@.index,
            ) == step_label((old(self)@.index + 1) as u8, old(self)@.count)),
            old(self)@.index + 1 < old(self)@.count && !has_footer ==> res.1 is None && final(self)@.index
                == old(self)@.index + 1,
    {
        if self.is_finished() {
            return (false, None);
        }
        let label = self.set_index(self.index + 1, has_footer);
        (true, label)
    }

    /// The title with the number of the step shown and the number of steps
    /// filled in.
    pub fn render_title(&self, title: &str) -> (res: String)
        ensures
            res@ == rendered_title(title@, self@.index, self@.count),
    {
        proof {
            reveal_strlit("[INDEX]");
            reveal_strlit("[STEPS]");
        }
        let number = decimal_string(self.index as u64 + 1);
        let steps = decimal_string(self.count as u64);
        let a = replace_str(title, "[INDEX]", number.as_str());
        replace_str(a.as_str(), "[STEPS]", steps.as_str())
    }

    /// The name under which the data of step `index` is kept:
    /// `stage_` and the index.
    pub fn stage_data_name(index: u8) -> (res: String)
        ensures
            res@ == "stage_"@ + decimal(index as nat),
    {
        let mut res = "stage_".to_owned();
        res.append(decimal_string(index as u64).as_str());
        res
    }

    /// Keeps the serialized data of step `index` with the form's data.
    pub fn set_stage_data(&mut self, index: u8, data: Vec<u8>)
        requires
            old(self).data.wf(),
        ensures
            final(self)@ == old(self)@,
            final(self).data.wf(),
            final(self).data@.id == old(self).data@.id,
            final(self).data@.values == old(self).data@.values.insert(
                "stage_"@ + decimal(index as nat),
                FormValueView::Object(data@),
            ),
    {
        let name = Self::stage_data_name(index);
        self.data.add_object(name.as_str(), data);
    }
}

} // verus!
