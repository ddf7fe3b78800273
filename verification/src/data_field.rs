//! A form field that only holds a value.

use vstd::prelude::*;
use crate::error::Error;

verus! {

/// A field of a form that holds an optional value and shows nothing.
pub struct DataField<T: Clone> {
    data: Option<T>,
}

impl<T: Clone> DataField<T> {
    /// The value the field holds.
    pub closed spec fn stored(&self) -> Option<T> {
        self.data
    }

    /// The field once `data` is set in it.
    pub closed spec fn with_stored(self, data: Option<T>) -> Self {
        DataField { data }
    }

    /// A field holding no value.
    pub fn new() -> (res: Self)
        ensures
            res.stored() is None,
    {
        DataField { data: None }
    }

    /// A copy of the value the field holds.
    pub fn value(&self) -> (res: Result<Option<T>, Error>)
        ensures
            res matches Ok(v) && match (self.stored(), v) {
                (None, None) => true,
                (Some(x), Some(y)) => cloned(x, y),
                _ => false,
            },
    {
        Ok(self.data.clone())
    }

    /// Sets the value the field holds.
    pub fn set_value(&mut self, data: Option<T>) -> (res: Result<(), Error>)
        ensures
            res is Ok,
            *final(self) == old(self).with_stored(data),
    {
        self.data = data;
        Ok(())
    }
}

/// What a field gives back is what was last set in it.
pub proof fn lemma_read_after_write<T: Clone>(f: DataField<T>, data: Option<T>)
    ensures
        f.with_stored(data).stored() == data,
{
}

} // verus!
