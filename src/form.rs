use vstd::prelude::*;

use crate::state::{entries_map, StringMap};

verus! {

/// A form field's value as the client holds it.
#[derive(Debug)]
pub enum LocalFormValue {
    String(String),
    Boolean(bool),
}

/// A form field's value as it is sent.
#[derive(Debug)]
pub enum FormValue {
    String(String),
    Boolean(bool),
}

/// Form fields by id, as the client holds them.
pub type LocalFormState = StringMap<LocalFormValue>;

/// Form fields by id, as they are sent.
pub type FormState = StringMap<FormValue>;

impl LocalFormValue {
    /// The boolean held, or `false`.
    pub fn boolean(&self) -> (r: bool)
        ensures
            r == (match *self {
                LocalFormValue::Boolean(b) => b,
                _ => false,
            }),
    {
        match self {
            LocalFormValue::Boolean(b) => *b,
            _ => false,
        }
    }

    /// The text held, or the empty text.
    pub fn string(&self) -> (r: String)
        ensures
            r@ == (match *self {
                LocalFormValue::String(s) => s@,
                _ => Seq::<char>::empty(),
            }),
    {
        match self {
            LocalFormValue::String(s) => s.clone(),
            _ => String::new(),
        }
    }
}

/// The value sent for a value the client holds.
pub open spec fn sent_value(v: LocalFormValue) -> FormValue {
    match v {
        LocalFormValue::String(s) => FormValue::String(s),
        LocalFormValue::Boolean(b) => FormValue::Boolean(b),
    }
}

/// The form state to send for the one the client holds: the same fields with
/// the same values.
pub fn convert_form_state(local_state: &LocalFormState) -> (r: FormState)
    ensures
        r@ == local_state@.map_values(|v: LocalFormValue| sent_value(v)),
{
    let entries = local_state.as_entries();
    let ghost e = entries@;
    let mut remote: FormState = StringMap::new();
    let mut i: usize = 0;
    while i < entries.len()
        invariant
            e == entries@,
            entries_map(e) == local_state@,
            i <= e.len(),
            remote@ == entries_map(e.take(i as int)).map_values(|v: LocalFormValue| sent_value(v)),
        decreases e.len() - i,
    {
        let value = match &entries[i].1 {
            LocalFormValue::String(s) => FormValue::String(s.clone()),
            LocalFormValue::Boolean(b) => FormValue::Boolean(*b),
        };
        remote.insert(entries[i].0.clone(), value);
        proof {
            assert(e.take(i + 1).drop_last() == e.take(i as int));
            assert(remote@ =~= entries_map(e.take(i + 1)).map_values(
                |v: LocalFormValue| sent_value(v),
            ));
        }
        i = i + 1;
    }
    proof {
        assert(e.take(e.len() as int) == e);
    }
    remote
}

} // verus!
