//! A single cell of a record: a name and a typed value.

use vstd::prelude::*;
use crate::db::dec::Dec;
use crate::db::ts::{Ts, ts_wf};
use crate::db::field_type::{Type, ValueV};

verus! {

/// Spec-level image of a [`Field`].
pub struct FieldV {
    pub name: Seq<char>,
    pub value: ValueV,
}

/// A named typed value. The name is immutable after creation; the value may
/// be replaced.
#[derive(Debug, Clone)]
pub struct Field {
    name: String,
    value: Type,
}

impl View for Field {
    type V = FieldV;

    closed spec fn view(&self) -> FieldV {
        FieldV { name: self.name@, value: self.value@ }
    }
}

impl Field {
    /// Creates a field from a name and a value.
    pub fn new(name: &str, value: Type) -> (r: Field)
        ensures
            r@ == (FieldV { name: name@, value: value@ }),
    {
        Field { name: String::from_str(name), value }
    }

    /// Creates a field holding a text value.
    pub fn new_str(name: &str, value: &str) -> (r: Field)
        ensures
            r@ == (FieldV { name: name@, value: ValueV::Str(value@) }),
    {
        Field::new(name, Type::from_str(value))
    }

    /// Creates a field holding an integer value.
    pub fn new_int(name: &str, value: i64) -> (r: Field)
        ensures
            r@ == (FieldV { name: name@, value: ValueV::Integer(value) }),
    {
        Field::new(name, Type::from_int(value))
    }

    /// Creates a field holding a decimal value.
    pub fn new_decimal(name: &str, value: rust_decimal::Decimal) -> (r: Field)
        ensures
            r@.name == name@,
            r@.value matches ValueV::Decimal(_),
    {
        Field::new(name, Type::from_decimal(value))
    }

    /// Creates a field holding a decimal value of the library's own type.
    pub fn new_dec(name: &str, value: Dec) -> (r: Field)
        ensures
            r@ == (FieldV { name: name@, value: ValueV::Decimal(value@) }),
    {
        Field::new(name, Type::from_dec(value))
    }

    /// Creates a field holding a boolean value.
    pub fn new_bool(name: &str, value: bool) -> (r: Field)
        ensures
            r@ == (FieldV { name: name@, value: ValueV::Boolean(value) }),
    {
        Field::new(name, Type::from_bool(value))
    }

    /// Creates a field holding an instant, from epoch milliseconds; rejects
    /// instants the on-disk format cannot carry.
    pub fn new_datetime(name: &str, millis: i64) -> (r: Option<Field>)
        ensures
            r matches Some(f) ==> f@ == (FieldV { name: name@, value: ValueV::DateTime(millis) }),
            r is Some <==> ts_wf(millis),
    {
        match Type::from_datetime(millis) {
            Some(t) => Some(Field::new(name, t)),
            None => None,
        }
    }

    /// Creates a field holding an instant.
    pub fn new_ts(name: &str, value: Ts) -> (r: Field)
        ensures
            r@ == (FieldV { name: name@, value: ValueV::DateTime(value@) }),
    {
        Field::new(name, Type::from_ts(value))
    }

    /// Replaces the value of the field; the name stays.
    pub fn set(&mut self, value: Type)
        ensures
            final(self)@ == (FieldV { name: old(self)@.name, value: value@ }),
    {
        self.value = value;
    }

    /// The current value of the field.
    pub fn get(&self) -> (r: &Type)
        ensures
            r@ == self@.value,
    {
        &self.value
    }

    /// The name of the field.
    pub fn get_name(&self) -> (r: &str)
        ensures
            r@ == self@.name,
    {
        self.name.as_str()
    }

    /// True when the field bears the given name.
    pub fn name_is(&self, name: &str) -> (r: bool)
        ensures
            r == (self@.name == name@),
    {
        crate::text::str_eq(self.name.as_str(), name)
    }
}

} // verus!
