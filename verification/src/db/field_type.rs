//! The closed set of typed values a field can hold, with their canonical
//! text renderings.

use vstd::prelude::*;
use crate::db::db_error::{DbError, ErrV};
use crate::db::dec::{Dec, DecV, dec_of_text, decimal_text, decompose_decimal};
use crate::db::ts::{Ts, ts_of_text, ts_text, ts_wf};
use crate::db::num::int_text;
use crate::no_quote;

verus! {

/// Spec-level image of a [`Type`] value.
pub enum ValueV {
    Str(Seq<char>),
    Integer(i64),
    Decimal(DecV),
    Boolean(bool),
    DateTime(i64),
}

/// The canonical text rendering of a value: a string is itself, an integer
/// its decimal digits, a decimal its canonical decimal text, a boolean
/// `true` or `false`, an instant its RFC 3339 text.
pub open spec fn value_text(v: ValueV) -> Seq<char> {
    match v {
        ValueV::Str(s) => s,
        ValueV::Integer(i) => int_text(i as int),
        ValueV::Decimal(d) => decimal_text(d.neg, d.mantissa, d.scale),
        ValueV::Boolean(b) => if b {
            "true"@
        } else {
            "false"@
        },
        ValueV::DateTime(ms) => ts_text(ms),
    }
}

/// The value's canonical text reads back to the value. Strings, integers
/// and booleans carry this by construction; decimals and instants carry it
/// whenever their text was rendered once, which every encoding does.
pub open spec fn value_faithful(v: ValueV) -> bool {
    match v {
        ValueV::Str(_) => true,
        ValueV::Integer(_) => true,
        ValueV::Boolean(_) => true,
        ValueV::Decimal(d) => {
            &&& d.wf()
            &&& dec_of_text(decimal_text(d.neg, d.mantissa, d.scale)) == Some(
                (d.neg, d.mantissa, d.scale),
            )
            &&& no_quote(decimal_text(d.neg, d.mantissa, d.scale))
        },
        ValueV::DateTime(ms) => {
            &&& ts_wf(ms)
            &&& ts_of_text(ts_text(ms)) == Some(ms)
            &&& no_quote(ts_text(ms))
        },
    }
}

/// The type tag written after a value in the on-disk format.
pub open spec fn type_tag(v: ValueV) -> Seq<char> {
    match v {
        ValueV::Str(_) => "string"@,
        ValueV::Integer(_) => "integer"@,
        ValueV::Decimal(_) => "decimal"@,
        ValueV::Boolean(_) => "boolean"@,
        ValueV::DateTime(_) => "datetime"@,
    }
}

/// A typed value. The tag is immutable once constructed; conversions to a
/// concrete type fail with `TypeMismatch` when the requested type does not
/// match the tag.
#[derive(Debug, Clone)]
pub enum Type {
    /// A text value.
    Str(String),
    /// A 64-bit signed integer.
    Integer(i64),
    /// An arbitrary-precision signed fixed-point decimal.
    Decimal(Dec),
    /// A boolean.
    Boolean(bool),
    /// A UTC instant at millisecond precision.
    DateTime(Ts),
}

impl View for Type {
    type V = ValueV;

    open spec fn view(&self) -> ValueV {
        match self {
            Type::Str(s) => ValueV::Str(s@),
            Type::Integer(i) => ValueV::Integer(*i),
            Type::Decimal(d) => ValueV::Decimal(d@),
            Type::Boolean(b) => ValueV::Boolean(*b),
            Type::DateTime(t) => ValueV::DateTime(t@),
        }
    }
}

impl PartialEq for Type {
    /// Two values are equal when their tags and their payloads are equal.
    fn eq(&self, other: &Type) -> (r: bool) {
        proof {
            if let (Type::Decimal(a), Type::Decimal(b)) = (self, other) {
                crate::db::dec::lemma_dec_eq_view(*a, *b);
            }
            if let (Type::DateTime(a), Type::DateTime(b)) = (self, other) {
                crate::db::ts::lemma_ts_eq_view(*a, *b);
            }
        }
        match (self, other) {
            (Type::Str(a), Type::Str(b)) => a.eq(b),
            (Type::Integer(a), Type::Integer(b)) => *a == *b,
            (Type::Decimal(a), Type::Decimal(b)) => *a == *b,
            (Type::Boolean(a), Type::Boolean(b)) => *a == *b,
            (Type::DateTime(a), Type::DateTime(b)) => *a == *b,
            _ => false,
        }
    }
}

impl vstd::std_specs::cmp::PartialEqSpecImpl for Type {
    open spec fn obeys_eq_spec() -> bool {
        true
    }

    open spec fn eq_spec(&self, other: &Type) -> bool {
        self@ == other@
    }
}

impl Type {
    /// Builds a text value.
    pub fn from_str(s: &str) -> (r: Type)
        ensures
            r@ == ValueV::Str(s@),
    {
        Type::Str(String::from_str(s))
    }

    /// Builds an integer value.
    pub fn from_int(i: i64) -> (r: Type)
        ensures
            r@ == ValueV::Integer(i),
    {
        Type::Integer(i)
    }

    /// Builds a decimal value from the library's own decimal type.
    pub fn from_dec(d: Dec) -> (r: Type)
        ensures
            r@ == ValueV::Decimal(d@),
    {
        Type::Decimal(d)
    }

    /// Builds a decimal value from a `rust_decimal` decimal.
    pub fn from_decimal(dec: rust_decimal::Decimal) -> (r: Type)
        ensures
            r@ matches ValueV::Decimal(_),
    {
        let (neg, mantissa, scale) = decompose_decimal(&dec);
        match Dec::new(neg, mantissa, scale) {
            Some(d) => Type::Decimal(d),
            None => vstd::pervasive::unreached(),
        }
    }

    /// Builds a boolean value.
    pub fn from_bool(boolean: bool) -> (r: Type)
        ensures
            r@ == ValueV::Boolean(boolean),
    {
        Type::Boolean(boolean)
    }

    /// Builds an instant value from epoch milliseconds; rejects instants the
    /// on-disk format cannot carry (outside the years 0000 to 9999).
    pub fn from_datetime(millis: i64) -> (r: Option<Type>)
        ensures
            r matches Some(t) ==> t@ == ValueV::DateTime(millis),
            r is Some <==> ts_wf(millis),
    {
        match Ts::new(millis) {
            Some(t) => Some(Type::DateTime(t)),
            None => None,
        }
    }

    /// Builds an instant value.
    pub fn from_ts(t: Ts) -> (r: Type)
        ensures
            r@ == ValueV::DateTime(t@),
    {
        Type::DateTime(t)
    }

    /// The text payload, or `TypeMismatch` when the value is not a string.
    pub fn to_str(&self) -> (r: Result<String, DbError>)
        ensures
            match self@ {
                ValueV::Str(s) => r matches Ok(v) && v@ == s,
                _ => r matches Err(e) && e@ == ErrV::TypeMismatch("Not a String"@),
            },
    {
        match self {
            Type::Str(s) => Ok(s.clone()),
            _ => Err(DbError::TypeMismatch(String::from_str("Not a String"))),
        }
    }

    /// The integer payload, or `TypeMismatch` when the value is not an
    /// integer.
    pub fn to_int(&self) -> (r: Result<i64, DbError>)
        ensures
            match self@ {
                ValueV::Integer(i) => r matches Ok(v) && v == i,
                _ => r matches Err(e) && e@ == ErrV::TypeMismatch("Not an Integer"@),
            },
    {
        match self {
            Type::Integer(i) => Ok(*i),
            _ => Err(DbError::TypeMismatch(String::from_str("Not an Integer"))),
        }
    }

    /// The decimal payload, or `TypeMismatch` when the value is not a
    /// decimal.
    pub fn to_decimal(&self) -> (r: Result<Dec, DbError>)
        ensures
            match self@ {
                ValueV::Decimal(d) => r matches Ok(v) && v@ == d,
                _ => r matches Err(e) && e@ == ErrV::TypeMismatch("Not a Decimal"@),
            },
    {
        match self {
            Type::Decimal(d) => Ok(*d),
            _ => Err(DbError::TypeMismatch(String::from_str("Not a Decimal"))),
        }
    }

    /// The boolean payload, or `TypeMismatch` when the value is not a
    /// boolean.
    pub fn to_bool(&self) -> (r: Result<bool, DbError>)
        ensures
            match self@ {
                ValueV::Boolean(b) => r matches Ok(v) && v == b,
                _ => r matches Err(e) && e@ == ErrV::TypeMismatch("Not a Boolean"@),
            },
    {
        match self {
            Type::Boolean(b) => Ok(*b),
            _ => Err(DbError::TypeMismatch(String::from_str("Not a Boolean"))),
        }
    }

    /// The instant payload, or `TypeMismatch` when the value is not an
    /// instant.
    pub fn to_datetime(&self) -> (r: Result<Ts, DbError>)
        ensures
            match self@ {
                ValueV::DateTime(ms) => r matches Ok(v) && v@ == ms,
                _ => r matches Err(e) && e@ == ErrV::TypeMismatch("Not a DateTime"@),
            },
    {
        match self {
            Type::DateTime(t) => Ok(*t),
            _ => Err(DbError::TypeMismatch(String::from_str("Not a DateTime"))),
        }
    }

    /// The name of the value's type, as written in the on-disk format.
    pub fn get_type(&self) -> (r: String)
        ensures
            r@ == type_tag(self@),
    {
        match self {
            Type::Str(_) => String::from_str("string"),
            Type::Integer(_) => String::from_str("integer"),
            Type::Decimal(_) => String::from_str("decimal"),
            Type::Boolean(_) => String::from_str("boolean"),
            Type::DateTime(_) => String::from_str("datetime"),
        }
    }

    /// The canonical text rendering of the value. Rendering also shows that
    /// the text reads back to the value.
    pub fn to_string(&self) -> (r: String)
        ensures
            r@ == value_text(self@),
            value_faithful(self@),
    {
        proof {
            if let Type::Decimal(d) = self {
                use_type_invariant(d);
            }
            if let Type::DateTime(t) = self {
                use_type_invariant(t);
            }
        }
        match self {
            Type::Str(s) => s.clone(),
            Type::Integer(i) => crate::db::num::i64_to_string(*i),
            Type::Decimal(d) => d.to_text(),
            Type::Boolean(b) => if *b {
                String::from_str("true")
            } else {
                String::from_str("false")
            },
            Type::DateTime(t) => t.to_text(),
        }
    }
}

} // verus!
