//! A record: a 128-bit unique identifier and an ordered collection of
//! fields with pairwise distinct names.

use vstd::prelude::*;
use crate::db::db_error::{DbError, ErrV};
use crate::db::field::{Field, FieldV};
use crate::db::field_type::{Type, ValueV};
use crate::db::ids::new_v4_u128;

verus! {

/// Spec-level image of a [`Line`].
pub struct LineV {
    pub id: u128,
    pub fields: Seq<FieldV>,
}

/// The spec-level images of a vector of fields.
pub open spec fn fields_view(s: Seq<Field>) -> Seq<FieldV> {
    s.map_values(|f: Field| f@)
}

/// The index of the first field bearing the given name, or `-1` when none
/// does.
pub open spec fn field_index(fields: Seq<FieldV>, name: Seq<char>) -> int
    decreases fields.len(),
{
    if fields.len() == 0 {
        -1
    } else if fields[0].name == name {
        0
    } else {
        let rest = field_index(fields.skip(1), name);
        if rest < 0 {
            -1
        } else {
            rest + 1
        }
    }
}

/// Some field of the sequence bears the given name.
pub open spec fn has_field(fields: Seq<FieldV>, name: Seq<char>) -> bool {
    exists|i: int| 0 <= i < fields.len() && (#[trigger] fields[i]).name == name
}

/// The error message for a duplicate field name.
pub open spec fn field_exists_msg(name: Seq<char>) -> Seq<char> {
    "The field ["@ + name + "] already exists"@
}

/// `field_index` finds the first index with the name, and `-1` exactly when
/// no field bears it.
pub proof fn lemma_field_index(fields: Seq<FieldV>, name: Seq<char>)
    ensures
        has_field(fields, name) <==> field_index(fields, name) >= 0,
        field_index(fields, name) >= 0 ==> {
            &&& field_index(fields, name) < fields.len()
            &&& fields[field_index(fields, name)].name == name
            &&& forall|i: int| 0 <= i < field_index(fields, name) ==> (#[trigger] fields[i]).name
                != name
        },
    decreases fields.len(),
{
    if fields.len() > 0 && fields[0].name != name {
        lemma_field_index(fields.skip(1), name);
        assert(forall|i: int|
            1 <= i < fields.len() ==> #[trigger] fields[i] == fields.skip(1)[i - 1]);
        if has_field(fields, name) {
            let w = choose|i: int| 0 <= i < fields.len() && (#[trigger] fields[i]).name == name;
            assert(fields.skip(1)[w - 1].name == name);
        }
    }
}

/// A witness index that is first with its name pins `field_index` down.
pub proof fn lemma_field_index_at(fields: Seq<FieldV>, name: Seq<char>, i: int)
    requires
        0 <= i < fields.len(),
        fields[i].name == name,
        forall|k: int| 0 <= k < i ==> (#[trigger] fields[k]).name != name,
    ensures
        field_index(fields, name) == i,
    decreases fields.len(),
{
    if i > 0 {
        assert(forall|k: int|
            1 <= k < fields.len() ==> #[trigger] fields[k] == fields.skip(1)[k - 1]);
        assert(fields.skip(1)[i - 1].name == name);
        lemma_field_index_at(fields.skip(1), name, i - 1);
    }
}

/// A record: an identifier and its fields.
#[derive(Debug)]
pub struct Line {
    id: u128,
    fields: Vec<Field>,
}

impl View for Line {
    type V = LineV;

    closed spec fn view(&self) -> LineV {
        LineV { id: self.id, fields: fields_view(self.fields@) }
    }
}

impl Line {
    /// Creates an empty record under a fresh random identifier.
    pub fn new() -> (r: Line)
        ensures
            r@.fields.len() == 0,
    {
        Line::new_with_id(new_v4_u128(), Vec::new())
    }

    /// Creates a record from an identifier and fields, as when rebuilding
    /// from storage.
    pub fn new_with_id(id: u128, fields: Vec<Field>) -> (r: Line)
        ensures
            r@ == (LineV { id, fields: fields_view(fields@) }),
    {
        Line { id, fields }
    }

    /// The identifier of the record.
    pub fn get_id(&self) -> (r: u128)
        ensures
            r == self@.id,
    {
        self.id
    }

    /// The fields of the record, in order.
    pub fn get_fields(&self) -> (r: &Vec<Field>)
        ensures
            fields_view(r@) == self@.fields,
    {
        &self.fields
    }

    /// The index of the first field bearing the given name.
    #[verifier::loop_isolation(false)]
    pub fn get_index(&self, field_name: &str) -> (r: Option<usize>)
        ensures
            match r {
                Some(i) => i as int == field_index(self@.fields, field_name@),
                None => field_index(self@.fields, field_name@) == -1,
            },
    {
        proof {
            lemma_field_index(self@.fields, field_name@);
        }
        let n = self.fields.len();
        let mut i: usize = 0;
        while i < n
            invariant
                0 <= i <= n,
                forall|k: int| 0 <= k < i ==> (#[trigger] self@.fields[k]).name != field_name@,
            decreases n - i,
        {
            if self.fields[i].name_is(field_name) {
                proof {
                    lemma_field_index_at(self@.fields, field_name@, i as int);
                }
                return Some(i);
            }
            i += 1;
        }
        None
    }

    /// The first field bearing the given name, if any.
    pub fn get(&self, field_name: &str) -> (r: Option<&Field>)
        ensures
            match r {
                Some(f) => {
                    &&& has_field(self@.fields, field_name@)
                    &&& f@ == self@.fields[field_index(self@.fields, field_name@)]
                },
                None => !has_field(self@.fields, field_name@),
            },
    {
        proof {
            lemma_field_index(self@.fields, field_name@);
        }
        match self.get_index(field_name) {
            Some(i) => Some(&self.fields[i]),
            None => None,
        }
    }

    /// The first field bearing the given name, for mutation in place.
    pub fn get_mut(&mut self, field_name: &str) -> (r: Option<&mut Field>)
        ensures
            match r {
                Some(f) => {
                    &&& has_field(old(self)@.fields, field_name@)
                    &&& *f == old(self).spec_field_at(
                        field_index(old(self)@.fields, field_name@),
                    )
                    &&& final (self)@.fields == old(self)@.fields.update(
                        field_index(old(self)@.fields, field_name@),
                        final (f)@,
                    )
                    &&& final (self)@.id == old(self)@.id
                },
                None => {
                    &&& !has_field(old(self)@.fields, field_name@)
                    &&& *final (self) == *old(self)
                },
            },
    {
        proof {
            lemma_field_index(self@.fields, field_name@);
        }
        match self.get_index(field_name) {
            Some(i) => {
                let f = &mut self.fields[i];
                Some(f)
            },
            None => None,
        }
    }

    /// The field at a known index, at spec level.
    pub closed spec fn spec_field_at(&self, i: int) -> Field {
        self.fields@[i]
    }

    /// Appends a field under a new name; fails with `FieldAlreadyExists`,
    /// leaving the record unchanged, when a field of that name is already
    /// present.
    pub fn add(&mut self, field_name: &str, value: Type) -> (r: Result<(), DbError>)
        ensures
            ({
                if has_field(old(self)@.fields, field_name@) {
                    &&& r matches Err(e) && e@ == ErrV::FieldAlreadyExists(
                        field_exists_msg(field_name@),
                    )
                    &&& *final (self) == *old(self)
                } else {
                    &&& r is Ok
                    &&& final (self)@.id == old(self)@.id
                    &&& final (self)@.fields == old(self)@.fields.push(
                        FieldV { name: field_name@, value: value@ },
                    )
                }
            }),
    {
        proof {
            lemma_field_index(self@.fields, field_name@);
        }
        match self.get_index(field_name) {
            Some(_) => {
                let mut msg = String::from_str("The field [");
                msg.append(field_name);
                msg.append("] already exists");
                Err(DbError::FieldAlreadyExists(msg))
            },
            None => {
                self.fields.push(Field::new(field_name, value));
                proof {
                    assert(final (self)@.fields =~= old(self)@.fields.push(
                        FieldV { name: field_name@, value: value@ },
                    ));
                }
                Ok(())
            },
        }
    }

    /// Removes the first field bearing the given name; does nothing when no
    /// field bears it.
    pub fn remove(&mut self, field_name: &str)
        ensures
            final (self)@.id == old(self)@.id,
            ({
                if has_field(old(self)@.fields, field_name@) {
                    final (self)@.fields == old(self)@.fields.remove(
                        field_index(old(self)@.fields, field_name@),
                    )
                } else {
                    *final (self) == *old(self)
                }
            }),
    {
        proof {
            lemma_field_index(self@.fields, field_name@);
        }
        match self.get_index(field_name) {
            Some(i) => {
                self.fields.remove(i);
                proof {
                    assert(final (self)@.fields =~= old(self)@.fields.remove(i as int));
                }
            },
            None => {},
        }
    }

    /// True when the record has a field of the given name whose value is the
    /// given text.
    pub fn has_with(&self, field_name: &str, with: &str) -> (r: bool)
        ensures
            r == (has_field(self@.fields, field_name@) && self@.fields[field_index(
                self@.fields,
                field_name@,
            )].value == ValueV::Str(with@)),
    {
        match self.get(field_name) {
            Some(f) => *f.get() == Type::from_str(with),
            None => false,
        }
    }

    /// The names of the record's fields, in order.
    #[verifier::loop_isolation(false)]
    pub fn get_fields_name(&self) -> (r: Vec<String>)
        ensures
            r@.map_values(|s: String| s@) =~= self@.fields.map_values(|f: FieldV| f.name),
    {
        let n = self.fields.len();
        let mut names: Vec<String> = Vec::new();
        let mut i: usize = 0;
        while i < n
            invariant
                0 <= i <= n,
                names@.len() == i,
                forall|k: int| 0 <= k < i ==> (#[trigger] names@[k])@ == self@.fields[k].name,
            decreases n - i,
        {
            names.push(String::from_str(self.fields[i].get_name()));
            i += 1;
        }
        names
    }
}

} // verus!
