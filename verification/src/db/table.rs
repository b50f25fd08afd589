//! A table: a name and an ordered collection of records with pairwise
//! distinct identifiers.

use vstd::prelude::*;
use crate::db::db_error::{DbError, ErrV};
use crate::db::ids::{uuid_text, uuid_to_string};
use crate::db::line::{Line, LineV};

verus! {

/// Spec-level image of a [`Table`].
pub struct TableV {
    pub name: Seq<char>,
    pub lines: Seq<LineV>,
}

/// The spec-level images of a vector of records.
pub open spec fn lines_view(s: Seq<Line>) -> Seq<LineV> {
    s.map_values(|l: Line| l@)
}

/// The index of the first record bearing the given identifier, or `-1` when
/// none does.
pub open spec fn line_index(lines: Seq<LineV>, id: u128) -> int
    decreases lines.len(),
{
    if lines.len() == 0 {
        -1
    } else if lines[0].id == id {
        0
    } else {
        let rest = line_index(lines.skip(1), id);
        if rest < 0 {
            -1
        } else {
            rest + 1
        }
    }
}

/// Some record of the sequence bears the given identifier.
pub open spec fn has_line(lines: Seq<LineV>, id: u128) -> bool {
    exists|i: int| 0 <= i < lines.len() && (#[trigger] lines[i]).id == id
}

/// The record at the given position repeats an identifier seen earlier.
pub open spec fn dup_at(lines: Seq<LineV>, j: int) -> bool {
    exists|i: int| 0 <= i < j && (#[trigger] lines[i]).id == lines[j].id
}

/// The first position whose identifier repeats an earlier one, or `-1` when
/// all identifiers are distinct.
pub open spec fn first_dup(lines: Seq<LineV>) -> int {
    first_dup_from(lines, 0)
}

pub open spec fn first_dup_from(lines: Seq<LineV>, j: int) -> int
    decreases lines.len() - j,
{
    if j < 0 || j >= lines.len() {
        -1
    } else if dup_at(lines, j) {
        j
    } else {
        first_dup_from(lines, j + 1)
    }
}

/// All identifiers of the sequence are pairwise distinct.
pub open spec fn unique_ids(lines: Seq<LineV>) -> bool {
    forall|i: int, j: int|
        0 <= i < j < lines.len() ==> (#[trigger] lines[i]).id != (#[trigger] lines[j]).id
}

/// The identifiers are pairwise distinct exactly when no position repeats an
/// earlier one.
pub proof fn lemma_first_dup(lines: Seq<LineV>)
    ensures
        unique_ids(lines) <==> first_dup(lines) == -1,
        first_dup(lines) >= 0 ==> first_dup(lines) < lines.len() && dup_at(lines, first_dup(lines)),
{
    lemma_first_dup_from(lines, 0);
}

proof fn lemma_first_dup_from(lines: Seq<LineV>, j: int)
    requires
        0 <= j <= lines.len(),
        forall|k: int| 0 <= k < j ==> !dup_at(lines, k),
    ensures
        first_dup_from(lines, j) == -1 <==> (forall|k: int|
            0 <= k < lines.len() ==> !dup_at(lines, k)),
        first_dup_from(lines, j) >= 0 ==> first_dup_from(lines, j) < lines.len() && dup_at(
            lines,
            first_dup_from(lines, j),
        ),
        unique_ids(lines) <==> (forall|k: int| 0 <= k < lines.len() ==> !dup_at(lines, k)),
    decreases lines.len() - j,
{
    if j < lines.len() && !dup_at(lines, j) {
        lemma_first_dup_from(lines, j + 1);
    }
    if forall|k: int| 0 <= k < lines.len() ==> !dup_at(lines, k) {
        assert forall|i: int, j2: int| 0 <= i < j2 < lines.len() implies (
        #[trigger] lines[i]).id != (#[trigger] lines[j2]).id by {
            assert(!dup_at(lines, j2));
        }
    }
}

/// A position that repeats an earlier identifier, with all positions before
/// it clean, pins `first_dup` down.
pub proof fn lemma_first_dup_at(lines: Seq<LineV>, j: int)
    requires
        0 <= j < lines.len(),
        dup_at(lines, j),
        forall|k: int| 0 <= k < j ==> !dup_at(lines, k),
    ensures
        first_dup(lines) == j,
{
    lemma_first_dup_upto(lines, 0, j);
}

proof fn lemma_first_dup_upto(lines: Seq<LineV>, t: int, j: int)
    requires
        0 <= t <= j < lines.len(),
        dup_at(lines, j),
        forall|k: int| t <= k < j ==> !dup_at(lines, k),
    ensures
        first_dup_from(lines, t) == j,
    decreases j - t,
{
    if t < j {
        lemma_first_dup_upto(lines, t + 1, j);
    }
}

/// The error message for a duplicated record identifier.
pub open spec fn duplicate_id_msg(id: u128) -> Seq<char> {
    "The id ["@ + uuid_text(id) + "] is used multiple times"@
}

/// The result `r` reads the records of `lines` at the strictly increasing
/// positions `w`.
pub open spec fn found_at(r: Seq<&Line>, w: Seq<int>, lines: Seq<LineV>) -> bool {
    &&& w.len() == r.len()
    &&& forall|k: int|
        0 <= k < w.len() ==> 0 <= #[trigger] w[k] < lines.len() && (r[k])@ == lines[w[k]]
    &&& forall|k1: int, k2: int| 0 <= k1 < k2 < w.len() ==> w[k1] < w[k2]
}

/// A named collection of records, where identifiers are checked to be
/// distinct at construction.
#[derive(Debug)]
pub struct Table {
    name: String,
    lines: Vec<Line>,
}

impl View for Table {
    type V = TableV;

    closed spec fn view(&self) -> TableV {
        TableV { name: self.name@, lines: lines_view(self.lines@) }
    }
}

impl Table {
    /// Creates a table from a name and records. Fails with `DuplicateId`,
    /// naming the offending identifier, when two records share one; the
    /// check happens only here, not on later insertions.
    pub fn new(name: &str, lines: Vec<Line>) -> (r: Result<Table, DbError>)
        ensures
            ({
                let lv = lines_view(lines@);
                if unique_ids(lv) {
                    r matches Ok(t) && t@ == (TableV { name: name@, lines: lv })
                } else {
                    r matches Err(e) && e@ == ErrV::DuplicateId(
                        duplicate_id_msg(lv[first_dup(lv)].id),
                    )
                }
            }),
    {
        proof {
            lemma_first_dup(lines_view(lines@));
        }
        match Table::check_for_duplicate_id(&lines) {
            Some(id) => {
                let mut msg = String::from_str("The id [");
                let id_text = uuid_to_string(id);
                msg.append(id_text.as_str());
                msg.append("] is used multiple times");
                Err(DbError::DuplicateId(msg))
            },
            None => Ok(Table { name: String::from_str(name), lines }),
        }
    }

    /// The identifier of the first record that repeats an earlier one, if
    /// any.
    #[verifier::loop_isolation(false)]
    fn check_for_duplicate_id(lines: &Vec<Line>) -> (r: Option<u128>)
        ensures
            ({
                let lv = lines_view(lines@);
                match r {
                    Some(id) => first_dup(lv) >= 0 && id == lv[first_dup(lv)].id,
                    None => unique_ids(lv),
                }
            }),
    {
        let ghost lv = lines_view(lines@);
        let n = lines.len();
        let mut j: usize = 0;
        while j < n
            invariant
                0 <= j <= n,
                forall|k: int| 0 <= k < j ==> !dup_at(lv, k),
            decreases n - j,
        {
            let id = lines[j].get_id();
            let mut i: usize = 0;
            while i < j
                invariant
                    0 <= i <= j < n,
                    id == lv[j as int].id,
                    forall|k: int| 0 <= k < i ==> (#[trigger] lv[k]).id != id,
                decreases j - i,
            {
                if lines[i].get_id() == id {
                    proof {
                        assert(lv[i as int].id == lv[j as int].id);
                        assert(dup_at(lv, j as int));
                        lemma_first_dup_at(lv, j as int);
                    }
                    return Some(id);
                }
                i += 1;
            }
            j += 1;
        }
        proof {
            lemma_first_dup_from(lv, n as int);
            lemma_first_dup(lv);
        }
        None
    }

    /// The name of the table.
    pub fn get_name(&self) -> (r: &str)
        ensures
            r@ == self@.name,
    {
        self.name.as_str()
    }

    /// All records of the table, in order.
    #[verifier::loop_isolation(false)]
    pub fn get_lines(&self) -> (r: Vec<&Line>)
        ensures
            r@.len() == self@.lines.len(),
            forall|i: int| 0 <= i < r@.len() ==> (#[trigger] r@[i])@ == self@.lines[i],
    {
        let n = self.lines.len();
        let mut out: Vec<&Line> = Vec::new();
        let mut i: usize = 0;
        while i < n
            invariant
                0 <= i <= n,
                out@.len() == i,
                forall|k: int| 0 <= k < i ==> (#[trigger] out@[k])@ == self@.lines[k],
            decreases n - i,
        {
            out.push(&self.lines[i]);
            i += 1;
        }
        out
    }

    /// The position of the record bearing the given identifier.
    #[verifier::loop_isolation(false)]
    pub fn get_line_index(&self, id: u128) -> (r: Option<usize>)
        ensures
            match r {
                Some(i) => i as int == line_index(self@.lines, id),
                None => line_index(self@.lines, id) == -1,
            },
    {
        proof {
            lemma_line_index(self@.lines, id);
        }
        let n = self.lines.len();
        let mut i: usize = 0;
        while i < n
            invariant
                0 <= i <= n,
                forall|k: int| 0 <= k < i ==> (#[trigger] self@.lines[k]).id != id,
            decreases n - i,
        {
            if self.lines[i].get_id() == id {
                proof {
                    lemma_line_index_at(self@.lines, id, i as int);
                }
                return Some(i);
            }
            i += 1;
        }
        None
    }

    /// The records on which the given predicate answers true, in table
    /// order: some strictly increasing choice of positions carries the
    /// result, the predicate answered true on every returned record, and it
    /// answered false on every record at a position left out.
    #[verifier::loop_isolation(false)]
    pub fn find<F: Fn(&Line) -> bool>(&self, filter: F) -> (r: Vec<&Line>)
        requires
            forall|l: &Line| #[trigger] filter.requires((l,)),
        ensures
            r@.len() <= self@.lines.len(),
            exists|w: Seq<int>|
                {
                    &&& #[trigger] w.len() == r@.len()
                    &&& found_at(r@, w, self@.lines)
                    &&& forall|j: int|
                        0 <= j < self@.lines.len() && !w.contains(j) ==> filter.ensures(
                            (&self.spec_line_at(j),),
                            false,
                        )
                },
            forall|k: int| 0 <= k < r@.len() ==> filter.ensures((#[trigger] r@[k],), true),
    {
        let n = self.lines.len();
        let mut out: Vec<&Line> = Vec::new();
        let ghost mut wit: Seq<int> = Seq::empty();
        let mut i: usize = 0;
        while i < n
            invariant
                0 <= i <= n,
                out@.len() <= i,
                wit.len() == out@.len(),
                forall|k: int| 0 <= k < wit.len() ==> #[trigger] wit[k] < i,
                found_at(out@, wit, self@.lines),
                forall|k: int| 0 <= k < out@.len() ==> filter.ensures((#[trigger] out@[k],), true),
                forall|j: int|
                    0 <= j < i && !wit.contains(j) ==> filter.ensures(
                        (&self.spec_line_at(j),),
                        false,
                    ),
            decreases n - i,
        {
            let ghost pre_wit = wit;
            let l = &self.lines[i];
            let hit = filter(l);
            if hit {
                out.push(l);
                proof {
                    wit = wit.push(i as int);
                    assert(wit[wit.len() - 1] == i as int);
                    assert(wit.contains(i as int));
                }
            }
            proof {
                if !hit {
                    assert(l == &self.spec_line_at(i as int));
                    assert(filter.ensures((&self.spec_line_at(i as int),), false));
                }
                assert forall|j: int|
                    0 <= j < i + 1 && !wit.contains(j) implies filter.ensures(
                    (&self.spec_line_at(j),),
                    false,
                ) by {
                    if j < i {
                        if pre_wit.contains(j) {
                            let k = choose|k: int| 0 <= k < pre_wit.len() && pre_wit[k] == j;
                            assert(wit[k] == j);
                            assert(wit.contains(j));
                        }
                    }
                }
            }
            i += 1;
        }
        proof {
            assert(wit.len() == out@.len() && found_at(out@, wit, self@.lines));
        }
        out
    }

    /// The record bearing the given identifier, for mutation in place.
    pub fn find_by_id(&mut self, id: u128) -> (r: Option<&mut Line>)
        ensures
            match r {
                Some(l) => {
                    &&& has_line(old(self)@.lines, id)
                    &&& *l == old(self).spec_line_at(line_index(old(self)@.lines, id))
                    &&& final (self)@.lines == old(self)@.lines.update(
                        line_index(old(self)@.lines, id),
                        final (l)@,
                    )
                    &&& final (self)@.name == old(self)@.name
                },
                None => {
                    &&& !has_line(old(self)@.lines, id)
                    &&& *final (self) == *old(self)
                },
            },
    {
        proof {
            lemma_line_index(self@.lines, id);
        }
        match self.get_line_index(id) {
            Some(i) => Some(&mut self.lines[i]),
            None => None,
        }
    }

    /// The record at a known position, at spec level.
    pub closed spec fn spec_line_at(&self, i: int) -> Line {
        self.lines@[i]
    }

    /// Appends a record. The identifier is not checked against the existing
    /// records: only construction checks for duplicates.
    pub fn insert(&mut self, line: Line)
        ensures
            final (self)@.name == old(self)@.name,
            final (self)@.lines == old(self)@.lines.push(line@),
    {
        self.lines.push(line);
        proof {
            assert(final (self)@.lines =~= old(self)@.lines.push(line@));
        }
    }

    /// Removes the record bearing the given identifier; does nothing when no
    /// record bears it.
    pub fn delete(&mut self, id: u128)
        ensures
            final (self)@.name == old(self)@.name,
            ({
                if has_line(old(self)@.lines, id) {
                    final (self)@.lines == old(self)@.lines.remove(
                        line_index(old(self)@.lines, id),
                    )
                } else {
                    *final (self) == *old(self)
                }
            }),
    {
        proof {
            lemma_line_index(self@.lines, id);
        }
        match self.get_line_index(id) {
            Some(i) => {
                self.lines.remove(i);
                proof {
                    assert(final (self)@.lines =~= old(self)@.lines.remove(i as int));
                }
            },
            None => {},
        }
    }
}

/// `line_index` finds the first position with the identifier, and `-1`
/// exactly when no record bears it.
pub proof fn lemma_line_index(lines: Seq<LineV>, id: u128)
    ensures
        has_line(lines, id) <==> line_index(lines, id) >= 0,
        line_index(lines, id) >= 0 ==> {
            &&& line_index(lines, id) < lines.len()
            &&& lines[line_index(lines, id)].id == id
            &&& forall|i: int| 0 <= i < line_index(lines, id) ==> (#[trigger] lines[i]).id != id
        },
    decreases lines.len(),
{
    if lines.len() > 0 && lines[0].id != id {
        lemma_line_index(lines.skip(1), id);
        assert(forall|i: int| 1 <= i < lines.len() ==> #[trigger] lines[i] == lines.skip(1)[i - 1]);
        if has_line(lines, id) {
            let w = choose|i: int| 0 <= i < lines.len() && (#[trigger] lines[i]).id == id;
            assert(lines.skip(1)[w - 1].id == id);
        }
    }
}

/// A witness position that is first with its identifier pins `line_index`
/// down.
pub proof fn lemma_line_index_at(lines: Seq<LineV>, id: u128, i: int)
    requires
        0 <= i < lines.len(),
        lines[i].id == id,
        forall|k: int| 0 <= k < i ==> (#[trigger] lines[k]).id != id,
    ensures
        line_index(lines, id) == i,
    decreases lines.len(),
{
    if i > 0 {
        assert(forall|k: int| 1 <= k < lines.len() ==> #[trigger] lines[k] == lines.skip(1)[k - 1]);
        assert(lines.skip(1)[i - 1].id == id);
        lemma_line_index_at(lines.skip(1), id, i - 1);
    }
}

} // verus!
