//! The first-version table manager: the pure halves of reading, writing and
//! format detection. File input arrives as the lines read from the table's
//! file (or `None` where the file is absent); file output leaves as the
//! lines to write. The caller performs the I/O around these.

use vstd::prelude::*;
use crate::db::db_error::{DbError, ErrV};
use crate::db::table::{duplicate_id_msg, first_dup, lines_view, unique_ids, Table};
use crate::db::line::LineV;
use crate::table_manager::laws::{
    lemma_round_trip, line_faithful, line_names_ok, lines_encodable, lines_text, table_text,
};
use crate::table_manager::lexer::{spec_tokenize, Lexer};
use crate::table_manager::line_to_str::{enc_line, line_to_str};
use crate::table_manager::parser::{sp_parse, Parser};
use crate::text::str_eq;
use crate::version_marker;

verus! {

/// The text of several physical lines joined with no separator, as the
/// reader sees a table file.
pub open spec fn join_text(s: Seq<Seq<char>>) -> Seq<char>
    decreases s.len(),
{
    if s.len() == 0 {
        Seq::empty()
    } else {
        s[0] + join_text(s.skip(1))
    }
}

/// Appending one line appends its text.
pub proof fn lemma_join_text_push(s: Seq<Seq<char>>, x: Seq<char>)
    ensures
        join_text(s.push(x)) == join_text(s) + x,
    decreases s.len(),
{
    if s.len() == 0 {
        assert(s.push(x)[0] == x);
        assert(s.push(x).skip(1) =~= Seq::<Seq<char>>::empty());
        assert(join_text(Seq::<Seq<char>>::empty()) =~= Seq::<char>::empty());
        assert(join_text(s.push(x)) =~= join_text(s) + x);
    } else {
        assert(s.push(x)[0] == s[0]);
        assert(s.push(x).skip(1) =~= s.skip(1).push(x));
        lemma_join_text_push(s.skip(1), x);
        assert(join_text(s.push(x)) =~= join_text(s) + x);
    }
}

/// The views of a vector of lines.
pub open spec fn views_of(s: Seq<String>) -> Seq<Seq<char>> {
    s.map_values(|t: String| t@)
}

/// What [`TableManagerV1::read`] makes of file content.
pub open spec fn spec_read(content: Option<Seq<Seq<char>>>, name: Seq<char>) -> Result<
    TableVSpec,
    ErrV,
> {
    match content {
        None => Ok(TableVSpec { name, lines: Seq::empty() }),
        Some(raw) => {
            if raw.len() == 0 {
                Ok(TableVSpec { name, lines: Seq::empty() })
            } else {
                match sp_parse(spec_tokenize(join_text(raw))) {
                    Err(e) => Err(e),
                    Ok(lvs) => {
                        if unique_ids(lvs) {
                            Ok(TableVSpec { name, lines: lvs })
                        } else {
                            Err(ErrV::DuplicateId(duplicate_id_msg(lvs[first_dup(lvs)].id)))
                        }
                    },
                }
            }
        },
    }
}

/// The outcome [`spec_read`] describes: a table's name and records.
pub struct TableVSpec {
    pub name: Seq<char>,
    pub lines: Seq<LineV>,
}

/// The path of a table file under a base directory: the base, a slash where
/// one is missing, the table name and the `.dt` extension.
pub open spec fn joined_path(base: Seq<char>, file: Seq<char>) -> Seq<char> {
    if base.len() == 0 || base.last() == '/' {
        base + file
    } else {
        base + seq!['/'] + file
    }
}

/// Converts an in-memory table to and from the lines of its file.
pub struct TableManagerV1 {
    tbl_path: String,
    tbl_name: String,
}

impl TableManagerV1 {
    /// The path of the table's file.
    pub closed spec fn path_spec(&self) -> Seq<char> {
        self.tbl_path@
    }

    /// The name of the table.
    pub closed spec fn name_spec(&self) -> Seq<char> {
        self.tbl_name@
    }

    /// Binds a manager to the file of the named table under the base path.
    pub fn new(base_path: &str, tbl: &str) -> (r: Result<TableManagerV1, DbError>)
        ensures
            r matches Ok(m) && m.path_spec() == joined_path(base_path@, tbl@ + ".dt"@)
                && m.name_spec() == tbl@,
    {
        let fullpath = TableManagerV1::get_fullpath(base_path, tbl)?;
        Ok(TableManagerV1 { tbl_path: fullpath, tbl_name: String::from_str(tbl) })
    }

    /// The path of the named table's file under the base path.
    pub fn get_fullpath(base_path: &str, tbl: &str) -> (r: Result<String, DbError>)
        ensures
            r matches Ok(p) && p@ == joined_path(base_path@, tbl@ + ".dt"@),
    {
        let n = base_path.unicode_len();
        let mut p = String::from_str(base_path);
        if n > 0 && base_path.get_char(n - 1) != '/' {
            p.append("/");
            proof {
                reveal_strlit("/");
                assert(p@ =~= base_path@ + seq!['/']);
            }
        }
        p.append(tbl);
        p.append(".dt");
        proof {
            assert(p@ =~= joined_path(base_path@, tbl@ + ".dt"@));
        }
        Ok(p)
    }

    /// The path of the table's file, for the caller that performs the I/O.
    pub fn get_path(&self) -> (r: &str)
        ensures
            r@ == self.path_spec(),
    {
        self.tbl_path.as_str()
    }

    /// True exactly when the content of a file (or `None` for an absent
    /// file) opens with the version marker `#v1.0#` as its first line.
    pub fn is_of_type(content: Option<&Vec<String>>) -> (r: bool)
        ensures
            r == match content {
                None => false,
                Some(lines) => lines@.len() > 0 && lines@[0]@ == version_marker(),
            },
    {
        match content {
            None => false,
            Some(lines) => {
                if lines.len() > 0 {
                    str_eq(lines[0].as_str(), "#v1.0#")
                } else {
                    false
                }
            },
        }
    }

    /// Rebuilds a table from the lines of its file: absent or empty files
    /// give the empty table; anything else is joined into one text,
    /// tokenized and parsed, and the record identifiers must be distinct.
    #[verifier::loop_isolation(false)]
    pub fn read(&self, content: Option<&Vec<String>>) -> (r: Result<Table, DbError>)
        ensures
            ({
                let c = match content {
                    None => None,
                    Some(raw) => Some(views_of(raw@)),
                };
                match spec_read(c, self.name_spec()) {
                    Ok(tv) => r matches Ok(t) && t@.name == tv.name && t@.lines == tv.lines,
                    Err(e) => r matches Err(err) && err@ == e,
                }
            }),
    {
        let raw: &Vec<String> = match content {
            None => {
                let t = Table::new(self.tbl_name.as_str(), Vec::new())?;
                proof {
                    assert(lines_view(Seq::<crate::db::line::Line>::empty())
                        =~= Seq::<LineV>::empty());
                }
                return Ok(t);
            },
            Some(raw) => raw,
        };
        if raw.len() == 0 {
            let t = Table::new(self.tbl_name.as_str(), Vec::new())?;
            proof {
                assert(lines_view(Seq::<crate::db::line::Line>::empty()) =~= Seq::<LineV>::empty());
            }
            return Ok(t);
        }
        let n = raw.len();
        let mut text = String::new();
        let mut i: usize = 0;
        while i < n
            invariant
                0 <= i <= n,
                text@ == join_text(views_of(raw@.take(i as int))),
            decreases n - i,
        {
            text.append(raw[i].as_str());
            proof {
                assert(views_of(raw@.take(i + 1)) =~= views_of(raw@.take(i as int)).push(
                    raw@[i as int]@,
                ));
                lemma_join_text_push(views_of(raw@.take(i as int)), raw@[i as int]@);
            }
            i += 1;
        }
        proof {
            assert(raw@.take(n as int) =~= raw@);
        }
        let mut lexer = Lexer::new(text.as_str());
        let parser = Parser::new(&mut lexer)?;
        Table::new(self.tbl_name.as_str(), parser.lines)
    }

    /// Encodes a table into the lines of its file: the version marker, then
    /// one line per record, in order. Encoding also shows that every
    /// identifier and value reads back from its rendered text.
    #[verifier::loop_isolation(false)]
    pub fn write(&self, tbl: &Table) -> (r: Vec<String>)
        ensures
            r@.len() == tbl@.lines.len() + 1,
            r@[0]@ == version_marker(),
            forall|i: int|
                0 <= i < tbl@.lines.len() ==> (#[trigger] r@[i + 1])@ == enc_line(tbl@.lines[i]),
            forall|i: int| 0 <= i < tbl@.lines.len() ==> line_faithful(#[trigger] tbl@.lines[i]),
    {
        let mut out: Vec<String> = Vec::new();
        out.push(String::from_str("#v1.0#"));
        let lines = tbl.get_lines();
        let n = lines.len();
        let mut i: usize = 0;
        while i < n
            invariant
                0 <= i <= n,
                out@.len() == i + 1,
                out@[0]@ == version_marker(),
                forall|k: int|
                    0 <= k < i ==> (#[trigger] out@[k + 1])@ == enc_line(tbl@.lines[k]),
                forall|k: int| 0 <= k < i ==> line_faithful(#[trigger] tbl@.lines[k]),
            decreases n - i,
        {
            out.push(line_to_str(lines[i]));
            i += 1;
        }
        out
    }
}

/// Encodes a table and decodes the lines back in memory. For every table
/// whose record identifiers are distinct and whose field names are nonempty
/// and free of delimiter characters, the result is the table itself: the
/// executable face of [`lemma_manager_round_trip`].
pub fn encode_then_decode(m: &TableManagerV1, tbl: &Table) -> (r: Result<Table, DbError>)
    ensures
        unique_ids(tbl@.lines) && (forall|i: int|
            0 <= i < tbl@.lines.len() ==> line_names_ok(#[trigger] tbl@.lines[i])) ==> {
            &&& r matches Ok(t2)
            &&& t2@.lines == tbl@.lines
            &&& t2@.name == m.name_spec()
        },
{
    let lines = m.write(tbl);
    proof {
        if unique_ids(tbl@.lines) && (forall|i: int|
            0 <= i < tbl@.lines.len() ==> line_names_ok(#[trigger] tbl@.lines[i])) {
            lemma_manager_round_trip(m.name_spec(), tbl@.lines);
            let target = seq![version_marker()] + tbl@.lines.map_values(|l: LineV| enc_line(l));
            assert forall|i: int| 0 <= i < lines@.len() implies (#[trigger] lines@[i])@
                == target[i] by {
                if i >= 1 {
                    assert((lines@[(i - 1) + 1])@ == enc_line(tbl@.lines[i - 1]));
                }
            }
            assert(views_of(lines@) =~= target);
        }
    }
    m.read(Some(&lines))
}

/// Writing a table and reading its lines back yields the same records: the
/// joined text of [`TableManagerV1::write`]'s output parses to the table's
/// records, for every encodable table with distinct identifiers.
pub proof fn lemma_manager_round_trip(name: Seq<char>, lines: Seq<LineV>)
    requires
        lines_encodable(lines),
        unique_ids(lines),
    ensures
        spec_read(
            Some(seq![version_marker()] + lines.map_values(|l: LineV| enc_line(l))),
            name,
        ) == Ok::<_, ErrV>(TableVSpec { name, lines }),
{
    let enc = lines.map_values(|l: LineV| enc_line(l));
    let raw = seq![version_marker()] + enc;
    lemma_join_enc(lines);
    assert(raw[0] == version_marker());
    assert(raw.skip(1) =~= enc);
    assert(join_text(raw) =~= version_marker() + join_text(enc));
    assert(join_text(raw) == table_text(lines));
    lemma_round_trip(lines);
    crate::db::table::lemma_first_dup(lines);
}

/// The joined encodings of records equal their concatenated text.
proof fn lemma_join_enc(lines: Seq<LineV>)
    ensures
        join_text(lines.map_values(|l: LineV| enc_line(l))) == lines_text(lines),
    decreases lines.len(),
{
    let enc = lines.map_values(|l: LineV| enc_line(l));
    if lines.len() == 0 {
        assert(join_text(enc) =~= lines_text(lines));
    } else {
        assert(enc[0] == enc_line(lines[0]));
        assert(enc.skip(1) =~= lines.skip(1).map_values(|l: LineV| enc_line(l)));
        lemma_join_enc(lines.skip(1));
        assert(join_text(enc) =~= lines_text(lines));
    }
}

} // verus!
