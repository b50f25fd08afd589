//! The encoder: one record to one line of on-disk text.
//!
//! A record renders as `[_id:"<uuid>" name:"value":type ...]`, with a single
//! space before each field and every literal `"` inside a value doubled.

use vstd::prelude::*;
use crate::db::field::FieldV;
use crate::db::field_type::{type_tag, value_text};
use crate::db::field_type::value_faithful;
use crate::db::ids::{uuid_faithful, uuid_text, uuid_to_string};
use crate::db::line::{Line, LineV};

verus! {

/// The escaping of a value for storage: every `"` is doubled; every other
/// character stands as it is.
pub open spec fn escape(s: Seq<char>) -> Seq<char>
    decreases s.len(),
{
    if s.len() == 0 {
        Seq::empty()
    } else {
        (if s[0] == '"' {
            seq!['"', '"']
        } else {
            seq![s[0]]
        }) + escape(s.skip(1))
    }
}

/// Escaping distributes over concatenation.
pub proof fn lemma_escape_concat(a: Seq<char>, b: Seq<char>)
    ensures
        escape(a + b) == escape(a) + escape(b),
    decreases a.len(),
{
    if a.len() == 0 {
        assert(a + b =~= b);
        assert(escape(a) + escape(b) =~= escape(b));
    } else {
        assert((a + b).skip(1) =~= a.skip(1) + b);
        lemma_escape_concat(a.skip(1), b);
        assert(escape(a + b) =~= escape(a) + escape(b));
    }
}

/// The on-disk text of one field: `name:"escaped-value":type`.
pub open spec fn enc_field(f: FieldV) -> Seq<char> {
    f.name + ":\""@ + escape(value_text(f.value)) + "\":"@ + type_tag(f.value)
}

/// The on-disk text of a record's fields, each preceded by one space.
pub open spec fn enc_fields(fields: Seq<FieldV>) -> Seq<char>
    decreases fields.len(),
{
    if fields.len() == 0 {
        Seq::empty()
    } else {
        " "@ + enc_field(fields[0]) + enc_fields(fields.skip(1))
    }
}

/// Appending one field appends its encoding.
pub proof fn lemma_enc_fields_push(fields: Seq<FieldV>, f: FieldV)
    ensures
        enc_fields(fields.push(f)) == enc_fields(fields) + " "@ + enc_field(f),
    decreases fields.len(),
{
    if fields.len() == 0 {
        assert(fields.push(f)[0] == f);
        assert(fields.push(f).skip(1) =~= Seq::<FieldV>::empty());
        assert(enc_fields(Seq::<FieldV>::empty()) =~= Seq::<char>::empty());
        assert(enc_fields(fields.push(f)) =~= enc_fields(fields) + " "@ + enc_field(f));
    } else {
        assert(fields.push(f).skip(1) =~= fields.skip(1).push(f));
        assert(fields.push(f)[0] == fields[0]);
        lemma_enc_fields_push(fields.skip(1), f);
        assert(enc_fields(fields.push(f)) =~= enc_fields(fields) + " "@ + enc_field(f));
    }
}

/// The on-disk text of one record.
pub open spec fn enc_line(l: LineV) -> Seq<char> {
    "[_id:\""@ + uuid_text(l.id) + "\""@ + enc_fields(l.fields) + "]"@
}

/// Escapes a value for storage.
#[verifier::loop_isolation(false)]
pub fn escape_str(s: &str) -> (r: String)
    ensures
        r@ == escape(s@),
{
    let n = s.unicode_len();
    let mut out = String::new();
    let mut i: usize = 0;
    while i < n
        invariant
            0 <= i <= n,
            out@ == escape(s@.take(i as int)),
        decreases n - i,
    {
        let c = s.get_char(i);
        if c == '"' {
            out.append("\"\"");
        } else {
            out.append(s.substring_char(i, i + 1));
        }
        proof {
            reveal_strlit("\"\"");
            assert(s@.take(i + 1) =~= s@.take(i as int) + seq![s@[i as int]]);
            lemma_escape_concat(s@.take(i as int), seq![s@[i as int]]);
            assert(seq![s@[i as int]].skip(1) =~= Seq::<char>::empty());
            assert(escape(Seq::<char>::empty()) =~= Seq::<char>::empty());
            if c == '"' {
                assert(escape(seq![s@[i as int]]) =~= seq!['"', '"']);
                assert("\"\""@ =~= seq!['"', '"']);
            } else {
                assert(escape(seq![s@[i as int]]) =~= seq![s@[i as int]]);
                assert(s@.subrange(i as int, i + 1) =~= seq![s@[i as int]]);
            }
        }
        i += 1;
    }
    proof {
        assert(s@.take(n as int) =~= s@);
    }
    out
}

/// Converts a record to its on-disk line. Encoding also shows that the
/// identifier and every value read back from the rendered text.
#[verifier::loop_isolation(false)]
pub fn line_to_str(line: &Line) -> (r: String)
    ensures
        r@ == enc_line(line@),
        uuid_faithful(line@.id),
        forall|i: int|
            0 <= i < line@.fields.len() ==> value_faithful((#[trigger] line@.fields[i]).value),
{
    let mut out = String::from_str("[_id:\"");
    let id_text = uuid_to_string(line.get_id());
    out.append(id_text.as_str());
    out.append("\"");
    proof {
        reveal_strlit("[_id:\"");
        reveal_strlit("\"");
        assert(out@ =~= "[_id:\""@ + uuid_text(line@.id) + "\""@);
    }
    let fields = line.get_fields();
    let n = fields.len();
    let ghost fv = line@.fields;
    let mut i: usize = 0;
    while i < n
        invariant
            0 <= i <= n,
            n == fv.len(),
            crate::db::line::fields_view(fields@) == fv,
            out@ == "[_id:\""@ + uuid_text(line@.id) + "\""@ + enc_fields(fv.take(i as int)),
            forall|k: int| 0 <= k < i ==> value_faithful((#[trigger] fv[k]).value),
        decreases n - i,
    {
        let f = &fields[i];
        out.append(" ");
        out.append(f.get_name());
        out.append(":\"");
        let value_str = f.get().to_string();
        let escaped = escape_str(value_str.as_str());
        out.append(escaped.as_str());
        out.append("\":");
        let tag = f.get().get_type();
        out.append(tag.as_str());
        proof {
            reveal_strlit(" ");
            reveal_strlit(":\"");
            reveal_strlit("\":");
            assert(f@ == fv[i as int]);
            assert(fv.take(i + 1) =~= fv.take(i as int).push(fv[i as int]));
            lemma_enc_fields_push(fv.take(i as int), fv[i as int]);
            assert(out@ =~= "[_id:\""@ + uuid_text(line@.id) + "\""@ + enc_fields(fv.take(i + 1)));
        }
        i += 1;
    }
    out.append("]");
    proof {
        reveal_strlit("]");
        assert(fv.take(n as int) =~= fv);
        assert(out@ =~= enc_line(line@));
    }
    out
}

} // verus!
