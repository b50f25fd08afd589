//! The laws of the on-disk format, ending in the round trip: decoding an
//! encoded table gives the table back.

use vstd::prelude::*;
use crate::is_delim;
use crate::no_quote;
use crate::table_manager::lexer::{run_len, spec_tokenize, tok};
use crate::db::dec::{dec_of_text, decimal_text};
use crate::db::field::FieldV;
use crate::db::field_type::{type_tag, value_faithful, value_text, ValueV};
use crate::db::ids::{uuid_faithful, uuid_of_text, uuid_text};
use crate::db::line::LineV;
use crate::db::num::lemma_parse_int_text;
use crate::db::ts::{ts_of_text, ts_text, ts_wf};
use crate::db::db_error::ErrV;
use crate::table_manager::line_to_str::{enc_field, enc_fields, enc_line, escape, lemma_escape_concat};
use crate::table_manager::parser::{
    sp_field, sp_fields, sp_make_value, sp_parse, sp_record, sp_records, sp_space, sp_value,
};

verus! {
/// Tokenizing a delimiter-free run bounded by a following delimiter yields
/// the run as one token.
pub proof fn lemma_tok_run(w: Seq<char>, b: Seq<char>)
    requires
        w.len() > 0,
        forall|i: int| 0 <= i < w.len() ==> !is_delim(#[trigger] w[i]),
        b.len() > 0,
        is_delim(b[0]),
    ensures
        tok(w + b) == seq![w] + tok(b),
{
    let t = w + b;
    assert(t[0] == w[0]);
    assert(forall|i: int| 0 <= i < w.len() ==> t[i] == w[i]);
    assert(t[w.len() as int] == b[0]);
    crate::table_manager::lexer::lemma_run_len_at(t, 1, w.len() as int);
    assert(t.skip(1).skip(0) =~= t.skip(1));
    assert(run_len(t.skip(1)) == w.len() - 1);
    let k = 1 + run_len(t.skip(1));
    assert(k == w.len());
    assert(k < t.len());
    assert(t.take(k as int) =~= w);
    assert(t.skip(k as int) =~= b);
}

/// Tokenizing one delimiter yields it as one token.
pub proof fn lemma_tok_delim(d: char, b: Seq<char>)
    requires
        is_delim(d),
    ensures
        tok(seq![d] + b) == seq![seq![d]] + tok(b),
{
    let t = seq![d] + b;
    assert(t[0] == d);
    assert(t.skip(1) =~= b);
}

/// A field name the on-disk format can carry: nonempty and free of the
/// delimiter characters.
pub open spec fn name_ok(name: Seq<char>) -> bool {
    name.len() > 0 && forall|i: int| 0 <= i < name.len() ==> !is_delim(#[trigger] name[i])
}

/// A field the on-disk format can carry faithfully.
pub open spec fn field_encodable(f: FieldV) -> bool {
    name_ok(f.name) && value_faithful(f.value)
}

/// The record's identifier and values read back from their renderings.
pub open spec fn line_faithful(l: LineV) -> bool {
    &&& uuid_faithful(l.id)
    &&& forall|i: int| 0 <= i < l.fields.len() ==> value_faithful((#[trigger] l.fields[i]).value)
}

/// Every field name of the record is one the format can carry.
pub open spec fn line_names_ok(l: LineV) -> bool {
    forall|i: int| 0 <= i < l.fields.len() ==> name_ok((#[trigger] l.fields[i]).name)
}

/// A record the on-disk format can carry faithfully.
pub open spec fn line_encodable(l: LineV) -> bool {
    line_faithful(l) && line_names_ok(l)
}

/// Escaping leaves quote-free text as it is.
pub proof fn lemma_escape_id(w: Seq<char>)
    requires
        no_quote(w),
    ensures
        escape(w) == w,
    decreases w.len(),
{
    if w.len() == 0 {
        assert(escape(w) =~= w);
    } else {
        lemma_escape_id(w.skip(1));
        assert(escape(w) =~= seq![w[0]] + w.skip(1));
        assert(seq![w[0]] + w.skip(1) =~= w);
    }
}

/// Reading a quoted value back from the tokens of its escaped text gives the
/// value, and leaves the tokens of what follows the closing quote.
pub proof fn lemma_sp_value_enc(v: Seq<char>, acc: Seq<char>, rest: Seq<char>)
    requires
        rest.len() > 0,
        is_delim(rest[0]),
        rest[0] != '"',
    ensures
        sp_value(tok(escape(v) + seq!['"'] + rest), acc) == Ok::<_, ErrV>((acc + v, tok(rest))),
    decreases v.len(),
{
    reveal_strlit("\"");
    assert("\""@ =~= seq!['"']);
    if v.len() == 0 {
        assert(escape(v) + seq!['"'] + rest =~= seq!['"'] + rest);
        lemma_tok_delim('"', rest);
        let toks = tok(escape(v) + seq!['"'] + rest);
        assert(toks =~= seq![seq!['"']] + tok(rest));
        assert(toks[0] == "\""@);
        assert(is_delim(rest[0]) && rest[0] != '"');
        assert(tok(rest)[0] =~= seq![rest[0]]);
        assert(toks[1] == seq![rest[0]]);
        assert(toks[1] != "\""@) by {
            if toks[1] == "\""@ {
                assert(seq![rest[0]][0] == '"');
            }
        }
        assert(toks.skip(1) =~= tok(rest));
        assert(acc + v =~= acc);
    } else if v[0] == '"' {
        let v2 = v.skip(1);
        let cont = escape(v2) + seq!['"'] + rest;
        assert(escape(v) =~= seq!['"', '"'] + escape(v2));
        assert(escape(v) + seq!['"'] + rest =~= seq!['"'] + (seq!['"'] + cont));
        lemma_tok_delim('"', seq!['"'] + cont);
        lemma_tok_delim('"', cont);
        let toks = tok(escape(v) + seq!['"'] + rest);
        assert(toks =~= seq![seq!['"']] + (seq![seq!['"']] + tok(cont)));
        assert(toks[0] == "\""@ && toks.len() >= 2 && toks[1] == "\""@);
        assert(toks.skip(2) =~= tok(cont));
        lemma_sp_value_enc(v2, acc.push('"'), rest);
        assert(acc.push('"') + v2 =~= acc + v);
    } else if is_delim(v[0]) {
        let v2 = v.skip(1);
        let cont = escape(v2) + seq!['"'] + rest;
        assert(escape(v) =~= seq![v[0]] + escape(v2));
        assert(escape(v) + seq!['"'] + rest =~= seq![v[0]] + cont);
        lemma_tok_delim(v[0], cont);
        let toks = tok(escape(v) + seq!['"'] + rest);
        assert(toks =~= seq![seq![v[0]]] + tok(cont));
        assert(toks[0] != "\""@) by {
            if toks[0] == "\""@ {
                assert(seq![v[0]][0] == '"');
            }
        }
        assert(toks.skip(1) =~= tok(cont));
        lemma_sp_value_enc(v2, acc + seq![v[0]], rest);
        assert(acc + seq![v[0]] + v2 =~= acc + v);
        assert(toks[0] == seq![v[0]]);
    } else {
        let k = run_len(v) as int;
        lemma_run_len_bounds(v);
        let w = v.take(k);
        let v2 = v.skip(k);
        assert(forall|i: int| 0 <= i < k ==> !is_delim(#[trigger] v[i]));
        assert(forall|i: int| 0 <= i < w.len() ==> !is_delim(#[trigger] w[i]));
        assert(no_quote(w));
        lemma_escape_id(w);
        lemma_escape_concat(w, v2);
        assert(w + v2 =~= v);
        assert(escape(v) =~= w + escape(v2));
        let cont = escape(v2) + seq!['"'] + rest;
        assert(escape(v) + seq!['"'] + rest =~= w + cont);
        assert(cont.len() > 0);
        assert(is_delim(cont[0])) by {
            if v2.len() == 0 {
                assert(escape(v2) =~= Seq::<char>::empty());
                assert(cont =~= seq!['"'] + rest);
                assert(cont[0] == '"');
            } else {
                assert(v2[0] == v[k]);
                assert(is_delim(v2[0]));
                if v2[0] == '"' {
                    assert(escape(v2) =~= seq!['"', '"'] + escape(v2.skip(1)));
                    assert(cont[0] == '"');
                } else {
                    assert(escape(v2) =~= seq![v2[0]] + escape(v2.skip(1)));
                    assert(cont[0] == v2[0]);
                }
            }
        }
        lemma_tok_run(w, cont);
        let toks = tok(escape(v) + seq!['"'] + rest);
        assert(toks =~= seq![w] + tok(cont));
        assert(toks[0] == w);
        assert(toks[0] != "\""@) by {
            if toks[0] == "\""@ {
                assert(w[0] == '"');
            }
        }
        assert(toks.skip(1) =~= tok(cont));
        lemma_sp_value_enc(v2, acc + w, rest);
        assert(acc + w + v2 =~= acc + v);
    }
}

/// The run length never exceeds the text, stops at a delimiter, and covers
/// only delimiter-free characters.
pub proof fn lemma_run_len_bounds(s: Seq<char>)
    ensures
        run_len(s) <= s.len(),
        run_len(s) < s.len() ==> is_delim(s[run_len(s) as int]),
        forall|i: int| 0 <= i < run_len(s) ==> !is_delim(#[trigger] s[i]),
        s.len() > 0 && !is_delim(s[0]) ==> run_len(s) >= 1,
    decreases s.len(),
{
    if s.len() > 0 && !is_delim(s[0]) {
        lemma_run_len_bounds(s.skip(1));
        assert(forall|i: int| 1 <= i < s.len() ==> s[i] == s.skip(1)[i - 1]);
    }
}

/// A built value reads back from its canonical text under its own type tag.
pub proof fn lemma_make_value_enc(v: ValueV)
    requires
        value_faithful(v),
    ensures
        sp_make_value(value_text(v), type_tag(v)) == Ok::<_, ErrV>(v),
        type_tag(v).len() > 0,
        forall|i: int| 0 <= i < type_tag(v).len() ==> !is_delim(#[trigger] type_tag(v)[i]),
{
    reveal_strlit("string");
    reveal_strlit("integer");
    reveal_strlit("decimal");
    reveal_strlit("boolean");
    reveal_strlit("datetime");
    reveal_strlit("true");
    reveal_strlit("false");
    lemma_tag_chars();
    assert("integer"@ != "decimal"@) by {
        if "integer"@ == "decimal"@ {
            assert("integer"@[0] == "decimal"@[0]);
        }
    }
    assert("integer"@ != "boolean"@) by {
        if "integer"@ == "boolean"@ {
            assert("integer"@[0] == "boolean"@[0]);
        }
    }
    assert("decimal"@ != "boolean"@) by {
        if "decimal"@ == "boolean"@ {
            assert("decimal"@[0] == "boolean"@[0]);
        }
    }
    match v {
        ValueV::Str(_) => {},
        ValueV::Integer(i) => {
            lemma_parse_int_text(i);
        },
        ValueV::Decimal(_) => {},
        ValueV::Boolean(b) => {
            if !b {
                assert(value_text(v) == "false"@);
                assert("false"@ != "true"@) by {
                    assert("false"@.len() == 5 && "true"@.len() == 4);
                }
            }
        },
        ValueV::DateTime(_) => {},
    }
}

/// No character of a type tag is a delimiter.
proof fn lemma_tag_chars()
    ensures
        forall|i: int| 0 <= i < "string"@.len() ==> !is_delim(#[trigger] "string"@[i]),
        forall|i: int| 0 <= i < "integer"@.len() ==> !is_delim(#[trigger] "integer"@[i]),
        forall|i: int| 0 <= i < "decimal"@.len() ==> !is_delim(#[trigger] "decimal"@[i]),
        forall|i: int| 0 <= i < "boolean"@.len() ==> !is_delim(#[trigger] "boolean"@[i]),
        forall|i: int| 0 <= i < "datetime"@.len() ==> !is_delim(#[trigger] "datetime"@[i]),
        "string"@.len() > 0,
        "integer"@.len() > 0,
        "decimal"@.len() > 0,
        "boolean"@.len() > 0,
        "datetime"@.len() > 0,
{
    reveal_strlit("string");
    reveal_strlit("integer");
    reveal_strlit("decimal");
    reveal_strlit("boolean");
    reveal_strlit("datetime");
}

/// Reading one field back from the tokens of its encoding gives the field,
/// and leaves the tokens of what follows, less one leading space.
pub proof fn lemma_sp_field_enc(f: FieldV, rest: Seq<char>)
    requires
        field_encodable(f),
        rest.len() > 0,
        is_delim(rest[0]),
        rest[0] != '"',
    ensures
        tok(enc_field(f) + rest).len() > 0,
        tok(enc_field(f) + rest)[0] == f.name,
        sp_field(tok(enc_field(f) + rest)) == Ok::<_, ErrV>((f, sp_space(tok(rest)))),
{
    reveal_strlit(":");
    reveal_strlit("\"");
    reveal_strlit(":\"");
    reveal_strlit("\":");
    let vt = value_text(f.value);
    let tg = type_tag(f.value);
    lemma_make_value_enc(f.value);
    let b4 = seq![':'] + (tg + rest);
    let b3 = escape(vt) + (seq!['"'] + b4);
    let b2 = seq!['"'] + b3;
    let b1 = seq![':'] + b2;
    assert(enc_field(f) + rest =~= f.name + b1);
    lemma_tok_run(f.name, b1);
    lemma_tok_delim(':', b2);
    lemma_tok_delim('"', b3);
    assert(b3 =~= escape(vt) + seq!['"'] + b4);
    lemma_sp_value_enc(vt, Seq::empty(), b4);
    lemma_tok_delim(':', tg + rest);
    lemma_tok_run(tg, rest);
    let t0 = tok(enc_field(f) + rest);
    assert(t0 =~= seq![f.name] + (seq![seq![':']] + (seq![seq!['"']] + tok(b3))));
    assert(t0.len() > 0 && t0[0] == f.name);
    assert(":"@ =~= seq![':']);
    assert("\""@ =~= seq!['"']);
    assert(t0.skip(1) =~= seq![seq![':']] + (seq![seq!['"']] + tok(b3)));
    assert(t0.skip(1)[0] == ":"@);
    let t2 = t0.skip(1).skip(1);
    assert(t2 =~= seq![seq!['"']] + tok(b3));
    assert(t2[0] == "\""@);
    let t3 = t2.skip(1);
    assert(t3 =~= tok(b3));
    assert(sp_value(t3, Seq::empty()) == Ok::<_, ErrV>((Seq::empty() + vt, tok(b4))));
    assert(Seq::empty() + vt =~= vt);
    let t4 = tok(b4);
    assert(t4 =~= seq![seq![':']] + tok(tg + rest));
    assert(t4[0] == ":"@);
    let t5 = t4.skip(1);
    assert(t5 =~= tok(tg + rest));
    assert(t5 =~= seq![tg] + tok(rest));
    assert(t5[0] == tg);
    assert(t5.skip(1) =~= tok(rest));
    assert(sp_make_value(vt, tg) == Ok::<_, ErrV>(f.value));
    assert(FieldV { name: f.name, value: f.value } == f);
    assert(sp_field(t0) == Ok::<_, ErrV>((f, sp_space(tok(rest)))));
}

/// Reading the fields back from the tokens of their encoding gives the
/// fields, and leaves the tokens of what follows.
pub proof fn lemma_sp_fields_enc(fields: Seq<FieldV>, rest: Seq<char>)
    requires
        forall|i: int| 0 <= i < fields.len() ==> field_encodable(#[trigger] fields[i]),
        rest.len() > 0,
        rest[0] == ']',
    ensures
        sp_fields(sp_space(tok(enc_fields(fields) + rest))) == Ok::<_, ErrV>(
            (fields, tok(rest)),
        ),
    decreases fields.len(),
{
    reveal_strlit(" ");
    reveal_strlit("]");
    assert(" "@ =~= seq![' ']);
    assert("]"@ =~= seq![']']);
    if fields.len() == 0 {
        assert(enc_fields(fields) + rest =~= rest);
        assert(tok(rest) =~= seq![seq![rest[0]]] + tok(rest.skip(1)));
        assert(tok(rest)[0] == seq![']']);
        assert(tok(rest)[0] != " "@) by {
            if tok(rest)[0] == " "@ {
                assert(seq![']'][0] == ' ');
            }
        }
        assert(sp_space(tok(rest)) == tok(rest));
        assert(tok(rest)[0] == "]"@);
        assert(sp_fields(tok(rest)) == Ok::<_, ErrV>((Seq::<FieldV>::empty(), tok(rest))));
        assert(Seq::<FieldV>::empty() =~= fields);
    } else {
        let f0 = fields[0];
        let fs = fields.skip(1);
        let rest2 = enc_fields(fs) + rest;
        assert(enc_fields(fields) =~= " "@ + enc_field(f0) + enc_fields(fs));
        assert(enc_fields(fields) + rest =~= seq![' '] + (enc_field(f0) + rest2));
        lemma_tok_delim(' ', enc_field(f0) + rest2);
        let whole = tok(enc_fields(fields) + rest);
        assert(whole =~= seq![seq![' ']] + tok(enc_field(f0) + rest2));
        assert(whole[0] == " "@);
        assert(sp_space(whole) =~= tok(enc_field(f0) + rest2));
        assert(rest2.len() > 0 && is_delim(rest2[0]) && rest2[0] != '"') by {
            if fs.len() == 0 {
                assert(enc_fields(fs) =~= Seq::<char>::empty());
                assert(rest2 =~= rest);
            } else {
                assert(enc_fields(fs) =~= " "@ + enc_field(fs[0]) + enc_fields(fs.skip(1)));
                assert(rest2[0] == ' ');
            }
        }
        lemma_sp_field_enc(f0, rest2);
        let stream = tok(enc_field(f0) + rest2);
        assert(stream[0] == f0.name);
        assert(stream[0] != "]"@) by {
            if stream[0] == "]"@ {
                assert(f0.name[0] == ']');
            }
        }
        assert(forall|i: int| 0 <= i < fs.len() ==> fs[i] == fields[i + 1]);
        lemma_sp_fields_enc(fs, rest);
        assert(sp_fields(sp_space(tok(enc_fields(fs) + rest))) == Ok::<_, ErrV>(
            (fs, tok(rest)),
        ));
        assert(sp_field(stream) == Ok::<_, ErrV>((f0, sp_space(tok(rest2)))));
        assert(sp_fields(stream) == Ok::<_, ErrV>((seq![f0] + fs, tok(rest))));
        assert(seq![f0] + fs =~= fields);
    }
}

/// Reading one record back from the tokens of its encoding gives the
/// record, and leaves the tokens of what follows.
#[verifier::rlimit(100)]
pub proof fn lemma_sp_record_enc(l: LineV, rest: Seq<char>)
    requires
        line_encodable(l),
        rest.len() == 0 || rest[0] == '[',
    ensures
        tok(enc_line(l) + rest).len() > 0,
        tok(enc_line(l) + rest)[0] == "["@,
        sp_record(tok(enc_line(l) + rest)) == Ok::<_, ErrV>((l, tok(rest))),
{
    reveal_strlit("[");
    reveal_strlit("]");
    reveal_strlit(":");
    reveal_strlit("\"");
    reveal_strlit("_id");
    reveal_strlit("[_id:\"");
    assert("["@ =~= seq!['[']);
    assert("]"@ =~= seq![']']);
    assert(":"@ =~= seq![':']);
    assert("\""@ =~= seq!['"']);
    let id_text = uuid_text(l.id);
    let b6 = seq![']'] + rest;
    let b5 = enc_fields(l.fields) + b6;
    let b4p = seq!['"'] + b5;
    let b4 = id_text + b4p;
    let b3 = seq!['"'] + b4;
    let b2 = seq![':'] + b3;
    let b1 = "_id"@ + b2;
    assert("[_id:\""@ =~= seq!['['] + ("_id"@ + (seq![':'] + seq!['"'])));
    assert(enc_line(l) + rest =~= seq!['['] + b1);
    lemma_tok_delim('[', b1);
    assert(forall|i: int| 0 <= i < "_id"@.len() ==> !is_delim(#[trigger] "_id"@[i]));
    lemma_tok_run("_id"@, b2);
    lemma_tok_delim(':', b3);
    lemma_tok_delim('"', b4);
    lemma_tok_run(id_text, b4p);
    lemma_tok_delim('"', b5);
    let t0 = tok(enc_line(l) + rest);
    assert(t0 =~= seq![seq!['[']] + (seq!["_id"@] + (seq![seq![':']] + (seq![seq!['"']] + (seq![
        id_text,
    ] + (seq![seq!['"']] + tok(b5)))))));
    assert(t0.len() > 0 && t0[0] == "["@);
    assert(t0.skip(1) =~= seq!["_id"@] + (seq![seq![':']] + (seq![seq!['"']] + (seq![id_text]
        + (seq![seq!['"']] + tok(b5))))));
    let ta = t0.skip(1).skip(1);
    assert(ta =~= seq![seq![':']] + (seq![seq!['"']] + (seq![id_text] + (seq![seq!['"']] + tok(
        b5,
    )))));
    let tb = ta.skip(1);
    assert(tb =~= seq![seq!['"']] + (seq![id_text] + (seq![seq!['"']] + tok(b5))));
    let tc = tb.skip(1);
    assert(tc =~= seq![id_text] + (seq![seq!['"']] + tok(b5)));
    assert(tc.len() > 0 && tc[0] == id_text);
    let td = tc.skip(1);
    assert(td =~= seq![seq!['"']] + tok(b5));
    let te = td.skip(1);
    assert(te =~= tok(b5));
    lemma_sp_fields_enc(l.fields, b6);
    assert(sp_fields(sp_space(tok(enc_fields(l.fields) + b6))) == Ok::<_, ErrV>(
        (l.fields, tok(b6)),
    ));
    lemma_tok_delim(']', rest);
    assert(tok(b6) =~= seq![seq![']']] + tok(rest));
    assert(tok(b6)[0] == "]"@);
    assert(tok(b6).skip(1) =~= tok(rest));
    assert(uuid_of_text(id_text) == Some(l.id));
    assert(LineV { id: l.id, fields: l.fields } == l);
    assert(sp_record(t0) == Ok::<_, ErrV>((l, tok(rest))));
}

/// The text of a table's records: each record's line, in order, with no
/// separator.
pub open spec fn lines_text(lines: Seq<LineV>) -> Seq<char>
    decreases lines.len(),
{
    if lines.len() == 0 {
        Seq::empty()
    } else {
        enc_line(lines[0]) + lines_text(lines.skip(1))
    }
}

/// Every record of the sequence is encodable.
pub open spec fn lines_encodable(lines: Seq<LineV>) -> bool {
    forall|i: int| 0 <= i < lines.len() ==> line_encodable(#[trigger] lines[i])
}

/// Reading the records back from the tokens of their text gives the
/// records.
pub proof fn lemma_sp_records_enc(lines: Seq<LineV>)
    requires
        lines_encodable(lines),
    ensures
        sp_records(tok(lines_text(lines))) == Ok::<_, ErrV>(lines),
    decreases lines.len(),
{
    reveal_strlit("[_id:\"");
    if lines.len() == 0 {
        assert(tok(lines_text(lines)) =~= Seq::<Seq<char>>::empty());
        assert(Seq::<LineV>::empty() =~= lines);
    } else {
        let l0 = lines[0];
        let fs = lines.skip(1);
        let rest = lines_text(fs);
        assert(rest.len() == 0 || rest[0] == '[') by {
            if fs.len() > 0 {
                assert(rest =~= enc_line(fs[0]) + lines_text(fs.skip(1)));
                assert(enc_line(fs[0])[0] == "[_id:\""@[0]);
                assert(rest[0] == '[');
            }
        }
        lemma_sp_record_enc(l0, rest);
        assert(forall|i: int| 0 <= i < fs.len() ==> fs[i] == lines[i + 1]);
        lemma_sp_records_enc(fs);
        let stream = tok(lines_text(lines));
        assert(lines_text(lines) =~= enc_line(l0) + rest);
        assert(stream.len() > 0 && stream[0] == "["@);
        assert(sp_records(stream) == Ok::<_, ErrV>(seq![l0] + fs));
        assert(seq![l0] + fs =~= lines);
    }
}

/// The whole on-disk text of a table: the version marker, then the records.
pub open spec fn table_text(lines: Seq<LineV>) -> Seq<char> {
    crate::version_marker() + lines_text(lines)
}

/// THE ROUND TRIP: parsing the tokens of an encoded table gives the table's
/// records back, for every table whose field names are nonempty and free of
/// delimiter characters and whose values and identifiers read back from
/// their own renderings.
pub proof fn lemma_round_trip(lines: Seq<LineV>)
    requires
        lines_encodable(lines),
    ensures
        sp_parse(spec_tokenize(table_text(lines))) == Ok::<_, ErrV>(lines),
{
    reveal_strlit("#v1.0#");
    reveal_strlit("#");
    reveal_strlit("v1.0");
    assert("#"@ =~= seq!['#']);
    let full = table_text(lines);
    let lt = lines_text(lines);
    assert("#v1.0#"@ =~= seq!['#'] + ("v1.0"@ + (seq!['#'] + Seq::<char>::empty())));
    assert(full =~= seq!['#'] + ("v1.0"@ + (seq!['#'] + lt)));
    assert(full[0] == '#');
    assert(spec_tokenize(full) == tok(full));
    lemma_tok_delim('#', "v1.0"@ + (seq!['#'] + lt));
    assert(forall|i: int| 0 <= i < "v1.0"@.len() ==> !is_delim(#[trigger] "v1.0"@[i]));
    lemma_tok_run("v1.0"@, seq!['#'] + lt);
    lemma_tok_delim('#', lt);
    let toks = tok(full);
    assert(toks =~= seq![seq!['#']] + (seq!["v1.0"@] + (seq![seq!['#']] + tok(lt))));
    assert(toks[0] == "#"@);
    assert(toks.skip(1) =~= seq!["v1.0"@] + (seq![seq!['#']] + tok(lt)));
    let t1 = toks.skip(1);
    assert(t1[0] == "v1.0"@);
    let t2 = t1.skip(1);
    assert(t2 =~= seq![seq!['#']] + tok(lt));
    assert(t2[0] == "#"@);
    let t3 = t2.skip(1);
    assert(t3 =~= tok(lt));
    lemma_sp_records_enc(lines);
    assert(sp_parse(toks) == sp_records(t3));
}

} // verus!
