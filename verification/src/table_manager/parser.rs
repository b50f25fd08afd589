//! The parser of the on-disk format: a token-stream state machine that
//! rebuilds the format-version tag and the records, or fails with a precise
//! diagnostic naming the expected and the received token.

use vstd::prelude::*;
use crate::db::db_error::{DbError, ErrV};
use crate::db::dec::{Dec, DecV, dec_of_text};
use crate::db::field::{Field, FieldV};
use crate::db::field_type::{Type, ValueV};
use crate::db::ids::{parse_uuid, uuid_of_text};
use crate::db::line::{Line, LineV, fields_view};
use crate::db::num::{parse_i64, parse_i64_str};
use crate::db::table::lines_view;
use crate::db::ts::{Ts, ts_of_text, ts_wf};
use crate::table_manager::lexer::{expected_msg, Lexer};
use crate::text::str_eq;

verus! {

/// The current token, or the empty text at exhaustion, as diagnostics
/// render it.
pub open spec fn peek_or_empty(toks: Seq<Seq<char>>) -> Seq<char> {
    if toks.len() > 0 {
        toks[0]
    } else {
        Seq::empty()
    }
}

/// The message of the diagnostic for consuming past the end of the tokens.
pub open spec fn none_msg() -> Seq<char> {
    "Expected to receive a value, but received None"@
}

/// The message of the diagnostic for an unterminated value.
pub open spec fn unterminated_msg(acc: Seq<char>) -> Seq<char> {
    "Could not find the end of the value ["@ + acc + "]"@
}

/// The message of the diagnostic for an unsupported type tag.
pub open spec fn unsupported_msg(tag: Seq<char>) -> Seq<char> {
    "The type ["@ + tag + "] is not supported"@
}

/// The message of the diagnostic for a token where a record must start.
pub open spec fn unexpected_msg(t: Seq<char>) -> Seq<char> {
    "Unexpected token! ["@ + t + "]"@
}

/// The message of the diagnostic for an id that is not a UUID.
pub open spec fn bad_uuid_msg(id: Seq<char>) -> Seq<char> {
    "The id ["@ + id + "] is not a valid UUID"@
}

/// The message of the diagnostic for value text that its type tag rejects.
pub open spec fn bad_value_msg(val: Seq<char>, tag: Seq<char>) -> Seq<char> {
    "The value ["@ + val + "] is not a valid "@ + tag
}

/// Demands one exact token: the rest of the tokens on a match, the
/// `UnexpectedToken` diagnostic otherwise.
pub open spec fn sp_expect(toks: Seq<Seq<char>>, x: Seq<char>) -> Result<Seq<Seq<char>>, ErrV> {
    if toks.len() > 0 && toks[0] == x {
        Ok(toks.skip(1))
    } else {
        Err(ErrV::UnexpectedToken(expected_msg(x, peek_or_empty(toks))))
    }
}

/// Skips one space token, if present.
pub open spec fn sp_space(toks: Seq<Seq<char>>) -> Seq<Seq<char>> {
    if toks.len() > 0 && toks[0] == " "@ {
        toks.skip(1)
    } else {
        toks
    }
}

/// Reads a quoted value after its opening quote: a `"` followed by another
/// `"` adds one literal `"`; a lone `"` ends the value; any other token is
/// appended verbatim; exhaustion is `UnterminatedValue`.
pub open spec fn sp_value(toks: Seq<Seq<char>>, acc: Seq<char>) -> Result<
    (Seq<char>, Seq<Seq<char>>),
    ErrV,
>
    decreases toks.len(),
{
    if toks.len() == 0 {
        Err(ErrV::UnterminatedValue(unterminated_msg(acc)))
    } else if toks[0] == "\""@ {
        if toks.len() >= 2 && toks[1] == "\""@ {
            sp_value(toks.skip(2), acc.push('"'))
        } else {
            Ok((acc, toks.skip(1)))
        }
    } else {
        sp_value(toks.skip(1), acc + toks[0])
    }
}

/// Builds a typed value from its text and its type tag, or rejects the tag
/// or the text.
pub open spec fn sp_make_value(val: Seq<char>, tag: Seq<char>) -> Result<ValueV, ErrV> {
    if tag == "string"@ {
        Ok(ValueV::Str(val))
    } else if tag == "integer"@ {
        match parse_i64(val) {
            Some(i) => Ok(ValueV::Integer(i)),
            None => Err(ErrV::Custom(bad_value_msg(val, tag))),
        }
    } else if tag == "decimal"@ {
        match dec_of_text(val) {
            Some((neg, mantissa, scale)) => {
                if (DecV { neg, mantissa, scale }).wf() {
                    Ok(ValueV::Decimal(DecV { neg, mantissa, scale }))
                } else {
                    Err(ErrV::Custom(bad_value_msg(val, tag)))
                }
            },
            None => Err(ErrV::Custom(bad_value_msg(val, tag))),
        }
    } else if tag == "boolean"@ {
        Ok(ValueV::Boolean(val == "true"@))
    } else if tag == "datetime"@ {
        match ts_of_text(val) {
            Some(ms) => {
                if ts_wf(ms) {
                    Ok(ValueV::DateTime(ms))
                } else {
                    Err(ErrV::Custom(bad_value_msg(val, tag)))
                }
            },
            None => Err(ErrV::Custom(bad_value_msg(val, tag))),
        }
    } else {
        Err(ErrV::UnsupportedType(unsupported_msg(tag)))
    }
}

/// Reads one field: name, `:`, quoted value, `:`, type tag, then an
/// optional space.
pub open spec fn sp_field(toks: Seq<Seq<char>>) -> Result<(FieldV, Seq<Seq<char>>), ErrV> {
    if toks.len() == 0 {
        Err(ErrV::Custom(none_msg()))
    } else {
        let name = toks[0];
        match sp_expect(toks.skip(1), ":"@) {
            Err(e) => Err(e),
            Ok(t2) => match sp_expect(t2, "\""@) {
                Err(e) => Err(e),
                Ok(t3) => match sp_value(t3, Seq::empty()) {
                    Err(e) => Err(e),
                    Ok((val, t4)) => match sp_expect(t4, ":"@) {
                        Err(e) => Err(e),
                        Ok(t5) => {
                            if t5.len() == 0 {
                                Err(ErrV::Custom(none_msg()))
                            } else {
                                let tag = t5[0];
                                match sp_make_value(val, tag) {
                                    Err(e) => Err(e),
                                    Ok(v) => Ok(
                                        (FieldV { name, value: v }, sp_space(t5.skip(1))),
                                    ),
                                }
                            }
                        },
                    },
                },
            },
        }
    }
}

/// A value read never leaves more tokens than it was given, and consumes at
/// least the closing quote on success.
pub proof fn lemma_sp_value_consumes(toks: Seq<Seq<char>>, acc: Seq<char>)
    ensures
        sp_value(toks, acc) matches Ok((v, rest)) ==> rest.len() < toks.len(),
    decreases toks.len(),
{
    if toks.len() == 0 {
    } else if toks[0] == "\""@ {
        if toks.len() >= 2 && toks[1] == "\""@ {
            lemma_sp_value_consumes(toks.skip(2), acc.push('"'));
        }
    } else {
        lemma_sp_value_consumes(toks.skip(1), acc + toks[0]);
    }
}

/// A field read consumes at least one token on success.
pub proof fn lemma_sp_field_consumes(toks: Seq<Seq<char>>)
    ensures
        sp_field(toks) matches Ok((f, rest)) ==> rest.len() < toks.len(),
{
    if toks.len() > 0 {
        match sp_expect(toks.skip(1), ":"@) {
            Ok(t2) => match sp_expect(t2, "\""@) {
                Ok(t3) => lemma_sp_value_consumes(t3, Seq::empty()),
                Err(_) => (),
            },
            Err(_) => (),
        }
    }
}

/// Reads fields until a `]` token or exhaustion.
pub open spec fn sp_fields(toks: Seq<Seq<char>>) -> Result<(Seq<FieldV>, Seq<Seq<char>>), ErrV>
    decreases toks.len(),
    via sp_fields_decreases
{
    if toks.len() == 0 || toks[0] == "]"@ {
        Ok((Seq::empty(), toks))
    } else {
        match sp_field(toks) {
            Err(e) => Err(e),
            Ok((f, rest)) => match sp_fields(rest) {
                Err(e) => Err(e),
                Ok((fs, t2)) => Ok((seq![f] + fs, t2)),
            },
        }
    }
}

#[via_fn]
proof fn sp_fields_decreases(toks: Seq<Seq<char>>) {
    lemma_sp_field_consumes(toks);
}

/// The fields read never leave more tokens than they were given.
pub proof fn lemma_sp_fields_consumes(toks: Seq<Seq<char>>)
    ensures
        sp_fields(toks) matches Ok((fs, rest)) ==> rest.len() <= toks.len(),
    decreases toks.len(),
{
    if !(toks.len() == 0 || toks[0] == "]"@) {
        lemma_sp_field_consumes(toks);
        match sp_field(toks) {
            Ok((f, rest)) => lemma_sp_fields_consumes(rest),
            Err(_) => (),
        }
    }
}

/// Reads one record: `[`, the literal `_id`, `:`, the quoted id, an
/// optional space, the fields, then `]`. The id text must be a UUID.
pub open spec fn sp_record(toks: Seq<Seq<char>>) -> Result<(LineV, Seq<Seq<char>>), ErrV> {
    match sp_expect(toks, "["@) {
        Err(e) => Err(e),
        Ok(t1) => match sp_expect(t1, "_id"@) {
            Err(e) => Err(e),
            Ok(t2) => match sp_expect(t2, ":"@) {
                Err(e) => Err(e),
                Ok(t3) => match sp_expect(t3, "\""@) {
                    Err(e) => Err(e),
                    Ok(t4) => {
                        if t4.len() == 0 {
                            Err(ErrV::Custom(none_msg()))
                        } else {
                            let id_text = t4[0];
                            match sp_expect(t4.skip(1), "\""@) {
                                Err(e) => Err(e),
                                Ok(t5) => match sp_fields(sp_space(t5)) {
                                    Err(e) => Err(e),
                                    Ok((fs, t6)) => match uuid_of_text(id_text) {
                                        None => Err(ErrV::Custom(bad_uuid_msg(id_text))),
                                        Some(id) => match sp_expect(t6, "]"@) {
                                            Err(e) => Err(e),
                                            Ok(t7) => Ok((LineV { id, fields: fs }, t7)),
                                        },
                                    },
                                },
                            }
                        }
                    },
                },
            },
        },
    }
}

/// A record read consumes at least one token on success.
pub proof fn lemma_sp_record_consumes(toks: Seq<Seq<char>>)
    ensures
        sp_record(toks) matches Ok((l, rest)) ==> rest.len() < toks.len(),
{
    match sp_expect(toks, "["@) {
        Err(_) => (),
        Ok(t1) => match sp_expect(t1, "_id"@) {
            Err(_) => (),
            Ok(t2) => match sp_expect(t2, ":"@) {
                Err(_) => (),
                Ok(t3) => match sp_expect(t3, "\""@) {
                    Err(_) => (),
                    Ok(t4) => {
                        if t4.len() > 0 {
                            match sp_expect(t4.skip(1), "\""@) {
                                Err(_) => (),
                                Ok(t5) => lemma_sp_fields_consumes(sp_space(t5)),
                            }
                        }
                    },
                },
            },
        },
    }
}

/// Reads records while the next token opens one; any other token between
/// records is an error, and exhaustion ends the input.
pub open spec fn sp_records(toks: Seq<Seq<char>>) -> Result<Seq<LineV>, ErrV>
    decreases toks.len(),
    via sp_records_decreases
{
    if toks.len() == 0 {
        Ok(Seq::empty())
    } else if toks[0] == "["@ {
        match sp_record(toks) {
            Err(e) => Err(e),
            Ok((l, rest)) => match sp_records(rest) {
                Err(e) => Err(e),
                Ok(ls) => Ok(seq![l] + ls),
            },
        }
    } else {
        Err(ErrV::UnexpectedToken(unexpected_msg(toks[0])))
    }
}

#[via_fn]
proof fn sp_records_decreases(toks: Seq<Seq<char>>) {
    lemma_sp_record_consumes(toks);
}

/// Parses a whole token stream: the `#v1.0#` header, then the records.
pub open spec fn sp_parse(toks: Seq<Seq<char>>) -> Result<Seq<LineV>, ErrV> {
    match sp_expect(toks, "#"@) {
        Err(e) => Err(e),
        Ok(t1) => match sp_expect(t1, "v1.0"@) {
            Err(e) => Err(e),
            Ok(t2) => match sp_expect(t2, "#"@) {
                Err(e) => Err(e),
                Ok(t3) => sp_records(t3),
            },
        },
    }
}

/// The outcome of parsing: the format-version tag that was read, and the
/// records.
#[derive(Debug)]
pub struct Parser {
    /// The version literal of the header.
    pub version: String,
    /// The records of the input, in order.
    pub lines: Vec<Line>,
}

impl Parser {
    /// Parses the remaining tokens of the lexer into records, or fails with
    /// the diagnostic that [`sp_parse`] assigns to the input.
    #[verifier::loop_isolation(false)]
    pub fn new(lexer: &mut Lexer) -> (r: Result<Parser, DbError>)
        ensures
            match sp_parse(old(lexer).remaining()) {
                Ok(lvs) => {
                    &&& r matches Ok(p)
                    &&& lines_view(p.lines@) == lvs
                    &&& p.version@ == "v1.0"@
                },
                Err(e) => r matches Err(err) && err@ == e,
            },
    {
        expect_tok(lexer, "#")?;
        expect_tok(lexer, "v1.0")?;
        expect_tok(lexer, "#")?;
        let ghost th = lexer.remaining();
        let mut lines: Vec<Line> = Vec::new();
        let mut done = lexer_done(lexer);
        while !done
            invariant
                done == (lexer.remaining().len() == 0),
                ({
                    match sp_records(lexer.remaining()) {
                        Ok(ls) => sp_records(th) == Ok::<_, ErrV>(lines_view(lines@) + ls),
                        Err(e) => sp_records(th) == Err::<Seq<LineV>, _>(e),
                    }
                }),
            decreases lexer.remaining().len(),
        {
            let ghost tc = lexer.remaining();
            let ghost pre = lines_view(lines@);
            let c = match lexer.peek() {
                Some(c) => c,
                None => vstd::pervasive::unreached(),
            };
            if str_eq(c.as_str(), "[") {
                proof {
                    lemma_sp_record_consumes(tc);
                }
                let line = parse_line(lexer)?;
                lines.push(line);
                proof {
                    let (lv, rest) = sp_record(tc)->Ok_0;
                    assert(lines_view(lines@) =~= pre + seq![lv]);
                    match sp_records(rest) {
                        Ok(ls) => {
                            assert(pre + (seq![lv] + ls) =~= lines_view(lines@) + ls);
                        },
                        Err(_) => (),
                    }
                }
            } else {
                let mut msg = String::from_str("Unexpected token! [");
                msg.append(c.as_str());
                msg.append("]");
                proof {
                    assert(msg@ =~= unexpected_msg(tc[0]));
                }
                return Err(DbError::UnexpectedToken(msg));
            }
            done = lexer_done(lexer);
        }
        proof {
            assert(lines_view(lines@) + Seq::<LineV>::empty() =~= lines_view(lines@));
        }
        Ok(Parser { version: String::from_str("v1.0"), lines })
    }
}

/// True when the lexer has no tokens left.
fn lexer_done(lexer: &Lexer) -> (r: bool)
    ensures
        r == (lexer.remaining().len() == 0),
{
    match lexer.peek() {
        Some(_) => false,
        None => true,
    }
}

/// Demands one exact token of the lexer, as [`sp_expect`] does.
fn expect_tok(lexer: &mut Lexer, check: &str) -> (r: Result<(), DbError>)
    ensures
        final (lexer).toks() == old(lexer).toks(),
        match sp_expect(old(lexer).remaining(), check@) {
            Ok(rest) => r is Ok && final (lexer).remaining() == rest,
            Err(e) => r matches Err(err) && err@ == e && final (lexer).remaining() == old(
                lexer,
            ).remaining(),
        },
{
    let ghost t = lexer.remaining();
    let r = lexer.consume_and_check(check);
    proof {
        if t.len() > 0 && t[0] == check@ {
            assert(final (lexer).remaining() =~= t.skip(1));
        }
    }
    r
}

/// Reads one record through the lexer, as [`sp_record`] does.
#[verifier::loop_isolation(false)]
fn parse_line(lexer: &mut Lexer) -> (r: Result<Line, DbError>)
    ensures
        match sp_record(old(lexer).remaining()) {
            Ok((lv, rest)) => {
                &&& r matches Ok(line)
                &&& line@ == lv
                &&& final (lexer).remaining() == rest
            },
            Err(e) => r matches Err(err) && err@ == e,
        },
{
    expect_tok(lexer, "[")?;
    expect_tok(lexer, "_id")?;
    expect_tok(lexer, ":")?;
    expect_tok(lexer, "\"")?;
    let id_str = match lexer.consume_err_if_none() {
        Ok(s) => s,
        Err(e) => {
            return Err(e);
        },
    };
    expect_tok(lexer, "\"")?;
    let ghost t5 = lexer.remaining();
    lexer.consume_if(" ");
    proof {
        if t5.len() > 0 && t5[0] == " "@ {
            assert(lexer.remaining() =~= t5.skip(1));
        }
        assert(lexer.remaining() == sp_space(t5));
    }
    let ghost tf = lexer.remaining();
    let mut fields: Vec<Field> = Vec::new();
    let mut stop = at_fields_end(lexer);
    while !stop
        invariant
            stop == (lexer.remaining().len() == 0 || lexer.remaining()[0] == "]"@),
            ({
                match sp_fields(lexer.remaining()) {
                    Ok((fs, rest)) => sp_fields(tf) == Ok::<_, ErrV>(
                        (fields_view(fields@) + fs, rest),
                    ),
                    Err(e) => sp_fields(tf) == Err::<(Seq<FieldV>, Seq<Seq<char>>), _>(e),
                }
            }),
        decreases lexer.remaining().len(),
    {
        let ghost tc = lexer.remaining();
        let ghost pre = fields_view(fields@);
        proof {
            lemma_sp_field_consumes(tc);
        }
        let f = parse_field(lexer)?;
        fields.push(f);
        proof {
            let (fv, rest) = sp_field(tc)->Ok_0;
            assert(fields_view(fields@) =~= pre + seq![fv]);
            match sp_fields(rest) {
                Ok((fs, t2)) => {
                    assert(pre + (seq![fv] + fs) =~= fields_view(fields@) + fs);
                },
                Err(_) => (),
            }
        }
        stop = at_fields_end(lexer);
    }
    proof {
        assert(fields_view(fields@) + Seq::<FieldV>::empty() =~= fields_view(fields@));
    }
    let uid = match parse_uuid(id_str.as_str()) {
        Some(u) => u,
        None => {
            let mut msg = String::from_str("The id [");
            msg.append(id_str.as_str());
            msg.append("] is not a valid UUID");
            proof {
                assert(msg@ =~= bad_uuid_msg(id_str@));
            }
            return Err(DbError::Custom(msg));
        },
    };
    expect_tok(lexer, "]")?;
    let line = Line::new_with_id(uid, fields);
    Ok(line)
}

/// True when the next token closes a record, or the tokens are exhausted.
fn at_fields_end(lexer: &Lexer) -> (r: bool)
    ensures
        r == (lexer.remaining().len() == 0 || lexer.remaining()[0] == "]"@),
{
    match lexer.peek() {
        Some(p) => str_eq(p.as_str(), "]"),
        None => true,
    }
}

/// Reads one field through the lexer, as [`sp_field`] does.
fn parse_field(lexer: &mut Lexer) -> (r: Result<Field, DbError>)
    ensures
        match sp_field(old(lexer).remaining()) {
            Ok((fv, rest)) => {
                &&& r matches Ok(f)
                &&& f@ == fv
                &&& final (lexer).remaining() == rest
            },
            Err(e) => r matches Err(err) && err@ == e,
        },
{
    let name = match lexer.consume_err_if_none() {
        Ok(s) => s,
        Err(e) => {
            return Err(e);
        },
    };
    expect_tok(lexer, ":")?;
    let value = loop_for_value(lexer)?;
    expect_tok(lexer, ":")?;
    let tag_tok = match lexer.consume_err_if_none() {
        Ok(s) => s,
        Err(e) => {
            return Err(e);
        },
    };
    let value_t = build_value(value.as_str(), tag_tok.as_str())?;
    let ghost t6 = lexer.remaining();
    lexer.consume_if(" ");
    proof {
        if t6.len() > 0 && t6[0] == " "@ {
            assert(lexer.remaining() =~= t6.skip(1));
        }
        assert(lexer.remaining() == sp_space(t6));
    }
    Ok(Field::new(name.as_str(), value_t))
}

/// Builds a typed value from its text and its type tag, as
/// [`sp_make_value`] does.
fn build_value(val: &str, tag: &str) -> (r: Result<Type, DbError>)
    ensures
        match sp_make_value(val@, tag@) {
            Ok(v) => r matches Ok(t) && t@ == v,
            Err(e) => r matches Err(err) && err@ == e,
        },
{
    if str_eq(tag, "string") {
        Ok(Type::from_str(val))
    } else if str_eq(tag, "integer") {
        match parse_i64_str(val) {
            Some(i) => Ok(Type::from_int(i)),
            None => Err(DbError::Custom(bad_value_text(val, tag))),
        }
    } else if str_eq(tag, "decimal") {
        match Dec::from_text(val) {
            Some(d) => Ok(Type::from_dec(d)),
            None => Err(DbError::Custom(bad_value_text(val, tag))),
        }
    } else if str_eq(tag, "boolean") {
        Ok(Type::from_bool(str_eq(val, "true")))
    } else if str_eq(tag, "datetime") {
        match Ts::from_text(val) {
            Some(t) => Ok(Type::from_ts(t)),
            None => Err(DbError::Custom(bad_value_text(val, tag))),
        }
    } else {
        let mut msg = String::from_str("The type [");
        msg.append(tag);
        msg.append("] is not supported");
        proof {
            assert(msg@ =~= unsupported_msg(tag@));
        }
        Err(DbError::UnsupportedType(msg))
    }
}

/// The diagnostic text for value text that its type tag rejects.
fn bad_value_text(val: &str, tag: &str) -> (r: String)
    ensures
        r@ == bad_value_msg(val@, tag@),
{
    let mut msg = String::from_str("The value [");
    msg.append(val);
    msg.append("] is not a valid ");
    msg.append(tag);
    proof {
        assert(msg@ =~= bad_value_msg(val@, tag@));
    }
    msg
}

/// Reads a quoted value through the lexer, as [`sp_value`] does, after
/// demanding the opening quote.
#[verifier::loop_isolation(false)]
fn loop_for_value(lexer: &mut Lexer) -> (r: Result<String, DbError>)
    ensures
        match sp_expect(old(lexer).remaining(), "\""@) {
            Err(e) => r matches Err(err) && err@ == e,
            Ok(t1) => {
                match sp_value(t1, Seq::empty()) {
                    Ok((v, rest)) => {
                        &&& r matches Ok(s)
                        &&& s@ == v
                        &&& final (lexer).remaining() == rest
                    },
                    Err(e) => r matches Err(err) && err@ == e,
                }
            },
        },
{
    expect_tok(lexer, "\"")?;
    let ghost tv = lexer.remaining();
    let mut value = String::new();
    let mut done = false;
    while !done
        invariant
            !done ==> sp_value(tv, Seq::empty()) == sp_value(lexer.remaining(), value@),
            done ==> (sp_value(tv, Seq::empty()) matches Ok((v, rest)) && v == value@ && rest
                == lexer.remaining()),
        decreases lexer.remaining().len(),
    {
        let ghost tc = lexer.remaining();
        match lexer.peek() {
            Some(p) => {
                if str_eq(p.as_str(), "\"") {
                    let second = match lexer.peek_at(1) {
                        Some(q) => str_eq(q.as_str(), "\""),
                        None => false,
                    };
                    if second {
                        let _ = lexer.consume();
                        let _ = lexer.consume();
                        let ghost vacc = value@;
                        value.append("\"");
                        proof {
                            reveal_strlit("\"");
                            assert(lexer.remaining() =~= tc.skip(2));
                            assert(value@ =~= vacc.push('"'));
                        }
                    } else {
                        let _ = lexer.consume();
                        done = true;
                        proof {
                            assert(lexer.remaining() =~= tc.skip(1));
                        }
                    }
                } else {
                    let t = match lexer.consume() {
                        Some(t) => t,
                        None => vstd::pervasive::unreached(),
                    };
                    value.append(t.as_str());
                    proof {
                        assert(lexer.remaining() =~= tc.skip(1));
                    }
                }
            },
            None => {
                let mut msg = String::from_str("Could not find the end of the value [");
                msg.append(value.as_str());
                msg.append("]");
                proof {
                    assert(msg@ =~= unterminated_msg(value@));
                }
                return Err(DbError::UnterminatedValue(msg));
            },
        }
    }
    Ok(value)
}

} // verus!
