//! The tokenizer of the on-disk format, and the cursor the parser reads
//! tokens through.
//!
//! The text splits on the delimiter set space, `[`, `]`, `"`, `#`, `:`: each
//! delimiter is its own single-character token, and each maximal run of
//! other characters between delimiters is one token. A run after the last
//! delimiter produces no token, and a run before the first delimiter loses
//! its first character.

use vstd::prelude::*;
use crate::db::db_error::{DbError, ErrV};
use crate::is_delim;
use crate::is_delim_char;
use crate::text::str_eq;

verus! {

/// The length of the maximal delimiter-free prefix of the text.
pub open spec fn run_len(text: Seq<char>) -> nat
    decreases text.len(),
{
    if text.len() == 0 || is_delim(text[0]) {
        0
    } else {
        1 + run_len(text.skip(1))
    }
}

/// The tokens of a text that starts at a delimiter boundary.
pub open spec fn tok(text: Seq<char>) -> Seq<Seq<char>>
    decreases text.len(),
{
    if text.len() == 0 {
        Seq::empty()
    } else if is_delim(text[0]) {
        seq![seq![text[0]]] + tok(text.skip(1))
    } else {
        let k = 1 + run_len(text.skip(1));
        if k >= text.len() {
            Seq::empty()
        } else {
            seq![text.take(k as int)] + tok(text.skip(k as int))
        }
    }
}

/// The tokens of arbitrary text: a run before the first delimiter loses its
/// first character.
pub open spec fn spec_tokenize(text: Seq<char>) -> Seq<Seq<char>> {
    if text.len() > 0 && !is_delim(text[0]) {
        tok(text.skip(1))
    } else {
        tok(text)
    }
}

/// The message of the diagnostic for a token mismatch.
pub open spec fn expected_msg(expected: Seq<char>, received: Seq<char>) -> Seq<char> {
    "Expected ["@ + expected + "], but received ["@ + received + "]"@
}

/// Characters `i` to `j` of `text` form a maximal delimiter-free run, so the
/// run length from `i` is `j - i`.
pub proof fn lemma_run_len_at(text: Seq<char>, i: int, j: int)
    requires
        0 <= i <= j <= text.len(),
        forall|k: int| i <= k < j ==> !is_delim(#[trigger] text[k]),
        j == text.len() || is_delim(text[j]),
    ensures
        run_len(text.skip(i)) == j - i,
    decreases j - i,
{
    if i == j {
        if j < text.len() {
            assert(text.skip(i)[0] == text[j]);
        }
    } else {
        assert(text.skip(i)[0] == text[i]);
        assert(text.skip(i).skip(1) =~= text.skip(i + 1));
        lemma_run_len_at(text, i + 1, j);
    }
}

/// The token cursor over a tokenized text.
pub struct Lexer {
    tokens: Vec<String>,
    index: usize,
}

impl Lexer {
    /// All tokens of the text the lexer was built from.
    pub closed spec fn toks(&self) -> Seq<Seq<char>> {
        self.tokens@.map_values(|t: String| t@)
    }

    /// The position of the cursor.
    pub closed spec fn pos(&self) -> int {
        self.index as int
    }

    #[verifier::type_invariant]
    pub closed spec fn inv(&self) -> bool {
        self.index <= self.tokens@.len()
    }

    /// The tokens not yet consumed.
    pub open spec fn remaining(&self) -> Seq<Seq<char>> {
        self.toks().skip(self.pos())
    }

    /// Tokenizes the text and places the cursor before the first token.
    #[verifier::loop_isolation(false)]
    pub fn new(text: &str) -> (r: Lexer)
        ensures
            r.toks() == spec_tokenize(text@),
            r.remaining() == spec_tokenize(text@),
    {
        let len = text.unicode_len();
        let mut tokens: Vec<String> = Vec::new();
        let mut i: usize = if len > 0 && !is_delim_char(text.get_char(0)) {
            1
        } else {
            0
        };
        proof {
            if len > 0 && !is_delim(text@[0]) {
                assert(spec_tokenize(text@) == tok(text@.skip(1)));
            } else {
                assert(text@.skip(0) =~= text@);
            }
        }
        while i < len
            invariant
                0 <= i <= len,
                spec_tokenize(text@) == tokens@.map_values(|t: String| t@) + tok(text@.skip(
                    i as int,
                )),
            decreases len - i,
        {
            let ghost pre = tokens@.map_values(|t: String| t@);
            let c = text.get_char(i);
            if is_delim_char(c) {
                let t = String::from_str(text.substring_char(i, i + 1));
                tokens.push(t);
                proof {
                    assert(text@.skip(i as int)[0] == c);
                    assert(text@.skip(i as int).skip(1) =~= text@.skip(i + 1));
                    assert(text@.subrange(i as int, i + 1) =~= seq![c]);
                    assert(tokens@.map_values(|t: String| t@) =~= pre + seq![seq![c]]);
                    assert(pre + seq![seq![c]] + tok(text@.skip(i + 1)) =~= pre + (seq![seq![c]]
                        + tok(text@.skip(i + 1))));
                }
                i = i + 1;
            } else {
                let mut j = i + 1;
                while j < len && !is_delim_char(text.get_char(j))
                    invariant
                        i < j <= len,
                        forall|k: int| i <= k < j ==> !is_delim(#[trigger] text@[k]),
                    decreases len - j,
                {
                    j = j + 1;
                }
                proof {
                    lemma_run_len_at(text@, i as int, j as int);
                    assert(text@.skip(i as int)[0] == c);
                    assert(text@.skip(i as int).skip(1) =~= text@.skip(i + 1));
                    assert(run_len(text@.skip(i as int)) == j - i);
                }
                if j < len {
                    let t = String::from_str(text.substring_char(i, j));
                    tokens.push(t);
                    proof {
                        let k = (j - i) as int;
                        assert(text@.skip(i as int).take(k) =~= text@.subrange(i as int, j as int));
                        assert(text@.skip(i as int).skip(k) =~= text@.skip(j as int));
                        assert(tokens@.map_values(|t: String| t@) =~= pre + seq![
                            text@.subrange(i as int, j as int),
                        ]);
                        assert(pre + seq![text@.subrange(i as int, j as int)] + tok(
                            text@.skip(j as int),
                        ) =~= pre + (seq![text@.subrange(i as int, j as int)] + tok(
                            text@.skip(j as int),
                        )));
                    }
                } else {
                    proof {
                        assert(tok(text@.skip(i as int)) =~= Seq::<Seq<char>>::empty());
                        assert(text@.skip(j as int).len() == 0);
                        assert(pre + tok(text@.skip(i as int)) =~= pre);
                        assert(pre + tok(text@.skip(j as int)) =~= pre);
                    }
                }
                i = j;
            }
        }
        proof {
            assert(text@.skip(len as int).len() == 0);
            assert(tokens@.map_values(|t: String| t@) + tok(text@.skip(len as int))
                =~= tokens@.map_values(|t: String| t@));
        }
        let l = Lexer { tokens, index: 0 };
        proof {
            assert(l.remaining() =~= l.toks());
        }
        l
    }

    /// The total count of tokens.
    pub fn count(&self) -> (r: usize)
        ensures
            r == self.toks().len(),
    {
        self.tokens.len()
    }

    /// The current token, without consuming it.
    pub fn peek(&self) -> (r: Option<String>)
        ensures
            match r {
                Some(t) => self.remaining().len() > 0 && t@ == self.remaining()[0],
                None => self.remaining().len() == 0,
            },
    {
        self.peek_at(0)
    }

    /// The token `n` places ahead of the cursor, without consuming.
    pub fn peek_at(&self, n: usize) -> (r: Option<String>)
        ensures
            match r {
                Some(t) => n < self.remaining().len() && t@ == self.remaining()[n as int],
                None => n >= self.remaining().len(),
            },
    {
        proof {
            use_type_invariant(self);
        }
        if n < self.tokens.len() - self.index {
            Some(self.tokens[self.index + n].clone())
        } else {
            None
        }
    }

    /// Returns the current token and advances, or `None` when the tokens are
    /// exhausted.
    pub fn consume(&mut self) -> (r: Option<String>)
        ensures
            final (self).toks() == old(self).toks(),
            match r {
                Some(t) => {
                    &&& old(self).remaining().len() > 0
                    &&& t@ == old(self).remaining()[0]
                    &&& final (self).remaining() == old(self).remaining().skip(1)
                },
                None => {
                    &&& old(self).remaining().len() == 0
                    &&& final (self).remaining() == old(self).remaining()
                },
            },
    {
        proof {
            use_type_invariant(&*self);
        }
        if self.index < self.tokens.len() {
            let t = self.tokens[self.index].clone();
            self.index = self.index + 1;
            proof {
                assert(final (self).remaining() =~= old(self).remaining().skip(1));
            }
            Some(t)
        } else {
            None
        }
    }

    /// Like [`Lexer::consume`], but exhaustion is an error.
    pub fn consume_err_if_none(&mut self) -> (r: Result<String, DbError>)
        ensures
            final (self).toks() == old(self).toks(),
            match r {
                Ok(t) => {
                    &&& old(self).remaining().len() > 0
                    &&& t@ == old(self).remaining()[0]
                    &&& final (self).remaining() == old(self).remaining().skip(1)
                },
                Err(e) => {
                    &&& old(self).remaining().len() == 0
                    &&& final (self).remaining() == old(self).remaining()
                    &&& e@ == ErrV::Custom("Expected to receive a value, but received None"@)
                },
            },
    {
        match self.consume() {
            Some(c) => Ok(c),
            None => Err(
                DbError::Custom(String::from_str("Expected to receive a value, but received None")),
            ),
        }
    }

    /// Advances over the current token only when it equals the given text.
    pub fn consume_if(&mut self, val_is: &str)
        ensures
            final (self).toks() == old(self).toks(),
            ({
                if old(self).remaining().len() > 0 && old(self).remaining()[0] == val_is@ {
                    final (self).remaining() == old(self).remaining().skip(1)
                } else {
                    final (self).remaining() == old(self).remaining()
                }
            }),
    {
        let advance = match self.peek() {
            Some(p) => str_eq(p.as_str(), val_is),
            None => false,
        };
        if advance {
            let _ = self.consume();
        }
    }

    /// Demands that the current token equal the given text: advances over it
    /// on a match, and fails with `UnexpectedToken` -- naming the expected
    /// and the received token -- otherwise, consuming nothing.
    pub fn consume_and_check(&mut self, check: &str) -> (r: Result<(), DbError>)
        ensures
            final (self).toks() == old(self).toks(),
            ({
                if old(self).remaining().len() > 0 && old(self).remaining()[0] == check@ {
                    r is Ok && final (self).remaining() == old(self).remaining().skip(1)
                } else {
                    &&& final (self).remaining() == old(self).remaining()
                    &&& r matches Err(e) && e@ == ErrV::UnexpectedToken(
                        expected_msg(
                            check@,
                            if old(self).remaining().len() > 0 {
                                old(self).remaining()[0]
                            } else {
                                Seq::empty()
                            },
                        ),
                    )
                }
            }),
    {
        let good = match self.peek() {
            Some(p) => str_eq(p.as_str(), check),
            None => false,
        };
        if good {
            let _ = self.consume();
            Ok(())
        } else {
            let mut msg = String::from_str("Expected [");
            msg.append(check);
            msg.append("], but received [");
            match self.peek() {
                Some(p) => msg.append(p.as_str()),
                None => (),
            }
            msg.append("]");
            proof {
                if self.remaining().len() == 0 {
                    assert(msg@ =~= expected_msg(check@, Seq::empty()));
                } else {
                    assert(msg@ =~= expected_msg(check@, self.remaining()[0]));
                }
            }
            Err(DbError::UnexpectedToken(msg))
        }
    }
}

} // verus!
