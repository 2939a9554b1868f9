use vstd::prelude::*;
use crate::error::CompileError;
use crate::token::{Token, TokenModel};

verus! {

/// ASCII whitespace: tab, newline, form feed, carriage return, space.
pub open spec fn is_ws(b: u8) -> bool {
    b == 9 || b == 10 || b == 12 || b == 13 || b == 32
}

/// A byte a word may consist of: an ASCII letter, digit, or underscore.
pub open spec fn is_word_byte(b: u8) -> bool {
    (48 <= b <= 57) || (65 <= b <= 90) || (97 <= b <= 122) || b == 95
}

pub open spec fn is_digit(b: u8) -> bool {
    48 <= b <= 57
}

/// The first index at or after `i` that holds a non-whitespace byte (or the
/// end of the input).
pub open spec fn skip_ws(s: Seq<u8>, i: int) -> int
    decreases s.len() - i,
{
    if i < s.len() && is_ws(s[i]) {
        skip_ws(s, i + 1)
    } else {
        i
    }
}

/// The end of the word starting at `i`: the first index at or after `i` that
/// holds a non-word byte (or the end of the input).
pub open spec fn word_end(s: Seq<u8>, i: int) -> int
    decreases s.len() - i,
{
    if i < s.len() && is_word_byte(s[i]) {
        word_end(s, i + 1)
    } else {
        i
    }
}

pub open spec fn all_digits(s: Seq<u8>) -> bool {
    forall|i: int| 0 <= i < s.len() ==> is_digit(#[trigger] s[i])
}

/// The value of a decimal digit string.
pub open spec fn dec_val(s: Seq<u8>) -> int
    decreases s.len(),
{
    if s.len() == 0 {
        0
    } else {
        dec_val(s.drop_last()) * 10 + (s.last() - 48)
    }
}

/// How a word is read: the four keywords by spelling; a run of digits whose
/// value fits `i64` is a number; anything else is an identifier.
pub open spec fn classify_word(wd: Seq<u8>) -> TokenModel {
    if wd == seq![105u8, 102u8] {
        TokenModel::If
    } else if wd == seq![102u8, 110u8] {
        TokenModel::Fn
    } else if wd == seq![114u8, 101u8, 116u8, 117u8, 114u8, 110u8] {
        TokenModel::Return
    } else if wd == seq![108u8, 101u8, 116u8] {
        TokenModel::Let
    } else if all_digits(wd) && dec_val(wd) <= i64::MAX {
        TokenModel::Number(dec_val(wd) as i64)
    } else {
        TokenModel::Identifier(wd)
    }
}

/// The token a single punctuation byte denotes, if any.
pub open spec fn punct(b: u8) -> Option<TokenModel> {
    if b == 40 {
        Some(TokenModel::OpeningParen)
    } else if b == 41 {
        Some(TokenModel::ClosingParen)
    } else if b == 123 {
        Some(TokenModel::OpeningCurly)
    } else if b == 125 {
        Some(TokenModel::ClosingCurly)
    } else if b == 58 {
        Some(TokenModel::Colon)
    } else if b == 59 {
        Some(TokenModel::SemiColon)
    } else if b == 44 {
        Some(TokenModel::Comma)
    } else if b == 43 {
        Some(TokenModel::Plus)
    } else if b == 45 {
        Some(TokenModel::Minus)
    } else if b == 42 {
        Some(TokenModel::Star)
    } else if b == 47 {
        Some(TokenModel::Slash)
    } else if b == 61 {
        Some(TokenModel::Equals)
    } else if b == 33 {
        Some(TokenModel::ExclamationMark)
    } else if b == 63 {
        Some(TokenModel::QuestionMark)
    } else {
        None
    }
}

/// The tokenization of the input from index `i` on: greedy words first, then
/// single punctuation bytes; `None` when a byte starts no token.
pub open spec fn lex_from(s: Seq<u8>, i: int) -> Option<Seq<TokenModel>>
    decreases s.len() - i,
{
    let j = skip_ws(s, i);
    if j >= s.len() || j < i {
        Some(Seq::empty())
    } else {
        let k = word_end(s, j);
        if k > j {
            if k <= s.len() {
                match lex_from(s, k) {
                    Some(rest) => Some(rest.insert(0, classify_word(s.subrange(j, k)))),
                    None => None,
                }
            } else {
                Some(Seq::empty())
            }
        } else {
            match punct(s[j]) {
                Some(t) => match lex_from(s, j + 1) {
                    Some(rest) => Some(rest.insert(0, t)),
                    None => None,
                },
                None => None,
            }
        }
    }
}

/// `skip_ws` and `word_end` never run past the end and never go backwards.
pub proof fn lemma_scan_bounds(s: Seq<u8>, i: int)
    requires 0 <= i <= s.len(),
    ensures
        i <= skip_ws(s, i) <= s.len(),
        i <= word_end(s, i) <= s.len(),
    decreases s.len() - i,
{
    if i < s.len() && (is_ws(s[i]) || is_word_byte(s[i])) {
        lemma_scan_bounds(s, i + 1);
    }
}

/// The value of a digit string is never negative.
pub proof fn lemma_dec_val_nonneg(s: Seq<u8>)
    requires all_digits(s),
    ensures dec_val(s) >= 0,
    decreases s.len(),
{
    if s.len() > 0 {
        assert(all_digits(s.drop_last())) by {
            assert(forall|i: int| 0 <= i < s.len() - 1 ==> s.drop_last()[i] == s[i]);
        }
        lemma_dec_val_nonneg(s.drop_last());
        assert(is_digit(s.last()));
        let d = dec_val(s.drop_last());
        assert(d * 10 >= 0) by (nonlinear_arith)
            requires d >= 0,
        {}
    }
}

/// A longer digit string is worth at least as much as its prefix.
pub proof fn lemma_dec_val_grows(s: Seq<u8>)
    requires
        s.len() > 0,
        all_digits(s),
    ensures
        dec_val(s) >= dec_val(s.drop_last()),
{
    assert(all_digits(s.drop_last())) by {
        assert(forall|i: int| 0 <= i < s.len() - 1 ==> s.drop_last()[i] == s[i]);
    }
    lemma_dec_val_nonneg(s.drop_last());
    assert(dec_val(s) == dec_val(s.drop_last()) * 10 + (s.last() - 48));
    let d = dec_val(s.drop_last());
    assert(d * 10 >= d) by (nonlinear_arith)
        requires d >= 0,
    {}
}

/// The character-level tokenizer: turns source bytes into the token stream.
pub struct Lexer {
    file_contents: Vec<u8>,
    current_index: usize,
}

impl Lexer {
    pub closed spec fn contents(self) -> Seq<u8> {
        self.file_contents@
    }

    pub closed spec fn index(self) -> int {
        self.current_index as int
    }

    /// A lexer over the given source bytes.
    pub fn new(file_contents: Vec<u8>) -> (r: Lexer)
        ensures
            r.contents() == file_contents@,
            r.index() == 0,
    {
        Lexer { file_contents, current_index: 0 }
    }

    /// Tokenizes the whole input.  Succeeds exactly when every byte belongs
    /// to a token, and then yields exactly the tokenization of the input.
    #[verifier::loop_isolation(false)]
    #[verifier::rlimit(60)]
    pub fn lex(self) -> (r: Result<Vec<Token>, CompileError>)
        requires
            self.index() == 0,
        ensures
            (match r {
                Ok(toks) => lex_from(self.contents(), 0)
                    == Some(toks@.map_values(|t: Token| t@)),
                Err(e) => lex_from(self.contents(), 0) is None
                    && e == CompileError::InvalidCharacter,
            }),
    {
        let s = self.file_contents;
        let ghost sv = s@;
        let mut pos: usize = 0;
        let mut ret: Vec<Token> = Vec::new();

        loop
            invariant
                0 <= pos <= sv.len(),
                sv == s@,
                lex_from(sv, 0) == (match lex_from(sv, pos as int) {
                    Some(rest) => Some(ret@.map_values(|t: Token| t@) + rest),
                    None => None::<Seq<TokenModel>>,
                }),
            decreases sv.len() - pos,
        {
            let ghost pos0 = pos;
            // skip whitespace
            while pos < s.len() && (s[pos] == 9 || s[pos] == 10 || s[pos] == 12 || s[pos] == 13
                || s[pos] == 32)
                invariant
                    pos0 <= pos <= sv.len(),
                    lex_from(sv, 0) == (match lex_from(sv, pos as int) {
                        Some(rest) => Some(ret@.map_values(|t: Token| t@) + rest),
                        None => None::<Seq<TokenModel>>,
                    }),
                decreases sv.len() - pos,
            {
                proof {
                    lemma_scan_bounds(sv, pos as int);
                    lemma_scan_bounds(sv, pos + 1);
                    assert(skip_ws(sv, pos as int) == skip_ws(sv, pos + 1));
                    assert(lex_from(sv, pos as int) == lex_from(sv, pos + 1));
                }
                pos = pos + 1;
            }

            if pos == s.len() {
                break;
            }

            proof {
                assert(skip_ws(sv, pos as int) == pos as int);
                lemma_scan_bounds(sv, pos as int);
            }

            // scan a word
            let start = pos;
            let mut wend = pos;
            while wend < s.len() && ((48 <= s[wend] && s[wend] <= 57)
                || (65 <= s[wend] && s[wend] <= 90) || (97 <= s[wend] && s[wend] <= 122)
                || s[wend] == 95)
                invariant
                    start <= wend <= sv.len(),
                    word_end(sv, start as int) == word_end(sv, wend as int),
                decreases sv.len() - wend,
            {
                proof {
                    lemma_scan_bounds(sv, wend + 1);
                }
                wend = wend + 1;
            }
            proof {
                assert(word_end(sv, wend as int) == wend as int);
                assert(word_end(sv, start as int) == wend as int);
            }

            if wend > start {
                let ghost wd = sv.subrange(start as int, wend as int);
                let tok = Self::classify(&s, start, wend);
                proof {
                    assert(tok@ == classify_word(wd));
                    assert(ret@.push(tok).map_values(|t: Token| t@)
                        =~= ret@.map_values(|t: Token| t@).push(tok@));
                    match lex_from(sv, wend as int) {
                        Some(rest) => {
                            assert(lex_from(sv, pos as int)
                                == Some(rest.insert(0, classify_word(wd))));
                            assert(ret@.map_values(|t: Token| t@).push(tok@) + rest
                                =~= ret@.map_values(|t: Token| t@)
                                    + rest.insert(0, classify_word(wd)));
                        }
                        None => {}
                    }
                }
                ret.push(tok);
                pos = wend;
                continue;
            }

            // single punctuation byte
            let b = s[pos];
            let tok = match b {
                40u8 => Token::OpeningParen,
                41u8 => Token::ClosingParen,
                123u8 => Token::OpeningCurly,
                125u8 => Token::ClosingCurly,
                58u8 => Token::Colon,
                59u8 => Token::SemiColon,
                44u8 => Token::Comma,
                43u8 => Token::Plus,
                45u8 => Token::Minus,
                42u8 => Token::Star,
                47u8 => Token::Slash,
                61u8 => Token::Equals,
                33u8 => Token::ExclamationMark,
                63u8 => Token::QuestionMark,
                _ => {
                    proof {
                        assert(punct(sv[pos as int]) is None);
                        assert(lex_from(sv, pos as int) is None);
                    }
                    return Err(CompileError::InvalidCharacter);
                }
            };
            proof {
                assert(punct(sv[pos as int]) == Some(tok@));
                assert(ret@.push(tok).map_values(|t: Token| t@)
                    =~= ret@.map_values(|t: Token| t@).push(tok@));
                match lex_from(sv, pos + 1) {
                    Some(rest) => {
                        assert(lex_from(sv, pos as int) == Some(rest.insert(0, tok@)));
                        assert(ret@.map_values(|t: Token| t@).push(tok@) + rest
                            =~= ret@.map_values(|t: Token| t@) + rest.insert(0, tok@));
                    }
                    None => {}
                }
            }
            ret.push(tok);
            pos = pos + 1;
        }

        proof {
            assert(lex_from(sv, pos as int) == Some(Seq::<TokenModel>::empty()));
            assert(ret@.map_values(|t: Token| t@) + Seq::<TokenModel>::empty()
                =~= ret@.map_values(|t: Token| t@));
        }
        Ok(ret)
    }

    /// Reads the word at `[start, wend)`: a keyword, a number that fits
    /// `i64`, or an identifier.
    #[verifier::loop_isolation(false)]
    fn classify(s: &Vec<u8>, start: usize, wend: usize) -> (tok: Token)
        requires
            0 <= start < wend <= s@.len(),
        ensures
            tok@ == classify_word(s@.subrange(start as int, wend as int)),
    {
        let ghost wd = s@.subrange(start as int, wend as int);
        let len = wend - start;

        if len == 2 && s[start] == 105 && s[start + 1] == 102 {
            proof {
                assert(wd =~= seq![105u8, 102u8]);
            }
            return Token::If;
        }
        if len == 2 && s[start] == 102 && s[start + 1] == 110 {
            proof {
                assert(wd =~= seq![102u8, 110u8]);
            }
            return Token::Fn;
        }
        if len == 6 && s[start] == 114 && s[start + 1] == 101 && s[start + 2] == 116
            && s[start + 3] == 117 && s[start + 4] == 114 && s[start + 5] == 110 {
            proof {
                assert(wd =~= seq![114u8, 101u8, 116u8, 117u8, 114u8, 110u8]);
            }
            return Token::Return;
        }
        if len == 3 && s[start] == 108 && s[start + 1] == 101 && s[start + 2] == 116 {
            proof {
                assert(wd =~= seq![108u8, 101u8, 116u8]);
            }
            return Token::Let;
        }
        proof {
            assert(wd != seq![105u8, 102u8]);
            assert(wd != seq![102u8, 110u8]);
            assert(wd != seq![114u8, 101u8, 116u8, 117u8, 114u8, 110u8]);
            assert(wd != seq![108u8, 101u8, 116u8]);
        }

        // a digit run that fits i64 is a number literal
        let mut i: usize = start;
        let mut val: i64 = 0;
        let mut digits = true;
        let mut over = false;
        while i < wend
            invariant
                start <= i <= wend,
                wend <= s@.len(),
                digits == all_digits(s@.subrange(start as int, i as int)),
                digits && !over ==> 0 <= val == dec_val(s@.subrange(start as int, i as int))
                    <= i64::MAX,
                digits && over ==> dec_val(s@.subrange(start as int, i as int)) > i64::MAX,
            decreases wend - i,
        {
            let ghost pre = s@.subrange(start as int, i as int);
            let ghost cur = s@.subrange(start as int, i + 1);
            proof {
                assert(cur.drop_last() =~= pre);
                assert(cur.last() == s@[i as int]);
            }
            let b = s[i];
            if b < 48 || b > 57 {
                digits = false;
            } else if digits {
                let d = (b - 48) as i64;
                if over || val > (i64::MAX - d) / 10 {
                    proof {
                        if !over {
                            assert(val * 10 + d > i64::MAX) by (nonlinear_arith)
                                requires
                                    val > (i64::MAX - d) / 10,
                                    0 <= d <= 9,
                                    0 <= val,
                            {}
                        }
                        lemma_dec_val_grows(cur);
                        assert(dec_val(cur) == dec_val(pre) * 10 + (cur.last() - 48));
                        if over {
                            assert(dec_val(pre) * 10 >= dec_val(pre)) by (nonlinear_arith)
                                requires dec_val(pre) > i64::MAX,
                            {}
                        }
                    }
                    over = true;
                } else {
                    proof {
                        assert(val * 10 + d <= i64::MAX) by (nonlinear_arith)
                            requires
                                val <= (i64::MAX - d) / 10,
                                0 <= d <= 9,
                                0 <= val,
                        {}
                    }
                    val = val * 10 + d;
                }
            }
            i = i + 1;
        }

        proof {
            assert(s@.subrange(start as int, wend as int) =~= wd);
        }
        if digits && !over {
            proof {
                assert(classify_word(wd) == TokenModel::Number(dec_val(wd) as i64));
            }
            Token::Number(val)
        } else {
            proof {
                if digits && over {
                    assert(!(all_digits(wd) && dec_val(wd) <= i64::MAX));
                }
                assert(classify_word(wd) == TokenModel::Identifier(wd));
            }
            let name = crate::hlir::copy_bytes_range(s, start, wend);
            Token::Identifier(name)
        }
    }
}

} // verus!
