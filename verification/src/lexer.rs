//! The scanner: an index-based cursor over the source characters and the
//! `next_token` state machine built on it.
//!
//! The cursor walks a character sequence by index, so advancing is O(1) and
//! a multi-byte character can never be split. Identifier runs accept
//! alphabetic characters and underscores only; a digit ends an identifier
//! run and starts an integer run of its own.

use vstd::prelude::*;
use vstd::string::StrSliceExecFns;
use vstd::std_specs::iter::IteratorSpec;
use crate::token::{Token, TokenType, spec_lookup_ident, fn_keyword, let_keyword};

verus! {

broadcast use vstd::string::group_string_axioms;

/// Whether a character has the Unicode alphabetic property.
pub uninterp spec fn is_alphabetic(c: char) -> bool;

/// Relies on char::is_alphabetic: whether the character has the Unicode
/// "Alphabetic" property, a function of the character alone.
#[verifier::external_body]
fn char_is_alphabetic(c: char) -> (r: bool)
    ensures
        r == is_alphabetic(c),
{
    c.is_alphabetic()
}

/// The whitespace characters the scanner skips: space, tab, newline and
/// carriage return.
pub open spec fn is_ws_char(c: char) -> bool {
    c == ' ' || c == '\t' || c == '\n' || c == '\r'
}

/// A character that may appear in an identifier: alphabetic or underscore.
pub open spec fn is_letter_char(c: char) -> bool {
    is_alphabetic(c) || c == '_'
}

/// A decimal digit.
pub open spec fn is_digit_char(c: char) -> bool {
    '0' <= c && c <= '9'
}

fn is_ws(c: char) -> (r: bool)
    ensures
        r == is_ws_char(c),
{
    c == ' ' || c == '\t' || c == '\n' || c == '\r'
}

fn is_letter(c: char) -> (r: bool)
    ensures
        r == is_letter_char(c),
{
    char_is_alphabetic(c) || c == '_'
}

fn is_digit(c: char) -> (r: bool)
    ensures
        r == is_digit_char(c),
{
    '0' <= c && c <= '9'
}

/// A single-character punctuation token: one of the eight characters the
/// scanner maps directly to a kind.
pub open spec fn is_punct_char(c: char) -> bool {
    c == '=' || c == '+' || c == ',' || c == ';' || c == '(' || c == ')' || c == '{' || c == '}'
}

/// The kind a punctuation character maps to.
pub open spec fn punct_kind(c: char) -> TokenType {
    if c == '=' {
        TokenType::Assign
    } else if c == '+' {
        TokenType::Plus
    } else if c == ',' {
        TokenType::Comma
    } else if c == ';' {
        TokenType::Semicolon
    } else if c == '(' {
        TokenType::Lparen
    } else if c == ')' {
        TokenType::Rparen
    } else if c == '{' {
        TokenType::Lbrace
    } else {
        TokenType::Rbrace
    }
}

/// The first index at or after `i` whose character is not whitespace, or the
/// end of the text.
pub open spec fn skip_ws(s: Seq<char>, i: int) -> int
    decreases s.len() - i
        when 0 <= i <= s.len()
{
    if i < s.len() && is_ws_char(s[i]) {
        skip_ws(s, i + 1)
    } else {
        i
    }
}

/// The end of the maximal identifier run that starts at `i`: the first index
/// at or after `i` whose character is not a letter, or the end of the text.
pub open spec fn ident_end(s: Seq<char>, i: int) -> int
    decreases s.len() - i
        when 0 <= i <= s.len()
{
    if i < s.len() && is_letter_char(s[i]) {
        ident_end(s, i + 1)
    } else {
        i
    }
}

/// The end of the maximal digit run that starts at `i`.
pub open spec fn number_end(s: Seq<char>, i: int) -> int
    decreases s.len() - i
        when 0 <= i <= s.len()
{
    if i < s.len() && is_digit_char(s[i]) {
        number_end(s, i + 1)
    } else {
        i
    }
}

/// Everything a whitespace skip passes over is whitespace, and it stops
/// inside the text only on a non-whitespace character.
pub proof fn lemma_skip_ws_props(s: Seq<char>, i: int)
    requires
        0 <= i <= s.len(),
    ensures
        i <= skip_ws(s, i) <= s.len(),
        skip_ws(s, i) < s.len() ==> !is_ws_char(s[skip_ws(s, i)]),
        forall|m: int| i <= m < skip_ws(s, i) ==> is_ws_char(s[m]),
    decreases s.len() - i,
{
    if i < s.len() && is_ws_char(s[i]) {
        lemma_skip_ws_props(s, i + 1);
    }
}

/// An identifier run consists of letters only, and it stops inside the text
/// only on a character that is not a letter.
pub proof fn lemma_ident_end_props(s: Seq<char>, i: int)
    requires
        0 <= i <= s.len(),
    ensures
        i <= ident_end(s, i) <= s.len(),
        ident_end(s, i) < s.len() ==> !is_letter_char(s[ident_end(s, i)]),
        forall|m: int| i <= m < ident_end(s, i) ==> is_letter_char(s[m]),
    decreases s.len() - i,
{
    if i < s.len() && is_letter_char(s[i]) {
        lemma_ident_end_props(s, i + 1);
    }
}

/// A digit run consists of digits only, and it stops inside the text only on
/// a character that is not a digit.
pub proof fn lemma_number_end_props(s: Seq<char>, i: int)
    requires
        0 <= i <= s.len(),
    ensures
        i <= number_end(s, i) <= s.len(),
        number_end(s, i) < s.len() ==> !is_digit_char(s[number_end(s, i)]),
        forall|m: int| i <= m < number_end(s, i) ==> is_digit_char(s[m]),
    decreases s.len() - i,
{
    if i < s.len() && is_digit_char(s[i]) {
        lemma_number_end_props(s, i + 1);
    }
}

/// What one call of `next_token` does to a scanner whose source is `s` and
/// whose cursor stands at `pos`: the kind and literal of the token returned,
/// and the cursor position after the call. Whitespace is skipped first; the
/// character then at the cursor decides the classification — punctuation,
/// then a digit run, then an identifier run (the classes are disjoint, so
/// only the order of the checks is fixed here); an exhausted text yields the
/// end-of-input token and moves nothing; any unrecognized character yields
/// an illegal token holding exactly that character.
pub open spec fn spec_next_token(s: Seq<char>, pos: int) -> (TokenType, Seq<char>, int) {
    let i = skip_ws(s, pos);
    if i >= s.len() {
        (TokenType::Eof, Seq::<char>::empty(), s.len() as int)
    } else {
        let c = s[i];
        if is_punct_char(c) {
            (punct_kind(c), seq![c], i + 1)
        } else if is_digit_char(c) {
            let j = number_end(s, i);
            (TokenType::Int, s.subrange(i, j), j)
        } else if is_letter_char(c) {
            let j = ident_end(s, i);
            (spec_lookup_ident(s.subrange(i, j)), s.subrange(i, j), j)
        } else {
            (TokenType::Illegal, seq![c], i + 1)
        }
    }
}

/// One non-terminal call strictly advances the cursor and stays inside the
/// text; the terminal call parks the cursor at the end. Either way the
/// literal is exactly what lies between the skipped whitespace and the new
/// cursor position.
pub proof fn lemma_next_token_advances(s: Seq<char>, pos: int)
    requires
        0 <= pos <= s.len(),
    ensures
        spec_next_token(s, pos).0 != TokenType::Eof ==> pos < spec_next_token(s, pos).2
            <= s.len(),
        spec_next_token(s, pos).0 == TokenType::Eof ==> spec_next_token(s, pos).2 == s.len(),
        spec_next_token(s, pos).1.len() == spec_next_token(s, pos).2 - skip_ws(s, pos),
{
    lemma_skip_ws_props(s, pos);
    let i = skip_ws(s, pos);
    if i < s.len() {
        if is_letter_char(s[i]) {
            lemma_ident_end_props(s, i + 1);
            assert(ident_end(s, i) == ident_end(s, i + 1));
        }
        if is_digit_char(s[i]) {
            lemma_number_end_props(s, i + 1);
            assert(number_end(s, i) == number_end(s, i + 1));
        }
    }
}

/// The characters one call of `next_token` accounts for, summed across
/// successive calls until the end-of-input token first comes back: each
/// call's skipped whitespace plus the length of its token's literal, the
/// trailing whitespace of the terminal call included.
pub open spec fn coverage_sum(s: Seq<char>, pos: int) -> int
    decreases s.len() - pos
        when 0 <= pos <= s.len()
        via coverage_sum_decreases
{
    let t = spec_next_token(s, pos);
    let ws = skip_ws(s, pos) - pos;
    if t.0 == TokenType::Eof {
        ws
    } else {
        ws + t.1.len() + coverage_sum(s, t.2)
    }
}

#[via_fn]
proof fn coverage_sum_decreases(s: Seq<char>, pos: int) {
    if 0 <= pos <= s.len() {
        lemma_next_token_advances(s, pos);
    }
}

/// Coverage: summed across successive calls until the end-of-input token
/// first comes back, the skipped whitespace spans and the token literals
/// account for every character of the text exactly once — none is skipped,
/// duplicated, or left unclassified.
pub proof fn lemma_coverage(s: Seq<char>, pos: int)
    requires
        0 <= pos <= s.len(),
    ensures
        coverage_sum(s, pos) == s.len() - pos,
    decreases s.len() - pos,
{
    lemma_next_token_advances(s, pos);
    lemma_skip_ws_props(s, pos);
    let t = spec_next_token(s, pos);
    if t.0 != TokenType::Eof {
        lemma_coverage(s, t.2);
    }
}

/// Idempotent termination: a call that returns the end-of-input token leaves
/// the cursor at the end of the text, and a call made there returns the same
/// end-of-input token — empty literal, cursor unmoved — so every later call
/// repeats it.
pub proof fn lemma_eof_idempotent(s: Seq<char>, pos: int)
    requires
        0 <= pos <= s.len(),
    ensures
        spec_next_token(s, pos).0 == TokenType::Eof ==> spec_next_token(s, pos).2 == s.len(),
        spec_next_token(s, s.len() as int).0 == TokenType::Eof,
        spec_next_token(s, s.len() as int).1 == Seq::<char>::empty(),
        spec_next_token(s, s.len() as int).2 == s.len(),
{
    lemma_next_token_advances(s, pos);
    lemma_skip_ws_props(s, s.len() as int);
}

/// Keyword precedence: a token whose literal spells a reserved keyword
/// always carries the keyword kind, never `Ident`.
pub proof fn lemma_keyword_precedence(s: Seq<char>, pos: int)
    requires
        0 <= pos <= s.len(),
    ensures
        spec_next_token(s, pos).1 == let_keyword() ==> spec_next_token(s, pos).0
            == TokenType::Let,
        spec_next_token(s, pos).1 == fn_keyword() ==> spec_next_token(s, pos).0
            == TokenType::Function,
{
    assert(fn_keyword().len() == 2 && fn_keyword()[0] == 'f' && fn_keyword()[1] == 'n');
    assert(let_keyword().len() == 3 && let_keyword()[0] == 'l' && let_keyword()[1] == 'e'
        && let_keyword()[2] == 't');
    lemma_skip_ws_props(s, pos);
    let i = skip_ws(s, pos);
    if i < s.len() {
        let c = s[i];
        if !is_punct_char(c) && is_digit_char(c) {
            lemma_number_end_props(s, i);
            let j = number_end(s, i);
            let lit = s.subrange(i, j);
            if lit == let_keyword() {
                assert(lit[0] == s[i]);
                assert(lit[0] == 'l');
                assert(false);
            }
            if lit == fn_keyword() {
                assert(lit[0] == s[i]);
                assert(lit[0] == 'f');
                assert(false);
            }
        }
    }
}

/// Maximal munch: whitespace skipping stops only at the first
/// non-whitespace character, and an identifier or integer run ends only at
/// the first character that does not belong to it — every character of the
/// run matches, and the character after it (if any) does not.
pub proof fn lemma_maximal_munch(s: Seq<char>, pos: int)
    requires
        0 <= pos <= s.len(),
    ensures
        ({
            let i = skip_ws(s, pos);
            let t = spec_next_token(s, pos);
            &&& (forall|m: int| pos <= m < i ==> is_ws_char(s[m]))
            &&& (i < s.len() ==> !is_ws_char(s[i]))
            &&& (i < s.len() && !is_punct_char(s[i]) && is_digit_char(s[i]) ==> {
                &&& t.2 == number_end(s, i)
                &&& (forall|m: int| i <= m < t.2 ==> is_digit_char(s[m]))
                &&& (t.2 < s.len() ==> !is_digit_char(s[t.2]))
            })
            &&& (i < s.len() && !is_punct_char(s[i]) && !is_digit_char(s[i])
                && is_letter_char(s[i]) ==> {
                &&& t.2 == ident_end(s, i)
                &&& (forall|m: int| i <= m < t.2 ==> is_letter_char(s[m]))
                &&& (t.2 < s.len() ==> !is_letter_char(s[t.2]))
            })
        }),
{
    lemma_skip_ws_props(s, pos);
    let i = skip_ws(s, pos);
    if i < s.len() {
        lemma_ident_end_props(s, i);
        lemma_number_end_props(s, i);
    }
}

/// Collects the characters of a string slice into a vector, one entry per
/// character.
fn chars_of_str(s: &str) -> (r: Vec<char>)
    ensures
        r@ == s@,
{
    let mut it = s.chars();
    let mut r: Vec<char> = Vec::new();
    proof {
        assert(it.remaining() == s@);
    }
    loop
        invariant
            it.obeys_prophetic_iter_laws(),
            it.decrease() is Some,
            r@ + it.remaining() == s@,
        ensures
            r@ == s@,
        decreases it.decrease()->0,
    {
        match it.next() {
            Some(c) => {
                r.push(c);
            },
            None => {
                proof {
                    assert(r@ =~= s@);
                }
                break ;
            },
        }
    }
    r
}

/// The scanner: an immutable view of the source text and a cursor over its
/// characters.
pub struct Lexer {
    input: String,
    chars: Vec<char>,
    position: usize,
    read_position: usize,
    ch: Option<char>,
}

impl Lexer {
    /// The source text as a character sequence.
    pub closed spec fn src(&self) -> Seq<char> {
        self.chars@
    }

    /// The index of the current character.
    pub closed spec fn pos(&self) -> int {
        self.position as int
    }

    /// The cursor invariant: the character vector mirrors the text, the
    /// current character sits at `position` while any text is left, and the
    /// cursor rests at the end once the text is exhausted.
    pub closed spec fn wf(&self) -> bool {
        &&& self.input@ == self.chars@
        &&& self.position <= self.chars@.len()
        &&& (self.position < self.chars@.len() ==> {
            &&& self.read_position == self.position + 1
            &&& self.ch == Some(self.chars@[self.position as int])
        })
        &&& (self.position == self.chars@.len() ==> {
            &&& self.read_position == self.position
            &&& self.ch is None
        })
    }

    /// Builds a scanner over a complete source text, with the cursor on the
    /// first character.
    pub fn new(input: String) -> (lexer: Lexer)
        ensures
            lexer.wf(),
            lexer.src() == input@,
            lexer.pos() == 0,
    {
        let chars = chars_of_str(input.as_str());
        let ch: Option<char> = if chars.len() > 0 {
            Some(chars[0])
        } else {
            None
        };
        let read_position: usize = if chars.len() > 0 {
            1
        } else {
            0
        };
        Lexer { input, chars, position: 0, read_position, ch }
    }

    /// Advances the cursor one character; at the end of the text it stays
    /// put, so the exhausted state is permanent.
    pub fn read_char(&mut self)
        requires
            old(self).wf(),
        ensures
            final(self).wf(),
            final(self).src() == old(self).src(),
            final(self).pos() == if old(self).pos() < old(self).src().len() {
                old(self).pos() + 1
            } else {
                old(self).pos()
            },
    {
        if self.read_position < self.chars.len() {
            self.ch = Some(self.chars[self.read_position]);
            self.position = self.read_position;
            self.read_position = self.read_position + 1;
        } else {
            self.ch = None;
            self.position = self.chars.len();
            self.read_position = self.chars.len();
        }
    }

    /// Skips the maximal run of whitespace at the cursor.
    pub fn skip_whitespace(&mut self)
        requires
            old(self).wf(),
        ensures
            final(self).wf(),
            final(self).src() == old(self).src(),
            final(self).pos() == skip_ws(old(self).src(), old(self).pos()),
    {
        loop
            invariant
                self.wf(),
                self.src() == old(self).src(),
                0 <= self.pos() <= self.src().len(),
                skip_ws(self.src(), self.pos()) == skip_ws(old(self).src(), old(self).pos()),
            ensures
                self.wf(),
                self.src() == old(self).src(),
                self.pos() == skip_ws(old(self).src(), old(self).pos()),
            decreases self.src().len() - self.pos(),
        {
            match self.ch {
                Some(c) => {
                    if is_ws(c) {
                        self.read_char();
                    } else {
                        break ;
                    }
                },
                None => {
                    break ;
                },
            }
        }
    }

    /// Reads the maximal identifier run at the cursor and leaves the cursor
    /// on the first character past it. Digits are not part of an identifier:
    /// the run takes alphabetic characters and underscores only.
    pub fn read_identifier(&mut self) -> (literal: String)
        requires
            old(self).wf(),
        ensures
            final(self).wf(),
            final(self).src() == old(self).src(),
            final(self).pos() == ident_end(old(self).src(), old(self).pos()),
            literal@ == old(self).src().subrange(
                old(self).pos(),
                ident_end(old(self).src(), old(self).pos()),
            ),
    {
        let start_position: usize = self.position;
        loop
            invariant
                self.wf(),
                self.src() == old(self).src(),
                start_position as int == old(self).pos(),
                old(self).pos() <= self.pos() <= self.src().len(),
                ident_end(self.src(), self.pos()) == ident_end(old(self).src(), old(self).pos()),
            ensures
                self.wf(),
                self.src() == old(self).src(),
                start_position as int == old(self).pos(),
                self.pos() == ident_end(old(self).src(), old(self).pos()),
            decreases self.src().len() - self.pos(),
        {
            match self.ch {
                Some(c) => {
                    if is_letter(c) {
                        self.read_char();
                    } else {
                        break ;
                    }
                },
                None => {
                    break ;
                },
            }
        }
        let s = self.input.as_str().substring_char(start_position, self.position);
        s.to_owned()
    }

    /// Reads the maximal digit run at the cursor and leaves the cursor on
    /// the first character past it.
    pub fn read_number(&mut self) -> (literal: String)
        requires
            old(self).wf(),
        ensures
            final(self).wf(),
            final(self).src() == old(self).src(),
            final(self).pos() == number_end(old(self).src(), old(self).pos()),
            literal@ == old(self).src().subrange(
                old(self).pos(),
                number_end(old(self).src(), old(self).pos()),
            ),
    {
        let start_position: usize = self.position;
        loop
            invariant
                self.wf(),
                self.src() == old(self).src(),
                start_position as int == old(self).pos(),
                old(self).pos() <= self.pos() <= self.src().len(),
                number_end(self.src(), self.pos()) == number_end(old(self).src(), old(self).pos()),
            ensures
                self.wf(),
                self.src() == old(self).src(),
                start_position as int == old(self).pos(),
                self.pos() == number_end(old(self).src(), old(self).pos()),
            decreases self.src().len() - self.pos(),
        {
            match self.ch {
                Some(c) => {
                    if is_digit(c) {
                        self.read_char();
                    } else {
                        break ;
                    }
                },
                None => {
                    break ;
                },
            }
        }
        let s = self.input.as_str().substring_char(start_position, self.position);
        s.to_owned()
    }

    /// The current character as a one-character string, cut from the source.
    fn current_char_string(&self) -> (literal: String)
        requires
            self.wf(),
            self.pos() < self.src().len(),
        ensures
            literal@ == seq![self.src()[self.pos()]],
    {
        let s = self.input.as_str().substring_char(self.position, self.position + 1);
        proof {
            assert(s@ =~= seq![self.src()[self.pos()]]);
        }
        s.to_owned()
    }

    /// Returns the next token of the source and advances the cursor past it,
    /// exactly as `spec_next_token` says: whitespace is skipped, then the
    /// current character is classified; at the end of the text the
    /// end-of-input token comes back on this and every later call.
    pub fn next_token(&mut self) -> (token: Token)
        requires
            old(self).wf(),
        ensures
            final(self).wf(),
            final(self).src() == old(self).src(),
            token.token_type == spec_next_token(old(self).src(), old(self).pos()).0,
            token.literal@ == spec_next_token(old(self).src(), old(self).pos()).1,
            final(self).pos() == spec_next_token(old(self).src(), old(self).pos()).2,
    {
        self.skip_whitespace();
        proof {
            lemma_skip_ws_props(old(self).src(), old(self).pos());
        }
        let mut multi_char_read: bool = false;
        let token: Token = match self.ch {
            None => Token::new(TokenType::Eof, String::new()),
            Some(c) => {
                if c == '=' {
                    Token::new(TokenType::Assign, self.current_char_string())
                } else if c == '+' {
                    Token::new(TokenType::Plus, self.current_char_string())
                } else if c == ',' {
                    Token::new(TokenType::Comma, self.current_char_string())
                } else if c == ';' {
                    Token::new(TokenType::Semicolon, self.current_char_string())
                } else if c == '(' {
                    Token::new(TokenType::Lparen, self.current_char_string())
                } else if c == ')' {
                    Token::new(TokenType::Rparen, self.current_char_string())
                } else if c == '{' {
                    Token::new(TokenType::Lbrace, self.current_char_string())
                } else if c == '}' {
                    Token::new(TokenType::Rbrace, self.current_char_string())
                } else if is_digit(c) {
                    let literal = self.read_number();
                    multi_char_read = true;
                    Token::new(TokenType::Int, literal)
                } else if is_letter(c) {
                    let literal = self.read_identifier();
                    let token_type = Token::lookup_ident(literal.as_str());
                    multi_char_read = true;
                    Token::new(token_type, literal)
                } else {
                    Token::new(TokenType::Illegal, self.current_char_string())
                }
            },
        };
        if !multi_char_read {
            self.read_char();
        }
        token
    }
}

} // verus!
