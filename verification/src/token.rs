//! The token model: a closed set of token kinds, an immutable
//! `(kind, literal)` pair, and the keyword lookup that decides whether an
//! identifier spelling is reserved.

use vstd::prelude::*;
use vstd::string::StrSliceExecFns;

verus! {

/// The closed set of lexical categories a token may belong to.
#[derive(Debug, PartialEq, Eq, Clone, Copy, Structural)]
pub enum TokenType {
    Illegal,
    Eof,
    Ident,
    Int,
    Assign,
    Plus,
    Comma,
    Semicolon,
    Lparen,
    Rparen,
    Lbrace,
    Rbrace,
    Function,
    Let,
}

/// A token: the category it was classified under, and the exact substring of
/// the source text that produced it (empty for end of input).
#[derive(Debug, PartialEq, Eq)]
pub struct Token {
    pub token_type: TokenType,
    pub literal: String,
}

/// The spelling of the function keyword.
pub open spec fn fn_keyword() -> Seq<char> {
    seq!['f', 'n']
}

/// The spelling of the let keyword.
pub open spec fn let_keyword() -> Seq<char> {
    seq!['l', 'e', 't']
}

/// The keyword table: exactly the two reserved spellings map to keyword
/// kinds; every other spelling is an ordinary identifier.
pub open spec fn spec_lookup_ident(literal: Seq<char>) -> TokenType {
    if literal == fn_keyword() {
        TokenType::Function
    } else if literal == let_keyword() {
        TokenType::Let
    } else {
        TokenType::Ident
    }
}

impl Token {
    /// Packs a kind and a literal into a token.
    pub fn new(token_type: TokenType, literal: String) -> (token: Token)
        ensures
            token.token_type == token_type,
            token.literal == literal,
    {
        Token { token_type, literal }
    }

    /// Decides the kind of an identifier spelling: the keyword kind on an
    /// exact keyword match, `Ident` otherwise.
    pub fn lookup_ident(literal: &str) -> (token_type: TokenType)
        ensures
            token_type == spec_lookup_ident(literal@),
    {
        let n: usize = literal.unicode_len();
        if n == 2 && literal.get_char(0) == 'f' && literal.get_char(1) == 'n' {
            proof {
                assert(literal@ =~= fn_keyword());
            }
            TokenType::Function
        } else if n == 3 && literal.get_char(0) == 'l' && literal.get_char(1) == 'e'
            && literal.get_char(2) == 't' {
            proof {
                assert(literal@ =~= let_keyword());
            }
            TokenType::Let
        } else {
            proof {
                if literal@ == fn_keyword() {
                    assert(literal@.len() == 2 && literal@[0] == 'f' && literal@[1] == 'n');
                }
                if literal@ == let_keyword() {
                    assert(literal@.len() == 3 && literal@[0] == 'l' && literal@[1] == 'e'
                        && literal@[2] == 't');
                }
            }
            TokenType::Ident
        }
    }
}

} // verus!
