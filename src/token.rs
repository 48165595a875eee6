use vstd::prelude::*;

verus! {

/// The closed set of token kinds.
#[derive(Debug, Clone, Copy, PartialEq, Eq, Structural)]
pub enum TokenKind {
    // punctuation
    And,
    Or,
    Colon,
    Comma,
    LeftParen,
    RightParen,
    LeftBrace,
    RightBrace,
    LeftBracket,
    RightBracket,
    // keywords
    Struct,
    Enum,
    Number,
    String,
    Boolean,
    Null,
    // other
    Ident,
    Illegal,
    Eof,
}

/// A classified unit of input: its kind and the exact text it was scanned from.
#[derive(Debug, Clone, PartialEq, Eq)]
pub struct Token {
    pub kind: TokenKind,
    pub literal: std::string::String,
}

impl View for Token {
    type V = (TokenKind, Seq<char>);

    open spec fn view(&self) -> (TokenKind, Seq<char>) {
        (self.kind, self.literal@)
    }
}

/// The keyword table: the kind of a reserved word, `Ident` for any other text.
pub open spec fn keyword_kind(w: Seq<char>) -> TokenKind {
    if w == seq!['s', 't', 'r', 'u', 'c', 't'] {
        TokenKind::Struct
    } else if w == seq!['e', 'n', 'u', 'm'] {
        TokenKind::Enum
    } else if w == seq!['n', 'u', 'm', 'b', 'e', 'r'] {
        TokenKind::Number
    } else if w == seq!['s', 't', 'r', 'i', 'n', 'g'] {
        TokenKind::String
    } else if w == seq!['b', 'o', 'o', 'l', 'e', 'a', 'n'] {
        TokenKind::Boolean
    } else if w == seq!['n', 'u', 'l', 'l'] {
        TokenKind::Null
    } else {
        TokenKind::Ident
    }
}

/// The kind of a single punctuation character, if it is one.
pub open spec fn punctuation_kind(c: char) -> Option<TokenKind> {
    if c == ':' {
        Some(TokenKind::Colon)
    } else if c == ',' {
        Some(TokenKind::Comma)
    } else if c == '(' {
        Some(TokenKind::LeftParen)
    } else if c == ')' {
        Some(TokenKind::RightParen)
    } else if c == '{' {
        Some(TokenKind::LeftBrace)
    } else if c == '}' {
        Some(TokenKind::RightBrace)
    } else if c == '[' {
        Some(TokenKind::LeftBracket)
    } else if c == ']' {
        Some(TokenKind::RightBracket)
    } else if c == '&' {
        Some(TokenKind::And)
    } else if c == '|' {
        Some(TokenKind::Or)
    } else {
        None
    }
}

/// The symbol table: the kind of a one-character punctuation text, `Ident` for
/// any other text.
pub open spec fn symbol_kind(s: Seq<char>) -> TokenKind {
    if s.len() == 1 && punctuation_kind(s[0]) is Some {
        punctuation_kind(s[0])->0
    } else {
        TokenKind::Ident
    }
}

/// Whether `s` holds exactly the characters of `w`.
fn text_is(s: &str, w: &str) -> (r: bool)
    ensures
        r == (s@ == w@),
{
    let n = s.unicode_len();
    if n != w.unicode_len() {
        return false;
    }
    let mut i: usize = 0;
    while i < n
        invariant
            n == s@.len(),
            n == w@.len(),
            i <= n,
            s@.subrange(0, i as int) == w@.subrange(0, i as int),
        decreases n - i,
    {
        if s.get_char(i) != w.get_char(i) {
            return false;
        }
        assert(s@.subrange(0, i + 1) == s@.subrange(0, i as int).push(s@[i as int]));
        assert(w@.subrange(0, i + 1) == w@.subrange(0, i as int).push(w@[i as int]));
        i = i + 1;
    }
    assert(s@ == s@.subrange(0, n as int));
    assert(w@ == w@.subrange(0, n as int));
    true
}

/// Looks `ident` up in the keyword table.
pub fn keyword_or_ident(ident: &str) -> (r: TokenKind)
    ensures
        r == keyword_kind(ident@),
{
    proof {
        reveal_strlit("struct");
        reveal_strlit("enum");
        reveal_strlit("number");
        reveal_strlit("string");
        reveal_strlit("boolean");
        reveal_strlit("null");
        assert("struct"@ =~= seq!['s', 't', 'r', 'u', 'c', 't']);
        assert("enum"@ =~= seq!['e', 'n', 'u', 'm']);
        assert("number"@ =~= seq!['n', 'u', 'm', 'b', 'e', 'r']);
        assert("string"@ =~= seq!['s', 't', 'r', 'i', 'n', 'g']);
        assert("boolean"@ =~= seq!['b', 'o', 'o', 'l', 'e', 'a', 'n']);
        assert("null"@ =~= seq!['n', 'u', 'l', 'l']);
    }
    if text_is(ident, "struct") {
        TokenKind::Struct
    } else if text_is(ident, "enum") {
        TokenKind::Enum
    } else if text_is(ident, "number") {
        TokenKind::Number
    } else if text_is(ident, "string") {
        TokenKind::String
    } else if text_is(ident, "boolean") {
        TokenKind::Boolean
    } else if text_is(ident, "null") {
        TokenKind::Null
    } else {
        TokenKind::Ident
    }
}

/// The kind of a punctuation character, if it is one.
pub fn punctuation_of(c: char) -> (r: Option<TokenKind>)
    ensures
        r == punctuation_kind(c),
{
    match c {
        ':' => Some(TokenKind::Colon),
        ',' => Some(TokenKind::Comma),
        '(' => Some(TokenKind::LeftParen),
        ')' => Some(TokenKind::RightParen),
        '{' => Some(TokenKind::LeftBrace),
        '}' => Some(TokenKind::RightBrace),
        '[' => Some(TokenKind::LeftBracket),
        ']' => Some(TokenKind::RightBracket),
        '&' => Some(TokenKind::And),
        '|' => Some(TokenKind::Or),
        _ => None,
    }
}

/// Looks `symbol` up in the symbol table.
pub fn symbol_or_ident(symbol: &str) -> (r: TokenKind)
    ensures
        r == symbol_kind(symbol@),
{
    if symbol.unicode_len() != 1 {
        return TokenKind::Ident;
    }
    match punctuation_of(symbol.get_char(0)) {
        Some(k) => k,
        None => TokenKind::Ident,
    }
}

} // verus!
