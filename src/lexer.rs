use vstd::prelude::*;
use crate::token::{
    keyword_kind, keyword_or_ident, punctuation_kind, symbol_kind, symbol_or_ident, Token,
    TokenKind,
};

verus! {

/// Space, tab, newline and carriage return separate tokens and are skipped.
pub open spec fn is_whitespace(c: char) -> bool {
    c == ' ' || c == '\t' || c == '\n' || c == '\r'
}

/// Characters of an identifier: ASCII letters and the underscore.
pub open spec fn is_letter_char(c: char) -> bool {
    ('a' <= c && c <= 'z') || ('A' <= c && c <= 'Z') || c == '_'
}

/// Characters of a number literal: ASCII decimal digits.
pub open spec fn is_digit_char(c: char) -> bool {
    '0' <= c && c <= '9'
}

/// Whether `c` belongs to the digit class (`digits`) or to the letter class.
pub open spec fn in_class(c: char, digits: bool) -> bool {
    if digits {
        is_digit_char(c)
    } else {
        is_letter_char(c)
    }
}

/// The first index at or after `i` that does not hold whitespace.
pub open spec fn skip_whitespace(s: Seq<char>, i: int) -> int
    decreases s.len() - i,
{
    if 0 <= i < s.len() && is_whitespace(s[i]) {
        skip_whitespace(s, i + 1)
    } else {
        i
    }
}

/// The end of the longest run of characters of one class that starts at `i`.
pub open spec fn run_end(s: Seq<char>, i: int, digits: bool) -> int
    decreases s.len() - i,
{
    if 0 <= i < s.len() && in_class(s[i], digits) {
        run_end(s, i + 1, digits)
    } else {
        i
    }
}

/// One scanning step from cursor `pos`: the kind and literal of the token that
/// comes next, and where the cursor stands after it.
pub open spec fn scan(s: Seq<char>, pos: int) -> (TokenKind, Seq<char>, int) {
    let start = skip_whitespace(s, pos);
    if start >= s.len() {
        (TokenKind::Eof, Seq::empty(), start)
    } else {
        let c = s[start];
        if punctuation_kind(c) is Some {
            (symbol_kind(seq![c]), seq![c], start + 1)
        } else if is_digit_char(c) {
            let end = run_end(s, start, true);
            (TokenKind::Number, s.subrange(start, end), end)
        } else if is_letter_char(c) {
            let end = run_end(s, start, false);
            let w = s.subrange(start, end);
            (keyword_kind(w), w, end)
        } else {
            (TokenKind::Illegal, seq![c], start + 1)
        }
    }
}

/// A pull-based tokenizer over a borrowed source text.
pub struct Lexer<'a> {
    input: &'a str,
    chars: Vec<char>,
    position: usize,
    ch: char,
}

impl<'a> Lexer<'a> {
    /// The characters of the source text.
    pub closed spec fn text(&self) -> Seq<char> {
        self.input@
    }

    /// The index of the current character; the length of the text at the end.
    pub closed spec fn cursor(&self) -> int {
        self.position as int
    }

    /// The cursor lies within the text, `chars` mirrors the text and `ch` holds the
    /// current character (NUL at the end).
    pub closed spec fn well_formed(&self) -> bool {
        &&& self.chars@ == self.input@
        &&& self.position <= self.chars@.len()
        &&& self.ch == if self.position < self.chars@.len() {
            self.chars@[self.position as int]
        } else {
            '\0'
        }
    }

    /// Creates a lexer whose cursor stands on the first character of `input`.
    pub fn new(input: &'a str) -> (l: Lexer<'a>)
        ensures
            l.well_formed(),
            l.text() == input@,
            l.cursor() == 0,
    {
        let mut chars: Vec<char> = Vec::new();
        for c in it: input.chars()
            invariant
                chars@ == it.seq().take(it.index() as int),
        {
            chars.push(c);
        }
        assert(chars@ == input@);
        let ch = if chars.len() > 0 {
            chars[0]
        } else {
            '\0'
        };
        Lexer { input, chars, position: 0, ch }
    }

    fn new_token(kind: TokenKind, literal: &str) -> (t: Token)
        ensures
            t@ == (kind, literal@),
    {
        Token { kind, literal: literal.to_owned() }
    }

    /// Scans the next token and moves the cursor past it; at the end of the text
    /// it returns `Eof` and leaves the cursor where it is.
    pub fn next_token(&mut self) -> (t: Token)
        requires
            old(self).well_formed(),
        ensures
            final(self).well_formed(),
            final(self).text() == old(self).text(),
            (t.kind, t.literal@, final(self).cursor()) == scan(old(self).text(), old(self).cursor()),
            old(self).cursor() <= final(self).cursor(),
    {
        proof {
            lemma_scan_advances(self.input@, self.position as int);
        }
        self.read_whitespace();
        if self.position >= self.chars.len() {
            proof {
                reveal_strlit("");
            }
            return Lexer::new_token(TokenKind::Eof, "");
        }
        match self.ch {
            ':' | ',' | '(' | ')' | '{' | '}' | '[' | ']' | '&' | '|' => {
                let symbol = self.read_symbol_token();
                let kind = symbol_or_ident(symbol);
                Lexer::new_token(kind, symbol)
            },
            '0'..='9' => {
                let number = self.read_literal_token(true);
                Lexer::new_token(TokenKind::Number, number)
            },
            'a'..='z' | 'A'..='Z' | '_' => {
                let ident = self.read_literal_token(false);
                let kind = keyword_or_ident(ident);
                Lexer::new_token(kind, ident)
            },
            _ => {
                let illegal = self.read_symbol_token();
                Lexer::new_token(TokenKind::Illegal, illegal)
            },
        }
    }

    /// Moves the cursor one character forward.
    fn read_token(&mut self)
        requires
            old(self).well_formed(),
            old(self).position < old(self).chars@.len(),
        ensures
            final(self).well_formed(),
            final(self).input == old(self).input,
            final(self).position == old(self).position + 1,
    {
        let n = self.chars.len();
        self.position = self.position + 1;
        if self.position >= n {
            self.ch = '\0';
        } else {
            self.ch = self.chars[self.position];
        }
    }

    /// Moves the cursor past any whitespace.
    fn read_whitespace(&mut self)
        requires
            old(self).well_formed(),
        ensures
            final(self).well_formed(),
            final(self).input == old(self).input,
            final(self).position == skip_whitespace(old(self).input@, old(self).position as int),
    {
        while self.position < self.chars.len() && (self.ch == ' ' || self.ch == '\n' || self.ch
            == '\t' || self.ch == '\r')
            invariant
                self.well_formed(),
                self.input == old(self).input,
                old(self).position <= self.position,
                skip_whitespace(self.input@, self.position as int) == skip_whitespace(
                    old(self).input@,
                    old(self).position as int,
                ),
            decreases self.chars@.len() - self.position,
        {
            self.read_token();
        }
    }

    /// Consumes the current character and returns it as text.
    fn read_symbol_token(&mut self) -> (r: &'a str)
        requires
            old(self).well_formed(),
            old(self).position < old(self).chars@.len(),
        ensures
            final(self).well_formed(),
            final(self).input == old(self).input,
            final(self).position == old(self).position + 1,
            r@ == seq![old(self).ch],
    {
        let position = self.position;
        self.read_token();
        let r = self.input.substring_char(position, self.position);
        assert(r@ =~= seq![old(self).ch]);
        r
    }

    /// Consumes the longest run of characters of one class (digits, or letters
    /// and underscores) and returns it as text.
    fn read_literal_token(&mut self, digits: bool) -> (r: &'a str)
        requires
            old(self).well_formed(),
        ensures
            final(self).well_formed(),
            final(self).input == old(self).input,
            final(self).position == run_end(old(self).input@, old(self).position as int, digits),
            r@ == old(self).input@.subrange(old(self).position as int, final(self).position as int),
    {
        let position = self.position;
        while self.position < self.chars.len() && is_in_class(self.ch, digits)
            invariant
                self.well_formed(),
                self.input == old(self).input,
                position <= self.position,
                run_end(self.input@, self.position as int, digits) == run_end(
                    old(self).input@,
                    position as int,
                    digits,
                ),
            decreases self.chars@.len() - self.position,
        {
            self.read_token();
        }
        self.input.substring_char(position, self.position)
    }
}

/// Whether `ch` may stand in an identifier.
pub fn is_letter(ch: char) -> (r: bool)
    ensures
        r == is_letter_char(ch),
{
    ('a' <= ch && ch <= 'z') || ('A' <= ch && ch <= 'Z') || ch == '_'
}

/// Whether `ch` belongs to the digit class (`digits`) or to the letter class.
fn is_in_class(ch: char, digits: bool) -> (r: bool)
    ensures
        r == in_class(ch, digits),
{
    if digits {
        is_number(ch)
    } else {
        is_letter(ch)
    }
}

/// Whether `ch` is a decimal digit.
pub fn is_number(ch: char) -> (r: bool)
    ensures
        r == is_digit_char(ch),
{
    '0' <= ch && ch <= '9'
}

} // verus!

verus! {

/// The tokens scanned from cursor `pos` up to, not including, the first `Eof`.
pub open spec fn tokens_from(s: Seq<char>, pos: int) -> Seq<(TokenKind, Seq<char>)>
    decreases s.len() - pos,
{
    let (kind, literal, next) = scan(s, pos);
    if kind == TokenKind::Eof || next <= pos || next > s.len() {
        Seq::empty()
    } else {
        seq![(kind, literal)] + tokens_from(s, next)
    }
}

/// The literals of `ts`, joined in order.
pub open spec fn joined_literals(ts: Seq<(TokenKind, Seq<char>)>) -> Seq<char>
    decreases ts.len(),
{
    if ts.len() == 0 {
        Seq::empty()
    } else {
        ts[0].1 + joined_literals(ts.drop_first())
    }
}

/// `s` with every whitespace character taken out.
pub open spec fn strip_whitespace(s: Seq<char>) -> Seq<char>
    decreases s.len(),
{
    if s.len() == 0 {
        Seq::empty()
    } else if is_whitespace(s[0]) {
        strip_whitespace(s.drop_first())
    } else {
        seq![s[0]] + strip_whitespace(s.drop_first())
    }
}

proof fn lemma_skip_whitespace(s: Seq<char>, i: int)
    requires
        0 <= i <= s.len(),
    ensures
        i <= skip_whitespace(s, i) <= s.len(),
        forall|j: int| i <= j < skip_whitespace(s, i) ==> is_whitespace(#[trigger] s[j]),
        skip_whitespace(s, i) < s.len() ==> !is_whitespace(s[skip_whitespace(s, i)]),
    decreases s.len() - i,
{
    if i < s.len() && is_whitespace(s[i]) {
        lemma_skip_whitespace(s, i + 1);
    }
}

proof fn lemma_run_end(s: Seq<char>, i: int, digits: bool)
    requires
        0 <= i <= s.len(),
    ensures
        i <= run_end(s, i, digits) <= s.len(),
        forall|j: int| i <= j < run_end(s, i, digits) ==> in_class(#[trigger] s[j], digits),
    decreases s.len() - i,
{
    if i < s.len() && in_class(s[i], digits) {
        lemma_run_end(s, i + 1, digits);
    }
}

proof fn lemma_strip_concat(a: Seq<char>, b: Seq<char>)
    ensures
        strip_whitespace(a + b) == strip_whitespace(a) + strip_whitespace(b),
    decreases a.len(),
{
    if a.len() == 0 {
        assert(a + b =~= b);
    } else {
        assert((a + b).drop_first() =~= a.drop_first() + b);
        lemma_strip_concat(a.drop_first(), b);
        if !is_whitespace(a[0]) {
            assert(seq![a[0]] + (strip_whitespace(a.drop_first()) + strip_whitespace(b))
                =~= (seq![a[0]] + strip_whitespace(a.drop_first())) + strip_whitespace(b));
        }
    }
}

proof fn lemma_strip_all_whitespace(a: Seq<char>)
    requires
        forall|j: int| 0 <= j < a.len() ==> is_whitespace(#[trigger] a[j]),
    ensures
        strip_whitespace(a) == Seq::<char>::empty(),
    decreases a.len(),
{
    if a.len() > 0 {
        assert(is_whitespace(a[0]));
        assert forall|j: int| 0 <= j < a.drop_first().len() implies is_whitespace(
            #[trigger] a.drop_first()[j],
        ) by {
            assert(is_whitespace(a[j + 1]));
        }
        lemma_strip_all_whitespace(a.drop_first());
    }
}

proof fn lemma_strip_no_whitespace(a: Seq<char>)
    requires
        forall|j: int| 0 <= j < a.len() ==> !is_whitespace(#[trigger] a[j]),
    ensures
        strip_whitespace(a) == a,
    decreases a.len(),
{
    if a.len() > 0 {
        assert(!is_whitespace(a[0]));
        assert forall|j: int| 0 <= j < a.drop_first().len() implies !is_whitespace(
            #[trigger] a.drop_first()[j],
        ) by {
            assert(!is_whitespace(a[j + 1]));
        }
        lemma_strip_no_whitespace(a.drop_first());
        assert(seq![a[0]] + a.drop_first() =~= a);
    }
}

/// Every step from a cursor within the text stays within it; a step that yields
/// anything but `Eof` moves the cursor strictly forward, and its literal is the
/// text between the first non-whitespace character and the new cursor.
pub proof fn lemma_scan_advances(s: Seq<char>, pos: int)
    requires
        0 <= pos <= s.len(),
    ensures
        pos <= scan(s, pos).2 <= s.len(),
        scan(s, pos).0 == TokenKind::Eof <==> scan(s, pos).2 == s.len() && skip_whitespace(s, pos)
            == s.len(),
        scan(s, pos).0 != TokenKind::Eof ==> pos < scan(s, pos).2 && scan(s, pos).1 == s.subrange(
            skip_whitespace(s, pos),
            scan(s, pos).2,
        ),
{
    lemma_skip_whitespace(s, pos);
    let start = skip_whitespace(s, pos);
    if start < s.len() {
        let c = s[start];
        assert(seq![c] =~= s.subrange(start, start + 1));
        if punctuation_kind(c) is None && is_digit_char(c) {
            lemma_run_end(s, start, true);
            lemma_run_end(s, start + 1, true);
        } else if punctuation_kind(c) is None && is_letter_char(c) {
            lemma_run_end(s, start, false);
            lemma_run_end(s, start + 1, false);
            assert(keyword_kind(s.subrange(start, run_end(s, start, false))) != TokenKind::Eof);
        }
    }
}

/// Once a step yields `Eof`, every further step from where it left the cursor
/// yields `Eof` again and leaves the cursor where it is.
pub proof fn lemma_eof_is_sticky(s: Seq<char>, pos: int)
    requires
        0 <= pos <= s.len(),
        scan(s, pos).0 == TokenKind::Eof,
    ensures
        scan(s, scan(s, pos).2) == scan(s, pos),
{
    lemma_scan_advances(s, pos);
}

/// The literals of the tokens scanned from `pos`, joined in order, are the text
/// from `pos` on with its whitespace taken out: no character is lost, repeated
/// or reordered.
pub proof fn lemma_literals_cover_input(s: Seq<char>, pos: int)
    requires
        0 <= pos <= s.len(),
    ensures
        joined_literals(tokens_from(s, pos)) == strip_whitespace(s.subrange(pos, s.len() as int)),
    decreases s.len() - pos,
{
    lemma_scan_advances(s, pos);
    lemma_skip_whitespace(s, pos);
    let start = skip_whitespace(s, pos);
    let (kind, literal, next) = scan(s, pos);
    assert(s.subrange(pos, s.len() as int) =~= s.subrange(pos, start) + s.subrange(
        start,
        s.len() as int,
    ));
    lemma_strip_concat(s.subrange(pos, start), s.subrange(start, s.len() as int));
    lemma_strip_all_whitespace(s.subrange(pos, start));
    if kind == TokenKind::Eof {
        assert(s.subrange(start, s.len() as int) =~= Seq::<char>::empty());
        assert(strip_whitespace(Seq::<char>::empty()) =~= Seq::<char>::empty());
    } else {
        let c = s[start];
        if punctuation_kind(c) is None && is_digit_char(c) {
            lemma_run_end(s, start, true);
        } else if punctuation_kind(c) is None && is_letter_char(c) {
            lemma_run_end(s, start, false);
        }
        assert forall|j: int| 0 <= j < literal.len() implies !is_whitespace(
            #[trigger] literal[j],
        ) by {
            assert(literal[j] == s[start + j]);
        }
        lemma_strip_no_whitespace(literal);
        assert(s.subrange(start, s.len() as int) =~= literal + s.subrange(next, s.len() as int));
        lemma_strip_concat(literal, s.subrange(next, s.len() as int));
        lemma_literals_cover_input(s, next);
        let ts = tokens_from(s, pos);
        assert(ts.drop_first() =~= tokens_from(s, next));
    }
}

} // verus!
