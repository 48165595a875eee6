use vstd::prelude::*;
use crate::lexer::{scan, Lexer};
use crate::token::{Token, TokenKind};

verus! {

/// The kind and literal of the token that a step from cursor `pos` yields.
pub open spec fn scanned_token(s: Seq<char>, pos: int) -> (TokenKind, Seq<char>) {
    (scan(s, pos).0, scan(s, pos).1)
}

/// The model of a held token slot.
pub open spec fn slot_view(slot: Option<Token>) -> Option<(TokenKind, Seq<char>)> {
    match slot {
        Some(t) => Some(t@),
        None => None,
    }
}

/// A recursive-descent front end over a lexer, with a window of two tokens:
/// the current one and the one after it.
pub struct Parser<'a> {
    lexer: Lexer<'a>,
    curr: Option<Token>,
    peek: Option<Token>,
}

impl<'a> Parser<'a> {
    /// The lexer that feeds the window.
    pub closed spec fn source(&self) -> Lexer<'a> {
        self.lexer
    }

    /// The current token.
    pub closed spec fn current(&self) -> Option<(TokenKind, Seq<char>)> {
        slot_view(self.curr)
    }

    /// The token after the current one.
    pub closed spec fn next(&self) -> Option<(TokenKind, Seq<char>)> {
        slot_view(self.peek)
    }

    /// Fills the window with the first two tokens that `lexer` yields.
    pub fn new(lexer: Lexer<'a>) -> (p: Parser<'a>)
        requires
            lexer.well_formed(),
        ensures
            p.source().well_formed(),
            p.source().text() == lexer.text(),
            p.current() == Some(scanned_token(lexer.text(), lexer.cursor())),
            p.next() == Some(
                scanned_token(lexer.text(), scan(lexer.text(), lexer.cursor()).2),
            ),
            p.source().cursor() == scan(lexer.text(), scan(lexer.text(), lexer.cursor()).2).2,
    {
        let mut p = Parser { lexer, curr: None, peek: None };
        p.next_token();
        p.next_token();
        p
    }

    /// Shifts the window one token forward: the next token becomes the current
    /// one, and a new token is pulled from the lexer.
    pub fn next_token(&mut self)
        requires
            old(self).source().well_formed(),
        ensures
            final(self).source().well_formed(),
            final(self).source().text() == old(self).source().text(),
            final(self).current() == old(self).next(),
            final(self).next() == Some(
                scanned_token(old(self).source().text(), old(self).source().cursor()),
            ),
            final(self).source().cursor() == scan(
                old(self).source().text(),
                old(self).source().cursor(),
            ).2,
    {
        self.curr = self.peek.take();
        self.peek = Some(self.lexer.next_token());
    }

    /// When the next token has kind `kind`, shifts the window and returns true;
    /// otherwise leaves everything as it is and returns false.
    pub fn expect_peek(&mut self, kind: TokenKind) -> (r: bool)
        requires
            old(self).source().well_formed(),
        ensures
            r == (old(self).next() is Some && (old(self).next()->0).0 == kind),
            final(self).source().well_formed(),
            final(self).source().text() == old(self).source().text(),
            r ==> final(self).current() == old(self).next() && final(self).next() == Some(
                scanned_token(old(self).source().text(), old(self).source().cursor()),
            ) && final(self).source().cursor() == scan(
                old(self).source().text(),
                old(self).source().cursor(),
            ).2,
            !r ==> *final(self) == *old(self),
    {
        let matches = match &self.peek {
            Some(t) => t.kind == kind,
            None => false,
        };
        if matches {
            self.next_token();
            true
        } else {
            false
        }
    }
}

} // verus!
