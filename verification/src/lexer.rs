//! Lexical analysis: turns expression text into tokens, lazily, with one
//! token of lookahead.
//!
//! The meaning of the lexer is given by `spec_read_token`, which maps a
//! character sequence and a position to the token starting there and the
//! position just after it; `spec_tokenise` iterates it to the end marker.

use crate::token::{Token, TokenView};
use vstd::prelude::*;

verus! {

/// A lexical failure: a character the language has no token for, or a
/// radix-prefixed integer literal with no digits after its prefix. Both
/// carry the offset at which they were found.
#[derive(Debug, Clone, Copy, PartialEq)]
pub enum LexerErr {
    IllegalChar(char, usize),
    InvalidValue(usize),
}

/// An ASCII decimal digit.
pub open spec fn is_dec_digit(c: char) -> bool {
    48 <= c as u32 <= 57
}

/// An ASCII digit of the given radix (2, 8, 10 or 16; hexadecimal digits
/// may be upper or lower case).
pub open spec fn is_digit_radix(c: char, radix: u32) -> bool {
    if radix == 16 {
        is_dec_digit(c) || 97 <= c as u32 <= 102 || 65 <= c as u32 <= 70
    } else if radix == 10 {
        is_dec_digit(c)
    } else if radix == 8 {
        48 <= c as u32 <= 55
    } else {
        48 <= c as u32 <= 49
    }
}

/// An ASCII alphabetic character.
pub open spec fn is_alpha(c: char) -> bool {
    65 <= c as u32 <= 90 || 97 <= c as u32 <= 122
}

/// A radix marker after a leading zero: b/B, o/O or x/X.
pub open spec fn is_radix_marker(c: char) -> bool {
    c == 'b' || c == 'B' || c == 'o' || c == 'O' || c == 'x' || c == 'X'
}

/// The radix a marker selects.
pub open spec fn radix_of_marker(c: char) -> u32 {
    if c == 'b' || c == 'B' {
        2u32
    } else if c == 'o' || c == 'O' {
        8u32
    } else {
        16u32
    }
}

/// First position at or after `pos` that does not hold a space.
pub open spec fn spec_skip_spaces(s: Seq<char>, pos: int) -> int
    decreases s.len() - pos when 0 <= pos <= s.len()
{
    if pos < s.len() && s[pos] == ' ' {
        spec_skip_spaces(s, pos + 1)
    } else {
        pos
    }
}

/// First position at or after `pos` that does not hold a digit of the
/// given radix: the end of the digit run starting at `pos`.
pub open spec fn spec_scan_digits(s: Seq<char>, pos: int, radix: u32) -> int
    decreases s.len() - pos when 0 <= pos <= s.len()
{
    if pos < s.len() && is_digit_radix(s[pos], radix) {
        spec_scan_digits(s, pos + 1, radix)
    } else {
        pos
    }
}

/// First position at or after `pos` that does not hold an ASCII alphabetic
/// character: the end of the name starting at `pos`.
pub open spec fn spec_scan_alpha(s: Seq<char>, pos: int) -> int
    decreases s.len() - pos when 0 <= pos <= s.len()
{
    if pos < s.len() && is_alpha(s[pos]) {
        spec_scan_alpha(s, pos + 1)
    } else {
        pos
    }
}

pub proof fn lemma_skip_spaces(s: Seq<char>, pos: int)
    requires
        0 <= pos <= s.len(),
    ensures
        pos <= spec_skip_spaces(s, pos) <= s.len(),
    decreases s.len() - pos,
{
    if pos < s.len() && s[pos] == ' ' {
        lemma_skip_spaces(s, pos + 1);
    }
}

pub proof fn lemma_scan_digits(s: Seq<char>, pos: int, radix: u32)
    requires
        0 <= pos <= s.len(),
    ensures
        pos <= spec_scan_digits(s, pos, radix) <= s.len(),
    decreases s.len() - pos,
{
    if pos < s.len() && is_digit_radix(s[pos], radix) {
        lemma_scan_digits(s, pos + 1, radix);
    }
}

pub proof fn lemma_scan_alpha(s: Seq<char>, pos: int)
    requires
        0 <= pos <= s.len(),
    ensures
        pos <= spec_scan_alpha(s, pos) <= s.len(),
    decreases s.len() - pos,
{
    if pos < s.len() && is_alpha(s[pos]) {
        lemma_scan_alpha(s, pos + 1);
    }
}

/// The number token starting at `start`, which holds a decimal digit.
/// A leading `0` with a radix marker starts a radix literal, which must
/// have at least one digit. A decimal digit run followed by `.`, `e` or
/// `E` continues as a float literal: optional fraction digits, then an
/// optional exponent with optional sign.
pub open spec fn spec_read_number(s: Seq<char>, start: int) -> (Result<TokenView, LexerErr>, int) {
    if s[start] == '0' && start + 1 < s.len() && is_radix_marker(s[start + 1]) {
        let radix = radix_of_marker(s[start + 1]);
        let dstart = start + 2;
        let dend = spec_scan_digits(s, dstart, radix);
        if dend == dstart {
            (Err(LexerErr::InvalidValue(start as usize)), dstart)
        } else {
            (Ok(TokenView::Int(s.subrange(dstart, dend), radix, start)), dend)
        }
    } else {
        let iend = spec_scan_digits(s, start, 10);
        if iend < s.len() && (s[iend] == '.' || s[iend] == 'e' || s[iend] == 'E') {
            let fend = if s[iend] == '.' {
                spec_scan_digits(s, iend + 1, 10)
            } else {
                iend
            };
            let eend = if fend < s.len() && (s[fend] == 'e' || s[fend] == 'E') {
                if fend + 1 < s.len() && (s[fend + 1] == '+' || s[fend + 1] == '-') {
                    spec_scan_digits(s, fend + 2, 10)
                } else {
                    spec_scan_digits(s, fend + 1, 10)
                }
            } else {
                fend
            };
            (Ok(TokenView::Float(s.subrange(start, eend), start)), eend)
        } else {
            (Ok(TokenView::Int(s.subrange(start, iend), 10, start)), iend)
        }
    }
}

/// The token starting at or after `pos`, and the position just after it.
/// Spaces are skipped; past the end of the text -- or at a NUL character,
/// which the cursor cannot tell from the end -- the end marker is
/// produced, at its own position, without advancing.
pub open spec fn spec_read_token(s: Seq<char>, pos: int) -> (Result<TokenView, LexerErr>, int) {
    let start = spec_skip_spaces(s, pos);
    if start >= s.len() || s[start] == '\0' {
        (Ok(TokenView::Eof(start)), start)
    } else {
        let c = s[start];
        if is_dec_digit(c) {
            spec_read_number(s, start)
        } else if is_alpha(c) {
            let end = spec_scan_alpha(s, start);
            (Ok(TokenView::Name(s.subrange(start, end), start)), end)
        } else if c == '*' {
            if start + 1 < s.len() && s[start + 1] == '*' {
                (Ok(TokenView::Pow(start)), start + 2)
            } else {
                (Ok(TokenView::Mul(start)), start + 1)
            }
        } else if c == '+' {
            (Ok(TokenView::Plus(start)), start + 1)
        } else if c == '-' {
            (Ok(TokenView::Minus(start)), start + 1)
        } else if c == '/' {
            (Ok(TokenView::Div(start)), start + 1)
        } else if c == '%' {
            (Ok(TokenView::Mod(start)), start + 1)
        } else if c == '&' {
            (Ok(TokenView::And(start)), start + 1)
        } else if c == '|' {
            (Ok(TokenView::Or(start)), start + 1)
        } else if c == '~' {
            (Ok(TokenView::Not(start)), start + 1)
        } else if c == '^' {
            (Ok(TokenView::Xor(start)), start + 1)
        } else if c == '(' {
            (Ok(TokenView::Lparen(start)), start + 1)
        } else if c == ')' {
            (Ok(TokenView::Rparen(start)), start + 1)
        } else if c == ',' {
            (Ok(TokenView::Comma(start)), start + 1)
        } else {
            (Err(LexerErr::IllegalChar(c, start as usize)), start)
        }
    }
}

/// Reading a token never moves backwards, never leaves the text, and moves
/// strictly forward whenever it yields a token other than the end marker.
pub proof fn lemma_read_token_progress(s: Seq<char>, pos: int)
    requires
        0 <= pos <= s.len(),
    ensures
        pos <= spec_read_token(s, pos).1 <= s.len(),
        match spec_read_token(s, pos).0 {
            Ok(t) => !(t is Eof) ==> spec_read_token(s, pos).1 > pos,
            Err(_) => true,
        },
{
    lemma_skip_spaces(s, pos);
    let start = spec_skip_spaces(s, pos);
    if start < s.len() {
        let c = s[start];
        if is_dec_digit(c) {
            if c == '0' && start + 1 < s.len() && is_radix_marker(s[start + 1]) {
                let radix = radix_of_marker(s[start + 1]);
                lemma_scan_digits(s, start + 2, radix);
            } else {
                let iend = spec_scan_digits(s, start, 10);
                lemma_scan_digits(s, start + 1, 10);
                assert(iend == spec_scan_digits(s, start + 1, 10));
                assert(iend > start);
                if iend < s.len() && (s[iend] == '.' || s[iend] == 'e' || s[iend] == 'E') {
                    let fend = if s[iend] == '.' {
                        spec_scan_digits(s, iend + 1, 10)
                    } else {
                        iend
                    };
                    if s[iend] == '.' {
                        lemma_scan_digits(s, iend + 1, 10);
                    }
                    if fend < s.len() && (s[fend] == 'e' || s[fend] == 'E') {
                        if fend + 1 < s.len() && (s[fend + 1] == '+' || s[fend + 1] == '-') {
                            lemma_scan_digits(s, fend + 2, 10);
                        } else {
                            lemma_scan_digits(s, fend + 1, 10);
                        }
                    }
                }
            }
        } else if is_alpha(c) {
            lemma_scan_alpha(s, start + 1);
            assert(spec_scan_alpha(s, start) == spec_scan_alpha(s, start + 1));
        }
    }
}

/// A run that is all digits of the radix scans to the end of the text.
pub proof fn lemma_scan_digits_full(s: Seq<char>, pos: int, radix: u32)
    requires
        0 <= pos <= s.len(),
        forall|j: int| pos <= j < s.len() ==> is_digit_radix(#[trigger] s[j], radix),
    ensures
        spec_scan_digits(s, pos, radix) == s.len(),
    decreases s.len() - pos,
{
    if pos < s.len() {
        lemma_scan_digits_full(s, pos + 1, radix);
    }
}

/// A run that is all alphabetic characters scans to the end of the text.
pub proof fn lemma_scan_alpha_full(s: Seq<char>, pos: int)
    requires
        0 <= pos <= s.len(),
        forall|j: int| pos <= j < s.len() ==> is_alpha(#[trigger] s[j]),
    ensures
        spec_scan_alpha(s, pos) == s.len(),
    decreases s.len() - pos,
{
    if pos < s.len() {
        lemma_scan_alpha_full(s, pos + 1);
    }
}

/// An integer token's radix is one of the four the lexer produces.
pub proof fn lemma_read_token_int_radix(s: Seq<char>, pos: int)
    requires
        0 <= pos <= s.len(),
    ensures
        spec_read_token(s, pos).0 matches Ok(TokenView::Int(_, radix, _)) ==> radix == 2 || radix
            == 8 || radix == 10 || radix == 16,
{
    lemma_skip_spaces(s, pos);
    let start = spec_skip_spaces(s, pos);
    if start < s.len() && s[start] != '\0' && is_dec_digit(s[start]) {
        if s[start] == '0' && start + 1 < s.len() && is_radix_marker(s[start + 1]) {
            assert(radix_of_marker(s[start + 1]) == 2 || radix_of_marker(s[start + 1]) == 8
                || radix_of_marker(s[start + 1]) == 16);
        }
    }
}

/// The whole token stream from `pos` on: tokens up to and including the
/// end marker, or the first lexical failure.
pub open spec fn spec_tokenise(s: Seq<char>, pos: int) -> Result<Seq<TokenView>, LexerErr>
    decreases s.len() - pos + 1 when 0 <= pos <= s.len()
{
    match spec_read_token(s, pos) {
        (Err(e), _) => Err(e),
        (Ok(t), p2) => {
            if t is Eof {
                Ok(seq![t])
            } else if pos < p2 <= s.len() {
                match spec_tokenise(s, p2) {
                    Ok(rest) => Ok(seq![t] + rest),
                    Err(e) => Err(e),
                }
            } else {
                // never reached: reading a token other than the end marker
                // moves strictly forward (lemma_read_token_progress)
                Err(LexerErr::InvalidValue(0))
            }
        },
    }
}

/// The character at `p`, with the NUL sentinel outside the text.
pub open spec fn char_at(s: Seq<char>, p: int) -> char {
    if 0 <= p < s.len() {
        s[p]
    } else {
        '\0'
    }
}

/// A token result with its texts abstracted to character sequences.
pub open spec fn result_view(r: Result<Token, LexerErr>) -> Result<TokenView, LexerErr> {
    match r {
        Ok(t) => Ok(t@),
        Err(e) => Err(e),
    }
}

/// The token views of a token sequence.
pub open spec fn views_of(ts: Seq<Token>) -> Seq<TokenView> {
    ts.map_values(|t: Token| t@)
}

fn ch_is_dec_digit(c: char) -> (r: bool)
    ensures
        r == is_dec_digit(c),
{
    let x = c as u32;
    48 <= x && x <= 57
}

fn ch_is_digit_radix(c: char, radix: u32) -> (r: bool)
    ensures
        r == is_digit_radix(c, radix),
{
    let x = c as u32;
    if radix == 16 {
        (48 <= x && x <= 57) || (97 <= x && x <= 102) || (65 <= x && x <= 70)
    } else if radix == 10 {
        48 <= x && x <= 57
    } else if radix == 8 {
        48 <= x && x <= 55
    } else {
        48 <= x && x <= 49
    }
}

fn ch_is_alpha(c: char) -> (r: bool)
    ensures
        r == is_alpha(c),
{
    let x = c as u32;
    (65 <= x && x <= 90) || (97 <= x && x <= 122)
}

fn clone_token(t: &Token) -> (r: Token)
    ensures
        r@ == t@,
{
    match t {
        Token::Int(s, radix, o) => Token::Int(s.clone(), *radix, *o),
        Token::Float(s, o) => Token::Float(s.clone(), *o),
        Token::Name(s, o) => Token::Name(s.clone(), *o),
        Token::Plus(o) => Token::Plus(*o),
        Token::Minus(o) => Token::Minus(*o),
        Token::Mul(o) => Token::Mul(*o),
        Token::Div(o) => Token::Div(*o),
        Token::Mod(o) => Token::Mod(*o),
        Token::Pow(o) => Token::Pow(*o),
        Token::And(o) => Token::And(*o),
        Token::Or(o) => Token::Or(*o),
        Token::Xor(o) => Token::Xor(*o),
        Token::Not(o) => Token::Not(*o),
        Token::Lparen(o) => Token::Lparen(*o),
        Token::Rparen(o) => Token::Rparen(*o),
        Token::Comma(o) => Token::Comma(*o),
        Token::Eof(o) => Token::Eof(*o),
    }
}

fn clone_token_result(t: &Result<Token, LexerErr>) -> (r: Result<Token, LexerErr>)
    ensures
        result_view(r) == result_view(*t),
{
    match t {
        Ok(tok) => Ok(clone_token(tok)),
        Err(e) => Err(*e),
    }
}

/// The lexer: a cursor over the expression text, with one token of
/// lookahead cached in `next`.
pub struct Lexer<'a> {
    pub expr: &'a str,
    len: usize,
    cursor: usize,
    next: Option<Result<Token, LexerErr>>,
    peeked_from: Ghost<int>,
}

impl<'a> Lexer<'a> {
    /// The lexer's cached length is the text's, the cursor is inside the
    /// text, and a cached lookahead token is exactly the token read at the
    /// position the cursor was at before it was read.
    pub closed spec fn wf(&self) -> bool {
        &&& self.len == self.expr@.len()
        &&& self.cursor <= self.len
        &&& match self.next {
            Some(t) => {
                &&& 0 <= self.peeked_from@ <= self.cursor
                &&& spec_read_token(self.expr@, self.peeked_from@) == (
                    result_view(t),
                    self.cursor as int,
                )
            },
            None => true,
        }
    }

    /// The position the next token will be read from: where the cached
    /// lookahead was read from, if one is held, else the cursor.
    pub closed spec fn pos(&self) -> int {
        match self.next {
            Some(_) => self.peeked_from@,
            None => self.cursor as int,
        }
    }

    /// The expression text as a character sequence.
    pub closed spec fn text(&self) -> Seq<char> {
        self.expr@
    }

    /// A well-formed lexer's position lies inside its text.
    pub proof fn lemma_pos_in_text(&self)
        requires
            self.wf(),
        ensures
            0 <= self.pos() <= self.text().len(),
    {
    }

    pub fn new(expr: &'a str) -> (r: Lexer<'a>)
        ensures
            r.wf(),
            r.text() == expr@,
            r.pos() == 0,
    {
        Lexer { expr, len: expr.unicode_len(), cursor: 0, next: None, peeked_from: Ghost(0) }
    }

    /// The character under the cursor, or NUL past the end of the text.
    fn curr_char(&self) -> (c: char)
        requires
            self.len == self.expr@.len(),
            self.cursor <= self.len,
        ensures
            c == char_at(self.expr@, self.cursor as int),
    {
        if self.cursor >= self.len {
            '\0'
        } else {
            self.expr.get_char(self.cursor)
        }
    }

    /// Move to the next character if possible; give the character then
    /// under the cursor.
    fn advance(&mut self) -> (c: char)
        requires
            old(self).len == old(self).expr@.len(),
            old(self).cursor <= old(self).len,
        ensures
            final(self).expr == old(self).expr,
            final(self).len == old(self).len,
            final(self).next == old(self).next,
            final(self).cursor as int == if old(self).cursor < old(self).len {
                old(self).cursor + 1
            } else {
                old(self).cursor as int
            },
            c == char_at(final(self).expr@, final(self).cursor as int),
    {
        if self.cursor >= self.len {
            return '\0';
        }
        self.cursor += 1;
        self.curr_char()
    }

    /// Move the cursor to the end of the digit run under it.
    fn skip_digits(&mut self, radix: u32)
        requires
            old(self).len == old(self).expr@.len(),
            old(self).cursor <= old(self).len,
        ensures
            final(self).expr == old(self).expr,
            final(self).len == old(self).len,
            final(self).next == old(self).next,
            old(self).cursor <= final(self).cursor <= final(self).len,
            final(self).cursor as int == spec_scan_digits(final(self).expr@, old(self).cursor as int, radix),
    {
        let ghost s = self.expr@;
        let ghost pos0 = self.cursor as int;
        let mut go = ch_is_digit_radix(self.curr_char(), radix);
        while go
            invariant
                self.len == self.expr@.len(),
                self.expr@ == s,
                self.next == old(self).next,
                self.expr == old(self).expr,
                0 <= pos0 <= self.cursor <= self.len,
                go == is_digit_radix(char_at(s, self.cursor as int), radix),
                spec_scan_digits(s, pos0, radix) == spec_scan_digits(s, self.cursor as int, radix),
            decreases self.len - self.cursor,
        {
            self.cursor += 1;
            go = ch_is_digit_radix(self.curr_char(), radix);
        }
    }

    /// Move the cursor to the end of the alphabetic run under it.
    fn skip_alpha(&mut self)
        requires
            old(self).len == old(self).expr@.len(),
            old(self).cursor <= old(self).len,
        ensures
            final(self).expr == old(self).expr,
            final(self).len == old(self).len,
            final(self).next == old(self).next,
            old(self).cursor <= final(self).cursor <= final(self).len,
            final(self).cursor as int == spec_scan_alpha(final(self).expr@, old(self).cursor as int),
    {
        let ghost s = self.expr@;
        let ghost pos0 = self.cursor as int;
        let mut go = ch_is_alpha(self.curr_char());
        while go
            invariant
                self.len == self.expr@.len(),
                self.expr@ == s,
                self.next == old(self).next,
                self.expr == old(self).expr,
                0 <= pos0 <= self.cursor <= self.len,
                go == is_alpha(char_at(s, self.cursor as int)),
                spec_scan_alpha(s, pos0) == spec_scan_alpha(s, self.cursor as int),
            decreases self.len - self.cursor,
        {
            self.cursor += 1;
            go = ch_is_alpha(self.curr_char());
        }
    }

    /// The text between two cursor positions, as an owned string.
    fn token_text(&self, from: usize, to: usize) -> (r: String)
        requires
            self.len == self.expr@.len(),
            from <= to <= self.len,
        ensures
            r@ == self.expr@.subrange(from as int, to as int),
    {
        String::from_str(self.expr.substring_char(from, to))
    }

    /// Read the number token starting under the cursor, which holds a
    /// decimal digit.
    fn read_number(&mut self) -> (r: Result<Token, LexerErr>)
        requires
            old(self).len == old(self).expr@.len(),
            old(self).cursor < old(self).len,
            old(self).next is None,
            is_dec_digit(old(self).expr@[old(self).cursor as int]),
        ensures
            final(self).expr == old(self).expr,
            final(self).len == old(self).len,
            final(self).next is None,
            final(self).cursor <= final(self).len,
            (result_view(r), final(self).cursor as int) == spec_read_number(
                final(self).expr@,
                old(self).cursor as int,
            ),
    {
        let ghost s = self.expr@;
        let start = self.cursor;
        let ch = self.curr_char();
        // a leading zero with a radix marker starts a radix literal
        if ch == '0' && start + 1 < self.len {
            let marker = self.expr.get_char(start + 1);
            let radix: u32 = if marker == 'b' || marker == 'B' {
                2
            } else if marker == 'o' || marker == 'O' {
                8
            } else if marker == 'x' || marker == 'X' {
                16
            } else {
                0
            };
            if radix != 0 {
                self.cursor = start + 2;
                let dstart = self.cursor;
                self.skip_digits(radix);
                let dend = self.cursor;
                if dend == dstart {
                    return Err(LexerErr::InvalidValue(start));
                }
                let text = self.token_text(dstart, dend);
                return Ok(Token::Int(text, radix, start));
            }
        }
        self.skip_digits(10);
        let mut ch2 = self.curr_char();
        if ch2 != '.' && ch2 != 'e' && ch2 != 'E' {
            let text = self.token_text(start, self.cursor);
            return Ok(Token::Int(text, 10, start));
        }
        if ch2 == '.' {
            self.advance();
            self.skip_digits(10);
            ch2 = self.curr_char();
        }
        if ch2 == 'e' || ch2 == 'E' {
            let ch3 = self.advance();
            if ch3 == '+' || ch3 == '-' {
                self.advance();
            }
            self.skip_digits(10);
        }
        let text = self.token_text(start, self.cursor);
        Ok(Token::Float(text, start))
    }

    /// Read the token under the cursor, ignoring and clearing no lookahead
    /// (the cache must be empty).
    fn read_next_token(&mut self) -> (r: Result<Token, LexerErr>)
        requires
            old(self).wf(),
            old(self).next is None,
        ensures
            final(self).wf(),
            final(self).next is None,
            final(self).expr == old(self).expr,
            final(self).len == old(self).len,
            (result_view(r), final(self).cursor as int) == spec_read_token(
                final(self).expr@,
                old(self).cursor as int,
            ),
    {
        let ghost s = self.expr@;
        let ghost pos0 = self.cursor as int;
        let mut ch = self.curr_char();
        while ch == ' '
            invariant
                self.len == self.expr@.len(),
                self.expr@ == s,
                self.expr == old(self).expr,
                self.next is None,
                0 <= pos0 <= self.cursor <= self.len,
                ch == char_at(s, self.cursor as int),
                spec_skip_spaces(s, pos0) == spec_skip_spaces(s, self.cursor as int),
            decreases self.len - self.cursor,
        {
            ch = self.advance();
        }
        let start = self.cursor;
        proof {
            assert(spec_skip_spaces(s, self.cursor as int) == self.cursor as int);
        }
        if ch == '\0' {
            return Ok(Token::Eof(start));
        }
        if ch_is_dec_digit(ch) {
            return self.read_number();
        }
        if ch_is_alpha(ch) {
            self.skip_alpha();
            let text = self.token_text(start, self.cursor);
            return Ok(Token::Name(text, start));
        }
        if ch == '*' {
            self.cursor = start + 1;
            if self.curr_char() == '*' {
                self.cursor = start + 2;
                return Ok(Token::Pow(start));
            }
            return Ok(Token::Mul(start));
        }
        if ch == '+' {
            self.cursor = start + 1;
            return Ok(Token::Plus(start));
        }
        if ch == '-' {
            self.cursor = start + 1;
            return Ok(Token::Minus(start));
        }
        if ch == '/' {
            self.cursor = start + 1;
            return Ok(Token::Div(start));
        }
        if ch == '%' {
            self.cursor = start + 1;
            return Ok(Token::Mod(start));
        }
        if ch == '&' {
            self.cursor = start + 1;
            return Ok(Token::And(start));
        }
        if ch == '|' {
            self.cursor = start + 1;
            return Ok(Token::Or(start));
        }
        if ch == '~' {
            self.cursor = start + 1;
            return Ok(Token::Not(start));
        }
        if ch == '^' {
            self.cursor = start + 1;
            return Ok(Token::Xor(start));
        }
        if ch == '(' {
            self.cursor = start + 1;
            return Ok(Token::Lparen(start));
        }
        if ch == ')' {
            self.cursor = start + 1;
            return Ok(Token::Rparen(start));
        }
        if ch == ',' {
            self.cursor = start + 1;
            return Ok(Token::Comma(start));
        }
        Err(LexerErr::IllegalChar(ch, start))
    }

    /// The next token; the cursor moves past it. A peeked token is served
    /// first and the lookahead cleared.
    pub fn next_token(&mut self) -> (r: Result<Token, LexerErr>)
        requires
            old(self).wf(),
        ensures
            final(self).wf(),
            final(self).text() == old(self).text(),
            (result_view(r), final(self).pos()) == spec_read_token(old(self).text(), old(self).pos()),
    {
        match self.next.take() {
            Some(t) => t,
            None => self.read_next_token(),
        }
    }

    /// The next token, without moving past it: the same token `next_token`
    /// would give, served from the lookahead cache.
    pub fn peek_token(&mut self) -> (r: Result<Token, LexerErr>)
        requires
            old(self).wf(),
        ensures
            final(self).wf(),
            final(self).text() == old(self).text(),
            final(self).pos() == old(self).pos(),
            result_view(r) == spec_read_token(old(self).text(), old(self).pos()).0,
    {
        if self.next.is_some() {
            clone_token_result(self.next.as_ref().unwrap())
        } else {
            let ghost from = self.cursor as int;
            proof {
                lemma_read_token_progress(self.expr@, from);
            }
            let t = self.read_next_token();
            self.peeked_from = Ghost(from);
            self.next = Some(clone_token_result(&t));
            t
        }
    }

    /// All tokens from the current position to the end marker, inclusive,
    /// or the first lexical failure.
    pub fn tokenise(&mut self) -> (r: Result<Vec<Token>, LexerErr>)
        requires
            old(self).wf(),
        ensures
            final(self).wf(),
            r matches Ok(ts) ==> spec_tokenise(old(self).text(), old(self).pos()) == Ok::<
                Seq<TokenView>,
                LexerErr,
            >(views_of(ts@)),
            r matches Err(e) ==> spec_tokenise(old(self).text(), old(self).pos()) == Err::<
                Seq<TokenView>,
                LexerErr,
            >(e),
    {
        let ghost s = self.expr@;
        let ghost pos0 = self.pos();
        let mut found_eof_token = false;
        let mut tokens: Vec<Token> = Vec::new();
        proof {
            if spec_tokenise(s, pos0) is Ok {
                assert(views_of(tokens@) + spec_tokenise(s, pos0)->Ok_0 =~= spec_tokenise(
                    s,
                    pos0,
                )->Ok_0);
            }
        }
        while !found_eof_token
            invariant
                self.wf(),
                self.expr@ == s,
                s == old(self).text(),
                pos0 == old(self).pos(),
                0 <= pos0 <= self.pos() <= s.len(),
                !found_eof_token ==> spec_tokenise(s, pos0) == (match spec_tokenise(s, self.pos()) {
                    Ok(rest) => Ok::<Seq<TokenView>, LexerErr>(views_of(tokens@) + rest),
                    Err(e) => Err(e),
                }),
                found_eof_token ==> spec_tokenise(s, pos0) == Ok::<Seq<TokenView>, LexerErr>(
                    views_of(tokens@),
                ),
            decreases s.len() - self.pos(), (if found_eof_token { 0int } else { 1int }),
        {
            let ghost p = self.pos();
            proof {
                lemma_read_token_progress(s, p);
            }
            let token = match self.next_token() {
                Ok(t) => t,
                Err(e) => {
                    proof {
                        assert(spec_tokenise(s, p) == Err::<Seq<TokenView>, LexerErr>(e));
                        assert(spec_tokenise(s, pos0) == Err::<Seq<TokenView>, LexerErr>(e));
                    }
                    return Err(e);
                },
            };
            match token {
                Token::Eof(_) => {
                    found_eof_token = true;
                },
                _ => {},
            }
            let ghost prev = tokens@;
            let ghost tv = token@;
            tokens.push(token);
            proof {
                assert(views_of(tokens@) =~= views_of(prev) + seq![tv]);
                if found_eof_token {
                    assert(spec_tokenise(s, p) == Ok::<Seq<TokenView>, LexerErr>(seq![tv]));
                    assert(spec_tokenise(s, pos0) == Ok::<Seq<TokenView>, LexerErr>(
                        views_of(prev) + seq![tv],
                    ));
                } else {
                    let p2 = self.pos();
                    assert(p < p2 <= s.len());
                    if spec_tokenise(s, p2) is Ok {
                        let rest2 = spec_tokenise(s, p2)->Ok_0;
                        assert(spec_tokenise(s, p) == Ok::<Seq<TokenView>, LexerErr>(
                            seq![tv] + rest2,
                        ));
                        assert(views_of(prev) + (seq![tv] + rest2) =~= views_of(tokens@) + rest2);
                    }
                }
            }
        }
        Ok(tokens)
    }
}

/// The tokens of an expression text, from its start to the end marker.
pub fn tokenise(expr: &str) -> (r: Result<Vec<Token>, LexerErr>)
    ensures
        match r {
            Ok(ts) => spec_tokenise(expr@, 0) == Ok::<Seq<TokenView>, LexerErr>(views_of(ts@)),
            Err(e) => spec_tokenise(expr@, 0) == Err::<Seq<TokenView>, LexerErr>(e),
        },
{
    let mut lexer = Lexer::new(expr);
    lexer.tokenise()
}

} // verus!
