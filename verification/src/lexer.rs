//! Lexer: turns raw IDL source text into a token stream. Whitespace,
//! comments and preprocessor directives (such as include lines) are
//! recognized and skipped; identifiers, integer, floating-point and character
//! literals keep their source spelling for verbatim re-emission.
use vstd::prelude::*;

use crate::IdlError;

verus! {

use vstd::string::StrSliceExecFns;
use vstd::string::StringExecFns;

/// The kinds of token the parser distinguishes. Keywords are lexed as
/// identifiers and recognized by spelling in the parser. A floating-point
/// literal carries its up-to-four textual parts: integral, fraction,
/// exponent, suffix.
#[derive(Debug, Clone)]
pub enum TokenKind {
    Ident,
    DecLit,
    OctLit,
    HexLit,
    CharLit,
    FloatLit(Option<String>, Option<String>, Option<String>, Option<String>),
    LBrace,
    RBrace,
    LBracket,
    RBracket,
    LParen,
    RParen,
    LAngle,
    RAngle,
    Semi,
    Comma,
    Colon,
    ColonColon,
    Equals,
    Pipe,
    Caret,
    Amp,
    Shl,
    Shr,
    Plus,
    Minus,
    Star,
    Slash,
    Percent,
    Tilde,
}

/// One token: its kind, its source spelling, and the character offset it
/// starts at, kept for error reports.
#[derive(Debug, Clone)]
pub struct Token {
    pub kind: TokenKind,
    pub text: String,
    pub pos: usize,
}

/// Mathematical view of `TokenKind`.
#[verifier::ext_equal]
pub enum TokenKindView {
    Ident,
    DecLit,
    OctLit,
    HexLit,
    CharLit,
    FloatLit(Option<Seq<char>>, Option<Seq<char>>, Option<Seq<char>>, Option<Seq<char>>),
    LBrace,
    RBrace,
    LBracket,
    RBracket,
    LParen,
    RParen,
    LAngle,
    RAngle,
    Semi,
    Comma,
    Colon,
    ColonColon,
    Equals,
    Pipe,
    Caret,
    Amp,
    Shl,
    Shr,
    Plus,
    Minus,
    Star,
    Slash,
    Percent,
    Tilde,
}

impl View for TokenKind {
    type V = TokenKindView;

    open spec fn view(&self) -> TokenKindView {
        match self {
            TokenKind::Ident => TokenKindView::Ident,
            TokenKind::DecLit => TokenKindView::DecLit,
            TokenKind::OctLit => TokenKindView::OctLit,
            TokenKind::HexLit => TokenKindView::HexLit,
            TokenKind::CharLit => TokenKindView::CharLit,
            TokenKind::FloatLit(a, b, c, d) => TokenKindView::FloatLit(
                crate::ast::opt_string_view(*a),
                crate::ast::opt_string_view(*b),
                crate::ast::opt_string_view(*c),
                crate::ast::opt_string_view(*d),
            ),
            TokenKind::LBrace => TokenKindView::LBrace,
            TokenKind::RBrace => TokenKindView::RBrace,
            TokenKind::LBracket => TokenKindView::LBracket,
            TokenKind::RBracket => TokenKindView::RBracket,
            TokenKind::LParen => TokenKindView::LParen,
            TokenKind::RParen => TokenKindView::RParen,
            TokenKind::LAngle => TokenKindView::LAngle,
            TokenKind::RAngle => TokenKindView::RAngle,
            TokenKind::Semi => TokenKindView::Semi,
            TokenKind::Comma => TokenKindView::Comma,
            TokenKind::Colon => TokenKindView::Colon,
            TokenKind::ColonColon => TokenKindView::ColonColon,
            TokenKind::Equals => TokenKindView::Equals,
            TokenKind::Pipe => TokenKindView::Pipe,
            TokenKind::Caret => TokenKindView::Caret,
            TokenKind::Amp => TokenKindView::Amp,
            TokenKind::Shl => TokenKindView::Shl,
            TokenKind::Shr => TokenKindView::Shr,
            TokenKind::Plus => TokenKindView::Plus,
            TokenKind::Minus => TokenKindView::Minus,
            TokenKind::Star => TokenKindView::Star,
            TokenKind::Slash => TokenKindView::Slash,
            TokenKind::Percent => TokenKindView::Percent,
            TokenKind::Tilde => TokenKindView::Tilde,
        }
    }
}

/// Mathematical view of `Token`.
#[verifier::ext_equal]
pub struct TokenView {
    pub kind: TokenKindView,
    pub text: Seq<char>,
    pub pos: nat,
}

impl View for Token {
    type V = TokenView;

    open spec fn view(&self) -> TokenView {
        TokenView { kind: self.kind@, text: self.text@, pos: self.pos as nat }
    }
}

/// The views of a token sequence, in order.
pub open spec fn tokens_view(s: Seq<Token>) -> Seq<TokenView> {
    Seq::new(s.len(), |i: int| s[i]@)
}

pub open spec fn spec_is_space(c: char) -> bool {
    c == ' ' || c == '\t' || c == '\r' || c == '\n'
}

pub open spec fn spec_is_digit(c: char) -> bool {
    48 <= c as u32 <= 57
}

pub open spec fn spec_is_hex_digit(c: char) -> bool {
    (48 <= c as u32 <= 57) || (65 <= c as u32 <= 70) || (97 <= c as u32 <= 102)
}

pub open spec fn spec_is_ident_start(c: char) -> bool {
    (65 <= c as u32 <= 90) || (97 <= c as u32 <= 122) || c == '_'
}

pub open spec fn spec_is_ident_char(c: char) -> bool {
    spec_is_ident_start(c) || spec_is_digit(c)
}

fn is_space(c: char) -> (r: bool)
    ensures
        r == spec_is_space(c),
{
    c == ' ' || c == '\t' || c == '\r' || c == '\n'
}

fn is_digit(c: char) -> (r: bool)
    ensures
        r == spec_is_digit(c),
{
    let u = c as u32;
    48 <= u && u <= 57
}

fn is_hex_digit(c: char) -> (r: bool)
    ensures
        r == spec_is_hex_digit(c),
{
    let u = c as u32;
    (48 <= u && u <= 57) || (65 <= u && u <= 70) || (97 <= u && u <= 102)
}

fn is_ident_start(c: char) -> (r: bool)
    ensures
        r == spec_is_ident_start(c),
{
    let u = c as u32;
    (65 <= u && u <= 90) || (97 <= u && u <= 122) || c == '_'
}

fn is_ident_char(c: char) -> (r: bool)
    ensures
        r == spec_is_ident_char(c),
{
    is_ident_start(c) || is_digit(c)
}

/// The text of one decimal digit.
pub open spec fn spec_digit_text(d: nat) -> Seq<char> {
    if d == 0 {
        "0"@
    } else if d == 1 {
        "1"@
    } else if d == 2 {
        "2"@
    } else if d == 3 {
        "3"@
    } else if d == 4 {
        "4"@
    } else if d == 5 {
        "5"@
    } else if d == 6 {
        "6"@
    } else if d == 7 {
        "7"@
    } else if d == 8 {
        "8"@
    } else {
        "9"@
    }
}

/// The decimal spelling of a number.
pub open spec fn spec_decimal(n: nat) -> Seq<char>
    decreases n,
{
    if n >= 10 {
        spec_decimal(n / 10) + spec_digit_text(n % 10)
    } else {
        spec_digit_text(n)
    }
}

/// The syntax-error value for the given message and character offset.
pub open spec fn spec_syntax_error(what: Seq<char>, pos: nat) -> crate::ErrorView {
    crate::ErrorView::ErrorMesg(what + " at offset "@ + spec_decimal(pos))
}

/// Appends the decimal digits of a number to a text buffer.
fn push_decimal(out: &mut String, n: usize)
    ensures
        final(out)@ == old(out)@ + spec_decimal(n as nat),
    decreases n,
{
    if n >= 10 {
        push_decimal(out, n / 10);
    }
    match n % 10 {
        0 => out.append("0"),
        1 => out.append("1"),
        2 => out.append("2"),
        3 => out.append("3"),
        4 => out.append("4"),
        5 => out.append("5"),
        6 => out.append("6"),
        7 => out.append("7"),
        8 => out.append("8"),
        _ => out.append("9"),
    }
    proof {
        assert(final(out)@ =~= old(out)@ + spec_decimal(n as nat));
    }
}

/// A human-readable syntax-error message carrying the character offset it
/// refers to.
pub fn syntax_error_at(what: &str, pos: usize) -> (r: IdlError)
    ensures
        r@ == spec_syntax_error(what@, pos as nat),
{
    let mut msg = String::from_str(what);
    msg.append(" at offset ");
    push_decimal(&mut msg, pos);
    proof {
        assert(msg@ =~= what@ + " at offset "@ + spec_decimal(pos as nat));
    }
    IdlError::ErrorMesg(msg)
}


// ----------------------------------------------------------------------
// Spec: what the lexer produces, as a function of the source text
// ----------------------------------------------------------------------
/// First position at or after `i` that holds a newline, or the end.
pub open spec fn spec_skip_line(t: Seq<char>, i: int) -> int
    decreases t.len() - i,
{
    if i < 0 || i >= t.len() || t[i] == '\n' {
        i
    } else {
        spec_skip_line(t, i + 1)
    }
}

/// The position just past the closing `*/` scanned from `i`, or, when the
/// comment never closes, the position the scan got stuck at.
pub open spec fn spec_skip_block(t: Seq<char>, i: int) -> Result<int, int>
    decreases t.len() - i,
{
    if i < 0 || i + 1 >= t.len() {
        Result::Err(i)
    } else if t[i] == '*' && t[i + 1] == '/' {
        Result::Ok(i + 2)
    } else {
        spec_skip_block(t, i + 1)
    }
}

/// The position just past the closing quote of a character literal scanned
/// from `i` (one past the opening quote), or nothing when it never closes.
pub open spec fn spec_skip_char_lit(t: Seq<char>, i: int) -> Option<int>
    decreases t.len() - i,
{
    if i < 0 || i >= t.len() {
        Option::None
    } else if t[i] == '\\' && i + 1 < t.len() {
        spec_skip_char_lit(t, i + 2)
    } else if t[i] == '\'' {
        Option::Some(i + 1)
    } else {
        spec_skip_char_lit(t, i + 1)
    }
}

/// First position at or after `i` that is no identifier character.
pub open spec fn spec_scan_ident(t: Seq<char>, i: int) -> int
    decreases t.len() - i,
{
    if i < 0 || i >= t.len() || !spec_is_ident_char(t[i]) {
        i
    } else {
        spec_scan_ident(t, i + 1)
    }
}

/// First position at or after `i` that is no decimal digit.
pub open spec fn spec_scan_digits(t: Seq<char>, i: int) -> int
    decreases t.len() - i,
{
    if i < 0 || i >= t.len() || !spec_is_digit(t[i]) {
        i
    } else {
        spec_scan_digits(t, i + 1)
    }
}

/// First position at or after `i` that is no hexadecimal digit.
pub open spec fn spec_scan_hex(t: Seq<char>, i: int) -> int
    decreases t.len() - i,
{
    if i < 0 || i >= t.len() || !spec_is_hex_digit(t[i]) {
        i
    } else {
        spec_scan_hex(t, i + 1)
    }
}

proof fn lemma_skip_line_bounds(t: Seq<char>, i: int)
    requires
        0 <= i <= t.len(),
    ensures
        i <= spec_skip_line(t, i) <= t.len(),
    decreases t.len() - i,
{
    if i >= t.len() || t[i] == '\n' {
    } else {
        lemma_skip_line_bounds(t, i + 1);
    }
}

proof fn lemma_skip_block_bounds(t: Seq<char>, i: int)
    requires
        0 <= i,
    ensures
        spec_skip_block(t, i) matches Result::Ok(j) ==> i + 2 <= j <= t.len(),
    decreases t.len() - i,
{
    if i + 1 >= t.len() {
    } else if t[i] == '*' && t[i + 1] == '/' {
    } else {
        lemma_skip_block_bounds(t, i + 1);
    }
}

proof fn lemma_skip_char_lit_bounds(t: Seq<char>, i: int)
    requires
        0 <= i,
    ensures
        spec_skip_char_lit(t, i) matches Option::Some(j) ==> i + 1 <= j <= t.len(),
    decreases t.len() - i,
{
    if i >= t.len() {
    } else if t[i] == '\\' && i + 1 < t.len() {
        lemma_skip_char_lit_bounds(t, i + 2);
    } else if t[i] == '\'' {
    } else {
        lemma_skip_char_lit_bounds(t, i + 1);
    }
}

proof fn lemma_scan_ident_bounds(t: Seq<char>, i: int)
    requires
        0 <= i <= t.len(),
    ensures
        i <= spec_scan_ident(t, i) <= t.len(),
    decreases t.len() - i,
{
    if i >= t.len() || !spec_is_ident_char(t[i]) {
    } else {
        lemma_scan_ident_bounds(t, i + 1);
    }
}

proof fn lemma_scan_digits_bounds(t: Seq<char>, i: int)
    requires
        0 <= i <= t.len(),
    ensures
        i <= spec_scan_digits(t, i) <= t.len(),
    decreases t.len() - i,
{
    if i >= t.len() || !spec_is_digit(t[i]) {
    } else {
        lemma_scan_digits_bounds(t, i + 1);
    }
}

proof fn lemma_scan_hex_bounds(t: Seq<char>, i: int)
    requires
        0 <= i <= t.len(),
    ensures
        i <= spec_scan_hex(t, i) <= t.len(),
    decreases t.len() - i,
{
    if i >= t.len() || !spec_is_hex_digit(t[i]) {
    } else {
        lemma_scan_hex_bounds(t, i + 1);
    }
}

/// What lexing one numeric literal at `start` yields: the token and the
/// position just past it.
pub open spec fn spec_lex_number(t: Seq<char>, start: int) -> Result<
    (TokenView, int),
    crate::ErrorView,
>
    recommends
        0 <= start < t.len(),
{
    if t[start] == '0' && start + 1 < t.len() && (t[start + 1] == 'x' || t[start + 1] == 'X') {
        let end = spec_scan_hex(t, start + 2);
        Result::Ok(
            (
                TokenView {
                    kind: TokenKindView::HexLit,
                    text: t.subrange(start, end),
                    pos: start as nat,
                },
                end,
            ),
        )
    } else {
        let int_end = spec_scan_digits(t, start);
        let has_fraction = int_end < t.len() && t[int_end] == '.' && int_end + 1 < t.len()
            && spec_is_digit(t[int_end + 1]);
        let has_exponent = int_end < t.len() && (t[int_end] == 'e' || t[int_end] == 'E');
        let has_suffix = int_end < t.len() && (t[int_end] == 'd' || t[int_end] == 'D' || t[int_end]
            == 'f' || t[int_end] == 'F');
        if !has_fraction && !has_exponent && !has_suffix {
            if int_end <= start {
                Result::Err(crate::ErrorView::InternalError)
            } else if t[start] == '0' {
                Result::Ok(
                    (
                        TokenView {
                            kind: TokenKindView::OctLit,
                            text: t.subrange(start, int_end),
                            pos: start as nat,
                        },
                        int_end,
                    ),
                )
            } else {
                Result::Ok(
                    (
                        TokenView {
                            kind: TokenKindView::DecLit,
                            text: t.subrange(start, int_end),
                            pos: start as nat,
                        },
                        int_end,
                    ),
                )
            }
        } else {
            let integral: Option<Seq<char>> = if start < int_end {
                Option::Some(t.subrange(start, int_end))
            } else {
                Option::None
            };
            let fstart = int_end + 1;
            let fend = if has_fraction {
                spec_scan_digits(t, fstart)
            } else {
                int_end
            };
            let fraction: Option<Seq<char>> = if has_fraction {
                Option::Some(t.subrange(fstart, fend))
            } else {
                Option::None
            };
            let i2 = fend;
            let has_exp2 = i2 < t.len() && (t[i2] == 'e' || t[i2] == 'E');
            let estart = i2 + 1;
            let edigits = if estart < t.len() && (t[estart] == '+' || t[estart] == '-') {
                estart + 1
            } else {
                estart
            };
            let eend = if has_exp2 {
                spec_scan_digits(t, edigits)
            } else {
                i2
            };
            let exponent: Option<Seq<char>> = if has_exp2 {
                Option::Some(t.subrange(estart, eend))
            } else {
                Option::None
            };
            let i3 = eend;
            let has_suf2 = i3 < t.len() && (t[i3] == 'd' || t[i3] == 'D' || t[i3] == 'f' || t[i3]
                == 'F');
            let suffix: Option<Seq<char>> = if has_suf2 {
                Option::Some(t.subrange(i3, i3 + 1))
            } else {
                Option::None
            };
            let i4 = if has_suf2 {
                i3 + 1
            } else {
                i3
            };
            if i4 <= start {
                Result::Err(crate::ErrorView::InternalError)
            } else {
                Result::Ok(
                    (
                        TokenView {
                            kind: TokenKindView::FloatLit(integral, fraction, exponent, suffix),
                            text: t.subrange(start, i4),
                            pos: start as nat,
                        },
                        i4,
                    ),
                )
            }
        }
    }
}

/// What lexing one punctuation token at `i` yields.
pub open spec fn spec_lex_punct(t: Seq<char>, i: int) -> Result<(TokenView, int), crate::ErrorView>
    recommends
        0 <= i < t.len(),
{
    let c = t[i];
    let two = i + 1 < t.len();
    if c == ':' && two && t[i + 1] == ':' {
        Result::Ok(
            (TokenView { kind: TokenKindView::ColonColon, text: "::"@, pos: i as nat }, i + 2),
        )
    } else if c == '<' && two && t[i + 1] == '<' {
        Result::Ok((TokenView { kind: TokenKindView::Shl, text: "<<"@, pos: i as nat }, i + 2))
    } else if c == '>' && two && t[i + 1] == '>' {
        Result::Ok((TokenView { kind: TokenKindView::Shr, text: ">>"@, pos: i as nat }, i + 2))
    } else {
        let kind = if c == '{' {
            Option::Some(TokenKindView::LBrace)
        } else if c == '}' {
            Option::Some(TokenKindView::RBrace)
        } else if c == '[' {
            Option::Some(TokenKindView::LBracket)
        } else if c == ']' {
            Option::Some(TokenKindView::RBracket)
        } else if c == '(' {
            Option::Some(TokenKindView::LParen)
        } else if c == ')' {
            Option::Some(TokenKindView::RParen)
        } else if c == '<' {
            Option::Some(TokenKindView::LAngle)
        } else if c == '>' {
            Option::Some(TokenKindView::RAngle)
        } else if c == ';' {
            Option::Some(TokenKindView::Semi)
        } else if c == ',' {
            Option::Some(TokenKindView::Comma)
        } else if c == ':' {
            Option::Some(TokenKindView::Colon)
        } else if c == '=' {
            Option::Some(TokenKindView::Equals)
        } else if c == '|' {
            Option::Some(TokenKindView::Pipe)
        } else if c == '^' {
            Option::Some(TokenKindView::Caret)
        } else if c == '&' {
            Option::Some(TokenKindView::Amp)
        } else if c == '+' {
            Option::Some(TokenKindView::Plus)
        } else if c == '-' {
            Option::Some(TokenKindView::Minus)
        } else if c == '*' {
            Option::Some(TokenKindView::Star)
        } else if c == '/' {
            Option::Some(TokenKindView::Slash)
        } else if c == '%' {
            Option::Some(TokenKindView::Percent)
        } else if c == '~' {
            Option::Some(TokenKindView::Tilde)
        } else {
            Option::None
        };
        match kind {
            Option::Some(k) => Result::Ok(
                (TokenView { kind: k, text: t.subrange(i, i + 1), pos: i as nat }, i + 1),
            ),
            Option::None => Result::Err(spec_syntax_error("unexpected character"@, i as nat)),
        }
    }
}

proof fn lemma_lex_punct_bounds(t: Seq<char>, i: int)
    requires
        0 <= i < t.len(),
    ensures
        spec_lex_punct(t, i) matches Result::Ok(p) ==> i < p.1 <= t.len(),
{
}

proof fn lemma_lex_number_bounds(t: Seq<char>, start: int)
    requires
        0 <= start < t.len(),
    ensures
        spec_lex_number(t, start) matches Result::Ok(p) ==> start < p.1 <= t.len(),
{
    if start + 2 <= t.len() {
        lemma_scan_hex_bounds(t, start + 2);
    }
    lemma_scan_digits_bounds(t, start);
    let int_end = spec_scan_digits(t, start);
    if int_end + 1 <= t.len() {
        lemma_scan_digits_bounds(t, int_end + 1);
    }
    let fend = spec_scan_digits(t, int_end + 1);
    if fend + 1 <= t.len() {
        lemma_scan_digits_bounds(t, fend + 1);
    }
    if fend + 2 <= t.len() {
        lemma_scan_digits_bounds(t, fend + 2);
    }
    if int_end + 2 <= t.len() {
        lemma_scan_digits_bounds(t, int_end + 2);
    }
}

/// The token sequence lexed from position `i` on, appended to the tokens
/// already produced, or the error that stops the lexer.
pub open spec fn spec_tokenize_from(t: Seq<char>, i: int, acc: Seq<TokenView>) -> Result<
    Seq<TokenView>,
    crate::ErrorView,
>
    decreases t.len() - i,
    via spec_tokenize_from_decreases
{
    if i < 0 || i >= t.len() {
        Result::Ok(acc)
    } else {
        let c = t[i];
        if spec_is_space(c) {
            spec_tokenize_from(t, i + 1, acc)
        } else if c == '#' {
            spec_tokenize_from(t, spec_skip_line(t, i + 1), acc)
        } else if c == '/' && i + 1 < t.len() && t[i + 1] == '/' {
            spec_tokenize_from(t, spec_skip_line(t, i + 2), acc)
        } else if c == '/' && i + 1 < t.len() && t[i + 1] == '*' {
            match spec_skip_block(t, i + 2) {
                Result::Ok(j) => spec_tokenize_from(t, j, acc),
                Result::Err(p) => Result::Err(
                    spec_syntax_error("unterminated comment"@, p as nat),
                ),
            }
        } else if spec_is_ident_start(c) {
            let end = spec_scan_ident(t, i + 1);
            let tok = TokenView {
                kind: TokenKindView::Ident,
                text: t.subrange(i, end),
                pos: i as nat,
            };
            spec_tokenize_from(t, end, acc.push(tok))
        } else if spec_is_digit(c) || (c == '.' && i + 1 < t.len() && spec_is_digit(t[i + 1])) {
            match spec_lex_number(t, i) {
                Result::Ok(p) => if p.1 <= i {
                    Result::Err(crate::ErrorView::InternalError)
                } else {
                    spec_tokenize_from(t, p.1, acc.push(p.0))
                },
                Result::Err(e) => Result::Err(e),
            }
        } else if c == '\'' {
            match spec_skip_char_lit(t, i + 1) {
                Option::Some(j) => {
                    let tok = TokenView {
                        kind: TokenKindView::CharLit,
                        text: t.subrange(i, j),
                        pos: i as nat,
                    };
                    spec_tokenize_from(t, j, acc.push(tok))
                },
                Option::None => Result::Err(
                    spec_syntax_error("unterminated character literal"@, i as nat),
                ),
            }
        } else {
            match spec_lex_punct(t, i) {
                Result::Ok(p) => if p.1 <= i {
                    Result::Err(crate::ErrorView::InternalError)
                } else {
                    spec_tokenize_from(t, p.1, acc.push(p.0))
                },
                Result::Err(e) => Result::Err(e),
            }
        }
    }
}

#[via_fn]
proof fn spec_tokenize_from_decreases(t: Seq<char>, i: int, acc: Seq<TokenView>) {
    if 0 <= i && i < t.len() {
        lemma_skip_line_bounds(t, i + 1);
        if i + 2 <= t.len() {
            lemma_skip_line_bounds(t, i + 2);
            lemma_skip_block_bounds(t, i + 2);
        }
        lemma_scan_ident_bounds(t, i + 1);
        lemma_skip_char_lit_bounds(t, i + 1);
        lemma_lex_number_bounds(t, i);
        lemma_lex_punct_bounds(t, i);
    }
}

/// The token sequence lexed from the whole source text, or the error that
/// stops the lexer.
pub open spec fn spec_tokenize(t: Seq<char>) -> Result<Seq<TokenView>, crate::ErrorView> {
    spec_tokenize_from(t, 0, Seq::<TokenView>::empty())
}

/// The view of a lexing result.
pub open spec fn tokens_res(r: Result<Vec<Token>, IdlError>) -> Result<
    Seq<TokenView>,
    crate::ErrorView,
> {
    match r {
        Result::Ok(v) => Result::Ok(tokens_view(v@)),
        Result::Err(e) => Result::Err(e@),
    }
}

/// The view of a one-token lexing result.
pub open spec fn lexpair_res(r: Result<(Token, usize), IdlError>) -> Result<
    (TokenView, int),
    crate::ErrorView,
> {
    match r {
        Result::Ok(p) => Result::Ok((p.0@, p.1 as int)),
        Result::Err(e) => Result::Err(e@),
    }
}

/// Splits the source text into tokens, skipping whitespace, `//` and
/// `/* .. */` comments, and preprocessor lines introduced by `#`. Fails on
/// an unterminated comment or character literal and on any character that
/// starts no token. The result is exactly the spec-level lexing of the text.
pub fn tokenize(input: &str) -> (r: Result<Vec<Token>, IdlError>)
    ensures
        tokens_res(r) == spec_tokenize(input@),
{
    let ghost t = input@;
    let n = input.unicode_len();
    let mut toks: Vec<Token> = Vec::new();
    proof {
        assert(tokens_view(toks@) =~= Seq::<TokenView>::empty());
    }
    let mut i: usize = 0;
    while i < n
        invariant
            i <= n,
            n == t.len(),
            t == input@,
            spec_tokenize(t) == spec_tokenize_from(t, i as int, tokens_view(toks@)),
        decreases n - i,
    {
        let c = input.get_char(i);
        if is_space(c) {
            i = i + 1;
        } else if c == '#' {
            // a preprocessor directive: skip to the end of the line
            i = i + 1;
            let ghost i0 = i;
            while i < n && input.get_char(i) != '\n'
                invariant
                    i0 <= i <= n,
                    n == t.len(),
                    t == input@,
                    spec_skip_line(t, i0 as int) == spec_skip_line(t, i as int),
                decreases n - i,
            {
                i = i + 1;
            }
            proof {
                assert(spec_skip_line(t, i as int) == i as int);
            }
        } else if c == '/' && i + 1 < n && input.get_char(i + 1) == '/' {
            i = i + 2;
            let ghost i0 = i;
            while i < n && input.get_char(i) != '\n'
                invariant
                    i0 <= i <= n,
                    n == t.len(),
                    t == input@,
                    spec_skip_line(t, i0 as int) == spec_skip_line(t, i as int),
                decreases n - i,
            {
                i = i + 1;
            }
            proof {
                assert(spec_skip_line(t, i as int) == i as int);
            }
        } else if c == '/' && i + 1 < n && input.get_char(i + 1) == '*' {
            i = i + 2;
            let ghost i0 = i;
            let mut closed = false;
            while !closed && i < n && i + 1 < n
                invariant
                    i0 <= i <= n,
                    n == t.len(),
                    t == input@,
                    (if closed {
                        Result::<int, int>::Ok(i as int)
                    } else {
                        spec_skip_block(t, i as int)
                    }) == spec_skip_block(t, i0 as int),
                decreases n - i,
            {
                if input.get_char(i) == '*' && input.get_char(i + 1) == '/' {
                    closed = true;
                    i = i + 2;
                } else {
                    i = i + 1;
                }
            }
            if !closed {
                proof {
                    assert(spec_skip_block(t, i as int) == Result::<int, int>::Err(i as int));
                }
                return Err(syntax_error_at("unterminated comment", i));
            }
        } else if is_ident_start(c) {
            let start = i;
            i = i + 1;
            let ghost i0 = i;
            while i < n && is_ident_char(input.get_char(i))
                invariant
                    start < i <= n,
                    i0 <= i,
                    n == t.len(),
                    t == input@,
                    spec_scan_ident(t, i0 as int) == spec_scan_ident(t, i as int),
                decreases n - i,
            {
                i = i + 1;
            }
            proof {
                assert(spec_scan_ident(t, i as int) == i as int);
            }
            let text = input.substring_char(start, i).to_owned();
            let tok = Token { kind: TokenKind::Ident, text, pos: start };
            let ghost old_toks = toks@;
            toks.push(tok);
            proof {
                assert(tokens_view(toks@) =~= tokens_view(old_toks).push(
                    TokenView {
                        kind: TokenKindView::Ident,
                        text: t.subrange(start as int, i as int),
                        pos: start as nat,
                    },
                ));
            }
        } else if is_digit(c) || (c == '.' && i + 1 < n && is_digit(input.get_char(i + 1))) {
            let r = lex_number(input, i, n)?;
            let (tok, next) = r;
            if next <= i {
                return Err(IdlError::InternalError);
            }
            let ghost old_toks = toks@;
            let ghost tokv = tok@;
            toks.push(tok);
            proof {
                assert(tokens_view(toks@) =~= tokens_view(old_toks).push(tokv));
            }
            i = next;
        } else if c == '\'' {
            // a character literal, quotes included in the spelling
            let start = i;
            i = i + 1;
            let ghost i0 = i;
            let mut closed = false;
            while i < n && !closed
                invariant
                    start < i <= n,
                    i0 <= i,
                    n == t.len(),
                    t == input@,
                    (if closed {
                        Option::Some(i as int)
                    } else {
                        spec_skip_char_lit(t, i as int)
                    }) == spec_skip_char_lit(t, i0 as int),
                decreases n - i,
            {
                let d = input.get_char(i);
                if d == '\\' && i + 1 < n {
                    i = i + 2;
                } else if d == '\'' {
                    closed = true;
                    i = i + 1;
                } else {
                    i = i + 1;
                }
            }
            if !closed {
                proof {
                    assert(spec_skip_char_lit(t, i as int) is None);
                }
                return Err(syntax_error_at("unterminated character literal", start));
            }
            let text = input.substring_char(start, i).to_owned();
            let tok = Token { kind: TokenKind::CharLit, text, pos: start };
            let ghost old_toks = toks@;
            toks.push(tok);
            proof {
                assert(tokens_view(toks@) =~= tokens_view(old_toks).push(
                    TokenView {
                        kind: TokenKindView::CharLit,
                        text: t.subrange(start as int, i as int),
                        pos: start as nat,
                    },
                ));
            }
        } else {
            let r = lex_punct(input, i, n)?;
            let (tok, next) = r;
            if next <= i {
                return Err(IdlError::InternalError);
            }
            let ghost old_toks = toks@;
            let ghost tokv = tok@;
            toks.push(tok);
            proof {
                assert(tokens_view(toks@) =~= tokens_view(old_toks).push(tokv));
            }
            i = next;
        }
    }
    Ok(toks)
}

/// Lexes one numeric literal starting at `i`: a hexadecimal, octal or
/// decimal integer, or a floating-point literal split into its textual
/// parts.
fn lex_number(input: &str, start: usize, n: usize) -> (r: Result<(Token, usize), IdlError>)
    requires
        n == input@.len(),
        start < n,
    ensures
        r matches Ok(p) ==> start < p.1 <= n,
        lexpair_res(r) == spec_lex_number(input@, start as int),
{
    let ghost t = input@;
    let mut i = start;
    let c = input.get_char(i);
    if c == '0' && i + 1 < n && (input.get_char(i + 1) == 'x' || input.get_char(i + 1) == 'X') {
        i = i + 2;
        let ghost i0 = i;
        while i < n && is_hex_digit(input.get_char(i))
            invariant
                start < i <= n,
                i0 <= i,
                n == t.len(),
                t == input@,
                spec_scan_hex(t, i0 as int) == spec_scan_hex(t, i as int),
            decreases n - i,
        {
            i = i + 1;
        }
        proof {
            assert(spec_scan_hex(t, i as int) == i as int);
        }
        let text = input.substring_char(start, i).to_owned();
        return Ok((Token { kind: TokenKind::HexLit, text, pos: start }, i));
    }
    // scan the integral digits
    let ghost s0 = i;
    while i < n && is_digit(input.get_char(i))
        invariant
            start <= i <= n,
            s0 <= i,
            n == t.len(),
            t == input@,
            spec_scan_digits(t, s0 as int) == spec_scan_digits(t, i as int),
        decreases n - i,
    {
        i = i + 1;
    }
    proof {
        assert(spec_scan_digits(t, start as int) == i as int);
    }
    let int_end = i;
    let has_fraction = i < n && input.get_char(i) == '.' && i + 1 < n && is_digit(
        input.get_char(i + 1),
    );
    let has_exponent_here = i < n && (input.get_char(i) == 'e' || input.get_char(i) == 'E');
    let has_suffix_here = i < n && (input.get_char(i) == 'd' || input.get_char(i) == 'D'
        || input.get_char(i) == 'f' || input.get_char(i) == 'F');
    if !has_fraction && !has_exponent_here && !has_suffix_here {
        if i <= start {
            return Err(IdlError::InternalError);
        }
        // a plain integer: leading zero marks an octal literal
        let text = input.substring_char(start, i).to_owned();
        if input.get_char(start) == '0' {
            return Ok((Token { kind: TokenKind::OctLit, text, pos: start }, i));
        }
        return Ok((Token { kind: TokenKind::DecLit, text, pos: start }, i));
    }
    // a floating-point literal: collect its up-to-four textual parts
    let integral: Option<String> = if start < int_end {
        Some(input.substring_char(start, int_end).to_owned())
    } else {
        None
    };
    let mut fraction: Option<String> = None;
    if has_fraction {
        let fstart = i + 1;
        i = i + 1;
        let ghost f0 = i;
        while i < n && is_digit(input.get_char(i))
            invariant
                fstart <= i <= n,
                f0 <= i,
                n == t.len(),
                t == input@,
                spec_scan_digits(t, f0 as int) == spec_scan_digits(t, i as int),
            decreases n - i,
        {
            i = i + 1;
        }
        proof {
            assert(spec_scan_digits(t, fstart as int) == i as int);
        }
        fraction = Some(input.substring_char(fstart, i).to_owned());
    }
    let ghost fend = i as int;
    let mut exponent: Option<String> = None;
    if i < n && (input.get_char(i) == 'e' || input.get_char(i) == 'E') {
        let estart = i + 1;
        i = i + 1;
        if i < n && (input.get_char(i) == '+' || input.get_char(i) == '-') {
            i = i + 1;
        }
        let ghost e0 = i;
        while i < n && is_digit(input.get_char(i))
            invariant
                estart <= i <= n,
                e0 <= i,
                n == t.len(),
                t == input@,
                spec_scan_digits(t, e0 as int) == spec_scan_digits(t, i as int),
            decreases n - i,
        {
            i = i + 1;
        }
        proof {
            assert(spec_scan_digits(t, e0 as int) == i as int);
        }
        exponent = Some(input.substring_char(estart, i).to_owned());
    }
    let mut suffix: Option<String> = None;
    if i < n {
        let d = input.get_char(i);
        if d == 'd' || d == 'D' || d == 'f' || d == 'F' {
            suffix = Some(input.substring_char(i, i + 1).to_owned());
            i = i + 1;
        }
    }
    if i <= start {
        return Err(IdlError::InternalError);
    }
    let text = input.substring_char(start, i).to_owned();
    let r = Ok((
        Token { kind: TokenKind::FloatLit(integral, fraction, exponent, suffix), text, pos: start },
        i,
    ));
    proof {
        assert(lexpair_res(r) =~~= spec_lex_number(input@, start as int));
    }
    r
}

/// Lexes one punctuation token starting at `i`.
fn lex_punct(input: &str, i: usize, n: usize) -> (r: Result<(Token, usize), IdlError>)
    requires
        n == input@.len(),
        i < n,
    ensures
        r matches Ok(p) ==> i < p.1 <= n,
        lexpair_res(r) == spec_lex_punct(input@, i as int),
{
    let c = input.get_char(i);
    let two = i + 1 < n;
    if c == ':' && two && input.get_char(i + 1) == ':' {
        return Ok((tok2(TokenKind::ColonColon, "::", i), i + 2));
    }
    if c == '<' && two && input.get_char(i + 1) == '<' {
        return Ok((tok2(TokenKind::Shl, "<<", i), i + 2));
    }
    if c == '>' && two && input.get_char(i + 1) == '>' {
        return Ok((tok2(TokenKind::Shr, ">>", i), i + 2));
    }
    let kind = if c == '{' {
        TokenKind::LBrace
    } else if c == '}' {
        TokenKind::RBrace
    } else if c == '[' {
        TokenKind::LBracket
    } else if c == ']' {
        TokenKind::RBracket
    } else if c == '(' {
        TokenKind::LParen
    } else if c == ')' {
        TokenKind::RParen
    } else if c == '<' {
        TokenKind::LAngle
    } else if c == '>' {
        TokenKind::RAngle
    } else if c == ';' {
        TokenKind::Semi
    } else if c == ',' {
        TokenKind::Comma
    } else if c == ':' {
        TokenKind::Colon
    } else if c == '=' {
        TokenKind::Equals
    } else if c == '|' {
        TokenKind::Pipe
    } else if c == '^' {
        TokenKind::Caret
    } else if c == '&' {
        TokenKind::Amp
    } else if c == '+' {
        TokenKind::Plus
    } else if c == '-' {
        TokenKind::Minus
    } else if c == '*' {
        TokenKind::Star
    } else if c == '/' {
        TokenKind::Slash
    } else if c == '%' {
        TokenKind::Percent
    } else if c == '~' {
        TokenKind::Tilde
    } else {
        return Err(syntax_error_at("unexpected character", i));
    };
    let text = input.substring_char(i, i + 1).to_owned();
    Ok((Token { kind, text, pos: i }, i + 1))
}

fn tok2(kind: TokenKind, text: &str, pos: usize) -> (r: Token)
    ensures
        r@ == (TokenView { kind: kind@, text: text@, pos: pos as nat }),
{
    Token { kind, text: String::from_str(text), pos }
}

} // verus!
