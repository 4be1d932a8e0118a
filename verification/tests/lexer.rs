//! Token-level tests: literal inputs and the token kinds and spellings the
//! lexer gives them.
use rtps_idl::IdlError;
use rtps_idl::lexer::{TokenKind, tokenize};

#[test]
fn decimal_integer_literal() {
    let toks = tokenize("1234").expect("lexing failed");
    assert_eq!(toks.len(), 1);
    assert!(matches!(toks[0].kind, TokenKind::DecLit));
    assert_eq!(toks[0].text, "1234");
}

#[test]
fn character_literal() {
    let toks = tokenize("'A'").expect("lexing failed");
    assert_eq!(toks.len(), 1);
    assert!(matches!(toks[0].kind, TokenKind::CharLit));
    assert_eq!(toks[0].text, "'A'");
}

#[test]
fn floating_pt_literal() {
    let toks = tokenize("1234.56").expect("lexing failed");
    assert_eq!(toks.len(), 1);
    assert_eq!(toks[0].text, "1234.56");
    match &toks[0].kind {
        TokenKind::FloatLit(integral, fraction, exponent, suffix) => {
            assert_eq!(integral.as_deref(), Some("1234"));
            assert_eq!(fraction.as_deref(), Some("56"));
            assert!(exponent.is_none());
            assert!(suffix.is_none());
        }
        other => panic!("not a float token: {:?}", other),
    }
}

#[test]
fn floating_pt_literal_exponent_and_suffix() {
    let toks = tokenize("1.5e-3d").expect("lexing failed");
    assert_eq!(toks.len(), 1);
    match &toks[0].kind {
        TokenKind::FloatLit(integral, fraction, exponent, suffix) => {
            assert_eq!(integral.as_deref(), Some("1"));
            assert_eq!(fraction.as_deref(), Some("5"));
            assert_eq!(exponent.as_deref(), Some("-3"));
            assert_eq!(suffix.as_deref(), Some("d"));
        }
        other => panic!("not a float token: {:?}", other),
    }
}

#[test]
fn hex_and_octal_literals() {
    let toks = tokenize("0x1F 017 0").expect("lexing failed");
    assert_eq!(toks.len(), 3);
    assert!(matches!(toks[0].kind, TokenKind::HexLit));
    assert_eq!(toks[0].text, "0x1F");
    assert!(matches!(toks[1].kind, TokenKind::OctLit));
    assert_eq!(toks[1].text, "017");
    assert!(matches!(toks[2].kind, TokenKind::OctLit));
    assert_eq!(toks[2].text, "0");
}

#[test]
fn shift_and_scope_punctuation() {
    let toks = tokenize("<< >> :: : < >").expect("lexing failed");
    assert_eq!(toks.len(), 6);
    assert!(matches!(toks[0].kind, TokenKind::Shl));
    assert!(matches!(toks[1].kind, TokenKind::Shr));
    assert!(matches!(toks[2].kind, TokenKind::ColonColon));
    assert!(matches!(toks[3].kind, TokenKind::Colon));
    assert!(matches!(toks[4].kind, TokenKind::LAngle));
    assert!(matches!(toks[5].kind, TokenKind::RAngle));
}

#[test]
fn unterminated_comment_is_an_error() {
    assert!(matches!(tokenize("/* never closed"), Err(IdlError::ErrorMesg(_))));
}

#[test]
fn unknown_character_is_an_error() {
    match tokenize("ab @") {
        Err(IdlError::ErrorMesg(msg)) => {
            assert_eq!(msg, "unexpected character at offset 3");
        }
        other => panic!("expected a syntax error, got {:?}", other),
    }
}
