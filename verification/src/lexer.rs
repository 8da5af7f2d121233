//! Tokens, and what the lexer reports when it cannot make one.

use crate::errors::{CustomDiagnostic, Span};
use crate::field::FieldElement;
use crate::radix::be_bytes;
use crate::text::hex_chars;
use vstd::prelude::*;
use vstd::string::*;

verus! {

/// A unit of source text.
#[derive(Clone, Debug, PartialEq, Eq)]
pub enum Token {
    Ident(String),
    Int(FieldElement),
    Bool(bool),
    Str(String),
    LeftParen,
    RightParen,
    LeftBrace,
    RightBrace,
    Comma,
    Colon,
    Semicolon,
    Plus,
    Minus,
    Star,
    Slash,
    Less,
    Greater,
    Assign,
    Bang,
    Ampersand,
    Pipe,
    Caret,
}

impl Token {
    /// The text of the token: a name or a text as it is, a number as its 64
    /// hexadecimal digits, anything else as it is written in the source.
    pub open spec fn spec_text(&self) -> Seq<char> {
        match self {
            Token::Ident(name) => name@,
            Token::Int(value) => hex_chars(be_bytes(value@, 32)),
            Token::Bool(b) => if *b {
                "true"@
            } else {
                "false"@
            },
            Token::Str(text) => text@,
            Token::LeftParen => "("@,
            Token::RightParen => ")"@,
            Token::LeftBrace => "{"@,
            Token::RightBrace => "}"@,
            Token::Comma => ","@,
            Token::Colon => ":"@,
            Token::Semicolon => ";"@,
            Token::Plus => "+"@,
            Token::Minus => "-"@,
            Token::Star => "*"@,
            Token::Slash => "/"@,
            Token::Less => "<"@,
            Token::Greater => ">"@,
            Token::Assign => "="@,
            Token::Bang => "!"@,
            Token::Ampersand => "&"@,
            Token::Pipe => "|"@,
            Token::Caret => "^"@,
        }
    }

    /// The text of the token.
    pub fn text(&self) -> (r: String)
        ensures
            r@ == self.spec_text(),
    {
        match self {
            Token::Ident(name) => name.clone(),
            Token::Int(value) => value.to_hex(),
            Token::Bool(b) => if *b {
                "true".to_owned()
            } else {
                "false".to_owned()
            },
            Token::Str(text) => text.clone(),
            Token::LeftParen => "(".to_owned(),
            Token::RightParen => ")".to_owned(),
            Token::LeftBrace => "{".to_owned(),
            Token::RightBrace => "}".to_owned(),
            Token::Comma => ",".to_owned(),
            Token::Colon => ":".to_owned(),
            Token::Semicolon => ";".to_owned(),
            Token::Plus => "+".to_owned(),
            Token::Minus => "-".to_owned(),
            Token::Star => "*".to_owned(),
            Token::Slash => "/".to_owned(),
            Token::Less => "<".to_owned(),
            Token::Greater => ">".to_owned(),
            Token::Assign => "=".to_owned(),
            Token::Bang => "!".to_owned(),
            Token::Ampersand => "&".to_owned(),
            Token::Pipe => "|".to_owned(),
            Token::Caret => "^".to_owned(),
        }
    }
}

/// What the lexer reports.
#[allow(inconsistent_fields)]
#[derive(Clone, Debug, PartialEq, Eq)]
pub enum LexerErrorKind {
    UnexpectedCharacter { span: Span, found: char },
    CharacterNotInLanguage { span: Span, found: char },
    NotADoubleChar { span: Span, found: Token },
}

/// The text that `char`'s `Debug` writes for `c`.
pub uninterp spec fn char_debug_text(c: char) -> Seq<char>;

/// What stands for the offending character or token in a report: the
/// character as `Debug` writes it, the token as its text.
pub open spec fn found_text(error: LexerErrorKind) -> Seq<char> {
    match error {
        LexerErrorKind::UnexpectedCharacter { found, .. } => char_debug_text(found),
        LexerErrorKind::CharacterNotInLanguage { found, .. } => char_debug_text(found),
        LexerErrorKind::NotADoubleChar { found, .. } => found.spec_text(),
    }
}

impl LexerErrorKind {
    /// The place of the error.
    pub open spec fn spec_span(&self) -> Span {
        match *self {
            LexerErrorKind::UnexpectedCharacter { span, .. } => span,
            LexerErrorKind::CharacterNotInLanguage { span, .. } => span,
            LexerErrorKind::NotADoubleChar { span, .. } => span,
        }
    }

    /// Where in the source the error is.
    #[verifier::when_used_as_spec(spec_span)]
    pub fn span(&self) -> (r: Span)
        ensures
            r == self.spec_span(),
    {
        match self {
            LexerErrorKind::UnexpectedCharacter { span, .. } => *span,
            LexerErrorKind::CharacterNotInLanguage { span, .. } => *span,
            LexerErrorKind::NotADoubleChar { span, .. } => *span,
        }
    }

    /// The sentence that tells the error.
    pub open spec fn spec_message(&self) -> Seq<char> {
        match self {
            LexerErrorKind::UnexpectedCharacter { .. } => "An unexpected character "@ + found_text(
                *self,
            ) + " was found."@,
            LexerErrorKind::CharacterNotInLanguage { .. } => "The character "@ + found_text(*self)
                + " is not in the language."@,
            LexerErrorKind::NotADoubleChar { .. } => "Internal Error : "@ + found_text(*self)
                + " is not a double char token"@,
        }
    }

    /// The error in one sentence.
    pub fn message(&self) -> (r: String)
        ensures
            r@ == self.spec_message(),
    {
        match self {
            LexerErrorKind::UnexpectedCharacter { found, .. } => {
                let mut text = "An unexpected character ".to_owned();
                text.append(char_debug(*found).as_str());
                text.append(" was found.");
                text
            },
            LexerErrorKind::CharacterNotInLanguage { found, .. } => {
                let mut text = "The character ".to_owned();
                text.append(char_debug(*found).as_str());
                text.append(" is not in the language.");
                text
            },
            LexerErrorKind::NotADoubleChar { found, .. } => {
                let mut text = "Internal Error : ".to_owned();
                text.append(found.text().as_str());
                text.append(" is not a double char token");
                text
            },
        }
    }

    /// What went wrong, as the report says it.
    pub open spec fn spec_primary(&self) -> Seq<char> {
        match self {
            LexerErrorKind::UnexpectedCharacter { .. } => "an unexpected character was found"@,
            LexerErrorKind::CharacterNotInLanguage { .. } => "char is not in language"@,
            LexerErrorKind::NotADoubleChar { .. } => "tried to parse "@ + found_text(*self)
                + " as double char"@,
        }
    }

    /// What was found at the place of the error, as the report says it.
    pub open spec fn spec_secondary(&self) -> Seq<char> {
        match self {
            LexerErrorKind::UnexpectedCharacter { .. } => " "@ + found_text(*self) + " is unexpected"@,
            LexerErrorKind::CharacterNotInLanguage { .. } => " "@ + found_text(*self)
                + " is not in language"@,
            LexerErrorKind::NotADoubleChar { .. } => " "@ + found_text(*self)
                + " is not a double char, this is an internal error"@,
        }
    }

    /// The report on this error: what went wrong, and at its place in the
    /// source what was found there.
    pub fn to_diagnostic(&self) -> (r: CustomDiagnostic)
        ensures
            r.message@ == self.spec_primary(),
            r.secondary_message@ == self.spec_secondary(),
            r.secondary_span == self.span(),
    {
        match self {
            LexerErrorKind::UnexpectedCharacter { span, found } => {
                let mut secondary = " ".to_owned();
                secondary.append(char_debug(*found).as_str());
                secondary.append(" is unexpected");
                CustomDiagnostic::simple_error(
                    "an unexpected character was found".to_owned(),
                    secondary,
                    *span,
                )
            },
            LexerErrorKind::CharacterNotInLanguage { span, found } => {
                let mut secondary = " ".to_owned();
                secondary.append(char_debug(*found).as_str());
                secondary.append(" is not in language");
                CustomDiagnostic::simple_error("char is not in language".to_owned(), secondary, *span)
            },
            LexerErrorKind::NotADoubleChar { span, found } => {
                let mut primary = "tried to parse ".to_owned();
                primary.append(found.text().as_str());
                primary.append(" as double char");
                let mut secondary = " ".to_owned();
                secondary.append(found.text().as_str());
                secondary.append(" is not a double char, this is an internal error");
                CustomDiagnostic::simple_error(primary, secondary, *span)
            },
        }
    }
}

/// `format!` with `{:?}` on a `char`: the character between single quotes,
/// escaped where it needs to be. The text depends on the character alone;
/// nothing more is claimed of it.
#[verifier::external_body]
fn char_debug(c: char) -> (r: String)
    ensures
        r@ == char_debug_text(c),
{
    format!("{:?}", c)
}

} // verus!
