use vstd::prelude::*;

use crate::types::Fix;

verus! {

/// Identifies one source file for the lifetime of a compilation session.
#[derive(Clone, Copy, Debug, PartialEq, Eq, Structural)]
pub struct FileId {
    pub id: usize,
}

impl FileId {
    pub fn new(id: usize) -> (r: FileId)
        ensures
            r.id == id,
    {
        FileId { id }
    }
}

/// A half-open range of byte offsets into one source file's UTF-8 text.
///
/// Every span is non-empty: `start < end`.
#[derive(Clone, Copy, Debug, PartialEq, Eq, Structural)]
pub struct Span {
    pub file_id: FileId,
    pub start: usize,
    pub end: usize,
}

impl Span {
    /// Well-formedness of a span: it covers at least one character.
    pub open spec fn wf(self) -> bool {
        self.start < self.end
    }

    pub fn new(file_id: FileId, start: usize, end: usize) -> (r: Span)
        requires
            start < end,
        ensures
            r == (Span { file_id, start, end }),
            r.wf(),
    {
        Span { file_id, start, end }
    }
}

/// A fault found while turning source text into tokens.
#[derive(Clone, Copy, Debug, PartialEq, Eq, Structural)]
pub enum LexicalErrorKind {
    /// A numeric literal whose value does not fit the numeric type.
    InvalidNumber,
    /// A character no token can start with.
    InvalidToken,
}

/// A lexical fault together with the place it was found.
#[derive(Clone, Copy, Debug, PartialEq, Eq, Structural)]
pub struct LexicalError {
    pub kind: LexicalErrorKind,
    pub span: Span,
}

impl LexicalErrorKind {
    pub fn with_span(self, file_id: FileId, start: usize, end: usize) -> (r: LexicalError)
        requires
            start < end,
        ensures
            r.kind == self,
            r.span == (Span { file_id, start, end }),
    {
        LexicalError { kind: self, span: Span::new(file_id, start, end) }
    }
}

/// One lexical token of the script language.
#[derive(Clone, Debug)]
pub enum Token {
    KeywordWait,
    KeywordVar,
    Identifier(String),
    Integer(i32),
    Fix(Fix),
    True,
    False,
    LParen,
    RParen,
    Assign,
    Semicolon,
    OperatorAdd,
    OperatorSub,
    OperatorMul,
    OperatorDiv,
    OperatorMod,
    OperatorRealDiv,
    OperatorRealMod,
}

/// A token together with the character range it was read from.
#[derive(Clone, Debug)]
pub struct SpannedToken {
    pub token: Token,
    pub span: Span,
}

} // verus!
