use vstd::prelude::*;

use crate::tokens::{FileId, LexicalError, LexicalErrorKind, Span};
use crate::types::Type;

verus! {

/// A fault found while parsing the token stream.
#[derive(Debug)]
pub enum ParseError {
    /// The input ended where more tokens were required; `expected` names
    /// the tokens that would have been accepted.
    UnrecognizedEof { expected: Vec<String> },
    /// A token that no production accepts here; `expected` names the
    /// tokens that would have been accepted.
    UnrecognizedToken { token: String, expected: Vec<String> },
    /// A token left over after the input was fully parsed.
    ExtraToken { token: String },
}

/// A fault found by symbol resolution or type checking.
#[derive(Debug)]
pub enum CompilerErrorKind {
    UnknownVariable(String),
    UnknownFunction { name: String },
    FunctionAlreadyDeclared {
        function_name: String,
        old_function_declaration: Span,
        new_function_declaration: Span,
    },
    TypeError { expected: Type, actual: Type },
    UnknownType(String),
    BinaryOperatorTypeError { lhs_type: Type, rhs_type: Type },
    InvalidTypeForBinaryOperator { type_: Type },
    InvalidTypeForIfCondition { got: Type },
    IncorrectNumberOfReturnTypes { expected: usize, actual: usize, function_return_location: Span },
    MismatchingReturnTypes {
        expected: Type,
        actual: Type,
        expected_location: Span,
        actual_location: Span,
    },
    IncorrectNumberOfArguments {
        expected: usize,
        actual: usize,
        function_span: Span,
        function_name: String,
    },
    FunctionDoesNotHaveReturn { name: String, return_location: Span },
    FunctionMustReturnOneValueInThisLocation { actual: usize },
}

/// What one diagnostic reports.
#[derive(Debug)]
pub enum MessageKind {
    ParseError(ParseError),
    LexerError(LexicalErrorKind),
    CompilerError(CompilerErrorKind),
}

/// One diagnostic: what went wrong, and the most specific source range
/// it concerns.
#[derive(Debug)]
pub struct Message {
    pub span: Span,
    pub error: Box<MessageKind>,
}

// ---------------------------------------------------------------------------
// The model of a diagnostic, over Seq<char>.
// ---------------------------------------------------------------------------

pub enum ParseErrorV {
    UnrecognizedEof { expected: Seq<Seq<char>> },
    UnrecognizedToken { token: Seq<char>, expected: Seq<Seq<char>> },
    ExtraToken { token: Seq<char> },
}

pub enum CompilerErrorKindV {
    UnknownVariable(Seq<char>),
    UnknownFunction { name: Seq<char> },
    FunctionAlreadyDeclared {
        function_name: Seq<char>,
        old_function_declaration: Span,
        new_function_declaration: Span,
    },
    TypeError { expected: Type, actual: Type },
    UnknownType(Seq<char>),
    BinaryOperatorTypeError { lhs_type: Type, rhs_type: Type },
    InvalidTypeForBinaryOperator { type_: Type },
    InvalidTypeForIfCondition { got: Type },
    IncorrectNumberOfReturnTypes { expected: nat, actual: nat, function_return_location: Span },
    MismatchingReturnTypes {
        expected: Type,
        actual: Type,
        expected_location: Span,
        actual_location: Span,
    },
    IncorrectNumberOfArguments {
        expected: nat,
        actual: nat,
        function_span: Span,
        function_name: Seq<char>,
    },
    FunctionDoesNotHaveReturn { name: Seq<char>, return_location: Span },
    FunctionMustReturnOneValueInThisLocation { actual: nat },
}

pub enum MessageKindV {
    ParseError(ParseErrorV),
    LexerError(LexicalErrorKind),
    CompilerError(CompilerErrorKindV),
}

pub struct MessageV {
    pub span: Span,
    pub error: MessageKindV,
}

pub open spec fn strings_model(ss: Seq<String>) -> Seq<Seq<char>> {
    ss.map_values(|s: String| s@)
}

impl ParseError {
    pub open spec fn model(self) -> ParseErrorV {
        match self {
            ParseError::UnrecognizedEof { expected } => ParseErrorV::UnrecognizedEof {
                expected: strings_model(expected@),
            },
            ParseError::UnrecognizedToken { token, expected } => ParseErrorV::UnrecognizedToken {
                token: token@,
                expected: strings_model(expected@),
            },
            ParseError::ExtraToken { token } => ParseErrorV::ExtraToken { token: token@ },
        }
    }
}

impl CompilerErrorKind {
    pub open spec fn model(self) -> CompilerErrorKindV {
        match self {
            CompilerErrorKind::UnknownVariable(name) => CompilerErrorKindV::UnknownVariable(name@),
            CompilerErrorKind::UnknownFunction { name } => CompilerErrorKindV::UnknownFunction {
                name: name@,
            },
            CompilerErrorKind::FunctionAlreadyDeclared {
                function_name,
                old_function_declaration,
                new_function_declaration,
            } => CompilerErrorKindV::FunctionAlreadyDeclared {
                function_name: function_name@,
                old_function_declaration,
                new_function_declaration,
            },
            CompilerErrorKind::TypeError { expected, actual } => CompilerErrorKindV::TypeError {
                expected,
                actual,
            },
            CompilerErrorKind::UnknownType(name) => CompilerErrorKindV::UnknownType(name@),
            CompilerErrorKind::BinaryOperatorTypeError { lhs_type, rhs_type } => {
                CompilerErrorKindV::BinaryOperatorTypeError { lhs_type, rhs_type }
            },
            CompilerErrorKind::InvalidTypeForBinaryOperator { type_ } => {
                CompilerErrorKindV::InvalidTypeForBinaryOperator { type_ }
            },
            CompilerErrorKind::InvalidTypeForIfCondition { got } => {
                CompilerErrorKindV::InvalidTypeForIfCondition { got }
            },
            CompilerErrorKind::IncorrectNumberOfReturnTypes {
                expected,
                actual,
                function_return_location,
            } => CompilerErrorKindV::IncorrectNumberOfReturnTypes {
                expected: expected as nat,
                actual: actual as nat,
                function_return_location,
            },
            CompilerErrorKind::MismatchingReturnTypes {
                expected,
                actual,
                expected_location,
                actual_location,
            } => CompilerErrorKindV::MismatchingReturnTypes {
                expected,
                actual,
                expected_location,
                actual_location,
            },
            CompilerErrorKind::IncorrectNumberOfArguments {
                expected,
                actual,
                function_span,
                function_name,
            } => CompilerErrorKindV::IncorrectNumberOfArguments {
                expected: expected as nat,
                actual: actual as nat,
                function_span,
                function_name: function_name@,
            },
            CompilerErrorKind::FunctionDoesNotHaveReturn { name, return_location } => {
                CompilerErrorKindV::FunctionDoesNotHaveReturn { name: name@, return_location }
            },
            CompilerErrorKind::FunctionMustReturnOneValueInThisLocation { actual } => {
                CompilerErrorKindV::FunctionMustReturnOneValueInThisLocation {
                    actual: actual as nat,
                }
            },
        }
    }
}

impl MessageKind {
    pub open spec fn model(self) -> MessageKindV {
        match self {
            MessageKind::ParseError(e) => MessageKindV::ParseError(e.model()),
            MessageKind::LexerError(e) => MessageKindV::LexerError(e),
            MessageKind::CompilerError(e) => MessageKindV::CompilerError(e.model()),
        }
    }
}

impl Message {
    pub open spec fn model(self) -> MessageV {
        MessageV { span: self.span, error: (*self.error).model() }
    }

    /// The same report, re-anchored at another source range.
    pub fn with_new_span(self, span: Span) -> (r: Message)
        ensures
            r.model() == (MessageV { span, ..self.model() }),
    {
        Message { span, error: self.error }
    }
}

impl MessageKind {
    pub fn with_span(self, file_id: FileId, start: usize, end: usize) -> (r: Message)
        requires
            start < end,
        ensures
            r.model() == (MessageV {
                span: Span { file_id, start, end },
                error: self.model(),
            }),
    {
        Message { span: Span::new(file_id, start, end), error: Box::new(self) }
    }
}

impl ParseError {
    pub fn with_span(self, file_id: FileId, start: usize, end: usize) -> (r: Message)
        requires
            start < end,
        ensures
            r.model() == (MessageV {
                span: Span { file_id, start, end },
                error: MessageKindV::ParseError(self.model()),
            }),
    {
        MessageKind::ParseError(self).with_span(file_id, start, end)
    }
}

impl CompilerErrorKind {
    pub fn into_message(self, span: Span) -> (r: Message)
        ensures
            r.model() == (MessageV {
                span,
                error: MessageKindV::CompilerError(self.model()),
            }),
    {
        Message { span, error: Box::new(MessageKind::CompilerError(self)) }
    }
}

impl LexicalError {
    /// A lexical fault as a diagnostic, anchored at the fault's own span.
    pub fn into_message(self) -> (r: Message)
        ensures
            r.model() == (MessageV { span: self.span, error: MessageKindV::LexerError(self.kind) }),
    {
        Message { span: self.span, error: Box::new(MessageKind::LexerError(self.kind)) }
    }
}

// ---------------------------------------------------------------------------
// The accumulating, append-only diagnostics log.
// ---------------------------------------------------------------------------

/// The ordered log of every fault found during one compilation. Passes
/// only ever append to it; no pass aborts the compilation on a fault.
#[derive(Debug)]
pub struct Diagnostics {
    messages: Vec<Message>,
}

pub open spec fn messages_model(ms: Seq<Message>) -> Seq<MessageV> {
    ms.map_values(|m: Message| m.model())
}

impl Diagnostics {
    /// The log as the sequence of reports it holds, oldest first.
    pub closed spec fn model(self) -> Seq<MessageV> {
        messages_model(self.messages@)
    }

    pub fn new() -> (r: Diagnostics)
        ensures
            r.model() == Seq::<MessageV>::empty(),
    {
        let r = Diagnostics { messages: Vec::new() };
        proof {
            assert(r.model() =~= Seq::<MessageV>::empty());
        }
        r
    }

    /// Records one report. Appends and never removes: everything logged
    /// before stays, in order.
    pub fn add_message(&mut self, message: Message)
        ensures
            final(self).model() == old(self).model().push(message.model()),
    {
        let ghost m0 = self.messages@;
        self.messages.push(message);
        proof {
            assert(self.messages@ =~= m0.push(message));
            assert(messages_model(m0.push(message)) =~= messages_model(m0).push(message.model()));
        }
    }

    /// Whether any fault at all was recorded. A caller must treat a
    /// non-empty log as a failed compilation, whatever else was produced.
    pub fn has_any(&self) -> (r: bool)
        ensures
            r == (self.model().len() > 0),
    {
        self.messages.len() > 0
    }

    /// How many reports the log holds.
    pub fn len(&self) -> (r: usize)
        ensures
            r == self.model().len(),
    {
        self.messages.len()
    }

    /// The report at the given position, oldest first.
    pub fn message_at(&self, i: usize) -> (r: &Message)
        requires
            i < self.model().len(),
        ensures
            r.model() == self.model()[i as int],
    {
        &self.messages[i]
    }
}

} // verus!
