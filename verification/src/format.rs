use vstd::prelude::*;

use crate::reporting::{
    CompilerErrorKindV, Diagnostics, Message, MessageKind, MessageKindV, MessageV, ParseErrorV,
};
use crate::tokens::{FileId, LexicalErrorKind};
use crate::types::Type;
use vstd::string::StringSliceAdditionalSpecFns;

verus! {

// ---------------------------------------------------------------------------
// Rendering diagnostics into human-readable, source-quoted reports.
// ---------------------------------------------------------------------------

/// The decimal digits of a number, most significant first.
pub open spec fn sp_dec_str(n: nat) -> Seq<char>
    decreases n,
{
    let digit = sp_digit_char((n % 10) as nat);
    if n < 10 {
        seq![digit]
    } else {
        sp_dec_str(n / 10) + seq![digit]
    }
}

pub open spec fn sp_digit_char(d: nat) -> char {
    if d == 0 {
        '0'
    } else if d == 1 {
        '1'
    } else if d == 2 {
        '2'
    } else if d == 3 {
        '3'
    } else if d == 4 {
        '4'
    } else if d == 5 {
        '5'
    } else if d == 6 {
        '6'
    } else if d == 7 {
        '7'
    } else if d == 8 {
        '8'
    } else {
        '9'
    }
}

fn digit_str(d: usize) -> (r: &'static str)
    requires
        d < 10,
    ensures
        r@ == seq![sp_digit_char(d as nat)],
{
    proof {
        reveal_strlit("0");
        reveal_strlit("1");
        reveal_strlit("2");
        reveal_strlit("3");
        reveal_strlit("4");
        reveal_strlit("5");
        reveal_strlit("6");
        reveal_strlit("7");
        reveal_strlit("8");
        reveal_strlit("9");
    }
    match d {
        0 => "0",
        1 => "1",
        2 => "2",
        3 => "3",
        4 => "4",
        5 => "5",
        6 => "6",
        7 => "7",
        8 => "8",
        _ => "9",
    }
}

/// A number as decimal text.
pub fn usize_to_string(n: usize) -> (r: String)
    ensures
        r@ == sp_dec_str(n as nat),
    decreases n,
{
    if n < 10 {
        digit_str(n).to_owned()
    } else {
        let mut head = usize_to_string(n / 10);
        head.append(digit_str(n % 10));
        head
    }
}

/// The written name of a type.
pub open spec fn sp_name_of_type(t: Type) -> Seq<char> {
    match t {
        Type::Int => "Int"@,
        Type::Fix => "Fix"@,
        Type::Bool => "Bool"@,
        Type::Error => "Error"@,
    }
}

pub fn name_of_type(t: Type) -> (r: String)
    ensures
        r@ == sp_name_of_type(t),
{
    match t {
        Type::Int => "Int".to_owned(),
        Type::Fix => "Fix".to_owned(),
        Type::Bool => "Bool".to_owned(),
        Type::Error => "Error".to_owned(),
    }
}

/// A list of expected tokens, joined for a report's note.
pub open spec fn sp_join(parts: Seq<Seq<char>>) -> Seq<char>
    decreases parts,
{
    if parts.len() == 0 {
        Seq::empty()
    } else if parts.len() == 1 {
        parts[0]
    } else {
        parts[0] + ", "@ + sp_join(parts.skip(1))
    }
}

fn join_strings(parts: &Vec<String>) -> (r: String)
    ensures
        r@ == sp_join(crate::reporting::strings_model(parts@)),
{
    let ghost m = crate::reporting::strings_model(parts@);
    let mut out = String::new();
    let mut i: usize = 0;
    proof {
        assert(m.skip(0int) =~= m);
        assert(out@ + sp_join(m.skip(0int)) =~= sp_join(m));
    }
    while i < parts.len()
        invariant
            i <= parts@.len(),
            m == crate::reporting::strings_model(parts@),
            m.len() == parts@.len(),
            sp_join(m) == out@ + sp_join(m.skip(i as int)),
        decreases parts@.len() - i,
    {
        let ghost out0 = out@;
        proof {
            assert(m.skip(i as int)[0] == m[i as int]);
            assert(m.skip(i as int).skip(1) =~= m.skip(i + 1));
        }
        out.append(parts[i].as_str());
        if i + 1 < parts.len() {
            out.append(", ");
            proof {
                assert(sp_join(m.skip(i as int)) == m[i as int] + ", "@ + sp_join(m.skip(i + 1)));
                assert(out0 + sp_join(m.skip(i as int)) =~= out@ + sp_join(m.skip(i + 1)));
            }
        } else {
            proof {
                assert(m.skip(i as int).len() == 1);
                assert(sp_join(m.skip(i as int)) == m[i as int]);
                assert(sp_join(m.skip(i + 1)) =~= Seq::<char>::empty());
                assert(out0 + sp_join(m.skip(i as int)) =~= out@ + sp_join(m.skip(i + 1)));
            }
        }
        i += 1;
    }
    proof {
        assert(sp_join(m.skip(i as int)) =~= Seq::<char>::empty());
        assert(out@ + sp_join(m.skip(i as int)) =~= out@);
    }
    out
}

/// The one-line description of what a report is about.
pub open spec fn sp_message_title(error: MessageKindV) -> Seq<char> {
    match error {
        MessageKindV::LexerError(LexicalErrorKind::InvalidNumber) => "Invalid number"@,
        MessageKindV::LexerError(LexicalErrorKind::InvalidToken) => "Invalid token"@,
        MessageKindV::ParseError(ParseErrorV::UnrecognizedEof { .. }) => "Unexpected end of file"@,
        MessageKindV::ParseError(ParseErrorV::UnrecognizedToken { token, .. }) => {
            "Unexpected token: found "@ + token
        },
        MessageKindV::ParseError(ParseErrorV::ExtraToken { token }) => {
            "Unexpected extra token "@ + token
        },
        MessageKindV::CompilerError(e) => sp_compiler_title(e),
    }
}

pub open spec fn sp_compiler_title(e: CompilerErrorKindV) -> Seq<char> {
    match e {
        CompilerErrorKindV::UnknownVariable(name) => "Unknown variable "@ + name,
        CompilerErrorKindV::UnknownFunction { name } => "Unknown function "@ + name,
        CompilerErrorKindV::FunctionAlreadyDeclared { function_name, .. } => {
            "Function "@ + function_name + " is already declared"@
        },
        CompilerErrorKindV::TypeError { expected, actual } => {
            "Type mismatch: expected "@ + sp_name_of_type(expected) + ", got "@ + sp_name_of_type(actual)
        },
        CompilerErrorKindV::UnknownType(name) => "Could not determine the type of "@ + name,
        CompilerErrorKindV::BinaryOperatorTypeError { lhs_type, rhs_type } => {
            "Operands have different types: "@ + sp_name_of_type(lhs_type) + " and "@ + sp_name_of_type(
                rhs_type,
            )
        },
        CompilerErrorKindV::InvalidTypeForBinaryOperator { type_ } => {
            "This operator cannot handle operands of type "@ + sp_name_of_type(type_)
        },
        CompilerErrorKindV::InvalidTypeForIfCondition { got } => {
            "An if condition must be Bool, got "@ + sp_name_of_type(got)
        },
        CompilerErrorKindV::IncorrectNumberOfReturnTypes { expected, actual, .. } => {
            "Expected "@ + sp_dec_str(expected) + " return values, got "@ + sp_dec_str(actual)
        },
        CompilerErrorKindV::MismatchingReturnTypes { expected, actual, .. } => {
            "Mismatching return type: expected "@ + sp_name_of_type(expected) + ", got "@
                + sp_name_of_type(actual)
        },
        CompilerErrorKindV::IncorrectNumberOfArguments { expected, actual, function_name, .. } => {
            "Function "@ + function_name + " takes "@ + sp_dec_str(expected) + " arguments, got "@
                + sp_dec_str(actual)
        },
        CompilerErrorKindV::FunctionDoesNotHaveReturn { name, .. } => {
            "Function "@ + name + " does not return on every path"@
        },
        CompilerErrorKindV::FunctionMustReturnOneValueInThisLocation { actual } => {
            "Exactly one value is needed here, the call returns "@ + sp_dec_str(actual)
        },
    }
}

/// The secondary remark under a report.
pub open spec fn sp_message_note(error: MessageKindV) -> Seq<char> {
    match error {
        MessageKindV::LexerError(LexicalErrorKind::InvalidNumber) => {
            "the value does not fit the numeric type"@
        },
        MessageKindV::LexerError(LexicalErrorKind::InvalidToken) => {
            "no token starts with this character"@
        },
        MessageKindV::ParseError(ParseErrorV::UnrecognizedEof { expected }) => {
            "expected "@ + sp_join(expected)
        },
        MessageKindV::ParseError(ParseErrorV::UnrecognizedToken { expected, .. }) => {
            "expected "@ + sp_join(expected)
        },
        MessageKindV::ParseError(ParseErrorV::ExtraToken { .. }) => {
            "the input was already complete"@
        },
        MessageKindV::CompilerError(_) => "the rest of the script was still checked"@,
    }
}

pub fn message_title(error: &MessageKind) -> (r: String)
    ensures
        r@ == sp_message_title(error.model()),
{
    match error {
        MessageKind::LexerError(LexicalErrorKind::InvalidNumber) => "Invalid number".to_owned(),
        MessageKind::LexerError(LexicalErrorKind::InvalidToken) => "Invalid token".to_owned(),
        MessageKind::ParseError(crate::reporting::ParseError::UnrecognizedEof { .. }) => {
            "Unexpected end of file".to_owned()
        },
        MessageKind::ParseError(crate::reporting::ParseError::UnrecognizedToken { token, .. }) => {
            let mut t = "Unexpected token: found ".to_owned();
            t.append(token.as_str());
            t
        },
        MessageKind::ParseError(crate::reporting::ParseError::ExtraToken { token }) => {
            let mut t = "Unexpected extra token ".to_owned();
            t.append(token.as_str());
            t
        },
        MessageKind::CompilerError(e) => compiler_title(e),
    }
}

fn compiler_title(e: &crate::reporting::CompilerErrorKind) -> (r: String)
    ensures
        r@ == sp_compiler_title(e.model()),
{
    match e {
        crate::reporting::CompilerErrorKind::UnknownVariable(name) => {
            let mut t = "Unknown variable ".to_owned();
            t.append(name.as_str());
            t
        },
        crate::reporting::CompilerErrorKind::UnknownFunction { name } => {
            let mut t = "Unknown function ".to_owned();
            t.append(name.as_str());
            t
        },
        crate::reporting::CompilerErrorKind::FunctionAlreadyDeclared { function_name, .. } => {
            let mut t = "Function ".to_owned();
            t.append(function_name.as_str());
            t.append(" is already declared");
            t
        },
        crate::reporting::CompilerErrorKind::TypeError { expected, actual } => {
            let mut t = "Type mismatch: expected ".to_owned();
            t.append(name_of_type(*expected).as_str());
            t.append(", got ");
            t.append(name_of_type(*actual).as_str());
            t
        },
        crate::reporting::CompilerErrorKind::UnknownType(name) => {
            let mut t = "Could not determine the type of ".to_owned();
            t.append(name.as_str());
            t
        },
        crate::reporting::CompilerErrorKind::BinaryOperatorTypeError { lhs_type, rhs_type } => {
            let mut t = "Operands have different types: ".to_owned();
            t.append(name_of_type(*lhs_type).as_str());
            t.append(" and ");
            t.append(name_of_type(*rhs_type).as_str());
            t
        },
        crate::reporting::CompilerErrorKind::InvalidTypeForBinaryOperator { type_ } => {
            let mut t = "This operator cannot handle operands of type ".to_owned();
            t.append(name_of_type(*type_).as_str());
            t
        },
        crate::reporting::CompilerErrorKind::InvalidTypeForIfCondition { got } => {
            let mut t = "An if condition must be Bool, got ".to_owned();
            t.append(name_of_type(*got).as_str());
            t
        },
        crate::reporting::CompilerErrorKind::IncorrectNumberOfReturnTypes {
            expected,
            actual,
            ..
        } => {
            let mut t = "Expected ".to_owned();
            t.append(usize_to_string(*expected).as_str());
            t.append(" return values, got ");
            t.append(usize_to_string(*actual).as_str());
            t
        },
        crate::reporting::CompilerErrorKind::MismatchingReturnTypes { expected, actual, .. } => {
            let mut t = "Mismatching return type: expected ".to_owned();
            t.append(name_of_type(*expected).as_str());
            t.append(", got ");
            t.append(name_of_type(*actual).as_str());
            t
        },
        crate::reporting::CompilerErrorKind::IncorrectNumberOfArguments {
            expected,
            actual,
            function_name,
            ..
        } => {
            let mut t = "Function ".to_owned();
            t.append(function_name.as_str());
            t.append(" takes ");
            t.append(usize_to_string(*expected).as_str());
            t.append(" arguments, got ");
            t.append(usize_to_string(*actual).as_str());
            t
        },
        crate::reporting::CompilerErrorKind::FunctionDoesNotHaveReturn { name, .. } => {
            let mut t = "Function ".to_owned();
            t.append(name.as_str());
            t.append(" does not return on every path");
            t
        },
        crate::reporting::CompilerErrorKind::FunctionMustReturnOneValueInThisLocation {
            actual,
        } => {
            let mut t = "Exactly one value is needed here, the call returns ".to_owned();
            t.append(usize_to_string(*actual).as_str());
            t
        },
    }
}

pub fn message_note(error: &MessageKind) -> (r: String)
    ensures
        r@ == sp_message_note(error.model()),
{
    match error {
        MessageKind::LexerError(LexicalErrorKind::InvalidNumber) => {
            "the value does not fit the numeric type".to_owned()
        },
        MessageKind::LexerError(LexicalErrorKind::InvalidToken) => {
            "no token starts with this character".to_owned()
        },
        MessageKind::ParseError(crate::reporting::ParseError::UnrecognizedEof { expected }) => {
            let mut t = "expected ".to_owned();
            t.append(join_strings(expected).as_str());
            t
        },
        MessageKind::ParseError(
            crate::reporting::ParseError::UnrecognizedToken { expected, .. },
        ) => {
            let mut t = "expected ".to_owned();
            t.append(join_strings(expected).as_str());
            t
        },
        MessageKind::ParseError(crate::reporting::ParseError::ExtraToken { .. }) => {
            "the input was already complete".to_owned()
        },
        MessageKind::CompilerError(_) => "the rest of the script was still checked".to_owned(),
    }
}

// ---------------------------------------------------------------------------
// The source cache and the renderer.
// ---------------------------------------------------------------------------

/// What the renderer knows about each file: its display name and its
/// full text (spans are offsets into that text).
#[derive(Debug)]
pub struct DiagnosticCache {
    files: Vec<(FileId, String, String)>,
}

pub type CacheV = Seq<(FileId, Seq<char>, Seq<char>)>;

/// The entry for a file, first registration wins.
pub open spec fn sp_cache_find(cache: CacheV, id: FileId) -> Option<(Seq<char>, Seq<char>)>
    decreases cache,
{
    if cache.len() == 0 {
        None
    } else if cache[0].0 == id {
        Some((cache[0].1, cache[0].2))
    } else {
        sp_cache_find(cache.skip(1), id)
    }
}

impl DiagnosticCache {
    pub closed spec fn model(self) -> CacheV {
        self.files@.map_values(|f: (FileId, String, String)| (f.0, f.1@, f.2@))
    }

    /// A cache over the given files: each identifier with its display
    /// name and full source text.
    pub fn new(files: Vec<(FileId, String, String)>) -> (r: DiagnosticCache)
        ensures
            r.model() == files@.map_values(|f: (FileId, String, String)| (f.0, f.1@, f.2@)),
    {
        DiagnosticCache { files }
    }

    fn find(&self, id: FileId) -> (r: Option<(&String, &String)>)
        ensures
            match sp_cache_find(self.model(), id) {
                Some(e) => r is Some && r->Some_0.0@ == e.0 && r->Some_0.1@ == e.1,
                None => r is None,
            },
    {
        let ghost m = self.model();
        let mut k: usize = 0;
        proof {
            assert(m.skip(0int) =~= m);
        }
        while k < self.files.len()
            invariant
                k <= self.files@.len(),
                m == self.model(),
                m.len() == self.files@.len(),
                sp_cache_find(m, id) == sp_cache_find(m.skip(k as int), id),
            decreases self.files@.len() - k,
        {
            proof {
                assert(m.skip(k as int)[0] == m[k as int]);
                assert(m.skip(k as int).skip(1) =~= m.skip(k + 1));
            }
            let entry = &self.files[k];
            if entry.0.id == id.id {
                proof {
                    assert(entry.0 == id);
                }
                return Some((&entry.1, &entry.2));
            }
            k += 1;
        }
        proof {
            assert(m.skip(k as int) =~= Seq::<(FileId, Seq<char>, Seq<char>)>::empty());
        }
        None
    }
}

/// What the outside renderer produces for one plain (uncoloured) report:
/// a function of the report's parts alone. A coloured report is not a
/// function of its parts: whether styling is actually emitted passes
/// through process-global state, so nothing is named for it.
pub uninterp spec fn rendered_report(
    title: Seq<char>,
    label: Seq<char>,
    note: Seq<char>,
    source_name: Seq<char>,
    source: Seq<char>,
    start: int,
    end: int,
) -> Seq<char>;

/// Whether a byte range can be handed to the renderer: in order, within
/// the source, and on character boundaries. The renderer indexes the
/// source by bytes and panics on a backwards range; a range off a
/// character boundary could make it cut the text inside a character.
pub open spec fn sp_span_renderable(span: crate::tokens::Span, source: Seq<char>) -> bool {
    let bytes = vstd::utf8::encode_utf8(source);
    &&& span.start <= span.end
    &&& span.end <= bytes.len()
    &&& vstd::utf8::is_char_boundary(bytes, span.start as int)
    &&& vstd::utf8::is_char_boundary(bytes, span.end as int)
}

/// Relies on ariadne's report builder and renderer: building an error
/// report with one byte-indexed labelled span and a note, and rendering
/// it without colour, depends on the report's parts alone.
#[verifier::external_body]
fn render_report(
    title: &str,
    label: &str,
    note: &str,
    source_name: &str,
    source: &str,
    start: usize,
    end: usize,
    colour: bool,
) -> (r: String)
    requires
        start <= end,
        end <= source.spec_bytes().len(),
        vstd::utf8::is_char_boundary(source.spec_bytes(), start as int),
        vstd::utf8::is_char_boundary(source.spec_bytes(), end as int),
    ensures
        !colour ==> r@ == rendered_report(
            title@,
            label@,
            note@,
            source_name@,
            source@,
            start as int,
            end as int,
        ),
{
    let span = (source_name.to_owned(), start..end);
    let config = ariadne::Config::default().with_color(colour).with_index_type(
        ariadne::IndexType::Byte,
    );
    let report = ariadne::Report::build(ariadne::ReportKind::Error, span.clone())
        .with_config(config)
        .with_message(title)
        .with_label(ariadne::Label::new(span).with_message(label))
        .with_note(note)
        .finish();
    let mut buffer: Vec<u8> = Vec::new();
    let cache = (source_name.to_owned(), ariadne::Source::from(source.to_owned()));
    let _ = report.write(cache, &mut buffer);
    String::from_utf8(buffer).unwrap_or_default()
}

/// The plain rendered text of one report: the outside renderer's output
/// for its title, label and note over the right source, or a fixed line
/// if the report's file is not in the cache or its range cannot be
/// handed to the renderer.
pub open spec fn sp_render_message(m: MessageV, cache: CacheV) -> Seq<char> {
    match sp_cache_find(cache, m.span.file_id) {
        Some(e) => if sp_span_renderable(m.span, e.1) {
            rendered_report(
                sp_message_title(m.error),
                "here"@,
                sp_message_note(m.error),
                e.0,
                e.1,
                m.span.start as int,
                m.span.end as int,
            )
        } else {
            "error at an unrenderable source position\n"@
        },
        None => "error in an unknown source file\n"@,
    }
}

impl Message {
    /// Renders this report against the cached sources. With colour off,
    /// the text is exactly the renderer's plain output; with colour on,
    /// the styling can depend on process-global state, so nothing more
    /// is promised than that the call returns.
    pub fn render(&self, cache: &DiagnosticCache, colourful: bool) -> (r: String)
        ensures
            !colourful ==> r@ == sp_render_message(self.model(), cache.model()),
    {
        match cache.find(self.span.file_id) {
            Some((name, source)) => {
                let source_str = source.as_str();
                let byte_len = source_str.as_bytes().len();
                let renderable = self.span.start <= self.span.end && self.span.end <= byte_len
                    && source_str.is_char_boundary(self.span.start) && source_str.is_char_boundary(
                    self.span.end,
                );
                proof {
                    assert(source_str.spec_bytes() == vstd::utf8::encode_utf8(source@));
                    assert(renderable == sp_span_renderable(self.span, source@));
                }
                if renderable {
                    let title = message_title(&self.error);
                    let note = message_note(&self.error);
                    render_report(
                        title.as_str(),
                        "here",
                        note.as_str(),
                        name.as_str(),
                        source_str,
                        self.span.start,
                        self.span.end,
                        colourful,
                    )
                } else {
                    "error at an unrenderable source position\n".to_owned()
                }
            },
            None => "error in an unknown source file\n".to_owned(),
        }
    }
}

/// The plain rendered text of a whole log, oldest report first.
pub open spec fn sp_pretty(msgs: Seq<MessageV>, cache: CacheV) -> Seq<char>
    decreases msgs,
{
    if msgs.len() == 0 {
        Seq::empty()
    } else {
        sp_render_message(msgs[0], cache) + sp_pretty(msgs.skip(1), cache)
    }
}

impl Diagnostics {
    /// Every report rendered in order, as one text. With colour off, the
    /// text is exactly the renderers' plain output, in log order.
    pub fn pretty_string(&self, cache: &DiagnosticCache, colourful: bool) -> (r: String)
        ensures
            !colourful ==> r@ == sp_pretty(self.model(), cache.model()),
    {
        let ghost msgs = self.model();
        let mut out = String::new();
        let mut i: usize = 0;
        proof {
            assert(msgs.skip(0int) =~= msgs);
            assert(out@ + sp_pretty(msgs.skip(0int), cache.model()) =~= sp_pretty(
                msgs,
                cache.model(),
            ));
        }
        while i < self.len()
            invariant
                i <= msgs.len(),
                msgs == self.model(),
                !colourful ==> sp_pretty(msgs, cache.model()) == out@ + sp_pretty(
                    msgs.skip(i as int),
                    cache.model(),
                ),
            decreases msgs.len() - i,
        {
            proof {
                assert(msgs.skip(i as int)[0] == msgs[i as int]);
                assert(msgs.skip(i as int).skip(1) =~= msgs.skip(i + 1));
            }
            let message = self.message_at(i);
            let rendered = message.render(cache, colourful);
            out.append(rendered.as_str());
            i += 1;
        }
        proof {
            assert(sp_pretty(msgs.skip(i as int), cache.model()) =~= Seq::<char>::empty());
            assert(out@ + Seq::<char>::empty() =~= out@);
        }
        out
    }
}

} // verus!
