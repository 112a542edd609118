use vstd::prelude::*;

use crate::tokens::{FileId, LexicalError, LexicalErrorKind, Span, SpannedToken, Token};
use crate::types::Fix;
use vstd::string::StringSliceAdditionalSpecFns;
use vstd::utf8::{encode_scalar, encode_utf8};

verus! {

// ---------------------------------------------------------------------------
// The lexer: source text to spanned tokens, skipping whitespace and line
// comments, reporting malformed numbers and unknown characters without
// stopping. The scanner walks characters; spans are byte ranges into the
// UTF-8 source text.
// ---------------------------------------------------------------------------

/// How many bytes the UTF-8 encoding of one character takes.
pub open spec fn sp_char_width(c: char) -> int {
    encode_scalar(c as u32).len() as int
}

/// The byte offset at which character `i` of the source starts.
pub open spec fn sp_byte_pos(s: Seq<char>, i: int) -> int {
    encode_utf8(s.take(i)).len() as int
}

/// Relies on char::len_utf8: the number of bytes this character's UTF-8
/// encoding takes, exactly as the encoding model gives it.
pub assume_specification[ char::len_utf8 ](c: char) -> (r: usize)
    ensures
        r == sp_char_width(c),
;

pub proof fn lemma_char_width_bounds(c: char)
    ensures
        1 <= sp_char_width(c) <= 4,
        (c as u32) < 128 ==> sp_char_width(c) == 1,
{
}

/// Encoding a concatenation encodes the parts.
pub proof fn lemma_encode_utf8_concat(a: Seq<char>, b: Seq<char>)
    ensures
        encode_utf8(a + b) == encode_utf8(a) + encode_utf8(b),
    decreases a.len(),
{
    if a.len() == 0 {
        assert(a + b =~= b);
        assert(encode_utf8(a) =~= Seq::<u8>::empty());
        assert(encode_utf8(a) + encode_utf8(b) =~= encode_utf8(b));
    } else {
        assert((a + b)[0] == a[0]);
        assert((a + b).drop_first() =~= a.drop_first() + b);
        lemma_encode_utf8_concat(a.drop_first(), b);
        assert(encode_utf8(a + b) =~= encode_utf8(a) + encode_utf8(b));
    }
}

/// One character on: the byte position advances by that character's width.
pub proof fn lemma_byte_pos_step(s: Seq<char>, i: int)
    requires
        0 <= i < s.len(),
    ensures
        sp_byte_pos(s, i + 1) == sp_byte_pos(s, i) + sp_char_width(s[i]),
{
    reveal_with_fuel(encode_utf8, 2);
    assert(s.take(i + 1) =~= s.take(i) + seq![s[i]]);
    lemma_encode_utf8_concat(s.take(i), seq![s[i]]);
    assert(seq![s[i]].drop_first() =~= Seq::<char>::empty());
    assert(encode_scalar(s[i] as u32) + Seq::<u8>::empty() =~= encode_scalar(s[i] as u32));
    assert(encode_utf8(seq![s[i]]) =~= encode_scalar(s[i] as u32));
}

/// Byte positions grow strictly with character positions.
pub proof fn lemma_byte_pos_mono(s: Seq<char>, i: int, j: int)
    requires
        0 <= i <= j <= s.len(),
    ensures
        sp_byte_pos(s, i) + (j - i) <= sp_byte_pos(s, j),
        sp_byte_pos(s, i) <= sp_byte_pos(s, j),
    decreases j - i,
{
    if i < j {
        lemma_byte_pos_step(s, j - 1);
        lemma_char_width_bounds(s[j - 1]);
        lemma_byte_pos_mono(s, i, j - 1);
    }
}

/// Over a run of one-byte characters, byte and character positions move
/// in step.
pub proof fn lemma_byte_pos_ascii_run(s: Seq<char>, i: int, j: int)
    requires
        0 <= i <= j <= s.len(),
        forall|k: int| i <= k < j ==> (#[trigger] s[k] as u32) < 128,
    ensures
        sp_byte_pos(s, j) == sp_byte_pos(s, i) + (j - i),
    decreases j - i,
{
    if i < j {
        lemma_byte_pos_ascii_run(s, i, j - 1);
        lemma_byte_pos_step(s, j - 1);
        lemma_char_width_bounds(s[j - 1]);
    }
}

/// The byte position of the last character boundary is the whole byte
/// length of the source.
pub proof fn lemma_byte_pos_total(source: &str)
    ensures
        sp_byte_pos(source@, source@.len() as int) == source.spec_bytes().len(),
{
    assert(source@.take(source@.len() as int) =~= source@);
}

pub open spec fn sp_is_space(c: char) -> bool {
    c == ' ' || c == '\t' || c == '\n' || c == '\u{c}' || c == '\r'
}

pub open spec fn sp_is_digit(c: char) -> bool {
    '0' <= c && c <= '9'
}

pub open spec fn sp_is_ident_start(c: char) -> bool {
    c == '_' || ('a' <= c && c <= 'z') || ('A' <= c && c <= 'Z')
}

pub open spec fn sp_is_ident_char(c: char) -> bool {
    sp_is_ident_start(c) || sp_is_digit(c)
}

pub open spec fn sp_digit_val(c: char) -> int {
    c as int - '0' as int
}

/// The first position at or after `i` that is not an identifier
/// character.
pub open spec fn sp_ident_end(s: Seq<char>, i: int) -> int
    decreases s.len() - i,
{
    if i < 0 || i >= s.len() || !sp_is_ident_char(s[i]) {
        i
    } else {
        sp_ident_end(s, i + 1)
    }
}

/// The first position at or after `i` that is not a digit.
pub open spec fn sp_digits_end(s: Seq<char>, i: int) -> int
    decreases s.len() - i,
{
    if i < 0 || i >= s.len() || !sp_is_digit(s[i]) {
        i
    } else {
        sp_digits_end(s, i + 1)
    }
}

/// The first position at or after `i` past a line comment: the position
/// just after the next newline, or the end of the input.
pub open spec fn sp_comment_end(s: Seq<char>, i: int) -> int
    decreases s.len() - i,
{
    if i < 0 || i >= s.len() {
        i
    } else if s[i] == '\n' {
        i + 1
    } else {
        sp_comment_end(s, i + 1)
    }
}

/// The value of the digits in `s[from .. to]`, read left to right.
pub open spec fn sp_digits_val(s: Seq<char>, from: int, to: int) -> int
    decreases to - from,
{
    if from >= to {
        0
    } else {
        sp_digits_val(s, from, to - 1) * 10 + sp_digit_val(s[to - 1])
    }
}

/// Powers of ten.
pub open spec fn sp_pow10(k: nat) -> int
    decreases k,
{
    if k == 0 {
        1
    } else {
        10 * sp_pow10((k - 1) as nat)
    }
}

/// How many fractional digits take part in a fixed-point literal's
/// value: the first nine. With only 8 fractional bits to fill, later
/// digits are still read as part of the literal but do not contribute.
pub open spec fn sp_frac_limit(digits: int) -> int {
    if digits <= 9 {
        digits
    } else {
        9
    }
}

/// The raw fixed-point value of `intval.fracdigits`, scaled by 256 and
/// rounded toward zero.
pub open spec fn sp_fix_raw(intval: int, s: Seq<char>, frac_from: int, frac_to: int) -> int {
    let k = sp_frac_limit(frac_to - frac_from);
    let frac = sp_digits_val(s, frac_from, frac_from + k);
    intval * 256 + (frac * 256) / sp_pow10(k as nat)
}

/// What the lexer does at one position of the source.
pub enum LexStepV {
    /// The input is exhausted.
    End,
    /// Whitespace or a comment; scanning continues at the given position.
    Skip { next: int },
    /// One token, covering `start .. next`.
    Lexed { token: TokenV, start: int, next: int },
    /// A fault, covering `start .. next`; scanning continues past it.
    Fault { kind: LexicalErrorKind, start: int, next: int },
}

/// The model of a token, over Seq<char>.
pub enum TokenV {
    KeywordWait,
    KeywordVar,
    Identifier(Seq<char>),
    Integer(i32),
    Fix(Fix),
    True,
    False,
    LParen,
    RParen,
    Assign,
    Semicolon,
    OperatorAdd,
    OperatorSub,
    OperatorMul,
    OperatorDiv,
    OperatorMod,
    OperatorRealDiv,
    OperatorRealMod,
}

impl Token {
    pub open spec fn model(self) -> TokenV {
        match self {
            Token::KeywordWait => TokenV::KeywordWait,
            Token::KeywordVar => TokenV::KeywordVar,
            Token::Identifier(name) => TokenV::Identifier(name@),
            Token::Integer(i) => TokenV::Integer(i),
            Token::Fix(f) => TokenV::Fix(f),
            Token::True => TokenV::True,
            Token::False => TokenV::False,
            Token::LParen => TokenV::LParen,
            Token::RParen => TokenV::RParen,
            Token::Assign => TokenV::Assign,
            Token::Semicolon => TokenV::Semicolon,
            Token::OperatorAdd => TokenV::OperatorAdd,
            Token::OperatorSub => TokenV::OperatorSub,
            Token::OperatorMul => TokenV::OperatorMul,
            Token::OperatorDiv => TokenV::OperatorDiv,
            Token::OperatorMod => TokenV::OperatorMod,
            Token::OperatorRealDiv => TokenV::OperatorRealDiv,
            Token::OperatorRealMod => TokenV::OperatorRealMod,
        }
    }
}

/// What a word is: the two keywords and the two literals are words, any
/// other word is an identifier.
pub open spec fn sp_word_token(w: Seq<char>) -> TokenV {
    if w == "wait"@ {
        TokenV::KeywordWait
    } else if w == "var"@ {
        TokenV::KeywordVar
    } else if w == "true"@ {
        TokenV::True
    } else if w == "false"@ {
        TokenV::False
    } else {
        TokenV::Identifier(w)
    }
}

/// A number starting at `start` (after any leading minus sign at
/// `start`): integer digits, optionally a point and fraction digits.
/// The token is a fault if the value cannot be stored.
pub open spec fn sp_number_step(s: Seq<char>, start: int, neg: bool, dstart: int) -> LexStepV {
    let dend = sp_digits_end(s, dstart);
    if dend < s.len() && s[dend] == '.' {
        let fend = sp_digits_end(s, dend + 1);
        let raw = sp_fix_raw(sp_digits_val(s, dstart, dend), s, dend + 1, fend);
        let signed = if neg {
            -raw
        } else {
            raw
        };
        if i32::MIN <= signed <= i32::MAX {
            LexStepV::Lexed { token: TokenV::Fix(Fix { raw: signed as i32 }), start, next: fend }
        } else {
            LexStepV::Fault { kind: LexicalErrorKind::InvalidNumber, start, next: fend }
        }
    } else {
        let val = sp_digits_val(s, dstart, dend);
        let signed = if neg {
            -val
        } else {
            val
        };
        if i32::MIN <= signed <= i32::MAX {
            LexStepV::Lexed { token: TokenV::Integer(signed as i32), start, next: dend }
        } else {
            LexStepV::Fault { kind: LexicalErrorKind::InvalidNumber, start, next: dend }
        }
    }
}

/// One step of the lexer at position `i`.
pub open spec fn sp_lex_step(s: Seq<char>, i: int) -> LexStepV {
    if i < 0 || i >= s.len() {
        LexStepV::End
    } else {
        let c = s[i];
        if sp_is_space(c) {
            LexStepV::Skip { next: i + 1 }
        } else if c == '#' {
            LexStepV::Skip { next: sp_comment_end(s, i + 1) }
        } else if sp_is_ident_start(c) {
            let e = sp_ident_end(s, i + 1);
            LexStepV::Lexed { token: sp_word_token(s.subrange(i, e)), start: i, next: e }
        } else if sp_is_digit(c) {
            sp_number_step(s, i, false, i)
        } else if c == '-' && i + 1 < s.len() && sp_is_digit(s[i + 1]) {
            sp_number_step(s, i, true, i + 1)
        } else if c == '(' {
            LexStepV::Lexed { token: TokenV::LParen, start: i, next: i + 1 }
        } else if c == ')' {
            LexStepV::Lexed { token: TokenV::RParen, start: i, next: i + 1 }
        } else if c == '=' {
            LexStepV::Lexed { token: TokenV::Assign, start: i, next: i + 1 }
        } else if c == ';' {
            LexStepV::Lexed { token: TokenV::Semicolon, start: i, next: i + 1 }
        } else if c == '+' {
            LexStepV::Lexed { token: TokenV::OperatorAdd, start: i, next: i + 1 }
        } else if c == '-' {
            LexStepV::Lexed { token: TokenV::OperatorSub, start: i, next: i + 1 }
        } else if c == '*' {
            LexStepV::Lexed { token: TokenV::OperatorMul, start: i, next: i + 1 }
        } else if c == '/' && i + 1 < s.len() && s[i + 1] == '/' {
            LexStepV::Lexed { token: TokenV::OperatorRealDiv, start: i, next: i + 2 }
        } else if c == '/' {
            LexStepV::Lexed { token: TokenV::OperatorDiv, start: i, next: i + 1 }
        } else if c == '%' && i + 1 < s.len() && s[i + 1] == '%' {
            LexStepV::Lexed { token: TokenV::OperatorRealMod, start: i, next: i + 2 }
        } else if c == '%' {
            LexStepV::Lexed { token: TokenV::OperatorMod, start: i, next: i + 1 }
        } else {
            LexStepV::Fault { kind: LexicalErrorKind::InvalidToken, start: i, next: i + 1 }
        }
    }
}

/// Every step moves forward.
pub proof fn lemma_ident_end_bounds(s: Seq<char>, i: int)
    requires
        0 <= i <= s.len(),
    ensures
        i <= sp_ident_end(s, i) <= s.len(),
    decreases s.len() - i,
{
    if i < s.len() && sp_is_ident_char(s[i]) {
        lemma_ident_end_bounds(s, i + 1);
    }
}

pub proof fn lemma_digits_end_bounds(s: Seq<char>, i: int)
    requires
        0 <= i <= s.len(),
    ensures
        i <= sp_digits_end(s, i) <= s.len(),
    decreases s.len() - i,
{
    if i < s.len() && sp_is_digit(s[i]) {
        lemma_digits_end_bounds(s, i + 1);
    }
}

pub proof fn lemma_comment_end_bounds(s: Seq<char>, i: int)
    requires
        0 <= i <= s.len(),
    ensures
        i <= sp_comment_end(s, i) <= s.len() && (i < s.len() ==> i < sp_comment_end(s, i)),
    decreases s.len() - i,
{
    if i < s.len() && s[i] != '\n' {
        lemma_comment_end_bounds(s, i + 1);
    }
}

/// What one step at `i` leaves at: always strictly after `i`, never past
/// the end.
pub proof fn lemma_lex_step_advances(s: Seq<char>, i: int)
    requires
        0 <= i < s.len(),
    ensures
        ({
            match sp_lex_step(s, i) {
                LexStepV::End => false,
                LexStepV::Skip { next } => i < next <= s.len(),
                LexStepV::Lexed { token, start, next } => start == i && i < next <= s.len(),
                LexStepV::Fault { kind, start, next } => start == i && i < next <= s.len(),
            }
        }),
{
    lemma_comment_end_bounds(s, i + 1);
    lemma_ident_end_bounds(s, i + 1);
    lemma_digits_end_bounds(s, i);
    lemma_digits_end_bounds(s, i + 1);
    let c = s[i];
    if sp_is_digit(c) || (c == '-' && i + 1 < s.len() && sp_is_digit(s[i + 1])) {
        let dstart = if sp_is_digit(c) {
            i
        } else {
            i + 1
        };
        lemma_digits_end_bounds(s, dstart + 1);
        assert(sp_digits_end(s, dstart) == sp_digits_end(s, dstart + 1));
        let dend = sp_digits_end(s, dstart);
        if dend < s.len() && s[dend] == '.' {
            lemma_digits_end_bounds(s, dend + 1);
        }
    }
}

/// The tokens and faults of the whole remaining input from position `i`.
pub open spec fn sp_lex_from(s: Seq<char>, i: int, file_id: FileId) -> (
    Seq<(TokenV, Span)>,
    Seq<LexicalError>,
)
    decreases s.len() - i when 0 <= i
{
    if i >= s.len() {
        (Seq::empty(), Seq::empty())
    } else {
        match sp_lex_step(s, i) {
            LexStepV::End => (Seq::empty(), Seq::empty()),
            LexStepV::Skip { next } => {
                if i < next <= s.len() {
                    sp_lex_from(s, next, file_id)
                } else {
                    (Seq::empty(), Seq::empty())
                }
            },
            LexStepV::Lexed { token, start, next } => {
                if i < next <= s.len() {
                    let (ts, es) = sp_lex_from(s, next, file_id);
                    (
                        seq![
                            (
                                token,
                                Span {
                                    file_id,
                                    start: sp_byte_pos(s, start) as usize,
                                    end: sp_byte_pos(s, next) as usize,
                                },
                            ),
                        ] + ts,
                        es,
                    )
                } else {
                    (Seq::empty(), Seq::empty())
                }
            },
            LexStepV::Fault { kind, start, next } => {
                if i < next <= s.len() {
                    let (ts, es) = sp_lex_from(s, next, file_id);
                    (
                        ts,
                        seq![
                            LexicalError {
                                kind,
                                span: Span {
                                    file_id,
                                    start: sp_byte_pos(s, start) as usize,
                                    end: sp_byte_pos(s, next) as usize,
                                },
                            },
                        ] + es,
                    )
                } else {
                    (Seq::empty(), Seq::empty())
                }
            },
        }
    }
}

/// The token stream and the lexical faults of a whole source text.
pub open spec fn sp_tokenise(s: Seq<char>, file_id: FileId) -> (
    Seq<(TokenV, Span)>,
    Seq<LexicalError>,
) {
    sp_lex_from(s, 0, file_id)
}

pub open spec fn spanned_tokens_model(ts: Seq<SpannedToken>) -> Seq<(TokenV, Span)> {
    ts.map_values(|t: SpannedToken| (t.token.model(), t.span))
}


// ---------------------------------------------------------------------------
// The executable lexer.
// ---------------------------------------------------------------------------

fn is_space(c: char) -> (r: bool)
    ensures
        r == sp_is_space(c),
{
    c == ' ' || c == '\t' || c == '\n' || c == '\u{c}' || c == '\r'
}

fn is_digit(c: char) -> (r: bool)
    ensures
        r == sp_is_digit(c),
{
    let u = c as u32;
    48 <= u && u <= 57
}

fn is_ident_start(c: char) -> (r: bool)
    ensures
        r == sp_is_ident_start(c),
{
    let u = c as u32;
    c == '_' || (97 <= u && u <= 122) || (65 <= u && u <= 90)
}

fn is_ident_char(c: char) -> (r: bool)
    ensures
        r == sp_is_ident_char(c),
{
    is_ident_start(c) || is_digit(c)
}

/// Every character the token grammar itself uses is one byte long.
proof fn lemma_classifier_ascii(c: char)
    ensures
        sp_is_space(c) ==> (c as u32) < 128,
        sp_is_ident_char(c) ==> (c as u32) < 128,
        sp_is_digit(c) ==> (c as u32) < 128,
{
}

/// All characters of a digit run are digits, and the run's value is not
/// negative and only grows as it extends.
proof fn lemma_digits_val_nonneg(s: Seq<char>, from: int, to: int)
    requires
        forall|j: int| from <= j < to ==> sp_is_digit(#[trigger] s[j]),
    ensures
        sp_digits_val(s, from, to) >= 0,
    decreases to - from,
{
    if from < to {
        lemma_digits_val_nonneg(s, from, to - 1);
    }
}

fn scan_ident_end(source: &str, i: usize) -> (r: usize)
    requires
        i <= source@.len(),
    ensures
        r == sp_ident_end(source@, i as int),
        i <= r <= source@.len(),
        forall|j: int| i <= j < r ==> sp_is_ident_char(#[trigger] source@[j]),
    decreases source@.len() - i,
{
    if i < source.unicode_len() {
        if is_ident_char(source.get_char(i)) {
            return scan_ident_end(source, i + 1);
        }
    }
    i
}

fn scan_digits_end(source: &str, i: usize) -> (r: usize)
    requires
        i <= source@.len(),
    ensures
        r == sp_digits_end(source@, i as int),
        i <= r <= source@.len(),
        forall|j: int| i <= j < r ==> sp_is_digit(#[trigger] source@[j]),
    decreases source@.len() - i,
{
    if i < source.unicode_len() {
        if is_digit(source.get_char(i)) {
            let r = scan_digits_end(source, i + 1);
            return r;
        }
    }
    i
}

/// Walks past a line comment, keeping the byte position in step with the
/// character position.
fn scan_comment_end(source: &str, i: usize, b: usize) -> (r: (usize, usize))
    requires
        i <= source@.len(),
        b == sp_byte_pos(source@, i as int),
        sp_byte_pos(source@, source@.len() as int) <= usize::MAX,
    ensures
        r.0 == sp_comment_end(source@, i as int),
        i <= r.0 <= source@.len(),
        r.1 == sp_byte_pos(source@, r.0 as int),
    decreases source@.len() - i,
{
    proof {
        lemma_byte_pos_total(source);
        lemma_byte_pos_mono(source@, i as int, source@.len() as int);
    }
    if i < source.unicode_len() {
        let c = source.get_char(i);
        proof {
            lemma_byte_pos_step(source@, i as int);
            lemma_char_width_bounds(c);
            lemma_byte_pos_mono(source@, i + 1, source@.len() as int);
        }
        let b2 = b + c.len_utf8();
        if c == '\n' {
            (i + 1, b2)
        } else {
            scan_comment_end(source, i + 1, b2)
        }
    } else {
        (i, b)
    }
}

/// The value of a digit run, saturating: a run whose value left the
/// storable range far behind reports so instead of the exact value.
fn digits_value(source: &str, from: usize, to: usize) -> (r: (u64, bool))
    requires
        from <= to <= source@.len(),
        forall|j: int| from <= j < to ==> sp_is_digit(#[trigger] source@[j]),
    ensures
        !r.1 ==> r.0 == sp_digits_val(source@, from as int, to as int) && r.0
            < 100_000_000_000u64,
        r.1 ==> sp_digits_val(source@, from as int, to as int) >= 10_000_000_000,
    decreases to - from,
{
    if from >= to {
        return (0, false);
    }
    let (v, ovf) = digits_value(source, from, to - 1);
    let c = source.get_char(to - 1);
    let d = (c as u32 - 48) as u64;
    proof {
        lemma_digits_val_nonneg(source@, from as int, to as int);
        lemma_digits_val_nonneg(source@, from as int, to - 1);
    }
    if ovf {
        proof {
            assert(sp_digits_val(source@, from as int, to as int) >= 10 * 10_000_000_000);
        }
        (v, true)
    } else if v >= 10_000_000_000 {
        (v, true)
    } else {
        (v * 10 + d, false)
    }
}

fn pow10(k: usize) -> (r: u64)
    requires
        k <= 9,
    ensures
        r == sp_pow10(k as nat),
        1 <= r <= 1_000_000_000,
    decreases k,
{
    proof {
        reveal_with_fuel(sp_pow10, 11);
    }
    if k == 0 {
        1
    } else {
        10 * pow10(k - 1)
    }
}

/// One scanned number, already known to start with a digit at `dstart`.
fn lex_number(source: &str, start: usize, neg: bool, dstart: usize) -> (r: (
    Option<Token>,
    usize,
))
    requires
        start <= dstart < source@.len(),
        sp_is_digit(source@[dstart as int]),
        dstart == start || (dstart == start + 1 && source@[start as int] == '-'),
    ensures
        ({
            let step = sp_number_step(source@, start as int, neg, dstart as int);
            match r.0 {
                Some(token) => step == (LexStepV::Lexed {
                    token: token.model(),
                    start: start as int,
                    next: r.1 as int,
                }),
                None => step == (LexStepV::Fault {
                    kind: LexicalErrorKind::InvalidNumber,
                    start: start as int,
                    next: r.1 as int,
                }),
            }
        }),
        start < r.1 <= source@.len(),
        forall|j: int| start <= j < r.1 ==> (#[trigger] source@[j] as u32) < 128,
{
    let dend = scan_digits_end(source, dstart);
    proof {
        assert(sp_digits_end(source@, dstart as int) == sp_digits_end(source@, dstart + 1));
        lemma_digits_end_bounds(source@, dstart + 1);
    }
    let (ival, iovf) = digits_value(source, dstart, dend);
    let is_fix = if dend < source.unicode_len() {
        source.get_char(dend) == '.'
    } else {
        false
    };
    if is_fix {
        let fstart = dend + 1;
        let fend = scan_digits_end(source, fstart);
        let digits = fend - fstart;
        let k = if digits <= 9 {
            digits
        } else {
            9
        };
        let (fval, fovf) = digits_value(source, fstart, fstart + k);
        proof {
            assert(!fovf) by {
                if fovf {
                    lemma_digits_val_small(source@, fstart as int, fstart + k);
                }
            }
        }
        let p = pow10(k);
        if iovf {
            proof {
                lemma_digits_val_nonneg(source@, fstart as int, fstart + k);
            }
            return (None, fend);
        }
        let raw_u = ival * 256 + (fval * 256) / p;
        if neg {
            if raw_u <= 2_147_483_648 {
                ((Some(Token::Fix(Fix { raw: (-(raw_u as i64)) as i32 })), fend))
            } else {
                (None, fend)
            }
        } else {
            if raw_u <= 2_147_483_647 {
                (Some(Token::Fix(Fix { raw: raw_u as i32 })), fend)
            } else {
                (None, fend)
            }
        }
    } else {
        if iovf {
            return (None, dend);
        }
        if neg {
            if ival <= 2_147_483_648 {
                (Some(Token::Integer((-(ival as i64)) as i32)), dend)
            } else {
                (None, dend)
            }
        } else {
            if ival <= 2_147_483_647 {
                (Some(Token::Integer(ival as i32)), dend)
            } else {
                (None, dend)
            }
        }
    }
}

/// At most nine digits stay under the saturation bound.
proof fn lemma_digits_val_bound(s: Seq<char>, from: int, to: int)
    requires
        forall|j: int| from <= j < to ==> sp_is_digit(#[trigger] s[j]),
        from <= to,
    ensures
        0 <= sp_digits_val(s, from, to) < sp_pow10((to - from) as nat),
    decreases to - from,
{
    if from < to {
        lemma_digits_val_bound(s, from, to - 1);
    }
}

proof fn lemma_digits_val_small(s: Seq<char>, from: int, to: int)
    requires
        forall|j: int| from <= j < to ==> sp_is_digit(#[trigger] s[j]),
        to - from <= 9,
        from <= to,
    ensures
        sp_digits_val(s, from, to) < 1_000_000_000,
{
    lemma_digits_val_bound(s, from, to);
    assert(sp_pow10((to - from) as nat) <= 1_000_000_000) by {
        reveal_with_fuel(sp_pow10, 11);
        lemma_pow10_mono((to - from) as nat, 9nat);
    }
}

proof fn lemma_pow10_mono(a: nat, b: nat)
    requires
        a <= b,
    ensures
        sp_pow10(a) <= sp_pow10(b),
    decreases b,
{
    if a < b {
        lemma_pow10_mono(a, (b - 1) as nat);
        lemma_pow10_bound((b - 1) as nat);
    }
}

proof fn lemma_pow10_bound(k: nat)
    ensures
        sp_pow10(k) >= 1,
    decreases k,
{
    if k > 0 {
        lemma_pow10_bound((k - 1) as nat);
    }
}

/// Turns source text into its token stream, collecting every lexical
/// fault beside it; a fault never stops the scan.
pub fn tokenise(source: &str, file_id: FileId) -> (r: (Vec<SpannedToken>, Vec<LexicalError>))
    ensures
        (spanned_tokens_model(r.0@), r.1@) == sp_tokenise(source@, file_id),
{
    let ghost s = source@;
    let mut tokens: Vec<SpannedToken> = Vec::new();
    let mut errors: Vec<LexicalError> = Vec::new();
    let len = source.unicode_len();
    let total = source.as_bytes().len();
    let mut i: usize = 0;
    let mut b: usize = 0;
    proof {
        lemma_byte_pos_total(source);
        assert(s.take(0int) =~= Seq::<char>::empty());
        assert(encode_utf8(Seq::<char>::empty()) =~= Seq::<u8>::empty());
        assert(spanned_tokens_model(tokens@) =~= Seq::<(TokenV, Span)>::empty());
        assert(spanned_tokens_model(tokens@) + sp_lex_from(s, 0, file_id).0 =~= sp_tokenise(
            s,
            file_id,
        ).0);
        assert(errors@ + sp_lex_from(s, 0, file_id).1 =~= sp_tokenise(s, file_id).1);
    }
    while i < len
        invariant
            i <= len,
            len == s.len(),
            s == source@,
            b == sp_byte_pos(s, i as int),
            total as int == sp_byte_pos(s, len as int),
            sp_tokenise(s, file_id).0 == spanned_tokens_model(tokens@) + sp_lex_from(
                s,
                i as int,
                file_id,
            ).0,
            sp_tokenise(s, file_id).1 == errors@ + sp_lex_from(s, i as int, file_id).1,
        decreases len - i,
    {
        proof {
            lemma_lex_step_advances(s, i as int);
        }
        let c = source.get_char(i);
        if is_space(c) {
            proof {
                lemma_classifier_ascii(c);
                lemma_byte_pos_step(s, i as int);
                lemma_byte_pos_mono(s, i + 1, len as int);
            }
            i += 1;
            b += 1;
        } else if c == '#' {
            proof {
                lemma_byte_pos_step(s, i as int);
                lemma_char_width_bounds(c);
                lemma_byte_pos_mono(s, i + 1, len as int);
            }
            let width = c.len_utf8();
            let (i2, b2) = scan_comment_end(source, i + 1, b + width);
            i = i2;
            b = b2;
        } else if is_ident_start(c) {
            let e = scan_ident_end(source, i + 1);
            proof {
                assert(sp_ident_end(s, i as int) == sp_ident_end(s, i + 1));
                lemma_ident_end_bounds(s, i + 1);
                assert forall|k: int| i <= k < e implies (#[trigger] s[k] as u32) < 128 by {
                    lemma_classifier_ascii(s[k]);
                }
                lemma_byte_pos_ascii_run(s, i as int, e as int);
                lemma_byte_pos_mono(s, e as int, len as int);
            }
            let next_b = b + (e - i);
            let word = source.substring_char(i, e).to_owned();
            let token = if word.eq(&("wait".to_owned())) {
                Token::KeywordWait
            } else if word.eq(&("var".to_owned())) {
                Token::KeywordVar
            } else if word.eq(&("true".to_owned())) {
                Token::True
            } else if word.eq(&("false".to_owned())) {
                Token::False
            } else {
                Token::Identifier(word)
            };
            let ghost pre = tokens@;
            tokens.push(SpannedToken { token, span: Span::new(file_id, b, next_b) });
            proof {
                assert(spanned_tokens_model(tokens@) =~= spanned_tokens_model(pre).push(
                    (
                        sp_word_token(s.subrange(i as int, e as int)),
                        Span {
                            file_id,
                            start: sp_byte_pos(s, i as int) as usize,
                            end: sp_byte_pos(s, e as int) as usize,
                        },
                    ),
                ));
                lemma_model_push_assoc_tokens(
                    pre,
                    (
                        sp_word_token(s.subrange(i as int, e as int)),
                        Span {
                            file_id,
                            start: sp_byte_pos(s, i as int) as usize,
                            end: sp_byte_pos(s, e as int) as usize,
                        },
                    ),
                    sp_lex_from(s, e as int, file_id).0,
                    sp_lex_from(s, i as int, file_id).0,
                    spanned_tokens_model(pre),
                );
            }
            i = e;
            b = next_b;
        } else {
            let digit_here = is_digit(c);
            let neg_number = if !digit_here && c == '-' && i + 1 < len {
                is_digit(source.get_char(i + 1))
            } else {
                false
            };
            if digit_here || neg_number {
                let dstart = if digit_here {
                    i
                } else {
                    i + 1
                };
                let (token_opt, next) = lex_number(source, i, neg_number, dstart);
                proof {
                    lemma_byte_pos_ascii_run(s, i as int, next as int);
                    lemma_byte_pos_mono(s, next as int, len as int);
                }
                let next_b = b + (next - i);
                match token_opt {
                    Some(token) => {
                        let ghost pre = tokens@;
                        let ghost tv = token.model();
                        tokens.push(SpannedToken { token, span: Span::new(file_id, b, next_b) });
                        proof {
                            let ghost sp2 = Span {
                                file_id,
                                start: sp_byte_pos(s, i as int) as usize,
                                end: sp_byte_pos(s, next as int) as usize,
                            };
                            assert(spanned_tokens_model(tokens@) =~= spanned_tokens_model(
                                pre,
                            ).push((tv, sp2)));
                            lemma_model_push_assoc_tokens(
                                pre,
                                (tv, sp2),
                                sp_lex_from(s, next as int, file_id).0,
                                sp_lex_from(s, i as int, file_id).0,
                                spanned_tokens_model(pre),
                            );
                        }
                    },
                    None => {
                        let ghost epre = errors@;
                        errors.push(
                            LexicalErrorKind::InvalidNumber.with_span(file_id, b, next_b),
                        );
                        proof {
                            let ghost err = LexicalError {
                                kind: LexicalErrorKind::InvalidNumber,
                                span: Span {
                                    file_id,
                                    start: sp_byte_pos(s, i as int) as usize,
                                    end: sp_byte_pos(s, next as int) as usize,
                                },
                            };
                            assert(errors@ =~= epre.push(err));
                            lemma_push_assoc_errors(
                                epre,
                                err,
                                sp_lex_from(s, next as int, file_id).1,
                            );
                        }
                    },
                }
                i = next;
                b = next_b;
            } else {
                let simple = lex_simple(c, source, i, len);
                match simple {
                    Some((token, next)) => {
                        proof {
                            lemma_byte_pos_ascii_run(s, i as int, next as int);
                            lemma_byte_pos_mono(s, next as int, len as int);
                        }
                        let next_b = b + (next - i);
                        let ghost pre = tokens@;
                        let ghost tv = token.model();
                        tokens.push(SpannedToken { token, span: Span::new(file_id, b, next_b) });
                        proof {
                            let ghost sp2 = Span {
                                file_id,
                                start: sp_byte_pos(s, i as int) as usize,
                                end: sp_byte_pos(s, next as int) as usize,
                            };
                            assert(spanned_tokens_model(tokens@) =~= spanned_tokens_model(
                                pre,
                            ).push((tv, sp2)));
                            lemma_model_push_assoc_tokens(
                                pre,
                                (tv, sp2),
                                sp_lex_from(s, next as int, file_id).0,
                                sp_lex_from(s, i as int, file_id).0,
                                spanned_tokens_model(pre),
                            );
                        }
                        i = next;
                        b = next_b;
                    },
                    None => {
                        proof {
                            lemma_byte_pos_step(s, i as int);
                            lemma_char_width_bounds(c);
                            lemma_byte_pos_mono(s, i + 1, len as int);
                        }
                        let width = c.len_utf8();
                        let next_b = b + width;
                        let ghost epre = errors@;
                        errors.push(
                            LexicalErrorKind::InvalidToken.with_span(file_id, b, next_b),
                        );
                        proof {
                            let ghost err = LexicalError {
                                kind: LexicalErrorKind::InvalidToken,
                                span: Span {
                                    file_id,
                                    start: sp_byte_pos(s, i as int) as usize,
                                    end: sp_byte_pos(s, i + 1) as usize,
                                },
                            };
                            assert(errors@ =~= epre.push(err));
                            lemma_push_assoc_errors(
                                epre,
                                err,
                                sp_lex_from(s, i + 1, file_id).1,
                            );
                        }
                        i += 1;
                        b = next_b;
                    },
                }
            }
        }
    }
    proof {
        assert(sp_lex_from(s, i as int, file_id).0 =~= Seq::<(TokenV, Span)>::empty());
        assert(sp_lex_from(s, i as int, file_id).1 =~= Seq::<LexicalError>::empty());
        assert(spanned_tokens_model(tokens@) + sp_lex_from(s, i as int, file_id).0
            =~= spanned_tokens_model(tokens@));
        assert(errors@ + sp_lex_from(s, i as int, file_id).1 =~= errors@);
    }
    (tokens, errors)
}

/// One-or-two-character operators and punctuation.
fn lex_simple(c: char, source: &str, i: usize, len: usize) -> (r: Option<(Token, usize)>)
    requires
        i < source@.len(),
        len == source@.len(),
        c == source@[i as int],
        !sp_is_space(c),
        c != '#',
        !sp_is_ident_start(c),
        !sp_is_digit(c),
        !(c == '-' && i + 1 < source@.len() && sp_is_digit(source@[i + 1])),
    ensures
        ({
            let step = sp_lex_step(source@, i as int);
            match r {
                Some((token, next)) => step == (LexStepV::Lexed {
                    token: token.model(),
                    start: i as int,
                    next: next as int,
                }) && i < next <= source@.len() && (forall|j: int|
                    i <= j < next ==> (#[trigger] source@[j] as u32) < 128),
                None => step == (LexStepV::Fault {
                    kind: LexicalErrorKind::InvalidToken,
                    start: i as int,
                    next: i + 1,
                }),
            }
        }),
{
    if c == '(' {
        Some((Token::LParen, i + 1))
    } else if c == ')' {
        Some((Token::RParen, i + 1))
    } else if c == '=' {
        Some((Token::Assign, i + 1))
    } else if c == ';' {
        Some((Token::Semicolon, i + 1))
    } else if c == '+' {
        Some((Token::OperatorAdd, i + 1))
    } else if c == '-' {
        Some((Token::OperatorSub, i + 1))
    } else if c == '*' {
        Some((Token::OperatorMul, i + 1))
    } else if c == '/' {
        if i + 1 < len {
            if source.get_char(i + 1) == '/' {
                return Some((Token::OperatorRealDiv, i + 2));
            }
        }
        Some((Token::OperatorDiv, i + 1))
    } else if c == '%' {
        if i + 1 < len {
            if source.get_char(i + 1) == '%' {
                return Some((Token::OperatorRealMod, i + 2));
            }
        }
        Some((Token::OperatorMod, i + 1))
    } else {
        None
    }
}

/// Concatenation shuffles for the main scan's bookkeeping.
proof fn lemma_model_push_assoc_tokens(
    pre: Seq<SpannedToken>,
    t: (TokenV, Span),
    future: Seq<(TokenV, Span)>,
    here: Seq<(TokenV, Span)>,
    pre_m: Seq<(TokenV, Span)>,
)
    requires
        here == seq![t] + future,
    ensures
        pre_m + here == pre_m.push(t) + future,
{
    assert(pre_m + (seq![t] + future) =~= pre_m.push(t) + future);
}

proof fn lemma_push_assoc_errors(pre: Seq<LexicalError>, e: LexicalError, future: Seq<LexicalError>)
    ensures
        pre + (seq![e] + future) == pre.push(e) + future,
{
    assert(pre + (seq![e] + future) =~= pre.push(e) + future);
}

} // verus!
