//! The Lua 5.5 lexer: source text to a token stream with byte spans.

use vstd::prelude::*;
use vstd::string::StrSliceExecFns;
use vstd::utf8::{encode_scalar, encode_utf8, is_scalar};

use crate::diagnostics::{spec_diagnostic, Diagnostic, DiagnosticView, Severity, Span};
use crate::text::{char_from_u32, push_char, string_of};
use crate::token::{keyword, keyword_exec, kind_of, view_token, Token, TokenKind, TokenV};

verus! {

/// The number of bytes in the UTF-8 encoding of `s`.
pub open spec fn byte_len(s: Seq<char>) -> nat {
    encode_utf8(s).len()
}

/// The byte offset of the character at index `i` of `s`.
pub open spec fn byte_at(s: Seq<char>, i: int) -> nat {
    byte_len(s.take(i))
}

proof fn lemma_encode_concat(a: Seq<char>, b: Seq<char>)
    ensures
        encode_utf8(a + b) == encode_utf8(a) + encode_utf8(b),
    decreases a.len(),
{
    if a.len() == 0 {
        assert(a + b =~= b);
        assert(encode_utf8(a) =~= Seq::<u8>::empty());
        assert(encode_utf8(a) + encode_utf8(b) =~= encode_utf8(b));
    } else {
        assert((a + b).drop_first() =~= a.drop_first() + b);
        assert((a + b)[0] == a[0]);
        lemma_encode_concat(a.drop_first(), b);
        assert(encode_scalar(a[0] as u32) + (encode_utf8(a.drop_first()) + encode_utf8(b))
            =~= (encode_scalar(a[0] as u32) + encode_utf8(a.drop_first())) + encode_utf8(b));
    }
}

/// The width in bytes of one character's UTF-8 encoding.
pub open spec fn char_width(c: char) -> nat {
    encode_utf8(seq![c]).len()
}

proof fn lemma_char_width(c: char)
    ensures
        char_width(c) == (if (c as u32) < 0x80 {
            1nat
        } else if (c as u32) < 0x800 {
            2nat
        } else if (c as u32) < 0x10000 {
            3nat
        } else {
            4nat
        }),
{
    let s = seq![c];
    assert(s.drop_first() =~= Seq::<char>::empty());
    assert(s[0] == c);
    assert(encode_utf8(s.drop_first()) =~= Seq::<u8>::empty());
    assert(encode_utf8(s) =~= encode_scalar(c as u32) + Seq::<u8>::empty());
    assert(encode_utf8(s) =~= encode_scalar(c as u32));
}

proof fn lemma_byte_at_step(s: Seq<char>, i: int)
    requires
        0 <= i < s.len(),
    ensures
        byte_at(s, i + 1) == byte_at(s, i) + char_width(s[i]),
{
    assert(s.take(i + 1) =~= s.take(i) + seq![s[i]]);
    lemma_encode_concat(s.take(i), seq![s[i]]);
}

proof fn lemma_byte_at_bound(s: Seq<char>, i: int)
    requires
        0 <= i <= s.len(),
    ensures
        byte_at(s, i) <= byte_len(s),
{
    assert(s =~= s.take(i) + s.skip(i));
    lemma_encode_concat(s.take(i), s.skip(i));
}

/// The characters of `source`.
fn source_chars(source: &str) -> (r: Vec<char>)
    ensures
        r@ == source@,
{
    let mut out: Vec<char> = Vec::new();
    for c in it: source.chars()
        invariant
            out@ == it.seq().take(it.index() as int),
    {
        out.push(c);
    }
    out
}

fn char_width_exec(c: char) -> (r: usize)
    ensures
        r == char_width(c),
{
    proof {
        lemma_char_width(c);
    }
    let v = c as u32;
    if v < 0x80 {
        1
    } else if v < 0x800 {
        2
    } else if v < 0x10000 {
        3
    } else {
        4
    }
}

/// Byte offsets of every character index `0..=len`.
fn byte_offsets(s: &Vec<char>) -> (r: Vec<usize>)
    requires
        byte_len(s@) < u32::MAX,
    ensures
        r@.len() == s@.len() + 1,
        forall|i: int| 0 <= i <= s@.len() ==> r@[i] == byte_at(s@, i),
{
    let mut out: Vec<usize> = Vec::new();
    let mut pos: usize = 0;
    proof {
        assert(s@.take(0) =~= Seq::<char>::empty());
        assert(encode_utf8(Seq::<char>::empty()) =~= Seq::<u8>::empty());
    }
    out.push(0);
    let mut i: usize = 0;
    while i < s.len()
        invariant
            byte_len(s@) < u32::MAX,
            i <= s.len(),
            out@.len() == i + 1,
            pos == byte_at(s@, i as int),
            forall|k: int| 0 <= k <= i ==> out@[k] == byte_at(s@, k),
        decreases s.len() - i,
    {
        proof {
            lemma_byte_at_step(s@, i as int);
            lemma_byte_at_bound(s@, i + 1);
        }
        let w = char_width_exec(s[i]);
        pos = pos + w;
        out.push(pos);
        i += 1;
    }
    out
}


// ── Character classes ────────────────────────────────────────────────────────

/// Classes of characters that tokens are made of.
#[derive(Debug, Clone, Copy, PartialEq, Eq, Structural)]
pub enum CharClass {
    /// `0-9`
    Digit,
    /// `0-9a-fA-F`
    Hex,
    /// `a-zA-Z0-9_`
    Word,
    /// `=`
    Equals,
    /// ASCII whitespace as `\z` skips it: space, tab, LF, FF, CR.
    AsciiSpace,
}

pub open spec fn is_digit(c: char) -> bool {
    '0' <= c <= '9'
}

pub open spec fn is_hex(c: char) -> bool {
    ('0' <= c <= '9') || ('a' <= c <= 'f') || ('A' <= c <= 'F')
}

pub open spec fn is_name_start(c: char) -> bool {
    ('a' <= c <= 'z') || ('A' <= c <= 'Z') || c == '_'
}

pub open spec fn in_class(cl: CharClass, c: char) -> bool {
    match cl {
        CharClass::Digit => is_digit(c),
        CharClass::Hex => is_hex(c),
        CharClass::Word => is_name_start(c) || is_digit(c),
        CharClass::Equals => c == '=',
        CharClass::AsciiSpace => c == ' ' || c == '\t' || c == '\n' || c == '\x0C' || c == '\r',
    }
}

/// Whitespace between tokens: space, tab, CR, LF, FF, VT.
pub open spec fn is_space(c: char) -> bool {
    c == ' ' || c == '\t' || c == '\r' || c == '\n' || c == '\x0C' || c == '\x0B'
}

/// How many characters of class `cl` follow from index `j` on.
pub open spec fn run_len(s: Seq<char>, j: int, cl: CharClass) -> nat
    decreases s.len() - j,
{
    if j < 0 || j >= s.len() || !in_class(cl, s[j]) {
        0
    } else {
        1 + run_len(s, j + 1, cl)
    }
}

pub proof fn lemma_run_len_bound(s: Seq<char>, j: int, cl: CharClass)
    requires
        0 <= j <= s.len(),
    ensures
        j + run_len(s, j, cl) <= s.len(),
    decreases s.len() - j,
{
    if j < s.len() && in_class(cl, s[j]) {
        lemma_run_len_bound(s, j + 1, cl);
    }
}

fn in_class_exec(cl: CharClass, c: char) -> (r: bool)
    ensures
        r == in_class(cl, c),
{
    match cl {
        CharClass::Digit => '0' <= c && c <= '9',
        CharClass::Hex => ('0' <= c && c <= '9') || ('a' <= c && c <= 'f') || ('A' <= c && c
            <= 'F'),
        CharClass::Word => ('a' <= c && c <= 'z') || ('A' <= c && c <= 'Z') || c == '_' || ('0'
            <= c && c <= '9'),
        CharClass::Equals => c == '=',
        CharClass::AsciiSpace => c == ' ' || c == '\t' || c == '\n' || c == '\x0C' || c == '\r',
    }
}

/// The length of the run of class `cl` that starts at `j`.
fn run_exec(s: &Vec<char>, j: usize, cl: CharClass) -> (r: usize)
    requires
        j <= s.len(),
    ensures
        r == run_len(s@, j as int, cl),
        j + r <= s.len(),
{
    let mut k = j;
    while k < s.len() && in_class_exec(cl, s[k])
        invariant
            j <= k <= s.len(),
            run_len(s@, j as int, cl) == (k - j) + run_len(s@, k as int, cl),
        decreases s.len() - k,
    {
        k += 1;
    }
    k - j
}


// ── Digit values ─────────────────────────────────────────────────────────────

pub open spec fn digit_val(c: char) -> nat {
    if '0' <= c <= '9' {
        (c as u32 - '0' as u32) as nat
    } else if 'a' <= c <= 'f' {
        (c as u32 - 'a' as u32 + 10) as nat
    } else if 'A' <= c <= 'F' {
        (c as u32 - 'A' as u32 + 10) as nat
    } else {
        0
    }
}

/// The value of a string of digits in base `radix`.
pub open spec fn value_of(d: Seq<char>, radix: nat) -> nat
    decreases d.len(),
{
    if d.len() == 0 {
        0
    } else {
        value_of(d.drop_last(), radix) * radix + digit_val(d.last())
    }
}

pub open spec fn u64_limit() -> nat {
    0x1_0000_0000_0000_0000
}

fn digit_val_exec(c: char) -> (r: u64)
    ensures
        r == digit_val(c),
        r < 16,
{
    if '0' <= c && c <= '9' {
        (c as u32 - '0' as u32) as u64
    } else if 'a' <= c && c <= 'f' {
        (c as u32 - 'a' as u32 + 10) as u64
    } else if 'A' <= c && c <= 'F' {
        (c as u32 - 'A' as u32 + 10) as u64
    } else {
        0
    }
}

proof fn lemma_mul_add_fits(acc: u64, radix: u64, d: u64)
    by (nonlinear_arith)
    requires
        2 <= radix <= 16,
        d < 16,
    ensures
        (acc as int <= (0xffff_ffff_ffff_ffff - d as int) / (radix as int)) == (acc * radix + d
            <= 0xffff_ffff_ffff_ffff),
{
}

proof fn lemma_mul_add_grows(v: nat, radix: nat, d: nat)
    by (nonlinear_arith)
    requires
        radix >= 1,
    ensures
        v * radix + d >= v,
{
}

/// The value of the digits `s[from..to]` in base `radix`, if it fits in 64 bits.
fn digits_value(s: &Vec<char>, from: usize, to: usize, radix: u64) -> (r: Option<u64>)
    requires
        from <= to <= s.len(),
        radix == 10 || radix == 16,
    ensures
        r == (if value_of(s@.subrange(from as int, to as int), radix as nat) < u64_limit() {
            Some(value_of(s@.subrange(from as int, to as int), radix as nat) as u64)
        } else {
            None::<u64>
        }),
{
    let mut acc: u64 = 0;
    let mut over = false;
    let mut k = from;
    proof {
        assert(s@.subrange(from as int, from as int) =~= Seq::<char>::empty());
    }
    while k < to
        invariant
            from <= k <= to <= s.len(),
            radix == 10 || radix == 16,
            over ==> value_of(s@.subrange(from as int, k as int), radix as nat) >= u64_limit(),
            !over ==> acc == value_of(s@.subrange(from as int, k as int), radix as nat),
        decreases to - k,
    {
        let d = digit_val_exec(s[k]);
        proof {
            let pre = s@.subrange(from as int, k as int);
            let nxt = s@.subrange(from as int, k + 1);
            assert(nxt.drop_last() =~= pre);
            assert(nxt.last() == s@[k as int]);
            lemma_mul_add_grows(value_of(pre, radix as nat), radix as nat, d as nat);
        }
        if !over {
            proof {
                lemma_mul_add_fits(acc, radix, d);
            }
            if acc <= (0xffff_ffff_ffff_ffffu64 - d) / radix {
                acc = acc * radix + d;
            } else {
                over = true;
            }
        }
        k += 1;
    }
    if over {
        None
    } else {
        Some(acc)
    }
}


// ── Lines and columns ────────────────────────────────────────────────────────

/// The 1-based line of the character at index `i`.
pub open spec fn line_no(s: Seq<char>, i: int) -> nat
    decreases i,
{
    if i <= 0 {
        1
    } else {
        line_no(s, i - 1) + if s[i - 1] == '\n' {
            1nat
        } else {
            0nat
        }
    }
}

/// The index of the first character of the line holding index `i`.
pub open spec fn line_start(s: Seq<char>, i: int) -> int
    decreases i,
{
    if i <= 0 {
        0
    } else if s[i - 1] == '\n' {
        i
    } else {
        line_start(s, i - 1)
    }
}

proof fn lemma_line_facts(s: Seq<char>, i: int)
    requires
        0 <= i <= s.len(),
    ensures
        line_no(s, i) <= i + 1,
        0 <= line_start(s, i) <= i,
    decreases i,
{
    if i > 0 {
        lemma_line_facts(s, i - 1);
    }
}

proof fn lemma_byte_at_mono(s: Seq<char>, a: int, b: int)
    requires
        0 <= a <= b <= s.len(),
    ensures
        byte_at(s, a) <= byte_at(s, b),
{
    assert(s.take(b) =~= s.take(a) + s.subrange(a, b));
    lemma_encode_concat(s.take(a), s.subrange(a, b));
}

proof fn lemma_byte_at_ge(s: Seq<char>, i: int)
    requires
        0 <= i <= s.len(),
    ensures
        byte_at(s, i) >= i,
    decreases i,
{
    if i == 0 {
        assert(s.take(0) =~= Seq::<char>::empty());
        assert(encode_utf8(Seq::<char>::empty()) =~= Seq::<u8>::empty());
    } else {
        lemma_byte_at_ge(s, i - 1);
        lemma_byte_at_step(s, i - 1);
        lemma_char_width(s[i - 1]);
    }
}

/// The span of the characters `s[a..b]`: byte offsets, and the line and
/// byte column where it starts.
pub open spec fn span_of(s: Seq<char>, a: int, b: int) -> Span {
    Span {
        start: byte_at(s, a) as usize,
        end: byte_at(s, b) as usize,
        line: line_no(s, a) as u32,
        col: (byte_at(s, a) - byte_at(s, line_start(s, a)) + 1) as u32,
    }
}

/// The span of the end of input: empty, at the last byte, with the line and
/// column of that last byte (line 1, column 1 for an empty source).
pub open spec fn eof_span(s: Seq<char>) -> Span {
    if s.len() == 0 {
        Span { start: 0, end: 0, line: 1, col: 1 }
    } else {
        Span {
            start: byte_len(s) as usize,
            end: byte_len(s) as usize,
            line: line_no(s, s.len() - 1) as u32,
            col: (byte_len(s) - byte_at(s, line_start(s, s.len() - 1))) as u32,
        }
    }
}

/// Positions of the source: byte offsets, lines and line starts per character index.
struct Positions {
    offs: Vec<usize>,
    lines: Vec<u32>,
    starts: Vec<usize>,
}

impl Positions {
    spec fn wf(&self, s: Seq<char>) -> bool {
        &&& byte_len(s) < u32::MAX
        &&& self.offs@.len() == s.len() + 1
        &&& self.lines@.len() == s.len() + 1
        &&& self.starts@.len() == s.len() + 1
        &&& forall|i: int| 0 <= i <= s.len() ==> self.offs@[i] == byte_at(s, i)
        &&& forall|i: int| 0 <= i <= s.len() ==> self.lines@[i] == line_no(s, i)
        &&& forall|i: int|
            0 <= i <= s.len() ==> self.starts@[i] == byte_at(s, line_start(s, i))
    }

    fn new(s: &Vec<char>) -> (r: Self)
        requires
            byte_len(s@) < u32::MAX,
        ensures
            r.wf(s@),
    {
        let offs = byte_offsets(s);
        let mut lines: Vec<u32> = Vec::new();
        let mut starts: Vec<usize> = Vec::new();
        lines.push(1);
        starts.push(0);
        proof {
            assert(s@.take(0) =~= Seq::<char>::empty());
            assert(encode_utf8(Seq::<char>::empty()) =~= Seq::<u8>::empty());
        }
        let mut i: usize = 0;
        while i < s.len()
            invariant
                byte_len(s@) < u32::MAX,
                offs@.len() == s@.len() + 1,
                forall|k: int| 0 <= k <= s@.len() ==> offs@[k] == byte_at(s@, k),
                i <= s.len(),
                lines@.len() == i + 1,
                starts@.len() == i + 1,
                forall|k: int| 0 <= k <= i ==> lines@[k] == line_no(s@, k),
                forall|k: int| 0 <= k <= i ==> starts@[k] == byte_at(s@, line_start(s@, k)),
            decreases s.len() - i,
        {
            proof {
                lemma_line_facts(s@, i + 1);
                lemma_byte_at_ge(s@, s@.len() as int);
                lemma_byte_at_bound(s@, s@.len() as int);
                assert(s@.take(s@.len() as int) =~= s@);
            }
            let line = lines[i];
            if s[i] == '\n' {
                lines.push(line + 1);
                starts.push(offs[i + 1]);
            } else {
                lines.push(line);
                let st = starts[i];
                starts.push(st);
            }
            i += 1;
        }
        Positions { offs, lines, starts }
    }

    /// The span of the characters `a..b`.
    fn span(&self, Ghost(s): Ghost<Seq<char>>, a: usize, b: usize) -> (r: Span)
        requires
            self.wf(s),
            a <= b <= s.len(),
        ensures
            r == span_of(s, a as int, b as int),
    {
        proof {
            lemma_line_facts(s, a as int);
            lemma_byte_at_mono(s, line_start(s, a as int), a as int);
            lemma_byte_at_bound(s, a as int);
        }
        let col = self.offs[a] - self.starts[a] + 1;
        Span { start: self.offs[a], end: self.offs[b], line: self.lines[a], col: col as u32 }
    }

    fn eof(&self, Ghost(s): Ghost<Seq<char>>, n: usize) -> (r: Span)
        requires
            self.wf(s),
            n == s.len(),
        ensures
            r == eof_span(s),
    {
        if n == 0 {
            Span { start: 0, end: 0, line: 1, col: 1 }
        } else {
            proof {
                lemma_line_facts(s, n - 1);
                lemma_byte_at_mono(s, line_start(s, n - 1), n as int);
                assert(s.take(n as int) =~= s);
            }
            let col = self.offs[n] - self.starts[n - 1];
            Span { start: self.offs[n], end: self.offs[n], line: self.lines[n - 1], col: col as u32 }
        }
    }
}


// ── Errors ───────────────────────────────────────────────────────────────────

/// What went wrong while scanning a token.
#[derive(Debug, Clone, Copy, PartialEq, Eq, Structural)]
pub enum LexErrorKind {
    UnexpectedChar,
    UnterminatedString,
    InvalidEscape,
    UnterminatedLongString,
    InvalidNumber,
}

impl Default for LexErrorKind {
    fn default() -> (r: Self)
        ensures
            r == LexErrorKind::UnexpectedChar,
    {
        LexErrorKind::UnexpectedChar
    }
}

// ── Quoted strings ───────────────────────────────────────────────────────────

/// How scanning a quoted string ends.
pub ghost enum QuotedV {
    Done { content: Seq<char>, end: int },
    Bad { kind: LexErrorKind },
}

/// The character an escape letter stands for, for the escapes of one letter.
pub open spec fn simple_escape(e: char) -> Option<char> {
    if e == 'n' {
        Some('\n')
    } else if e == 't' {
        Some('\t')
    } else if e == 'r' {
        Some('\r')
    } else if e == 'a' {
        Some('\x07')
    } else if e == 'b' {
        Some('\x08')
    } else if e == 'f' {
        Some('\x0C')
    } else if e == 'v' {
        Some('\x0B')
    } else if e == '\\' {
        Some('\\')
    } else if e == '\'' {
        Some('\'')
    } else if e == '"' {
        Some('"')
    } else if e == '\n' {
        Some('\n')
    } else {
        None
    }
}

pub open spec fn min_nat(a: nat, b: nat) -> nat {
    if a <= b {
        a
    } else {
        b
    }
}

/// Scanning the body of a string quoted by `q` from index `j`, with `acc`
/// decoded so far: the decoded content and the index after the closing
/// quote, or why the string is malformed.
pub open spec fn quoted(s: Seq<char>, j: int, q: char, acc: Seq<char>) -> QuotedV
    decreases s.len() - j,
{
    if j < 0 || j >= s.len() {
        QuotedV::Bad { kind: LexErrorKind::UnterminatedString }
    } else {
        let c = s[j];
        if c == '\n' || c == '\r' {
            QuotedV::Bad { kind: LexErrorKind::UnterminatedString }
        } else if c == q {
            QuotedV::Done { content: acc, end: j + 1 }
        } else if c != '\\' {
            quoted(s, j + 1, q, acc.push(c))
        } else if j + 1 >= s.len() {
            QuotedV::Bad { kind: LexErrorKind::UnterminatedString }
        } else {
            let e = s[j + 1];
            let k = j + 2;
            if simple_escape(e) is Some {
                quoted(s, k, q, acc.push(simple_escape(e)->0))
            } else if e == '\r' {
                quoted(
                    s,
                    if k < s.len() && s[k] == '\n' {
                        k + 1
                    } else {
                        k
                    },
                    q,
                    acc.push('\n'),
                )
            } else if e == 'z' {
                proof {
                    lemma_run_len_bound(s, k, CharClass::AsciiSpace);
                }
                quoted(s, k + run_len(s, k, CharClass::AsciiSpace), q, acc)
            } else if e == 'x' {
                if k + 1 < s.len() && is_hex(s[k]) && is_hex(s[k + 1]) {
                    quoted(s, k + 2, q, acc.push((value_of(s.subrange(k, k + 2), 16) as u8) as char))
                } else {
                    QuotedV::Bad { kind: LexErrorKind::InvalidEscape }
                }
            } else if is_digit(e) {
                let end = k + min_nat(2, run_len(s, k, CharClass::Digit));
                let v = value_of(s.subrange(j + 1, end), 10);
                proof {
                    lemma_run_len_bound(s, k, CharClass::Digit);
                }
                if v > 255 {
                    QuotedV::Bad { kind: LexErrorKind::InvalidEscape }
                } else {
                    quoted(s, end, q, acc.push((v as u8) as char))
                }
            } else if e == 'u' {
                let h = run_len(s, k + 1, CharClass::Hex);
                let v = value_of(s.subrange(k + 1, k + 1 + h), 16);
                if k < s.len() && s[k] == '{' && k + 1 + h < s.len() && s[k + 1 + h] == '}' && h
                    > 0 && v < 0x1_0000_0000 && is_scalar(v as u32) {
                    quoted(s, k + 2 + h, q, acc.push((v as u32) as char))
                } else {
                    QuotedV::Bad { kind: LexErrorKind::InvalidEscape }
                }
            } else {
                quoted(s, k, q, acc.push(e))
            }
        }
    }
}

/// Quoted strings decode the one-letter escapes as the Lua manual lists
/// them: `\n` is U+000A, `\t` U+0009, `\r` U+000D, `\a` U+0007, `\b` U+0008,
/// `\f` U+000C and `\v` U+000B; each stands for exactly that one character,
/// and scanning goes on right after the escape, wherever it stands in
/// whatever string.
pub proof fn lemma_one_letter_escapes(s: Seq<char>, j: int, q: char, acc: Seq<char>)
    requires
        0 <= j,
        j + 1 < s.len(),
        s[j] == '\\',
        q != '\\',
    ensures
        s[j + 1] == 'n' ==> quoted(s, j, q, acc) == quoted(s, j + 2, q, acc.push('\u{000A}')),
        s[j + 1] == 't' ==> quoted(s, j, q, acc) == quoted(s, j + 2, q, acc.push('\u{0009}')),
        s[j + 1] == 'r' ==> quoted(s, j, q, acc) == quoted(s, j + 2, q, acc.push('\u{000D}')),
        s[j + 1] == 'a' ==> quoted(s, j, q, acc) == quoted(s, j + 2, q, acc.push('\u{0007}')),
        s[j + 1] == 'b' ==> quoted(s, j, q, acc) == quoted(s, j + 2, q, acc.push('\u{0008}')),
        s[j + 1] == 'f' ==> quoted(s, j, q, acc) == quoted(s, j + 2, q, acc.push('\u{000C}')),
        s[j + 1] == 'v' ==> quoted(s, j, q, acc) == quoted(s, j + 2, q, acc.push('\u{000B}')),
{
}

fn simple_escape_exec(e: char) -> (r: Option<char>)
    ensures
        r == simple_escape(e),
{
    if e == 'n' {
        Some('\n')
    } else if e == 't' {
        Some('\t')
    } else if e == 'r' {
        Some('\r')
    } else if e == 'a' {
        Some('\x07')
    } else if e == 'b' {
        Some('\x08')
    } else if e == 'f' {
        Some('\x0C')
    } else if e == 'v' {
        Some('\x0B')
    } else if e == '\\' {
        Some('\\')
    } else if e == '\'' {
        Some('\'')
    } else if e == '"' {
        Some('"')
    } else if e == '\n' {
        Some('\n')
    } else {
        None
    }
}

enum Quoted {
    Done(String, usize),
    Bad(LexErrorKind),
}

/// Scans a string quoted by `q` whose body starts at `start`.
#[verifier::rlimit(60)]
fn scan_quoted(s: &Vec<char>, start: usize, q: char) -> (r: Quoted)
    requires
        start <= s.len() < u32::MAX,
    ensures
        match r {
            Quoted::Done(content, end) => quoted(s@, start as int, q, seq![]) == (QuotedV::Done {
                content: content@,
                end: end as int,
            }) && start < end <= s.len(),
            Quoted::Bad(kind) => quoted(s@, start as int, q, seq![]) == (QuotedV::Bad { kind }),
        },
{
    let mut acc = String::new();
    let mut j = start;
    let n = s.len();
    while j < n
        invariant
            n == s.len(),
            n < u32::MAX,
            start <= j <= n,
            quoted(s@, start as int, q, seq![]) == quoted(s@, j as int, q, acc@),
        decreases n - j,
    {
        let c = s[j];
        if c == '\n' || c == '\r' {
            return Quoted::Bad(LexErrorKind::UnterminatedString);
        } else if c == q {
            return Quoted::Done(acc, j + 1);
        } else if c != '\\' {
            push_char(&mut acc, c);
            j += 1;
        } else if j + 1 >= n {
            return Quoted::Bad(LexErrorKind::UnterminatedString);
        } else {
            let e = s[j + 1];
            let k = j + 2;
            match simple_escape_exec(e) {
                Some(x) => {
                    push_char(&mut acc, x);
                    j = k;
                },
                None => {
                    if e == '\r' {
                        push_char(&mut acc, '\n');
                        j = if k < n && s[k] == '\n' {
                            k + 1
                        } else {
                            k
                        };
                    } else if e == 'z' {
                        let w = run_exec(s, k, CharClass::AsciiSpace);
                        j = k + w;
                    } else if e == 'x' {
                        if k + 1 < n && in_class_exec(CharClass::Hex, s[k]) && in_class_exec(
                            CharClass::Hex,
                            s[k + 1],
                        ) {
                            let v = digits_value(s, k, k + 2, 16);
                            proof {
                                lemma_value_bound(s@.subrange(k as int, k + 2), 16);
                            }
                            match v {
                                Some(v) => {
                                    push_char(&mut acc, (v as u8) as char);
                                    j = k + 2;
                                },
                                None => {
                                    return Quoted::Bad(LexErrorKind::InvalidEscape);
                                },
                            }
                        } else {
                            return Quoted::Bad(LexErrorKind::InvalidEscape);
                        }
                    } else if '0' <= e && e <= '9' {
                        let d = run_exec(s, k, CharClass::Digit);
                        let end = if d < 2 {
                            k + d
                        } else {
                            k + 2
                        };
                        let v = digits_value(s, j + 1, end, 10);
                        match v {
                            Some(v) => {
                                if v > 255 {
                                    return Quoted::Bad(LexErrorKind::InvalidEscape);
                                }
                                push_char(&mut acc, (v as u8) as char);
                                j = end;
                            },
                            None => {
                                return Quoted::Bad(LexErrorKind::InvalidEscape);
                            },
                        }
                    } else if e == 'u' {
                        if !(k < n && s[k] == '{') {
                            return Quoted::Bad(LexErrorKind::InvalidEscape);
                        }
                        let h = run_exec(s, k + 1, CharClass::Hex);
                        if !(k + 1 + h < n && s[k + 1 + h] == '}' && h > 0) {
                            return Quoted::Bad(LexErrorKind::InvalidEscape);
                        }
                        match digits_value(s, k + 1, k + 1 + h, 16) {
                            Some(v) => {
                                if v >= 0x1_0000_0000 {
                                    return Quoted::Bad(LexErrorKind::InvalidEscape);
                                }
                                match char_from_u32(v as u32) {
                                    Some(ch) => {
                                        push_char(&mut acc, ch);
                                        j = k + 2 + h;
                                    },
                                    None => {
                                        return Quoted::Bad(LexErrorKind::InvalidEscape);
                                    },
                                }
                            },
                            None => {
                                return Quoted::Bad(LexErrorKind::InvalidEscape);
                            },
                        }
                    } else {
                        push_char(&mut acc, e);
                        j = k;
                    }
                },
            }
        }
    }
    Quoted::Bad(LexErrorKind::UnterminatedString)
}

proof fn lemma_value_bound(d: Seq<char>, radix: nat)
    requires
        radix == 16,
        d.len() == 2,
        forall|m: int| 0 <= m < 2 ==> is_hex(#[trigger] d[m]),
    ensures
        value_of(d, radix) < 256,
{
    let d1 = d.drop_last();
    assert(d1.drop_last() =~= Seq::<char>::empty());
    assert(d1.last() == d[0]);
    assert(d.last() == d[1]);
    assert(is_hex(d[0]) && is_hex(d[1]));
    assert(digit_val(d[0]) < 16);
    assert(digit_val(d[1]) < 16);
    assert(value_of(d1.drop_last(), radix) == 0);
    assert(value_of(d1, radix) == digit_val(d[0]));
    assert(value_of(d, radix) == digit_val(d[0]) * 16 + digit_val(d[1]));
}


// ── Numbers ──────────────────────────────────────────────────────────────────

/// The length of an exponent `[lo|up][+-]?[0-9]+` at `j`, or 0 when there is none.
pub open spec fn exp_len(s: Seq<char>, j: int, lo: char, up: char) -> nat {
    if 0 <= j < s.len() && (s[j] == lo || s[j] == up) {
        let k = if j + 1 < s.len() && (s[j + 1] == '+' || s[j + 1] == '-') {
            j + 2
        } else {
            j + 1
        };
        let d = run_len(s, k, CharClass::Digit);
        if d > 0 {
            ((k - j) + d) as nat
        } else {
            0
        }
    } else {
        0
    }
}

/// The notation of a numeric literal.
#[derive(Debug, Clone, Copy, PartialEq, Eq, Structural)]
pub enum NumKind {
    DecInt,
    HexInt,
    DecFloat,
    HexFloat,
}

/// The longest numeric literal at `i`: its notation and its length.
/// `s[i]` is a digit, or a `.` followed by a digit.
pub open spec fn num_scan(s: Seq<char>, i: int) -> (NumKind, nat) {
    if s[i] == '.' {
        let f = run_len(s, i + 1, CharClass::Digit);
        (NumKind::DecFloat, 1 + f + exp_len(s, i + 1 + f, 'e', 'E'))
    } else {
        let hexlead = s[i] == '0' && i + 1 < s.len() && (s[i + 1] == 'x' || s[i + 1] == 'X');
        let h = run_len(s, i + 2, CharClass::Hex);
        let dot = i + 2 + h;
        let f = run_len(s, dot + 1, CharClass::Hex);
        if hexlead && dot < s.len() && s[dot] == '.' && f > 0 {
            (NumKind::HexFloat, 3 + h + f + exp_len(s, dot + 1 + f, 'p', 'P'))
        } else if hexlead && h > 0 && exp_len(s, dot, 'p', 'P') > 0 {
            (NumKind::HexFloat, 2 + h + exp_len(s, dot, 'p', 'P'))
        } else if hexlead && h > 0 {
            (NumKind::HexInt, 2 + h)
        } else {
            let d = run_len(s, i, CharClass::Digit);
            let fd = run_len(s, i + d + 1, CharClass::Digit);
            if i + d < s.len() && s[i + d] == '.' && fd > 0 {
                (NumKind::DecFloat, d + 1 + fd + exp_len(s, i + d + 1 + fd, 'e', 'E'))
            } else if exp_len(s, i + d, 'e', 'E') > 0 {
                (NumKind::DecFloat, d + exp_len(s, i + d, 'e', 'E'))
            } else {
                (NumKind::DecInt, d)
            }
        }
    }
}

/// A 64-bit pattern read as a signed integer.
pub open spec fn wrap_i64(v: nat) -> i64 {
    if v < 0x8000_0000_0000_0000 {
        v as i64
    } else {
        (v - 0x1_0000_0000_0000_0000) as i64
    }
}

/// Whether the parts of a hexadecimal float at `s[i..end]` can be read: the
/// integer and fraction digits each have a value below 2^64 and the binary
/// exponent fits in an `i32`.
pub open spec fn hex_float_ok(s: Seq<char>, i: int, end: int) -> bool {
    let h = run_len(s, i + 2, CharClass::Hex);
    let dot = i + 2 + h;
    let has_frac = dot < end && s[dot] == '.';
    let f = if has_frac {
        run_len(s, dot + 1, CharClass::Hex)
    } else {
        0
    };
    let epos = if has_frac {
        dot + 1 + f
    } else {
        dot
    };
    let signed = epos + 1 < end && (s[epos + 1] == '+' || s[epos + 1] == '-');
    let dstart = if signed {
        epos + 2
    } else {
        epos + 1
    };
    let ev = value_of(s.subrange(dstart, end), 10);
    &&& value_of(s.subrange(i + 2, dot), 16) < u64_limit()
    &&& (has_frac ==> value_of(s.subrange(dot + 1, epos), 16) < u64_limit())
    &&& (epos < end ==> if signed && s[epos + 1] == '-' {
        ev <= 0x8000_0000
    } else {
        ev <= 0x7fff_ffff
    })
}

/// One step of the lexer at index `i`.
pub ghost enum StepV {
    /// Nothing to emit; go on at `next`.
    Skip { next: int },
    /// A token spanning `i..end`.
    Emit { tok: TokenV, end: int },
    /// A malformed token spanning `i..end`.
    Fail { kind: LexErrorKind, end: int },
    /// A long comment that never closes.
    OpenComment,
}

/// The numeric literal at `i`.
pub open spec fn number_step(s: Seq<char>, i: int) -> StepV {
    let (kind, len) = num_scan(s, i);
    let end = i + len;
    match kind {
        NumKind::DecInt => {
            let v = value_of(s.subrange(i, end), 10);
            if v < u64_limit() {
                StepV::Emit { tok: TokenV::Int(wrap_i64(v)), end }
            } else {
                StepV::Fail { kind: LexErrorKind::InvalidNumber, end }
            }
        },
        NumKind::HexInt => {
            let v = value_of(s.subrange(i + 2, end), 16);
            if v < u64_limit() {
                StepV::Emit { tok: TokenV::Hex(wrap_i64(v)), end }
            } else {
                StepV::Fail { kind: LexErrorKind::InvalidNumber, end }
            }
        },
        NumKind::DecFloat => StepV::Emit { tok: TokenV::Float(s.subrange(i, end)), end },
        NumKind::HexFloat => if hex_float_ok(s, i, end) {
            StepV::Emit { tok: TokenV::Float(s.subrange(i, end)), end }
        } else {
            StepV::Fail { kind: LexErrorKind::InvalidNumber, end }
        },
    }
}

fn exp_len_exec(s: &Vec<char>, j: usize, lo: char, up: char) -> (r: usize)
    requires
        j <= s.len() < u32::MAX,
    ensures
        r == exp_len(s@, j as int, lo, up),
        j + r <= s.len(),
{
    if j < s.len() && (s[j] == lo || s[j] == up) {
        let k = if j + 1 < s.len() && (s[j + 1] == '+' || s[j + 1] == '-') {
            j + 2
        } else {
            j + 1
        };
        let d = run_exec(s, k, CharClass::Digit);
        if d > 0 {
            (k - j) + d
        } else {
            0
        }
    } else {
        0
    }
}

fn num_scan_exec(s: &Vec<char>, i: usize) -> (r: (NumKind, usize))
    requires
        i < s.len() < u32::MAX,
        is_digit(s@[i as int]) || (s@[i as int] == '.' && i + 1 < s.len() && is_digit(
            s@[i + 1],
        )),
    ensures
        (r.0, r.1 as nat) == num_scan(s@, i as int),
        i < i + r.1 <= s.len(),
{
    let n = s.len();
    if s[i] == '.' {
        let f = run_exec(s, i + 1, CharClass::Digit);
        let e = exp_len_exec(s, i + 1 + f, 'e', 'E');
        return (NumKind::DecFloat, 1 + f + e);
    }
    let hexlead = s[i] == '0' && i + 1 < n && (s[i + 1] == 'x' || s[i + 1] == 'X');
    let h = if i + 2 <= n {
        run_exec(s, i + 2, CharClass::Hex)
    } else {
        0
    };
    proof {
        if i + 2 > n {
            assert(run_len(s@, i + 2, CharClass::Hex) == 0);
        }
        if i + 2 + h >= n {
            assert(run_len(s@, i + 3 + h, CharClass::Hex) == 0);
        }
    }
    let dot = i + 2 + h;
    let f = if dot < n {
        run_exec(s, dot + 1, CharClass::Hex)
    } else {
        0
    };
    if hexlead && dot < n && s[dot] == '.' && f > 0 {
        let e = exp_len_exec(s, dot + 1 + f, 'p', 'P');
        return (NumKind::HexFloat, 3 + h + f + e);
    }
    if hexlead && h > 0 {
        let e = exp_len_exec(s, dot, 'p', 'P');
        if e > 0 {
            return (NumKind::HexFloat, 2 + h + e);
        }
        return (NumKind::HexInt, 2 + h);
    }
    let d = run_exec(s, i, CharClass::Digit);
    let fd = if i + d + 1 <= n {
        run_exec(s, i + d + 1, CharClass::Digit)
    } else {
        0
    };
    if i + d < n && s[i + d] == '.' && fd > 0 {
        let e = exp_len_exec(s, i + d + 1 + fd, 'e', 'E');
        return (NumKind::DecFloat, d + 1 + fd + e);
    }
    let e = exp_len_exec(s, i + d, 'e', 'E');
    if e > 0 {
        (NumKind::DecFloat, d + e)
    } else {
        (NumKind::DecInt, d)
    }
}

fn wrap_exec(v: u64) -> (r: i64)
    ensures
        r == wrap_i64(v as nat),
{
    if v < 0x8000_0000_0000_0000 {
        v as i64
    } else {
        let w = v - 0x8000_0000_0000_0000;
        (w as i64) - 0x4000_0000_0000_0000 - 0x4000_0000_0000_0000
    }
}

fn hex_float_ok_exec(s: &Vec<char>, i: usize, end: usize) -> (r: bool)
    requires
        i < end <= s.len() < u32::MAX,
        num_scan(s@, i as int) == (NumKind::HexFloat, (end - i) as nat),
    ensures
        r == hex_float_ok(s@, i as int, end as int),
{
    proof {
        let hh = run_len(s@, i + 2, CharClass::Hex);
        lemma_run_len_bound(s@, i + 2, CharClass::Hex);
        lemma_run_len_bound(s@, i + 3 + hh, CharClass::Hex);
    }
    let h = run_exec(s, i + 2, CharClass::Hex);
    let dot = i + 2 + h;
    let has_frac = dot < end && s[dot] == '.';
    let f = if has_frac {
        run_exec(s, dot + 1, CharClass::Hex)
    } else {
        0
    };
    let epos = if has_frac {
        dot + 1 + f
    } else {
        dot
    };
    let signed = epos + 1 < end && (s[epos + 1] == '+' || s[epos + 1] == '-');
    let dstart = if signed {
        epos + 2
    } else {
        epos + 1
    };
    let int_ok = digits_value(s, i + 2, dot, 16).is_some();
    let frac_ok = !has_frac || digits_value(s, dot + 1, epos, 16).is_some();
    let exp_ok = if epos < end {
        match digits_value(s, dstart, end, 10) {
            Some(ev) => if signed && s[epos + 1] == '-' {
                ev <= 0x8000_0000
            } else {
                ev <= 0x7fff_ffff
            },
            None => false,
        }
    } else {
        true
    };
    int_ok && frac_ok && exp_ok
}


// ── One step ─────────────────────────────────────────────────────────────────

/// The operator at `i`, longest first, with its length.
pub open spec fn op_at(s: Seq<char>, i: int) -> Option<(TokenKind, nat)> {
    let c = s[i];
    let nx = if i + 1 < s.len() {
        s[i + 1]
    } else {
        '\0'
    };
    let nx2 = if i + 2 < s.len() {
        s[i + 2]
    } else {
        '\0'
    };
    if c == '=' {
        if nx == '=' { Some((TokenKind::Eq, 2nat)) } else { Some((TokenKind::Assign, 1nat)) }
    } else if c == '~' {
        if nx == '=' { Some((TokenKind::TildeEq, 2nat)) } else { Some((TokenKind::Tilde, 1nat)) }
    } else if c == '<' {
        if nx == '=' {
            Some((TokenKind::LtEq, 2nat))
        } else if nx == '<' {
            Some((TokenKind::LtLt, 2nat))
        } else {
            Some((TokenKind::Lt, 1nat))
        }
    } else if c == '>' {
        if nx == '=' {
            Some((TokenKind::GtEq, 2nat))
        } else if nx == '>' {
            Some((TokenKind::GtGt, 2nat))
        } else {
            Some((TokenKind::Gt, 1nat))
        }
    } else if c == '/' {
        if nx == '/' { Some((TokenKind::DoubleSlash, 2nat)) } else { Some((TokenKind::Slash, 1nat)) }
    } else if c == ':' {
        if nx == ':' { Some((TokenKind::DblColon, 2nat)) } else { Some((TokenKind::Colon, 1nat)) }
    } else if c == '.' {
        if nx == '.' && nx2 == '.' {
            Some((TokenKind::DotDotDot, 3nat))
        } else if nx == '.' {
            Some((TokenKind::DotDot, 2nat))
        } else {
            Some((TokenKind::Dot, 1nat))
        }
    } else {
        match single_op(c) {
            Some(k) => Some((k, 1nat)),
            None => None,
        }
    }
}

/// The operators of one character that no longer operator starts with.
pub open spec fn single_op(c: char) -> Option<TokenKind> {
    if c == '+' {
        Some(TokenKind::Plus)
    } else if c == '-' {
        Some(TokenKind::Minus)
    } else if c == '*' {
        Some(TokenKind::Star)
    } else if c == '%' {
        Some(TokenKind::Percent)
    } else if c == '^' {
        Some(TokenKind::Caret)
    } else if c == '#' {
        Some(TokenKind::Hash)
    } else if c == '&' {
        Some(TokenKind::Ampersand)
    } else if c == '|' {
        Some(TokenKind::Pipe)
    } else if c == '(' {
        Some(TokenKind::LParen)
    } else if c == ')' {
        Some(TokenKind::RParen)
    } else if c == '{' {
        Some(TokenKind::LBrace)
    } else if c == '}' {
        Some(TokenKind::RBrace)
    } else if c == '[' {
        Some(TokenKind::LBracket)
    } else if c == ']' {
        Some(TokenKind::RBracket)
    } else if c == ';' {
        Some(TokenKind::Semicolon)
    } else if c == ',' {
        Some(TokenKind::Comma)
    } else {
        None
    }
}

/// The level of a long bracket `[=*[` opening at `i`, if one opens there.
pub open spec fn long_open(s: Seq<char>, i: int) -> Option<nat> {
    let level = run_len(s, i + 1, CharClass::Equals);
    if 0 <= i < s.len() && s[i] == '[' && i + 1 + level < s.len() && s[i + 1 + level] == '[' {
        Some(level)
    } else {
        None
    }
}

/// Whether a closing long bracket `]=*]` of `level` starts at `p`.
pub open spec fn close_at(s: Seq<char>, p: int, level: nat) -> bool {
    &&& 0 <= p
    &&& p + level + 2 <= s.len()
    &&& s[p] == ']'
    &&& run_len(s, p + 1, CharClass::Equals) >= level
    &&& s[p + level + 1] == ']'
}

/// The first closing long bracket of `level` at or after `j`.
pub open spec fn find_close(s: Seq<char>, j: int, level: nat) -> Option<int>
    decreases s.len() - j,
{
    if j < 0 || j + level + 2 > s.len() {
        None
    } else if close_at(s, j, level) {
        Some(j)
    } else {
        find_close(s, j + 1, level)
    }
}

/// The first line feed at or after `j`, or the end of the source.
pub open spec fn find_newline(s: Seq<char>, j: int) -> int
    decreases s.len() - j,
{
    if j < 0 || j >= s.len() {
        s.len() as int
    } else if s[j] == '\n' {
        j
    } else {
        find_newline(s, j + 1)
    }
}

/// A long string opening at `i` with `level`: its content starts after the
/// opening bracket and one line break right after it, and runs to the first
/// closing bracket of the same level.
pub open spec fn long_string_step(s: Seq<char>, i: int, level: nat) -> StepV {
    let open_end = i + 2 + level;
    let skip = if open_end + 1 < s.len() && s[open_end] == '\r' && s[open_end + 1] == '\n' {
        2int
    } else if open_end < s.len() && (s[open_end] == '\n' || s[open_end] == '\r') {
        1int
    } else {
        0int
    };
    let cs = open_end + skip;
    match find_close(s, cs, level) {
        Some(p) => StepV::Emit { tok: TokenV::Str(s.subrange(cs, p)), end: p + level + 2 },
        None => StepV::Fail { kind: LexErrorKind::UnterminatedLongString, end: open_end },
    }
}

/// A comment starting with `--` at `i`: a long comment runs to its closing
/// bracket, a short one to the end of the line.
pub open spec fn comment_step(s: Seq<char>, i: int) -> StepV {
    let k = i + 2;
    match long_open(s, k) {
        Some(level) => match find_close(s, k + 2 + level, level) {
            Some(p) => StepV::Skip { next: p + level + 2 },
            None => StepV::OpenComment,
        },
        None => StepV::Skip { next: find_newline(s, k) },
    }
}

/// The identifier or keyword at `i`.
pub open spec fn name_step(s: Seq<char>, i: int) -> StepV {
    let end = i + run_len(s, i, CharClass::Word);
    let name = s.subrange(i, end);
    match keyword(name) {
        Some(k) => StepV::Emit { tok: TokenV::Sym(k), end },
        None => StepV::Emit { tok: TokenV::Name(name), end },
    }
}

/// What the lexer does at index `i` (`0 <= i < s.len()`).
pub open spec fn step(s: Seq<char>, i: int) -> StepV {
    let c = s[i];
    if is_space(c) {
        StepV::Skip { next: i + 1 }
    } else if c == '-' && i + 1 < s.len() && s[i + 1] == '-' {
        comment_step(s, i)
    } else if long_open(s, i) is Some {
        long_string_step(s, i, long_open(s, i)->0)
    } else if c == '"' || c == '\'' {
        match quoted(s, i + 1, c, seq![]) {
            QuotedV::Done { content, end } => StepV::Emit { tok: TokenV::Str(content), end },
            QuotedV::Bad { kind } => StepV::Fail { kind, end: i + 1 },
        }
    } else if is_digit(c) || (c == '.' && i + 1 < s.len() && is_digit(s[i + 1])) {
        number_step(s, i)
    } else if is_name_start(c) {
        name_step(s, i)
    } else {
        match op_at(s, i) {
            Some((k, n)) => StepV::Emit { tok: TokenV::Sym(k), end: i + n },
            None => StepV::Fail { kind: LexErrorKind::UnexpectedChar, end: i + 1 },
        }
    }
}

enum Step {
    Skip(usize),
    Emit(Token, usize),
    Fail(LexErrorKind, usize),
    OpenComment,
}

spec fn step_view(r: Step) -> StepV {
    match r {
        Step::Skip(n) => StepV::Skip { next: n as int },
        Step::Emit(t, e) => StepV::Emit { tok: view_token(t), end: e as int },
        Step::Fail(k, e) => StepV::Fail { kind: k, end: e as int },
        Step::OpenComment => StepV::OpenComment,
    }
}

spec fn step_advances(r: Step, i: int, n: int) -> bool {
    match r {
        Step::Skip(next) => i < next <= n,
        Step::Emit(_, e) => i < e <= n,
        Step::Fail(_, e) => i < e <= n,
        Step::OpenComment => true,
    }
}

fn single_op_exec(c: char) -> (r: Option<TokenKind>)
    ensures
        r == single_op(c),
{
    if c == '+' {
        Some(TokenKind::Plus)
    } else if c == '-' {
        Some(TokenKind::Minus)
    } else if c == '*' {
        Some(TokenKind::Star)
    } else if c == '%' {
        Some(TokenKind::Percent)
    } else if c == '^' {
        Some(TokenKind::Caret)
    } else if c == '#' {
        Some(TokenKind::Hash)
    } else if c == '&' {
        Some(TokenKind::Ampersand)
    } else if c == '|' {
        Some(TokenKind::Pipe)
    } else if c == '(' {
        Some(TokenKind::LParen)
    } else if c == ')' {
        Some(TokenKind::RParen)
    } else if c == '{' {
        Some(TokenKind::LBrace)
    } else if c == '}' {
        Some(TokenKind::RBrace)
    } else if c == '[' {
        Some(TokenKind::LBracket)
    } else if c == ']' {
        Some(TokenKind::RBracket)
    } else if c == ';' {
        Some(TokenKind::Semicolon)
    } else if c == ',' {
        Some(TokenKind::Comma)
    } else {
        None
    }
}

fn op_at_exec(s: &Vec<char>, i: usize) -> (r: Option<(TokenKind, usize)>)
    requires
        i < s.len() < u32::MAX,
    ensures
        match r {
            Some((k, n)) => op_at(s@, i as int) == Some((k, n as nat)) && i + n <= s.len(),
            None => op_at(s@, i as int) is None,
        },
{
    let c = s[i];
    let nx = if i + 1 < s.len() {
        s[i + 1]
    } else {
        '\0'
    };
    let nx2 = if i + 2 < s.len() {
        s[i + 2]
    } else {
        '\0'
    };
    if c == '=' {
        if nx == '=' { Some((TokenKind::Eq, 2)) } else { Some((TokenKind::Assign, 1)) }
    } else if c == '~' {
        if nx == '=' { Some((TokenKind::TildeEq, 2)) } else { Some((TokenKind::Tilde, 1)) }
    } else if c == '<' {
        if nx == '=' {
            Some((TokenKind::LtEq, 2))
        } else if nx == '<' {
            Some((TokenKind::LtLt, 2))
        } else {
            Some((TokenKind::Lt, 1))
        }
    } else if c == '>' {
        if nx == '=' {
            Some((TokenKind::GtEq, 2))
        } else if nx == '>' {
            Some((TokenKind::GtGt, 2))
        } else {
            Some((TokenKind::Gt, 1))
        }
    } else if c == '/' {
        if nx == '/' { Some((TokenKind::DoubleSlash, 2)) } else { Some((TokenKind::Slash, 1)) }
    } else if c == ':' {
        if nx == ':' { Some((TokenKind::DblColon, 2)) } else { Some((TokenKind::Colon, 1)) }
    } else if c == '.' {
        if nx == '.' && nx2 == '.' {
            Some((TokenKind::DotDotDot, 3))
        } else if nx == '.' {
            Some((TokenKind::DotDot, 2))
        } else {
            Some((TokenKind::Dot, 1))
        }
    } else {
        match single_op_exec(c) {
            Some(k) => Some((k, 1)),
            None => None,
        }
    }
}

fn long_open_exec(s: &Vec<char>, i: usize) -> (r: Option<usize>)
    requires
        i <= s.len() < u32::MAX,
    ensures
        match r {
            Some(level) => long_open(s@, i as int) == Some(level as nat) && i + 2 + level
                <= s.len(),
            None => long_open(s@, i as int) is None,
        },
{
    if i < s.len() && s[i] == '[' {
        let level = run_exec(s, i + 1, CharClass::Equals);
        if i + 1 + level < s.len() && s[i + 1 + level] == '[' {
            return Some(level);
        }
    }
    proof {
        if i + 1 > s.len() {
            assert(run_len(s@, i + 1, CharClass::Equals) == 0);
        }
    }
    None
}

fn find_close_exec(s: &Vec<char>, j: usize, level: usize) -> (r: Option<usize>)
    requires
        j <= s.len() < u32::MAX,
        level + 2 <= s.len(),
    ensures
        match r {
            Some(p) => find_close(s@, j as int, level as nat) == Some(p as int) && j <= p && p
                + level + 2 <= s.len(),
            None => find_close(s@, j as int, level as nat) is None,
        },
{
    let n = s.len();
    let mut p = j;
    while level + 2 <= n - p
        invariant
            n == s.len() < u32::MAX,
            level + 2 <= n,
            j <= p <= n,
            find_close(s@, j as int, level as nat) == find_close(s@, p as int, level as nat),
        decreases n - p,
    {
        if s[p] == ']' && run_exec(s, p + 1, CharClass::Equals) >= level && s[p + level + 1]
            == ']' {
            return Some(p);
        }
        p += 1;
    }
    None
}

fn find_newline_exec(s: &Vec<char>, j: usize) -> (r: usize)
    requires
        j <= s.len(),
    ensures
        r == find_newline(s@, j as int),
        j <= r <= s.len(),
{
    let mut p = j;
    while p < s.len() && s[p] != '\n'
        invariant
            j <= p <= s.len(),
            find_newline(s@, j as int) == find_newline(s@, p as int),
        decreases s.len() - p,
    {
        p += 1;
    }
    p
}

fn long_string_exec(s: &Vec<char>, i: usize, level: usize) -> (r: Step)
    requires
        i + 2 + level <= s.len() < u32::MAX,
    ensures
        step_view(r) == long_string_step(s@, i as int, level as nat),
        step_advances(r, i as int, s.len() as int),
{
    let n = s.len();
    let open_end = i + 2 + level;
    let skip: usize = if open_end + 1 < n && s[open_end] == '\r' && s[open_end + 1] == '\n' {
        2
    } else if open_end < n && (s[open_end] == '\n' || s[open_end] == '\r') {
        1
    } else {
        0
    };
    let cs = open_end + skip;
    match find_close_exec(s, cs, level) {
        Some(p) => {
            let content = string_of(s, cs, p);
            let t = Token::StringLit(content);
            Step::Emit(t, p + level + 2)
        },
        None => Step::Fail(LexErrorKind::UnterminatedLongString, open_end),
    }
}

fn comment_exec(s: &Vec<char>, i: usize) -> (r: Step)
    requires
        i + 2 <= s.len() < u32::MAX,
    ensures
        step_view(r) == comment_step(s@, i as int),
        step_advances(r, i as int, s.len() as int),
{
    let k = i + 2;
    match long_open_exec(s, k) {
        Some(level) => match find_close_exec(s, k + 2 + level, level) {
            Some(p) => Step::Skip(p + level + 2),
            None => Step::OpenComment,
        },
        None => Step::Skip(find_newline_exec(s, k)),
    }
}

fn name_exec(s: &Vec<char>, i: usize) -> (r: Step)
    requires
        i < s.len() < u32::MAX,
        is_name_start(s@[i as int]),
    ensures
        step_view(r) == name_step(s@, i as int),
        step_advances(r, i as int, s.len() as int),
{
    let end = i + run_exec(s, i, CharClass::Word);
    match keyword_exec(s, i, end) {
        Some(k) => {
            let t = Token::plain(k);
            Step::Emit(t, end)
        },
        None => Step::Emit(Token::Ident(string_of(s, i, end)), end),
    }
}

fn number_exec(s: &Vec<char>, i: usize) -> (r: Step)
    requires
        i < s.len() < u32::MAX,
        is_digit(s@[i as int]) || (s@[i as int] == '.' && i + 1 < s.len() && is_digit(
            s@[i + 1],
        )),
    ensures
        step_view(r) == number_step(s@, i as int),
        step_advances(r, i as int, s.len() as int),
{
    let (kind, len) = num_scan_exec(s, i);
    let end = i + len;
    match kind {
        NumKind::DecInt => match digits_value(s, i, end, 10) {
            Some(v) => Step::Emit(Token::Integer(wrap_exec(v)), end),
            None => Step::Fail(LexErrorKind::InvalidNumber, end),
        },
        NumKind::HexInt => match digits_value(s, i + 2, end, 16) {
            Some(v) => Step::Emit(Token::HexInteger(wrap_exec(v)), end),
            None => Step::Fail(LexErrorKind::InvalidNumber, end),
        },
        NumKind::DecFloat => Step::Emit(Token::Float(string_of(s, i, end)), end),
        NumKind::HexFloat => if hex_float_ok_exec(s, i, end) {
            Step::Emit(Token::Float(string_of(s, i, end)), end)
        } else {
            Step::Fail(LexErrorKind::InvalidNumber, end)
        },
    }
}

fn is_space_exec(c: char) -> (r: bool)
    ensures
        r == is_space(c),
{
    c == ' ' || c == '\t' || c == '\r' || c == '\n' || c == '\x0C' || c == '\x0B'
}

#[verifier::rlimit(40)]
fn step_exec(s: &Vec<char>, i: usize) -> (r: Step)
    requires
        i < s.len() < u32::MAX,
    ensures
        step_view(r) == step(s@, i as int),
        step_advances(r, i as int, s.len() as int),
{
    let c = s[i];
    if is_space_exec(c) {
        return Step::Skip(i + 1);
    }
    if c == '-' && i + 1 < s.len() && s[i + 1] == '-' {
        return comment_exec(s, i);
    }
    match long_open_exec(s, i) {
        Some(level) => {
            return long_string_exec(s, i, level);
        },
        None => {},
    }
    if c == '"' || c == '\'' {
        return match scan_quoted(s, i + 1, c) {
            Quoted::Done(content, end) => Step::Emit(Token::StringLit(content), end),
            Quoted::Bad(kind) => Step::Fail(kind, i + 1),
        };
    }
    if ('0' <= c && c <= '9') || (c == '.' && i + 1 < s.len() && '0' <= s[i + 1] && s[i + 1]
        <= '9') {
        return number_exec(s, i);
    }
    if ('a' <= c && c <= 'z') || ('A' <= c && c <= 'Z') || c == '_' {
        return name_exec(s, i);
    }
    match op_at_exec(s, i) {
        Some((k, n)) => {
            let t = Token::plain(k);
            Step::Emit(t, i + n)
        },
        None => Step::Fail(LexErrorKind::UnexpectedChar, i + 1),
    }
}


// ── The whole source ─────────────────────────────────────────────────────────

/// Lexing from index `i` with the tokens `acc` found so far: every token
/// with the character range it spans, or the first error with its kind and
/// character range.
pub open spec fn lex_from(s: Seq<char>, i: int, acc: Seq<(TokenV, int, int)>) -> Result<
    Seq<(TokenV, int, int)>,
    (LexErrorKind, int, int),
>
    decreases s.len() - i,
{
    if i < 0 || i >= s.len() {
        Ok(acc)
    } else {
        match step(s, i) {
            StepV::Skip { next } => if i < next <= s.len() {
                lex_from(s, next, acc)
            } else {
                Ok(acc)
            },
            StepV::Emit { tok, end } => if i < end <= s.len() {
                lex_from(s, end, acc.push((tok, i, end)))
            } else {
                Ok(acc)
            },
            StepV::Fail { kind, end } => Err((kind, i, end)),
            StepV::OpenComment => Err((LexErrorKind::UnterminatedLongString, i, s.len() as int)),
        }
    }
}

/// Errors produced by the Lua 5.5 lexer.
#[derive(Debug, Clone, Copy, PartialEq, Eq, Structural)]
pub enum LexError {
    UnexpectedChar { ch: char, span: Span },
    UnterminatedString { span: Span },
    InvalidEscape { span: Span },
    InvalidNumber { span: Span },
    UnterminatedLongString { span: Span },
}

/// The error of `kind` for the characters `a..b`.
pub open spec fn lex_error(s: Seq<char>, kind: LexErrorKind, a: int, b: int) -> LexError {
    let span = span_of(s, a, b);
    match kind {
        LexErrorKind::UnexpectedChar => LexError::UnexpectedChar { ch: s[a], span },
        LexErrorKind::UnterminatedString => LexError::UnterminatedString { span },
        LexErrorKind::InvalidEscape => LexError::InvalidEscape { span },
        LexErrorKind::InvalidNumber => LexError::InvalidNumber { span },
        LexErrorKind::UnterminatedLongString => LexError::UnterminatedLongString { span },
    }
}

/// The tokens of a source with their spans, ending with `Eof`, or the first error.
pub open spec fn tokens_of(s: Seq<char>) -> Result<Seq<(TokenV, Span)>, LexError> {
    match lex_from(s, 0, seq![]) {
        Ok(toks) => Ok(
            toks.map_values(|t: (TokenV, int, int)| (t.0, span_of(s, t.1, t.2))).push(
                (TokenV::Sym(TokenKind::Eof), eof_span(s)),
            ),
        ),
        Err(e) => Err(lex_error(s, e.0, e.1, e.2)),
    }
}

pub open spec fn lex_message(e: LexError) -> Seq<char> {
    match e {
        LexError::UnexpectedChar { ch, .. } => "unexpected character '"@ + seq![ch] + "'"@,
        LexError::UnterminatedString { .. } => "unterminated string literal"@,
        LexError::InvalidEscape { .. } => "invalid escape sequence in string literal"@,
        LexError::InvalidNumber { .. } => "invalid numeric literal"@,
        LexError::UnterminatedLongString { .. } => "unterminated long string or comment"@,
    }
}

pub open spec fn lex_error_span(e: LexError) -> Span {
    match e {
        LexError::UnexpectedChar { span, .. } => span,
        LexError::UnterminatedString { span } => span,
        LexError::InvalidEscape { span } => span,
        LexError::InvalidNumber { span } => span,
        LexError::UnterminatedLongString { span } => span,
    }
}

impl LexError {
    /// Where the error is.
    pub fn span(&self) -> (r: Span)
        ensures
            r == lex_error_span(*self),
    {
        match self {
            LexError::UnexpectedChar { span, .. } => *span,
            LexError::UnterminatedString { span } => *span,
            LexError::InvalidEscape { span } => *span,
            LexError::InvalidNumber { span } => *span,
            LexError::UnterminatedLongString { span } => *span,
        }
    }

    /// The human-readable description of the error.
    pub fn message(&self) -> (r: String)
        ensures
            r@ == lex_message(*self),
    {
        match self {
            LexError::UnexpectedChar { ch, .. } => {
                let mut m = "unexpected character '".to_owned();
                push_char(&mut m, *ch);
                push_char(&mut m, '\'');
                proof {
                    reveal_strlit("'");
                }
                m
            },
            LexError::UnterminatedString { .. } => "unterminated string literal".to_owned(),
            LexError::InvalidEscape { .. } => "invalid escape sequence in string literal".to_owned(),
            LexError::InvalidNumber { .. } => "invalid numeric literal".to_owned(),
            LexError::UnterminatedLongString { .. } => "unterminated long string or comment".to_owned(),
        }
    }

    /// An error diagnostic with the message and span of this error.
    pub fn into_diagnostic(self) -> (r: Diagnostic)
        ensures
            r@ == spec_diagnostic(Severity::Error, lex_message(self), lex_error_span(self)),
    {
        let span = self.span();
        let m = self.message();
        Diagnostic::error(m.as_str(), span)
    }
}

/// A token paired with its source span.
#[derive(Debug, Clone, PartialEq)]
pub struct SpannedToken {
    pub token: Token,
    pub span: Span,
}

impl SpannedToken {
    pub fn new(token: Token, span: Span) -> (r: Self)
        ensures
            r.token == token,
            r.span == span,
    {
        SpannedToken { token, span }
    }
}

pub open spec fn view_spanned(v: Seq<SpannedToken>) -> Seq<(TokenV, Span)> {
    v.map_values(|t: SpannedToken| (view_token(t.token), t.span))
}

fn make_lex_error(chars: &Vec<char>, pos: &Positions, kind: LexErrorKind, i: usize, e: usize) -> (r: LexError)
    requires
        pos.wf(chars@),
        i < e <= chars.len(),
    ensures
        r == lex_error(chars@, kind, i as int, e as int),
{
    let span = pos.span(Ghost(chars@), i, e);
    match kind {
        LexErrorKind::UnexpectedChar => LexError::UnexpectedChar { ch: chars[i], span },
        LexErrorKind::UnterminatedString => LexError::UnterminatedString { span },
        LexErrorKind::InvalidEscape => LexError::InvalidEscape { span },
        LexErrorKind::InvalidNumber => LexError::InvalidNumber { span },
        LexErrorKind::UnterminatedLongString => LexError::UnterminatedLongString { span },
    }
}

proof fn lemma_byte_len_bound(s: Seq<char>)
    ensures
        byte_len(s) <= 4 * s.len(),
    decreases s.len(),
{
    if s.len() > 0 {
        let t = s.drop_last();
        lemma_byte_len_bound(t);
        assert(s =~= t + seq![s.last()]);
        lemma_encode_concat(t, seq![s.last()]);
        lemma_char_width(s.last());
    }
}

/// Whether a source is small enough for spans: fewer than about a billion
/// characters, so that every byte offset, line and column fits in 32 bits.
pub fn source_fits(source: &str) -> (r: bool)
    ensures
        r == (source@.len() < 0x3fff_ffff),
        r ==> byte_len(source@) < u32::MAX,
{
    let n = source.unicode_len();
    proof {
        lemma_byte_len_bound(source@);
    }
    n < 0x3fff_ffff
}

/// Lexer over a source text.
pub struct Lexer<'src> {
    source: &'src str,
}

impl<'src> Lexer<'src> {
    pub closed spec fn text(&self) -> Seq<char> {
        self.source@
    }

    pub fn new(source: &'src str) -> (r: Self)
        ensures
            r.text() == source@,
    {
        Lexer { source }
    }

    /// The tokens one by one, each as `Ok`, as a stream consumer would take
    /// them; nothing when the source does not lex.
    pub fn into_items(self) -> (r: Vec<Result<SpannedToken, LexError>>)
        requires
            byte_len(self.text()) < u32::MAX,
        ensures
            tokens_of(self.text()) is Err ==> r@.len() == 0,
            tokens_of(self.text()) matches Ok(ts) ==> r@.len() == ts.len() && forall|i: int|
                0 <= i < ts.len() ==> (#[trigger] r@[i] matches Ok(t) && (view_token(t.token), t.span)
                    == ts[i]),
    {
        let mut out: Vec<Result<SpannedToken, LexError>> = Vec::new();
        match self.tokenize() {
            Ok(v) => {
                let ghost orig = v@;
                let n = v.len();
                let mut v = v;
                let mut rev: Vec<SpannedToken> = Vec::new();
                while v.len() > 0
                    invariant
                        v.len() + rev.len() == n,
                        n == orig.len(),
                        forall|i: int| 0 <= i < v.len() ==> #[trigger] v@[i] == orig[i],
                        forall|j: int| 0 <= j < rev.len() ==> #[trigger] rev@[j] == orig[n - 1 - j],
                    decreases v.len(),
                {
                    let t = v.pop().unwrap();
                    rev.push(t);
                }
                while rev.len() > 0
                    invariant
                        out.len() + rev.len() == n,
                        n == orig.len(),
                        forall|j: int| 0 <= j < rev.len() ==> #[trigger] rev@[j] == orig[n - 1 - j],
                        forall|i: int| 0 <= i < out.len() ==> #[trigger] out@[i] == Ok::<SpannedToken, LexError>(orig[i]),
                    decreases rev.len(),
                {
                    let t = rev.pop().unwrap();
                    out.push(Ok(t));
                }
                proof {
                    assert forall|i: int| 0 <= i < orig.len() implies (#[trigger] out@[i] matches Ok(t) && (view_token(t.token), t.span)
                        == view_spanned(orig)[i]) by {
                        assert(out@[i] == Ok::<SpannedToken, LexError>(orig[i]));
                    }
                }
                out
            },
            Err(_) => out,
        }
    }

    /// Tokenizes the whole source: all tokens, ending with `Eof`, or the first error.
    #[verifier::rlimit(80)]
    pub fn tokenize(&self) -> (r: Result<Vec<SpannedToken>, LexError>)
        requires
            byte_len(self.text()) < u32::MAX,
        ensures
            match r {
                Ok(v) => tokens_of(self.text()) == Ok::<Seq<(TokenV, Span)>, LexError>(view_spanned(v@)),
                Err(e) => tokens_of(self.text()) == Err::<Seq<(TokenV, Span)>, LexError>(e),
            },
    {
        let chars = source_chars(self.source);
        let ghost s = chars@;
        proof {
            lemma_byte_at_ge(s, s.len() as int);
            lemma_byte_at_bound(s, s.len() as int);
            assert(s.take(s.len() as int) =~= s);
        }
        let pos = Positions::new(&chars);
        let n = chars.len();
        let mut tokens: Vec<SpannedToken> = Vec::new();
        let ghost mut acc: Seq<(TokenV, int, int)> = seq![];
        let mut i: usize = 0;
        while i < n
            invariant
                s == chars@,
                s == self.text(),
                n == s.len() < u32::MAX,
                pos.wf(s),
                i <= n,
                lex_from(s, 0, seq![]) == lex_from(s, i as int, acc),
                view_spanned(tokens@) == acc.map_values(
                    |t: (TokenV, int, int)| (t.0, span_of(s, t.1, t.2)),
                ),
            decreases n - i,
        {
            match step_exec(&chars, i) {
                Step::Skip(next) => {
                    i = next;
                },
                Step::Emit(t, e) => {
                    let span = pos.span(Ghost(s), i, e);
                    let ghost before = tokens@;
                    let ghost tv = view_token(t);
                    tokens.push(SpannedToken::new(t, span));
                    proof {
                        let f = |t: (TokenV, int, int)| (t.0, span_of(s, t.1, t.2));
                        assert(acc.push((tv, i as int, e as int)).map_values(f) =~= acc.map_values(
                            f,
                        ).push((tv, span)));
                        assert(view_spanned(tokens@) =~= view_spanned(before).push((tv, span)));
                        acc = acc.push((tv, i as int, e as int));
                    }
                    i = e;
                },
                Step::Fail(kind, e) => {
                    proof {
                        assert(lex_from(s, i as int, acc) == Err::<Seq<(TokenV, int, int)>, (LexErrorKind, int, int)>((kind, i as int, e as int)));
                    }
                    return Err(make_lex_error(&chars, &pos, kind, i, e));
                },
                Step::OpenComment => {
                    let span = pos.span(Ghost(s), i, n);
                    proof {
                        assert(s == self.text());
                    }
                    return Err(LexError::UnterminatedLongString { span });
                },
            }
        }
        let eof = pos.eof(Ghost(s), n);
        let ghost before = tokens@;
        tokens.push(SpannedToken::new(Token::Eof, eof));
        proof {
            assert(view_spanned(tokens@) =~= view_spanned(before).push(
                (TokenV::Sym(TokenKind::Eof), eof),
            ));
        }
        Ok(tokens)
    }
}

} // verus!
