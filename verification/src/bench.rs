//! The integer and text side of the benchmark harness: the two Lua programs
//! it runs, the order statistics it reports, and the formatting of counts
//! and JSON strings. Timing, processes and floating-point ratios stay with
//! the program that drives the harness.

use vstd::prelude::*;
use vstd::string::StringExecFns;

use crate::fmt::{radix_digits, u64_text};
use crate::text::{chars_of, concat3, push_char, string_of};

verus! {

/// The loop of the hand-written Lua 5.1 program, after its first line.
pub const LUA51_LOOP: &'static str = "\nlocal acc = 0\nfor i = 1, N do\n    acc = bit.band(bit.bxor(acc, bit.band(i, 255)), 2147483647)\n    acc = bit.band(bit.bor(acc, math.floor(i / 3)), 2147483647)\nend\nprint(acc)\n";

/// The loop of the Lua 5.5 program, after its first line.
pub const LUA55_LOOP: &'static str = "\nlocal acc = 0\nfor i = 1, N do\n    acc = (acc ~ (i & 0xFF)) & 0x7FFFFFFF\n    acc = (acc | (i // 3)) & 0x7FFFFFFF\nend\nprint(acc)\n";

/// The hand-written Lua 5.1 program for LuaJIT, looping `n` times with
/// `bit.*` calls and `math.floor` division.
pub fn lua51_source(n: u64) -> (r: String)
    ensures
        r@ == "local N = "@ + radix_digits(n as nat, 10) + LUA51_LOOP@,
{
    let digits = u64_text(n);
    concat3("local N = ", digits.as_str(), LUA51_LOOP)
}

/// The Lua 5.5 program with native bitwise operators and floor division,
/// looping `n` times.
pub fn lua55_source(n: u64) -> (r: String)
    ensures
        r@ == "local N = "@ + radix_digits(n as nat, 10) + LUA55_LOOP@,
{
    let digits = u64_text(n);
    concat3("local N = ", digits.as_str(), LUA55_LOOP)
}

/// Ascending order on samples.
pub open spec fn ascending() -> spec_fn(u64, u64) -> bool {
    |a: u64, b: u64| a <= b
}

/// The samples in ascending order.
pub open spec fn sorted_samples(s: Seq<u64>) -> Seq<u64> {
    s.sort_by(ascending())
}

/// `<[u64]>::sort_unstable` from std: puts the elements in ascending order.
/// On integers the ascending arrangement of a sequence is unique, so it is
/// the one `sorted_samples` names.
#[verifier::external_body]
fn sort_ascending(v: &mut Vec<u64>)
    ensures
        final(v)@ == sorted_samples(old(v)@),
{
    v.sort_unstable();
}

proof fn lemma_sorted_len(s: Seq<u64>)
    ensures
        sorted_samples(s).len() == s.len(),
{
    broadcast use vstd::seq_lib::group_to_multiset_ensures;

    assert(vstd::relations::total_ordering(ascending()));
    s.lemma_sort_by_ensures(ascending());
    assert(s.to_multiset().len() == sorted_samples(s).to_multiset().len());
}

fn copy_samples(v: &Vec<u64>) -> (r: Vec<u64>)
    ensures
        r@ == v@,
{
    let mut out: Vec<u64> = Vec::new();
    let mut i: usize = 0;
    while i < v.len()
        invariant
            i <= v.len(),
            out@ == v@.subrange(0, i as int),
        decreases v.len() - i,
    {
        out.push(v[i]);
        proof {
            assert(out@ =~= v@.subrange(0, i + 1));
        }
        i += 1;
    }
    proof {
        assert(out@ =~= v@);
    }
    out
}

/// The index of the 95th percentile among `len` sorted samples.
pub open spec fn p95_index(len: nat) -> int {
    let k = (len * 95) / 100;
    if k < len - 1 { k as int } else { len - 1 }
}

/// The measurements of one benchmark target.
pub struct TargetResult {
    pub id: char,
    pub label: String,
    pub interpreter: String,
    pub samples_us: Vec<u64>,
    pub stdout_sample: String,
    pub jit_traces: Option<usize>,
    pub nyi_count: Option<usize>,
}

impl TargetResult {
    /// The median sample: the middle one in ascending order (the upper of
    /// the two middle ones for an even count).
    pub fn median_us(&self) -> (r: u64)
        requires
            self.samples_us.len() > 0,
        ensures
            r == sorted_samples(self.samples_us@)[(self.samples_us.len() / 2) as int],
    {
        let mut s = copy_samples(&self.samples_us);
        sort_ascending(&mut s);
        proof {
            lemma_sorted_len(self.samples_us@);
        }
        s[s.len() / 2]
    }

    /// The 95th-percentile sample: the one at `len * 95 / 100` in ascending
    /// order, or the largest when that index is past the end.
    pub fn p95_us(&self) -> (r: u64)
        requires
            self.samples_us.len() > 0,
            self.samples_us.len() * 95 <= usize::MAX,
        ensures
            r == sorted_samples(self.samples_us@)[p95_index(self.samples_us.len() as nat)],
    {
        let mut s = copy_samples(&self.samples_us);
        sort_ascending(&mut s);
        proof {
            lemma_sorted_len(self.samples_us@);
        }
        let n = s.len();
        let k = (n * 95) / 100;
        let idx = if k < n - 1 { k } else { n - 1 };
        s[idx]
    }
}

/// Whether target B hits no more NYI aborts than target A, both counts
/// being known.
pub fn jit_parity(a_nyi: Option<usize>, b_nyi: Option<usize>) -> (r: bool)
    ensures
        r == (match (a_nyi, b_nyi) {
            (Some(a), Some(b)) => b <= a,
            _ => false,
        }),
{
    match (a_nyi, b_nyi) {
        (Some(a), Some(b)) => b <= a,
        _ => false,
    }
}

/// Whether the three targets printed the same output.
pub fn outputs_agree(a: &String, b: &String, c: &String) -> (r: bool)
    ensures
        r == (a@ == b@ && b@ == c@),
{
    crate::text::text_eq(a, b.as_str()) && crate::text::text_eq(b, c.as_str())
}

/// Digits with a comma before every group of three, counted from the right.
pub open spec fn grouped(d: Seq<char>) -> Seq<char>
    decreases d.len(),
{
    if d.len() <= 3 {
        d
    } else {
        grouped(d.subrange(0, d.len() - 3)) + seq![','] + d.subrange(d.len() - 3, d.len() as int)
    }
}

fn push_grouped(d: &Vec<char>, end: usize, out: &mut String)
    requires
        end <= d.len(),
    ensures
        final(out)@ == old(out)@ + grouped(d@.subrange(0, end as int)),
    decreases end,
{
    let ghost part = d@.subrange(0, end as int);
    if end <= 3 {
        let piece = string_of(d, 0, end);
        out.append(piece.as_str());
    } else {
        push_grouped(d, end - 3, out);
        push_char(out, ',');
        let piece = string_of(d, end - 3, end);
        out.append(piece.as_str());
        proof {
            assert(part.subrange(0, part.len() - 3) =~= d@.subrange(0, end - 3));
            assert(part.subrange(part.len() - 3, part.len() as int) =~= d@.subrange(
                end - 3,
                end as int,
            ));
        }
    }
    proof {
        assert(final(out)@ =~= old(out)@ + grouped(part));
    }
}

/// The decimal text of `n` with thousands separated by commas.
pub fn fmt_int(n: u64) -> (r: String)
    ensures
        r@ == grouped(radix_digits(n as nat, 10)),
{
    let text = u64_text(n);
    let d = chars_of(text.as_str());
    let mut out = String::new();
    push_grouped(&d, d.len(), &mut out);
    proof {
        assert(d@.subrange(0, d@.len() as int) =~= d@);
        assert(out@ =~= grouped(radix_digits(n as nat, 10)));
    }
    out
}

/// A count, or `N/A` where there is none.
pub fn opt_str(v: Option<usize>) -> (r: String)
    ensures
        r@ == (match v {
            None => "N/A"@,
            Some(n) => radix_digits(n as nat, 10),
        }),
{
    match v {
        None => "N/A".to_owned(),
        Some(n) => u64_text(n as u64),
    }
}

/// How one character is written inside a JSON string.
pub open spec fn json_escape_char(c: char) -> Seq<char> {
    if c == '\\' {
        seq!['\\', '\\']
    } else if c == '"' {
        seq!['\\', '"']
    } else if c == '\n' {
        seq!['\\', 'n']
    } else if c == '\r' {
        seq!['\\', 'r']
    } else if c == '\t' {
        seq!['\\', 't']
    } else {
        seq![c]
    }
}

/// A text with backslash, double quote, newline, carriage return and tab
/// escaped for a JSON string.
pub open spec fn json_escaped(s: Seq<char>) -> Seq<char>
    decreases s.len(),
{
    if s.len() == 0 {
        seq![]
    } else {
        json_escaped(s.drop_last()) + json_escape_char(s.last())
    }
}

/// Escapes `s` for use inside a JSON string literal.
pub fn json_escape(s: &str) -> (r: String)
    ensures
        r@ == json_escaped(s@),
{
    let cs = chars_of(s);
    let mut out = String::new();
    let mut i: usize = 0;
    while i < cs.len()
        invariant
            i <= cs.len(),
            cs@ == s@,
            out@ == json_escaped(cs@.subrange(0, i as int)),
        decreases cs.len() - i,
    {
        let c = cs[i];
        let ghost before = out@;
        if c == '\\' {
            push_char(&mut out, '\\');
            push_char(&mut out, '\\');
        } else if c == '"' {
            push_char(&mut out, '\\');
            push_char(&mut out, '"');
        } else if c == '\n' {
            push_char(&mut out, '\\');
            push_char(&mut out, 'n');
        } else if c == '\r' {
            push_char(&mut out, '\\');
            push_char(&mut out, 'r');
        } else if c == '\t' {
            push_char(&mut out, '\\');
            push_char(&mut out, 't');
        } else {
            push_char(&mut out, c);
        }
        proof {
            let next = cs@.subrange(0, i + 1);
            assert(next.drop_last() =~= cs@.subrange(0, i as int));
            assert(next.last() == c);
            assert(out@ =~= before + json_escape_char(c));
        }
        i += 1;
    }
    proof {
        assert(cs@.subrange(0, cs.len() as int) =~= s@);
    }
    out
}

} // verus!
