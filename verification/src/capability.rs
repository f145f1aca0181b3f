//! Which way of resolving a platform offers.

use crate::text::{chars_of, parse_u32, parse_u32_range};
use vstd::prelude::*;

verus! {

/// The ways of resolving. A platform has one of them.
#[derive(Debug, Clone, Copy, PartialEq, Eq, Hash, Structural)]
pub enum Strategy {
    /// Linux before 6.1: ask the block device itself, else read the
    /// attribute files of the device behind the path.
    Legacy,
    /// Linux from 6.1 on: an extended status query reports the alignment,
    /// the attribute files only refine the physical block size.
    DioAlign,
    /// Apple systems: the filesystem statistics hold both sizes.
    Apple,
    /// Windows: the volume reports the sector size, its device the physical
    /// one.
    Windows,
}

/// How many characters of `s` stand before the first `mark`; all of them
/// where it holds none.
pub open spec fn span_before(s: Seq<char>, mark: char) -> nat
    decreases s.len(),
{
    if s.len() == 0 || s[0] == mark {
        0
    } else {
        1 + span_before(s.drop_first(), mark)
    }
}

/// `s` up to its first `mark`.
pub open spec fn head(s: Seq<char>, mark: char) -> Seq<char> {
    s.take(span_before(s, mark) as int)
}

/// The number that `s` writes, 0 where it writes none.
pub open spec fn number_or_zero(s: Seq<char>) -> u32 {
    match parse_u32(s) {
        Some(n) => n,
        None => 0,
    }
}

/// Whether a kernel that calls its release `release` reports direct I/O
/// alignment in its extended status query.
///
/// The version is what stands before the first `-`. It needs two segments
/// parted by `.`; a segment that is no number counts as 0. The kernel must be
/// 6.1 or later.
pub open spec fn has_dio_align(release: Seq<char>) -> bool {
    let version = head(release, '-');
    let major = head(version, '.');
    if major.len() == version.len() {
        false
    } else {
        let minor = head(version.skip(major.len() as int + 1), '.');
        number_or_zero(major) > 6 || (number_or_zero(major) == 6 && number_or_zero(minor) >= 1)
    }
}

/// The strategy for a Linux kernel that calls its release `release`.
pub open spec fn linux_strategy(release: Seq<char>) -> Strategy {
    if has_dio_align(release) {
        Strategy::DioAlign
    } else {
        Strategy::Legacy
    }
}

/// The first mark decides the span.
proof fn lemma_span_before_is(s: Seq<char>, mark: char, k: int)
    requires
        0 <= k <= s.len(),
        forall|i: int| 0 <= i < k ==> s[i] != mark,
        k < s.len() ==> s[k] == mark,
    ensures
        span_before(s, mark) == k,
    decreases s.len(),
{
    if k > 0 {
        let rest = s.drop_first();
        assert(s[0] != mark);
        assert forall|i: int| 0 <= i < k - 1 implies rest[i] != mark by {
            assert(rest[i] == s[i + 1]);
        }
        lemma_span_before_is(rest, mark, k - 1);
    }
}

/// Finds the first `mark` in `s[from..to]`, or `to`.
fn find(s: &Vec<char>, from: usize, to: usize, mark: char) -> (at: usize)
    requires
        from <= to <= s.len(),
    ensures
        from <= at <= to,
        at - from == span_before(s@.subrange(from as int, to as int), mark),
{
    let mut at: usize = from;
    let ghost part = s@.subrange(from as int, to as int);
    while at < to && s[at] != mark
        invariant
            from <= at <= to <= s.len(),
            part == s@.subrange(from as int, to as int),
            forall|j: int| 0 <= j < at - from ==> part[j] != mark,
        decreases to - at,
    {
        at = at + 1;
    }
    proof {
        lemma_span_before_is(part, mark, at - from);
    }
    at
}

/// Tells whether a kernel of this release reports direct I/O alignment.
pub fn supports_dio_align(release: &str) -> (yes: bool)
    ensures
        yes == has_dio_align(release@),
{
    let s = chars_of(release);
    let dash = find(&s, 0, s.len(), '-');
    let dot = find(&s, 0, dash, '.');
    let ghost version = head(release@, '-');
    let ghost major_text = head(version, '.');
    proof {
        assert(s@.subrange(0, s.len() as int) =~= s@);
        assert(s@.subrange(0, dash as int) =~= version);
        assert(s@.subrange(0, dot as int) =~= major_text);
    }
    if dot == dash {
        return false;
    }
    let end = find(&s, dot + 1, dash, '.');
    let ghost rest = version.skip(major_text.len() as int + 1);
    proof {
        assert(s@.subrange(dot + 1, dash as int) =~= rest);
        assert(s@.subrange(dot + 1, end as int) =~= head(rest, '.'));
    }
    let major: u32 = match parse_u32_range(&s, 0, dot) {
        Some(n) => n,
        None => 0,
    };
    let minor: u32 = match parse_u32_range(&s, dot + 1, end) {
        Some(n) => n,
        None => 0,
    };
    major > 6 || (major == 6 && minor >= 1)
}

impl Strategy {
    /// Picks the strategy for a Linux kernel by the release it reports.
    pub fn for_linux(release: &str) -> (strategy: Strategy)
        ensures
            strategy == linux_strategy(release@),
    {
        if supports_dio_align(release) {
            Strategy::DioAlign
        } else {
            Strategy::Legacy
        }
    }
}

} // verus!
