//! Wide strings: what the Windows volume calls fill their buffers with, and
//! the device path of a volume.

use vstd::prelude::*;
use vstd::slice::*;

verus! {

/// The backslash.
pub const BACKSLASH: u16 = 0x5C;

/// What stands for a code unit that belongs to no character.
pub const REPLACEMENT: u16 = 0xFFFD;

/// The length of the wide string that `buf` begins with: the place of its
/// first zero, or all of it where it holds none.
pub open spec fn spec_wide_len(buf: Seq<u16>) -> nat
    decreases buf.len(),
{
    if buf.len() == 0 || buf[0] == 0 {
        0
    } else {
        1 + spec_wide_len(buf.drop_first())
    }
}

/// The wide string that `buf` begins with, closed by one zero.
pub open spec fn wide_string(buf: Seq<u16>) -> Seq<u16> {
    buf.take(spec_wide_len(buf) as int).push(0)
}

/// Whether `unit` is the first half of a surrogate pair.
pub open spec fn is_high_surrogate(unit: u16) -> bool {
    0xD800 <= unit <= 0xDBFF
}

/// Whether `unit` is the second half of a surrogate pair.
pub open spec fn is_low_surrogate(unit: u16) -> bool {
    0xDC00 <= unit <= 0xDFFF
}

/// `s` as it comes back from a lossy decoding into text: every surrogate
/// without its partner has become the replacement character, all else is
/// unchanged.
pub open spec fn lossy(s: Seq<u16>) -> Seq<u16>
    decreases s.len(),
{
    if s.len() == 0 {
        s
    } else if is_high_surrogate(s[0]) && s.len() >= 2 && is_low_surrogate(s[1]) {
        seq![s[0], s[1]] + lossy(s.skip(2))
    } else if is_high_surrogate(s[0]) || is_low_surrogate(s[0]) {
        seq![REPLACEMENT] + lossy(s.drop_first())
    } else {
        seq![s[0]] + lossy(s.drop_first())
    }
}

/// `s` without the backslashes it ends with.
pub open spec fn trim_backslashes(s: Seq<u16>) -> Seq<u16>
    decreases s.len(),
{
    if s.len() > 0 && s.last() == BACKSLASH {
        trim_backslashes(s.drop_last())
    } else {
        s
    }
}

/// `\\?\`: what a volume name begins with.
pub open spec fn volume_prefix() -> Seq<u16> {
    seq![0x5Cu16, 0x5C, 0x3F, 0x5C]
}

/// `\\.\`: what a device path begins with.
pub open spec fn device_prefix() -> Seq<u16> {
    seq![0x5Cu16, 0x5C, 0x2E, 0x5C]
}

/// Whether `s` begins with `prefix`.
pub open spec fn starts_with(s: Seq<u16>, prefix: Seq<u16>) -> bool {
    prefix.len() <= s.len() && s.take(prefix.len() as int) == prefix
}

/// The device path of the volume called `name`, closed by a zero.
///
/// The name is read up to its first zero, decoded lossily and freed of the
/// backslashes at its end. A volume name `\\?\rest` gives `\\.\rest`; a
/// device path is kept; a drive `X:` gives `\\.\X:`; any other name has no
/// device path.
pub open spec fn spec_volume_device_path(name: Seq<u16>) -> Option<Seq<u16>> {
    let text = trim_backslashes(lossy(name.take(spec_wide_len(name) as int)));
    if starts_with(text, volume_prefix()) {
        Some((device_prefix() + text.skip(4)).push(0))
    } else if starts_with(text, device_prefix()) {
        Some(text.push(0))
    } else if text.len() >= 2 && text[0] < 0x80 && text[1] == 0x3A {
        Some((device_prefix() + text.take(2)).push(0))
    } else {
        None
    }
}

/// The first zero decides the length: a buffer whose first `k` units are not
/// zero and whose next unit is missing or zero holds a wide string of length
/// `k`.
pub proof fn lemma_wide_len_is(buf: Seq<u16>, k: int)
    requires
        0 <= k <= buf.len(),
        forall|i: int| 0 <= i < k ==> buf[i] != 0,
        k < buf.len() ==> buf[k] == 0,
    ensures
        spec_wide_len(buf) == k,
    decreases buf.len(),
{
    if k > 0 {
        let rest = buf.drop_first();
        assert(buf[0] != 0);
        assert forall|i: int| 0 <= i < k - 1 implies rest[i] != 0 by {
            assert(rest[i] == buf[i + 1]);
        }
        lemma_wide_len_is(rest, k - 1);
    }
}

/// Returns the length of the wide string that `buf` begins with.
pub fn wide_len(buf: &[u16]) -> (len: usize)
    ensures
        len == spec_wide_len(buf@),
        len <= buf.len(),
{
    let mut i: usize = 0;
    while i < buf.len() && buf[i] != 0
        invariant
            i <= buf.len(),
            forall|j: int| 0 <= j < i ==> buf@[j] != 0,
        decreases buf.len() - i,
    {
        i = i + 1;
    }
    proof {
        lemma_wide_len_is(buf@, i as int);
    }
    i
}

/// Cuts `buf` behind the wide string it begins with and closes it with one
/// zero.
pub fn terminate(buf: &[u16]) -> (s: Vec<u16>)
    ensures
        s@ == wide_string(buf@),
{
    let len = wide_len(buf);
    let mut s = slice_to_vec(slice_subrange(buf, 0, len));
    s.push(0);
    assert(s@ =~= wide_string(buf@));
    s
}

/// Decodes `s` lossily.
fn decode_lossy(s: &[u16]) -> (text: Vec<u16>)
    ensures
        text@ == lossy(s@),
{
    let mut text: Vec<u16> = Vec::new();
    let mut i: usize = 0;
    assert(s@.skip(0) =~= s@);
    while i < s.len()
        invariant
            i <= s.len(),
            lossy(s@) == text@ + lossy(s@.skip(i as int)),
        decreases s.len() - i,
    {
        let ghost rest = s@.skip(i as int);
        let unit = s[i];
        let high = 0xD800 <= unit && unit <= 0xDBFF;
        let low = 0xDC00 <= unit && unit <= 0xDFFF;
        if high && i + 1 < s.len() && 0xDC00 <= s[i + 1] && s[i + 1] <= 0xDFFF {
            assert(rest.skip(2) =~= s@.skip(i + 2));
            assert(text@.push(unit).push(s[i + 1]) + lossy(s@.skip(i + 2)) =~= text@ + (seq![
                rest[0],
                rest[1],
            ] + lossy(rest.skip(2))));
            text.push(unit);
            text.push(s[i + 1]);
            i = i + 2;
        } else {
            let kept = if high || low {
                REPLACEMENT
            } else {
                unit
            };
            assert(rest.drop_first() =~= s@.skip(i + 1));
            assert(text@.push(kept) + lossy(s@.skip(i + 1)) =~= text@ + (seq![kept] + lossy(
                rest.drop_first(),
            )));
            text.push(kept);
            i = i + 1;
        }
    }
    assert(s@.skip(i as int) =~= Seq::<u16>::empty());
    assert(text@ + lossy(Seq::<u16>::empty()) =~= text@);
    text
}

/// Takes the backslashes off the end of `text`.
fn strip_backslashes(text: &mut Vec<u16>)
    ensures
        final(text)@ == trim_backslashes(old(text)@),
{
    while text.len() > 0 && text[text.len() - 1] == BACKSLASH
        invariant
            trim_backslashes(old(text)@) == trim_backslashes(text@),
        decreases text.len(),
    {
        let ghost before = text@;
        text.pop();
        assert(text@ =~= before.drop_last());
    }
}

/// Tells whether `text` begins with the four units `\\`, `mark`, `\`.
fn has_prefix(text: &Vec<u16>, mark: u16) -> (b: bool)
    ensures
        b == starts_with(text@, seq![0x5Cu16, 0x5C, mark, 0x5C]),
{
    let ghost prefix = seq![0x5Cu16, 0x5C, mark, 0x5C];
    if text.len() >= 4 && text[0] == BACKSLASH && text[1] == BACKSLASH && text[2] == mark
        && text[3] == BACKSLASH {
        assert(text@.take(4) =~= prefix);
        true
    } else {
        if text.len() >= 4 {
            let ghost head = text@.take(4);
            assert(head[0] == text@[0] && head[1] == text@[1] && head[2] == text@[2] && head[3]
                == text@[3]);
            assert(prefix[0] == 0x5C && prefix[1] == 0x5C && prefix[2] == mark && prefix[3]
                == 0x5C);
        }
        false
    }
}

/// Maps the name of a volume to the path of its device.
pub fn volume_device_path(volume_name: &[u16]) -> (device: Option<Vec<u16>>)
    ensures
        device is Some <==> spec_volume_device_path(volume_name@) is Some,
        device matches Some(d) ==> spec_volume_device_path(volume_name@) == Some(d@),
{
    let len = wide_len(volume_name);
    let mut text = decode_lossy(slice_subrange(volume_name, 0, len));
    strip_backslashes(&mut text);
    assert(volume_prefix() =~= seq![0x5Cu16, 0x5C, 0x3F, 0x5C]);
    assert(device_prefix() =~= seq![0x5Cu16, 0x5C, 0x2E, 0x5C]);
    if has_prefix(&text, 0x3F) {
        let mut device: Vec<u16> = vec![0x5C, 0x5C, 0x2E, 0x5C];
        device.extend_from_slice(slice_subrange(text.as_slice(), 4, text.len()));
        device.push(0);
        assert(device@ =~= (device_prefix() + text@.skip(4)).push(0));
        Some(device)
    } else if has_prefix(&text, 0x2E) {
        text.push(0);
        Some(text)
    } else if text.len() >= 2 && text[0] < 0x80 && text[1] == 0x3A {
        let mut device: Vec<u16> = vec![0x5C, 0x5C, 0x2E, 0x5C];
        device.push(text[0]);
        device.push(text[1]);
        device.push(0);
        assert(device@ =~= (device_prefix() + text@.take(2)).push(0));
        Some(device)
    } else {
        None
    }
}

} // verus!
