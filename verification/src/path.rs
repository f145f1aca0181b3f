//! Canonical paths as bytes, and the places in the device-model filesystem
//! that a resolution looks at.
//!
//! A canonical path is what the operating system hands back when it resolves
//! a path: absolute, one separator between components, no separator at its
//! end except for the root, no `.` or `..` component. On such a path
//! [`parent`] and [`file_name`] are what `std::path::Path` calls by these
//! names.

use vstd::prelude::*;
use vstd::slice::*;

verus! {

/// The byte that parts the components of a path.
pub const SEPARATOR: u8 = 0x2F;

/// `queue`: the directory under a device that holds its block-layer
/// attributes.
pub open spec fn queue_dir() -> Seq<u8> {
    seq![0x71u8, 0x75, 0x65, 0x75, 0x65]
}

/// `block`: the name of the directory that holds the block devices of one
/// parent device. No walk goes up into it.
pub open spec fn block_dir() -> Seq<u8> {
    seq![0x62u8, 0x6C, 0x6F, 0x63, 0x6B]
}

/// `_block_size`: what the names of the two attribute files end with.
pub open spec fn block_size_suffix() -> Seq<u8> {
    seq![0x5Fu8, 0x62, 0x6C, 0x6F, 0x63, 0x6B, 0x5F, 0x73, 0x69, 0x7A, 0x65]
}

/// `logical_block_size`.
pub open spec fn logical_attribute() -> Seq<u8> {
    seq![0x6Cu8, 0x6F, 0x67, 0x69, 0x63, 0x61, 0x6C] + block_size_suffix()
}

/// `physical_block_size`.
pub open spec fn physical_attribute() -> Seq<u8> {
    seq![0x70u8, 0x68, 0x79, 0x73, 0x69, 0x63, 0x61, 0x6C] + block_size_suffix()
}

/// `/sys/dev/block/`: where the devices are listed by number.
pub open spec fn device_list() -> Seq<u8> {
    seq![0x2Fu8, 0x73, 0x79, 0x73, 0x2F, 0x64, 0x65, 0x76, 0x2F, 0x62, 0x6C, 0x6F, 0x63, 0x6B, 0x2F]
}

/// The digits that write `n` in base ten, as ASCII.
pub open spec fn decimal_digits(n: nat) -> Seq<u8>
    decreases n,
{
    if n < 10 {
        seq![(0x30 + n) as u8]
    } else {
        decimal_digits(n / 10).push((0x30 + n % 10) as u8)
    }
}

/// The entry of the device `major:minor` in the list of block devices:
/// `/sys/dev/block/`, the major number, a colon, the minor number.
pub open spec fn device_entry(major: u32, minor: u32) -> Seq<u8> {
    device_list() + decimal_digits(major as nat) + seq![0x3Au8] + decimal_digits(minor as nat)
}

/// Where the final component of `p` begins: just behind its last separator,
/// or at 0 where it has none.
pub open spec fn name_start(p: Seq<u8>) -> int
    decreases p.len(),
{
    if p.len() == 0 {
        0
    } else if p.last() == SEPARATOR {
        p.len() as int
    } else {
        name_start(p.drop_last())
    }
}

/// The final component of `p`: what follows its last separator, if anything
/// does.
pub open spec fn file_name(p: Seq<u8>) -> Option<Seq<u8>> {
    let name = p.skip(name_start(p));
    if name.len() == 0 {
        None
    } else {
        Some(name)
    }
}

/// The directory that holds `p`: what stands before its last separator, the
/// root for an entry of the root. The root has none, nor has a path without a
/// separator.
pub open spec fn parent(p: Seq<u8>) -> Option<Seq<u8>> {
    let k = name_start(p);
    if k == 0 || p.len() == 1 {
        None
    } else if k == 1 {
        Some(p.take(1))
    } else {
        Some(p.take(k - 1))
    }
}

/// `dir` with the component `name` behind it.
pub open spec fn join(dir: Seq<u8>, name: Seq<u8>) -> Seq<u8> {
    if dir.len() == 0 || dir.last() == SEPARATOR {
        dir + name
    } else {
        dir.push(SEPARATOR) + name
    }
}

/// The attribute file `name` of the device directory `dir`:
/// `dir/queue/name`.
pub open spec fn attribute_file(dir: Seq<u8>, name: Seq<u8>) -> Seq<u8> {
    join(join(dir, queue_dir()), name)
}

/// The directory a walk goes to from `dir`: its parent, as long as that has
/// a name and the name is not `block`. `None` where the walk has reached the
/// top.
pub open spec fn ascend(dir: Seq<u8>) -> Option<Seq<u8>> {
    match parent(dir) {
        Some(up) => match file_name(up) {
            Some(name) => if name == block_dir() {
                None
            } else {
                Some(up)
            },
            None => None,
        },
        None => None,
    }
}

/// The final component begins inside the path.
pub proof fn lemma_name_start_bounds(p: Seq<u8>)
    ensures
        0 <= name_start(p) <= p.len(),
        name_start(p) > 0 ==> p[name_start(p) - 1] == SEPARATOR,
        forall|i: int| name_start(p) <= i < p.len() ==> p[i] != SEPARATOR,
    decreases p.len(),
{
    if p.len() > 0 && p.last() != SEPARATOR {
        let q = p.drop_last();
        lemma_name_start_bounds(q);
        assert forall|i: int| name_start(p) <= i < p.len() implies p[i] != SEPARATOR by {
            if i < q.len() {
                assert(q[i] == p[i]);
            }
        }
    }
}

/// A parent is shorter than its child, so no walk goes up for ever.
pub proof fn lemma_parent_shorter(p: Seq<u8>)
    ensures
        parent(p) matches Some(up) ==> up.len() < p.len(),
        ascend(p) matches Some(up) ==> up.len() < p.len(),
{
    lemma_name_start_bounds(p);
}

fn queue_name() -> (name: Vec<u8>)
    ensures
        name@ == queue_dir(),
{
    let name: Vec<u8> = vec![0x71, 0x75, 0x65, 0x75, 0x65];
    assert(name@ =~= queue_dir());
    name
}

fn block_name() -> (name: Vec<u8>)
    ensures
        name@ == block_dir(),
{
    let name: Vec<u8> = vec![0x62, 0x6C, 0x6F, 0x63, 0x6B];
    assert(name@ =~= block_dir());
    name
}

/// The name of the attribute file that holds the logical block size.
pub fn logical_name() -> (name: Vec<u8>)
    ensures
        name@ == logical_attribute(),
{
    let name: Vec<u8> = vec![
        0x6C, 0x6F, 0x67, 0x69, 0x63, 0x61, 0x6C, 0x5F, 0x62, 0x6C, 0x6F, 0x63, 0x6B, 0x5F, 0x73,
        0x69, 0x7A, 0x65,
    ];
    assert(name@ =~= logical_attribute());
    name
}

/// The name of the attribute file that holds the physical block size.
pub fn physical_name() -> (name: Vec<u8>)
    ensures
        name@ == physical_attribute(),
{
    let name: Vec<u8> = vec![
        0x70, 0x68, 0x79, 0x73, 0x69, 0x63, 0x61, 0x6C, 0x5F, 0x62, 0x6C, 0x6F, 0x63, 0x6B, 0x5F,
        0x73, 0x69, 0x7A, 0x65,
    ];
    assert(name@ =~= physical_attribute());
    name
}

/// Finds where the final component of `p` begins.
fn find_name_start(p: &[u8]) -> (k: usize)
    ensures
        k == name_start(p@),
        k <= p.len(),
{
    let mut k: usize = p.len();
    assert(p@.take(k as int) =~= p@);
    while k > 0 && p[k - 1] != SEPARATOR
        invariant
            k <= p.len(),
            name_start(p@) == name_start(p@.take(k as int)),
        decreases k,
    {
        assert(p@.take(k as int).drop_last() =~= p@.take(k as int - 1));
        k = k - 1;
    }
    k
}

/// Returns the final component of `p`.
pub fn path_file_name(p: &[u8]) -> (name: Option<Vec<u8>>)
    ensures
        name is Some <==> file_name(p@) is Some,
        name matches Some(n) ==> file_name(p@) == Some(n@),
{
    let k = find_name_start(p);
    if k == p.len() {
        None
    } else {
        let name = slice_to_vec(slice_subrange(p, k, p.len()));
        assert(name@ =~= p@.skip(k as int));
        Some(name)
    }
}

/// Returns the directory that holds `p`.
pub fn path_parent(p: &[u8]) -> (up: Option<Vec<u8>>)
    ensures
        up is Some <==> parent(p@) is Some,
        up matches Some(d) ==> parent(p@) == Some(d@),
{
    let k = find_name_start(p);
    if k == 0 || p.len() == 1 {
        None
    } else if k == 1 {
        let up = slice_to_vec(slice_subrange(p, 0, 1));
        assert(up@ =~= p@.take(1));
        Some(up)
    } else {
        let up = slice_to_vec(slice_subrange(p, 0, k - 1));
        assert(up@ =~= p@.take(k - 1));
        Some(up)
    }
}

/// Puts the component `name` behind `dir`.
pub fn path_join(dir: &[u8], name: &[u8]) -> (path: Vec<u8>)
    ensures
        path@ == join(dir@, name@),
{
    let mut path = slice_to_vec(dir);
    if dir.len() > 0 && dir[dir.len() - 1] != SEPARATOR {
        path.push(SEPARATOR);
    }
    path.extend_from_slice(name);
    assert(path@ =~= join(dir@, name@));
    path
}

/// Names the attribute file `name` of the device directory `dir`.
pub fn path_attribute_file(dir: &[u8], name: &[u8]) -> (path: Vec<u8>)
    ensures
        path@ == attribute_file(dir@, name@),
{
    let queue = path_join(dir, queue_name().as_slice());
    path_join(queue.as_slice(), name)
}

/// Tells whether two byte strings are the same.
fn same_bytes(a: &[u8], b: &[u8]) -> (same: bool)
    ensures
        same == (a@ == b@),
{
    if a.len() != b.len() {
        return false;
    }
    let mut i: usize = 0;
    while i < a.len()
        invariant
            i <= a.len() == b.len(),
            a@.take(i as int) == b@.take(i as int),
        decreases a.len() - i,
    {
        if a[i] != b[i] {
            return false;
        }
        assert(a@.take(i + 1) =~= a@.take(i as int).push(a[i as int]));
        assert(b@.take(i + 1) =~= b@.take(i as int).push(b[i as int]));
        i = i + 1;
    }
    assert(a@ =~= a@.take(i as int));
    assert(b@ =~= b@.take(i as int));
    true
}

/// Returns the directory a walk goes to from `dir`, or `None` at the top.
pub fn path_ascend(dir: &[u8]) -> (up: Option<Vec<u8>>)
    ensures
        up is Some <==> ascend(dir@) is Some,
        up matches Some(d) ==> ascend(dir@) == Some(d@),
{
    match path_parent(dir) {
        Some(up) => match path_file_name(up.as_slice()) {
            Some(name) => if same_bytes(name.as_slice(), block_name().as_slice()) {
                None
            } else {
                Some(up)
            },
            None => None,
        },
        None => None,
    }
}

/// Writes `n` in base ten behind `out`.
fn push_decimal(out: &mut Vec<u8>, n: u32)
    ensures
        final(out)@ == old(out)@ + decimal_digits(n as nat),
    decreases n,
{
    if n >= 10 {
        push_decimal(out, n / 10);
    }
    out.push(0x30 + (n % 10) as u8);
    assert(final(out)@ =~= old(out)@ + decimal_digits(n as nat));
}

/// Names the entry of the device `major:minor` in the list of block devices.
pub fn path_device_entry(major: u32, minor: u32) -> (path: Vec<u8>)
    ensures
        path@ == device_entry(major, minor),
{
    let mut path: Vec<u8> = vec![
        0x2F, 0x73, 0x79, 0x73, 0x2F, 0x64, 0x65, 0x76, 0x2F, 0x62, 0x6C, 0x6F, 0x63, 0x6B, 0x2F,
    ];
    assert(path@ =~= device_list());
    push_decimal(&mut path, major);
    path.push(0x3A);
    push_decimal(&mut path, minor);
    assert(path@ =~= device_entry(major, minor));
    path
}

} // verus!
