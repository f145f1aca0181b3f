//! The resolver: which call comes next, and what the answers add up to.
//!
//! A resolution is a run of questions and answers. [`Resolver::new`] gives
//! the first question of a strategy, [`Resolver::step`] takes the answer to
//! the question last asked and gives the next one, until it ends in
//! `Step::Done` or `Step::Fail`. The function [`next`] is the whole rule.

use crate::attribute::{file_value, read_block_size, ATTRIBUTE_BYTES};
use crate::capability::Strategy;
use crate::error::Error;
use crate::info::{DirectInfo, Measurements};
use crate::path::{
    ascend, attribute_file, device_entry, file_name, logical_attribute, logical_name, parent,
    path_ascend, path_attribute_file, path_device_entry, path_file_name, path_parent,
    physical_attribute, physical_name,
};
use crate::protocol::{Request, RequestView, Response, ResponseView, Step, StepView};
use crate::wide::{spec_volume_device_path, terminate, volume_device_path, wide_string};
use vstd::prelude::*;
use vstd::slice::*;

verus! {

/// Where a resolution stands: what it has asked and what it has learnt.
pub enum Phase {
    /// Legacy: the path is being opened.
    OpeningTarget,
    /// Legacy: the block device is asked for its logical size.
    AskingLogical,
    /// Legacy: the block device is asked for its physical size.
    AskingPhysical { logical: u32 },
    /// The path is being made canonical; `dio_align` tells the strategy.
    Resolving { dio_align: bool },
    /// The directory that holds the canonical path `path` is being opened.
    OpeningParent { dio_align: bool, path: Seq<u8> },
    /// The status of the path is being queried.
    AskingStatus { dio_align: bool },
    /// The entry of the device is being made canonical. `known` holds the
    /// memory alignment and the logical size where the status gave them.
    ResolvingDevice { known: Option<(u32, u32)> },
    /// The walk stands at `dir` and asks whether its attribute file exists.
    Probing { dir: Seq<u8>, known: Option<(u32, u32)> },
    /// The logical size is being read from the attribute file of `dir`.
    ReadingLogical { dir: Seq<u8> },
    /// The physical size is being read from its attribute file.
    ReadingPhysical { mem_align: Option<u32>, logical: u32 },
    /// Apple: the filesystem is asked for its statistics.
    AskingStatistics,
    /// Windows: the mount point of the volume is being looked up, with a
    /// buffer of `capacity` units.
    AskingVolumePath { capacity: u32 },
    /// Windows: the volume mounted at `volume` is asked for its sector size.
    AskingFreeSpace { volume: Seq<u16> },
    /// Windows: the name of the volume mounted at `volume` is being looked
    /// up, with a buffer of `capacity` units.
    AskingVolumeName { logical: u32, volume: Seq<u16>, capacity: u32 },
    /// Windows: the device of the volume is being opened.
    OpeningVolume { logical: u32 },
    /// Windows: the device is asked for its access alignment.
    AskingAlignment { logical: u32 },
    /// The resolution has ended.
    Finished,
}

/// The capacity of the buffer that a volume call is first tried with.
pub const FIRST_CAPACITY: u32 = 260;

/// The error code by which a volume call says that its buffer is too small.
pub const MORE_DATA: i32 = 234;

/// The capacity to try after `capacity` was too small: twice as much, as
/// long as that is more and still a capacity.
pub open spec fn grown(capacity: u32) -> Option<u32> {
    if 0 < capacity && capacity * 2 <= u32::MAX {
        Some((capacity * 2) as u32)
    } else {
        None
    }
}

/// The bit of the direct I/O alignment in the mask of an extended status.
pub const DIO_ALIGN_BIT: u32 = 0x2000;

/// Whether a status with this mask and these two alignments reports direct
/// I/O alignment: the bit is set and both values are positive.
pub open spec fn reports_dio_align(mask: u32, mem_align: u32, offset_align: u32) -> bool {
    mask & DIO_ALIGN_BIT != 0 && mem_align > 0 && offset_align > 0
}

/// The physical size that the statistics of an Apple filesystem give: the
/// size of an optimal transfer, a signed number, read as unsigned.
pub open spec fn transfer_size(io_size: i32) -> u32 {
    if io_size >= 0 {
        io_size as u32
    } else {
        (io_size + 0x1_0000_0000) as u32
    }
}

/// The name of the attribute file that a walk looks for: the logical size
/// while nothing is known, the physical size after that.
pub open spec fn wanted(known: Option<(u32, u32)>) -> Seq<u8> {
    if known is Some {
        physical_attribute()
    } else {
        logical_attribute()
    }
}

/// The call that reads the attribute file `name` of the device directory
/// `dir`.
pub open spec fn reading(dir: Seq<u8>, name: Seq<u8>) -> RequestView {
    RequestView::Read { file: attribute_file(dir, name), limit: ATTRIBUTE_BYTES }
}

/// The step that asks whether the attribute file of `dir` exists.
pub open spec fn probe(dir: Seq<u8>, known: Option<(u32, u32)>) -> (Phase, StepView) {
    (
        Phase::Probing { dir, known },
        StepView::Ask(RequestView::Exists { file: attribute_file(dir, wanted(known)) }),
    )
}

/// The step that ends a resolution with these measurements.
pub open spec fn done(mem_align: Option<u32>, logical: u32, physical: u32) -> (Phase, StepView) {
    (Phase::Finished, StepView::Done(Measurements { mem_align, logical, physical }))
}

/// The step that ends a resolution with this failure.
pub open spec fn fail(error: Error) -> (Phase, StepView) {
    (Phase::Finished, StepView::Fail(error))
}

/// The first step of a strategy.
pub open spec fn start(strategy: Strategy) -> (Phase, StepView) {
    match strategy {
        Strategy::Legacy => (Phase::OpeningTarget, StepView::Ask(RequestView::OpenTarget)),
        Strategy::DioAlign => (
            Phase::Resolving { dio_align: true },
            StepView::Ask(RequestView::Canonicalize),
        ),
        Strategy::Apple => (
            Phase::AskingStatistics,
            StepView::Ask(RequestView::FilesystemStatistics),
        ),
        Strategy::Windows => (
            Phase::AskingVolumePath { capacity: FIRST_CAPACITY },
            StepView::Ask(RequestView::VolumePath { capacity: FIRST_CAPACITY }),
        ),
    }
}

/// The step that follows when a resolution in `phase` gets `answer`.
///
/// A failed call ends the resolution with its error code, except where the
/// call only refines: a block device that does not answer sends the legacy
/// strategy to the attribute files, and a physical size that cannot be had
/// is replaced by the logical size. A volume call whose buffer was too
/// small is asked again with twice the capacity. An answer of the wrong sort
/// ends the resolution with `UnexpectedAnswer`.
pub open spec fn next(phase: Phase, answer: ResponseView) -> (Phase, StepView) {
    match phase {
        Phase::OpeningTarget => match answer {
            ResponseView::Opened => (Phase::AskingLogical, StepView::Ask(RequestView::LogicalSize)),
            ResponseView::Failed { code } => fail(Error::Os { code }),
            _ => fail(Error::UnexpectedAnswer),
        },
        Phase::AskingLogical => match answer {
            ResponseView::Size { bytes } => (
                Phase::AskingPhysical { logical: bytes },
                StepView::Ask(RequestView::PhysicalSize),
            ),
            ResponseView::Failed { .. } => (
                Phase::Resolving { dio_align: false },
                StepView::Ask(RequestView::Canonicalize),
            ),
            _ => fail(Error::UnexpectedAnswer),
        },
        Phase::AskingPhysical { logical } => match answer {
            ResponseView::Size { bytes } => done(None, logical, bytes),
            ResponseView::Failed { .. } => done(None, logical, logical),
            _ => fail(Error::UnexpectedAnswer),
        },
        Phase::Resolving { dio_align } => match answer {
            ResponseView::Path { path } => match parent(path) {
                Some(dir) => (
                    Phase::OpeningParent { dio_align, path },
                    StepView::Ask(RequestView::OpenDirectory { dir }),
                ),
                None => fail(Error::NoParent),
            },
            ResponseView::Failed { code } => fail(Error::Os { code }),
            _ => fail(Error::UnexpectedAnswer),
        },
        Phase::OpeningParent { dio_align, path } => match answer {
            ResponseView::Opened => match (parent(path), file_name(path)) {
                (Some(dir), Some(name)) => (
                    Phase::AskingStatus { dio_align },
                    StepView::Ask(RequestView::Status { dir, name, dio_align }),
                ),
                (None, _) => fail(Error::NoParent),
                (_, None) => fail(Error::NoFileName),
            },
            ResponseView::Failed { code } => fail(Error::Os { code }),
            _ => fail(Error::UnexpectedAnswer),
        },
        Phase::AskingStatus { dio_align } => match answer {
            ResponseView::Status { mask, mem_align, offset_align, major, minor } => if !dio_align {
                (
                    Phase::ResolvingDevice { known: None },
                    StepView::Ask(
                        RequestView::CanonicalizeDevice { entry: device_entry(major, minor) },
                    ),
                )
            } else if reports_dio_align(mask, mem_align, offset_align) {
                (
                    Phase::ResolvingDevice { known: Some((mem_align, offset_align)) },
                    StepView::Ask(
                        RequestView::CanonicalizeDevice { entry: device_entry(major, minor) },
                    ),
                )
            } else {
                fail(Error::DioAlignUnsupported)
            },
            ResponseView::Failed { code } => fail(Error::Os { code }),
            _ => fail(Error::UnexpectedAnswer),
        },
        Phase::ResolvingDevice { known } => match answer {
            ResponseView::Path { path } => probe(path, known),
            ResponseView::Failed { code } => fail(Error::Os { code }),
            _ => fail(Error::UnexpectedAnswer),
        },
        Phase::Probing { dir, known } => match answer {
            ResponseView::Exists { found } => if found {
                match known {
                    Some((mem_align, logical)) => (
                        Phase::ReadingPhysical { mem_align: Some(mem_align), logical },
                        StepView::Ask(reading(dir, physical_attribute())),
                    ),
                    None => (
                        Phase::ReadingLogical { dir },
                        StepView::Ask(reading(dir, logical_attribute())),
                    ),
                }
            } else {
                match ascend(dir) {
                    Some(up) => probe(up, known),
                    None => fail(Error::QueueNotFound),
                }
            },
            _ => fail(Error::UnexpectedAnswer),
        },
        Phase::ReadingLogical { dir } => match answer {
            ResponseView::Content { data } => match file_value(data) {
                Ok(logical) => (
                    Phase::ReadingPhysical { mem_align: None, logical },
                    StepView::Ask(reading(dir, physical_attribute())),
                ),
                Err(error) => fail(error),
            },
            ResponseView::Failed { code } => fail(Error::Os { code }),
            _ => fail(Error::UnexpectedAnswer),
        },
        Phase::ReadingPhysical { mem_align, logical } => match answer {
            ResponseView::Content { data } => match file_value(data) {
                Ok(physical) => done(mem_align, logical, physical),
                Err(_) => done(mem_align, logical, logical),
            },
            ResponseView::Failed { .. } => done(mem_align, logical, logical),
            _ => fail(Error::UnexpectedAnswer),
        },
        Phase::AskingStatistics => match answer {
            ResponseView::Statistics { block_size, io_size } => done(
                None,
                block_size,
                transfer_size(io_size),
            ),
            ResponseView::Failed { code } => fail(Error::Os { code }),
            _ => fail(Error::UnexpectedAnswer),
        },
        Phase::AskingVolumePath { capacity } => match answer {
            ResponseView::Wide { units } => (
                Phase::AskingFreeSpace { volume: wide_string(units) },
                StepView::Ask(RequestView::FreeSpace { volume: wide_string(units) }),
            ),
            ResponseView::Failed { code } => match grown(capacity) {
                Some(more) if code == MORE_DATA => (
                    Phase::AskingVolumePath { capacity: more },
                    StepView::Ask(RequestView::VolumePath { capacity: more }),
                ),
                _ => fail(Error::Os { code }),
            },
            _ => fail(Error::UnexpectedAnswer),
        },
        Phase::AskingFreeSpace { volume } => match answer {
            ResponseView::Size { bytes } => (
                Phase::AskingVolumeName { logical: bytes, volume, capacity: FIRST_CAPACITY },
                StepView::Ask(RequestView::VolumeName { volume, capacity: FIRST_CAPACITY }),
            ),
            ResponseView::Failed { code } => fail(Error::Os { code }),
            _ => fail(Error::UnexpectedAnswer),
        },
        Phase::AskingVolumeName { logical, volume, capacity } => match answer {
            ResponseView::Wide { units } => match spec_volume_device_path(wide_string(units)) {
                Some(device) => (
                    Phase::OpeningVolume { logical },
                    StepView::Ask(RequestView::OpenVolume { device }),
                ),
                None => done(None, logical, logical),
            },
            ResponseView::Failed { code } => match grown(capacity) {
                Some(more) if code == MORE_DATA => (
                    Phase::AskingVolumeName { logical, volume, capacity: more },
                    StepView::Ask(RequestView::VolumeName { volume, capacity: more }),
                ),
                _ => done(None, logical, logical),
            },
            _ => fail(Error::UnexpectedAnswer),
        },
        Phase::OpeningVolume { logical } => match answer {
            ResponseView::Opened => (
                Phase::AskingAlignment { logical },
                StepView::Ask(RequestView::AccessAlignment),
            ),
            ResponseView::Failed { .. } => done(None, logical, logical),
            _ => fail(Error::UnexpectedAnswer),
        },
        Phase::AskingAlignment { logical } => match answer {
            ResponseView::Size { bytes } => if bytes == 0 {
                done(None, logical, logical)
            } else {
                done(None, logical, bytes)
            },
            ResponseView::Failed { .. } => done(None, logical, logical),
            _ => fail(Error::UnexpectedAnswer),
        },
        Phase::Finished => fail(Error::UnexpectedAnswer),
    }
}

/// The resolver's own record of a [`Phase`].
#[derive(Debug, Clone)]
enum State {
    OpeningTarget,
    AskingLogical,
    AskingPhysical { logical: u32 },
    Resolving { dio_align: bool },
    OpeningParent { dio_align: bool, path: Vec<u8> },
    AskingStatus { dio_align: bool },
    ResolvingDevice { known: Option<(u32, u32)> },
    Probing { dir: Vec<u8>, known: Option<(u32, u32)> },
    ReadingLogical { dir: Vec<u8> },
    ReadingPhysical { mem_align: Option<u32>, logical: u32 },
    AskingStatistics,
    AskingVolumePath { capacity: u32 },
    AskingFreeSpace { volume: Vec<u16> },
    AskingVolumeName { logical: u32, volume: Vec<u16>, capacity: u32 },
    OpeningVolume { logical: u32 },
    AskingAlignment { logical: u32 },
    Finished,
}

impl View for State {
    type V = Phase;

    closed spec fn view(&self) -> Phase {
        match *self {
            State::OpeningTarget => Phase::OpeningTarget,
            State::AskingLogical => Phase::AskingLogical,
            State::AskingPhysical { logical } => Phase::AskingPhysical { logical },
            State::Resolving { dio_align } => Phase::Resolving { dio_align },
            State::OpeningParent { dio_align, path } => Phase::OpeningParent {
                dio_align,
                path: path@,
            },
            State::AskingStatus { dio_align } => Phase::AskingStatus { dio_align },
            State::ResolvingDevice { known } => Phase::ResolvingDevice { known },
            State::Probing { dir, known } => Phase::Probing { dir: dir@, known },
            State::ReadingLogical { dir } => Phase::ReadingLogical { dir: dir@ },
            State::ReadingPhysical { mem_align, logical } => Phase::ReadingPhysical {
                mem_align,
                logical,
            },
            State::AskingStatistics => Phase::AskingStatistics,
            State::AskingVolumePath { capacity } => Phase::AskingVolumePath { capacity },
            State::AskingFreeSpace { volume } => Phase::AskingFreeSpace { volume: volume@ },
            State::AskingVolumeName { logical, volume, capacity } => Phase::AskingVolumeName {
                logical,
                volume: volume@,
                capacity,
            },
            State::OpeningVolume { logical } => Phase::OpeningVolume { logical },
            State::AskingAlignment { logical } => Phase::AskingAlignment { logical },
            State::Finished => Phase::Finished,
        }
    }
}

/// A resolution under way.
#[derive(Debug, Clone)]
pub struct Resolver {
    state: State,
}

impl View for Resolver {
    type V = Phase;

    closed spec fn view(&self) -> Phase {
        self.state@
    }
}

/// `rustix::fs::StatxFlags::DIOALIGN.bits()`: the bit that the mask of an
/// extended status holds where the kernel filled in the direct I/O
/// alignment. The contract takes it to be `STATX_DIOALIGN` as the kernel
/// defines it, [`DIO_ALIGN_BIT`].
#[verifier::external_body]
fn dio_align_bit() -> (bit: u32)
    ensures
        bit == DIO_ALIGN_BIT,
{
    rustix::fs::StatxFlags::DIOALIGN.bits()
}

/// Tells whether a status reports direct I/O alignment.
pub fn status_reports_dio_align(mask: u32, mem_align: u32, offset_align: u32) -> (yes: bool)
    ensures
        yes == reports_dio_align(mask, mem_align, offset_align),
{
    mask & dio_align_bit() != 0 && mem_align > 0 && offset_align > 0
}

/// Reads the size of an optimal transfer as an unsigned number.
pub fn unsigned_transfer_size(io_size: i32) -> (size: u32)
    ensures
        size == transfer_size(io_size),
{
    if io_size >= 0 {
        io_size as u32
    } else {
        (io_size as i64 + 0x1_0000_0000) as u32
    }
}

/// Doubles a capacity, where [`grown`] does.
fn grow(capacity: u32) -> (more: Option<u32>)
    ensures
        more == grown(capacity),
{
    if 0 < capacity && capacity <= u32::MAX / 2 {
        Some(capacity * 2)
    } else {
        None
    }
}

fn ask_volume_name(logical: u32, volume: Vec<u16>, capacity: u32) -> (r: (Resolver, Step))
    ensures
        r.0@ == (Phase::AskingVolumeName { logical, volume: volume@, capacity }),
        r.1@ == StepView::Ask(RequestView::VolumeName { volume: volume@, capacity }),
{
    let copy = slice_to_vec(volume.as_slice());
    ask(
        State::AskingVolumeName { logical, volume, capacity },
        Request::VolumeName { volume: copy, capacity },
    )
}

fn ask(state: State, request: Request) -> (r: (Resolver, Step))
    ensures
        r.0@ == state@,
        r.1@ == StepView::Ask(request@),
{
    (Resolver { state }, Step::Ask(request))
}

fn finish(mem_align: Option<u32>, logical: u32, physical: u32) -> (r: (Resolver, Step))
    ensures
        (r.0@, r.1@) == done(mem_align, logical, physical),
{
    (Resolver { state: State::Finished }, Step::Done(DirectInfo::new(mem_align, logical, physical)))
}

fn give_up(error: Error) -> (r: (Resolver, Step))
    ensures
        (r.0@, r.1@) == fail(error),
{
    (Resolver { state: State::Finished }, Step::Fail(error))
}

fn probe_at(dir: Vec<u8>, known: Option<(u32, u32)>) -> (r: (Resolver, Step))
    ensures
        (r.0@, r.1@) == probe(dir@, known),
{
    let name = if known.is_some() {
        physical_name()
    } else {
        logical_name()
    };
    let file = path_attribute_file(dir.as_slice(), name.as_slice());
    ask(State::Probing { dir, known }, Request::Exists { file })
}

fn locate_device(known: Option<(u32, u32)>, major: u32, minor: u32) -> (r: (Resolver, Step))
    ensures
        r.0@ == (Phase::ResolvingDevice { known }),
        r.1@ == StepView::Ask(
            RequestView::CanonicalizeDevice { entry: device_entry(major, minor) },
        ),
{
    ask(
        State::ResolvingDevice { known },
        Request::CanonicalizeDevice { entry: path_device_entry(major, minor) },
    )
}

fn read_physical(dir: &Vec<u8>, mem_align: Option<u32>, logical: u32) -> (r: (Resolver, Step))
    ensures
        r.0@ == (Phase::ReadingPhysical { mem_align, logical }),
        r.1@ == StepView::Ask(reading(dir@, physical_attribute())),
{
    let file = path_attribute_file(dir.as_slice(), physical_name().as_slice());
    ask(
        State::ReadingPhysical { mem_align, logical },
        Request::Read { file, limit: ATTRIBUTE_BYTES },
    )
}

impl Resolver {
    /// Begins a resolution: the resolver, and the first call to perform.
    pub fn new(strategy: Strategy) -> (r: (Resolver, Step))
        ensures
            (r.0@, r.1@) == start(strategy),
    {
        match strategy {
            Strategy::Legacy => ask(State::OpeningTarget, Request::OpenTarget),
            Strategy::DioAlign => ask(State::Resolving { dio_align: true }, Request::Canonicalize),
            Strategy::Apple => ask(State::AskingStatistics, Request::FilesystemStatistics),
            Strategy::Windows => ask(
                State::AskingVolumePath { capacity: FIRST_CAPACITY },
                Request::VolumePath { capacity: FIRST_CAPACITY },
            ),
        }
    }

    /// Takes the answer to the call last asked for and gives the resolver as
    /// it stands after it, with what to do next.
    pub fn step(self, response: Response) -> (r: (Resolver, Step))
        ensures
            (r.0@, r.1@) == next(self@, response@),
    {
        match self.state {
            State::OpeningTarget => match response {
                Response::Opened => ask(State::AskingLogical, Request::LogicalSize),
                Response::Failed { code } => give_up(Error::Os { code }),
                _ => give_up(Error::UnexpectedAnswer),
            },
            State::AskingLogical => match response {
                Response::Size { bytes } => ask(
                    State::AskingPhysical { logical: bytes },
                    Request::PhysicalSize,
                ),
                Response::Failed { .. } => ask(
                    State::Resolving { dio_align: false },
                    Request::Canonicalize,
                ),
                _ => give_up(Error::UnexpectedAnswer),
            },
            State::AskingPhysical { logical } => match response {
                Response::Size { bytes } => finish(None, logical, bytes),
                Response::Failed { .. } => finish(None, logical, logical),
                _ => give_up(Error::UnexpectedAnswer),
            },
            State::Resolving { dio_align } => match response {
                Response::Path { path } => match path_parent(path.as_slice()) {
                    Some(dir) => ask(
                        State::OpeningParent { dio_align, path },
                        Request::OpenDirectory { dir },
                    ),
                    None => give_up(Error::NoParent),
                },
                Response::Failed { code } => give_up(Error::Os { code }),
                _ => give_up(Error::UnexpectedAnswer),
            },
            State::OpeningParent { dio_align, path } => match response {
                Response::Opened => match path_parent(path.as_slice()) {
                    Some(dir) => match path_file_name(path.as_slice()) {
                        Some(name) => ask(
                            State::AskingStatus { dio_align },
                            Request::Status { dir, name, dio_align },
                        ),
                        None => give_up(Error::NoFileName),
                    },
                    None => give_up(Error::NoParent),
                },
                Response::Failed { code } => give_up(Error::Os { code }),
                _ => give_up(Error::UnexpectedAnswer),
            },
            State::AskingStatus { dio_align } => match response {
                Response::Status { mask, mem_align, offset_align, major, minor } => if !dio_align {
                    locate_device(None, major, minor)
                } else if status_reports_dio_align(mask, mem_align, offset_align) {
                    locate_device(Some((mem_align, offset_align)), major, minor)
                } else {
                    give_up(Error::DioAlignUnsupported)
                },
                Response::Failed { code } => give_up(Error::Os { code }),
                _ => give_up(Error::UnexpectedAnswer),
            },
            State::ResolvingDevice { known } => match response {
                Response::Path { path } => probe_at(path, known),
                Response::Failed { code } => give_up(Error::Os { code }),
                _ => give_up(Error::UnexpectedAnswer),
            },
            State::Probing { dir, known } => match response {
                Response::Exists { found } => if found {
                    match known {
                        Some((mem_align, logical)) => read_physical(&dir, Some(mem_align), logical),
                        None => {
                            let file = path_attribute_file(
                                dir.as_slice(),
                                logical_name().as_slice(),
                            );
                            ask(
                                State::ReadingLogical { dir },
                                Request::Read { file, limit: ATTRIBUTE_BYTES },
                            )
                        },
                    }
                } else {
                    match path_ascend(dir.as_slice()) {
                        Some(up) => probe_at(up, known),
                        None => give_up(Error::QueueNotFound),
                    }
                },
                _ => give_up(Error::UnexpectedAnswer),
            },
            State::ReadingLogical { dir } => match response {
                Response::Content { data } => match read_block_size(data.as_slice()) {
                    Ok(logical) => read_physical(&dir, None, logical),
                    Err(error) => give_up(error),
                },
                Response::Failed { code } => give_up(Error::Os { code }),
                _ => give_up(Error::UnexpectedAnswer),
            },
            State::ReadingPhysical { mem_align, logical } => match response {
                Response::Content { data } => match read_block_size(data.as_slice()) {
                    Ok(physical) => finish(mem_align, logical, physical),
                    Err(_) => finish(mem_align, logical, logical),
                },
                Response::Failed { .. } => finish(mem_align, logical, logical),
                _ => give_up(Error::UnexpectedAnswer),
            },
            State::AskingStatistics => match response {
                Response::Statistics { block_size, io_size } => finish(
                    None,
                    block_size,
                    unsigned_transfer_size(io_size),
                ),
                Response::Failed { code } => give_up(Error::Os { code }),
                _ => give_up(Error::UnexpectedAnswer),
            },
            State::AskingVolumePath { capacity } => match response {
                Response::Wide { units } => {
                    let volume = terminate(units.as_slice());
                    let copy = slice_to_vec(volume.as_slice());
                    ask(State::AskingFreeSpace { volume }, Request::FreeSpace { volume: copy })
                },
                Response::Failed { code } => match grow(capacity) {
                    Some(more) => if code == MORE_DATA {
                        ask(
                            State::AskingVolumePath { capacity: more },
                            Request::VolumePath { capacity: more },
                        )
                    } else {
                        give_up(Error::Os { code })
                    },
                    None => give_up(Error::Os { code }),
                },
                _ => give_up(Error::UnexpectedAnswer),
            },
            State::AskingFreeSpace { volume } => match response {
                Response::Size { bytes } => ask_volume_name(bytes, volume, FIRST_CAPACITY),
                Response::Failed { code } => give_up(Error::Os { code }),
                _ => give_up(Error::UnexpectedAnswer),
            },
            State::AskingVolumeName { logical, volume, capacity } => match response {
                Response::Wide { units } => {
                    let name = terminate(units.as_slice());
                    match volume_device_path(name.as_slice()) {
                        Some(device) => ask(
                            State::OpeningVolume { logical },
                            Request::OpenVolume { device },
                        ),
                        None => finish(None, logical, logical),
                    }
                },
                Response::Failed { code } => match grow(capacity) {
                    Some(more) => if code == MORE_DATA {
                        ask_volume_name(logical, volume, more)
                    } else {
                        finish(None, logical, logical)
                    },
                    None => finish(None, logical, logical),
                },
                _ => give_up(Error::UnexpectedAnswer),
            },
            State::OpeningVolume { logical } => match response {
                Response::Opened => ask(
                    State::AskingAlignment { logical },
                    Request::AccessAlignment,
                ),
                Response::Failed { .. } => finish(None, logical, logical),
                _ => give_up(Error::UnexpectedAnswer),
            },
            State::AskingAlignment { logical } => match response {
                Response::Size { bytes } => if bytes == 0 {
                    finish(None, logical, logical)
                } else {
                    finish(None, logical, bytes)
                },
                Response::Failed { .. } => finish(None, logical, logical),
                _ => give_up(Error::UnexpectedAnswer),
            },
            State::Finished => give_up(Error::UnexpectedAnswer),
        }
    }
}

} // verus!
