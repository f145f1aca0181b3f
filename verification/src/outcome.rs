//! What each strategy comes to, told in one piece: the result of a
//! resolution as a function of what the operating system answers.
//!
//! [`outcome`] says it without phases and steps; [`law_outcome`] shows that
//! the resolver, run against the same system, ends with exactly that.

use crate::attribute::file_value;
use crate::capability::Strategy;
use crate::error::Error;
use crate::info::Measurements;
use crate::laws::{run, System};
use crate::path::{
    ascend, attribute_file, device_entry, file_name, lemma_parent_shorter, logical_attribute,
    parent, physical_attribute,
};
use crate::protocol::{RequestView, ResponseView, StepView};
use crate::resolver::{
    grown, next, probe, reading, reports_dio_align, start, transfer_size, wanted, Phase,
    FIRST_CAPACITY, MORE_DATA,
};
use crate::wide::{spec_volume_device_path, wide_string};
use vstd::prelude::*;

verus! {

/// The step that a resolution ends in when it comes to `result`.
pub open spec fn verdict(result: Result<Measurements, Error>) -> StepView {
    match result {
        Ok(found) => StepView::Done(found),
        Err(error) => StepView::Fail(error),
    }
}

/// A result with no memory alignment.
pub open spec fn sizes(logical: u32, physical: u32) -> Result<Measurements, Error> {
    Ok(Measurements { mem_align: None, logical, physical })
}

/// The physical size that a device reports in `answer`, the logical size
/// where it reports none or reports zero as Windows does.
pub open spec fn reported_or(answer: ResponseView, logical: u32, zero_counts: bool) -> Result<
    u32,
    Error,
> {
    match answer {
        ResponseView::Size { bytes } => if bytes == 0 && !zero_counts {
            Ok(logical)
        } else {
            Ok(bytes)
        },
        ResponseView::Failed { .. } => Ok(logical),
        _ => Err(Error::UnexpectedAnswer),
    }
}

/// The result once the logical size is known and the attribute file of the
/// physical size under `dir` is all that is left to read: the number in the
/// file, the logical size where the file cannot be read or holds none.
pub open spec fn refined(
    system: System,
    dir: Seq<u8>,
    mem_align: Option<u32>,
    logical: u32,
) -> Result<Measurements, Error> {
    match system(reading(dir, physical_attribute())) {
        ResponseView::Content { data } => match file_value(data) {
            Ok(physical) => Ok(Measurements { mem_align, logical, physical }),
            Err(_) => Ok(Measurements { mem_align, logical, physical: logical }),
        },
        ResponseView::Failed { .. } => Ok(Measurements { mem_align, logical, physical: logical }),
        _ => Err(Error::UnexpectedAnswer),
    }
}

/// The result of reading the attribute files under `dir`. Where nothing is
/// known yet the logical size is owed: a file that cannot be read or holds
/// no number fails the resolution.
pub open spec fn measured(
    system: System,
    dir: Seq<u8>,
    known: Option<(u32, u32)>,
) -> Result<Measurements, Error> {
    match known {
        Some((mem_align, logical)) => refined(system, dir, Some(mem_align), logical),
        None => match system(reading(dir, logical_attribute())) {
            ResponseView::Content { data } => match file_value(data) {
                Ok(logical) => refined(system, dir, None, logical),
                Err(error) => Err(error),
            },
            ResponseView::Failed { code } => Err(Error::Os { code }),
            _ => Err(Error::UnexpectedAnswer),
        },
    }
}

/// The result of a walk from `dir`: the attribute files of the nearest
/// directory that holds the one looked for, `dir` itself or one above it up
/// to the top.
pub open spec fn walked(
    system: System,
    dir: Seq<u8>,
    known: Option<(u32, u32)>,
) -> Result<Measurements, Error>
    decreases dir.len(),
    via walked_decreases
{
    match system(RequestView::Exists { file: attribute_file(dir, wanted(known)) }) {
        ResponseView::Exists { found } => if found {
            measured(system, dir, known)
        } else {
            match ascend(dir) {
                Some(up) => walked(system, up, known),
                None => Err(Error::QueueNotFound),
            }
        },
        _ => Err(Error::UnexpectedAnswer),
    }
}

#[via_fn]
proof fn walked_decreases(system: System, dir: Seq<u8>, known: Option<(u32, u32)>) {
    lemma_parent_shorter(dir);
}

/// The result of finding the device behind the path and walking up from its
/// entry. Under `dio_align` the status must report the alignment, and gives
/// the memory alignment and the logical size.
pub open spec fn located(system: System, dio_align: bool) -> Result<Measurements, Error> {
    match system(RequestView::Canonicalize) {
        ResponseView::Path { path } => match parent(path) {
            None => Err(Error::NoParent),
            Some(dir) => match system(RequestView::OpenDirectory { dir }) {
                ResponseView::Opened => match file_name(path) {
                    None => Err(Error::NoFileName),
                    Some(name) => match system(RequestView::Status { dir, name, dio_align }) {
                        ResponseView::Status { mask, mem_align, offset_align, major, minor } => {
                            if dio_align && !reports_dio_align(mask, mem_align, offset_align) {
                                Err(Error::DioAlignUnsupported)
                            } else {
                                let known = if dio_align {
                                    Some((mem_align, offset_align))
                                } else {
                                    None
                                };
                                match system(
                                    RequestView::CanonicalizeDevice {
                                        entry: device_entry(major, minor),
                                    },
                                ) {
                                    ResponseView::Path { path: device } => walked(
                                        system,
                                        device,
                                        known,
                                    ),
                                    ResponseView::Failed { code } => Err(Error::Os { code }),
                                    _ => Err(Error::UnexpectedAnswer),
                                }
                            }
                        },
                        ResponseView::Failed { code } => Err(Error::Os { code }),
                        _ => Err(Error::UnexpectedAnswer),
                    },
                },
                ResponseView::Failed { code } => Err(Error::Os { code }),
                _ => Err(Error::UnexpectedAnswer),
            },
        },
        ResponseView::Failed { code } => Err(Error::Os { code }),
        _ => Err(Error::UnexpectedAnswer),
    }
}

/// Legacy: the block device answers for itself; where it gives no logical
/// size, the device behind the path is found and its attribute files read.
pub open spec fn legacy(system: System) -> Result<Measurements, Error> {
    match system(RequestView::OpenTarget) {
        ResponseView::Opened => match system(RequestView::LogicalSize) {
            ResponseView::Size { bytes } => match reported_or(
                system(RequestView::PhysicalSize),
                bytes,
                true,
            ) {
                Ok(physical) => sizes(bytes, physical),
                Err(error) => Err(error),
            },
            ResponseView::Failed { .. } => located(system, false),
            _ => Err(Error::UnexpectedAnswer),
        },
        ResponseView::Failed { code } => Err(Error::Os { code }),
        _ => Err(Error::UnexpectedAnswer),
    }
}

/// Apple: the statistics of the filesystem hold both sizes.
pub open spec fn apple(system: System) -> Result<Measurements, Error> {
    match system(RequestView::FilesystemStatistics) {
        ResponseView::Statistics { block_size, io_size } => sizes(
            block_size,
            transfer_size(io_size),
        ),
        ResponseView::Failed { code } => Err(Error::Os { code }),
        _ => Err(Error::UnexpectedAnswer),
    }
}

/// The mount point of the volume, asked for with a buffer of `capacity`
/// units and with larger ones as long as the buffer is too small.
pub open spec fn volume_path(system: System, capacity: u32) -> Result<Seq<u16>, Error>
    decreases u32::MAX - capacity,
{
    match system(RequestView::VolumePath { capacity }) {
        ResponseView::Wide { units } => Ok(wide_string(units)),
        ResponseView::Failed { code } => match grown(capacity) {
            Some(more) if code == MORE_DATA => volume_path(system, more),
            _ => Err(Error::Os { code }),
        },
        _ => Err(Error::UnexpectedAnswer),
    }
}

/// The physical size of the volume mounted at `volume`: its name is asked
/// for, with larger buffers as long as the buffer is too small; the device
/// that the name stands for is opened and asked for its alignment. Whatever
/// fails on the way, or a sector size of zero, leaves the logical size.
pub open spec fn volume_physical(
    system: System,
    volume: Seq<u16>,
    logical: u32,
    capacity: u32,
) -> Result<u32, Error>
    decreases u32::MAX - capacity,
{
    match system(RequestView::VolumeName { volume, capacity }) {
        ResponseView::Wide { units } => match spec_volume_device_path(wide_string(units)) {
            Some(device) => match system(RequestView::OpenVolume { device }) {
                ResponseView::Opened => reported_or(
                    system(RequestView::AccessAlignment),
                    logical,
                    false,
                ),
                ResponseView::Failed { .. } => Ok(logical),
                _ => Err(Error::UnexpectedAnswer),
            },
            None => Ok(logical),
        },
        ResponseView::Failed { code } => match grown(capacity) {
            Some(more) if code == MORE_DATA => volume_physical(system, volume, logical, more),
            _ => Ok(logical),
        },
        _ => Err(Error::UnexpectedAnswer),
    }
}

/// Windows: the volume that holds the path gives the logical size, which is
/// owed; its device refines the physical size.
pub open spec fn windows(system: System) -> Result<Measurements, Error> {
    match volume_path(system, FIRST_CAPACITY) {
        Ok(volume) => match system(RequestView::FreeSpace { volume }) {
            ResponseView::Size { bytes } => match volume_physical(
                system,
                volume,
                bytes,
                FIRST_CAPACITY,
            ) {
                Ok(physical) => sizes(bytes, physical),
                Err(error) => Err(error),
            },
            ResponseView::Failed { code } => Err(Error::Os { code }),
            _ => Err(Error::UnexpectedAnswer),
        },
        Err(error) => Err(error),
    }
}

/// What a resolution by `strategy` comes to against `system`.
pub open spec fn outcome(strategy: Strategy, system: System) -> Result<Measurements, Error> {
    match strategy {
        Strategy::Legacy => legacy(system),
        Strategy::DioAlign => located(system, true),
        Strategy::Apple => apple(system),
        Strategy::Windows => windows(system),
    }
}

/// Whether a resolution that stands in `phase` with `step` pending ends in
/// `end` after some number of answers of `system`.
pub open spec fn reaches(system: System, phase: Phase, step: StepView, end: StepView) -> bool {
    exists|n: nat| #[trigger] run(system, phase, step, n) == (Phase::Finished, end)
}

/// A resolution that has ended has reached its end.
proof fn lemma_reaches_end(system: System, end: StepView)
    requires
        !(end is Ask),
    ensures
        reaches(system, Phase::Finished, end, end),
{
    assert(run(system, Phase::Finished, end, 0) == (Phase::Finished, end));
}

/// A resolution reaches what it reaches after the next answer.
proof fn lemma_reaches_after(system: System, phase: Phase, request: RequestView, end: StepView)
    requires
        reaches(
            system,
            next(phase, system(request)).0,
            next(phase, system(request)).1,
            end,
        ),
    ensures
        reaches(system, phase, StepView::Ask(request), end),
{
    let after = next(phase, system(request));
    let n = choose|n: nat| #[trigger] run(system, after.0, after.1, n) == (Phase::Finished, end);
    let m: nat = n + 1;
    assert(run(system, phase, StepView::Ask(request), m) == run(system, after.0, after.1, n));
}

/// The resolver reads the physical size as [`refined`] says.
proof fn lemma_refined(system: System, dir: Seq<u8>, mem_align: Option<u32>, logical: u32)
    ensures
        reaches(
            system,
            Phase::ReadingPhysical { mem_align, logical },
            StepView::Ask(reading(dir, physical_attribute())),
            verdict(refined(system, dir, mem_align, logical)),
        ),
{
    let end = verdict(refined(system, dir, mem_align, logical));
    lemma_reaches_end(system, end);
    lemma_reaches_after(
        system,
        Phase::ReadingPhysical { mem_align, logical },
        reading(dir, physical_attribute()),
        end,
    );
}

/// The resolver walks as [`walked`] says.
proof fn lemma_walked(system: System, dir: Seq<u8>, known: Option<(u32, u32)>)
    ensures
        reaches(
            system,
            probe(dir, known).0,
            probe(dir, known).1,
            verdict(walked(system, dir, known)),
        ),
    decreases dir.len(),
{
    let end = verdict(walked(system, dir, known));
    let request = RequestView::Exists { file: attribute_file(dir, wanted(known)) };
    let phase = Phase::Probing { dir, known };
    let after = next(phase, system(request));
    lemma_parent_shorter(dir);
    match system(request) {
        ResponseView::Exists { found } => {
            if found {
                match known {
                    Some((mem_align, logical)) => {
                        lemma_refined(system, dir, Some(mem_align), logical);
                    },
                    None => {
                        let read = reading(dir, logical_attribute());
                        match next(Phase::ReadingLogical { dir }, system(read)).1 {
                            StepView::Ask(_) => {
                                let logical = file_value(system(read)->data)->Ok_0;
                                lemma_refined(system, dir, None, logical);
                            },
                            _ => {
                                lemma_reaches_end(system, end);
                            },
                        }
                        lemma_reaches_after(system, Phase::ReadingLogical { dir }, read, end);
                    },
                }
            } else {
                match ascend(dir) {
                    Some(up) => {
                        lemma_walked(system, up, known);
                    },
                    None => {
                        lemma_reaches_end(system, end);
                    },
                }
            }
        },
        _ => {
            lemma_reaches_end(system, end);
        },
    }
    lemma_reaches_after(system, phase, request, end);
}

/// The resolver finds the device and walks as [`located`] says.
proof fn lemma_located(system: System, dio_align: bool)
    ensures
        reaches(
            system,
            Phase::Resolving { dio_align },
            StepView::Ask(RequestView::Canonicalize),
            verdict(located(system, dio_align)),
        ),
{
    let end = verdict(located(system, dio_align));
    let first = Phase::Resolving { dio_align };
    if let ResponseView::Path { path } = system(RequestView::Canonicalize) {
        if let Some(dir) = parent(path) {
            let opening = Phase::OpeningParent { dio_align, path };
            let open = RequestView::OpenDirectory { dir };
            if system(open) is Opened && file_name(path) is Some {
                let name = file_name(path)->0;
                let asking = Phase::AskingStatus { dio_align };
                let status = RequestView::Status { dir, name, dio_align };
                if let ResponseView::Status { mask, mem_align, offset_align, major, minor } =
                    system(status) {
                    if dio_align && !reports_dio_align(mask, mem_align, offset_align) {
                        lemma_reaches_end(system, end);
                    } else {
                        let known = if dio_align {
                            Some((mem_align, offset_align))
                        } else {
                            None
                        };
                        let resolving = Phase::ResolvingDevice { known };
                        let entry = RequestView::CanonicalizeDevice {
                            entry: device_entry(major, minor),
                        };
                        if let ResponseView::Path { path: device } = system(entry) {
                            lemma_walked(system, device, known);
                        } else {
                            lemma_reaches_end(system, end);
                        }
                        lemma_reaches_after(system, resolving, entry, end);
                    }
                } else {
                    lemma_reaches_end(system, end);
                }
                lemma_reaches_after(system, asking, status, end);
            } else {
                lemma_reaches_end(system, end);
            }
            lemma_reaches_after(system, opening, open, end);
        } else {
            lemma_reaches_end(system, end);
        }
    } else {
        lemma_reaches_end(system, end);
    }
    lemma_reaches_after(system, first, RequestView::Canonicalize, end);
}

/// The resolver runs the legacy strategy as [`legacy`] says.
proof fn lemma_legacy(system: System)
    ensures
        reaches(
            system,
            Phase::OpeningTarget,
            StepView::Ask(RequestView::OpenTarget),
            verdict(legacy(system)),
        ),
{
    let end = verdict(legacy(system));
    if system(RequestView::OpenTarget) is Opened {
        match system(RequestView::LogicalSize) {
            ResponseView::Size { bytes } => {
                lemma_reaches_end(system, end);
                lemma_reaches_after(
                    system,
                    Phase::AskingPhysical { logical: bytes },
                    RequestView::PhysicalSize,
                    end,
                );
            },
            ResponseView::Failed { .. } => {
                lemma_located(system, false);
            },
            _ => {
                lemma_reaches_end(system, end);
            },
        }
        lemma_reaches_after(system, Phase::AskingLogical, RequestView::LogicalSize, end);
    } else {
        lemma_reaches_end(system, end);
    }
    lemma_reaches_after(system, Phase::OpeningTarget, RequestView::OpenTarget, end);
}

/// The resolver asks for the physical size of a volume as
/// [`volume_physical`] says.
proof fn lemma_volume_physical(system: System, volume: Seq<u16>, logical: u32, capacity: u32)
    ensures
        reaches(
            system,
            Phase::AskingVolumeName { logical, volume, capacity },
            StepView::Ask(RequestView::VolumeName { volume, capacity }),
            verdict(
                match volume_physical(system, volume, logical, capacity) {
                    Ok(physical) => sizes(logical, physical),
                    Err(error) => Err(error),
                },
            ),
        ),
    decreases u32::MAX - capacity,
{
    let end = verdict(
        match volume_physical(system, volume, logical, capacity) {
            Ok(physical) => sizes(logical, physical),
            Err(error) => Err(error),
        },
    );
    let request = RequestView::VolumeName { volume, capacity };
    match system(request) {
        ResponseView::Wide { units } => {
            match spec_volume_device_path(wide_string(units)) {
                Some(device) => {
                    let open = RequestView::OpenVolume { device };
                    lemma_reaches_end(system, end);
                    if system(open) is Opened {
                        lemma_reaches_after(
                            system,
                            Phase::AskingAlignment { logical },
                            RequestView::AccessAlignment,
                            end,
                        );
                    }
                    lemma_reaches_after(system, Phase::OpeningVolume { logical }, open, end);
                },
                None => {
                    lemma_reaches_end(system, end);
                },
            }
        },
        ResponseView::Failed { code } => {
            match grown(capacity) {
                Some(more) => {
                    if code == MORE_DATA {
                        lemma_volume_physical(system, volume, logical, more);
                    } else {
                        lemma_reaches_end(system, end);
                    }
                },
                None => {
                    lemma_reaches_end(system, end);
                },
            }
        },
        _ => {
            lemma_reaches_end(system, end);
        },
    }
    lemma_reaches_after(
        system,
        Phase::AskingVolumeName { logical, volume, capacity },
        request,
        end,
    );
}

/// The resolver runs the Windows strategy as [`windows`] says, from any
/// capacity of the first buffer.
proof fn lemma_windows(system: System, capacity: u32)
    ensures
        reaches(
            system,
            Phase::AskingVolumePath { capacity },
            StepView::Ask(RequestView::VolumePath { capacity }),
            verdict(
                match volume_path(system, capacity) {
                    Ok(volume) => match system(RequestView::FreeSpace { volume }) {
                        ResponseView::Size { bytes } => match volume_physical(
                            system,
                            volume,
                            bytes,
                            FIRST_CAPACITY,
                        ) {
                            Ok(physical) => sizes(bytes, physical),
                            Err(error) => Err(error),
                        },
                        ResponseView::Failed { code } => Err(Error::Os { code }),
                        _ => Err(Error::UnexpectedAnswer),
                    },
                    Err(error) => Err(error),
                },
            ),
        ),
    decreases u32::MAX - capacity,
{
    let end = verdict(
        match volume_path(system, capacity) {
            Ok(volume) => match system(RequestView::FreeSpace { volume }) {
                ResponseView::Size { bytes } => match volume_physical(
                    system,
                    volume,
                    bytes,
                    FIRST_CAPACITY,
                ) {
                    Ok(physical) => sizes(bytes, physical),
                    Err(error) => Err(error),
                },
                ResponseView::Failed { code } => Err(Error::Os { code }),
                _ => Err(Error::UnexpectedAnswer),
            },
            Err(error) => Err(error),
        },
    );
    let request = RequestView::VolumePath { capacity };
    match system(request) {
        ResponseView::Wide { units } => {
            let volume = wide_string(units);
            let space = RequestView::FreeSpace { volume };
            match system(space) {
                ResponseView::Size { bytes } => {
                    lemma_volume_physical(system, volume, bytes, FIRST_CAPACITY);
                },
                _ => {
                    lemma_reaches_end(system, end);
                },
            }
            lemma_reaches_after(system, Phase::AskingFreeSpace { volume }, space, end);
        },
        ResponseView::Failed { code } => {
            match grown(capacity) {
                Some(more) => {
                    if code == MORE_DATA {
                        lemma_windows(system, more);
                    } else {
                        lemma_reaches_end(system, end);
                    }
                },
                None => {
                    lemma_reaches_end(system, end);
                },
            }
        },
        _ => {
            lemma_reaches_end(system, end);
        },
    }
    lemma_reaches_after(system, Phase::AskingVolumePath { capacity }, request, end);
}

/// The resolver computes the outcome: run against any system, a resolution
/// by any strategy ends, after some number of answers, in the step that
/// [`outcome`] names.
pub proof fn law_outcome(strategy: Strategy, system: System)
    ensures
        reaches(system, start(strategy).0, start(strategy).1, verdict(outcome(strategy, system))),
{
    match strategy {
        Strategy::Legacy => lemma_legacy(system),
        Strategy::DioAlign => lemma_located(system, true),
        Strategy::Apple => {
            let end = verdict(apple(system));
            lemma_reaches_end(system, end);
            lemma_reaches_after(
                system,
                Phase::AskingStatistics,
                RequestView::FilesystemStatistics,
                end,
            );
        },
        Strategy::Windows => lemma_windows(system, FIRST_CAPACITY),
    }
}

} // verus!
