//! What holds of every resolution, whatever the operating system answers.
//!
//! The operating system is taken as a function from questions to answers: a
//! system in a stable state answers one question in one way. [`run`] lets
//! the resolver's rule work against such a system.

use crate::attribute::file_value;
use crate::capability::Strategy;
use crate::error::Error;
use crate::path::{ascend, attribute_file, lemma_parent_shorter};
use crate::protocol::{RequestView, ResponseView, StepView};
use crate::resolver::{fail, next, probe, start, wanted, Phase};
use crate::wide::{spec_volume_device_path, wide_string};
use vstd::prelude::*;

verus! {

/// An operating system in a stable state: what it answers to each call.
pub type System = spec_fn(RequestView) -> ResponseView;

/// Where a resolution stands after at most `fuel` answers of `system`, from
/// `phase` with `step` pending. It stops early where it ends.
pub open spec fn run(system: System, phase: Phase, step: StepView, fuel: nat) -> (Phase, StepView)
    decreases fuel,
{
    match step {
        StepView::Ask(request) => if fuel == 0 {
            (phase, step)
        } else {
            let after = next(phase, system(request));
            run(system, after.0, after.1, (fuel - 1) as nat)
        },
        _ => (phase, step),
    }
}

/// Whether `system` says that the attribute file a walk looks for exists
/// under `dir`.
pub open spec fn holds_attribute(system: System, dir: Seq<u8>, known: Option<(u32, u32)>) -> bool {
    system(RequestView::Exists { file: attribute_file(dir, wanted(known)) })
        == (ResponseView::Exists { found: true })
}

/// Whether `system` says that the attribute file a walk looks for does not
/// exist under `dir`.
pub open spec fn lacks_attribute(system: System, dir: Seq<u8>, known: Option<(u32, u32)>) -> bool {
    system(RequestView::Exists { file: attribute_file(dir, wanted(known)) })
        == (ResponseView::Exists { found: false })
}

/// The directory `n` ascents above `dir`, if a walk can go that far.
pub open spec fn ancestor(dir: Seq<u8>, n: nat) -> Option<Seq<u8>>
    decreases n,
{
    if n == 0 {
        Some(dir)
    } else {
        match ascend(dir) {
            Some(up) => ancestor(up, (n - 1) as nat),
            None => None,
        }
    }
}

/// How many ascents a walk can make from `dir` before it is at the top.
pub open spec fn depth(dir: Seq<u8>) -> nat
    decreases dir.len(),
    via depth_decreases
{
    match ascend(dir) {
        Some(up) => 1 + depth(up),
        None => 0,
    }
}

#[via_fn]
proof fn depth_decreases(dir: Seq<u8>) {
    lemma_parent_shorter(dir);
}

/// The directories above `dir` are those that at most `depth(dir)` ascents
/// reach.
pub proof fn lemma_ancestor_exists(dir: Seq<u8>, n: nat)
    ensures
        ancestor(dir, n) is Some <==> n <= depth(dir),
    decreases n,
{
    if n > 0 {
        match ascend(dir) {
            Some(up) => lemma_ancestor_exists(up, (n - 1) as nat),
            None => {},
        }
    }
}

/// A walk finds the nearest directory that holds the attribute file: where
/// the file is missing in `dir` and in the `n - 1` directories above it and
/// exists in the next one, the walk stands there after `n` answers, having
/// made `n` ascents, no more than the depth of `dir`, and asks to read the
/// file with the answer after that.
pub proof fn law_walk_finds_nearest(system: System, dir: Seq<u8>, known: Option<(u32, u32)>, n: nat)
    requires
        ancestor(dir, n) is Some,
        forall|k: nat|
            k < n ==> (#[trigger] ancestor(dir, k) matches Some(d) && lacks_attribute(
                system,
                d,
                known,
            )),
        holds_attribute(system, ancestor(dir, n)->0, known),
    ensures
        n <= depth(dir),
        run(system, probe(dir, known).0, probe(dir, known).1, n) == probe(
            ancestor(dir, n)->0,
            known,
        ),
        run(system, probe(dir, known).0, probe(dir, known).1, n + 1) == next(
            Phase::Probing { dir: ancestor(dir, n)->0, known },
            ResponseView::Exists { found: true },
        ),
    decreases n,
{
    lemma_ancestor_exists(dir, n);
    if n == 0 {
        assert(run(system, probe(dir, known).0, probe(dir, known).1, 0) == probe(dir, known));
        let after = next(probe(dir, known).0, ResponseView::Exists { found: true });
        assert(run(system, after.0, after.1, 0) == after);
    } else {
        assert(ancestor(dir, 0) == Some(dir));
        assert(lacks_attribute(system, dir, known));
        let up = ascend(dir)->0;
        assert forall|k: nat| k < n - 1 implies (#[trigger] ancestor(up, k) matches Some(d)
            && lacks_attribute(system, d, known)) by {
            assert(ancestor(dir, k + 1) == ancestor(up, k));
        }
        law_walk_finds_nearest(system, up, known, (n - 1) as nat);
        assert(next(probe(dir, known).0, ResponseView::Exists { found: false }) == probe(
            up,
            known,
        ));
    }
}

/// A walk ends where no directory holds the attribute file: it asks once
/// for `dir` and once for each directory above it, `depth(dir) + 1` times in
/// all, and then fails with `QueueNotFound`.
pub proof fn law_walk_gives_up(system: System, dir: Seq<u8>, known: Option<(u32, u32)>)
    requires
        forall|k: nat|
            (#[trigger] ancestor(dir, k) matches Some(d) ==> lacks_attribute(system, d, known)),
    ensures
        run(system, probe(dir, known).0, probe(dir, known).1, depth(dir) + 1) == fail(
            Error::QueueNotFound,
        ),
    decreases dir.len(),
{
    assert(ancestor(dir, 0) == Some(dir));
    assert(lacks_attribute(system, dir, known));
    lemma_parent_shorter(dir);
    match ascend(dir) {
        Some(up) => {
            assert forall|k: nat| (#[trigger] ancestor(up, k) matches Some(d)
                ==> lacks_attribute(system, d, known)) by {
                assert(ancestor(dir, k + 1) == ancestor(up, k));
            }
            law_walk_gives_up(system, up, known);
            assert(next(probe(dir, known).0, ResponseView::Exists { found: false }) == probe(
                up,
                known,
            ));
        },
        None => {
            let after = fail(Error::QueueNotFound);
            assert(next(probe(dir, known).0, ResponseView::Exists { found: false }) == after);
            assert(run(system, after.0, after.1, 0) == after);
        },
    }
}

/// How far a phase is from the walk: the walk and what follows it count 0,
/// each call before it one more.
pub open spec fn stage(phase: Phase) -> nat {
    match phase {
        Phase::OpeningTarget => 6,
        Phase::AskingLogical => 5,
        Phase::Resolving { .. } => 4,
        Phase::OpeningParent { .. } => 3,
        Phase::AskingStatus { .. } => 2,
        Phase::ResolvingDevice { .. } => 1,
        Phase::AskingVolumePath { .. } => 5,
        Phase::AskingFreeSpace { .. } => 4,
        Phase::AskingVolumeName { .. } => 3,
        Phase::OpeningVolume { .. } => 2,
        Phase::AskingAlignment { .. } => 1,
        Phase::AskingPhysical { .. } => 1,
        Phase::AskingStatistics => 1,
        _ => 0,
    }
}

/// What shrinks while a phase repeats: the answers that the walk and the
/// reading after it can still take, and the room that is left for a buffer
/// to grow.
pub open spec fn slack(phase: Phase) -> nat {
    match phase {
        Phase::Probing { dir, .. } => depth(dir) + 3,
        Phase::ReadingLogical { .. } => 2,
        Phase::ReadingPhysical { .. } => 1,
        Phase::AskingVolumePath { capacity } => (u32::MAX - capacity) as nat,
        Phase::AskingVolumeName { capacity, .. } => (u32::MAX - capacity) as nat,
        _ => 0,
    }
}

/// Every resolution ends: from any phase, whatever the system answers, a
/// bounded number of answers leads to `Done` or `Fail`.
pub proof fn law_resolution_ends(system: System, phase: Phase, step: StepView)
    ensures
        exists|n: nat| !(#[trigger] run(system, phase, step, n).1 is Ask),
    decreases stage(phase), slack(phase),
{
    match step {
        StepView::Ask(request) => {
            let after = next(phase, system(request));
            if let Phase::Probing { dir, known } = phase {
                lemma_parent_shorter(dir);
            }
            if after.1 is Ask {
                law_resolution_ends(system, after.0, after.1);
                let n = choose|n: nat| !(#[trigger] run(system, after.0, after.1, n).1 is Ask);
                let m: nat = n + 1;
                assert(run(system, phase, step, m) == run(system, after.0, after.1, n));
                assert(!(run(system, phase, step, m).1 is Ask));
            } else {
                assert(run(system, after.0, after.1, 0) == after);
                assert(run(system, phase, step, 1) == after);
                assert(!(run(system, phase, step, 1).1 is Ask));
            }
        },
        _ => {
            assert(run(system, phase, step, 0) == (phase, step));
            assert(!(run(system, phase, step, 0).1 is Ask));
        },
    }
}

/// A resolution that has ended stays as it is, however many answers it is
/// still offered.
pub proof fn law_end_is_final(system: System, phase: Phase, step: StepView, n: nat, m: nat)
    requires
        !(run(system, phase, step, n).1 is Ask),
        n <= m,
    ensures
        run(system, phase, step, m) == run(system, phase, step, n),
    decreases n,
{
    match step {
        StepView::Ask(request) => {
            let after = next(phase, system(request));
            law_end_is_final(system, after.0, after.1, (n - 1) as nat, (m - 1) as nat);
        },
        _ => {},
    }
}

/// Whether `phase` is one that the strategy goes through, with what the
/// strategy has learnt by then.
pub open spec fn belongs(strategy: Strategy, phase: Phase) -> bool {
    match phase {
        Phase::Finished => true,
        Phase::OpeningTarget | Phase::AskingLogical | Phase::AskingPhysical { .. }
        | Phase::ReadingLogical { .. } => strategy == Strategy::Legacy,
        Phase::Resolving { dio_align } | Phase::OpeningParent { dio_align, .. }
        | Phase::AskingStatus { dio_align } => if dio_align {
            strategy == Strategy::DioAlign
        } else {
            strategy == Strategy::Legacy
        },
        Phase::ResolvingDevice { known } | Phase::Probing { known, .. } => match known {
            Some((mem_align, logical)) => strategy == Strategy::DioAlign && mem_align > 0
                && logical > 0,
            None => strategy == Strategy::Legacy,
        },
        Phase::ReadingPhysical { mem_align, logical } => match mem_align {
            Some(align) => strategy == Strategy::DioAlign && align > 0 && logical > 0,
            None => strategy == Strategy::Legacy,
        },
        Phase::AskingStatistics => strategy == Strategy::Apple,
        Phase::AskingVolumePath { .. } | Phase::AskingFreeSpace { .. }
        | Phase::AskingVolumeName { .. }
        | Phase::OpeningVolume { .. } | Phase::AskingAlignment { .. } => strategy
            == Strategy::Windows,
    }
}

/// Whether a step is one that the strategy may end in: under `DioAlign` a
/// result holds a positive memory alignment and a positive logical size,
/// under any other strategy it holds no memory alignment; `DioAlign` never
/// fails for want of a logical size in an attribute file, and no other
/// strategy fails for want of direct I/O alignment.
pub open spec fn suits(strategy: Strategy, step: StepView) -> bool {
    match step {
        StepView::Done(found) => if strategy == Strategy::DioAlign {
            found.mem_align matches Some(align) && align > 0 && found.logical > 0
        } else {
            found.mem_align is None
        },
        StepView::Fail(error) => error == Error::DioAlignUnsupported ==> strategy
            == Strategy::DioAlign,
        StepView::Ask(_) => true,
    }
}

/// One answer keeps a resolution within its strategy.
pub proof fn lemma_next_belongs(strategy: Strategy, phase: Phase, answer: ResponseView)
    requires
        belongs(strategy, phase),
    ensures
        belongs(strategy, next(phase, answer).0),
        suits(strategy, next(phase, answer).1),
{
}

/// The memory alignment is there exactly under `DioAlign`: a resolution of
/// that strategy ends, if it succeeds, with a positive memory alignment and
/// a positive logical size, and a resolution of any other strategy with no
/// memory alignment.
pub proof fn law_memory_alignment(system: System, strategy: Strategy, fuel: nat)
    ensures
        suits(strategy, run(system, start(strategy).0, start(strategy).1, fuel).1),
{
    lemma_run_belongs(system, strategy, start(strategy).0, start(strategy).1, fuel);
}

proof fn lemma_run_belongs(
    system: System,
    strategy: Strategy,
    phase: Phase,
    step: StepView,
    fuel: nat,
)
    requires
        belongs(strategy, phase),
        suits(strategy, step),
    ensures
        belongs(strategy, run(system, phase, step, fuel).0),
        suits(strategy, run(system, phase, step, fuel).1),
    decreases fuel,
{
    match step {
        StepView::Ask(request) => {
            if fuel > 0 {
                let after = next(phase, system(request));
                lemma_next_belongs(strategy, phase, system(request));
                lemma_run_belongs(system, strategy, after.0, after.1, (fuel - 1) as nat);
            }
        },
        _ => {},
    }
}

/// Whether two systems give the same answer to every question that a
/// resolution asks of the first within `fuel` answers.
pub open spec fn answer_alike(
    first: System,
    second: System,
    phase: Phase,
    step: StepView,
    fuel: nat,
) -> bool
    decreases fuel,
{
    match step {
        StepView::Ask(request) => fuel > 0 ==> {
            let after = next(phase, first(request));
            first(request) == second(request) && answer_alike(
                first,
                second,
                after.0,
                after.1,
                (fuel - 1) as nat,
            )
        },
        _ => true,
    }
}

/// A resolution repeats: against a system that answers as before to the
/// questions asked, it takes the same course to the same end. Nothing but
/// the answers decides.
pub proof fn law_same_answers_same_result(
    first: System,
    second: System,
    phase: Phase,
    step: StepView,
    fuel: nat,
)
    requires
        answer_alike(first, second, phase, step, fuel),
    ensures
        run(first, phase, step, fuel) == run(second, phase, step, fuel),
    decreases fuel,
{
    match step {
        StepView::Ask(request) => {
            if fuel > 0 {
                let after = next(phase, first(request));
                law_same_answers_same_result(first, second, after.0, after.1, (fuel - 1) as nat);
            }
        },
        _ => {},
    }
}

/// Whether `answer` leaves a resolution in `phase` without a physical size
/// of its own: the call failed, the attribute file holds no number, the
/// volume has no device path, or the device reports a sector size of zero.
pub open spec fn lacks_physical(phase: Phase, answer: ResponseView) -> bool {
    match answer {
        ResponseView::Failed { .. } => true,
        ResponseView::Content { data } => file_value(data) is Err,
        ResponseView::Wide { units } => phase is AskingVolumeName && spec_volume_device_path(
            wide_string(units),
        ) is None,
        ResponseView::Size { bytes } => phase is AskingAlignment && bytes == 0,
        _ => false,
    }
}

/// A physical size that cannot be had is the logical size: where a
/// resolution still comes to a result although the answer gave no physical
/// size, the two sizes of the result are equal.
pub proof fn law_fallback_reuses_logical(phase: Phase, answer: ResponseView)
    requires
        lacks_physical(phase, answer),
    ensures
        next(phase, answer).1 matches StepView::Done(found) ==> found.physical == found.logical,
{
}

} // verus!
