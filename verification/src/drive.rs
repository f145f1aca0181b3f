//! A resolution from its first question to its end.

use crate::capability::Strategy;
use crate::error::Error;
use crate::info::DirectInfo;
use crate::laws::{
    belongs, law_end_is_final, lemma_next_belongs, run, slack, stage, suits, System,
};
use crate::outcome::{law_outcome, outcome, verdict};
use crate::path::lemma_parent_shorter;
use crate::protocol::{Request, Response, ResponseView, Step, StepView};
use crate::resolver::{next, start, Phase, Resolver};
use vstd::prelude::*;

verus! {

/// The step that a resolution ends in when it gives `result`.
pub open spec fn ending(result: Result<DirectInfo, Error>) -> StepView {
    match result {
        Ok(info) => StepView::Done(info@),
        Err(error) => StepView::Fail(error),
    }
}

/// Where a resolution by `strategy` stands after it was given `answers` in
/// turn. Answers behind its end are not looked at.
pub open spec fn after(strategy: Strategy, answers: Seq<ResponseView>) -> (Phase, StepView)
    decreases answers.len(),
{
    if answers.len() == 0 {
        start(strategy)
    } else {
        let before = after(strategy, answers.drop_last());
        if before.1 is Ask {
            next(before.0, answers.last())
        } else {
            before
        }
    }
}

/// The answers of `calls`, in order.
pub open spec fn answers(calls: Seq<(Request, Response)>) -> Seq<ResponseView> {
    Seq::new(calls.len(), |i: int| calls[i].1@)
}

/// Whether the call `calls[i]` is part of a resolution by `strategy` against
/// `system`: its request is what the resolution asks after the answers
/// before it, and its response is one that `system` gives to that request.
pub open spec fn in_turn<F: Fn(&Request) -> Response>(
    system: F,
    strategy: Strategy,
    calls: Seq<(Request, Response)>,
    i: int,
) -> bool {
    &&& after(strategy, answers(calls).take(i)).1 == StepView::Ask(calls[i].0@)
    &&& call_ensures(system, (&calls[i].0,), calls[i].1)
}

/// Whether `calls` is a whole resolution by `strategy` against `system`
/// that ends in `end`: each call in its turn, and `end` after the last.
pub open spec fn resolves<F: Fn(&Request) -> Response>(
    system: F,
    strategy: Strategy,
    calls: Seq<(Request, Response)>,
    end: StepView,
) -> bool {
    &&& forall|i: int| 0 <= i < calls.len() ==> in_turn(system, strategy, calls, i)
    &&& after(strategy, answers(calls)) == (Phase::Finished, end)
    &&& !(end is Ask)
}

/// Every answer that leads to a further question brings a resolution
/// nearer to its end.
pub proof fn lemma_next_nearer(phase: Phase, answer: ResponseView)
    ensures
        next(phase, answer).1 is Ask ==> stage(next(phase, answer).0) < stage(phase) || (stage(
            next(phase, answer).0,
        ) == stage(phase) && slack(next(phase, answer).0) < slack(phase)),
        !(next(phase, answer).1 is Ask) ==> next(phase, answer).0 == Phase::Finished,
{
    if let Phase::Probing { dir, known } = phase {
        lemma_parent_shorter(dir);
    }
}

/// Fetch direct I/O alignment information by `strategy`, from a system that
/// `system` performs the calls of.
///
/// The resolution ends whatever the system answers. Its result is what the
/// resolver's rule makes of the answers that `system` gave to the calls that
/// the rule asked for, one after the other.
pub fn fetch<F: Fn(&Request) -> Response>(strategy: Strategy, system: F) -> (result: Result<
    DirectInfo,
    Error,
>)
    requires
        forall|request: &Request| call_requires(system, (request,)),
    ensures
        exists|calls: Seq<(Request, Response)>| resolves(system, strategy, calls, ending(result)),
        suits(strategy, ending(result)),
{
    let (mut resolver, mut step) = Resolver::new(strategy);
    let ghost mut calls: Seq<(Request, Response)> = Seq::empty();
    proof {
        assert(answers(calls) =~= Seq::<ResponseView>::empty());
    }
    loop
        invariant
            forall|request: &Request| call_requires(system, (request,)),
            belongs(strategy, resolver@),
            suits(strategy, step@),
            forall|i: int| 0 <= i < calls.len() ==> in_turn(system, strategy, calls, i),
            after(strategy, answers(calls)) == (resolver@, step@),
            !(step is Ask) ==> resolver@ == Phase::Finished,
        decreases stage(resolver@), slack(resolver@), step is Ask as int,
    {
        match step {
            Step::Ask(request) => {
                let response = system(&request);
                let ghost before = calls;
                proof {
                    lemma_next_belongs(strategy, resolver@, response@);
                    lemma_next_nearer(resolver@, response@);
                    calls = before.push((request, response));
                    assert(answers(calls).drop_last() =~= answers(before));
                    assert(answers(calls).last() == response@);
                    assert forall|i: int| 0 <= i < calls.len() implies in_turn(
                        system,
                        strategy,
                        calls,
                        i,
                    ) by {
                        if i < before.len() {
                            assert(in_turn(system, strategy, before, i));
                            assert(answers(calls).take(i) =~= answers(before).take(i));
                        } else {
                            assert(answers(calls).take(i) =~= answers(before));
                        }
                    }
                }
                let advanced = resolver.step(response);
                resolver = advanced.0;
                step = advanced.1;
            },
            Step::Done(info) => {
                proof {
                    assert(resolves(system, strategy, calls, ending(Ok(info))));
                }
                return Ok(info);
            },
            Step::Fail(error) => {
                proof {
                    assert(resolves(system, strategy, calls, ending(Err(error))));
                }
                return Err(error);
            },
        }
    }
}

/// Whether each of `answers` is what `system` gives to the call that a
/// resolution by `strategy` asks for in that turn.
pub open spec fn given_by(system: System, strategy: Strategy, answers: Seq<ResponseView>) -> bool {
    forall|i: int|
        0 <= i < answers.len() ==> (#[trigger] after(
            strategy,
            answers.take(i),
        ).1 matches StepView::Ask(request) ==> answers[i] == system(request))
}

/// One more answer of the system takes a run one step on.
proof fn lemma_run_one_more(system: System, phase: Phase, step: StepView, n: nat)
    ensures
        run(system, phase, step, n + 1) == match run(system, phase, step, n).1 {
            StepView::Ask(request) => next(run(system, phase, step, n).0, system(request)),
            _ => run(system, phase, step, n),
        },
    decreases n,
{
    match step {
        StepView::Ask(request) => {
            let first = next(phase, system(request));
            if n > 0 {
                lemma_run_one_more(system, first.0, first.1, (n - 1) as nat);
            } else {
                assert(run(system, first.0, first.1, 0) == first);
            }
        },
        _ => {},
    }
}

/// Answers that a system gives in turn take a resolution where the system's
/// run takes it.
proof fn lemma_after_is_run(system: System, strategy: Strategy, answers: Seq<ResponseView>)
    requires
        given_by(system, strategy, answers),
    ensures
        after(strategy, answers) == run(
            system,
            start(strategy).0,
            start(strategy).1,
            answers.len(),
        ),
    decreases answers.len(),
{
    if answers.len() > 0 {
        let before = answers.drop_last();
        assert forall|i: int| 0 <= i < before.len() implies (#[trigger] after(
            strategy,
            before.take(i),
        ).1 matches StepView::Ask(request) ==> before[i] == system(request)) by {
            assert(before.take(i) =~= answers.take(i));
        }
        lemma_after_is_run(system, strategy, before);
        lemma_run_one_more(system, start(strategy).0, start(strategy).1, before.len());
        assert(answers.take(before.len() as int) =~= before);
    }
}

/// Against a system in a stable state a resolution gives the outcome: where
/// each answer is the one that `system` gives to the call asked for, and the
/// answers take the resolution to its end, that end is what [`outcome`]
/// names.
pub proof fn law_resolution_gives_outcome(
    system: System,
    strategy: Strategy,
    answers: Seq<ResponseView>,
)
    requires
        given_by(system, strategy, answers),
        !(after(strategy, answers).1 is Ask),
    ensures
        after(strategy, answers).1 == verdict(outcome(strategy, system)),
{
    let first = start(strategy);
    let end = verdict(outcome(strategy, system));
    lemma_after_is_run(system, strategy, answers);
    law_outcome(strategy, system);
    let n = choose|n: nat| #[trigger] run(system, first.0, first.1, n) == (Phase::Finished, end);
    if n <= answers.len() {
        law_end_is_final(system, first.0, first.1, n, answers.len());
    } else {
        law_end_is_final(system, first.0, first.1, answers.len(), n);
    }
}

} // verus!
