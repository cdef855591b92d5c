//! What holds of every reconciliation cycle, stated over the transition
//! relation and proved.
//!
//! A cycle is modelled by driving the reconciler from [`EventModel::Start`]
//! and answering each request it makes from a fixed set of [`Answers`], until
//! it reports an outcome.

use vstd::prelude::*;
use crate::record::{
    is_first_managed, is_managed, kind_a, lemma_first_managed_unique, ErrorKind, OutcomeModel,
    RecordModel,
};
use crate::reconciler::{
    transition, write_request, EventModel, PhaseModel, ReconcilerModel, RequestModel, StepModel,
};
use crate::scheduler::{schedule, CommandModel, SchedulerModel};

verus! {

/// What the outside world answers during one cycle: the resolver, the
/// listing, and the write.
pub struct Answers {
    pub resolved: Result<Seq<char>, ErrorKind>,
    pub listed: Result<Seq<RecordModel>, ErrorKind>,
    pub written: Result<(), ErrorKind>,
}

/// One finished cycle: the state it leaves, the requests it made in order,
/// and its outcome.
pub struct CycleModel {
    pub end: ReconcilerModel,
    pub requests: Seq<RequestModel>,
    pub outcome: OutcomeModel,
}

/// The event that answers `request`.
pub open spec fn answer_to(request: RequestModel, answers: Answers) -> EventModel {
    match request {
        RequestModel::ResolveIp => EventModel::Resolved(answers.resolved),
        RequestModel::ListRecords { .. } => EventModel::Listed(answers.listed),
        RequestModel::CreateRecord { .. } => EventModel::Written(answers.written),
        RequestModel::UpdateRecord { .. } => EventModel::Written(answers.written),
    }
}

/// Feeds `e` to the reconciler and keeps answering its requests, at most
/// `calls` of them, until it reports an outcome. `None` where an event is
/// refused or the outcome does not come within `calls` requests.
pub open spec fn drive(s: ReconcilerModel, e: EventModel, answers: Answers, calls: nat) -> Option<
    CycleModel,
>
    decreases calls,
{
    match transition(s, e) {
        None => None,
        Some((next, StepModel::Done(outcome))) => Some(
            CycleModel { end: next, requests: Seq::empty(), outcome },
        ),
        Some((next, StepModel::Call(request))) => if calls == 0 {
            None
        } else {
            match drive(next, answer_to(request, answers), answers, (calls - 1) as nat) {
                Some(rest) => Some(
                    CycleModel { requests: seq![request].add(rest.requests), ..rest },
                ),
                None => None,
            }
        },
    }
}

/// One whole cycle from rest: no cycle needs more than three requests.
pub open spec fn run_cycle(s: ReconcilerModel, answers: Answers) -> Option<CycleModel> {
    drive(s, EventModel::Start, answers, 3)
}

/// What a cycle comes to, said directly: a failed call ends it with that
/// failure; an address equal to the one last applied ends it after the
/// resolver; otherwise the records are listed and one write is made, and
/// only a confirmed write moves the applied address.
pub open spec fn reconcile(s: ReconcilerModel, answers: Answers) -> CycleModel {
    let resolve = RequestModel::ResolveIp;
    let list = RequestModel::ListRecords { domain: s.target.domain };
    match answers.resolved {
        Err(kind) => CycleModel {
            end: s.at_rest(),
            requests: seq![resolve],
            outcome: OutcomeModel::Failed(kind),
        },
        Ok(ip) => if s.observed == Some(ip) {
            CycleModel {
                end: s.at_rest(),
                requests: seq![resolve],
                outcome: OutcomeModel::Unchanged,
            }
        } else {
            match answers.listed {
                Err(kind) => CycleModel {
                    end: s.at_rest(),
                    requests: seq![resolve, list],
                    outcome: OutcomeModel::Failed(kind),
                },
                Ok(records) => {
                    let write = write_request(s.target, records, ip);
                    match answers.written {
                        Err(kind) => CycleModel {
                            end: s.at_rest(),
                            requests: seq![resolve, list, write],
                            outcome: OutcomeModel::Failed(kind),
                        },
                        Ok(_) => CycleModel {
                            end: ReconcilerModel { observed: Some(ip), ..s.at_rest() },
                            requests: seq![resolve, list, write],
                            outcome: if write is CreateRecord {
                                OutcomeModel::Created(ip)
                            } else {
                                OutcomeModel::Updated(ip)
                            },
                        },
                    }
                },
            }
        },
    }
}

/// The number of writes (creations and updates) among `requests`.
pub open spec fn write_count(requests: Seq<RequestModel>) -> nat
    decreases requests.len(),
{
    if requests.len() == 0 {
        0
    } else {
        write_count(requests.drop_last()) + if requests.last().is_write() {
            1nat
        } else {
            0nat
        }
    }
}

/// The number of requests to the record store among `requests`.
pub open spec fn store_call_count(requests: Seq<RequestModel>) -> nat
    decreases requests.len(),
{
    if requests.len() == 0 {
        0
    } else {
        store_call_count(requests.drop_last()) + if requests.last().is_store_call() {
            1nat
        } else {
            0nat
        }
    }
}

/// Driving the reconciler from rest always ends, within three requests, in
/// exactly the cycle that [`reconcile`] describes; the reconciler is at rest
/// again and its target is the same.
pub proof fn lemma_cycle_is_reconcile(s: ReconcilerModel, answers: Answers)
    requires
        s.phase is Idle,
    ensures
        run_cycle(s, answers) == Some(reconcile(s, answers)),
        reconcile(s, answers).end.phase is Idle,
        reconcile(s, answers).end.target == s.target,
{
    reveal_with_fuel(drive, 5);
    let c = reconcile(s, answers);
    let r = run_cycle(s, answers);
    assert(s.at_rest() == s);
    assert(r is Some);
    assert(r.unwrap().requests =~= c.requests);
}

/// The state after several cycles in a row, one per entry of `answers`, and
/// every request made on the way.
pub struct RunModel {
    pub end: ReconcilerModel,
    pub requests: Seq<RequestModel>,
}

/// Runs one cycle per entry of `answers`, in order, each from the state the
/// one before left.
pub open spec fn run_cycles(s: ReconcilerModel, answers: Seq<Answers>) -> RunModel
    decreases answers.len(),
{
    if answers.len() == 0 {
        RunModel { end: s, requests: Seq::empty() }
    } else {
        let before = run_cycles(s, answers.drop_last());
        let cycle = reconcile(before.end, answers.last());
        RunModel { end: cycle.end, requests: before.requests.add(cycle.requests) }
    }
}

/// Idempotence. While the resolver reports the address last applied, a cycle
/// asks the resolver and nothing else: it makes no request to the record
/// store, reports `Unchanged` and leaves the state as it was.
pub proof fn law_unchanged_address_makes_no_store_call(
    s: ReconcilerModel,
    ip: Seq<char>,
    answers: Answers,
)
    requires
        s.phase is Idle,
        s.observed == Some(ip),
        answers.resolved == Ok::<Seq<char>, ErrorKind>(ip),
    ensures
        run_cycle(s, answers) == Some(
            CycleModel {
                end: s,
                requests: seq![RequestModel::ResolveIp],
                outcome: OutcomeModel::Unchanged,
            },
        ),
        store_call_count(run_cycle(s, answers).unwrap().requests) == 0,
{
    lemma_cycle_is_reconcile(s, answers);
    assert(s.at_rest() == s);
    let requests = seq![RequestModel::ResolveIp];
    assert(requests.drop_last() =~= Seq::<RequestModel>::empty());
    assert(store_call_count(requests.drop_last()) == 0);
    assert(!requests.last().is_store_call());
}

/// Idempotence over any number of cycles. However often the cycle is
/// repeated while the resolver reports the address last applied, the state
/// stays as it was and no request ever goes to the record store.
pub proof fn law_unchanged_address_repeated(
    s: ReconcilerModel,
    ip: Seq<char>,
    answers: Seq<Answers>,
)
    requires
        s.phase is Idle,
        s.observed == Some(ip),
        forall|k: int|
            0 <= k < answers.len() ==> (#[trigger] answers[k]).resolved == Ok::<
                Seq<char>,
                ErrorKind,
            >(ip),
    ensures
        run_cycles(s, answers).end == s,
        forall|k: int|
            0 <= k < run_cycles(s, answers).requests.len() ==> !(#[trigger] run_cycles(
                s,
                answers,
            ).requests[k]).is_store_call(),
    decreases answers.len(),
{
    if answers.len() > 0 {
        law_unchanged_address_repeated(s, ip, answers.drop_last());
        assert(s.at_rest() == s);
        assert(answers.last() == answers[answers.len() - 1]);
    }
}

/// Change detection. Where the resolved address differs from the one last
/// applied and the listing succeeds, the cycle makes exactly three requests:
/// the resolver, the listing, and one write, which is the only write of the
/// cycle.
pub proof fn law_changed_address_makes_one_write(
    s: ReconcilerModel,
    ip: Seq<char>,
    answers: Answers,
)
    requires
        s.phase is Idle,
        s.observed != Some(ip),
        answers.resolved == Ok::<Seq<char>, ErrorKind>(ip),
        answers.listed is Ok,
    ensures
        run_cycle(s, answers) is Some,
        run_cycle(s, answers).unwrap().requests == seq![
            RequestModel::ResolveIp,
            RequestModel::ListRecords { domain: s.target.domain },
            write_request(s.target, answers.listed.unwrap(), ip),
        ],
        write_count(run_cycle(s, answers).unwrap().requests) == 1,
{
    lemma_cycle_is_reconcile(s, answers);
    let requests = reconcile(s, answers).requests;
    let two = requests.drop_last();
    let one = two.drop_last();
    assert(requests.len() == 3);
    assert(requests.last().is_write());
    assert(!two.last().is_write());
    assert(!one.last().is_write());
    assert(write_count(one.drop_last()) == 0);
    assert(write_count(one) == 0);
    assert(write_count(two) == 0);
}

/// A cycle that fails before the write makes no write at all.
pub proof fn law_failed_lookup_makes_no_write(s: ReconcilerModel, answers: Answers)
    requires
        s.phase is Idle,
        answers.resolved is Err || answers.listed is Err,
    ensures
        run_cycle(s, answers) is Some,
        write_count(run_cycle(s, answers).unwrap().requests) == 0,
        run_cycle(s, answers).unwrap().end == s,
{
    lemma_cycle_is_reconcile(s, answers);
    assert(s.at_rest() == s);
    let requests = reconcile(s, answers).requests;
    if requests.len() == 2 {
        let one = requests.drop_last();
        assert(!requests.last().is_write());
        assert(!one.last().is_write());
        assert(write_count(one.drop_last()) == 0);
        assert(write_count(one) == 0);
    } else {
        assert(requests.len() == 1);
        assert(!requests.last().is_write());
        assert(write_count(requests.drop_last()) == 0);
    }
}

/// Selection, first half. Where `i` is the first record in the listing that
/// carries the target's host label and is of kind A or CNAME, the write is an
/// update of exactly that record's id.
pub proof fn law_managed_record_is_updated(
    s: ReconcilerModel,
    records: Seq<RecordModel>,
    ip: Seq<char>,
    i: int,
)
    requires
        is_first_managed(records, s.target.subdomain, i),
    ensures
        write_request(s.target, records, ip) == (RequestModel::UpdateRecord {
            domain: s.target.domain,
            id: records[i].id,
            value: ip,
        }),
{
    let k = choose|k: int| is_first_managed(records, s.target.subdomain, k);
    lemma_first_managed_unique(records, s.target.subdomain, i, k);
}

/// Selection, second half. Where no record in the listing carries the
/// target's host label with kind A or CNAME (an empty listing among them),
/// the write is the creation of an A record for the host label.
pub proof fn law_missing_record_is_created(
    s: ReconcilerModel,
    records: Seq<RecordModel>,
    ip: Seq<char>,
)
    requires
        forall|j: int|
            0 <= j < records.len() ==> !is_managed(#[trigger] records[j], s.target.subdomain),
    ensures
        write_request(s.target, records, ip) == (RequestModel::CreateRecord {
            domain: s.target.domain,
            kind: kind_a(),
            name: s.target.subdomain,
            value: ip,
        }),
{
    assert forall|k: int| !is_first_managed(records, s.target.subdomain, k) by {
        if 0 <= k < records.len() {
            assert(!is_managed(records[k], s.target.subdomain));
        }
    }
}

/// Failure isolation. A failed write leaves the state as it was, the address
/// last applied included, and the next cycle that resolves the same address
/// and gets a listing makes the write again.
pub proof fn law_failed_write_is_retried(
    s: ReconcilerModel,
    ip: Seq<char>,
    first: Answers,
    second: Answers,
)
    requires
        s.phase is Idle,
        s.observed != Some(ip),
        first.resolved == Ok::<Seq<char>, ErrorKind>(ip),
        first.listed is Ok,
        first.written is Err,
        second.resolved == first.resolved,
        second.listed is Ok,
    ensures
        run_cycle(s, first) is Some,
        run_cycle(s, first).unwrap().end == s,
        run_cycle(s, first).unwrap().outcome == OutcomeModel::Failed(first.written->Err_0),
        run_cycle(run_cycle(s, first).unwrap().end, second) is Some,
        run_cycle(run_cycle(s, first).unwrap().end, second).unwrap().requests == seq![
            RequestModel::ResolveIp,
            RequestModel::ListRecords { domain: s.target.domain },
            write_request(s.target, second.listed.unwrap(), ip),
        ],
        write_request(s.target, second.listed.unwrap(), ip).is_write(),
{
    lemma_cycle_is_reconcile(s, first);
    assert(s.at_rest() == s);
    lemma_cycle_is_reconcile(s, second);
}

/// Only a confirmed write moves the address last applied: after a cycle it
/// is the resolved address where the outcome is `Created` or `Updated`, and
/// the old one in every other case.
pub proof fn law_observed_follows_confirmed_writes(s: ReconcilerModel, answers: Answers)
    requires
        s.phase is Idle,
    ensures
        run_cycle(s, answers) is Some,
        match run_cycle(s, answers).unwrap().outcome {
            OutcomeModel::Created(ip) => answers.resolved == Ok::<Seq<char>, ErrorKind>(ip)
                && run_cycle(s, answers).unwrap().end.observed == Some(ip),
            OutcomeModel::Updated(ip) => answers.resolved == Ok::<Seq<char>, ErrorKind>(ip)
                && run_cycle(s, answers).unwrap().end.observed == Some(ip),
            _ => run_cycle(s, answers).unwrap().end == s,
        },
{
    lemma_cycle_is_reconcile(s, answers);
    assert(s.at_rest() == s);
}

/// No phase is a dead end: whatever the reconciler is waiting for, the event
/// that answers it is accepted, and no other kind of event is.
pub proof fn law_every_phase_accepts_its_answer(s: ReconcilerModel, e: EventModel)
    ensures
        transition(s, e) is Some <==> match s.phase {
            PhaseModel::Idle => e is Start,
            PhaseModel::Resolving => e is Resolved,
            PhaseModel::Listing { .. } => e is Listed,
            PhaseModel::Writing { .. } => e is Written,
        },
        transition(s, e) matches Some((next, step)) ==> {
            &&& next.target == s.target
            &&& (step is Done <==> next.phase is Idle)
            &&& (next.observed != s.observed ==> (step matches StepModel::Done(outcome) && (outcome
                is Created || outcome is Updated)))
        },
{
}

/// The loop never stops and never changes pace. An idle scheduler accepts
/// the tick; whenever a cycle ends, with whatever outcome, the command is a
/// wait of the configured interval, the cadence is unchanged and the
/// scheduler is idle again.
pub proof fn law_every_outcome_waits_the_interval(s: SchedulerModel, e: EventModel)
    ensures
        s.reconciler.phase is Idle ==> schedule(s, EventModel::Start) is Some,
        schedule(s, e) matches Some((next, command)) ==> {
            &&& next.interval_secs == s.interval_secs
            &&& next.reconciler.target == s.reconciler.target
            &&& command matches CommandModel::Wait { outcome, seconds } ==> {
                &&& seconds == s.interval_secs
                &&& next.reconciler.phase is Idle
                &&& schedule(next, EventModel::Start) is Some
            }
        },
{
}

} // verus!
