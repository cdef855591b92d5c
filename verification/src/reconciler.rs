//! The reconciler: one cycle compares the public address with the one last
//! applied and, where they differ, asks for exactly one write to the record
//! store.
//!
//! The reconciler makes no call itself. [`Reconciler::step`] takes what
//! happened (an [`Event`]) and says what to do next (a [`Step`]): either a
//! [`Request`] for the embedding program to perform, or the cycle's
//! [`Outcome`].

use vstd::prelude::*;
use crate::record::{
    kind_a, managed_index, record_models, find_managed, DnsRecord, ErrorKind, Outcome,
    OutcomeModel, RecordModel, Target, TargetModel,
};

verus! {

/// A call that the reconciler asks the embedding program to make.
#[derive(Clone, Debug, PartialEq, Eq)]
pub enum Request {
    /// Ask the address resolver for the current public address.
    ResolveIp,
    /// List all records of the domain.
    ListRecords { domain: String },
    /// Create a record of the given kind, host label and value.
    CreateRecord { domain: String, kind: String, name: String, value: String },
    /// Overwrite the value of the record with this id.
    UpdateRecord { domain: String, id: u64, value: String },
}

/// Model of a [`Request`].
pub enum RequestModel {
    ResolveIp,
    ListRecords { domain: Seq<char> },
    CreateRecord { domain: Seq<char>, kind: Seq<char>, name: Seq<char>, value: Seq<char> },
    UpdateRecord { domain: Seq<char>, id: u64, value: Seq<char> },
}

impl View for Request {
    type V = RequestModel;

    open spec fn view(&self) -> RequestModel {
        match self {
            Request::ResolveIp => RequestModel::ResolveIp,
            Request::ListRecords { domain } => RequestModel::ListRecords { domain: domain@ },
            Request::CreateRecord { domain, kind, name, value } => RequestModel::CreateRecord {
                domain: domain@,
                kind: kind@,
                name: name@,
                value: value@,
            },
            Request::UpdateRecord { domain, id, value } => RequestModel::UpdateRecord {
                domain: domain@,
                id: *id,
                value: value@,
            },
        }
    }
}

impl RequestModel {
    /// A request that changes provider state.
    pub open spec fn is_write(self) -> bool {
        self is CreateRecord || self is UpdateRecord
    }

    /// A request addressed to the record store (anything but address
    /// resolution).
    pub open spec fn is_store_call(self) -> bool {
        !(self is ResolveIp)
    }
}

/// What the embedding program reports back to the reconciler.
#[derive(Debug, PartialEq, Eq)]
pub enum Event {
    /// A new cycle is due.
    Start,
    /// The answer to [`Request::ResolveIp`]: the address as text. The
    /// reconciler compares and hands on this text as it is;
    /// [`crate::resolver::resolve`] is where a response is checked.
    Resolved(Result<String, ErrorKind>),
    /// The answer to [`Request::ListRecords`], in the provider's order.
    Listed(Result<Vec<DnsRecord>, ErrorKind>),
    /// The answer to [`Request::CreateRecord`] or [`Request::UpdateRecord`].
    Written(Result<(), ErrorKind>),
}

/// Model of an [`Event`].
pub enum EventModel {
    Start,
    Resolved(Result<Seq<char>, ErrorKind>),
    Listed(Result<Seq<RecordModel>, ErrorKind>),
    Written(Result<(), ErrorKind>),
}

impl View for Event {
    type V = EventModel;

    open spec fn view(&self) -> EventModel {
        match self {
            Event::Start => EventModel::Start,
            Event::Resolved(Ok(ip)) => EventModel::Resolved(Ok(ip@)),
            Event::Resolved(Err(kind)) => EventModel::Resolved(Err(*kind)),
            Event::Listed(Ok(records)) => EventModel::Listed(Ok(record_models(records@))),
            Event::Listed(Err(kind)) => EventModel::Listed(Err(*kind)),
            Event::Written(Ok(_)) => EventModel::Written(Ok(())),
            Event::Written(Err(kind)) => EventModel::Written(Err(*kind)),
        }
    }
}

/// The reconciler's answer to an event.
#[derive(Clone, Debug, PartialEq, Eq)]
pub enum Step {
    /// Perform this request and report its answer.
    Call(Request),
    /// The cycle is over.
    Done(Outcome),
}

/// Model of a [`Step`].
pub enum StepModel {
    Call(RequestModel),
    Done(OutcomeModel),
}

impl View for Step {
    type V = StepModel;

    open spec fn view(&self) -> StepModel {
        match self {
            Step::Call(request) => StepModel::Call(request@),
            Step::Done(outcome) => StepModel::Done(outcome@),
        }
    }
}

/// Where a cycle stands.
#[derive(Clone, Debug, PartialEq, Eq)]
pub enum Phase {
    /// Between cycles.
    Idle,
    /// Waiting for the public address.
    Resolving,
    /// Waiting for the record listing; `ip` is the address to apply.
    Listing { ip: String },
    /// Waiting for the write to be confirmed; `creating` tells a creation
    /// from an update.
    Writing { ip: String, creating: bool },
}

/// Model of a [`Phase`].
pub enum PhaseModel {
    Idle,
    Resolving,
    Listing { ip: Seq<char> },
    Writing { ip: Seq<char>, creating: bool },
}

impl View for Phase {
    type V = PhaseModel;

    open spec fn view(&self) -> PhaseModel {
        match self {
            Phase::Idle => PhaseModel::Idle,
            Phase::Resolving => PhaseModel::Resolving,
            Phase::Listing { ip } => PhaseModel::Listing { ip: ip@ },
            Phase::Writing { ip, creating } => PhaseModel::Writing {
                ip: ip@,
                creating: *creating,
            },
        }
    }
}

/// Model of a [`Reconciler`]: the target, the address last applied (`None`
/// while unset) and the phase of the running cycle.
pub struct ReconcilerModel {
    pub target: TargetModel,
    pub observed: Option<Seq<char>>,
    pub phase: PhaseModel,
}

impl ReconcilerModel {
    /// The same reconciler between cycles.
    pub open spec fn at_rest(self) -> ReconcilerModel {
        ReconcilerModel { phase: PhaseModel::Idle, ..self }
    }

    /// The same reconciler in another phase.
    pub open spec fn in_phase(self, phase: PhaseModel) -> ReconcilerModel {
        ReconcilerModel { phase, ..self }
    }
}

/// The write that brings the target's record to `ip`: an update of the
/// managed record where the listing holds one, else the creation of an A
/// record for the host label.
pub open spec fn write_request(
    target: TargetModel,
    records: Seq<RecordModel>,
    ip: Seq<char>,
) -> RequestModel {
    match managed_index(records, target.subdomain) {
        Some(i) => RequestModel::UpdateRecord {
            domain: target.domain,
            id: records[i].id,
            value: ip,
        },
        None => RequestModel::CreateRecord {
            domain: target.domain,
            kind: kind_a(),
            name: target.subdomain,
            value: ip,
        },
    }
}

/// The transition relation. `None` where the event does not answer what the
/// reconciler is waiting for; else the next state and the step to take.
pub open spec fn transition(s: ReconcilerModel, e: EventModel) -> Option<
    (ReconcilerModel, StepModel),
> {
    match (s.phase, e) {
        (PhaseModel::Idle, EventModel::Start) => Some(
            (s.in_phase(PhaseModel::Resolving), StepModel::Call(RequestModel::ResolveIp)),
        ),
        (PhaseModel::Resolving, EventModel::Resolved(Err(kind))) => Some(
            (s.at_rest(), StepModel::Done(OutcomeModel::Failed(kind))),
        ),
        (PhaseModel::Resolving, EventModel::Resolved(Ok(ip))) => if s.observed == Some(ip) {
            Some((s.at_rest(), StepModel::Done(OutcomeModel::Unchanged)))
        } else {
            Some(
                (
                    s.in_phase(PhaseModel::Listing { ip }),
                    StepModel::Call(RequestModel::ListRecords { domain: s.target.domain }),
                ),
            )
        },
        (PhaseModel::Listing { ip }, EventModel::Listed(Err(kind))) => Some(
            (s.at_rest(), StepModel::Done(OutcomeModel::Failed(kind))),
        ),
        (PhaseModel::Listing { ip }, EventModel::Listed(Ok(records))) => {
            let request = write_request(s.target, records, ip);
            Some(
                (
                    s.in_phase(PhaseModel::Writing { ip, creating: request is CreateRecord }),
                    StepModel::Call(request),
                ),
            )
        },
        (PhaseModel::Writing { ip, creating }, EventModel::Written(Err(kind))) => Some(
            (s.at_rest(), StepModel::Done(OutcomeModel::Failed(kind))),
        ),
        (PhaseModel::Writing { ip, creating }, EventModel::Written(Ok(_))) => Some(
            (
                ReconcilerModel { observed: Some(ip), phase: PhaseModel::Idle, ..s },
                StepModel::Done(
                    if creating {
                        OutcomeModel::Created(ip)
                    } else {
                        OutcomeModel::Updated(ip)
                    },
                ),
            ),
        ),
        _ => None,
    }
}

/// The view of an optional address.
pub open spec fn observed_model(observed: Option<String>) -> Option<Seq<char>> {
    match observed {
        Some(ip) => Some(ip@),
        None => None,
    }
}

/// The view of an optional step.
pub open spec fn step_model(step: Option<Step>) -> Option<StepModel> {
    match step {
        Some(s) => Some(s@),
        None => None,
    }
}

/// The state that survives between cycles, and the phase of the running one.
#[derive(Clone, Debug, PartialEq, Eq)]
pub struct Reconciler {
    target: Target,
    observed: Option<String>,
    phase: Phase,
}

impl View for Reconciler {
    type V = ReconcilerModel;

    closed spec fn view(&self) -> ReconcilerModel {
        ReconcilerModel {
            target: self.target@,
            observed: observed_model(self.observed),
            phase: self.phase@,
        }
    }
}

impl Reconciler {
    /// A reconciler for `target`, between cycles, with no address applied yet.
    pub fn new(target: Target) -> (r: Reconciler)
        ensures
            r@ == (ReconcilerModel { target: target@, observed: None, phase: PhaseModel::Idle }),
    {
        Reconciler { target, observed: None, phase: Phase::Idle }
    }

    /// The target being kept in sync.
    pub fn target(&self) -> (t: &Target)
        ensures
            t@ == self@.target,
    {
        &self.target
    }

    /// The address last applied, `None` while unset.
    pub fn observed_ip(&self) -> (ip: Option<String>)
        ensures
            observed_model(ip) == self@.observed,
    {
        match &self.observed {
            Some(ip) => Some(ip.clone()),
            None => None,
        }
    }

    /// The phase of the running cycle.
    pub fn phase(&self) -> (p: &Phase)
        ensures
            p@ == self@.phase,
    {
        &self.phase
    }

    /// Whether no cycle is running.
    pub fn is_idle(&self) -> (b: bool)
        ensures
            b == (self@.phase is Idle),
    {
        match &self.phase {
            Phase::Idle => true,
            _ => false,
        }
    }

    /// The write that brings the target's record to `ip`, given the listing.
    fn plan_write(&self, records: &Vec<DnsRecord>, ip: &String) -> (request: Request)
        ensures
            request@ == write_request(self@.target, record_models(records@), ip@),
    {
        match find_managed(records, &self.target.subdomain) {
            Some(i) => {
                assert(record_models(records@)[i as int] == records@[i as int]@);
                Request::UpdateRecord {
                    domain: self.target.domain.clone(),
                    id: records[i].id,
                    value: ip.clone(),
                }
            },
            None => Request::CreateRecord {
                domain: self.target.domain.clone(),
                kind: "A".to_owned(),
                name: self.target.subdomain.clone(),
                value: ip.clone(),
            },
        }
    }

    /// Takes one event and says what to do next.
    ///
    /// An event that does not answer what the reconciler is waiting for is
    /// refused: the result is `None` and nothing changes. Otherwise the
    /// reconciler moves as [`transition`] says and returns its step.
    pub fn step(&mut self, event: Event) -> (result: Option<Step>)
        ensures
            match transition(old(self)@, event@) {
                Some((next, step)) => final(self)@ == next && step_model(result) == Some(step),
                None => final(self)@ == old(self)@ && result.is_none(),
            },
    {
        let mut phase = Phase::Idle;
        core::mem::swap(&mut self.phase, &mut phase);
        match (phase, event) {
            (Phase::Idle, Event::Start) => {
                self.phase = Phase::Resolving;
                Some(Step::Call(Request::ResolveIp))
            },
            (Phase::Resolving, Event::Resolved(Err(kind))) => {
                Some(Step::Done(Outcome::Failed(kind)))
            },
            (Phase::Resolving, Event::Resolved(Ok(ip))) => {
                let unchanged = match &self.observed {
                    Some(last) => *last == ip,
                    None => false,
                };
                if unchanged {
                    Some(Step::Done(Outcome::Unchanged))
                } else {
                    let domain = self.target.domain.clone();
                    self.phase = Phase::Listing { ip };
                    Some(Step::Call(Request::ListRecords { domain }))
                }
            },
            (Phase::Listing { ip }, Event::Listed(Err(kind))) => {
                Some(Step::Done(Outcome::Failed(kind)))
            },
            (Phase::Listing { ip }, Event::Listed(Ok(records))) => {
                let request = self.plan_write(&records, &ip);
                let creating = match &request {
                    Request::CreateRecord { .. } => true,
                    _ => false,
                };
                self.phase = Phase::Writing { ip, creating };
                Some(Step::Call(request))
            },
            (Phase::Writing { ip, creating }, Event::Written(Err(kind))) => {
                Some(Step::Done(Outcome::Failed(kind)))
            },
            (Phase::Writing { ip, creating }, Event::Written(Ok(_))) => {
                self.observed = Some(ip.clone());
                if creating {
                    Some(Step::Done(Outcome::Created(ip)))
                } else {
                    Some(Step::Done(Outcome::Updated(ip)))
                }
            },
            (before, _) => {
                self.phase = before;
                None
            },
        }
    }
}

} // verus!
