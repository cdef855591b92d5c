//! The record store's failures, as the reconciler reports them.

use vstd::prelude::*;
use crate::record::ErrorKind;
use crate::reconciler::{Request, RequestModel};

verus! {

/// How a call to the provider failed, as the provider's client tells it.
#[derive(Clone, Copy, Debug, PartialEq, Eq, Structural)]
pub enum StoreFault {
    /// The provider does not know the domain or the record.
    NotFound,
    /// The provider refused the credential.
    Unauthorized,
    /// The provider understood the request and refused to carry it out.
    Unprocessable,
    /// The provider answered with a status that the client does not know.
    UnexpectedStatus(u16),
    /// No answer: connection failure or timeout.
    Transport,
}

/// The error kind of a failed call. An unknown domain or record is
/// `NotFound`, a refused credential is `Auth`, a refused creation is
/// `Conflict`; everything else is `Network`.
pub open spec fn fault_kind(fault: StoreFault, request: RequestModel) -> ErrorKind {
    match fault {
        StoreFault::NotFound => ErrorKind::NotFound,
        StoreFault::Unauthorized => ErrorKind::Auth,
        StoreFault::Unprocessable => if request is CreateRecord {
            ErrorKind::Conflict
        } else {
            ErrorKind::Network
        },
        StoreFault::UnexpectedStatus(_) => ErrorKind::Network,
        StoreFault::Transport => ErrorKind::Network,
    }
}

impl StoreFault {
    /// The error kind to report where `request` failed with this fault.
    pub fn kind_for(self, request: &Request) -> (kind: ErrorKind)
        ensures
            kind == fault_kind(self, request@),
    {
        match self {
            StoreFault::NotFound => ErrorKind::NotFound,
            StoreFault::Unauthorized => ErrorKind::Auth,
            StoreFault::Unprocessable => match request {
                Request::CreateRecord { .. } => ErrorKind::Conflict,
                _ => ErrorKind::Network,
            },
            StoreFault::UnexpectedStatus(_) => ErrorKind::Network,
            StoreFault::Transport => ErrorKind::Network,
        }
    }
}

} // verus!
