//! Plain data: the target being kept in sync, provider records, error kinds
//! and cycle outcomes, each with its mathematical model.

use vstd::prelude::*;

verus! {

/// Why a call to the address resolver or to the record store failed.
#[derive(Clone, Copy, Debug, PartialEq, Eq, Structural)]
pub enum ErrorKind {
    /// Transport failure, timeout or non-success response.
    Network,
    /// The provider credential is invalid or expired.
    Auth,
    /// The domain or the record id is unknown to the provider.
    NotFound,
    /// The provider refused a creation because of conflicting state.
    Conflict,
    /// The resolver's answer is not an address.
    Parse,
}

/// The (domain, host label) pair whose record is managed.
#[derive(Clone, Debug, PartialEq, Eq)]
pub struct Target {
    pub domain: String,
    pub subdomain: String,
}

/// Model of a [`Target`].
pub struct TargetModel {
    pub domain: Seq<char>,
    pub subdomain: Seq<char>,
}

impl View for Target {
    type V = TargetModel;

    open spec fn view(&self) -> TargetModel {
        TargetModel { domain: self.domain@, subdomain: self.subdomain@ }
    }
}

/// A record as the provider lists it.
#[derive(Clone, Debug, PartialEq, Eq)]
pub struct DnsRecord {
    pub id: u64,
    pub name: String,
    pub kind: String,
    pub value: String,
}

/// Model of a [`DnsRecord`].
pub struct RecordModel {
    pub id: u64,
    pub name: Seq<char>,
    pub kind: Seq<char>,
    pub value: Seq<char>,
}

impl View for DnsRecord {
    type V = RecordModel;

    open spec fn view(&self) -> RecordModel {
        RecordModel { id: self.id, name: self.name@, kind: self.kind@, value: self.value@ }
    }
}

/// The models of a list of records, in listing order.
pub open spec fn record_models(records: Seq<DnsRecord>) -> Seq<RecordModel> {
    Seq::new(records.len(), |i: int| records[i]@)
}

/// What one reconciliation cycle came to.
#[derive(Clone, Debug, PartialEq, Eq)]
pub enum Outcome {
    /// The public address equals the one last applied; nothing was written.
    Unchanged,
    /// An existing record now holds this address.
    Updated(String),
    /// A new record was created with this address.
    Created(String),
    /// The cycle stopped at a failed call.
    Failed(ErrorKind),
}

/// Model of an [`Outcome`].
pub enum OutcomeModel {
    Unchanged,
    Updated(Seq<char>),
    Created(Seq<char>),
    Failed(ErrorKind),
}

impl View for Outcome {
    type V = OutcomeModel;

    open spec fn view(&self) -> OutcomeModel {
        match self {
            Outcome::Unchanged => OutcomeModel::Unchanged,
            Outcome::Updated(ip) => OutcomeModel::Updated(ip@),
            Outcome::Created(ip) => OutcomeModel::Created(ip@),
            Outcome::Failed(kind) => OutcomeModel::Failed(*kind),
        }
    }
}

/// The record kind that maps a name to an IPv4 address.
pub open spec fn kind_a() -> Seq<char> {
    "A"@
}

/// The record kind that maps a name to another name.
pub open spec fn kind_cname() -> Seq<char> {
    "CNAME"@
}

/// A record is a candidate for `host` when it carries that host label and is
/// of kind A or CNAME.
pub open spec fn is_managed(record: RecordModel, host: Seq<char>) -> bool {
    record.name == host && (record.kind == kind_a() || record.kind == kind_cname())
}

/// `i` is the position of the first candidate for `host` in `records`.
pub open spec fn is_first_managed(records: Seq<RecordModel>, host: Seq<char>, i: int) -> bool {
    &&& 0 <= i < records.len()
    &&& is_managed(records[i], host)
    &&& forall|j: int| 0 <= j < i ==> !is_managed(#[trigger] records[j], host)
}

/// The position of the managed record: the first candidate in listing order,
/// if there is one.
pub open spec fn managed_index(records: Seq<RecordModel>, host: Seq<char>) -> Option<int> {
    if exists|i: int| is_first_managed(records, host, i) {
        Some(choose|i: int| is_first_managed(records, host, i))
    } else {
        None
    }
}

/// There is at most one first candidate.
pub proof fn lemma_first_managed_unique(
    records: Seq<RecordModel>,
    host: Seq<char>,
    i: int,
    j: int,
)
    requires
        is_first_managed(records, host, i),
        is_first_managed(records, host, j),
    ensures
        i == j,
{
    if i < j {
        assert(!is_managed(records[i], host));
    } else if j < i {
        assert(!is_managed(records[j], host));
    }
}

impl DnsRecord {
    /// Whether this record is a candidate for the host label `host`.
    pub fn is_managed_for(&self, host: &String) -> (b: bool)
        ensures
            b == is_managed(self@, host@),
    {
        if self.name != *host {
            return false;
        }
        let a: String = "A".to_owned();
        let cname: String = "CNAME".to_owned();
        self.kind == a || self.kind == cname
    }
}

/// Finds the managed record for `host`: the first record in listing order that
/// carries the host label and is of kind A or CNAME.
pub fn find_managed(records: &Vec<DnsRecord>, host: &String) -> (found: Option<usize>)
    ensures
        match found {
            Some(i) => managed_index(record_models(records@), host@) == Some(i as int),
            None => managed_index(record_models(records@), host@).is_none(),
        },
        found matches Some(i) ==> is_first_managed(record_models(records@), host@, i as int),
        found.is_none() ==> forall|j: int|
            0 <= j < records.len() ==> !is_managed(#[trigger] records@[j]@, host@),
{
    let ghost models = record_models(records@);
    let mut i: usize = 0;
    while i < records.len()
        invariant
            0 <= i <= records.len(),
            models == record_models(records@),
            forall|j: int| 0 <= j < i ==> !is_managed(#[trigger] models[j], host@),
        decreases records.len() - i,
    {
        if records[i].is_managed_for(host) {
            proof {
                assert(models[i as int] == records@[i as int]@);
                assert(is_first_managed(models, host@, i as int));
                let k = choose|k: int| is_first_managed(models, host@, k);
                lemma_first_managed_unique(models, host@, i as int, k);
            }
            return Some(i);
        }
        assert(models[i as int] == records@[i as int]@);
        i += 1;
    }
    proof {
        assert forall|k: int| !is_first_managed(models, host@, k) by {
            if 0 <= k < models.len() {
                assert(!is_managed(models[k], host@));
            }
        }
        assert forall|j: int| 0 <= j < records.len() implies !is_managed(
            #[trigger] records@[j]@,
            host@,
        ) by {
            assert(models[j] == records@[j]@);
        }
    }
    None
}

} // verus!
