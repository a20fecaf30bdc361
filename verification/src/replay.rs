//! The replay guard: one execution record per intent identifier, created
//! when the identifier is first seen and settled exactly once.

use crate::bytes::{copy_range, same_bytes};
use vstd::prelude::*;

verus! {

/// Where the execution of an intent stands.
#[derive(Debug, Clone, Copy, PartialEq, Eq, Structural)]
pub enum ExecutionStatus {
    /// Reserved; the outcome is not known yet.
    Pending,
    /// The adapter produced an outcome.
    Succeeded,
    /// No adapter was found, or the adapter failed.
    Failed,
}

/// What is kept of the result once a record is settled.
#[derive(Debug, Clone, Copy, PartialEq, Eq, Structural)]
pub enum ResultSummary {
    /// Nothing yet: the record is pending.
    Unsettled,
    /// The adapter returned an outcome of `outcome_len` bytes.
    Completed { outcome_len: usize },
    /// No adapter was registered for the action.
    UnknownAction,
    /// The adapter failed with `code`.
    AdapterFailed { code: u32 },
}

/// Why an identifier could not be reserved.
#[derive(Debug, Clone, Copy, PartialEq, Eq, Structural)]
pub enum ReplayError {
    /// A record for the identifier exists already, in whatever state.
    Duplicate,
}

/// What the guard knows of one identifier.
#[derive(Debug, Clone, Copy, PartialEq, Eq, Structural)]
pub struct RecordState {
    pub status: ExecutionStatus,
    pub summary: ResultSummary,
}

/// The record of one intent.
#[derive(Debug)]
pub struct ExecutionRecord {
    pub id: Vec<u8>,
    pub status: ExecutionStatus,
    pub result_summary: ResultSummary,
}

impl ExecutionRecord {
    /// The status and summary of the record.
    pub open spec fn state(&self) -> RecordState {
        RecordState { status: self.status, summary: self.result_summary }
    }
}

/// The guard's records as a map from identifier to state.
pub type Ledger = Map<Seq<u8>, RecordState>;

/// The state of a record that was reserved and not yet settled.
pub open spec fn pending() -> RecordState {
    RecordState { status: ExecutionStatus::Pending, summary: ResultSummary::Unsettled }
}

/// The ledger after an attempt to reserve `id`: unchanged where `id` has a
/// record, and with a pending record for `id` where it has none.
pub open spec fn ledger_after_reserve(ledger: Ledger, id: Seq<u8>) -> Ledger {
    if ledger.contains_key(id) {
        ledger
    } else {
        ledger.insert(id, pending())
    }
}

/// What an attempt to reserve `id` answers.
pub open spec fn reserve_answer(ledger: Ledger, id: Seq<u8>) -> Result<(), ReplayError> {
    if ledger.contains_key(id) {
        Err(ReplayError::Duplicate)
    } else {
        Ok(())
    }
}

/// Whether the record of `id` may be settled: it exists and is pending.
pub open spec fn can_finalize(ledger: Ledger, id: Seq<u8>) -> bool {
    ledger.contains_key(id) && ledger[id].status == ExecutionStatus::Pending
}

/// Of two attempts to reserve the same identifier, made one after the other
/// in either order, the second always answers `Duplicate` and changes
/// nothing; the first succeeds exactly when the identifier had no record.
/// So on a fresh identifier exactly one of the two succeeds.
pub proof fn lemma_second_reservation_is_duplicate(ledger: Ledger, id: Seq<u8>)
    ensures
        reserve_answer(ledger, id) is Ok <==> !ledger.contains_key(id),
        reserve_answer(ledger_after_reserve(ledger, id), id) == Err::<(), ReplayError>(
            ReplayError::Duplicate,
        ),
        ledger_after_reserve(ledger_after_reserve(ledger, id), id) == ledger_after_reserve(
            ledger,
            id,
        ),
        !ledger.contains_key(id) ==> reserve_answer(ledger, id) is Ok && reserve_answer(
            ledger_after_reserve(ledger, id),
            id,
        ) is Err,
{
}

/// Reserving one identifier leaves the record of every other one as it was.
pub proof fn lemma_reservation_is_local(ledger: Ledger, id: Seq<u8>, other: Seq<u8>)
    requires
        other != id,
    ensures
        ledger_after_reserve(ledger, id).contains_key(other) == ledger.contains_key(other),
        ledger.contains_key(other) ==> ledger_after_reserve(ledger, id)[other] == ledger[other],
{
}

/// The ledger that a sequence of records stands for. Where an identifier
/// occurred twice the later record would count; a guard never holds such a
/// sequence.
pub open spec fn ledger_of(records: Seq<ExecutionRecord>) -> Ledger
    decreases records.len(),
{
    if records.len() == 0 {
        Map::empty()
    } else {
        ledger_of(records.drop_last()).insert(records.last().id@, records.last().state())
    }
}

/// No identifier occurs in two records.
pub open spec fn distinct_ids(records: Seq<ExecutionRecord>) -> bool {
    forall|i: int, j: int|
        0 <= i < records.len() && 0 <= j < records.len() && i != j ==> records[i].id@
            != records[j].id@
}

/// An identifier has an entry in the ledger exactly when some record
/// carries it.
proof fn lemma_ledger_domain(records: Seq<ExecutionRecord>, id: Seq<u8>)
    ensures
        ledger_of(records).contains_key(id) <==> exists|i: int|
            0 <= i < records.len() && #[trigger] records[i].id@ == id,
        ledger_of(records).dom().finite(),
    decreases records.len(),
{
    if records.len() > 0 {
        let front = records.drop_last();
        lemma_ledger_domain(front, id);
        if ledger_of(records).contains_key(id) {
            if records.last().id@ == id {
                assert(records[records.len() - 1].id@ == id);
            } else {
                let i = choose|i: int| 0 <= i < front.len() && #[trigger] front[i].id@ == id;
                assert(records[i].id@ == id);
            }
        }
        if exists|i: int| 0 <= i < records.len() && #[trigger] records[i].id@ == id {
            let i = choose|i: int| 0 <= i < records.len() && #[trigger] records[i].id@ == id;
            if i < front.len() {
                assert(front[i].id@ == id);
            }
        }
    }
}

/// With distinct identifiers, the ledger gives each record's own state.
proof fn lemma_ledger_value(records: Seq<ExecutionRecord>, at: int)
    requires
        distinct_ids(records),
        0 <= at < records.len(),
    ensures
        ledger_of(records).contains_key(records[at].id@),
        ledger_of(records)[records[at].id@] == records[at].state(),
    decreases records.len(),
{
    let front = records.drop_last();
    if at < records.len() - 1 {
        assert(distinct_ids(front)) by {
            assert forall|i: int, j: int|
                0 <= i < front.len() && 0 <= j < front.len() && i != j implies front[i].id@
                != front[j].id@ by {
                assert(records[i].id@ != records[j].id@);
            }
        }
        lemma_ledger_value(front, at);
        assert(front[at] == records[at]);
        assert(records[at].id@ != records[records.len() - 1].id@);
    }
}

/// Replacing a record by one with the same identifier keeps the identifiers
/// distinct and changes the ledger at that identifier only.
proof fn lemma_ledger_update(records: Seq<ExecutionRecord>, at: int, record: ExecutionRecord)
    requires
        distinct_ids(records),
        0 <= at < records.len(),
        record.id@ == records[at].id@,
    ensures
        distinct_ids(records.update(at, record)),
        ledger_of(records.update(at, record)) == ledger_of(records).insert(
            record.id@,
            record.state(),
        ),
    decreases records.len(),
{
    let changed = records.update(at, record);
    assert(distinct_ids(changed)) by {
        assert forall|i: int, j: int|
            0 <= i < changed.len() && 0 <= j < changed.len() && i != j implies changed[i].id@
            != changed[j].id@ by {
            assert(records[i].id@ != records[j].id@);
        }
    }
    let front = records.drop_last();
    let last = records.len() - 1;
    if at == last {
        assert(changed.drop_last() =~= front);
        assert(ledger_of(changed) =~= ledger_of(records).insert(record.id@, record.state()));
    } else {
        assert(distinct_ids(front)) by {
            assert forall|i: int, j: int|
                0 <= i < front.len() && 0 <= j < front.len() && i != j implies front[i].id@
                != front[j].id@ by {
                assert(records[i].id@ != records[j].id@);
            }
        }
        lemma_ledger_update(front, at, record);
        assert(changed.drop_last() =~= front.update(at, record));
        assert(changed.last() == records.last());
        assert(records[at].id@ != records[last].id@);
        assert(ledger_of(changed) =~= ledger_of(records).insert(record.id@, record.state()));
    }
}

/// With distinct identifiers, the ledger has one entry for each record.
proof fn lemma_ledger_len(records: Seq<ExecutionRecord>)
    requires
        distinct_ids(records),
    ensures
        ledger_of(records).dom().finite(),
        ledger_of(records).len() == records.len(),
    decreases records.len(),
{
    if records.len() == 0 {
        assert(ledger_of(records).dom() =~= Set::<Seq<u8>>::empty());
    } else {
        let front = records.drop_last();
        let last = records.last();
        assert(distinct_ids(front)) by {
            assert forall|i: int, j: int|
                0 <= i < front.len() && 0 <= j < front.len() && i != j implies front[i].id@
                != front[j].id@ by {
                assert(records[i].id@ != records[j].id@);
            }
        }
        lemma_ledger_len(front);
        lemma_ledger_domain(front, last.id@);
        if ledger_of(front).contains_key(last.id@) {
            let i = choose|i: int| 0 <= i < front.len() && #[trigger] front[i].id@ == last.id@;
            assert(records[i].id@ == records[records.len() - 1].id@);
        }
        assert(ledger_of(records).dom() =~= ledger_of(front).dom().insert(last.id@));
    }
}

/// Tracks which intents were seen and how their execution ended.
///
/// Its view is the [`Ledger`] of its records. No identifier has two
/// records.
#[derive(Debug)]
pub struct ReplayGuard {
    records: Vec<ExecutionRecord>,
}

impl View for ReplayGuard {
    type V = Ledger;

    closed spec fn view(&self) -> Ledger {
        ledger_of(self.records@)
    }
}

impl ReplayGuard {
    #[verifier::type_invariant]
    spec fn well_formed(self) -> bool {
        distinct_ids(self.records@)
    }

    /// A guard that has seen nothing.
    pub fn new() -> (guard: ReplayGuard)
        ensures
            guard@ == Map::<Seq<u8>, RecordState>::empty(),
    {
        ReplayGuard { records: Vec::new() }
    }

    /// Position of the record of `id`, if there is one.
    #[verifier::loop_isolation(false)]
    fn position(&self, id: &[u8]) -> (found: Option<usize>)
        ensures
            distinct_ids(self.records@),
            found is Some <==> self@.contains_key(id@),
            found matches Some(at) ==> at < self.records@.len() && self.records@[at as int].id@
                == id@ && self@[id@] == self.records@[at as int].state(),
    {
        proof {
            use_type_invariant(self);
            lemma_ledger_domain(self.records@, id@);
        }
        let mut at: usize = 0;
        while at < self.records.len()
            invariant
                at <= self.records@.len(),
                forall|k: int| 0 <= k < at ==> self.records@[k].id@ != id@,
            decreases self.records@.len() - at,
        {
            if same_bytes(self.records[at].id.as_slice(), id) {
                proof {
                    lemma_ledger_value(self.records@, at as int);
                }
                return Some(at);
            }
            at = at + 1;
        }
        None
    }

    /// Tests whether `id` has a record and, where it has none, creates one
    /// in state `Pending`.
    ///
    /// Answers `Duplicate`, and changes nothing, where a record exists in
    /// any state. The test and the creation are one step: the exclusive
    /// borrow keeps every other call out until this one has returned.
    pub fn check_and_reserve(&mut self, id: &[u8]) -> (res: Result<(), ReplayError>)
        ensures
            res == reserve_answer(old(self)@, id@),
            final(self)@ == ledger_after_reserve(old(self)@, id@),
    {
        match self.position(id) {
            Some(_) => Err(ReplayError::Duplicate),
            None => {
                let record = ExecutionRecord {
                    id: copy_range(id, 0, id.len()),
                    status: ExecutionStatus::Pending,
                    result_summary: ResultSummary::Unsettled,
                };
                assert(record.id@ =~= id@);
                proof {
                    lemma_ledger_domain(self.records@, id@);
                    assert(self.records@.push(record).drop_last() =~= self.records@);
                }
                let mut records: Vec<ExecutionRecord> = Vec::new();
                std::mem::swap(&mut self.records, &mut records);
                records.push(record);
                self.records = records;
                Ok(())
            },
        }
    }

    /// Settles the pending record of `id` with `status` and
    /// `result_summary`.
    ///
    /// Only a pending record may be settled, and only to `Succeeded` or
    /// `Failed`; see [`ReplayGuard::status`] for the test.
    pub fn finalize(&mut self, id: &[u8], status: ExecutionStatus, result_summary: ResultSummary)
        requires
            can_finalize(old(self)@, id@),
            status != ExecutionStatus::Pending,
        ensures
            final(self)@ == old(self)@.insert(id@, RecordState { status, summary: result_summary }),
    {
        let found = self.position(id);
        let at: usize = found.unwrap();
        let record = ExecutionRecord { id: copy_range(id, 0, id.len()), status, result_summary };
        assert(record.id@ =~= id@);
        proof {
            lemma_ledger_update(self.records@, at as int, record);
        }
        let mut records: Vec<ExecutionRecord> = Vec::new();
        std::mem::swap(&mut self.records, &mut records);
        records.set(at, record);
        self.records = records;
    }

    /// The status of the record of `id`, or `None` where it has none.
    pub fn status(&self, id: &[u8]) -> (status: Option<ExecutionStatus>)
        ensures
            status == if self@.contains_key(id@) {
                Some(self@[id@].status)
            } else {
                None
            },
    {
        match self.position(id) {
            Some(at) => Some(self.records[at].status),
            None => None,
        }
    }

    /// Number of records held.
    pub fn len(&self) -> (n: usize)
        ensures
            self@.dom().finite(),
            n == self@.len(),
    {
        proof {
            use_type_invariant(self);
            lemma_ledger_len(self.records@);
        }
        self.records.len()
    }

    /// All records, for a durable store to keep. [`ReplayGuard::restore`]
    /// takes them back.
    pub fn records(&self) -> (records: &[ExecutionRecord])
        ensures
            distinct_ids(records@),
            ledger_of(records@) == self@,
    {
        proof {
            use_type_invariant(self);
        }
        self.records.as_slice()
    }

    /// Rebuilds a guard from stored records, or answers `None` where two of
    /// them carry the same identifier.
    pub fn restore(records: Vec<ExecutionRecord>) -> (guard: Option<ReplayGuard>)
        ensures
            guard is Some <==> distinct_ids(records@),
            guard matches Some(g) ==> g@ == ledger_of(records@),
    {
        let mut upper: usize = 0;
        while upper < records.len()
            invariant
                upper <= records@.len(),
                forall|i: int, j: int|
                    0 <= i < j < upper ==> records@[i].id@ != records@[j].id@,
            decreases records@.len() - upper,
        {
            let mut lower: usize = 0;
            while lower < upper
                invariant
                    lower <= upper < records@.len(),
                    forall|i: int| 0 <= i < lower ==> records@[i].id@ != records@[upper as int].id@,
                decreases upper - lower,
            {
                if same_bytes(records[lower].id.as_slice(), records[upper].id.as_slice()) {
                    assert(!distinct_ids(records@));
                    return None;
                }
                lower = lower + 1;
            }
            upper = upper + 1;
        }
        assert(distinct_ids(records@)) by {
            assert forall|i: int, j: int|
                0 <= i < records@.len() && 0 <= j < records@.len() && i != j implies records@[i].id@
                != records@[j].id@ by {
                if i < j {
                    assert(records@[i].id@ != records@[j].id@);
                } else {
                    assert(records@[j].id@ != records@[i].id@);
                }
            }
        }
        Some(ReplayGuard { records })
    }

    /// The record of `id`, or `None` where it has none.
    pub fn record(&self, id: &[u8]) -> (record: Option<&ExecutionRecord>)
        ensures
            record is Some <==> self@.contains_key(id@),
            record matches Some(r) ==> r.id@ == id@ && r.state() == self@[id@],
    {
        match self.position(id) {
            Some(at) => Some(&self.records[at]),
            None => None,
        }
    }
}

} // verus!
