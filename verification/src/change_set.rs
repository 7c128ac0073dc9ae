//! Change sets, their merge, and the invariants of a genesis change set.

use crate::bytes::{bytes_eq, copy_bytes};
use crate::events::{
    events_eq, events_valid, events_view, is_reconfiguration, lemma_no_reconfiguration,
    lemma_reconfiguration_count_concat, reconfiguration_count, verify_genesis_events,
    ContractEvent, EventView,
};
use vstd::prelude::*;

verus! {

/// One operation of a write set.
#[derive(Debug, PartialEq, Eq)]
pub enum WriteOp {
    /// Stores the bytes under the key.
    Write(Vec<u8>),
    /// Removes whatever is stored under the key.
    Deletion,
}

impl View for WriteOp {
    type V = Option<Seq<u8>>;

    /// The bytes written, or `None` for a deletion.
    open spec fn view(&self) -> Option<Seq<u8>> {
        match self {
            WriteOp::Write(bytes) => Some(bytes@),
            WriteOp::Deletion => None,
        }
    }
}

/// A state key with the operation on it.
#[derive(Debug, PartialEq, Eq)]
pub struct WriteEntry {
    pub key: Vec<u8>,
    pub op: WriteOp,
}

/// The mapping that a sequence of entries stands for, a later entry
/// replacing an earlier one of the same key.
pub open spec fn entries_map(entries: Seq<WriteEntry>) -> Map<Seq<u8>, Option<Seq<u8>>>
    decreases entries.len(),
{
    if entries.len() == 0 {
        Map::empty()
    } else {
        entries_map(entries.drop_last()).insert(entries.last().key@, entries.last().op@)
    }
}

/// No two entries share a key.
pub open spec fn keys_distinct(entries: Seq<WriteEntry>) -> bool {
    forall|i: int, j: int|
        0 <= i < j < entries.len() ==> (#[trigger] entries[i]).key@ != (#[trigger] entries[j]).key@
}

/// Some key of the mapping is deleted.
pub open spec fn holds_deletion(writes: Map<Seq<u8>, Option<Seq<u8>>>) -> bool {
    exists|key: Seq<u8>| writes.contains_key(key) && #[trigger] writes[key] is None
}

/// The keys of the mapping are the keys of the entries.
pub proof fn lemma_entries_map_dom(entries: Seq<WriteEntry>, key: Seq<u8>)
    ensures
        entries_map(entries).contains_key(key) <==> exists|i: int|
            0 <= i < entries.len() && (#[trigger] entries[i]).key@ == key,
    decreases entries.len(),
{
    if entries.len() > 0 {
        let shorter = entries.drop_last();
        lemma_entries_map_dom(shorter, key);
        if entries_map(entries).contains_key(key) {
            if entries.last().key@ == key {
                assert(entries[entries.len() - 1].key@ == key);
            } else {
                let i = choose|i: int| 0 <= i < shorter.len() && (#[trigger] shorter[i]).key@ == key;
                assert(entries[i].key@ == key);
            }
        } else {
            assert forall|i: int| 0 <= i < entries.len() implies (#[trigger] entries[i]).key@
                != key by {
                if i < shorter.len() {
                    assert(shorter[i].key@ != key);
                }
            }
        }
    }
}

/// Where keys are distinct, each entry is found under its key.
pub proof fn lemma_entries_map_at(entries: Seq<WriteEntry>, at: int)
    requires
        keys_distinct(entries),
        0 <= at < entries.len(),
    ensures
        entries_map(entries).contains_key(entries[at].key@),
        entries_map(entries)[entries[at].key@] == entries[at].op@,
    decreases entries.len(),
{
    if at < entries.len() - 1 {
        let shorter = entries.drop_last();
        assert(keys_distinct(shorter)) by {
            assert forall|i: int, j: int| 0 <= i < j < shorter.len() implies (
            #[trigger] shorter[i]).key@ != (#[trigger] shorter[j]).key@ by {
                assert(entries[i].key@ != entries[j].key@);
            }
        }
        lemma_entries_map_at(shorter, at);
        assert(entries[at].key@ != entries[entries.len() - 1].key@);
    }
}

/// Where keys are distinct, replacing an entry by one of the same key
/// keeps them distinct and stores the new operation under that key.
proof fn lemma_entries_map_replace(entries: Seq<WriteEntry>, at: int, entry: WriteEntry)
    requires
        keys_distinct(entries),
        0 <= at < entries.len(),
        entry.key@ == entries[at].key@,
    ensures
        keys_distinct(entries.update(at, entry)),
        entries_map(entries.update(at, entry)) == entries_map(entries).insert(
            entry.key@,
            entry.op@,
        ),
    decreases entries.len(),
{
    let replaced = entries.update(at, entry);
    assert(keys_distinct(replaced)) by {
        assert forall|i: int, j: int| 0 <= i < j < replaced.len() implies (
        #[trigger] replaced[i]).key@ != (#[trigger] replaced[j]).key@ by {
            assert(entries[i].key@ != entries[j].key@);
        }
    }
    let shorter = entries.drop_last();
    if at == entries.len() - 1 {
        assert(replaced.drop_last() =~= shorter);
        assert(entries_map(replaced) =~= entries_map(entries).insert(entry.key@, entry.op@));
    } else {
        assert(keys_distinct(shorter)) by {
            assert forall|i: int, j: int| 0 <= i < j < shorter.len() implies (
            #[trigger] shorter[i]).key@ != (#[trigger] shorter[j]).key@ by {
                assert(entries[i].key@ != entries[j].key@);
            }
        }
        lemma_entries_map_replace(shorter, at, entry);
        assert(replaced.drop_last() =~= shorter.update(at, entry));
        assert(entries[at].key@ != entries[entries.len() - 1].key@);
        assert(replaced.last() == entries.last());
        assert(entries_map(replaced) =~= entries_map(entries).insert(entry.key@, entry.op@));
    }
}

/// Where keys are distinct, the mapping holds as many keys as there are
/// entries.
pub proof fn lemma_entries_map_len(entries: Seq<WriteEntry>)
    requires
        keys_distinct(entries),
    ensures
        entries_map(entries).dom().finite(),
        entries_map(entries).dom().len() == entries.len(),
    decreases entries.len(),
{
    if entries.len() > 0 {
        let shorter = entries.drop_last();
        assert(keys_distinct(shorter)) by {
            assert forall|i: int, j: int| 0 <= i < j < shorter.len() implies (
            #[trigger] shorter[i]).key@ != (#[trigger] shorter[j]).key@ by {
                assert(entries[i].key@ != entries[j].key@);
            }
        }
        lemma_entries_map_len(shorter);
        lemma_entries_map_dom(shorter, entries.last().key@);
        assert(!entries_map(shorter).contains_key(entries.last().key@)) by {
            assert forall|i: int| 0 <= i < shorter.len() implies (#[trigger] shorter[i]).key@
                != entries.last().key@ by {
                assert(entries[i].key@ != entries[entries.len() - 1].key@);
            }
        }
        assert(entries_map(entries).dom() =~= entries_map(shorter).dom().insert(
            entries.last().key@,
        ));
    }
}

/// A write set: state key to operation, each key at most once.
#[derive(Debug)]
pub struct WriteSet {
    entries: Vec<WriteEntry>,
}

impl View for WriteSet {
    type V = Map<Seq<u8>, Option<Seq<u8>>>;

    closed spec fn view(&self) -> Map<Seq<u8>, Option<Seq<u8>>> {
        entries_map(self.entries@)
    }
}

/// A copy of an operation.
pub fn copy_op(op: &WriteOp) -> (copy: WriteOp)
    ensures
        copy@ == op@,
{
    match op {
        WriteOp::Write(bytes) => WriteOp::Write(copy_bytes(bytes.as_slice())),
        WriteOp::Deletion => WriteOp::Deletion,
    }
}

/// Whether two operations do the same.
pub fn op_eq(a: &WriteOp, b: &WriteOp) -> (same: bool)
    ensures
        same == (a@ == b@),
{
    match (a, b) {
        (WriteOp::Write(left), WriteOp::Write(right)) => bytes_eq(
            left.as_slice(),
            right.as_slice(),
        ),
        (WriteOp::Deletion, WriteOp::Deletion) => true,
        _ => false,
    }
}

impl WriteSet {
    #[verifier::type_invariant]
    spec fn well_formed(self) -> bool {
        keys_distinct(self.entries@)
    }

    /// The empty write set.
    pub fn new() -> (writes: WriteSet)
        ensures
            writes@ == Map::<Seq<u8>, Option<Seq<u8>>>::empty(),
    {
        WriteSet { entries: Vec::new() }
    }

    /// Where `key` stands among the entries, if it does.
    fn position(&self, key: &[u8]) -> (found: Option<usize>)
        ensures
            found matches Some(at) ==> at < self.entries@.len() && self.entries@[at as int].key@
                == key@,
            found is None ==> forall|j: int|
                0 <= j < self.entries@.len() ==> (#[trigger] self.entries@[j]).key@ != key@,
    {
        let mut i: usize = 0;
        while i < self.entries.len()
            invariant
                i <= self.entries@.len(),
                forall|j: int| 0 <= j < i ==> (#[trigger] self.entries@[j]).key@ != key@,
            decreases self.entries@.len() - i,
        {
            if bytes_eq(self.entries[i].key.as_slice(), key) {
                return Some(i);
            }
            i += 1;
        }
        None
    }

    /// Puts `op` under `key`, in place of what was there.
    pub fn insert(&mut self, key: Vec<u8>, op: WriteOp)
        ensures
            final(self)@ == old(self)@.insert(key@, op@),
    {
        proof {
            use_type_invariant(&*self);
        }
        let entry = WriteEntry { key, op };
        let found = self.position(entry.key.as_slice());
        // The entries leave the set while they change, so that the set is
        // well formed at every step.
        let mut entries: Vec<WriteEntry> = Vec::new();
        core::mem::swap(&mut self.entries, &mut entries);
        match found {
            Some(at) => {
                proof {
                    lemma_entries_map_replace(entries@, at as int, entry);
                }
                entries[at] = entry;
            },
            None => {
                proof {
                    let grown = entries@.push(entry);
                    assert(grown.drop_last() =~= entries@);
                    assert(keys_distinct(grown)) by {
                        assert forall|i: int, j: int| 0 <= i < j < grown.len() implies (
                        #[trigger] grown[i]).key@ != (#[trigger] grown[j]).key@ by {
                            if j < entries@.len() {
                                assert(entries@[i].key@ != entries@[j].key@);
                            } else {
                                assert(entries@[i].key@ != entry.key@);
                            }
                        }
                    }
                }
                entries.push(entry);
            },
        }
        core::mem::swap(&mut self.entries, &mut entries);
    }

    /// The operation on `key`, if the set holds one.
    pub fn get(&self, key: &[u8]) -> (found: Option<&WriteOp>)
        ensures
            found is Some <==> self@.contains_key(key@),
            found matches Some(op) ==> op@ == self@[key@],
    {
        proof {
            use_type_invariant(self);
            lemma_entries_map_dom(self.entries@, key@);
        }
        match self.position(key) {
            Some(at) => {
                proof {
                    lemma_entries_map_at(self.entries@, at as int);
                }
                Some(&self.entries[at].op)
            },
            None => None,
        }
    }

    /// The entries, each key once, in no particular order.
    pub fn entries(&self) -> (held: &Vec<WriteEntry>)
        ensures
            keys_distinct(held@),
            entries_map(held@) == self@,
    {
        proof {
            use_type_invariant(self);
        }
        &self.entries
    }

    /// Whether some key is deleted.
    pub fn has_deletion(&self) -> (found: bool)
        ensures
            found == holds_deletion(self@),
    {
        proof {
            use_type_invariant(self);
        }
        let mut i: usize = 0;
        while i < self.entries.len()
            invariant
                i <= self.entries@.len(),
                keys_distinct(self.entries@),
                forall|j: int| 0 <= j < i ==> (#[trigger] self.entries@[j]).op@ is Some,
            decreases self.entries@.len() - i,
        {
            match &self.entries[i].op {
                WriteOp::Deletion => {
                    proof {
                        lemma_entries_map_at(self.entries@, i as int);
                    }
                    return true;
                },
                WriteOp::Write(_) => {},
            }
            i += 1;
        }
        proof {
            assert forall|key: Seq<u8>| self@.contains_key(key) implies !(
            #[trigger] self@[key] is None) by {
                lemma_entries_map_dom(self.entries@, key);
                let at = choose|at: int|
                    0 <= at < self.entries@.len() && (#[trigger] self.entries@[at]).key@ == key;
                lemma_entries_map_at(self.entries@, at);
            }
        }
        false
    }

    /// How many keys the set holds.
    pub fn len(&self) -> (count: usize)
        ensures
            self@.dom().finite(),
            count == self@.dom().len(),
    {
        proof {
            use_type_invariant(self);
            lemma_entries_map_len(self.entries@);
        }
        self.entries.len()
    }

    /// Whether every operation of `other` stands in this set too, under
    /// the same key.
    pub fn includes(&self, other: &WriteSet) -> (included: bool)
        ensures
            included == other@.submap_of(self@),
    {
        proof {
            use_type_invariant(other);
        }
        let mut i: usize = 0;
        while i < other.entries.len()
            invariant
                i <= other.entries@.len(),
                keys_distinct(other.entries@),
                forall|j: int|
                    0 <= j < i ==> self@.contains_key((#[trigger] other.entries@[j]).key@)
                        && self@[other.entries@[j].key@] == other.entries@[j].op@,
            decreases other.entries@.len() - i,
        {
            let entry = &other.entries[i];
            proof {
                lemma_entries_map_at(other.entries@, i as int);
            }
            match self.get(entry.key.as_slice()) {
                Some(op) => {
                    if !op_eq(op, &entry.op) {
                        assert(other@.dom().contains(entry.key@));
                        return false;
                    }
                },
                None => {
                    assert(other@.dom().contains(entry.key@));
                    return false;
                },
            }
            i += 1;
        }
        proof {
            assert forall|key: Seq<u8>| #[trigger] other@.dom().contains(key) implies (
            #[trigger] self@.dom().contains(key)) && other@[key] == self@[key] by {
                lemma_entries_map_dom(other.entries@, key);
                let at = choose|at: int|
                    0 <= at < other.entries@.len() && (#[trigger] other.entries@[at]).key@ == key;
                lemma_entries_map_at(other.entries@, at);
            }
        }
        true
    }

    /// Whether both sets hold the same operations under the same keys.
    pub fn same_as(&self, other: &WriteSet) -> (same: bool)
        ensures
            same == (self@ == other@),
    {
        let forth = self.includes(other);
        let back = other.includes(self);
        let same = forth && back;
        proof {
            self@.lemma_submap_eq_iff(other@);
        }
        same
    }

    /// Takes over every entry of `later`, which wins where both sets hold a
    /// key.
    pub fn absorb(&mut self, later: &WriteSet)
        ensures
            final(self)@ == old(self)@.union_prefer_right(later@),
    {
        let mut i: usize = 0;
        assert(later.entries@.take(0) =~= Seq::<WriteEntry>::empty());
        assert(self@ =~= old(self)@.union_prefer_right(entries_map(later.entries@.take(0))));
        while i < later.entries.len()
            invariant
                i <= later.entries@.len(),
                self@ == old(self)@.union_prefer_right(entries_map(later.entries@.take(i as int))),
            decreases later.entries@.len() - i,
        {
            let entry = &later.entries[i];
            self.insert(copy_bytes(entry.key.as_slice()), copy_op(&entry.op));
            proof {
                let next = later.entries@.take(i + 1);
                assert(next.drop_last() =~= later.entries@.take(i as int));
                assert(next.last() == later.entries@[i as int]);
                assert(self@ =~= old(self)@.union_prefer_right(entries_map(next)));
            }
            i += 1;
        }
        assert(later.entries@.take(later.entries@.len() as int) =~= later.entries@);
    }
}

/// A numeric adjustment that has not been turned into bytes yet.
#[derive(Debug, PartialEq, Eq)]
pub struct DeltaOp {
    pub key: Vec<u8>,
    /// Whether the amount is added; it is subtracted otherwise.
    pub increase: bool,
    pub amount: u128,
}

/// What a delta holds.
#[verifier::ext_equal]
pub struct DeltaView {
    pub key: Seq<u8>,
    pub increase: bool,
    pub amount: u128,
}

impl View for DeltaOp {
    type V = DeltaView;

    open spec fn view(&self) -> DeltaView {
        DeltaView { key: self.key@, increase: self.increase, amount: self.amount }
    }
}

/// What a sequence of deltas holds.
pub open spec fn deltas_view(deltas: Seq<DeltaOp>) -> Seq<DeltaView> {
    deltas.map_values(|delta: DeltaOp| delta@)
}

/// What one session leaves behind: writes, events, and deltas.
#[derive(Debug)]
pub struct ChangeSet {
    pub write_set: WriteSet,
    pub events: Vec<ContractEvent>,
    pub deltas: Vec<DeltaOp>,
}

/// What a change set holds.
#[verifier::ext_equal]
pub struct ChangeSetView {
    pub writes: Map<Seq<u8>, Option<Seq<u8>>>,
    pub events: Seq<EventView>,
    pub deltas: Seq<DeltaView>,
}

impl View for ChangeSet {
    type V = ChangeSetView;

    open spec fn view(&self) -> ChangeSetView {
        ChangeSetView {
            writes: self.write_set@,
            events: events_view(self.events@),
            deltas: deltas_view(self.deltas@),
        }
    }
}

/// Whether two deltas are the same.
pub fn delta_eq(a: &DeltaOp, b: &DeltaOp) -> (same: bool)
    ensures
        same == (a@ == b@),
{
    a.increase == b.increase && a.amount == b.amount && bytes_eq(
        a.key.as_slice(),
        b.key.as_slice(),
    )
}

/// Whether two sequences of deltas are the same.
pub fn deltas_eq(a: &Vec<DeltaOp>, b: &Vec<DeltaOp>) -> (same: bool)
    ensures
        same == (deltas_view(a@) == deltas_view(b@)),
{
    if a.len() != b.len() {
        assert(deltas_view(a@).len() != deltas_view(b@).len());
        return false;
    }
    let mut i: usize = 0;
    while i < a.len()
        invariant
            a@.len() == b@.len(),
            i <= a@.len(),
            forall|j: int| 0 <= j < i ==> a@[j]@ == b@[j]@,
        decreases a@.len() - i,
    {
        if !delta_eq(&a[i], &b[i]) {
            assert(deltas_view(a@)[i as int] != deltas_view(b@)[i as int]);
            return false;
        }
        i += 1;
    }
    assert(deltas_view(a@) =~= deltas_view(b@));
    true
}

impl ChangeSet {
    /// Whether two change sets hold the same: byte for byte the same
    /// writes, events and deltas.
    pub fn same_as(&self, other: &ChangeSet) -> (same: bool)
        ensures
            same == (self@ == other@),
    {
        self.write_set.same_as(&other.write_set) && events_eq(&self.events, &other.events)
            && deltas_eq(&self.deltas, &other.deltas)
    }
}

/// Why two change sets do not merge into a genesis change set.
#[derive(Clone, Copy, Debug, PartialEq, Eq, Structural)]
pub enum MergeError {
    /// One of the two holds deltas that were never turned into bytes.
    UnmaterializedDeltas,
    /// The merged write set deletes a key.
    UnexpectedDeletion,
    /// The merged events do not announce exactly one reconfiguration at
    /// the start of its stream.
    InvalidEvents,
}

/// What a genesis change set must satisfy: no delta, no deletion, and
/// valid events.
pub open spec fn genesis_invariants(change_set: ChangeSetView) -> bool {
    &&& change_set.deltas.len() == 0
    &&& !holds_deletion(change_set.writes)
    &&& events_valid(change_set.events)
}

/// The second change set laid over the first: its writes win where both
/// write a key, and its events follow those of the first.
pub open spec fn merged(first: ChangeSetView, second: ChangeSetView) -> ChangeSetView {
    ChangeSetView {
        writes: first.writes.union_prefer_right(second.writes),
        events: first.events + second.events,
        deltas: Seq::empty(),
    }
}

/// The first reason, if any, for which the merge is refused: deltas on
/// either side, then a deletion among the merged writes, then invalid
/// merged events.
pub open spec fn merge_failure(first: ChangeSetView, second: ChangeSetView) -> Option<MergeError> {
    if first.deltas.len() > 0 || second.deltas.len() > 0 {
        Some(MergeError::UnmaterializedDeltas)
    } else if holds_deletion(merged(first, second).writes) {
        Some(MergeError::UnexpectedDeletion)
    } else if !events_valid(merged(first, second).events) {
        Some(MergeError::InvalidEvents)
    } else {
        None
    }
}

/// What merging yields.
pub open spec fn merge_spec(first: ChangeSetView, second: ChangeSetView) -> Result<
    ChangeSetView,
    MergeError,
> {
    match merge_failure(first, second) {
        Some(error) => Err(error),
        None => Ok(merged(first, second)),
    }
}

/// Every change set that a merge yields satisfies the genesis invariants:
/// it deletes nothing, holds no delta, and announces exactly one
/// reconfiguration.
pub proof fn lemma_merged_is_genesis(first: ChangeSetView, second: ChangeSetView)
    requires
        merge_spec(first, second) is Ok,
    ensures
        genesis_invariants(merge_spec(first, second)->Ok_0),
        !holds_deletion(merge_spec(first, second)->Ok_0.writes),
        merge_spec(first, second)->Ok_0.deltas.len() == 0,
        reconfiguration_count(merge_spec(first, second)->Ok_0.events) == 1,
{
}

/// Merging succeeds on the change sets of two clean sessions: neither
/// holds a delta or a deletion, the first announces its one
/// reconfiguration, and the second announces none.
pub proof fn lemma_merge_succeeds_on_clean_sessions(first: ChangeSetView, second: ChangeSetView)
    requires
        first.deltas.len() == 0,
        second.deltas.len() == 0,
        !holds_deletion(first.writes),
        !holds_deletion(second.writes),
        events_valid(first.events),
        reconfiguration_count(second.events) == 0,
    ensures
        merge_spec(first, second) == Ok::<ChangeSetView, MergeError>(merged(first, second)),
{
    let writes = merged(first, second).writes;
    assert forall|key: Seq<u8>| writes.contains_key(key) implies !(
    #[trigger] writes[key] is None) by {
        if second.writes.contains_key(key) {
            assert(!(second.writes[key] is None));
        } else {
            assert(!(first.writes[key] is None));
        }
    }
    let events = first.events + second.events;
    lemma_reconfiguration_count_concat(first.events, second.events);
    lemma_no_reconfiguration(second.events);
    assert forall|i: int| 0 <= i < events.len() && is_reconfiguration(
        #[trigger] events[i],
    ) implies events[i].sequence_number == 0 by {
        if i < first.events.len() {
            assert(events[i] == first.events[i]);
        } else {
            assert(events[i] == second.events[i - first.events.len()]);
        }
    }
}

/// Merges the change set of the initialization session with that of the
/// publication session, in this order, and checks the result.
pub fn merge(first: ChangeSet, second: ChangeSet) -> (outcome: Result<ChangeSet, MergeError>)
    ensures
        outcome matches Ok(change_set) ==> merge_spec(first@, second@) == Ok::<
            ChangeSetView,
            MergeError,
        >(change_set@),
        outcome matches Err(error) ==> merge_spec(first@, second@) == Err::<
            ChangeSetView,
            MergeError,
        >(error),
        outcome matches Ok(change_set) ==> genesis_invariants(change_set@),
{
    if first.deltas.len() > 0 || second.deltas.len() > 0 {
        return Err(MergeError::UnmaterializedDeltas);
    }
    let mut combined = first;
    let mut later = second;
    combined.write_set.absorb(&later.write_set);
    combined.events.append(&mut later.events);
    proof {
        assert(events_view(combined.events@) =~= first@.events + second@.events);
        assert(deltas_view(combined.deltas@) =~= Seq::<DeltaView>::empty());
        assert(combined@ =~= merged(first@, second@));
    }
    if combined.write_set.has_deletion() {
        return Err(MergeError::UnexpectedDeletion);
    }
    if !verify_genesis_events(&combined.events) {
        return Err(MergeError::InvalidEvents);
    }
    Ok(combined)
}

} // verus!
