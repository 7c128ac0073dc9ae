//! Contract events and the check that a genesis run announced its
//! reconfiguration.

use crate::bytes::bytes_eq;
use vstd::prelude::*;

verus! {

/// Creation number of the event stream on which new epochs are announced.
pub const NEW_EPOCH_CREATION_NUMBER: u64 = 2;

/// The stream an event belongs to: an account and the number under which
/// that account created the stream.
#[derive(Clone, Copy, Debug, PartialEq, Eq)]
pub struct EventKey {
    pub creation_number: u64,
    pub account: [u8; 32],
}

/// An event that a session emitted.
#[derive(Debug, PartialEq, Eq)]
pub struct ContractEvent {
    pub key: EventKey,
    /// Position of the event in its stream.
    pub sequence_number: u64,
    pub type_tag: Vec<u8>,
    pub data: Vec<u8>,
}

/// What an event holds.
#[verifier::ext_equal]
pub struct EventView {
    pub creation_number: u64,
    pub account: Seq<u8>,
    pub sequence_number: u64,
    pub type_tag: Seq<u8>,
    pub data: Seq<u8>,
}

impl View for ContractEvent {
    type V = EventView;

    open spec fn view(&self) -> EventView {
        EventView {
            creation_number: self.key.creation_number,
            account: self.key.account@,
            sequence_number: self.sequence_number,
            type_tag: self.type_tag@,
            data: self.data@,
        }
    }
}

/// What a sequence of events holds.
pub open spec fn events_view(events: Seq<ContractEvent>) -> Seq<EventView> {
    events.map_values(|event: ContractEvent| event@)
}

/// The address of the core framework account: 31 zero bytes and a one.
pub open spec fn core_account() -> Seq<u8> {
    Seq::new(32, |i: int| if i == 31 { 1u8 } else { 0u8 })
}

/// An event announces a reconfiguration when it belongs to the new-epoch
/// stream of the core framework account.
pub open spec fn is_reconfiguration(event: EventView) -> bool {
    event.creation_number == NEW_EPOCH_CREATION_NUMBER && event.account == core_account()
}

/// How many events of the sequence announce a reconfiguration.
pub open spec fn reconfiguration_count(events: Seq<EventView>) -> nat
    decreases events.len(),
{
    if events.len() == 0 {
        0
    } else {
        reconfiguration_count(events.drop_last()) + if is_reconfiguration(events.last()) {
            1nat
        } else {
            0nat
        }
    }
}

/// The events of a genesis are valid when exactly one of them announces a
/// reconfiguration and that one is the first of its stream.
pub open spec fn events_valid(events: Seq<EventView>) -> bool {
    &&& reconfiguration_count(events) == 1
    &&& forall|i: int|
        0 <= i < events.len() && is_reconfiguration(#[trigger] events[i])
            ==> events[i].sequence_number == 0
}

/// The announcements of two sequences add up when one follows the other.
pub proof fn lemma_reconfiguration_count_concat(first: Seq<EventView>, second: Seq<EventView>)
    ensures
        reconfiguration_count(first + second) == reconfiguration_count(first)
            + reconfiguration_count(second),
    decreases second.len(),
{
    if second.len() == 0 {
        assert(first + second =~= first);
    } else {
        lemma_reconfiguration_count_concat(first, second.drop_last());
        assert((first + second).drop_last() =~= first + second.drop_last());
        assert((first + second).last() == second.last());
    }
}

/// A sequence without announcements holds no announcing event.
pub proof fn lemma_no_reconfiguration(events: Seq<EventView>)
    requires
        reconfiguration_count(events) == 0,
    ensures
        forall|i: int| 0 <= i < events.len() ==> !is_reconfiguration(#[trigger] events[i]),
    decreases events.len(),
{
    if events.len() > 0 {
        lemma_no_reconfiguration(events.drop_last());
        assert forall|i: int| 0 <= i < events.len() implies !is_reconfiguration(
            #[trigger] events[i],
        ) by {
            if i < events.len() - 1 {
                assert(events.drop_last()[i] == events[i]);
            }
        }
    }
}

/// The key of the stream on which new epochs are announced.
pub fn new_epoch_event_key() -> (key: EventKey)
    ensures
        key.creation_number == NEW_EPOCH_CREATION_NUMBER,
        key.account@ == core_account(),
{
    let mut account = [0u8; 32];
    account[31] = 1;
    assert(account@ =~= core_account());
    EventKey { creation_number: NEW_EPOCH_CREATION_NUMBER, account }
}

/// Whether an event announces a reconfiguration.
pub fn announces_reconfiguration(event: &ContractEvent) -> (announces: bool)
    ensures
        announces == is_reconfiguration(event@),
{
    let expected = new_epoch_event_key();
    event.key.creation_number == expected.creation_number && bytes_eq(
        event.key.account.as_slice(),
        expected.account.as_slice(),
    )
}

/// Whether two events are the same.
pub fn event_eq(a: &ContractEvent, b: &ContractEvent) -> (same: bool)
    ensures
        same == (a@ == b@),
{
    a.key.creation_number == b.key.creation_number && a.sequence_number == b.sequence_number
        && bytes_eq(a.key.account.as_slice(), b.key.account.as_slice()) && bytes_eq(
        a.type_tag.as_slice(),
        b.type_tag.as_slice(),
    ) && bytes_eq(a.data.as_slice(), b.data.as_slice())
}

/// Whether two sequences of events are the same, in the same order.
pub fn events_eq(a: &Vec<ContractEvent>, b: &Vec<ContractEvent>) -> (same: bool)
    ensures
        same == (events_view(a@) == events_view(b@)),
{
    if a.len() != b.len() {
        assert(events_view(a@).len() != events_view(b@).len());
        return false;
    }
    let mut i: usize = 0;
    while i < a.len()
        invariant
            a@.len() == b@.len(),
            i <= a@.len(),
            forall|j: int| 0 <= j < i ==> a@[j]@ == b@[j]@,
        decreases a@.len() - i,
    {
        if !event_eq(&a[i], &b[i]) {
            assert(events_view(a@)[i as int] != events_view(b@)[i as int]);
            return false;
        }
        i += 1;
    }
    assert(events_view(a@) =~= events_view(b@));
    true
}

/// Whether the events are those of a valid genesis: one announcement of a
/// reconfiguration, at the start of its stream.
pub fn verify_genesis_events(events: &Vec<ContractEvent>) -> (valid: bool)
    ensures
        valid == events_valid(events_view(events@)),
{
    let ghost all = events_view(events@);
    let mut count: usize = 0;
    let mut at_start = true;
    let mut i: usize = 0;
    assert(all.take(0) =~= Seq::<EventView>::empty());
    while i < events.len()
        invariant
            i <= events@.len(),
            all == events_view(events@),
            count == reconfiguration_count(all.take(i as int)),
            count <= i,
            at_start == forall|j: int|
                0 <= j < i && is_reconfiguration(#[trigger] all[j]) ==> all[j].sequence_number
                    == 0,
        decreases events@.len() - i,
    {
        proof {
            let next = all.take(i + 1);
            assert(next.drop_last() =~= all.take(i as int));
            assert(next.last() == all[i as int]);
            assert(all[i as int] == events@[i as int]@);
        }
        if announces_reconfiguration(&events[i]) {
            count += 1;
            if events[i].sequence_number != 0 {
                at_start = false;
            }
        }
        i += 1;
    }
    assert(all.take(all.len() as int) =~= all);
    count == 1 && at_start
}

} // verus!
