//! The event queue: a header and a ring of event records.

use vstd::prelude::*;
use vstd::arithmetic::div_mod::{lemma_fundamental_div_mod, lemma_fundamental_div_mod_converse};
use crate::error::Error;
use crate::event::{EventView, decode_event, event_of};

verus! {

/// The number of words in the header of an event queue.
pub const EVENT_QUEUE_HEADER_WORDS: usize = 4;

/// The header of an event queue. `head` is the slot of the oldest live
/// record and `count` the number of live records; both count records, not
/// bytes.
#[derive(Clone, Copy, Debug, PartialEq, Eq, Structural, Hash)]
pub struct EventQueueHeader {
    pub account_flags: u64,
    pub head: u64,
    pub count: u64,
    pub seq_num: u64,
}

impl EventQueueHeader {
    /// The slot of the oldest live record, as the header stores it.
    pub fn head(&self) -> (head: u64)
        ensures
            head == self.head,
    {
        self.head
    }

    /// The number of live records, as the header stores it.
    pub fn count(&self) -> (count: u64)
        ensures
            count == self.count,
    {
        self.count
    }
}

/// An event queue as it was read: its header and its live events, the oldest
/// first.
#[derive(Clone, Debug, PartialEq, Eq)]
pub struct EventQueue {
    pub header: EventQueueHeader,
    pub events: Vec<EventView>,
}

/// An event queue as a value: its header and the sequence of its live events.
pub struct EventQueueView {
    pub header: EventQueueHeader,
    pub events: Seq<EventView>,
}

impl View for EventQueue {
    type V = EventQueueView;

    open spec fn view(&self) -> EventQueueView {
        EventQueueView { header: self.header, events: self.events@ }
    }
}

/// The header with which the interior of an event queue begins.
pub open spec fn header_of(words: Seq<u64>) -> EventQueueHeader
    recommends
        words.len() >= 4,
{
    EventQueueHeader { account_flags: words[0], head: words[1], count: words[2], seq_num: words[3] }
}

/// The number of slots in the ring: the full records that follow the header.
pub open spec fn capacity_of(words: Seq<u64>) -> int
    recommends
        words.len() >= 4,
{
    (words.len() - 4) / 11
}

/// The number of live records: the header's count, but never more than the
/// ring has slots.
pub open spec fn live_count(count: u64, capacity: int) -> int {
    if count <= capacity {
        count as int
    } else {
        capacity
    }
}

/// The slot of the live record of a given age, the oldest having age 0: the
/// ring is walked from the head and starts again at slot 0 after its last
/// slot.
pub open spec fn live_slot(head: u64, capacity: int, age: int) -> int
    recommends
        capacity > 0,
{
    (head + age) % capacity
}

/// The words of the record in a slot.
pub open spec fn slot_words(words: Seq<u64>, slot: int) -> Seq<u64> {
    words.subrange(4 + 11 * slot, 4 + 11 * slot + 11)
}

/// What each live record decodes to, the oldest first.
pub open spec fn live_events(words: Seq<u64>) -> Seq<Result<EventView, Error>>
    recommends
        words.len() >= 15,
{
    let header = header_of(words);
    let capacity = capacity_of(words);
    Seq::new(
        live_count(header.count, capacity) as nat,
        |age: int| event_of(slot_words(words, live_slot(header.head, capacity, age))),
    )
}

/// All the events of a sequence, or the error of the first that has one.
pub open spec fn collected(decoded: Seq<Result<EventView, Error>>) -> Result<Seq<EventView>, Error>
    decreases decoded.len(),
{
    if decoded.len() == 0 {
        Ok(Seq::empty())
    } else {
        match collected(decoded.drop_last()) {
            Err(e) => Err(e),
            Ok(front) => match decoded.last() {
                Ok(event) => Ok(front.push(event)),
                Err(e) => Err(e),
            },
        }
    }
}

/// What the interior of an event queue decodes to. An interior too short for
/// the header and one record has no ring to read. Else the live records are
/// decoded in the order of the ring, and the first that is refused fails the
/// whole read.
pub open spec fn event_queue_of(words: Seq<u64>) -> Result<EventQueueView, Error> {
    if words.len() < 15 {
        Err(Error::LayoutSizeMismatch)
    } else {
        match collected(live_events(words)) {
            Ok(events) => Ok(EventQueueView { header: header_of(words), events }),
            Err(e) => Err(e),
        }
    }
}

/// The slots of the live records lie in the ring, and no slot is live twice.
pub proof fn lemma_live_slots(head: u64, count: u64, capacity: int)
    requires
        capacity > 0,
    ensures
        0 <= live_count(count, capacity) <= capacity,
        live_count(count, capacity) <= count,
        forall|age: int|
            0 <= age < live_count(count, capacity) ==> 0 <= #[trigger] live_slot(
                head,
                capacity,
                age,
            ) < capacity,
        forall|a: int, b: int|
            0 <= a < b < live_count(count, capacity) ==> #[trigger] live_slot(head, capacity, a)
                != #[trigger] live_slot(head, capacity, b),
{
    assert forall|a: int, b: int| 0 <= a < b < live_count(count, capacity) implies #[trigger] live_slot(
        head,
        capacity,
        a,
    ) != #[trigger] live_slot(head, capacity, b) by {
        lemma_ring_step(head, capacity, a);
        lemma_ring_step(head, capacity, b);
    }
}

/// Walking the ring: the slot of an age below the capacity is the head's own
/// slot plus the age, less the capacity where that passes the last slot.
pub proof fn lemma_ring_step(head: u64, capacity: int, age: int)
    requires
        capacity > 0,
        0 <= age < capacity,
    ensures
        0 <= head as int % capacity < capacity,
        head as int % capacity + age < capacity ==> live_slot(head, capacity, age) == head as int
            % capacity + age,
        head as int % capacity + age >= capacity ==> live_slot(head, capacity, age) == head as int
            % capacity + age - capacity,
{
    let h = head as int % capacity;
    let q = head as int / capacity;
    lemma_fundamental_div_mod(head as int, capacity);
    assert(head == capacity * q + h);
    if h + age < capacity {
        assert(head + age == q * capacity + (h + age)) by (nonlinear_arith)
            requires
                head == capacity * q + h,
        ;
        lemma_fundamental_div_mod_converse(head + age, capacity, q, h + age);
    } else {
        assert(head + age == (q + 1) * capacity + (h + age - capacity)) by (nonlinear_arith)
            requires
                head == capacity * q + h,
        ;
        lemma_fundamental_div_mod_converse(head + age, capacity, q + 1, h + age - capacity);
    }
}

/// A sequence of decoded records is collected whole exactly when none of them
/// was refused, and then holds each event in its place.
pub proof fn lemma_collected_all(decoded: Seq<Result<EventView, Error>>)
    requires
        forall|i: int| 0 <= i < decoded.len() ==> #[trigger] decoded[i] is Ok,
    ensures
        collected(decoded) is Ok,
        collected(decoded)->Ok_0.len() == decoded.len(),
        forall|i: int|
            0 <= i < decoded.len() ==> decoded[i] == Ok::<EventView, Error>(
                #[trigger] collected(decoded)->Ok_0[i],
            ),
    decreases decoded.len(),
{
    if decoded.len() > 0 {
        lemma_collected_all(decoded.drop_last());
    }
}

/// One refused record fails the whole sequence, with the error of the first
/// record that was refused.
pub proof fn lemma_collected_first_error(decoded: Seq<Result<EventView, Error>>, at: int)
    requires
        0 <= at < decoded.len(),
        decoded[at] is Err,
        forall|i: int| 0 <= i < at ==> #[trigger] decoded[i] is Ok,
    ensures
        collected(decoded) == Err::<Seq<EventView>, Error>(decoded[at]->Err_0),
    decreases decoded.len(),
{
    let front = decoded.drop_last();
    if at == decoded.len() - 1 {
        lemma_collected_all(front);
    } else {
        lemma_collected_first_error(front, at);
    }
}

/// A refused record anywhere in a sequence fails the whole of it, with the
/// error of a record that stands at or before that one.
pub proof fn lemma_collected_any_error(decoded: Seq<Result<EventView, Error>>, at: int)
    requires
        0 <= at < decoded.len(),
        decoded[at] is Err,
    ensures
        collected(decoded) is Err,
        exists|i: int|
            0 <= i <= at && #[trigger] decoded[i] == Err::<EventView, Error>(
                collected(decoded)->Err_0,
            ),
    decreases at,
{
    if forall|i: int| 0 <= i < at ==> #[trigger] decoded[i] is Ok {
        lemma_collected_first_error(decoded, at);
        assert(decoded[at] == Err::<EventView, Error>(collected(decoded)->Err_0));
    } else {
        let earlier = choose|i: int| 0 <= i < at && !(#[trigger] decoded[i] is Ok);
        lemma_collected_any_error(decoded, earlier);
    }
}

/// Where every live record carries a known tag, the read gives the header
/// and one event for each live record, the oldest first: the event of age
/// `i` is the one in the slot `i` steps round the ring from the head.
pub proof fn lemma_queue_in_ring_order(words: Seq<u64>)
    requires
        words.len() >= 15,
        forall|age: int|
            0 <= age < live_count(header_of(words).count, capacity_of(words)) ==> event_of(
                slot_words(
                    words,
                    #[trigger] live_slot(header_of(words).head, capacity_of(words), age),
                ),
            ) is Ok,
    ensures
        event_queue_of(words) is Ok,
        event_queue_of(words)->Ok_0.header == header_of(words),
        event_queue_of(words)->Ok_0.events.len() == live_count(
            header_of(words).count,
            capacity_of(words),
        ),
        forall|age: int|
            0 <= age < live_count(header_of(words).count, capacity_of(words)) ==> event_of(
                slot_words(
                    words,
                    #[trigger] live_slot(header_of(words).head, capacity_of(words), age),
                ),
            ) == Ok::<EventView, Error>(event_queue_of(words)->Ok_0.events[age]),
{
    let decoded = live_events(words);
    assert forall|i: int| 0 <= i < decoded.len() implies #[trigger] decoded[i] is Ok by {
        let slot = live_slot(header_of(words).head, capacity_of(words), i);
    }
    lemma_collected_all(decoded);
    assert forall|age: int|
        0 <= age < live_count(header_of(words).count, capacity_of(words)) implies event_of(
        slot_words(words, #[trigger] live_slot(header_of(words).head, capacity_of(words), age)),
    ) == Ok::<EventView, Error>(event_queue_of(words)->Ok_0.events[age]) by {
        assert(decoded[age] == Ok::<EventView, Error>(collected(decoded)->Ok_0[age]));
    }
}

/// One live record with an unknown tag fails the whole read: no event of the
/// queue is returned.
pub proof fn lemma_unknown_tag_fails_the_read(words: Seq<u64>, age: int)
    requires
        words.len() >= 15,
        0 <= age < live_count(header_of(words).count, capacity_of(words)),
        event_of(
            slot_words(words, live_slot(header_of(words).head, capacity_of(words), age)),
        ) is Err,
    ensures
        event_queue_of(words) == Err::<EventQueueView, Error>(Error::UnknownEventTag),
{
    let decoded = live_events(words);
    lemma_collected_any_error(decoded, age);
    let first = choose|i: int|
        0 <= i <= age && #[trigger] decoded[i] == Err::<EventView, Error>(
            collected(decoded)->Err_0,
        );
    assert(decoded[first] is Err);
}

/// Reads the interior of an event queue: the header, then the live records
/// of the ring, the oldest first.
pub fn parse_event_queue(data_words: &[u64]) -> (queue: Result<EventQueue, Error>)
    ensures
        match queue {
            Ok(q) => event_queue_of(data_words@) == Ok::<EventQueueView, Error>(q@),
            Err(e) => event_queue_of(data_words@) == Err::<EventQueueView, Error>(e),
        },
{
    let len = data_words.len();
    if len < EVENT_QUEUE_HEADER_WORDS + 11 {
        return Err(Error::LayoutSizeMismatch);
    }
    let header = EventQueueHeader {
        account_flags: data_words[0],
        head: data_words[1],
        count: data_words[2],
        seq_num: data_words[3],
    };
    let capacity: usize = (len - EVENT_QUEUE_HEADER_WORDS) / 11;
    let live: usize = if header.count() <= capacity as u64 {
        header.count() as usize
    } else {
        capacity
    };
    let first: usize = (header.head() % (capacity as u64)) as usize;
    let ghost decoded = live_events(data_words@);
    let mut events: Vec<EventView> = Vec::new();
    let mut age: usize = 0;
    while age < live
        invariant
            len == data_words.len(),
            len >= 15,
            capacity == capacity_of(data_words@),
            capacity > 0,
            header == header_of(data_words@),
            live == live_count(header.count, capacity as int),
            first == header.head % (capacity as u64),
            decoded == live_events(data_words@),
            age <= live,
            collected(decoded.take(age as int)) == Ok::<Seq<EventView>, Error>(events@),
        decreases live - age,
    {
        proof {
            lemma_ring_step(header.head, capacity as int, age as int);
        }
        let slot: usize = if first + age < capacity {
            first + age
        } else {
            first + age - capacity
        };
        assert(slot == live_slot(header.head, capacity as int, age as int));
        assert(4 + 11 * slot + 11 <= len) by (nonlinear_arith)
            requires
                0 <= slot < capacity,
                capacity == (len - 4) / 11,
                len >= 15,
        ;
        let event = decode_event(data_words, EVENT_QUEUE_HEADER_WORDS + 11 * slot);
        proof {
            assert(decoded.take(age + 1).drop_last() =~= decoded.take(age as int));
            assert(decoded.take(age + 1).last() == decoded[age as int]);
            assert(decoded[age as int] == event);
        }
        match event {
            Ok(view) => {
                events.push(view);
            },
            Err(e) => {
                proof {
                    lemma_collected_prefix_error(decoded, age + 1);
                }
                return Err(e);
            },
        }
        age += 1;
    }
    assert(decoded.take(age as int) =~= decoded);
    Ok(EventQueue { header, events })
}

/// An error among the first records of a sequence is the error of the whole.
proof fn lemma_collected_prefix_error(decoded: Seq<Result<EventView, Error>>, n: int)
    requires
        0 <= n <= decoded.len(),
        collected(decoded.take(n)) is Err,
    ensures
        collected(decoded) == collected(decoded.take(n)),
    decreases decoded.len() - n,
{
    if n < decoded.len() {
        assert(decoded.take(n + 1).drop_last() =~= decoded.take(n));
        lemma_collected_prefix_error(decoded, n + 1);
    } else {
        assert(decoded.take(n) =~= decoded);
    }
}

} // verus!
