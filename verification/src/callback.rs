//! What becomes of the events that FSEvents hands to a stream's callback.

use vstd::prelude::*;

use crate::event::Event;
use crate::flags::StreamFlags;
use crate::path::FsPath;
use crate::recursive_info::RecursiveInfo;
use crate::translate::translate_flags;

verus! {

use vstd::utf8::valid_utf8;
use crate::event::{view_events, EventView};
use crate::flags::law_known_bits;
use crate::path::{components, Components};
use crate::recursive_info::{is_watched, law_more_watches, within};
use crate::translate::{law_no_path, translation};

/// What a stream's callback knows of the watcher that opened the stream: the watched paths as
/// they were at that time.
#[derive(Debug)]
pub struct StreamContextInfo {
    pub recursive_info: RecursiveInfo,
}

impl View for StreamContextInfo {
    type V = Map<Components, bool>;

    open spec fn view(&self) -> Map<Components, bool> {
        self.recursive_info@
    }
}

/// An event as FSEvents hands it over: the bytes of its path and its flags.
#[derive(Debug, PartialEq, Eq)]
pub struct RawEvent {
    pub path: Vec<u8>,
    pub flags: u32,
}

/// The contents of a [`RawEvent`].
#[verifier::ext_equal]
pub struct RawEventView {
    pub path: Seq<u8>,
    pub flags: u32,
}

impl View for RawEvent {
    type V = RawEventView;

    open spec fn view(&self) -> RawEventView {
        RawEventView { path: self.path@, flags: self.flags }
    }
}

/// The contents of each event in a list.
pub open spec fn view_batch(batch: Seq<RawEvent>) -> Seq<RawEventView> {
    batch.map_values(|event: RawEvent| event@)
}

/// An event that breaks what FSEvents promises.
#[derive(Clone, Copy, Debug, PartialEq, Eq, Structural)]
pub enum Fault {
    /// Its path is not UTF-8.
    InvalidUtf8,
    /// Its flags, which are these, set a bit that has no name.
    UnknownFlags(u32),
}

/// What becomes of an event.
#[derive(Clone, Copy, Debug, PartialEq, Eq, Structural)]
pub enum Verdict {
    /// Something is wrong with it.
    Faulty(Fault),
    /// No watch takes it in.
    PassedOver,
    /// It is passed on. These are its flags.
    Heard(StreamFlags),
}

/// What the receiver is owed for a batch of events.
#[derive(Debug, PartialEq, Eq)]
pub struct Delivery {
    /// The events to pass on, in this order.
    pub events: Vec<Event>,
    /// What stands in the way of the rest of the batch, if anything does.
    pub fault: Option<Fault>,
}

/// What is wrong with an event, if anything is. The path is looked at first.
pub open spec fn fault_of(event: RawEventView) -> Option<Fault> {
    if !valid_utf8(event.path) {
        Some(Fault::InvalidUtf8)
    } else if !StreamFlags::is_known(event.flags) {
        Some(Fault::UnknownFlags(event.flags))
    } else {
        None
    }
}

/// What becomes of an event, under the given watches.
pub open spec fn verdict(info: Map<Components, bool>, event: RawEventView) -> Verdict {
    match fault_of(event) {
        Some(fault) => Verdict::Faulty(fault),
        None => if is_watched(info, components(event.path)) {
            Verdict::Heard(StreamFlags { bits: event.flags })
        } else {
            Verdict::PassedOver
        },
    }
}

/// The events that the receiver is owed for one event: those that its flags stand for, each with
/// its path, or none if no watch takes the path in.
pub open spec fn reported(
    info: Map<Components, bool>,
    event: RawEventView,
    process_id: u32,
) -> Seq<EventView> {
    if is_watched(info, components(event.path)) {
        translation(StreamFlags { bits: event.flags }, true, process_id).map_values(
            |told: EventView| told.with_path(event.path),
        )
    } else {
        Seq::<EventView>::empty()
    }
}

/// The events that the receiver is owed for several events, one after the other.
pub open spec fn all_reported(
    info: Map<Components, bool>,
    batch: Seq<RawEventView>,
    process_id: u32,
) -> Seq<EventView>
    decreases batch.len(),
{
    if batch.len() == 0 {
        Seq::<EventView>::empty()
    } else {
        all_reported(info, batch.drop_last(), process_id) + reported(
            info,
            batch.last(),
            process_id,
        )
    }
}

/// How many events come before the first that something is wrong with.
pub open spec fn sound_prefix(batch: Seq<RawEventView>) -> nat
    decreases batch.len(),
{
    if batch.len() == 0 {
        0
    } else if fault_of(batch[0]) is Some {
        0
    } else {
        1 + sound_prefix(batch.drop_first())
    }
}

/// The fault of the first event that has one.
pub open spec fn first_fault(batch: Seq<RawEventView>) -> Option<Fault> {
    let sound = sound_prefix(batch);
    if sound < batch.len() {
        fault_of(batch[sound as int])
    } else {
        None
    }
}

/// Whether `bytes` is text in UTF-8, as `std::str::from_utf8` finds it: the function succeeds
/// exactly on valid UTF-8.
#[verifier::external_body]
fn is_utf8(bytes: &[u8]) -> (valid: bool)
    ensures
        valid == valid_utf8(bytes@),
{
    std::str::from_utf8(bytes).is_ok()
}

proof fn lemma_sound_prefix(batch: Seq<RawEventView>, n: int)
    requires
        0 <= n <= batch.len(),
        forall|i: int| 0 <= i < n ==> fault_of(#[trigger] batch[i]) is None,
        n < batch.len() ==> fault_of(batch[n]) is Some,
    ensures
        sound_prefix(batch) == n,
    decreases batch.len(),
{
    if n > 0 {
        assert(fault_of(batch[0]) is None);
        let rest = batch.drop_first();
        assert forall|i: int| 0 <= i < n - 1 implies fault_of(#[trigger] rest[i]) is None by {
            assert(rest[i] == batch[i + 1]);
        }
        lemma_sound_prefix(rest, n - 1);
    }
}

/// Passes each of `told` on, with `path` in it.
fn deliver(events: &mut Vec<Event>, told: Vec<Event>, path: &FsPath)
    ensures
        view_events(final(events)@) == view_events(old(events)@) + view_events(told@).map_values(
            |event: EventView| event.with_path(path@),
        ),
{
    let ghost before = view_events(events@);
    let ghost all = view_events(told@);
    let ghost placed = |event: EventView| event.with_path(path@);
    assert(before + all.take(0).map_values(placed) =~= before);
    for event in rest: told
        invariant
            rest.seq() == told@,
            all == view_events(told@),
            placed == (|event: EventView| event.with_path(path@)),
            view_events(events@) == before + all.take(rest.index() as int).map_values(placed),
    {
        let ghost last = view_events(events@);
        let ghost done = rest.index() as int;
        assert(event@ == all[done]);
        events.push(event.add_path(path.clone()));
        assert(view_events(events@) =~= last.push(placed(all[done])));
        assert(all.take(done + 1) =~= all.take(done).push(all[done]));
        assert(view_events(events@) =~= before + all.take(done + 1).map_values(placed));
    }
    assert(all.take(all.len() as int) =~= all);
}

/// What becomes of an event in a callback that was opened with `info`.
pub fn judge(info: &StreamContextInfo, event: &RawEvent) -> (judged: Verdict)
    ensures
        judged == verdict(info@, event@),
{
    if !is_utf8(event.path.as_slice()) {
        return Verdict::Faulty(Fault::InvalidUtf8);
    }
    let flags: StreamFlags = match StreamFlags::from_bits(event.flags) {
        Some(flags) => flags,
        None => {
            return Verdict::Faulty(Fault::UnknownFlags(event.flags));
        },
    };
    let path = FsPath { bytes: event.path.clone() };
    assert(path@ =~= event.path@);
    if info.recursive_info.watches(&path.components()) {
        Verdict::Heard(flags)
    } else {
        Verdict::PassedOver
    }
}

/// What a callback that was opened with `info` passes on for a batch of events, in the process
/// `process_id`.
pub fn callback_impl(info: &StreamContextInfo, batch: &Vec<RawEvent>, process_id: u32) -> (delivery:
    Delivery)
    ensures
        view_events(delivery.events@) == all_reported(
            info@,
            view_batch(batch@).take(sound_prefix(view_batch(batch@)) as int),
            process_id,
        ),
        delivery.fault == first_fault(view_batch(batch@)),
{
    let mut events: Vec<Event> = Vec::new();
    let ghost all = view_batch(batch@);
    assert(view_events(events@) =~= all_reported(info@, all.take(0), process_id));
    for p in 0..batch.len()
        invariant
            all == view_batch(batch@),
            view_events(events@) == all_reported(info@, all.take(p as int), process_id),
            forall|i: int| 0 <= i < p ==> fault_of(#[trigger] all[i]) is None,
    {
        let raw: &RawEvent = &batch[p];
        assert(raw@ == all[p as int]);
        let ghost told = view_events(events@);
        match judge(info, raw) {
            Verdict::Faulty(fault) => {
                proof {
                    lemma_sound_prefix(all, p as int);
                }
                return Delivery { events, fault: Some(fault) };
            },
            Verdict::PassedOver => {},
            Verdict::Heard(flags) => {
                let path = FsPath { bytes: raw.path.clone() };
                assert(path@ =~= raw.path@);
                deliver(&mut events, translate_flags(flags, true, process_id), &path);
            },
        }
        assert(view_events(events@) =~= told + reported(info@, all[p as int], process_id));
        assert(all.take(p + 1).drop_last() =~= all.take(p as int));
    }
    proof {
        lemma_sound_prefix(all, all.len() as int);
    }
    Delivery { events, fault: None }
}

/// An event that no watch takes in is passed over, whatever its flags say.
pub proof fn law_unwatched_is_silent(
    info: Map<Components, bool>,
    event: RawEventView,
    process_id: u32,
)
    requires
        !is_watched(info, components(event.path)),
    ensures
        reported(info, event, process_id).len() == 0,
{
}

/// Everything that is passed on names one path, that of the event it comes from.
pub proof fn law_reported_path(
    info: Map<Components, bool>,
    event: RawEventView,
    process_id: u32,
    i: int,
)
    requires
        0 <= i < reported(info, event, process_id).len(),
    ensures
        reported(info, event, process_id)[i].paths == seq![event.path],
{
    law_no_path(StreamFlags { bits: event.flags }, true, process_id, i);
    assert(reported(info, event, process_id)[i].paths =~= seq![event.path]);
}

/// What is passed on for one list of events and then for another is what is passed on for the
/// two in one.
pub proof fn law_reports_add_up(
    info: Map<Components, bool>,
    first: Seq<RawEventView>,
    second: Seq<RawEventView>,
    process_id: u32,
)
    ensures
        all_reported(info, first + second, process_id) == all_reported(info, first, process_id)
            + all_reported(info, second, process_id),
    decreases second.len(),
{
    if second.len() == 0 {
        assert(first + second =~= first);
        assert(all_reported(info, first, process_id) + all_reported(info, second, process_id)
            =~= all_reported(info, first, process_id));
    } else {
        law_reports_add_up(info, first, second.drop_last(), process_id);
        assert((first + second).drop_last() =~= first + second.drop_last());
        assert(all_reported(info, first + second, process_id) =~= all_reported(
            info,
            first,
            process_id,
        ) + all_reported(info, second, process_id));
    }
}

/// The events before the first faulty one are sound, and that one is not.
pub proof fn law_sound_prefix(batch: Seq<RawEventView>)
    ensures
        sound_prefix(batch) <= batch.len(),
        forall|i: int| 0 <= i < sound_prefix(batch) ==> fault_of(#[trigger] batch[i]) is None,
        sound_prefix(batch) < batch.len() ==> fault_of(batch[sound_prefix(batch) as int]) is Some,
        first_fault(batch) is None <==> sound_prefix(batch) == batch.len(),
    decreases batch.len(),
{
    if batch.len() > 0 && fault_of(batch[0]) is None {
        let rest = batch.drop_first();
        law_sound_prefix(rest);
        assert forall|i: int| 0 <= i < sound_prefix(batch) implies fault_of(
            #[trigger] batch[i],
        ) is None by {
            if i > 0 {
                assert(batch[i] == rest[i - 1]);
            }
        }
    }
}

/// It makes no difference how FSEvents groups events: a batch without a fault and then another
/// come to the same events and the same fault as both in one batch.
pub proof fn law_grouping(
    info: Map<Components, bool>,
    first: Seq<RawEventView>,
    second: Seq<RawEventView>,
    process_id: u32,
)
    requires
        first_fault(first) is None,
    ensures
        first_fault(first + second) == first_fault(second),
        all_reported(
            info,
            (first + second).take(sound_prefix(first + second) as int),
            process_id,
        ) == all_reported(info, first, process_id) + all_reported(
            info,
            second.take(sound_prefix(second) as int),
            process_id,
        ),
{
    law_sound_prefix(first);
    law_sound_prefix(second);
    let both = first + second;
    let n = first.len() + sound_prefix(second);
    assert forall|i: int| 0 <= i < n implies fault_of(#[trigger] both[i]) is None by {
        if i < first.len() {
            assert(both[i] == first[i]);
        } else {
            assert(both[i] == second[i - first.len()]);
        }
    }
    if n < both.len() {
        assert(both[n as int] == second[sound_prefix(second) as int]);
    }
    lemma_sound_prefix(both, n as int);
    assert(both.take(n as int) =~= first + second.take(sound_prefix(second) as int));
    law_reports_add_up(info, first, second.take(sound_prefix(second) as int), process_id);
}

/// The places `picked` name, in rising order, where `part` stands within `whole`.
pub open spec fn picks(part: Seq<EventView>, whole: Seq<EventView>, picked: Seq<int>) -> bool {
    &&& picked.len() == part.len()
    &&& forall|i: int|
        0 <= i < picked.len() ==> 0 <= #[trigger] picked[i] < whole.len() && whole[picked[i]]
            == part[i]
    &&& forall|i: int, j: int|
        0 <= i < j < picked.len() ==> (#[trigger] picked[i]) < (#[trigger] picked[j])
}

/// Whether `part` is what is left of `whole` when some events are left out.
pub open spec fn is_subsequence(part: Seq<EventView>, whole: Seq<EventView>) -> bool {
    exists|picked: Seq<int>| picks(part, whole, picked)
}

/// More events behind the whole, and the same or none behind the part, keep the part in the whole.
proof fn lemma_subsequence_grows(
    part: Seq<EventView>,
    whole: Seq<EventView>,
    next: Seq<EventView>,
)
    requires
        is_subsequence(part, whole),
    ensures
        is_subsequence(part, whole + next),
        is_subsequence(part + next, whole + next),
{
    let picked = choose|picked: Seq<int>| picks(part, whole, picked);
    assert(picks(part, whole + next, picked));
    let further = picked + Seq::new(next.len(), |k: int| whole.len() + k);
    assert(picks(part + next, whole + next, further));
}

/// More watches only ever add to what is passed on for a batch: what is passed on with fewer is
/// left over, in the same order, when some events are left out of what is passed on with more.
pub proof fn law_more_watches_tell_more(
    less: Map<Components, bool>,
    more: Map<Components, bool>,
    batch: Seq<RawEventView>,
    process_id: u32,
)
    requires
        within(less, more),
    ensures
        is_subsequence(
            all_reported(less, batch, process_id),
            all_reported(more, batch, process_id),
        ),
    decreases batch.len(),
{
    if batch.len() == 0 {
        let none = Seq::<EventView>::empty();
        assert(picks(none, none, Seq::<int>::empty()));
    } else {
        let before = batch.drop_last();
        let event = batch.last();
        law_more_watches_tell_more(less, more, before, process_id);
        let part = all_reported(less, before, process_id);
        let whole = all_reported(more, before, process_id);
        let next = reported(more, event, process_id);
        lemma_subsequence_grows(part, whole, next);
        if is_watched(less, components(event.path)) {
            law_more_watches(less, more, components(event.path));
            assert(reported(less, event, process_id) == next);
        } else {
            assert(part + reported(less, event, process_id) =~= part);
        }
    }
}

/// What is passed on for a single event is, if a watch takes its path in, all that its flags stand
/// for, each with the path and with nothing else changed, and otherwise nothing. No event passes
/// nothing on. With the law that reports add up, this settles what is passed on for any batch.
pub proof fn law_single_event(info: Map<Components, bool>, event: RawEventView, process_id: u32)
    ensures
        ({
            let told = translation(StreamFlags { bits: event.flags }, true, process_id);
            let passed = all_reported(info, seq![event], process_id);
            &&& is_watched(info, components(event.path)) ==> passed.len() == told.len()
                && forall|i: int|
                0 <= i < told.len() ==> #[trigger] passed[i] == (EventView {
                    paths: seq![event.path],
                    ..told[i]
                })
            &&& !is_watched(info, components(event.path)) ==> passed.len() == 0
            &&& passed == reported(info, event, process_id)
            &&& all_reported(info, Seq::<RawEventView>::empty(), process_id).len() == 0
        }),
{
    let one = seq![event];
    let told = translation(StreamFlags { bits: event.flags }, true, process_id);
    assert(one.drop_last() =~= Seq::<RawEventView>::empty());
    reveal_with_fuel(all_reported, 2);
    let passed = all_reported(info, one, process_id);
    assert(passed =~= reported(info, event, process_id));
    if is_watched(info, components(event.path)) {
        assert forall|i: int| 0 <= i < told.len() implies #[trigger] passed[i] == (EventView {
            paths: seq![event.path],
            ..told[i]
        }) by {
            law_reported_path(info, event, process_id, i);
            law_no_path(StreamFlags { bits: event.flags }, true, process_id, i);
        }
    }
}

/// Each event of a batch is told in its place: behind all that is told for the events before it
/// comes all that its flags stand for, with its path, if a watch takes that in, and behind this all
/// that is told for the events after it.
pub proof fn law_told_in_place(
    info: Map<Components, bool>,
    batch: Seq<RawEventView>,
    process_id: u32,
    p: int,
)
    requires
        0 <= p < batch.len(),
    ensures
        ({
            let event = batch[p];
            let told = translation(StreamFlags { bits: event.flags }, true, process_id);
            let due: nat = if is_watched(info, components(event.path)) {
                told.len()
            } else {
                0
            };
            let passed = all_reported(info, batch, process_id);
            let before = all_reported(info, batch.take(p), process_id).len();
            let after = all_reported(info, batch.skip(p + 1), process_id).len();
            &&& passed.len() == before + due + after
            &&& forall|i: int|
                0 <= i < due ==> passed[before + i] == (EventView {
                    paths: seq![event.path],
                    ..#[trigger] told[i]
                })
        }),
{
    let event = batch[p];
    let told = translation(StreamFlags { bits: event.flags }, true, process_id);
    let first = batch.take(p);
    let last = batch.skip(p + 1);
    assert(batch =~= (first + seq![event]) + last);
    law_reports_add_up(info, first + seq![event], last, process_id);
    law_reports_add_up(info, first, seq![event], process_id);
    law_single_event(info, event, process_id);
    let one = all_reported(info, seq![event], process_id);
    if is_watched(info, components(event.path)) {
        let passed = all_reported(info, batch, process_id);
        let before = all_reported(info, first, process_id).len();
        assert forall|i: int| 0 <= i < told.len() implies passed[before + i] == (EventView {
            paths: seq![event.path],
            ..#[trigger] told[i]
        }) by {
            assert(passed[before + i] == one[i]);
        }
    }
}

/// Something is wrong with an event exactly if its path is not UTF-8 or its flags set a bit beyond
/// the named ones. The path is looked at first.
pub proof fn law_faults(event: RawEventView)
    ensures
        fault_of(event) is None <==> valid_utf8(event.path) && event.flags < 0x0080_0000,
        fault_of(event) == Some(Fault::InvalidUtf8) <==> !valid_utf8(event.path),
        fault_of(event) == Some(Fault::UnknownFlags(event.flags)) <==> valid_utf8(event.path)
            && event.flags >= 0x0080_0000,
{
    law_known_bits(event.flags);
}

/// The fault of a batch is that of its first faulty event, and a batch of sound events has none.
pub proof fn law_first_fault(batch: Seq<RawEventView>, p: int)
    requires
        0 <= p <= batch.len(),
        forall|i: int| 0 <= i < p ==> fault_of(#[trigger] batch[i]) is None,
        p < batch.len() ==> fault_of(batch[p]) is Some,
    ensures
        sound_prefix(batch) == p,
        p < batch.len() ==> first_fault(batch) == fault_of(batch[p]),
        p == batch.len() ==> first_fault(batch) is None,
{
    lemma_sound_prefix(batch, p);
}

/// An event is heard, with all of its flags, exactly if nothing is wrong with it and a watch takes
/// it in. It is passed over exactly if only the watch is missing.
pub proof fn law_verdict(info: Map<Components, bool>, event: RawEventView, fault: Fault)
    ensures
        verdict(info, event) == Verdict::Heard(StreamFlags { bits: event.flags }) <==> fault_of(
            event,
        ) is None && is_watched(info, components(event.path)),
        verdict(info, event) == Verdict::PassedOver <==> fault_of(event) is None && !is_watched(
            info,
            components(event.path),
        ),
        verdict(info, event) == Verdict::Faulty(fault) <==> fault_of(event) == Some(fault),
{
}

/// What FSEvents hands over, and what a callback knows, is taken as it is.
pub proof fn law_batch_contents(batch: Seq<RawEvent>, info: StreamContextInfo, i: int)
    ensures
        view_batch(batch).len() == batch.len(),
        0 <= i < batch.len() ==> view_batch(batch)[i] == (RawEventView {
            path: batch[i].path@,
            flags: batch[i].flags,
        }),
        info@ == info.recursive_info@,
{
}

} // verus!
