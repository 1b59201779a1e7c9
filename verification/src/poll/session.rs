//! What holds of the whole life of the thread that reads the controllers: of every
//! sequence of searches, polls and rests, from no controller on.

use super::laws::{
    dropping_all_disconnects_all, farewells, lemma_farewells, lemma_slots_of, lemma_told_in_turn,
    the_server_knows_the_slots_in_use, told, told_all,
};
use super::{
    all_wf, in_use, lemma_first_free, lemma_round_keeps_order, lemma_same_records_keep_order,
    managed, newly_opened, recalibrated, round, same_record, slots_of, ManagedController, PollAction,
    PollRead,
};
use crate::controller::{DeviceEvent, MAX_CONTROLLERS};
use crate::device::OpenSlot;
use crate::reader::{Action, Event, Reader};
use vstd::prelude::*;

verus! {

/// An interface that a search comes by, and what opening it gives: the device, what
/// it is read by and the time, or nothing where it fails.
pub ghost struct Candidate<H> {
    pub path: Vec<u8>,
    pub opened: Option<(OpenSlot, H, u64)>,
}

/// The controllers once a search that began with `cs` has come by the first `n`
/// candidates: each that is not open by then is opened, where that succeeds.
pub open spec fn searched<H>(
    cs: Seq<ManagedController<H>>,
    candidates: Seq<Candidate<H>>,
    n: nat,
) -> Seq<ManagedController<H>>
    decreases n,
{
    if n == 0 {
        cs
    } else {
        let before = searched(cs, candidates, (n - 1) as nat);
        let candidate = candidates[n - 1];
        match candidate.opened {
            Some((device, handle, now)) if !managed(before, candidate.path@) => before.push(
                newly_opened(candidate.path, device, handle, now),
            ),
            _ => before,
        }
    }
}

proof fn lemma_search_keeps_order<H>(
    cs: Seq<ManagedController<H>>,
    candidates: Seq<Candidate<H>>,
    n: nat,
)
    requires
        all_wf(cs),
    ensures
        all_wf(searched(cs, candidates, n)),
        in_use(searched(cs, candidates, n)) == in_use(cs),
    decreases n,
{
    if n > 0 {
        let before = searched(cs, candidates, (n - 1) as nat);
        let after = searched(cs, candidates, n);
        lemma_search_keeps_order(cs, candidates, (n - 1) as nat);
        if after.len() > before.len() {
            assert forall|slot: int| 0 <= slot < MAX_CONTROLLERS implies in_use(after)[slot]
                == in_use(before)[slot] by {
                if in_use(after)[slot] {
                    let i = choose|i: int|
                        0 <= i < after.len() && (#[trigger] after[i]).dsu_slot == Some(slot as u8);
                    assert(before[i].dsu_slot == Some(slot as u8));
                }
                if in_use(before)[slot] {
                    let i = choose|i: int|
                        0 <= i < before.len() && (#[trigger] before[i]).dsu_slot == Some(
                            slot as u8,
                        );
                    assert(after[i].dsu_slot == Some(slot as u8));
                }
            }
            assert(in_use(after) =~= in_use(before));
        }
    }
}

/// A search leaves the controllers that were open as they were, in front, and opens
/// no interface a second time.
pub proof fn a_search_leaves_open_controllers_alone<H>(
    cs: Seq<ManagedController<H>>,
    candidates: Seq<Candidate<H>>,
    n: nat,
)
    requires
        all_wf(cs),
    ensures
        cs.is_prefix_of(searched(cs, candidates, n)),
        all_wf(searched(cs, candidates, n)),
    decreases n,
{
    lemma_search_keeps_order(cs, candidates, n);
    if n > 0 {
        a_search_leaves_open_controllers_alone(cs, candidates, (n - 1) as nat);
    }
}

/// Going from one candidate that is not open to the next, over those that are, is
/// all that a search takes.
pub proof fn open_candidates_can_be_passed_over<H>(
    cs: Seq<ManagedController<H>>,
    candidates: Seq<Candidate<H>>,
    from: nat,
    next: nat,
)
    requires
        from <= next <= candidates.len(),
        forall|j: int|
            from <= j < next ==> managed(
                searched(cs, candidates, from),
                (#[trigger] candidates[j]).path@,
            ),
    ensures
        searched(cs, candidates, next) == searched(cs, candidates, from),
    decreases next,
{
    if from < next {
        open_candidates_can_be_passed_over(cs, candidates, from, (next - 1) as nat);
        assert(managed(searched(cs, candidates, from), candidates[next - 1].path@));
    }
}

/// Whether one of the first `n` candidates is at `path` and can be opened.
pub open spec fn can_be_opened<H>(candidates: Seq<Candidate<H>>, n: nat, path: Seq<u8>) -> bool {
    exists|k: int|
        0 <= k < n && (#[trigger] candidates[k]).path@ == path && candidates[k].opened is Some
}

/// After a search exactly those interfaces are open that were before and those of
/// the candidates that could be opened: one that could not keeps none of the others
/// from being tried.
pub proof fn a_failed_opening_stops_no_search<H>(
    cs: Seq<ManagedController<H>>,
    candidates: Seq<Candidate<H>>,
    n: nat,
    path: Seq<u8>,
)
    requires
        n <= candidates.len(),
    ensures
        managed(searched(cs, candidates, n), path) <==> managed(cs, path) || can_be_opened(
            candidates,
            n,
            path,
        ),
    decreases n,
{
    if n > 0 {
        let m = (n - 1) as nat;
        a_failed_opening_stops_no_search(cs, candidates, m, path);
        let before = searched(cs, candidates, m);
        let after = searched(cs, candidates, n);
        let candidate = candidates[m as int];
        if managed(before, path) {
            let i = choose|i: int| 0 <= i < before.len() && (#[trigger] before[i]).path@ == path;
            assert(after[i].path@ == path);
        }
        if after.len() > before.len() && candidate.path@ == path {
            assert(after[before.len() as int].path@ == path);
        }
        if managed(after, path) && !managed(before, path) {
            let i = choose|i: int| 0 <= i < after.len() && (#[trigger] after[i]).path@ == path;
            if i < before.len() {
                assert(before[i].path@ == path);
            }
            assert(candidates[m as int].path@ == path);
        }
        if can_be_opened(candidates, n, path) && !can_be_opened(candidates, m, path) {
            assert(candidate.path@ == path);
        }
    }
}

/// What reading a controller did to its device and what it gave.
pub ghost struct Read<H, T> {
    pub device: OpenSlot,
    pub handle: H,
    pub read: PollRead<T>,
}

/// One thing that the thread does to the controllers.
pub ghost enum Turn<H, T> {
    Search(Seq<Candidate<H>>),
    Recalibrate,
    Poll(Seq<Read<H, T>>),
    DropAll,
}

/// The controllers `cs` after their devices were read.
pub open spec fn after_reading<H, T>(
    cs: Seq<ManagedController<H>>,
    reads: Seq<Read<H, T>>,
) -> Seq<ManagedController<H>> {
    Seq::new(
        cs.len(),
        |i: int|
            ManagedController { device: reads[i].device, handle: reads[i].handle, ..cs[i] },
    )
}

/// What `reads` gave.
pub open spec fn given<H, T>(reads: Seq<Read<H, T>>) -> Seq<PollRead<T>> {
    reads.map_values(|r: Read<H, T>| r.read)
}

/// How far the thread has come: the controllers that are open and everything that
/// followed so far.
pub ghost struct Session<H, T> {
    pub controllers: Seq<ManagedController<H>>,
    pub actions: Seq<PollAction<T>>,
}

impl<H, T> Session<H, T> {
    /// The session after one more turn.
    pub open spec fn after(self, turn: Turn<H, T>) -> Session<H, T> {
        match turn {
            Turn::Search(candidates) => Session {
                controllers: searched(self.controllers, candidates, candidates.len()),
                ..self
            },
            Turn::Recalibrate => Session { controllers: recalibrated(self.controllers), ..self },
            Turn::Poll(reads) => {
                let polled = round(
                    after_reading(self.controllers, reads),
                    given(reads),
                    reads.len(),
                );
                Session { controllers: polled.kept, actions: self.actions + polled.actions }
            },
            Turn::DropAll => Session {
                controllers: seq![],
                actions: self.actions + farewells(slots_of(self.controllers)),
            },
        }
    }

    /// Whether a turn fits: a poll reads each controller once.
    pub open spec fn admits(self, turn: Turn<H, T>) -> bool {
        turn matches Turn::Poll(reads) ==> reads.len() == self.controllers.len()
    }
}

/// The session after `turns`, from no controller and nothing sent on.
pub open spec fn session<H, T>(turns: Seq<Turn<H, T>>) -> Session<H, T>
    decreases turns.len(),
{
    if turns.len() == 0 {
        Session { controllers: seq![], actions: seq![] }
    } else {
        session(turns.drop_last()).after(turns.last())
    }
}

/// Whether each turn fits where it stands.
pub open spec fn fitting<H, T>(turns: Seq<Turn<H, T>>) -> bool
    decreases turns.len(),
{
    turns.len() > 0 ==> fitting(turns.drop_last()) && session(turns.drop_last()).admits(
        turns.last(),
    )
}

/// A server that holds no slot for connected.
pub open spec fn none_connected() -> Seq<bool> {
    Seq::new(MAX_CONTROLLERS as nat, |slot: int| false)
}

/// The slot that `action` tells the server of.
pub open spec fn slot_named<T>(action: PollAction<T>) -> Option<u8> {
    match action {
        PollAction::Send(DeviceEvent::Sample { slot, .. }) => Some(slot),
        PollAction::Send(DeviceEvent::Disconnected { slot }) => Some(slot),
        PollAction::Log(_) => None,
    }
}

/// Whether `action` sends a sample to `slot`.
pub open spec fn samples<T>(action: PollAction<T>, slot: u8) -> bool {
    action matches PollAction::Send(DeviceEvent::Sample { slot: to, .. }) && to == slot
}

/// Whether the server is told of existing slots only.
pub open spec fn names_slots<T>(actions: Seq<PollAction<T>>) -> bool {
    forall|k: int|
        0 <= k < actions.len() ==> (slot_named(#[trigger] actions[k]) matches Some(slot) ==> slot
            < MAX_CONTROLLERS)
}

proof fn lemma_round_names_slots<H, T>(
    cs: Seq<ManagedController<H>>,
    reads: Seq<PollRead<T>>,
    n: nat,
)
    requires
        all_wf(cs),
        n <= cs.len(),
    ensures
        names_slots(round(cs, reads, n).actions),
    decreases n,
{
    if n > 0 {
        let m = (n - 1) as nat;
        lemma_round_names_slots(cs, reads, m);
        lemma_round_keeps_order(cs, reads, m);
        assert(cs[m as int].wf());
        lemma_first_free(round(cs, reads, m).occupied, 0);
        let polled = cs[m as int].polled(round(cs, reads, m).occupied, reads[m as int], m as int);
        assert(names_slots(polled.actions));
    }
}

/// Whatever the thread does, no slot and no interface is ever had by two
/// controllers, and a server that hears of everything holds exactly the slots in
/// use for connected.
pub proof fn every_session_is_in_order<H, T>(turns: Seq<Turn<H, T>>)
    requires
        fitting(turns),
    ensures
        all_wf(session(turns).controllers),
        told_all(none_connected(), session(turns).actions) == in_use(session(turns).controllers),
        names_slots(session(turns).actions),
    decreases turns.len(),
{
    if turns.len() == 0 {
        assert(none_connected() =~= in_use(session(turns).controllers));
    } else {
        every_session_is_in_order(turns.drop_last());
        let before = session(turns.drop_last());
        let cs = before.controllers;
        match turns.last() {
            Turn::Search(candidates) => {
                lemma_search_keeps_order(cs, candidates, candidates.len());
            },
            Turn::Recalibrate => {
                lemma_same_records_keep_order(cs, recalibrated(cs));
            },
            Turn::Poll(reads) => {
                let read = after_reading(cs, reads);
                assert forall|i: int| 0 <= i < cs.len() implies same_record(
                    cs[i],
                    #[trigger] read[i],
                ) by {}
                lemma_same_records_keep_order(cs, read);
                the_server_knows_the_slots_in_use(read, given(reads));
                lemma_round_keeps_order(read, given(reads), read.len());
                lemma_round_names_slots(read, given(reads), read.len());
                let polled = round(read, given(reads), read.len());
                assert(polled.kept + read.skip(read.len() as int) =~= polled.kept);
                lemma_told_in_turn(none_connected(), before.actions, polled.actions);
            },
            Turn::DropAll => {
                let last = farewells::<T>(slots_of(cs));
                lemma_slots_of(cs);
                lemma_farewells::<T>(in_use(cs), slots_of(cs));
                dropping_all_disconnects_all::<H, T>(cs);
                lemma_told_in_turn(none_connected(), before.actions, last);
                assert(told_all(in_use(cs), last) =~= in_use(session(turns).controllers));
            },
        }
    }
}

/// Whether the action at `j` reports `slot` gone and none after it names the slot.
pub open spec fn is_last_word<T>(actions: Seq<PollAction<T>>, j: int, slot: u8) -> bool {
    &&& 0 <= j < actions.len()
    &&& actions[j] == PollAction::<T>::Send(DeviceEvent::Disconnected { slot })
    &&& forall|k: int|
        j < k < actions.len() ==> slot_named(#[trigger] actions[k]) != Some(slot)
}

proof fn lemma_told_len<T>(connected: Seq<bool>, actions: Seq<PollAction<T>>)
    requires
        connected.len() == MAX_CONTROLLERS,
        names_slots(actions),
    ensures
        told_all(connected, actions).len() == MAX_CONTROLLERS,
    decreases actions.len(),
{
    if actions.len() > 0 {
        lemma_told_len(connected, actions.drop_last());
        assert(slot_named(actions[actions.len() - 1]) matches Some(slot) ==> slot
            < MAX_CONTROLLERS);
    }
}

proof fn lemma_last_word<T>(
    connected: Seq<bool>,
    actions: Seq<PollAction<T>>,
    i: int,
    slot: u8,
)
    requires
        connected.len() == MAX_CONTROLLERS,
        names_slots(actions),
        0 <= i < actions.len(),
        samples(actions[i], slot),
        !told_all(connected, actions)[slot as int],
    ensures
        exists|j: int| i < j && #[trigger] is_last_word(actions, j, slot),
    decreases actions.len(),
{
    let last = actions.len() - 1;
    let shorter = actions.drop_last();
    lemma_told_len(connected, shorter);
    assert(slot_named(actions[i]) == Some(slot));
    assert(slot < MAX_CONTROLLERS);
    if slot_named(actions[last]) == Some(slot) {
        assert(told_all(connected, actions) == told(told_all(connected, shorter), actions[last]));
        assert(is_last_word(actions, last, slot));
    } else {
        assert(slot_named(actions[last]) matches Some(other) ==> other < MAX_CONTROLLERS);
        lemma_last_word(connected, shorter, i, slot);
        let j = choose|j: int| i < j && #[trigger] is_last_word(shorter, j, slot);
        assert forall|k: int| j < k < actions.len() implies slot_named(#[trigger] actions[k])
            != Some(slot) by {
            if k < last {
                assert(shorter[k] == actions[k]);
            }
        }
        assert(is_last_word(actions, j, slot));
    }
}

/// One step of the thread's loop: the event that it takes in, and what is done to
/// the controllers on the action that follows.
pub ghost struct Lap<H, T> {
    pub event: Event,
    pub turns: Seq<Turn<H, T>>,
}

/// Whether `turns` is what `action` asks to be done to the controllers.
pub open spec fn carries_out<H, T>(action: Action, turns: Seq<Turn<H, T>>) -> bool {
    match action {
        Action::Stop | Action::Rest => turns.len() == 1 && turns[0] is DropAll,
        Action::OpenCandidates => turns.len() == 1 && turns[0] is Search,
        Action::Poll => {
            ||| turns.len() == 1 && turns[0] is Poll
            ||| turns.len() == 2 && turns[0] is Recalibrate && turns[1] is Poll
        },
        Action::Wake | Action::Refresh | Action::Rebuild | Action::BackOff => turns.len() == 0,
    }
}

/// Whether `event` can come of `action`. Nothing comes of the end.
pub open spec fn comes_of(action: Action, event: Event) -> bool {
    match action {
        Action::Stop => false,
        Action::Refresh => event is Refreshed,
        Action::Rebuild => event is Rebuilt,
        Action::OpenCandidates => event is Opened,
        Action::Rest => event is Rested,
        Action::Wake | Action::BackOff | Action::Poll => event is Woke,
    }
}

/// The loop's state after `laps`, from `start` on.
pub open spec fn reader_after<H, T>(start: Reader, laps: Seq<Lap<H, T>>) -> Reader
    decreases laps.len(),
{
    if laps.len() == 0 {
        start
    } else {
        reader_after(start, laps.drop_last()).next(laps.last().event).0
    }
}

/// The action that the last of `laps` led to.
pub open spec fn last_action<H, T>(start: Reader, laps: Seq<Lap<H, T>>) -> Action {
    reader_after(start, laps.drop_last()).next(laps.last().event).1
}

/// Everything done to the controllers in `laps`.
pub open spec fn turns_of<H, T>(laps: Seq<Lap<H, T>>) -> Seq<Turn<H, T>>
    decreases laps.len(),
{
    if laps.len() == 0 {
        seq![]
    } else {
        turns_of(laps.drop_last()) + laps.last().turns
    }
}

/// Whether `laps` is a life of the thread so far: it wakes first, each event comes
/// of the action before it, and each action is carried out.
pub open spec fn is_life<H, T>(start: Reader, laps: Seq<Lap<H, T>>) -> bool
    decreases laps.len(),
{
    laps.len() > 0 ==> {
        &&& is_life(start, laps.drop_last())
        &&& if laps.len() == 1 {
            laps.last().event is Woke
        } else {
            comes_of(last_action(start, laps.drop_last()), laps.last().event)
        }
        &&& carries_out(last_action(start, laps), laps.last().turns)
    }
}

proof fn lemma_dropped_in_the_end<H, T>(laps: Seq<Lap<H, T>>)
    requires
        laps.len() > 0,
        laps.last().turns.len() == 1,
        laps.last().turns[0] is DropAll,
    ensures
        session(turns_of(laps)).controllers.len() == 0,
{
    let turns = turns_of(laps);
    assert(turns.last() == laps.last().turns[0]);
}

/// The thread ends only once it is told to, and then, or where it never began, no
/// controller is open, a server that hears of everything holds no slot for
/// connected, and the last that was said of each slot that a sample went to is that
/// it is gone. A thread that never began has sent nothing.
pub proof fn a_thread_that_ended_leaves_no_slot_connected<H, T>(
    start: Reader,
    laps: Seq<Lap<H, T>>,
)
    requires
        is_life(start, laps),
        fitting(turns_of(laps)),
        laps.len() == 0 || last_action(start, laps) is Stop,
    ensures
        laps.len() > 0 ==> (laps.last().event matches Event::Woke { shutdown, .. } && shutdown),
        laps.len() == 0 ==> session(turns_of(laps)).actions.len() == 0,
        session(turns_of(laps)).controllers.len() == 0,
        told_all(none_connected(), session(turns_of(laps)).actions) == none_connected(),
        forall|i: int, slot: u8|
            0 <= i < session(turns_of(laps)).actions.len() && #[trigger] samples(
                session(turns_of(laps)).actions[i],
                slot,
            ) ==> exists|j: int|
                i < j && #[trigger] is_last_word(session(turns_of(laps)).actions, j, slot),
{
    let turns = turns_of(laps);
    let actions = session(turns).actions;
    if laps.len() > 0 {
        lemma_dropped_in_the_end(laps);
    }
    every_session_is_in_order(turns);
    assert(in_use(session(turns).controllers) =~= none_connected());
    assert forall|i: int, slot: u8|
        0 <= i < actions.len() && #[trigger] samples(
            actions[i],
            slot,
        ) implies exists|j: int| i < j && #[trigger] is_last_word(actions, j, slot) by {
        assert(slot_named(actions[i]) == Some(slot));
        lemma_last_word(none_connected(), actions, i, slot);
    }
}

/// When the thread wakes and nobody wants the controllers, it opens and polls none:
/// all are dropped, and a server that hears of everything holds no slot for
/// connected.
pub proof fn nothing_is_held_while_unwanted<H, T>(
    start: Reader,
    laps: Seq<Lap<H, T>>,
    shutdown: bool,
    now: u64,
)
    requires
        is_life(start, laps),
        fitting(turns_of(laps)),
        laps.len() > 0,
        laps.last().event == (Event::Woke { shutdown, dsu_wants: false, ui_wants: false, now }),
    ensures
        laps.last().turns == seq![Turn::<H, T>::DropAll],
        session(turns_of(laps)).controllers.len() == 0,
        told_all(none_connected(), session(turns_of(laps)).actions) == none_connected(),
{
    assert(laps.last().turns =~= seq![Turn::<H, T>::DropAll]);
    lemma_dropped_in_the_end(laps);
    every_session_is_in_order(turns_of(laps));
    assert(in_use(session(turns_of(laps)).controllers) =~= none_connected());
}

} // verus!
