//! What holds of every round and of every run of reads.

use super::{
    all_wf, first_free, in_use, lemma_first_free, lemma_round_keeps_order, round, slots_of,
    ManagedController, Outcome, PollAction, PollRead, Polled, ERROR_THRESHOLD, SILENCE_REOPEN,
    STALE_THRESHOLD,
};
use crate::controller::{ControllerState, DeviceEvent, MAX_CONTROLLERS};
use crate::flydigi;
use vstd::prelude::*;

verus! {

pub(super) proof fn lemma_slots_of<H>(cs: Seq<ManagedController<H>>)
    requires
        all_wf(cs),
    ensures
        slots_of(cs).no_duplicates(),
        forall|k: int|
            0 <= k < slots_of(cs).len() ==> (#[trigger] slots_of(cs)[k]) < MAX_CONTROLLERS && (
            exists|i: int| 0 <= i < cs.len() && (#[trigger] cs[i]).dsu_slot == Some(slots_of(cs)[k])),
    decreases cs.len(),
{
    if cs.len() > 0 {
        let shorter = cs.drop_last();
        let last = cs.len() - 1;
        assert forall|i: int| 0 <= i < shorter.len() implies shorter[i] == cs[i] by {}
        assert(all_wf(shorter));
        lemma_slots_of(shorter);
        assert(cs[last].wf());
        assert forall|k: int| 0 <= k < slots_of(cs).len() implies (#[trigger] slots_of(cs)[k])
            < MAX_CONTROLLERS && (exists|i: int|
            0 <= i < cs.len() && (#[trigger] cs[i]).dsu_slot == Some(slots_of(cs)[k])) by {
            if k < slots_of(shorter).len() {
                assert(slots_of(cs)[k] == slots_of(shorter)[k]);
                let i = choose|i: int|
                    0 <= i < shorter.len() && (#[trigger] shorter[i]).dsu_slot == Some(
                        slots_of(shorter)[k],
                    );
                assert(cs[i].dsu_slot == Some(slots_of(cs)[k]));
            } else {
                assert(cs[last].dsu_slot == Some(slots_of(cs)[k]));
            }
        }
        if let Some(slot) = cs.last().dsu_slot {
            assert forall|k: int| 0 <= k < slots_of(shorter).len() implies slots_of(shorter)[k]
                != slot by {
                let i = choose|i: int|
                    0 <= i < shorter.len() && (#[trigger] shorter[i]).dsu_slot == Some(
                        slots_of(shorter)[k],
                    );
                assert(cs[i].dsu_slot != cs[last].dsu_slot);
            }
        }
    }
}

/// At most four controllers have a slot at a time.
pub proof fn at_most_four_have_slots<H>(cs: Seq<ManagedController<H>>)
    requires
        all_wf(cs),
    ensures
        slots_of(cs).no_duplicates(),
        slots_of(cs).len() <= MAX_CONTROLLERS,
{
    lemma_slots_of(cs);
    let slots = slots_of(cs);
    let all = set![0u8, 1u8, 2u8, 3u8];
    slots.unique_seq_to_set();
    assert(slots.to_set().subset_of(all)) by {
        assert forall|slot: u8| slots.to_set().contains(slot) implies all.contains(slot) by {
            let k = choose|k: int| 0 <= k < slots.len() && slots[k] == slot;
            assert(slots[k] < MAX_CONTROLLERS);
        }
    }
    vstd::set_lib::lemma_len_subset(slots.to_set(), all);
}

/// A controller that stays keeps its interface, its device and, once it has one,
/// its slot.
pub proof fn slots_are_kept<H, T>(
    c: ManagedController<H>,
    occupied: Seq<bool>,
    read: PollRead<T>,
    position: int,
)
    ensures
        ({
            let polled = c.polled(occupied, read, position);
            &&& polled.controller.path == c.path
            &&& polled.controller.device == c.device
            &&& polled.controller.handle == c.handle
            &&& c.dsu_slot is Some ==> polled.controller.dsu_slot == c.dsu_slot
        }),
{
}

/// Samples go out under the slot of the controller that took them, only while it
/// stays and only where they are fresh; a controller that leaves gives its slot
/// back and is reported gone, for that slot only.
pub proof fn events_follow_the_slot<H, T>(
    c: ManagedController<H>,
    occupied: Seq<bool>,
    read: PollRead<T>,
    position: int,
)
    requires
        c.wf(),
        occupied.len() == MAX_CONTROLLERS,
    ensures
        ({
            let polled = c.polled(occupied, read, position);
            &&& forall|slot: u8, state: ControllerState<T>|
                #[trigger] polled.actions.contains(
                    PollAction::Send(DeviceEvent::Sample { slot, state }),
                ) <==> {
                    &&& read.outcome == Outcome::Sample(state)
                    &&& c.is_fresh(state.imu.timestamp_us)
                    &&& polled.keep
                    &&& polled.controller.dsu_slot == Some(slot)
                }
            &&& forall|slot: u8|
                #[trigger] polled.actions.contains(
                    PollAction::Send(DeviceEvent::Disconnected { slot }),
                ) <==> !polled.keep && c.dsu_slot == Some(slot)
            &&& !polled.keep ==> (c.dsu_slot matches Some(slot) ==> !polled.occupied[slot as int])
        }),
{
    let polled = c.polled(occupied, read, position);
    lemma_first_free(occupied, 0);
    assert forall|slot: u8, state: ControllerState<T>|
        #[trigger] polled.actions.contains(
            PollAction::Send(DeviceEvent::Sample { slot, state }),
        ) <==> {
            &&& read.outcome == Outcome::Sample(state)
            &&& c.is_fresh(state.imu.timestamp_us)
            &&& polled.keep
            &&& polled.controller.dsu_slot == Some(slot)
        } by {
        let event = PollAction::Send(DeviceEvent::Sample { slot, state });
        if read.outcome == Outcome::Sample(state) && c.is_fresh(state.imu.timestamp_us)
            && polled.controller.dsu_slot == Some(slot) {
            assert(polled.actions.last() == event);
        }
    }
    assert forall|slot: u8|
        #[trigger] polled.actions.contains(
            PollAction::Send(DeviceEvent::Disconnected { slot }),
        ) <==> !polled.keep && c.dsu_slot == Some(slot) by {
        if !polled.keep && c.dsu_slot == Some(slot) {
            assert(polled.actions[polled.actions.len() - 2] == PollAction::<T>::Send(
                DeviceEvent::Disconnected { slot },
            ));
        }
    }
}

/// A controller without a slot gets the lowest free one with its first fresh
/// sample, and stays without where none is free.
pub proof fn the_lowest_free_slot_is_assigned<H, T>(
    c: ManagedController<H>,
    occupied: Seq<bool>,
    state: ControllerState<T>,
    at: u64,
    position: int,
)
    requires
        c.wf(),
        c.dsu_slot is None,
        c.is_fresh(state.imu.timestamp_us),
        occupied.len() == MAX_CONTROLLERS,
    ensures
        ({
            let read = PollRead { outcome: Outcome::Sample(state), at };
            let polled = c.polled(occupied, read, position);
            &&& polled.keep
            &&& match polled.controller.dsu_slot {
                Some(slot) => {
                    &&& slot < MAX_CONTROLLERS
                    &&& !occupied[slot as int]
                    &&& forall|lower: int| 0 <= lower < slot ==> occupied[lower]
                    &&& polled.occupied == occupied.update(slot as int, true)
                },
                None => {
                    &&& forall|slot: int| 0 <= slot < MAX_CONTROLLERS ==> occupied[slot]
                    &&& polled.actions.len() == 0
                },
            }
        }),
{
    lemma_first_free(occupied, 0);
}

/// Whether a read is a sample that is fresh to `c`.
pub open spec fn delivers<H, T>(c: ManagedController<H>, read: PollRead<T>) -> bool {
    read.outcome matches Outcome::Sample(state) && c.is_fresh(state.imu.timestamp_us)
}

proof fn lemma_discovery_order<H, T>(
    cs: Seq<ManagedController<H>>,
    reads: Seq<PollRead<T>>,
    n: nat,
)
    requires
        all_wf(cs),
        reads.len() == cs.len(),
        n <= cs.len(),
        forall|i: int|
            0 <= i < cs.len() ==> (#[trigger] cs[i]).dsu_slot is None && delivers(cs[i], reads[i]),
    ensures
        round(cs, reads, n).kept.len() == n,
        round(cs, reads, n).occupied.len() == MAX_CONTROLLERS,
        forall|slot: int|
            0 <= slot < MAX_CONTROLLERS ==> (#[trigger] round(cs, reads, n).occupied[slot]) == (slot
                < n),
        forall|i: int|
            0 <= i < n ==> (#[trigger] round(cs, reads, n).kept[i]).dsu_slot == (if i
                < MAX_CONTROLLERS {
                Some(i as u8)
            } else {
                None
            }),
    decreases n,
{
    if n > 0 {
        let m = (n - 1) as nat;
        lemma_discovery_order(cs, reads, m);
        assert(cs[m as int].dsu_slot is None);
        lemma_first_free(round(cs, reads, m).occupied, 0);
        let free = first_free(round(cs, reads, m).occupied, 0);
        if m < MAX_CONTROLLERS {
            assert(!round(cs, reads, m).occupied[m as int]);
            assert(free == Some(m as u8));
        } else {
            assert(free is None);
        }
    } else {
        assert forall|slot: int| 0 <= slot < MAX_CONTROLLERS implies !(#[trigger] in_use(
            cs,
        )[slot]) by {}
    }
}

/// Controllers that all deliver in the round after they were found are exposed in
/// the order of discovery: the first four have the slots 0 to 3, the rest none.
pub proof fn slots_follow_discovery<H, T>(
    cs: Seq<ManagedController<H>>,
    reads: Seq<PollRead<T>>,
)
    requires
        all_wf(cs),
        reads.len() == cs.len(),
        forall|i: int|
            0 <= i < cs.len() ==> (#[trigger] cs[i]).dsu_slot is None && delivers(cs[i], reads[i]),
    ensures
        round(cs, reads, cs.len()).kept.len() == cs.len(),
        forall|i: int|
            0 <= i < cs.len() ==> (#[trigger] round(cs, reads, cs.len()).kept[i]).dsu_slot == (if i
                < MAX_CONTROLLERS {
                Some(i as u8)
            } else {
                None
            }),
{
    lemma_discovery_order(cs, reads, cs.len());
}

proof fn lemma_new_slots_ascend<H, T>(
    cs: Seq<ManagedController<H>>,
    reads: Seq<PollRead<T>>,
    n: nat,
)
    requires
        all_wf(cs),
        reads.len() == cs.len(),
        n <= cs.len(),
        round(cs, reads, n).kept.len() == n,
    ensures
        round(cs, reads, n).occupied.len() == MAX_CONTROLLERS,
        forall|i: int, j: int|
            #![trigger round(cs, reads, n).kept[i], round(cs, reads, n).kept[j]]
            0 <= i < j < n && cs[i].dsu_slot is None && cs[j].dsu_slot is None ==> (match (
                round(cs, reads, n).kept[i].dsu_slot,
                round(cs, reads, n).kept[j].dsu_slot,
            ) {
                (Some(a), Some(b)) => a < b,
                _ => true,
            }),
        forall|i: int, slot: int|
            #![trigger round(cs, reads, n).kept[i], round(cs, reads, n).occupied[slot]]
            0 <= i < n && cs[i].dsu_slot is None && 0 <= slot && (
            round(cs, reads, n).kept[i].dsu_slot matches Some(a) && slot <= a)
                ==> round(cs, reads, n).occupied[slot],
    decreases n,
{
    if n > 0 {
        let m = (n - 1) as nat;
        lemma_kept_len(cs, reads, m);
        lemma_new_slots_ascend(cs, reads, m);
        assert(cs[m as int].wf());
        lemma_first_free(round(cs, reads, m).occupied, 0);
        let before = round(cs, reads, m);
        let after = round(cs, reads, n);
        assert forall|i: int| 0 <= i < m implies after.kept[i] == before.kept[i] by {}
    }
}

proof fn lemma_kept_len<H, T>(cs: Seq<ManagedController<H>>, reads: Seq<PollRead<T>>, n: nat)
    ensures
        round(cs, reads, n).kept.len() <= n,
    decreases n,
{
    if n > 0 {
        lemma_kept_len(cs, reads, (n - 1) as nat);
    }
}

/// In a round that nobody leaves, of two controllers that get a slot the one
/// discovered earlier gets the lower.
pub proof fn earlier_controllers_get_lower_slots<H, T>(
    cs: Seq<ManagedController<H>>,
    reads: Seq<PollRead<T>>,
    i: int,
    j: int,
)
    requires
        all_wf(cs),
        reads.len() == cs.len(),
        round(cs, reads, cs.len()).kept.len() == cs.len(),
        0 <= i < j < cs.len(),
        cs[i].dsu_slot is None,
        cs[j].dsu_slot is None,
        round(cs, reads, cs.len()).kept[i].dsu_slot is Some,
        round(cs, reads, cs.len()).kept[j].dsu_slot is Some,
    ensures
        round(cs, reads, cs.len()).kept[i].dsu_slot.unwrap() < round(
            cs,
            reads,
            cs.len(),
        ).kept[j].dsu_slot.unwrap(),
{
    lemma_new_slots_ascend(cs, reads, cs.len());
}

/// What a run of reads does to one controller, up to the read that it leaves
/// after.
pub open spec fn run<H, T>(
    c: ManagedController<H>,
    occupied: Seq<bool>,
    reads: Seq<PollRead<T>>,
) -> Polled<H, T>
    decreases reads.len(),
{
    if reads.len() == 0 {
        ManagedController::stays(c, occupied, seq![])
    } else {
        let before = run(c, occupied, reads.drop_last());
        if before.keep {
            before.controller.polled(before.occupied, reads.last(), 0)
        } else {
            before
        }
    }
}

/// A controller whose last read did not fail outlives four failed reads in a row
/// and leaves with the fifth; any other read starts the count over.
pub proof fn five_failures_in_a_row_drop_a_controller<H, T>(
    c: ManagedController<H>,
    occupied: Seq<bool>,
    read: PollRead<T>,
    failures: Seq<PollRead<T>>,
)
    requires
        c.wf(),
        !(read.outcome is Failed),
        c.polled(occupied, read, 0).keep,
        forall|i: int| 0 <= i < failures.len() ==> (#[trigger] failures[i]).outcome is Failed,
    ensures
        c.polled(occupied, read, 0).controller.consecutive_errors == 0,
        run(
            c.polled(occupied, read, 0).controller,
            c.polled(occupied, read, 0).occupied,
            failures,
        ).keep <==> failures.len() < ERROR_THRESHOLD,
{
    let polled = c.polled(occupied, read, 0);
    lemma_failures(polled.controller, polled.occupied, failures);
}

proof fn lemma_failures<H, T>(
    c: ManagedController<H>,
    occupied: Seq<bool>,
    reads: Seq<PollRead<T>>,
)
    requires
        c.consecutive_errors < ERROR_THRESHOLD,
        forall|i: int| 0 <= i < reads.len() ==> (#[trigger] reads[i]).outcome is Failed,
    ensures
        run(c, occupied, reads).keep <==> c.consecutive_errors + reads.len() < ERROR_THRESHOLD,
        run(c, occupied, reads).keep ==> run(c, occupied, reads).controller.consecutive_errors
            == c.consecutive_errors + reads.len(),
    decreases reads.len(),
{
    if reads.len() > 0 {
        lemma_failures(c, occupied, reads.drop_last());
        assert(reads[reads.len() - 1].outcome is Failed);
    }
}

proof fn lemma_frozen<H, T>(
    c: ManagedController<H>,
    occupied: Seq<bool>,
    reads: Seq<PollRead<T>>,
)
    requires
        c.stale_samples < STALE_THRESHOLD,
        forall|i: int| 0 <= i < reads.len() ==> is_repeat(c, #[trigger] reads[i]),
    ensures
        run(c, occupied, reads).keep <==> c.stale_samples + reads.len() < STALE_THRESHOLD,
        run(c, occupied, reads).keep ==> {
            &&& run(c, occupied, reads).controller.stale_samples == c.stale_samples + reads.len()
            &&& run(c, occupied, reads).controller.last_imu_timestamp == c.last_imu_timestamp
        },
    decreases reads.len(),
{
    if reads.len() > 0 {
        assert forall|i: int| 0 <= i < reads.drop_last().len() implies is_repeat(
            c,
            #[trigger] reads.drop_last()[i],
        ) by {
            assert(is_repeat(c, reads[i]));
        }
        lemma_frozen(c, occupied, reads.drop_last());
        assert(is_repeat(c, reads[reads.len() - 1]));
    }
}

/// Whether a read is a sample with the timestamp that `c` saw last.
pub open spec fn is_repeat<H, T>(c: ManagedController<H>, read: PollRead<T>) -> bool {
    read.outcome matches Outcome::Sample(state) && c.last_imu_timestamp == Some(
        state.imu.timestamp_us,
    )
}

/// A controller whose motion timestamp stands still from a fresh sample on
/// outlives 99 such samples and leaves with the hundredth.
pub proof fn a_frozen_timestamp_drops_a_controller<H, T>(
    c: ManagedController<H>,
    occupied: Seq<bool>,
    read: PollRead<T>,
    repeats: Seq<PollRead<T>>,
)
    requires
        c.wf(),
        delivers(c, read),
        forall|i: int|
            0 <= i < repeats.len() ==> is_repeat(
                c.polled(occupied, read, 0).controller,
                #[trigger] repeats[i],
            ),
    ensures
        c.polled(occupied, read, 0).controller.stale_samples == 0,
        run(
            c.polled(occupied, read, 0).controller,
            c.polled(occupied, read, 0).occupied,
            repeats,
        ).keep <==> repeats.len() < STALE_THRESHOLD,
{
    let polled = c.polled(occupied, read, 0);
    lemma_frozen(polled.controller, polled.occupied, repeats);
}

/// A pad that was polled after each of its samples never passes for frozen: its
/// next sample is fresh.
pub proof fn samples_of_a_pad_are_fresh<H>(
    c: ManagedController<H>,
    slot: flydigi::OpenSlot,
    frame: Seq<u8>,
    reading: flydigi::Reading,
)
    requires
        c.last_imu_timestamp is Some ==> c.last_imu_timestamp == Some(slot.sensor_timestamp_us),
        slot.reads(frame, reading),
    ensures
        c.is_fresh(reading.state.imu.timestamp_us),
{
}

/// Silence drops a controller exactly when two seconds have passed since its last
/// sample.
pub proof fn two_silent_seconds_drop_a_controller<H, T>(
    c: ManagedController<H>,
    occupied: Seq<bool>,
    at: u64,
    position: int,
)
    ensures
        ({
            let read = PollRead { outcome: Outcome::<T>::Silent, at };
            c.polled(occupied, read, position).keep <==> at - c.last_sample_at < SILENCE_REOPEN
        }),
{
}

/// The slots that the server holds for connected once it is told of `action`.
pub open spec fn told<T>(connected: Seq<bool>, action: PollAction<T>) -> Seq<bool> {
    match action {
        PollAction::Send(DeviceEvent::Sample { slot, .. }) => connected.update(slot as int, true),
        PollAction::Send(DeviceEvent::Disconnected { slot }) => connected.update(
            slot as int,
            false,
        ),
        PollAction::Log(_) => connected,
    }
}

/// The slots that the server holds for connected once it is told of all
/// `actions`.
pub open spec fn told_all<T>(connected: Seq<bool>, actions: Seq<PollAction<T>>) -> Seq<bool>
    decreases actions.len(),
{
    if actions.len() == 0 {
        connected
    } else {
        told(told_all(connected, actions.drop_last()), actions.last())
    }
}

pub(super) proof fn lemma_told_in_turn<T>(
    connected: Seq<bool>,
    first: Seq<PollAction<T>>,
    later: Seq<PollAction<T>>,
)
    ensures
        told_all(connected, first + later) == told_all(told_all(connected, first), later),
    decreases later.len(),
{
    if later.len() == 0 {
        assert(first + later =~= first);
    } else {
        assert((first + later).drop_last() =~= first + later.drop_last());
        lemma_told_in_turn(connected, first, later.drop_last());
    }
}

proof fn lemma_told_of_one<H, T>(
    c: ManagedController<H>,
    occupied: Seq<bool>,
    read: PollRead<T>,
    position: int,
)
    requires
        c.wf(),
        occupied.len() == MAX_CONTROLLERS,
        c.dsu_slot matches Some(slot) ==> occupied[slot as int],
    ensures
        told_all(occupied, c.polled(occupied, read, position).actions) == c.polled(
            occupied,
            read,
            position,
        ).occupied,
{
    let polled = c.polled(occupied, read, position);
    lemma_first_free(occupied, 0);
    reveal_with_fuel(told_all, 4);
    if polled.actions.len() > 0 {
        let shorter = polled.actions.drop_last();
        if shorter.len() > 0 {
            let shortest = shorter.drop_last();
            if shortest.len() > 0 {
                assert(shortest.drop_last().len() == 0);
            }
        }
    }
    assert(told_all(occupied, polled.actions) =~= polled.occupied);
}

proof fn lemma_told_of_round<H, T>(
    cs: Seq<ManagedController<H>>,
    reads: Seq<PollRead<T>>,
    n: nat,
)
    requires
        all_wf(cs),
        n <= cs.len(),
    ensures
        told_all(in_use(cs), round(cs, reads, n).actions) == round(cs, reads, n).occupied,
    decreases n,
{
    if n > 0 {
        let m = (n - 1) as nat;
        lemma_told_of_round(cs, reads, m);
        lemma_round_keeps_order(cs, reads, m);
        let before = round(cs, reads, m);
        let c = cs[m as int];
        let current = before.kept + cs.skip(m as int);
        assert(current[before.kept.len() as int] == c);
        assert(c.wf());
        if let Some(slot) = c.dsu_slot {
            assert(in_use(current)[slot as int]);
        }
        lemma_told_of_one(c, before.occupied, reads[m as int], m as int);
        lemma_told_in_turn(
            in_use(cs),
            before.actions,
            c.polled(before.occupied, reads[m as int], m as int).actions,
        );
    }
}

/// A server that held the slots in use for connected, and hears of everything
/// that a round sends, holds the slots in use for connected after it.
pub proof fn the_server_knows_the_slots_in_use<H, T>(
    cs: Seq<ManagedController<H>>,
    reads: Seq<PollRead<T>>,
)
    requires
        all_wf(cs),
        reads.len() == cs.len(),
    ensures
        told_all(in_use(cs), round(cs, reads, cs.len()).actions) == in_use(
            round(cs, reads, cs.len()).kept,
        ),
{
    lemma_told_of_round(cs, reads, cs.len());
    lemma_round_keeps_order(cs, reads, cs.len());
    assert(round(cs, reads, cs.len()).kept + cs.skip(cs.len() as int) =~= round(
        cs,
        reads,
        cs.len(),
    ).kept);
}

/// After a round, every controller is one that was there before, with its
/// interface, its device and, where it had one, its slot.
pub proof fn a_round_adds_no_controller<H, T>(
    cs: Seq<ManagedController<H>>,
    reads: Seq<PollRead<T>>,
    n: nat,
    k: int,
)
    requires
        n <= cs.len(),
        0 <= k < round(cs, reads, n).kept.len(),
    ensures
        exists|i: int|
            0 <= i < n && {
                let kept = round(cs, reads, n).kept[k];
                &&& kept.path == (#[trigger] cs[i]).path
                &&& kept.device == cs[i].device
                &&& kept.handle == cs[i].handle
                &&& cs[i].dsu_slot is Some ==> kept.dsu_slot == cs[i].dsu_slot
            },
    decreases n,
{
    let m = (n - 1) as nat;
    if k < round(cs, reads, m).kept.len() {
        a_round_adds_no_controller(cs, reads, m, k);
    } else {
        assert(round(cs, reads, n).kept[k].path == cs[m as int].path);
    }
}

/// What dropping every controller tells the server.
pub open spec fn farewells<T>(slots: Seq<u8>) -> Seq<PollAction<T>> {
    slots.map_values(|slot: u8| PollAction::<T>::Send(DeviceEvent::Disconnected { slot }))
}

pub(super) proof fn lemma_farewells<T>(connected: Seq<bool>, slots: Seq<u8>)
    requires
        forall|k: int| 0 <= k < slots.len() ==> (#[trigger] slots[k]) < connected.len(),
    ensures
        told_all(connected, farewells::<T>(slots)).len() == connected.len(),
        forall|slot: int|
            0 <= slot < connected.len() && slot < 256 ==> (#[trigger] told_all(
                connected,
                farewells::<T>(slots),
            )[slot]) == (connected[slot] && !slots.contains(slot as u8)),
    decreases slots.len(),
{
    if slots.len() > 0 {
        let shorter = slots.drop_last();
        lemma_farewells::<T>(connected, shorter);
        assert(farewells::<T>(slots).drop_last() =~= farewells::<T>(shorter));
        assert(slots[slots.len() - 1] < connected.len());
        assert forall|slot: int| 0 <= slot < connected.len() && slot < 256 implies (
        #[trigger] told_all(connected, farewells::<T>(slots))[slot]) == (connected[slot]
            && !slots.contains(slot as u8)) by {
            if slots.contains(slot as u8) && slot != slots.last() {
                let k = choose|k: int| 0 <= k < slots.len() && slots[k] == slot as u8;
                assert(shorter[k] == slot as u8);
            }
            if shorter.contains(slot as u8) {
                let k = choose|k: int| 0 <= k < shorter.len() && shorter[k] == slot as u8;
                assert(slots[k] == slot as u8);
            }
        }
    }
}

pub(super) proof fn lemma_slots_of_has<H>(cs: Seq<ManagedController<H>>, i: int)
    requires
        0 <= i < cs.len(),
        cs[i].dsu_slot is Some,
    ensures
        slots_of(cs).contains(cs[i].dsu_slot.unwrap()),
    decreases cs.len(),
{
    let slot = cs[i].dsu_slot.unwrap();
    if i == cs.len() - 1 {
        assert(slots_of(cs).last() == slot);
    } else {
        lemma_slots_of_has(cs.drop_last(), i);
        let k = choose|k: int|
            0 <= k < slots_of(cs.drop_last()).len() && slots_of(cs.drop_last())[k] == slot;
        assert(slots_of(cs)[k] == slot);
    }
}

/// A server that held the slots in use for connected holds none for connected
/// once every controller is dropped.
pub proof fn dropping_all_disconnects_all<H, T>(cs: Seq<ManagedController<H>>)
    requires
        all_wf(cs),
    ensures
        forall|slot: int|
            0 <= slot < MAX_CONTROLLERS ==> !#[trigger] told_all(
                in_use(cs),
                farewells::<T>(slots_of(cs)),
            )[slot],
{
    lemma_slots_of(cs);
    lemma_farewells::<T>(in_use(cs), slots_of(cs));
    assert forall|slot: int| 0 <= slot < MAX_CONTROLLERS implies !#[trigger] told_all(
        in_use(cs),
        farewells::<T>(slots_of(cs)),
    )[slot] by {
        if in_use(cs)[slot] {
            let i = choose|i: int|
                0 <= i < cs.len() && (#[trigger] cs[i]).dsu_slot == Some(slot as u8);
            lemma_slots_of_has(cs, i);
        }
    }
}

} // verus!
