//! What a controller's record says of the reads behind it, who outlives a read, and
//! what a round makes of each of its reads.

use super::laws::{delivers, farewells, lemma_slots_of};
use super::{
    all_wf, in_use, lemma_first_free, lemma_round_keeps_order, managed, newly_opened,
    parting_events, recalibrated, round, slots_of, ManagedController, Notice, Outcome, PollAction,
    PollRead, Polled,
};
use crate::controller::{ControllerState, DeviceEvent, MAX_CONTROLLERS};
use crate::device::OpenSlot;
use vstd::prelude::*;

verus! {

/// Whether a controller of record `c` outlives `read`: a repeated timestamp unless
/// it is the hundredth in a row, silence for less than two seconds since the last
/// sample, and a failure unless it is the fifth in a row.
pub open spec fn outlives<H, T>(c: ManagedController<H>, read: PollRead<T>) -> bool {
    match read.outcome {
        Outcome::Sample(state) => c.last_imu_timestamp != Some(state.imu.timestamp_us)
            || c.stale_samples < 99,
        Outcome::Silent => read.at < c.last_sample_at + 2_000_000_000,
        Outcome::Failed => c.consecutive_errors < 4,
    }
}

/// Whether `after` is a record that `c` can become by `read`: every sample is
/// remembered with its time and its timestamp, failures and repeats are counted
/// until something else comes, and nothing else of the record moves but that a
/// fresh sample may bring the slot that is missing.
pub open spec fn remembers<H, T>(
    c: ManagedController<H>,
    read: PollRead<T>,
    after: ManagedController<H>,
) -> bool {
    &&& after.path == c.path
    &&& after.device == c.device
    &&& after.handle == c.handle
    &&& match read.outcome {
        Outcome::Sample(state) => {
            &&& after.last_sample_at == read.at
            &&& after.last_imu_timestamp == Some(state.imu.timestamp_us)
            &&& after.consecutive_errors == 0
            &&& c.last_imu_timestamp == Some(state.imu.timestamp_us) ==> after.stale_samples
                == c.stale_samples + 1 && after.dsu_slot == c.dsu_slot
            &&& c.last_imu_timestamp != Some(state.imu.timestamp_us) ==> after.stale_samples == 0
            &&& c.dsu_slot is Some ==> after.dsu_slot == c.dsu_slot
        },
        Outcome::Silent => {
            &&& after.last_sample_at == c.last_sample_at
            &&& after.last_imu_timestamp == c.last_imu_timestamp
            &&& after.consecutive_errors == 0
            &&& after.stale_samples == c.stale_samples
            &&& after.dsu_slot == c.dsu_slot
        },
        Outcome::Failed => {
            &&& after.last_sample_at == c.last_sample_at
            &&& after.last_imu_timestamp == c.last_imu_timestamp
            &&& after.consecutive_errors == c.consecutive_errors + 1
            &&& after.stale_samples == c.stale_samples
            &&& after.dsu_slot == c.dsu_slot
        },
    }
}

/// Whether a controller stays after a read, and what its record is then, depends on
/// the record and the read alone, with a slot or without.
pub proof fn a_read_is_remembered<H, T>(
    c: ManagedController<H>,
    occupied: Seq<bool>,
    read: PollRead<T>,
    position: int,
)
    requires
        c.wf(),
    ensures
        c.polled(occupied, read, position).keep <==> outlives(c, read),
        remembers(c, read, c.polled(occupied, read, position).controller),
{
}

/// A read that a controller took, at its place in the round and while these slots
/// were in use.
pub ghost struct Taken<T> {
    pub occupied: Seq<bool>,
    pub read: PollRead<T>,
    pub position: int,
}

/// What the reads of many rounds do to one controller, up to the one that it leaves
/// after.
pub open spec fn life<H, T>(c: ManagedController<H>, taken: Seq<Taken<T>>) -> Polled<H, T>
    decreases taken.len(),
{
    if taken.len() == 0 {
        Polled { controller: c, occupied: seq![], keep: true, actions: seq![] }
    } else {
        let before = life(c, taken.drop_last());
        if before.keep {
            before.controller.polled(
                taken.last().occupied,
                taken.last().read,
                taken.last().position,
            )
        } else {
            before
        }
    }
}

/// The time of the latest sample in `taken`, `start` where there is none.
pub open spec fn latest_sample_at<T>(start: u64, taken: Seq<Taken<T>>) -> u64
    decreases taken.len(),
{
    if taken.len() == 0 {
        start
    } else if taken.last().read.outcome is Sample {
        taken.last().read.at
    } else {
        latest_sample_at(start, taken.drop_last())
    }
}

/// The timestamp of the latest sample in `taken`, `start` where there is none.
pub open spec fn latest_timestamp<T>(start: Option<u32>, taken: Seq<Taken<T>>) -> Option<u32>
    decreases taken.len(),
{
    if taken.len() == 0 {
        start
    } else {
        match taken.last().read.outcome {
            Outcome::Sample(state) => Some(state.imu.timestamp_us),
            _ => latest_timestamp(start, taken.drop_last()),
        }
    }
}

/// How many reads at the end of `taken` failed, counted on from `start` where all
/// did.
pub open spec fn failures_in_a_row<T>(start: nat, taken: Seq<Taken<T>>) -> nat
    decreases taken.len(),
{
    if taken.len() == 0 {
        start
    } else if taken.last().read.outcome is Failed {
        failures_in_a_row(start, taken.drop_last()) + 1
    } else {
        0
    }
}

/// How many samples in `taken` came with the timestamp of the sample before them
/// since the last that did not, counted on from `start` where all did.
pub open spec fn repeats_in_a_row<T>(
    start: nat,
    timestamp: Option<u32>,
    taken: Seq<Taken<T>>,
) -> nat
    decreases taken.len(),
{
    if taken.len() == 0 {
        start
    } else {
        match taken.last().read.outcome {
            Outcome::Sample(state) => if latest_timestamp(timestamp, taken.drop_last()) == Some(
                state.imu.timestamp_us,
            ) {
                repeats_in_a_row(start, timestamp, taken.drop_last()) + 1
            } else {
                0
            },
            _ => repeats_in_a_row(start, timestamp, taken.drop_last()),
        }
    }
}

/// The record of a controller that is still there tells when its latest sample came
/// and which, and how many failures and repeats stand at the end of its reads.
pub proof fn a_record_tells_the_past<H, T>(c: ManagedController<H>, taken: Seq<Taken<T>>)
    requires
        c.wf(),
        life(c, taken).keep,
    ensures
        ({
            let now = life(c, taken).controller;
            &&& now.last_sample_at == latest_sample_at(c.last_sample_at, taken)
            &&& now.last_imu_timestamp == latest_timestamp(c.last_imu_timestamp, taken)
            &&& now.consecutive_errors == failures_in_a_row(c.consecutive_errors as nat, taken)
            &&& now.stale_samples == repeats_in_a_row(
                c.stale_samples as nat,
                c.last_imu_timestamp,
                taken,
            )
            &&& now.consecutive_errors < 5
            &&& now.stale_samples < 100
            &&& now.path == c.path
            &&& now.device == c.device
            &&& now.handle == c.handle
            &&& c.dsu_slot is Some ==> now.dsu_slot == c.dsu_slot
        }),
    decreases taken.len(),
{
    if taken.len() > 0 {
        a_record_tells_the_past(c, taken.drop_last());
    }
}

/// Over any reads, the next one drops the controller exactly when it is silence two
/// seconds or more after the latest sample, the fifth failure in a row, or the
/// hundredth sample in a row with one timestamp.
pub proof fn what_drops_a_controller<H, T>(
    c: ManagedController<H>,
    taken: Seq<Taken<T>>,
    next: Taken<T>,
)
    requires
        c.wf(),
        life(c, taken).keep,
    ensures
        life(c, taken.push(next)).keep <==> match next.read.outcome {
            Outcome::Sample(state) => latest_timestamp(c.last_imu_timestamp, taken) != Some(
                state.imu.timestamp_us,
            ) || repeats_in_a_row(c.stale_samples as nat, c.last_imu_timestamp, taken) < 99,
            Outcome::Silent => next.read.at < latest_sample_at(c.last_sample_at, taken)
                + 2_000_000_000,
            Outcome::Failed => failures_in_a_row(c.consecutive_errors as nat, taken) < 4,
        },
{
    a_record_tells_the_past(c, taken);
    assert(taken.push(next).drop_last() =~= taken);
}

proof fn lemma_latest_sample<T>(start: u64, taken: Seq<Taken<T>>, k: int)
    requires
        0 <= k < taken.len(),
        taken[k].read.outcome is Sample,
        forall|i: int| k < i < taken.len() ==> !((#[trigger] taken[i]).read.outcome is Sample),
    ensures
        latest_sample_at(start, taken) == taken[k].read.at,
    decreases taken.len(),
{
    if k < taken.len() - 1 {
        assert(!(taken[taken.len() - 1].read.outcome is Sample));
        lemma_latest_sample(start, taken.drop_last(), k);
    }
}

/// Silence counts from the most recent sample, however many came before it: a silent
/// read less than two seconds after that sample never drops the controller, and one
/// two seconds after it or later does.
pub proof fn silence_counts_from_the_latest_sample<H, T>(
    c: ManagedController<H>,
    taken: Seq<Taken<T>>,
    k: int,
    next: Taken<T>,
)
    requires
        c.wf(),
        life(c, taken).keep,
        0 <= k < taken.len(),
        taken[k].read.outcome is Sample,
        forall|i: int| k < i < taken.len() ==> !((#[trigger] taken[i]).read.outcome is Sample),
        next.read.outcome is Silent,
    ensures
        life(c, taken.push(next)).keep <==> next.read.at < taken[k].read.at + 2_000_000_000,
{
    what_drops_a_controller(c, taken, next);
    lemma_latest_sample(c.last_sample_at, taken, k);
}

/// What a read makes the log say and the server hear, each once: a freeze and a row
/// of failures where they drop the controller, a slot handed out with the numbers
/// of the device it goes to, and a slot given back.
pub proof fn everything_is_said_once<H, T>(
    c: ManagedController<H>,
    occupied: Seq<bool>,
    read: PollRead<T>,
    position: int,
)
    requires
        c.wf(),
        occupied.len() == MAX_CONTROLLERS,
        0 <= position <= usize::MAX,
    ensures
        ({
            let polled = c.polled(occupied, read, position);
            let said = polled.actions;
            &&& said.no_duplicates()
            &&& said.contains(PollAction::Log(Notice::Frozen)) <==> read.outcome is Sample
                && !outlives(c, read)
            &&& forall|at: usize| #[trigger]
                said.contains(PollAction::Log(Notice::ReadErrors { position: at })) <==> {
                    &&& read.outcome is Failed
                    &&& !outlives(c, read)
                    &&& at == position
                }
            &&& forall|product_id: u16, interface_number: i32, slot: u8| #[trigger]
                said.contains(
                    PollAction::Log(Notice::Assigned { product_id, interface_number, slot }),
                ) <==> {
                    &&& c.dsu_slot is None
                    &&& polled.controller.dsu_slot == Some(slot)
                    &&& match c.device {
                        OpenSlot::Valve(s) => s.product_id == product_id && s.interface_number
                            == interface_number,
                        OpenSlot::Flydigi(s) => s.product_id == product_id && s.interface_number
                            == interface_number,
                    }
                }
            &&& forall|slot: u8| #[trigger]
                said.contains(PollAction::Log(Notice::SlotDisconnected { slot })) <==> !outlives(
                    c,
                    read,
                ) && c.dsu_slot == Some(slot)
            &&& forall|slot: u8| #[trigger]
                said.contains(PollAction::Send(DeviceEvent::Disconnected { slot })) <==> !outlives(
                    c,
                    read,
                ) && c.dsu_slot == Some(slot)
        }),
{
    let polled = c.polled(occupied, read, position);
    let said = polled.actions;
    lemma_first_free(occupied, 0);
    if said.len() > 0 {
        assert(said.contains(said[0]));
    }
    if said.len() > 1 {
        assert(said.contains(said[1]));
    }
    if said.len() > 2 {
        assert(said.contains(said[2]));
    }
}

/// A read changes the use of one slot at most: it takes the lowest free one for a
/// fresh sample of a controller that has none, and frees that of a controller that
/// leaves.
pub proof fn a_read_changes_one_slot_at_most<H, T>(
    c: ManagedController<H>,
    occupied: Seq<bool>,
    read: PollRead<T>,
    position: int,
    slot: int,
)
    requires
        c.wf(),
        occupied.len() == MAX_CONTROLLERS,
        0 <= slot < MAX_CONTROLLERS,
    ensures
        ({
            let polled = c.polled(occupied, read, position);
            let taken = c.dsu_slot is None && delivers(c, read) && !occupied[slot] && (forall|
                lower: int,
            |
                0 <= lower < slot ==> occupied[lower]);
            let freed = c.dsu_slot == Some(slot as u8) && !outlives(c, read);
            &&& polled.occupied.len() == MAX_CONTROLLERS
            &&& polled.occupied[slot] <==> taken || (occupied[slot] && !freed)
            &&& taken <==> c.dsu_slot is None && polled.controller.dsu_slot == Some(slot as u8)
        }),
{
    lemma_first_free(occupied, 0);
}

/// How many of the first `n` controllers outlive their reads.
pub open spec fn survivors<H, T>(
    cs: Seq<ManagedController<H>>,
    reads: Seq<PollRead<T>>,
    n: nat,
) -> nat
    decreases n,
{
    if n == 0 {
        0
    } else {
        survivors(cs, reads, (n - 1) as nat) + (if outlives(cs[n - 1], reads[n - 1]) {
            1nat
        } else {
            0nat
        })
    }
}

/// A round keeps exactly those that outlive their own reads, in their order, each
/// with the record that its own read leaves it.
pub proof fn a_round_keeps_the_survivors<H, T>(
    cs: Seq<ManagedController<H>>,
    reads: Seq<PollRead<T>>,
    n: nat,
)
    requires
        all_wf(cs),
        reads.len() == cs.len(),
        n <= cs.len(),
    ensures
        round(cs, reads, n).kept.len() == survivors(cs, reads, n),
        forall|i: int|
            0 <= i < n && #[trigger] outlives(cs[i], reads[i]) ==> {
                let place = survivors(cs, reads, i as nat);
                &&& place < survivors(cs, reads, n)
                &&& remembers(cs[i], reads[i], round(cs, reads, n).kept[place as int])
            },
    decreases n,
{
    if n > 0 {
        let m = (n - 1) as nat;
        a_round_keeps_the_survivors(cs, reads, m);
        assert(cs[m as int].wf());
        a_read_is_remembered(
            cs[m as int],
            round(cs, reads, m).occupied,
            reads[m as int],
            m as int,
        );
        assert forall|i: int| 0 <= i < n && #[trigger] outlives(cs[i], reads[i]) implies {
            let place = survivors(cs, reads, i as nat);
            &&& place < survivors(cs, reads, n)
            &&& remembers(cs[i], reads[i], round(cs, reads, n).kept[place as int])
        } by {
            let place = survivors(cs, reads, i as nat);
            if i < m {
                assert(place < survivors(cs, reads, m));
                assert(round(cs, reads, n).kept[place as int] == round(
                    cs,
                    reads,
                    m,
                ).kept[place as int]);
            }
        }
    }
}

/// When the turn of a controller comes, the slots in use are those of the
/// controllers kept so far and of those whose turn is still to come.
pub proof fn slots_freed_in_a_round_are_free<H, T>(
    cs: Seq<ManagedController<H>>,
    reads: Seq<PollRead<T>>,
    n: nat,
    slot: int,
)
    requires
        all_wf(cs),
        n <= cs.len(),
        0 <= slot < MAX_CONTROLLERS,
    ensures
        round(cs, reads, n).occupied.len() == MAX_CONTROLLERS,
        round(cs, reads, n).occupied[slot] <==> {
            ||| exists|k: int|
                0 <= k < round(cs, reads, n).kept.len() && (#[trigger] round(
                    cs,
                    reads,
                    n,
                ).kept[k]).dsu_slot == Some(slot as u8)
            ||| exists|i: int| n <= i < cs.len() && (#[trigger] cs[i]).dsu_slot == Some(slot as u8)
        },
{
    lemma_round_keeps_order(cs, reads, n);
    let kept = round(cs, reads, n).kept;
    let all = kept + cs.skip(n as int);
    if in_use(all)[slot] {
        let k = choose|k: int|
            0 <= k < all.len() && (#[trigger] all[k]).dsu_slot == Some(slot as u8);
        if k < kept.len() {
            assert(kept[k].dsu_slot == Some(slot as u8));
        } else {
            assert(cs[n + (k - kept.len())].dsu_slot == Some(slot as u8));
        }
    }
    if exists|k: int| 0 <= k < kept.len() && (#[trigger] kept[k]).dsu_slot == Some(slot as u8) {
        let k = choose|k: int|
            0 <= k < kept.len() && (#[trigger] kept[k]).dsu_slot == Some(slot as u8);
        assert(all[k].dsu_slot == Some(slot as u8));
    }
    if exists|i: int| n <= i < cs.len() && (#[trigger] cs[i]).dsu_slot == Some(slot as u8) {
        let i = choose|i: int|
            n <= i < cs.len() && (#[trigger] cs[i]).dsu_slot == Some(slot as u8);
        assert(all[kept.len() + (i - n)].dsu_slot == Some(slot as u8));
    }
}

/// Whether the read at `i` of a round brings the fresh sample `state` of a
/// controller that has `slot` by then.
pub open spec fn goes_out<H, T>(
    cs: Seq<ManagedController<H>>,
    reads: Seq<PollRead<T>>,
    n: nat,
    i: int,
    slot: u8,
    state: ControllerState<T>,
) -> bool {
    &&& 0 <= i < n
    &&& reads[i].outcome == Outcome::Sample(state)
    &&& cs[i].last_imu_timestamp != Some(state.imu.timestamp_us)
    &&& round(cs, reads, n).kept[survivors(cs, reads, i as nat) as int].dsu_slot == Some(slot)
}

/// Whether the read at `i` of a round drops a controller that has `slot`.
pub open spec fn goes_away<H, T>(
    cs: Seq<ManagedController<H>>,
    reads: Seq<PollRead<T>>,
    n: nat,
    i: int,
    slot: u8,
) -> bool {
    &&& 0 <= i < n
    &&& !outlives(cs[i], reads[i])
    &&& cs[i].dsu_slot == Some(slot)
}

/// A round sends the fresh sample of every controller that has a slot, unchanged and
/// under that slot, and nothing else as a sample.
pub proof fn a_round_sends_every_fresh_sample<H, T>(
    cs: Seq<ManagedController<H>>,
    reads: Seq<PollRead<T>>,
    n: nat,
    slot: u8,
    state: ControllerState<T>,
)
    requires
        all_wf(cs),
        reads.len() == cs.len(),
        n <= cs.len(),
    ensures
        round(cs, reads, n).actions.contains(PollAction::Send(DeviceEvent::Sample { slot, state }))
            <==> exists|i: int| #[trigger] goes_out(cs, reads, n, i, slot, state),
    decreases n,
{
    let event = PollAction::Send(DeviceEvent::Sample { slot, state });
    if n > 0 {
        let m = (n - 1) as nat;
        let c = cs[m as int];
        let before = round(cs, reads, m);
        let after = round(cs, reads, n);
        a_round_sends_every_fresh_sample(cs, reads, m, slot, state);
        a_round_keeps_the_survivors(cs, reads, m);
        a_round_keeps_the_survivors(cs, reads, n);
        lemma_round_keeps_order(cs, reads, m);
        assert(c.wf());
        let polled = c.polled(before.occupied, reads[m as int], m as int);
        super::laws::events_follow_the_slot(c, before.occupied, reads[m as int], m as int);
        a_read_is_remembered(c, before.occupied, reads[m as int], m as int);
        lemma_contains_either(before.actions, polled.actions, event);
        assert(polled.actions.contains(event) <==> {
            &&& reads[m as int].outcome == Outcome::Sample(state)
            &&& c.is_fresh(state.imu.timestamp_us)
            &&& polled.keep
            &&& polled.controller.dsu_slot == Some(slot)
        });
        if before.actions.contains(event) {
            let i = choose|i: int| #[trigger] goes_out(cs, reads, m, i, slot, state);
            assert(outlives(cs[i], reads[i]));
            assert(goes_out(cs, reads, n, i, slot, state));
        }
        if polled.actions.contains(event) {
            assert(after.kept[before.kept.len() as int] == polled.controller);
            assert(goes_out(cs, reads, n, m as int, slot, state));
        }
        if exists|i: int| #[trigger] goes_out(cs, reads, n, i, slot, state) {
            let i = choose|i: int| #[trigger] goes_out(cs, reads, n, i, slot, state);
            assert(outlives(cs[i], reads[i]));
            if i < m {
                assert(goes_out(cs, reads, m, i, slot, state));
            }
        }
    }
}

/// A round reports the slot of every controller that it drops gone, and no other.
pub proof fn a_round_reports_every_slot_lost<H, T>(
    cs: Seq<ManagedController<H>>,
    reads: Seq<PollRead<T>>,
    n: nat,
    slot: u8,
)
    requires
        all_wf(cs),
        reads.len() == cs.len(),
        n <= cs.len(),
    ensures
        round(cs, reads, n).actions.contains(PollAction::Send(DeviceEvent::Disconnected { slot }))
            <==> exists|i: int| #[trigger] goes_away(cs, reads, n, i, slot),
    decreases n,
{
    let event = PollAction::<T>::Send(DeviceEvent::Disconnected { slot });
    if n > 0 {
        let m = (n - 1) as nat;
        let c = cs[m as int];
        let before = round(cs, reads, m);
        a_round_reports_every_slot_lost(cs, reads, m, slot);
        lemma_round_keeps_order(cs, reads, m);
        assert(c.wf());
        let polled = c.polled(before.occupied, reads[m as int], m as int);
        super::laws::events_follow_the_slot(c, before.occupied, reads[m as int], m as int);
        a_read_is_remembered(c, before.occupied, reads[m as int], m as int);
        lemma_contains_either(before.actions, polled.actions, event);
        assert(polled.actions.contains(event) <==> !polled.keep && c.dsu_slot == Some(slot));
        if before.actions.contains(event) {
            let i = choose|i: int| #[trigger] goes_away(cs, reads, m, i, slot);
            assert(goes_away(cs, reads, n, i, slot));
        }
        if polled.actions.contains(event) {
            assert(goes_away(cs, reads, n, m as int, slot));
        }
        if exists|i: int| #[trigger] goes_away(cs, reads, n, i, slot) {
            let i = choose|i: int| #[trigger] goes_away(cs, reads, n, i, slot);
            if i < m {
                assert(goes_away(cs, reads, m, i, slot));
            }
        }
    }
}

proof fn lemma_contains_either<A>(a: Seq<A>, b: Seq<A>, x: A)
    ensures
        (a + b).contains(x) <==> a.contains(x) || b.contains(x),
{
    if a.contains(x) {
        let k = choose|k: int| 0 <= k < a.len() && a[k] == x;
        assert((a + b)[k] == x);
    }
    if b.contains(x) {
        let k = choose|k: int| 0 <= k < b.len() && b[k] == x;
        assert((a + b)[a.len() + k] == x);
    }
    if (a + b).contains(x) {
        let k = choose|k: int| 0 <= k < (a + b).len() && (a + b)[k] == x;
        if k < a.len() {
            assert(a[k] == x);
        } else {
            assert(b[k - a.len()] == x);
        }
    }
}

/// An interface is managed from the moment its controller is added, and only those
/// are.
pub proof fn added_interfaces_are_managed<H>(
    cs: Seq<ManagedController<H>>,
    added: ManagedController<H>,
    path: Seq<u8>,
)
    ensures
        !managed(Seq::<ManagedController<H>>::empty(), path),
        managed(cs.push(added), path) <==> managed(cs, path) || added.path@ == path,
{
    let after = cs.push(added);
    if managed(cs, path) {
        let i = choose|i: int| 0 <= i < cs.len() && (#[trigger] cs[i]).path@ == path;
        assert(after[i].path@ == path);
    }
    assert(after[cs.len() as int] == added);
    if managed(after, path) {
        let i = choose|i: int| 0 <= i < after.len() && (#[trigger] after[i]).path@ == path;
        if i < cs.len() {
            assert(cs[i].path@ == path);
        }
    }
}

/// A controller that was just opened has no slot; its first sample is fresh, whatever
/// its timestamp; and it has two seconds from its opening and four failures to bring
/// one.
pub proof fn a_new_controller_has_its_time<H, T>(
    path: Vec<u8>,
    device: OpenSlot,
    handle: H,
    now: u64,
    read: PollRead<T>,
)
    ensures
        ({
            let c = newly_opened(path, device, handle, now);
            &&& c.wf()
            &&& c.path == path
            &&& c.device == device
            &&& c.handle == handle
            &&& c.dsu_slot is None
            &&& c.consecutive_errors == 0
            &&& read.outcome is Sample ==> delivers(c, read)
            &&& read.outcome is Silent ==> (outlives(c, read) <==> read.at < now + 2_000_000_000)
            &&& !(read.outcome is Silent) ==> outlives(c, read)
        }),
{
}

/// Whether the calibration of a controller is to start over.
pub open spec fn resets(device: OpenSlot) -> bool {
    match device {
        OpenSlot::Valve(s) => s.reset_due,
        OpenSlot::Flydigi(s) => s.reset_due,
    }
}

/// Recalibrating reaches the device of every controller, the first and the last
/// alike, and changes nothing else of it or of the record.
pub proof fn recalibration_reaches_everyone<H>(cs: Seq<ManagedController<H>>, i: int)
    requires
        0 <= i < cs.len(),
    ensures
        recalibrated(cs).len() == cs.len(),
        resets(recalibrated(cs)[i].device),
        recalibrated(cs)[i] == (ManagedController {
            device: recalibrated(cs)[i].device,
            ..cs[i]
        }),
        match (cs[i].device, recalibrated(cs)[i].device) {
            (OpenSlot::Valve(a), OpenSlot::Valve(b)) => {
                &&& b.interface_number == a.interface_number
                &&& b.product_id == a.product_id
                &&& b.label == a.label
                &&& b.input_reports_seen == a.input_reports_seen
            },
            (OpenSlot::Flydigi(a), OpenSlot::Flydigi(b)) => {
                &&& b.interface_number == a.interface_number
                &&& b.product_id == a.product_id
                &&& b.input_reports_seen == a.input_reports_seen
                &&& b.last_acquire == a.last_acquire
                &&& b.last_input == a.last_input
                &&& b.sensor_timestamp_us == a.sensor_timestamp_us
                &&& b.gyro_map == a.gyro_map
                &&& b.accel_map == a.accel_map
                &&& b.gyro_sensitivity == a.gyro_sensitivity
                &&& b.auto_calibrate == a.auto_calibrate
                &&& b.cfg_generation == a.cfg_generation
            },
            _ => false,
        },
{
}

/// Dropping every controller names the slot of each that has one, once, and no
/// other.
pub proof fn every_slot_is_given_back<H>(cs: Seq<ManagedController<H>>, slot: u8)
    requires
        all_wf(cs),
    ensures
        slots_of(cs).no_duplicates(),
        slots_of(cs).contains(slot) <==> exists|i: int|
            0 <= i < cs.len() && (#[trigger] cs[i]).dsu_slot == Some(slot),
{
    lemma_slots_of(cs);
    if exists|i: int| 0 <= i < cs.len() && (#[trigger] cs[i]).dsu_slot == Some(slot) {
        let i = choose|i: int| 0 <= i < cs.len() && (#[trigger] cs[i]).dsu_slot == Some(slot);
        super::laws::lemma_slots_of_has(cs, i);
    }
    if slots_of(cs).contains(slot) {
        let k = choose|k: int| 0 <= k < slots_of(cs).len() && slots_of(cs)[k] == slot;
        assert(slots_of(cs)[k] < MAX_CONTROLLERS);
    }
}

/// Dropping every controller tells the server that the slot of each that has one is
/// gone, once, and nothing else.
pub proof fn parting_tells_of_every_slot<H, T>(cs: Seq<ManagedController<H>>, slot: u8, k: int)
    requires
        all_wf(cs),
    ensures
        parting_events::<H, T>(cs).no_duplicates(),
        parting_events::<H, T>(cs).contains(DeviceEvent::Disconnected { slot }) <==> exists|i: int|
            0 <= i < cs.len() && (#[trigger] cs[i]).dsu_slot == Some(slot),
        0 <= k < parting_events::<H, T>(cs).len() ==> parting_events::<H, T>(
            cs,
        )[k] is Disconnected,
        farewells::<T>(slots_of(cs)) == parting_events::<H, T>(cs).map_values(
            |event: DeviceEvent<T>| PollAction::Send(event),
        ),
{
    every_slot_is_given_back(cs, slot);
    let events = parting_events::<H, T>(cs);
    let slots = slots_of(cs);
    if slots.contains(slot) {
        let i = choose|i: int| 0 <= i < slots.len() && slots[i] == slot;
        assert(events[i] == DeviceEvent::<T>::Disconnected { slot });
    }
    if events.contains(DeviceEvent::Disconnected { slot }) {
        let i = choose|i: int|
            0 <= i < events.len() && events[i] == DeviceEvent::<T>::Disconnected { slot };
        assert(slots[i] == slot);
    }
    assert forall|i: int, j: int| 0 <= i < events.len() && 0 <= j < events.len() && i != j implies
        events[i] != events[j] by {
        assert(slots[i] != slots[j]);
    }
    assert(farewells::<T>(slots) =~= events.map_values(
        |event: DeviceEvent<T>| PollAction::Send(event),
    ));
}

/// Of controllers that all deliver in the round after they were found, the first four
/// have the slots 0, 1, 2 and 3, in the order in which they were found, and the rest
/// none.
pub proof fn the_first_four_have_the_slots<H, T>(
    cs: Seq<ManagedController<H>>,
    reads: Seq<PollRead<T>>,
    i: int,
)
    requires
        all_wf(cs),
        reads.len() == cs.len(),
        forall|k: int|
            0 <= k < cs.len() ==> (#[trigger] cs[k]).dsu_slot is None && delivers(cs[k], reads[k]),
        0 <= i < cs.len(),
    ensures
        round(cs, reads, cs.len()).kept.len() == cs.len(),
        round(cs, reads, cs.len()).kept[i].path == cs[i].path,
        i < 4 ==> round(cs, reads, cs.len()).kept[i].dsu_slot == Some(i as u8),
        i >= 4 ==> round(cs, reads, cs.len()).kept[i].dsu_slot is None,
{
    super::laws::slots_follow_discovery(cs, reads);
    assert forall|k: int| 0 <= k < cs.len() implies outlives(cs[k], reads[k]) by {
        assert(cs[k].dsu_slot is None && delivers(cs[k], reads[k]));
    }
    a_round_keeps_the_survivors(cs, reads, cs.len());
    lemma_all_survive(cs, reads, i as nat);
    assert(outlives(cs[i], reads[i]));
}

proof fn lemma_all_survive<H, T>(
    cs: Seq<ManagedController<H>>,
    reads: Seq<PollRead<T>>,
    n: nat,
)
    requires
        n <= cs.len(),
        forall|k: int| 0 <= k < cs.len() ==> #[trigger] outlives(cs[k], reads[k]),
    ensures
        survivors(cs, reads, n) == n,
    decreases n,
{
    if n > 0 {
        lemma_all_survive(cs, reads, (n - 1) as nat);
        assert(outlives(cs[n - 1], reads[n - 1]));
    }
}

/// A sample is fresh exactly when its timestamp is another than the last, or the first.
pub proof fn freshness_goes_by_the_timestamp<H, T>(c: ManagedController<H>, read: PollRead<T>)
    ensures
        delivers(c, read) <==> (read.outcome matches Outcome::Sample(state)
            && c.last_imu_timestamp != Some(state.imu.timestamp_us)),
{
}

} // verus!
