//! The controllers that are open, and what one round of reading them leads to:
//! samples for the server, slots handed out and given back, interfaces dropped to
//! be opened anew.

use crate::controller::{ControllerState, DeviceEvent, MAX_CONTROLLERS};
use crate::device::OpenSlot;
use vstd::prelude::*;

pub mod laws;
pub mod records;
pub mod session;

verus! {

/// Nanoseconds without a sample after which an interface is opened anew.
pub const SILENCE_REOPEN: u64 = 2_000_000_000;

/// Samples with one and the same motion timestamp after which an interface is
/// opened anew.
pub const STALE_THRESHOLD: u32 = 100;

/// Failed reads in a row after which an interface is opened anew.
pub const ERROR_THRESHOLD: u32 = 5;

/// An open controller and its record. `H` is what the system reads it by. Times
/// are in nanoseconds of one clock.
pub struct ManagedController<H> {
    pub path: Vec<u8>,
    pub device: OpenSlot,
    pub handle: H,
    pub dsu_slot: Option<u8>,
    pub last_sample_at: u64,
    pub consecutive_errors: u32,
    pub last_imu_timestamp: Option<u32>,
    pub stale_samples: u32,
}

/// What reading a controller gave.
#[derive(Debug, Clone, Copy, PartialEq)]
pub enum Outcome<T> {
    Sample(ControllerState<T>),
    Silent,
    Failed,
}

/// What reading a controller gave, and when.
#[derive(Debug, Clone, Copy, PartialEq)]
pub struct PollRead<T> {
    pub outcome: Outcome<T>,
    pub at: u64,
}

/// A remark for the log.
#[derive(Debug, Clone, Copy, PartialEq, Eq, Structural)]
pub enum Notice {
    /// The motion timestamp stood still for [`STALE_THRESHOLD`] samples.
    Frozen,
    Assigned { product_id: u16, interface_number: i32, slot: u8 },
    /// [`ERROR_THRESHOLD`] reads in a row failed, the last of them at `position`
    /// of the round.
    ReadErrors { position: usize },
    SlotDisconnected { slot: u8 },
}

/// What a round leads to.
#[derive(Debug, Clone, Copy, PartialEq)]
pub enum PollAction<T> {
    Log(Notice),
    Send(DeviceEvent<T>),
}

/// What one read does to a controller and to the slots in use.
pub ghost struct Polled<H, T> {
    pub controller: ManagedController<H>,
    pub occupied: Seq<bool>,
    pub keep: bool,
    pub actions: Seq<PollAction<T>>,
}

/// The first slot from `from` on that is free.
pub open spec fn first_free(occupied: Seq<bool>, from: nat) -> Option<u8>
    decreases occupied.len() - from,
{
    if from >= occupied.len() {
        None
    } else if !occupied[from as int] {
        Some(from as u8)
    } else {
        first_free(occupied, from + 1)
    }
}

impl<H> ManagedController<H> {
    /// A record that no threshold has been reached in.
    pub open spec fn wf(self) -> bool {
        &&& self.dsu_slot matches Some(slot) ==> slot < MAX_CONTROLLERS
        &&& self.consecutive_errors < ERROR_THRESHOLD
        &&& self.stale_samples < STALE_THRESHOLD
    }

    /// Whether a sample of timestamp `at_us` is another than the last.
    pub open spec fn is_fresh(self, at_us: u32) -> bool {
        self.last_imu_timestamp != Some(at_us)
    }

    /// The controller stays, with the record `controller`.
    pub open spec fn stays<T>(
        controller: ManagedController<H>,
        occupied: Seq<bool>,
        actions: Seq<PollAction<T>>,
    ) -> Polled<H, T> {
        Polled { controller, occupied, keep: true, actions }
    }

    /// The controller leaves, after `reason`: its slot is given back and the
    /// server told.
    pub open spec fn leaves<T>(
        controller: ManagedController<H>,
        occupied: Seq<bool>,
        reason: Seq<PollAction<T>>,
    ) -> Polled<H, T> {
        match controller.dsu_slot {
            Some(slot) => Polled {
                controller,
                occupied: occupied.update(slot as int, false),
                keep: false,
                actions: reason.push(
                    PollAction::Send(DeviceEvent::Disconnected { slot }),
                ).push(PollAction::Log(Notice::SlotDisconnected { slot })),
            },
            None => Polled { controller, occupied, keep: false, actions: reason },
        }
    }

    /// What a fresh sample does: it goes to the controller's slot, or to the
    /// lowest free one, which becomes the controller's.
    pub open spec fn takes_fresh<T>(
        self,
        occupied: Seq<bool>,
        state: ControllerState<T>,
        at: u64,
    ) -> Polled<H, T> {
        let noted = ManagedController {
            consecutive_errors: 0,
            last_sample_at: at,
            last_imu_timestamp: Some(state.imu.timestamp_us),
            stale_samples: 0,
            ..self
        };
        match (self.dsu_slot, first_free(occupied, 0)) {
            (Some(slot), _) => Self::stays(
                noted,
                occupied,
                seq![PollAction::Send(DeviceEvent::Sample { slot, state })],
            ),
            (None, Some(slot)) => Self::stays(
                ManagedController { dsu_slot: Some(slot), ..noted },
                occupied.update(slot as int, true),
                seq![
                    PollAction::Log(
                        Notice::Assigned {
                            product_id: self.device.spec_product_id(),
                            interface_number: self.device.spec_interface_number(),
                            slot,
                        },
                    ),
                    PollAction::Send(DeviceEvent::Sample { slot, state }),
                ],
            ),
            (None, None) => Self::stays(noted, occupied, seq![]),
        }
    }

    /// What a sample with the timestamp of the last one does: it goes nowhere.
    pub open spec fn takes_stale<T>(self, occupied: Seq<bool>, at: u64) -> Polled<H, T> {
        let noted = ManagedController {
            consecutive_errors: 0,
            last_sample_at: at,
            stale_samples: (self.stale_samples + 1) as u32,
            ..self
        };
        if noted.stale_samples >= STALE_THRESHOLD {
            Self::leaves(noted, occupied, seq![PollAction::Log(Notice::Frozen)])
        } else {
            Self::stays(noted, occupied, seq![])
        }
    }

    /// What a read that gave nothing does.
    pub open spec fn takes_silence<T>(self, occupied: Seq<bool>, at: u64) -> Polled<H, T> {
        let noted = ManagedController { consecutive_errors: 0, ..self };
        if at - self.last_sample_at >= SILENCE_REOPEN {
            Self::leaves(noted, occupied, seq![])
        } else {
            Self::stays(noted, occupied, seq![])
        }
    }

    /// What a failed read does.
    pub open spec fn takes_failure<T>(self, occupied: Seq<bool>, position: int) -> Polled<H, T> {
        let noted = ManagedController {
            consecutive_errors: (self.consecutive_errors + 1) as u32,
            ..self
        };
        if noted.consecutive_errors >= ERROR_THRESHOLD {
            Self::leaves(
                noted,
                occupied,
                seq![PollAction::Log(Notice::ReadErrors { position: position as usize })],
            )
        } else {
            Self::stays(noted, occupied, seq![])
        }
    }

    /// What the read at `position` of a round does to this controller, while
    /// `occupied` says which slots are in use.
    pub open spec fn polled<T>(
        self,
        occupied: Seq<bool>,
        read: PollRead<T>,
        position: int,
    ) -> Polled<H, T> {
        match read.outcome {
            Outcome::Sample(state) => if self.is_fresh(state.imu.timestamp_us) {
                self.takes_fresh(occupied, state, read.at)
            } else {
                self.takes_stale(occupied, read.at)
            },
            Outcome::Silent => self.takes_silence(occupied, read.at),
            Outcome::Failed => self.takes_failure(occupied, position),
        }
    }
}

fn find_free(occupied: &[bool; MAX_CONTROLLERS]) -> (slot: Option<u8>)
    ensures
        slot == first_free(occupied@, 0),
        slot matches Some(s) ==> s < MAX_CONTROLLERS && !occupied@[s as int],
{
    let mut at: usize = 0;
    while at < MAX_CONTROLLERS
        invariant
            at <= MAX_CONTROLLERS,
            occupied@.len() == MAX_CONTROLLERS,
            first_free(occupied@, 0) == first_free(occupied@, at as nat),
        decreases MAX_CONTROLLERS - at,
    {
        if !occupied[at] {
            return Some(at as u8);
        }
        at += 1;
    }
    None
}

/// Takes in one read of `controller`, adds what follows from it to `actions`, and
/// says whether the controller stays.
pub fn poll_one<H, T: Copy>(
    controller: &mut ManagedController<H>,
    occupied: &mut [bool; MAX_CONTROLLERS],
    read: &PollRead<T>,
    position: usize,
    actions: &mut Vec<PollAction<T>>,
) -> (keep: bool)
    requires
        old(controller).wf(),
    ensures
        ({
            let polled = old(controller).polled(old(occupied)@, *read, position as int);
            &&& *final(controller) == polled.controller
            &&& final(occupied)@ == polled.occupied
            &&& keep == polled.keep
            &&& final(actions)@ == old(actions)@ + polled.actions
        }),
        keep ==> final(controller).wf(),
{
    let mut remove = false;
    match read.outcome {
        Outcome::Sample(state) => {
            controller.consecutive_errors = 0;
            controller.last_sample_at = read.at;
            let fresh = match controller.last_imu_timestamp {
                Some(last) => last != state.imu.timestamp_us,
                None => true,
            };
            if !fresh {
                controller.stale_samples += 1;
                if controller.stale_samples >= STALE_THRESHOLD {
                    actions.push(PollAction::Log(Notice::Frozen));
                    remove = true;
                }
            } else {
                controller.last_imu_timestamp = Some(state.imu.timestamp_us);
                controller.stale_samples = 0;
                let slot = match controller.dsu_slot {
                    Some(slot) => Some(slot),
                    None => {
                        let available = find_free(occupied);
                        if let Some(slot) = available {
                            occupied[slot as usize] = true;
                            controller.dsu_slot = Some(slot);
                            actions.push(
                                PollAction::Log(
                                    Notice::Assigned {
                                        product_id: controller.device.product_id(),
                                        interface_number: controller.device.interface_number(),
                                        slot,
                                    },
                                ),
                            );
                        }
                        available
                    },
                };
                if let Some(slot) = slot {
                    actions.push(PollAction::Send(DeviceEvent::Sample { slot, state }));
                }
            }
        },
        Outcome::Silent => {
            controller.consecutive_errors = 0;
            if read.at.saturating_sub(controller.last_sample_at) >= SILENCE_REOPEN {
                remove = true;
            }
        },
        Outcome::Failed => {
            controller.consecutive_errors += 1;
            if controller.consecutive_errors >= ERROR_THRESHOLD {
                actions.push(PollAction::Log(Notice::ReadErrors { position }));
                remove = true;
            }
        },
    }
    if remove {
        if let Some(slot) = controller.dsu_slot {
            occupied[slot as usize] = false;
            actions.push(PollAction::Send(DeviceEvent::Disconnected { slot }));
            actions.push(PollAction::Log(Notice::SlotDisconnected { slot }));
        }
    }
    !remove
}

/// Which slots the controllers `cs` have.
pub open spec fn in_use<H>(cs: Seq<ManagedController<H>>) -> Seq<bool> {
    Seq::new(
        MAX_CONTROLLERS as nat,
        |slot: int|
            exists|i: int| 0 <= i < cs.len() && (#[trigger] cs[i]).dsu_slot == Some(slot as u8),
    )
}

/// Open controllers: each in order, no slot and no interface had by two.
pub open spec fn all_wf<H>(cs: Seq<ManagedController<H>>) -> bool {
    &&& forall|i: int| 0 <= i < cs.len() ==> (#[trigger] cs[i]).wf()
    &&& forall|i: int, j: int|
        #![trigger cs[i], cs[j]]
        0 <= i < cs.len() && 0 <= j < cs.len() && i != j ==> {
            &&& cs[i].dsu_slot is Some ==> cs[i].dsu_slot != cs[j].dsu_slot
            &&& cs[i].path@ != cs[j].path@
        }
}

/// How far a round has come: the controllers that stayed, the slots in use and
/// what followed so far.
pub ghost struct Round<H, T> {
    pub kept: Seq<ManagedController<H>>,
    pub occupied: Seq<bool>,
    pub actions: Seq<PollAction<T>>,
}

/// The round over `cs` once the first `n` reads are taken in, each by the
/// controller of its place.
pub open spec fn round<H, T>(
    cs: Seq<ManagedController<H>>,
    reads: Seq<PollRead<T>>,
    n: nat,
) -> Round<H, T>
    decreases n,
{
    if n == 0 {
        Round { kept: seq![], occupied: in_use(cs), actions: seq![] }
    } else {
        let before = round(cs, reads, (n - 1) as nat);
        let polled = cs[n - 1].polled(before.occupied, reads[n - 1], n - 1);
        Round {
            kept: if polled.keep {
                before.kept.push(polled.controller)
            } else {
                before.kept
            },
            occupied: polled.occupied,
            actions: before.actions + polled.actions,
        }
    }
}

proof fn lemma_first_free(occupied: Seq<bool>, from: nat)
    requires
        from <= occupied.len() <= 256,
    ensures
        first_free(occupied, from) matches Some(slot) ==> {
            &&& from <= slot < occupied.len()
            &&& !occupied[slot as int]
            &&& forall|i: int| from <= i < slot ==> occupied[i]
        },
        first_free(occupied, from) is None ==> forall|i: int|
            from <= i < occupied.len() ==> occupied[i],
    decreases occupied.len() - from,
{
    if from < occupied.len() && occupied[from as int] {
        lemma_first_free(occupied, from + 1);
    }
}

proof fn lemma_polled_keeps_order<H, T>(
    kept: Seq<ManagedController<H>>,
    c: ManagedController<H>,
    rest: Seq<ManagedController<H>>,
    occupied: Seq<bool>,
    read: PollRead<T>,
    position: int,
)
    requires
        all_wf(kept.push(c) + rest),
        occupied == in_use(kept.push(c) + rest),
    ensures
        ({
            let polled = c.polled(occupied, read, position);
            let after = if polled.keep {
                kept.push(polled.controller) + rest
            } else {
                kept + rest
            };
            all_wf(after) && polled.occupied == in_use(after)
        }),
{
    let before = kept.push(c) + rest;
    let polled = c.polled(occupied, read, position);
    let at = kept.len() as int;
    assert(before[at] == c);
    assert(c.wf());
    lemma_first_free(occupied, 0);
    if polled.keep {
        let after = kept.push(polled.controller) + rest;
        assert(after.len() == before.len());
        assert(after[at] == polled.controller);
        assert forall|i: int| 0 <= i < after.len() && i != at implies after[i] == before[i] by {}
        assert(polled.controller.path == c.path);
        assert forall|i: int, j: int|
            #![trigger after[i], after[j]]
            0 <= i < after.len() && 0 <= j < after.len() && i != j implies {
            &&& after[i].dsu_slot is Some ==> after[i].dsu_slot != after[j].dsu_slot
            &&& after[i].path@ != after[j].path@
        } by {
            assert(before[i].path@ != before[j].path@);
            if polled.controller.dsu_slot != c.dsu_slot {
                let slot = polled.controller.dsu_slot.unwrap();
                assert(!occupied[slot as int]);
                if before[i].dsu_slot == Some(slot) || before[j].dsu_slot == Some(slot) {
                    assert(occupied[slot as int]);
                }
            }
        }
        assert forall|slot: int| 0 <= slot < MAX_CONTROLLERS implies polled.occupied[slot]
            == in_use(after)[slot] by {
            if polled.occupied[slot] {
                if c.dsu_slot == Some(slot as u8) || polled.controller.dsu_slot == Some(
                    slot as u8,
                ) {
                    assert(after[at].dsu_slot == Some(slot as u8));
                } else {
                    assert(occupied[slot]);
                    let i = choose|i: int|
                        0 <= i < before.len() && (#[trigger] before[i]).dsu_slot == Some(
                            slot as u8,
                        );
                    assert(after[i].dsu_slot == Some(slot as u8));
                }
            }
            if in_use(after)[slot] {
                let i = choose|i: int|
                    0 <= i < after.len() && (#[trigger] after[i]).dsu_slot == Some(slot as u8);
                if i != at {
                    assert(before[i].dsu_slot == Some(slot as u8));
                    assert(occupied[slot]);
                } else if c.dsu_slot == Some(slot as u8) {
                    assert(before[at].dsu_slot == Some(slot as u8));
                    assert(occupied[slot]);
                }
            }
        }
        assert(polled.occupied =~= in_use(after));
    } else {
        let after = kept + rest;
        assert forall|i: int| 0 <= i < at implies after[i] == before[i] by {}
        assert forall|i: int| at <= i < after.len() implies after[i] == before[i + 1] by {}
        assert(polled.controller.dsu_slot == c.dsu_slot);
        assert forall|slot: int| 0 <= slot < MAX_CONTROLLERS implies polled.occupied[slot]
            == in_use(after)[slot] by {
            if polled.occupied[slot] {
                assert(occupied[slot]);
                let i = choose|i: int|
                    0 <= i < before.len() && (#[trigger] before[i]).dsu_slot == Some(slot as u8);
                assert(i != at);
                if i < at {
                    assert(after[i].dsu_slot == Some(slot as u8));
                } else {
                    assert(after[i - 1].dsu_slot == Some(slot as u8));
                }
            }
            if in_use(after)[slot] {
                let i = choose|i: int|
                    0 <= i < after.len() && (#[trigger] after[i]).dsu_slot == Some(slot as u8);
                let k = if i < at {
                    i
                } else {
                    i + 1
                };
                assert(before[k].dsu_slot == Some(slot as u8));
                assert(occupied[slot]);
                assert(before[at].dsu_slot != Some(slot as u8));
            }
        }
        assert(polled.occupied =~= in_use(after));
    }
}

proof fn lemma_round_keeps_order<H, T>(
    cs: Seq<ManagedController<H>>,
    reads: Seq<PollRead<T>>,
    n: nat,
)
    requires
        all_wf(cs),
        n <= cs.len(),
    ensures
        all_wf(round(cs, reads, n).kept + cs.skip(n as int)),
        round(cs, reads, n).occupied == in_use(round(cs, reads, n).kept + cs.skip(n as int)),
    decreases n,
{
    if n == 0 {
        assert(round(cs, reads, n).kept + cs.skip(0) =~= cs);
    } else {
        let m = (n - 1) as nat;
        lemma_round_keeps_order(cs, reads, m);
        let before = round(cs, reads, m);
        assert(before.kept + cs.skip(m as int) =~= before.kept.push(cs[m as int]) + cs.skip(
            n as int,
        ));
        lemma_polled_keeps_order(
            before.kept,
            cs[m as int],
            cs.skip(n as int),
            before.occupied,
            reads[m as int],
            m as int,
        );
    }
}

fn slots_in_use<H>(controllers: &Vec<ManagedController<H>>) -> (occupied: [bool; MAX_CONTROLLERS])
    requires
        all_wf(controllers@),
    ensures
        occupied@ == in_use(controllers@),
{
    let mut occupied = [false;MAX_CONTROLLERS];
    let mut at: usize = 0;
    assert(occupied@ =~= in_use(controllers@.take(0)));
    while at < controllers.len()
        invariant
            at <= controllers@.len(),
            all_wf(controllers@),
            occupied@ == in_use(controllers@.take(at as int)),
        decreases controllers@.len() - at,
    {
        let ghost seen = controllers@.take(at as int);
        let ghost more = controllers@.take(at + 1);
        let ghost before = occupied@;
        assert(controllers@[at as int].wf());
        if let Some(slot) = controllers[at].dsu_slot {
            occupied[slot as usize] = true;
        }
        proof {
            assert forall|slot: int| 0 <= slot < MAX_CONTROLLERS implies occupied@[slot] == in_use(
                more,
            )[slot] by {
                if occupied@[slot] {
                    if before[slot] {
                        let i = choose|i: int|
                            0 <= i < seen.len() && (#[trigger] seen[i]).dsu_slot == Some(
                                slot as u8,
                            );
                        assert(more[i].dsu_slot == Some(slot as u8));
                    } else {
                        assert(more[at as int].dsu_slot == Some(slot as u8));
                    }
                }
                if in_use(more)[slot] {
                    let i = choose|i: int|
                        0 <= i < more.len() && (#[trigger] more[i]).dsu_slot == Some(slot as u8);
                    if i < at {
                        assert(seen[i].dsu_slot == Some(slot as u8));
                        assert(before[slot]);
                    }
                }
            }
            assert(occupied@ =~= in_use(more));
        }
        at += 1;
    }
    assert(controllers@.take(at as int) =~= controllers@);
    occupied
}

/// Takes in one round of reads, one for each controller in their order.
pub fn poll_controllers<H, T: Copy>(
    controllers: &mut Vec<ManagedController<H>>,
    reads: &Vec<PollRead<T>>,
) -> (actions: Vec<PollAction<T>>)
    requires
        all_wf(old(controllers)@),
        reads@.len() == old(controllers)@.len(),
    ensures
        all_wf(final(controllers)@),
        final(controllers)@ == round(old(controllers)@, reads@, reads@.len()).kept,
        actions@ == round(old(controllers)@, reads@, reads@.len()).actions,
{
    let ghost cs = controllers@;
    let mut actions: Vec<PollAction<T>> = Vec::new();
    let mut occupied = slots_in_use(controllers);
    let mut index: usize = 0;
    let mut position: usize = 0;
    assert(cs.skip(0) =~= cs);
    while position < reads.len()
        invariant
            all_wf(cs),
            reads@.len() == cs.len(),
            position <= cs.len(),
            index <= position,
            index == round(cs, reads@, position as nat).kept.len(),
            controllers@ =~= round(cs, reads@, position as nat).kept + cs.skip(position as int),
            occupied@ == round(cs, reads@, position as nat).occupied,
            actions@ =~= round(cs, reads@, position as nat).actions,
        decreases cs.len() - position,
    {
        let ghost kept = round(cs, reads@, position as nat).kept;
        assert(controllers@[index as int] == cs[position as int]);
        assert(cs[position as int].wf());
        let keep = poll_one(
            &mut controllers[index],
            &mut occupied,
            &reads[position],
            position,
            &mut actions,
        );
        if keep {
            index += 1;
        } else {
            controllers.remove(index);
        }
        position += 1;
    }
    proof {
        lemma_round_keeps_order(cs, reads@, cs.len());
        assert(cs.skip(cs.len() as int) =~= seq![]);
        assert(round(cs, reads@, cs.len()).kept + cs.skip(cs.len() as int) =~= round(
            cs,
            reads@,
            cs.len(),
        ).kept);
    }
    actions
}

/// Whether the interface at `path` is among the controllers `cs`.
pub open spec fn managed<H>(cs: Seq<ManagedController<H>>, path: Seq<u8>) -> bool {
    exists|i: int| 0 <= i < cs.len() && (#[trigger] cs[i]).path@ == path
}

fn same_bytes(a: &Vec<u8>, b: &Vec<u8>) -> (same: bool)
    ensures
        same == (a@ == b@),
{
    if a.len() != b.len() {
        return false;
    }
    let mut at: usize = 0;
    while at < a.len()
        invariant
            at <= a@.len(),
            a@.len() == b@.len(),
            forall|i: int| 0 <= i < at ==> a@[i] == b@[i],
        decreases a@.len() - at,
    {
        if a[at] != b[at] {
            return false;
        }
        at += 1;
    }
    assert(a@ =~= b@);
    true
}

/// Whether the interface at `path` is open already.
pub fn is_managed<H>(controllers: &Vec<ManagedController<H>>, path: &Vec<u8>) -> (yes: bool)
    ensures
        yes == managed(controllers@, path@),
{
    let mut at: usize = 0;
    while at < controllers.len()
        invariant
            at <= controllers@.len(),
            forall|i: int| 0 <= i < at ==> (#[trigger] controllers@[i]).path@ != path@,
        decreases controllers@.len() - at,
    {
        if same_bytes(&controllers[at].path, path) {
            return true;
        }
        at += 1;
    }
    false
}

/// The next of the interfaces at `paths`, from `from` on, that is not open yet.
pub fn next_candidate<H>(
    controllers: &Vec<ManagedController<H>>,
    paths: &Vec<Vec<u8>>,
    from: usize,
) -> (next: Option<usize>)
    ensures
        match next {
            Some(i) => {
                &&& from <= i < paths@.len()
                &&& !managed(controllers@, paths@[i as int]@)
                &&& forall|j: int|
                    from <= j < i ==> managed(controllers@, (#[trigger] paths@[j])@)
            },
            None => forall|j: int|
                from <= j < paths@.len() ==> managed(controllers@, (#[trigger] paths@[j])@),
        },
{
    let mut at: usize = from;
    while at < paths.len()
        invariant
            from <= at,
            forall|j: int| from <= j < at ==> managed(controllers@, (#[trigger] paths@[j])@),
        decreases paths@.len() - at,
    {
        if !is_managed(controllers, &paths[at]) {
            return Some(at);
        }
        at += 1;
    }
    None
}

/// The record of a controller opened at `now`. It has no slot until its first
/// sample.
pub open spec fn newly_opened<H>(
    path: Vec<u8>,
    device: OpenSlot,
    handle: H,
    now: u64,
) -> ManagedController<H> {
    ManagedController {
        path,
        device,
        handle,
        dsu_slot: None,
        last_sample_at: now,
        consecutive_errors: 0,
        last_imu_timestamp: None,
        stale_samples: 0,
    }
}

/// Adds a controller opened at `now`. It has no slot until its first sample.
pub fn manage<H>(
    controllers: &mut Vec<ManagedController<H>>,
    path: Vec<u8>,
    device: OpenSlot,
    handle: H,
    now: u64,
)
    requires
        all_wf(old(controllers)@),
        !managed(old(controllers)@, path@),
    ensures
        all_wf(final(controllers)@),
        final(controllers)@ == old(controllers)@.push(newly_opened(path, device, handle, now)),
{
    controllers.push(
        ManagedController {
            path,
            device,
            handle,
            dsu_slot: None,
            last_sample_at: now,
            consecutive_errors: 0,
            last_imu_timestamp: None,
            stale_samples: 0,
        },
    );
}

/// The controllers `cs` with the gyro calibration of each to start over.
pub open spec fn recalibrated<H>(cs: Seq<ManagedController<H>>) -> Seq<ManagedController<H>> {
    cs.map_values(
        |c: ManagedController<H>| ManagedController { device: c.device.recalibrating(), ..c },
    )
}

/// Starts the gyro calibration of every controller over.
pub fn recalibrate_all<H>(controllers: &mut Vec<ManagedController<H>>)
    requires
        all_wf(old(controllers)@),
    ensures
        all_wf(final(controllers)@),
        final(controllers)@ == recalibrated(old(controllers)@),
{
    let ghost cs = controllers@;
    let mut at: usize = 0;
    while at < controllers.len()
        invariant
            at <= controllers@.len(),
            controllers@.len() == cs.len(),
            forall|i: int|
                0 <= i < at ==> #[trigger] controllers@[i] == (ManagedController {
                    device: cs[i].device.recalibrating(),
                    ..cs[i]
                }),
            forall|i: int| at <= i < cs.len() ==> controllers@[i] == cs[i],
        decreases controllers@.len() - at,
    {
        controllers[at].device.recalibrate();
        at += 1;
    }
    proof {
        assert(controllers@ =~= recalibrated(cs));
        lemma_same_records_keep_order(cs, controllers@);
    }
}

/// Whether two records are the same but for the device and what it is read by.
pub open spec fn same_record<H>(a: ManagedController<H>, b: ManagedController<H>) -> bool {
    b == (ManagedController { device: b.device, handle: b.handle, ..a })
}

proof fn lemma_same_records_keep_order<H>(
    cs: Seq<ManagedController<H>>,
    after: Seq<ManagedController<H>>,
)
    requires
        all_wf(cs),
        after.len() == cs.len(),
        forall|i: int| 0 <= i < cs.len() ==> same_record(cs[i], #[trigger] after[i]),
    ensures
        all_wf(after),
        in_use(after) == in_use(cs),
{
    assert forall|i: int, j: int|
        #![trigger after[i], after[j]]
        0 <= i < cs.len() && 0 <= j < cs.len() && i != j implies {
        &&& after[i].dsu_slot is Some ==> after[i].dsu_slot != after[j].dsu_slot
        &&& after[i].path@ != after[j].path@
    } by {
        assert(cs[i].path@ != cs[j].path@);
    }
    assert forall|i: int| 0 <= i < cs.len() implies (#[trigger] after[i]).wf() by {
        assert(cs[i].wf());
    }
    assert forall|slot: int| 0 <= slot < MAX_CONTROLLERS implies in_use(after)[slot] == in_use(
        cs,
    )[slot] by {
        if in_use(after)[slot] {
            let i = choose|i: int|
                0 <= i < after.len() && (#[trigger] after[i]).dsu_slot == Some(slot as u8);
            assert(cs[i].dsu_slot == Some(slot as u8));
        }
        if in_use(cs)[slot] {
            let i = choose|i: int|
                0 <= i < cs.len() && (#[trigger] cs[i]).dsu_slot == Some(slot as u8);
            assert(after[i].dsu_slot == Some(slot as u8));
        }
    }
    assert(in_use(after) =~= in_use(cs));
}

/// The slots that the controllers `cs` have, in their order.
pub open spec fn slots_of<H>(cs: Seq<ManagedController<H>>) -> Seq<u8>
    decreases cs.len(),
{
    if cs.len() == 0 {
        seq![]
    } else {
        match cs.last().dsu_slot {
            Some(slot) => slots_of(cs.drop_last()).push(slot),
            None => slots_of(cs.drop_last()),
        }
    }
}

/// What the server is told when the controllers `cs` are dropped.
pub open spec fn parting_events<H, T>(cs: Seq<ManagedController<H>>) -> Seq<DeviceEvent<T>> {
    slots_of(cs).map_values(|slot: u8| DeviceEvent::<T>::Disconnected { slot })
}

/// Drops every controller; the server is told of each slot that was in use.
pub fn disconnect_all<H, T>(controllers: &mut Vec<ManagedController<H>>) -> (events: Vec<
    DeviceEvent<T>,
>)
    ensures
        final(controllers)@.len() == 0,
        events@ == parting_events::<H, T>(old(controllers)@),
{
    let mut events: Vec<DeviceEvent<T>> = Vec::new();
    let mut at: usize = 0;
    while at < controllers.len()
        invariant
            at <= controllers@.len(),
            controllers@ == old(controllers)@,
            events@ =~= slots_of(controllers@.take(at as int)).map_values(
                |slot: u8| DeviceEvent::<T>::Disconnected { slot },
            ),
        decreases controllers@.len() - at,
    {
        assert(controllers@.take(at + 1).drop_last() =~= controllers@.take(at as int));
        if let Some(slot) = controllers[at].dsu_slot {
            events.push(DeviceEvent::Disconnected { slot });
        }
        at += 1;
    }
    assert(controllers@.take(at as int) =~= controllers@);
    controllers.clear();
    events
}

} // verus!
