//! The loop of the thread that reads the controllers: when to rest, when to look
//! for controllers and when to poll them.

use vstd::prelude::*;

verus! {

/// Milliseconds of rest while nobody wants the controllers.
pub const IDLE_REST_MS: u64 = 200;

/// Milliseconds of rest when the HID system cannot be had.
pub const BACK_OFF_MS: u64 = 1000;

/// Milliseconds of rest between two rounds of polling.
pub const POLL_REST_MS: u64 = 2;

/// Nanoseconds between two searches for controllers.
pub const RESCAN_INTERVAL: u64 = 1_000_000_000;

/// What came of the last action. Times are in nanoseconds of one clock.
#[derive(Debug, Clone, Copy, PartialEq, Eq, Structural)]
pub enum Event {
    /// The loop begins anew.
    Woke { shutdown: bool, dsu_wants: bool, ui_wants: bool, now: u64 },
    /// The rest is over.
    Rested { now: u64 },
    /// The list of devices was refreshed, or could not be.
    Refreshed { ok: bool },
    /// The HID system was set up anew, or could not be.
    Rebuilt { ok: bool },
    /// The candidates were gone through.
    Opened { now: u64 },
}

/// What to do next.
#[derive(Debug, Clone, Copy, PartialEq, Eq, Structural)]
pub enum Action {
    /// Drop every controller and end.
    Stop,
    /// Drop every controller and rest for [`IDLE_REST_MS`].
    Rest,
    /// Wake.
    Wake,
    /// Refresh the list of devices.
    Refresh,
    /// Set the HID system up anew.
    Rebuild,
    /// Rest for [`BACK_OFF_MS`] and wake.
    BackOff,
    /// Open every candidate that is not open yet.
    OpenCandidates,
    /// Recalibrate where asked to, poll once, rest for [`POLL_REST_MS`] and wake.
    Poll,
}

/// The state of the loop.
#[derive(Debug, Clone, Copy, PartialEq, Eq, Structural)]
pub struct Reader {
    /// When to look for controllers next.
    pub next_scan: u64,
}

impl Reader {
    /// The state that follows and the action that leads on from it.
    pub open spec fn next(self, event: Event) -> (Reader, Action) {
        match event {
            Event::Woke { shutdown, dsu_wants, ui_wants, now } => if shutdown {
                (self, Action::Stop)
            } else if !dsu_wants && !ui_wants {
                (self, Action::Rest)
            } else if now >= self.next_scan {
                (self, Action::Refresh)
            } else {
                (self, Action::Poll)
            },
            Event::Rested { now } => (Reader { next_scan: now }, Action::Wake),
            Event::Refreshed { ok } => if ok {
                (self, Action::OpenCandidates)
            } else {
                (self, Action::Rebuild)
            },
            Event::Rebuilt { ok } => if ok {
                (self, Action::OpenCandidates)
            } else {
                (self, Action::BackOff)
            },
            Event::Opened { now } => (
                Reader { next_scan: now.saturating_add(RESCAN_INTERVAL) },
                Action::Poll,
            ),
        }
    }

    /// The loop as it begins at `now`.
    pub open spec fn started(now: u64) -> Reader {
        Reader { next_scan: now }
    }

    /// The loop as it begins at `now`, due to look for controllers at once.
    pub fn new(now: u64) -> (reader: Reader)
        ensures
            reader == Reader::started(now),
    {
        Reader { next_scan: now }
    }

    /// Takes the loop one step on.
    pub fn step(&mut self, event: Event) -> (action: Action)
        ensures
            (*final(self), action) == old(self).next(event),
    {
        match event {
            Event::Woke { shutdown, dsu_wants, ui_wants, now } => if shutdown {
                Action::Stop
            } else if !dsu_wants && !ui_wants {
                Action::Rest
            } else if now >= self.next_scan {
                Action::Refresh
            } else {
                Action::Poll
            },
            Event::Rested { now } => {
                self.next_scan = now;
                Action::Wake
            },
            Event::Refreshed { ok } => if ok {
                Action::OpenCandidates
            } else {
                Action::Rebuild
            },
            Event::Rebuilt { ok } => if ok {
                Action::OpenCandidates
            } else {
                Action::BackOff
            },
            Event::Opened { now } => {
                self.next_scan = now.saturating_add(RESCAN_INTERVAL);
                Action::Poll
            },
        }
    }
}

/// Controllers are looked for and polled on waking only while somebody wants them
/// and the program is not to end; otherwise they are dropped.
pub proof fn controllers_are_held_only_while_wanted(
    reader: Reader,
    shutdown: bool,
    dsu_wants: bool,
    ui_wants: bool,
    now: u64,
)
    ensures
        ({
            let action = reader.next(Event::Woke { shutdown, dsu_wants, ui_wants, now }).1;
            &&& (action is Refresh || action is Poll) <==> !shutdown && (dsu_wants || ui_wants)
            &&& (action is Stop || action is Rest) <==> shutdown || !(dsu_wants || ui_wants)
        }),
{
}

/// After a rest, the first waking on which the controllers are wanted looks for
/// them, whenever it comes.
pub proof fn a_rest_ends_in_a_search(
    reader: Reader,
    unwanted: u64,
    rested: u64,
    dsu_wants: bool,
    ui_wants: bool,
    now: u64,
)
    requires
        dsu_wants || ui_wants,
        rested <= now,
    ensures
        ({
            let resting = reader.next(
                Event::Woke { shutdown: false, dsu_wants: false, ui_wants: false, now: unwanted },
            );
            let waking = resting.0.next(Event::Rested { now: rested });
            &&& resting.1 is Rest
            &&& waking.1 is Wake
            &&& waking.0.next(
                Event::Woke { shutdown: false, dsu_wants, ui_wants, now },
            ).1 is Refresh
        }),
{
}

/// While the controllers stay wanted, two searches are a second apart.
pub proof fn searches_are_a_second_apart(
    reader: Reader,
    opened: u64,
    dsu_wants: bool,
    ui_wants: bool,
    now: u64,
)
    requires
        dsu_wants || ui_wants,
        opened <= u64::MAX - RESCAN_INTERVAL,
    ensures
        ({
            let searched = reader.next(Event::Opened { now: opened });
            searched.1 is Poll && (searched.0.next(
                Event::Woke { shutdown: false, dsu_wants, ui_wants, now },
            ).1 is Refresh <==> now >= opened + RESCAN_INTERVAL)
        }),
{
}

/// A thread that is told to end does so on its next waking, whoever wants the
/// controllers, and on no other event.
pub proof fn only_shutdown_stops_the_loop(reader: Reader, event: Event)
    ensures
        reader.next(event).1 is Stop <==> (event matches Event::Woke { shutdown, .. } && shutdown),
{
}

/// On waking, controllers that are wanted by the server or by the window, or by both,
/// are looked for exactly when the time has come, and polled otherwise; the time of the
/// next search stays.
pub proof fn searches_wait_for_their_time(
    reader: Reader,
    dsu_wants: bool,
    ui_wants: bool,
    now: u64,
)
    requires
        dsu_wants || ui_wants,
    ensures
        ({
            let woken = reader.next(Event::Woke { shutdown: false, dsu_wants, ui_wants, now });
            &&& woken.1 is Refresh <==> now >= reader.next_scan
            &&& woken.1 is Poll <==> now < reader.next_scan
            &&& woken.0.next_scan == reader.next_scan
        }),
{
}

/// A search goes on with a list that could be refreshed, or else with a HID system
/// that could be set up anew; where neither can be, the loop backs off, and the search
/// is still due.
pub proof fn a_failed_search_is_made_up_for(
    reader: Reader,
    dsu_wants: bool,
    ui_wants: bool,
    now: u64,
)
    requires
        dsu_wants || ui_wants,
        now >= reader.next_scan,
    ensures
        reader.next(Event::Refreshed { ok: true }).1 is OpenCandidates,
        reader.next(Event::Refreshed { ok: false }).1 is Rebuild,
        reader.next(Event::Rebuilt { ok: true }).1 is OpenCandidates,
        ({
            let rebuilding = reader.next(Event::Refreshed { ok: false }).0;
            let backed_off = rebuilding.next(Event::Rebuilt { ok: false });
            &&& backed_off.1 is BackOff
            &&& backed_off.0.next(
                Event::Woke { shutdown: false, dsu_wants, ui_wants, now },
            ).1 is Refresh
        }),
{
}

/// After a search the controllers are polled, and the next search is a second away;
/// none comes before it, and one does from then on.
pub proof fn the_next_search_is_a_second_away(
    reader: Reader,
    opened: u64,
    dsu_wants: bool,
    ui_wants: bool,
    now: u64,
)
    requires
        dsu_wants || ui_wants,
        opened <= u64::MAX - 1_000_000_000,
    ensures
        ({
            let searched = reader.next(Event::Opened { now: opened });
            let woken = searched.0.next(Event::Woke { shutdown: false, dsu_wants, ui_wants, now });
            &&& searched.1 is Poll
            &&& woken.1 is Refresh <==> now >= opened + 1_000_000_000
            &&& woken.1 is Poll <==> now < opened + 1_000_000_000
        }),
{
}

/// The rests of the loop: a fifth of a second while nobody wants the controllers, a
/// second where the HID system cannot be had, two milliseconds between polls.
pub proof fn how_long_the_loop_rests()
    ensures
        IDLE_REST_MS * 5 == 1000,
        BACK_OFF_MS == 1000,
        POLL_REST_MS == 2,
{
}

/// A loop that just began looks for controllers on the first waking on which they are
/// wanted.
pub proof fn the_loop_begins_with_a_search(
    started: u64,
    dsu_wants: bool,
    ui_wants: bool,
    now: u64,
)
    requires
        dsu_wants || ui_wants,
        started <= now,
    ensures
        Reader::started(started).next(
            Event::Woke { shutdown: false, dsu_wants, ui_wants, now },
        ).1 is Refresh,
{
}

} // verus!
