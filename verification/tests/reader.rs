use sc2dsu::reader::{Action, Event, Reader, RESCAN_INTERVAL};

fn woke(shutdown: bool, dsu_wants: bool, ui_wants: bool, now: u64) -> Event {
    Event::Woke {
        shutdown,
        dsu_wants,
        ui_wants,
        now,
    }
}

#[test]
fn nobody_wants_the_controllers() {
    let mut reader = Reader::new(10);
    assert_eq!(reader.step(woke(false, false, false, 11)), Action::Rest);
    assert_eq!(reader.next_scan, 10);
    assert_eq!(reader.step(Event::Rested { now: 12 }), Action::Wake);
    assert_eq!(reader.next_scan, 12);
    assert_eq!(reader.step(woke(false, true, false, 12)), Action::Refresh);
}

#[test]
fn a_search_every_second() {
    let mut reader = Reader::new(10);
    assert_eq!(reader.step(woke(false, false, true, 10)), Action::Refresh);
    assert_eq!(
        reader.step(Event::Refreshed { ok: true }),
        Action::OpenCandidates
    );
    assert_eq!(reader.step(Event::Opened { now: 20 }), Action::Poll);
    let due = 20 + RESCAN_INTERVAL;
    assert_eq!(reader.step(woke(false, true, true, due - 1)), Action::Poll);
    assert_eq!(reader.step(woke(false, true, true, due)), Action::Refresh);
}

#[test]
fn a_lost_hid_system_is_rebuilt() {
    let mut reader = Reader::new(0);
    assert_eq!(reader.step(woke(false, true, false, 5)), Action::Refresh);
    assert_eq!(reader.step(Event::Refreshed { ok: false }), Action::Rebuild);
    assert_eq!(reader.step(Event::Rebuilt { ok: false }), Action::BackOff);
    assert_eq!(reader.step(woke(false, true, false, 6)), Action::Refresh);
    assert_eq!(reader.step(Event::Refreshed { ok: false }), Action::Rebuild);
    assert_eq!(
        reader.step(Event::Rebuilt { ok: true }),
        Action::OpenCandidates
    );
}

#[test]
fn a_rest_ends_in_a_search() {
    let mut reader = Reader::new(0);
    assert_eq!(reader.step(Event::Opened { now: 20 }), Action::Poll);
    assert_eq!(reader.step(woke(false, false, false, 30)), Action::Rest);
    assert_eq!(reader.step(Event::Rested { now: 40 }), Action::Wake);
    assert_eq!(reader.step(woke(false, true, false, 40)), Action::Refresh);
}

#[test]
fn shutting_down_comes_first() {
    let mut reader = Reader::new(0);
    assert_eq!(reader.step(woke(true, true, true, 5)), Action::Stop);
    assert_eq!(reader.step(woke(true, false, false, 5)), Action::Stop);
}
