use sc2dsu::controller::{ControllerState, DeviceEvent, ImuSample};
use sc2dsu::device::OpenSlot;
use sc2dsu::poll::{
    disconnect_all, is_managed, manage, next_candidate, poll_controllers, poll_one,
    recalibrate_all, ManagedController, Notice, Outcome, PollAction, PollRead, ERROR_THRESHOLD, SILENCE_REOPEN,
    STALE_THRESHOLD,
};
use sc2dsu::triton;

type Controllers = Vec<ManagedController<&'static str>>;

fn device(product_id: u16) -> OpenSlot {
    OpenSlot::Valve(Box::new(triton::OpenSlot {
        interface_number: 1,
        product_id,
        label: "pad",
        input_reports_seen: 0,
        reset_due: false,
    }))
}

fn open(count: u8) -> Controllers {
    let mut controllers = Vec::new();
    for n in 0..count {
        manage(&mut controllers, vec![n], device(u16::from(n)), "handle", 0);
    }
    controllers
}

fn state(timestamp_us: u32) -> ControllerState<f32> {
    ControllerState {
        buttons: 0,
        trigger_left: 0,
        trigger_right: 0,
        left_stick: [0, 0],
        right_stick: [0, 0],
        imu: ImuSample {
            timestamp_us,
            accel_g: [0.0, 0.0, 1.0],
            gyro_dps: [0.0; 3],
        },
    }
}

fn sample(timestamp_us: u32) -> PollRead<f32> {
    PollRead {
        outcome: Outcome::Sample(state(timestamp_us)),
        at: 1,
    }
}

fn silent(at: u64) -> PollRead<f32> {
    PollRead {
        outcome: Outcome::Silent,
        at,
    }
}

fn failed() -> PollRead<f32> {
    PollRead {
        outcome: Outcome::Failed,
        at: 1,
    }
}

fn slots(controllers: &Controllers) -> Vec<Option<u8>> {
    controllers.iter().map(|c| c.dsu_slot).collect()
}

fn sent(slot: u8, timestamp_us: u32) -> PollAction<f32> {
    PollAction::Send(DeviceEvent::Sample {
        slot,
        state: state(timestamp_us),
    })
}

fn assigned(product_id: u16, slot: u8) -> PollAction<f32> {
    PollAction::Log(Notice::Assigned {
        product_id,
        interface_number: 1,
        slot,
    })
}

fn gone(slot: u8) -> Vec<PollAction<f32>> {
    vec![
        PollAction::Send(DeviceEvent::Disconnected { slot }),
        PollAction::Log(Notice::SlotDisconnected { slot }),
    ]
}

#[test]
fn slots_follow_discovery_and_end_at_four() {
    let mut controllers = open(5);
    let reads: Vec<PollRead<f32>> = (0..5).map(|_| sample(9)).collect();
    let actions = poll_controllers(&mut controllers, &reads);
    assert_eq!(
        slots(&controllers),
        vec![Some(0), Some(1), Some(2), Some(3), None]
    );
    assert_eq!(actions.len(), 8);
    assert_eq!(actions[0], assigned(0, 0));
    assert_eq!(actions[1], sent(0, 9));
    assert_eq!(actions[6], assigned(3, 3));
    assert_eq!(actions[7], sent(3, 9));
}

#[test]
fn controllers_without_samples_have_no_slot() {
    let mut controllers = open(3);
    let actions = poll_controllers(&mut controllers, &vec![silent(1), sample(1), failed()]);
    assert_eq!(slots(&controllers), vec![None, Some(0), None]);
    assert_eq!(actions, vec![assigned(1, 0), sent(0, 1)]);
    let actions = poll_controllers(&mut controllers, &vec![sample(1), sample(2), silent(1)]);
    assert_eq!(slots(&controllers), vec![Some(1), Some(0), None]);
    assert_eq!(actions, vec![assigned(0, 1), sent(1, 1), sent(0, 2)]);
}

#[test]
fn a_freed_slot_is_the_next_to_go() {
    let mut controllers = open(3);
    poll_controllers(&mut controllers, &vec![sample(1), sample(1), silent(1)]);
    let actions = poll_controllers(
        &mut controllers,
        &vec![silent(SILENCE_REOPEN + 1), sample(2), sample(1)],
    );
    assert_eq!(slots(&controllers), vec![Some(1), Some(0)]);
    let mut expected = gone(0);
    expected.push(sent(1, 2));
    expected.push(assigned(2, 0));
    expected.push(sent(0, 1));
    assert_eq!(actions, expected);
}

#[test]
fn silence_counts_from_the_last_sample() {
    let mut controllers = open(1);
    poll_controllers(&mut controllers, &vec![sample(1)]);
    assert!(poll_controllers(&mut controllers, &vec![silent(SILENCE_REOPEN)]).is_empty());
    assert_eq!(controllers.len(), 1);
    let actions = poll_controllers(&mut controllers, &vec![silent(SILENCE_REOPEN + 1)]);
    assert_eq!(actions, gone(0));
    assert!(controllers.is_empty());
}

#[test]
fn five_failures_in_a_row() {
    let mut controllers = open(1);
    poll_controllers(&mut controllers, &vec![sample(1)]);
    for _ in 1..ERROR_THRESHOLD {
        assert!(poll_controllers(&mut controllers, &vec![failed()]).is_empty());
    }
    assert!(poll_controllers(&mut controllers, &vec![silent(1)]).is_empty());
    for _ in 1..ERROR_THRESHOLD {
        assert!(poll_controllers(&mut controllers, &vec![failed()]).is_empty());
    }
    let actions = poll_controllers(&mut controllers, &vec![failed()]);
    let mut expected = vec![PollAction::Log(Notice::ReadErrors { position: 0 })];
    expected.extend(gone(0));
    assert_eq!(actions, expected);
    assert!(controllers.is_empty());
}

#[test]
fn a_frozen_timestamp() {
    let mut controllers = open(1);
    poll_controllers(&mut controllers, &vec![sample(1)]);
    for _ in 1..STALE_THRESHOLD {
        assert!(poll_controllers(&mut controllers, &vec![sample(1)]).is_empty());
    }
    assert_eq!(
        poll_controllers(&mut controllers, &vec![sample(2)]),
        vec![sent(0, 2)]
    );
    for _ in 1..STALE_THRESHOLD {
        assert!(poll_controllers(&mut controllers, &vec![sample(2)]).is_empty());
    }
    let actions = poll_controllers(&mut controllers, &vec![sample(2)]);
    let mut expected = vec![PollAction::Log(Notice::Frozen)];
    expected.extend(gone(0));
    assert_eq!(actions, expected);
    assert!(controllers.is_empty());
}

#[test]
fn a_controller_without_slot_leaves_quietly() {
    let mut controllers = open(1);
    assert!(poll_controllers(&mut controllers, &vec![silent(SILENCE_REOPEN)]).is_empty());
    assert!(controllers.is_empty());
}

#[test]
fn one_read_at_a_time() {
    let mut controllers = open(1);
    let mut occupied = [true, false, true, false];
    let mut actions = Vec::new();
    assert!(poll_one(
        &mut controllers[0],
        &mut occupied,
        &sample(5),
        0,
        &mut actions
    ));
    assert_eq!(controllers[0].dsu_slot, Some(1));
    assert_eq!(occupied, [true, true, true, false]);
    assert_eq!(actions, vec![assigned(0, 1), sent(1, 5)]);
}

#[test]
fn interfaces_are_managed_once() {
    let controllers = open(2);
    assert!(is_managed(&controllers, &vec![1]));
    assert!(!is_managed(&controllers, &vec![2]));
    assert!(!is_managed(&controllers, &vec![1, 0]));
    assert!(!is_managed(&controllers, &vec![]));
}

#[test]
fn open_candidates_are_passed_over() {
    let controllers = open(2);
    let paths: Vec<Vec<u8>> = vec![vec![0], vec![7], vec![1], vec![1], vec![8]];
    assert_eq!(next_candidate(&controllers, &paths, 0), Some(1));
    assert_eq!(next_candidate(&controllers, &paths, 1), Some(1));
    assert_eq!(next_candidate(&controllers, &paths, 2), Some(4));
    assert_eq!(next_candidate(&controllers, &paths, 5), None);
    assert_eq!(next_candidate(&controllers, &paths, 9), None);
    assert_eq!(next_candidate(&controllers, &vec![vec![1], vec![0]], 0), None);
    assert_eq!(next_candidate(&controllers, &Vec::new(), 0), None);
}

fn search(controllers: &mut Controllers, paths: &Vec<Vec<u8>>, opens: &[u8]) -> Vec<usize> {
    let mut tried = Vec::new();
    let mut from = 0;
    while let Some(at) = next_candidate(controllers, paths, from) {
        tried.push(at);
        if opens.contains(&paths[at][0]) {
            manage(controllers, paths[at].clone(), device(0), "handle", 0);
        }
        from = at + 1;
    }
    tried
}

#[test]
fn a_failed_opening_stops_no_search() {
    let mut controllers = open(1);
    let paths: Vec<Vec<u8>> = vec![vec![5], vec![0], vec![6], vec![6], vec![7]];
    assert_eq!(search(&mut controllers, &paths, &[6, 7]), vec![0, 2, 4]);
    let open: Vec<&Vec<u8>> = controllers.iter().map(|c| &c.path).collect();
    assert_eq!(open, vec![&vec![0], &vec![6], &vec![7]]);
    assert_eq!(search(&mut controllers, &paths, &[5, 6, 7]), vec![0]);
    assert_eq!(controllers.len(), 4);
    assert!(search(&mut controllers, &paths, &[5, 6, 7]).is_empty());
}

#[test]
fn a_whole_session_ends_with_every_slot_gone() {
    let mut controllers: Controllers = Vec::new();
    let paths: Vec<Vec<u8>> = vec![vec![0], vec![1]];
    let mut events = Vec::new();
    let mut time = 0;
    search(&mut controllers, &paths, &[0, 1]);
    for lap in 0..20 {
        time += 1;
        let reads = match lap {
            3..=7 => vec![failed(), sample(time)],
            8 => {
                assert_eq!(controllers.len(), 1);
                search(&mut controllers, &paths, &[0, 1]);
                recalibrate_all(&mut controllers);
                vec![sample(time), sample(time)]
            }
            _ => vec![sample(time), sample(time)],
        };
        for action in poll_controllers(&mut controllers, &reads) {
            if let PollAction::Send(event) = action {
                events.push(event);
            }
        }
    }
    events.extend(disconnect_all(&mut controllers));
    assert!(controllers.is_empty());
    for slot in 0..2u8 {
        let of_slot: Vec<bool> = events
            .iter()
            .filter_map(|event| match event {
                DeviceEvent::Sample { slot: to, .. } if *to == slot => Some(true),
                DeviceEvent::Disconnected { slot: of } if *of == slot => Some(false),
                _ => None,
            })
            .collect();
        assert!(of_slot.contains(&true));
        assert_eq!(of_slot.last(), Some(&false));
    }
}

#[test]
fn recalibration_reaches_every_controller() {
    let mut controllers = open(2);
    recalibrate_all(&mut controllers);
    for controller in &controllers {
        match &controller.device {
            OpenSlot::Valve(slot) => assert!(slot.reset_due),
            OpenSlot::Flydigi(_) => unreachable!(),
        }
    }
}

#[test]
fn disconnecting_tells_of_every_slot() {
    let mut controllers = open(3);
    poll_controllers(&mut controllers, &vec![silent(1), sample(1), silent(1)]);
    poll_controllers(&mut controllers, &vec![sample(1), sample(2), silent(1)]);
    let events: Vec<DeviceEvent<f32>> = disconnect_all(&mut controllers);
    assert_eq!(
        events,
        vec![
            DeviceEvent::Disconnected { slot: 1 },
            DeviceEvent::Disconnected { slot: 0 }
        ]
    );
    assert!(controllers.is_empty());
}
