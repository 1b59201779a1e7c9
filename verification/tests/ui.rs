use sc2dsu::config::{Axis, AxisMap, Config, UNIT_SENSITIVITY};
use sc2dsu::ui::{
    accel_rows, axis_label, axis_row, starts_visible, App, Autostart, RowInput, ServerStatus,
    SettingsInput, SystemInput, TrayEvent, Viewport,
};

fn map(first: u8) -> AxisMap {
    AxisMap {
        x: Axis {
            source: first,
            invert: false,
        },
        y: Axis {
            source: 1,
            invert: true,
        },
        z: Axis {
            source: 2,
            invert: false,
        },
    }
}

fn config() -> Config {
    Config {
        gyro: map(0),
        accel: map(2),
        gyro_sensitivity: UNIT_SENSITIVITY,
        auto_calibrate: true,
        port: 26760,
        expose_to_network: false,
        start_minimized: false,
        close_to_tray: true,
    }
}

fn app() -> App {
    App::new(config(), false, true)
}

const IDLE_ROW: RowInput = RowInput {
    picked: None,
    toggle_invert: false,
};

fn no_settings() -> SettingsInput {
    SettingsInput {
        gyro_x: IDLE_ROW,
        gyro_y: IDLE_ROW,
        gyro_z: IDLE_ROW,
        sensitivity: None,
        toggle_auto_calibrate: false,
        copy_from_gyro: false,
        accel_x: IDLE_ROW,
        accel_y: IDLE_ROW,
        accel_z: IDLE_ROW,
    }
}

fn no_system() -> SystemInput {
    SystemInput {
        port_left: false,
        toggle_expose: false,
        toggle_start_minimized: false,
        toggle_close_to_tray: false,
        autostart: None,
    }
}

#[test]
fn the_window_starts_as_asked() {
    let mut cfg = config();
    assert!(starts_visible(&cfg, false));
    assert!(!starts_visible(&cfg, true));
    cfg.start_minimized = true;
    assert!(!starts_visible(&cfg, false));
    let hidden = App::new(cfg, false, false);
    assert!(!hidden.visible);
    assert!(!hidden.ui_wants_device);
    let shown = app();
    assert!(shown.visible);
    assert!(shown.ui_wants_device);
    assert_eq!(shown.port, "26760");
    assert_eq!(shown.note, "");
}

#[test]
fn showing_and_hiding() {
    let mut a = app();
    assert_eq!(a.set_visible(false), vec![Viewport::Visible(false)]);
    assert!(!a.visible && !a.ui_wants_device);
    assert_eq!(
        a.set_visible(true),
        vec![Viewport::Visible(true), Viewport::Focus]
    );
    assert!(a.visible && a.ui_wants_device);
}

#[test]
fn saving_is_remarked_on() {
    let mut a = app();
    a.save("settings saved.", Ok(()));
    assert_eq!(a.note, "settings saved.");
    a.save("settings saved.", Err("disk full".to_string()));
    assert_eq!(a.note, "save failed: disk full");
}

#[test]
fn axes_have_names() {
    assert_eq!(axis_label(0), "raw X");
    assert_eq!(axis_label(1), "raw Y");
    assert_eq!(axis_label(2), "raw Z");
    assert_eq!(axis_label(9), "raw Z");
}

#[test]
fn a_row_changes_with_its_input() {
    let mut axis = Axis {
        source: 1,
        invert: false,
    };
    assert!(!axis_row(&mut axis, &IDLE_ROW));
    let same = RowInput {
        picked: Some(1),
        toggle_invert: false,
    };
    assert!(!axis_row(&mut axis, &same));
    let both = RowInput {
        picked: Some(2),
        toggle_invert: true,
    };
    assert!(axis_row(&mut axis, &both));
    assert_eq!(
        axis,
        Axis {
            source: 2,
            invert: true
        }
    );
}

#[test]
fn settings_are_saved_when_touched() {
    let mut a = app();
    assert_eq!(a.settings(&no_settings()), None);
    assert_eq!(a.cfg, config());
    let mut input = no_settings();
    input.sensitivity = Some(0x4000_0000);
    input.toggle_auto_calibrate = true;
    assert_eq!(a.settings(&input), Some("settings saved."));
    assert_eq!(a.cfg.gyro_sensitivity, 0x4000_0000);
    assert!(!a.cfg.auto_calibrate);
    assert_eq!(a.cfg.gyro, config().gyro);
}

#[test]
fn copying_follows_the_gyro_and_precedes_the_rows() {
    let mut a = app();
    let mut input = no_settings();
    input.gyro_x.picked = Some(1);
    input.copy_from_gyro = true;
    input.accel_z.toggle_invert = true;
    assert_eq!(a.settings(&input), Some("settings saved."));
    assert_eq!(a.cfg.gyro, map(1));
    let mut accel = map(1);
    accel.z.invert = true;
    assert_eq!(a.cfg.accel, accel);
}

#[test]
fn the_rows_show_what_was_just_copied() {
    let mut cfg = config();
    cfg.accel = map(2);
    let mut input = no_settings();
    input.gyro_x.picked = Some(1);
    input.accel_z.toggle_invert = true;
    assert_eq!(accel_rows(&cfg, &input), map(2));
    input.copy_from_gyro = true;
    assert_eq!(accel_rows(&cfg, &input), map(1));
}

#[test]
fn copying_alone_is_saved() {
    let mut a = app();
    a.cfg.accel = a.cfg.gyro;
    let mut input = no_settings();
    input.copy_from_gyro = true;
    assert_eq!(a.settings(&input), Some("settings saved."));
}

#[test]
fn the_port_field_is_read_when_left() {
    let mut a = app();
    a.port = "8080".to_string();
    assert_eq!(a.system_settings(&no_system()), None);
    assert_eq!(a.cfg.port, 26760);
    let mut input = no_system();
    input.port_left = true;
    assert_eq!(a.system_settings(&input), Some("system settings saved."));
    assert_eq!(a.cfg.port, 8080);
    a.port = "65536".to_string();
    assert_eq!(a.system_settings(&input), None);
    assert_eq!(a.cfg.port, 8080);
    assert_eq!(a.note, "port must be a number from 0 to 65535.");
}

#[test]
fn system_switches_are_saved() {
    let mut a = app();
    let mut input = no_system();
    input.toggle_expose = true;
    input.toggle_start_minimized = true;
    input.toggle_close_to_tray = true;
    assert_eq!(a.system_settings(&input), Some("system settings saved."));
    assert!(a.cfg.expose_to_network);
    assert!(a.cfg.start_minimized);
    assert!(!a.cfg.close_to_tray);
}

#[test]
fn autostart_is_remarked_on() {
    let remark = |enabled: bool, result: Result<(), String>| {
        let mut a = app();
        a.port = "x".to_string();
        let mut input = no_system();
        input.port_left = true;
        input.autostart = Some(Autostart { enabled, result });
        assert_eq!(a.system_settings(&input), None);
        a.note
    };
    assert_eq!(remark(true, Ok(())), "autostart enabled.");
    assert_eq!(remark(false, Ok(())), "autostart disabled.");
    assert_eq!(
        remark(true, Err("denied".to_string())),
        "autostart change failed: denied"
    );
}

#[test]
fn the_status_is_put_in_words() {
    let mut s = ServerStatus {
        bound_port: 0,
        server_id: 0xBEEF,
        device_active: false,
        controllers: 0,
        subscribers: 0,
        calibration_active: false,
        calibration_steady: true,
    };
    let text = App::status(&s, "127.0.0.1", "0");
    assert_eq!(text.listening, "binding…");
    assert_eq!(text.server_id, "0x0000BEEF");
    assert_eq!(text.activity, "0 / 0 (idle, calibration off)");
    s.bound_port = 26760;
    s.device_active = true;
    s.controllers = 2;
    s.subscribers = 13;
    s.calibration_active = true;
    let text = App::status(&s, "127.0.0.1", "87");
    assert_eq!(text.listening, "127.0.0.1:26760");
    assert_eq!(text.activity, "2 / 13 (awake, calibration locked 87%)");
    s.calibration_steady = false;
    let text = App::status(&s, "0.0.0.0", "87");
    assert_eq!(text.activity, "2 / 13 (awake, calibrating…)");
}

#[test]
fn the_tray_shows_hides_and_quits() {
    let mut a = app();
    assert_eq!(
        a.handle_tray(&vec![TrayEvent::Other, TrayEvent::IconClicked]),
        vec![Viewport::Visible(false)]
    );
    assert!(!a.ui_wants_device);
    assert_eq!(
        a.handle_tray(&vec![TrayEvent::ShowChosen, TrayEvent::QuitChosen]),
        vec![Viewport::Visible(true), Viewport::Focus, Viewport::Close]
    );
    assert!(a.shutdown);
    assert!(a.visible);
}

#[test]
fn two_clicks_cancel_out() {
    let mut a = app();
    a.handle_tray(&vec![TrayEvent::IconClicked, TrayEvent::IconClicked]);
    assert_eq!(a, app());
}

#[test]
fn quitting_ends_the_program() {
    let mut a = app();
    assert_eq!(a.quit(), vec![Viewport::Close]);
    assert!(a.shutdown);
}

#[test]
fn closing_hides_where_it_may() {
    let mut a = app();
    assert_eq!(
        a.close_requested(),
        vec![Viewport::CancelClose, Viewport::Visible(false)]
    );
    assert!(!a.shutdown && !a.visible);
    let mut no_tray = App::new(config(), false, false);
    assert_eq!(no_tray.close_requested(), vec![]);
    assert!(no_tray.shutdown && no_tray.visible);
    let mut cfg = config();
    cfg.close_to_tray = false;
    let mut told_to_end = App::new(cfg, false, true);
    assert_eq!(told_to_end.close_requested(), vec![]);
    assert!(told_to_end.shutdown);
}

#[test]
fn recalibrating_is_remarked_on() {
    let mut a = app();
    a.recalibrate_clicked();
    assert_eq!(a.note, "recalibrating gyro.");
}

#[test]
fn restoring_takes_two_presses() {
    let mut defaults = config();
    defaults.port = 5;
    defaults.gyro = map(2);
    let mut a = app();
    assert_eq!(a.restore_label(), "Restore defaults");
    assert_eq!(a.restore_clicked(&defaults), None);
    assert_eq!(a.cfg, config());
    assert_eq!(a.restore_label(), "Confirm restore");
    assert_eq!(a.restore_clicked(&defaults), Some("restored defaults."));
    assert_eq!(a.cfg, defaults);
    assert_eq!(a.port, "5");
    assert_eq!(a.restore_label(), "Restore defaults");
}
