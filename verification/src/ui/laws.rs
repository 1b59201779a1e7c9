//! What holds of the settings window through every event.

use super::{
    activity_text, axis_name, edited_axis, edited_settings, edited_system, listening_text,
    restore_text, save_note, server_id_text, settings_touched, showing, shown_accel, system_note,
    system_touched, AppView, RowInput, ServerStatus, SettingsInput, SystemInput, TrayEvent,
    Viewport,
};
use crate::config::{Axis, Config};
use crate::text::{
    decimal_reads_back, decimal_text, hex_range, hex_reads_back, hex_text, hex_value, is_hex_digit,
    parsed_u16,
};
use vstd::prelude::*;

verus! {

/// The settings change only with the second of two presses of the restore button,
/// which leaves the button as before the first.
pub proof fn restoring_takes_two_presses(app: AppView, defaults: Config)
    requires
        !app.confirm_defaults,
    ensures
        app.after_restore(defaults).cfg == app.cfg,
        app.after_restore(defaults).port == app.port,
        app.after_restore(defaults).after_restore(defaults) == (AppView {
            cfg: defaults,
            port: decimal_text(defaults.port as nat),
            ..app
        }),
{
}

/// A port field that shows the port set leaves it as it is.
pub proof fn the_shown_port_reads_back(cfg: Config, input: SystemInput)
    ensures
        edited_system(cfg, parsed_u16(decimal_text(cfg.port as nat)), input).port == cfg.port,
{
    decimal_reads_back(cfg.port);
}

/// A window that may hide in the tray is not ended by closing it, and one that
/// may not is.
pub proof fn closing_hides_or_ends(app: AppView)
    ensures
        app.cfg.close_to_tray && app.tray ==> {
            &&& app.after_close().0.shutdown == app.shutdown
            &&& !app.after_close().0.visible
            &&& app.after_close().1[0] == Viewport::CancelClose
        },
        !(app.cfg.close_to_tray && app.tray) ==> {
            &&& app.after_close().0.shutdown
            &&& app.after_close().0.visible == app.visible
            &&& app.after_close().1.len() == 0
        },
{
}

/// Two clicks on the tray icon leave the window as seen or hidden as it was.
pub proof fn two_clicks_on_the_icon_cancel_out(app: AppView)
    requires
        app.ui_wants_device == app.visible,
    ensures
        app.after_tray(TrayEvent::IconClicked).0.visible == !app.visible,
        app.after_tray(TrayEvent::IconClicked).0.after_tray(TrayEvent::IconClicked).0 == app,
{
}

/// Nothing at the tray icon but the quit entry ends the program, and nothing
/// there changes the settings.
pub proof fn only_quitting_ends_the_program(app: AppView, events: Seq<TrayEvent>)
    ensures
        app.after_tray_events(events).0.shutdown <==> app.shutdown || events.contains(
            TrayEvent::QuitChosen,
        ),
        app.after_tray_events(events).0.cfg == app.cfg,
        app.after_tray_events(events).0.port == app.port,
    decreases events.len(),
{
    if events.len() > 0 {
        let shorter = events.drop_last();
        only_quitting_ends_the_program(app, shorter);
        if shorter.contains(TrayEvent::QuitChosen) {
            let k = choose|k: int| 0 <= k < shorter.len() && shorter[k] == TrayEvent::QuitChosen;
            assert(events[k] == TrayEvent::QuitChosen);
        }
        if events.last() == TrayEvent::QuitChosen {
            assert(events[events.len() - 1] == TrayEvent::QuitChosen);
        } else if events.contains(TrayEvent::QuitChosen) {
            let k = choose|k: int| 0 <= k < events.len() && events[k] == TrayEvent::QuitChosen;
            assert(shorter[k] == TrayEvent::QuitChosen);
        }
    }
}

/// Settings that are not to be saved are as they were.
pub proof fn unsaved_settings_are_unchanged(cfg: Config, input: SettingsInput)
    requires
        !settings_touched(cfg, input),
    ensures
        edited_settings(cfg, input) == cfg,
{
}

/// Each of the three system switches turns its setting round, from either state,
/// exactly when it is toggled, and touches no other.
pub proof fn switches_turn_both_ways(cfg: Config, port: Option<u16>, input: SystemInput)
    ensures
        ({
            let after = edited_system(cfg, port, input);
            &&& after.expose_to_network != cfg.expose_to_network <==> input.toggle_expose
            &&& after.start_minimized != cfg.start_minimized <==> input.toggle_start_minimized
            &&& after.close_to_tray != cfg.close_to_tray <==> input.toggle_close_to_tray
        }),
{
}

/// Toggling switches twice gives the settings back.
pub proof fn toggling_twice_gives_back(cfg: Config, port: Option<u16>, input: SystemInput)
    ensures
        edited_system(edited_system(cfg, port, input), port, input) == (Config {
            port: edited_system(cfg, port, input).port,
            ..cfg
        }),
{
}

/// Nothing in the system settings touches the mappings, the sensitivity or the
/// calibration, and nothing in those touches the system settings.
pub proof fn the_two_groups_of_settings_are_apart(
    cfg: Config,
    port: Option<u16>,
    system: SystemInput,
    settings: SettingsInput,
)
    ensures
        ({
            let after = edited_system(cfg, port, system);
            &&& after.gyro == cfg.gyro
            &&& after.accel == cfg.accel
            &&& after.gyro_sensitivity == cfg.gyro_sensitivity
            &&& after.auto_calibrate == cfg.auto_calibrate
        }),
        ({
            let after = edited_settings(cfg, settings);
            &&& after.port == cfg.port
            &&& after.expose_to_network == cfg.expose_to_network
            &&& after.start_minimized == cfg.start_minimized
            &&& after.close_to_tray == cfg.close_to_tray
        }),
{
}

/// The port is what the field writes once it is left, whatever it was; a field that
/// writes none, or is not left, leaves it.
pub proof fn the_port_follows_the_field(cfg: Config, port: Option<u16>, input: SystemInput)
    ensures
        input.port_left ==> (port matches Some(number) ==> edited_system(cfg, port, input).port
            == number),
        !input.port_left || port is None ==> edited_system(cfg, port, input).port == cfg.port,
{
}

/// The system settings are saved exactly when the field was left with a number, be it
/// the same, or a switch was toggled; so whatever changes is saved.
pub proof fn what_saves_the_system_settings(cfg: Config, port: Option<u16>, input: SystemInput)
    ensures
        system_touched(port, input) <==> (input.port_left && port is Some) || input.toggle_expose
            || input.toggle_start_minimized || input.toggle_close_to_tray,
        edited_system(cfg, port, input) != cfg ==> system_touched(port, input),
{
}

/// Whether `after` is the row of `axis` once `input` is done to it: the source is the
/// one picked, else the one it was, and the inversion is turned round exactly where it
/// was toggled.
pub open spec fn row_follows(axis: Axis, input: RowInput, after: Axis) -> bool {
    &&& input.picked matches Some(source) ==> after.source == source
    &&& input.picked is None ==> after.source == axis.source
    &&& after.invert != axis.invert <==> input.toggle_invert
}

/// Each of the six rows is edited by what was done to it alone. The rows of the
/// accelerometer begin with its own mapping, or with the gyro's as it is now where that
/// was copied.
pub proof fn rows_follow_their_own_input(cfg: Config, input: SettingsInput)
    ensures
        ({
            let after = edited_settings(cfg, input);
            let accel = if input.copy_from_gyro {
                after.gyro
            } else {
                cfg.accel
            };
            &&& row_follows(cfg.gyro.x, input.gyro_x, after.gyro.x)
            &&& row_follows(cfg.gyro.y, input.gyro_y, after.gyro.y)
            &&& row_follows(cfg.gyro.z, input.gyro_z, after.gyro.z)
            &&& shown_accel(cfg, input) == accel
            &&& row_follows(accel.x, input.accel_x, after.accel.x)
            &&& row_follows(accel.y, input.accel_y, after.accel.y)
            &&& row_follows(accel.z, input.accel_z, after.accel.z)
        }),
{
}

/// One row of a mapping, alone: what is done to it is done to it, a toggle twice gives
/// the row back, and what is not touched stays.
pub proof fn a_row_follows_its_input(axis: Axis, input: RowInput)
    ensures
        row_follows(axis, input, edited_axis(axis, input)),
        edited_axis(edited_axis(axis, input), input).invert == axis.invert,
{
}

/// The sensitivity is the one moved to, else the one it was; the calibration is turned
/// on or off, from either state, exactly where its box was toggled.
pub proof fn sensitivity_and_calibration_follow_their_input(cfg: Config, input: SettingsInput)
    ensures
        input.sensitivity matches Some(bits) ==> edited_settings(cfg, input).gyro_sensitivity
            == bits,
        input.sensitivity is None ==> edited_settings(cfg, input).gyro_sensitivity
            == cfg.gyro_sensitivity,
        edited_settings(cfg, input).auto_calibrate != cfg.auto_calibrate
            <==> input.toggle_auto_calibrate,
{
}

/// Copying makes the accelerometer's mapping the gyro's, where its own rows are let be.
pub proof fn copying_makes_the_mappings_one(cfg: Config, input: SettingsInput)
    requires
        input.copy_from_gyro,
        input.accel_x == (RowInput { picked: None, toggle_invert: false }),
        input.accel_y == (RowInput { picked: None, toggle_invert: false }),
        input.accel_z == (RowInput { picked: None, toggle_invert: false }),
    ensures
        edited_settings(cfg, input).accel == edited_settings(cfg, input).gyro,
{
}

/// Whether `input` changes the row of `axis`.
pub open spec fn row_moves(axis: Axis, input: RowInput) -> bool {
    input.toggle_invert || (input.picked matches Some(source) && source != axis.source)
}

/// The settings are saved exactly when a row was changed, the sensitivity moved, the
/// calibration toggled or the mapping copied; so whatever changes is saved.
pub proof fn what_saves_the_settings(cfg: Config, input: SettingsInput)
    ensures
        settings_touched(cfg, input) <==> {
            ||| row_moves(cfg.gyro.x, input.gyro_x)
            ||| row_moves(cfg.gyro.y, input.gyro_y)
            ||| row_moves(cfg.gyro.z, input.gyro_z)
            ||| input.sensitivity is Some
            ||| input.toggle_auto_calibrate
            ||| input.copy_from_gyro
            ||| row_moves(cfg.accel.x, input.accel_x)
            ||| row_moves(cfg.accel.y, input.accel_y)
            ||| row_moves(cfg.accel.z, input.accel_z)
        },
        edited_settings(cfg, input) != cfg ==> settings_touched(cfg, input),
{
}

/// The window is hidden at the start exactly when the settings or the command line ask
/// for it, either of them alone; it wants the controllers just while it is seen. It
/// shows the port that is set, remarks nothing, and waits for nothing to be confirmed.
pub proof fn how_the_window_starts(cfg: Config, start_minimized: bool, tray: bool)
    ensures
        ({
            let app = AppView::at_start(cfg, start_minimized, tray);
            &&& !app.visible <==> cfg.start_minimized || start_minimized
            &&& app.ui_wants_device == app.visible
            &&& app.cfg == cfg
            &&& app.tray == tray
            &&& parsed_u16(app.port) == Some(cfg.port)
            &&& app.note.len() == 0
            &&& !app.shutdown
            &&& !app.confirm_defaults
        }),
{
    decimal_reads_back(cfg.port);
}

/// Showing the window asks for it to be seen and then for the focus, hiding it only for
/// it not to be seen; either way the controllers are wanted just while it is seen, and
/// nothing else of the window moves.
pub proof fn showing_and_hiding(app: AppView, visible: bool)
    ensures
        showing(visible)[0] == Viewport::Visible(visible),
        visible ==> showing(visible).len() == 2 && showing(visible)[1] == Viewport::Focus,
        !visible ==> showing(visible).len() == 1,
        ({
            let after = app.shown(visible);
            &&& after.visible == visible
            &&& after.ui_wants_device == visible
            &&& after.shutdown == app.shutdown
            &&& after.cfg == app.cfg
            &&& after.port == app.port
            &&& after.note == app.note
            &&& after.tray == app.tray
            &&& after.confirm_defaults == app.confirm_defaults
        }),
{
}

/// What each event at the tray icon does: a click shows a hidden window and hides one
/// that is seen, the first entry of the menu shows it in any case, the last ends the
/// program, and anything else does nothing.
pub proof fn what_the_tray_icon_does(app: AppView)
    ensures
        app.after_tray(TrayEvent::IconClicked) == (app.shown(!app.visible), showing(!app.visible)),
        app.after_tray(TrayEvent::ShowChosen).0.visible,
        app.after_tray(TrayEvent::ShowChosen).0.ui_wants_device,
        app.after_tray(TrayEvent::ShowChosen).1 == seq![Viewport::Visible(true), Viewport::Focus],
        app.after_tray(TrayEvent::ShowChosen).0.shutdown == app.shutdown,
        app.after_tray(TrayEvent::QuitChosen).0.shutdown,
        app.after_tray(TrayEvent::QuitChosen).0.visible == app.visible,
        app.after_tray(TrayEvent::QuitChosen).1 == seq![Viewport::Close],
        app.after_tray(TrayEvent::Other).0 == app,
        app.after_tray(TrayEvent::Other).1.len() == 0,
{
}

/// Events at the tray icon are taken in one after the other, and what each asks for
/// follows what those before it asked for.
pub proof fn tray_events_come_in_turn(
    app: AppView,
    first: Seq<TrayEvent>,
    later: Seq<TrayEvent>,
)
    ensures
        app.after_tray_events(Seq::<TrayEvent>::empty()).0 == app,
        app.after_tray_events(Seq::<TrayEvent>::empty()).1.len() == 0,
        ({
            let before = app.after_tray_events(first);
            let after = before.0.after_tray_events(later);
            app.after_tray_events(first + later) == (after.0, before.1 + after.1)
        }),
        forall|event: TrayEvent| #[trigger]
            app.after_tray_events(seq![event]).0 == app.after_tray(event).0 && app.after_tray_events(
                seq![event],
            ).1 == app.after_tray(event).1,
    decreases later.len(),
{
    assert forall|event: TrayEvent| #[trigger]
        app.after_tray_events(seq![event]).0 == app.after_tray(event).0 && app.after_tray_events(
            seq![event],
        ).1 == app.after_tray(event).1 by {
        assert(seq![event].drop_last() =~= Seq::<TrayEvent>::empty());
        assert(app.after_tray_events(seq![event].drop_last()) == (app, Seq::<Viewport>::empty()));
        assert(app.after_tray_events(seq![event]).1 =~= app.after_tray(event).1);
    }
    let before = app.after_tray_events(first);
    if later.len() == 0 {
        assert(first + later =~= first);
        assert(before.1 + before.0.after_tray_events(later).1 =~= before.1);
    } else {
        tray_events_come_in_turn(app, first, later.drop_last());
        assert((first + later).drop_last() =~= first + later.drop_last());
        assert((first + later).last() == later.last());
        let after = before.0.after_tray_events(later);
        assert(app.after_tray_events(first + later).1 =~= before.1 + after.1);
    }
}

/// Closing a window that may hide cancels the close and hides it, and wants the
/// controllers no more; one that may not hide ends the program and asks for nothing.
/// The settings and the texts stay either way.
pub proof fn what_closing_asks_for(app: AppView)
    ensures
        app.cfg.close_to_tray && app.tray ==> app.after_close().1 == seq![
            Viewport::CancelClose,
            Viewport::Visible(false),
        ] && !app.after_close().0.ui_wants_device,
        app.after_close().0.cfg == app.cfg,
        app.after_close().0.port == app.port,
        app.after_close().0.note == app.note,
        app.after_close().0.tray == app.tray,
        app.after_close().0.confirm_defaults == app.confirm_defaults,
        !(app.cfg.close_to_tray && app.tray) ==> app.after_close().0.ui_wants_device
            == app.ui_wants_device,
{
    if app.cfg.close_to_tray && app.tray {
        assert(app.after_close().1 =~= seq![Viewport::CancelClose, Viewport::Visible(false)]);
    }
}

/// The restore button first asks, changing nothing else, and then takes over the
/// defaults whole, with the port field to match; either way it stays out of whether the
/// window is seen.
pub proof fn what_the_restore_button_does(app: AppView, defaults: Config)
    ensures
        app.after_restore(defaults).confirm_defaults == !app.confirm_defaults,
        !app.confirm_defaults ==> app.after_restore(defaults) == (AppView {
            confirm_defaults: true,
            ..app
        }),
        app.confirm_defaults ==> app.after_restore(defaults).cfg == defaults && parsed_u16(
            app.after_restore(defaults).port,
        ) == Some(defaults.port),
        app.after_restore(defaults).visible == app.visible,
        app.after_restore(defaults).ui_wants_device == app.ui_wants_device,
        app.after_restore(defaults).shutdown == app.shutdown,
        app.after_restore(defaults).note == app.note,
        app.after_restore(defaults).tray == app.tray,
        restore_text(true) == "Confirm restore"@,
        restore_text(false) == "Restore defaults"@,
{
    decimal_reads_back(defaults.port);
}

/// An axis is named after the raw axis that it takes its reading from.
pub proof fn axes_are_named_after_their_sources(a: Axis, b: Axis)
    ensures
        axis_name(0) == "raw X"@,
        axis_name(1) == "raw Y"@,
        a.source >= 2 ==> axis_name(a.source) == "raw Z"@,
        axis_name(a.source) == axis_name(b.source) <==> a.index() == b.index(),
{
    reveal_strlit("raw X");
    reveal_strlit("raw Y");
    reveal_strlit("raw Z");
    assert("raw X"@[4] != "raw Y"@[4]);
    assert("raw X"@[4] != "raw Z"@[4]);
    assert("raw Y"@[4] != "raw Z"@[4]);
}

/// A remark on saving is the one meant for success, or says that it failed and why.
pub proof fn remarks_on_saving(note: Seq<char>, e: String)
    ensures
        save_note(note, Ok(())) == note,
        save_note(note, Err(e)) == "save failed: "@ + e@,
{
}

/// What the window remarks on the system settings: what came of the start with the
/// system where that was touched, else that the field writes no port where it was left
/// so, else what it remarked before.
pub proof fn remarks_on_the_system_settings(
    note: Seq<char>,
    port: Option<u16>,
    input: SystemInput,
)
    ensures
        match input.autostart {
            Some(autostart) => match autostart.result {
                Ok(_) => {
                    &&& autostart.enabled ==> system_note(note, port, input)
                        == "autostart enabled."@
                    &&& !autostart.enabled ==> system_note(note, port, input)
                        == "autostart disabled."@
                },
                Err(e) => system_note(note, port, input) == "autostart change failed: "@ + e@,
            },
            None => {
                &&& input.port_left && port is None ==> system_note(note, port, input)
                    == "port must be a number from 0 to 65535."@
                &&& !input.port_left || port is Some ==> system_note(note, port, input) == note
            },
        },
{
}

/// A server that has its port is shown as its address, a colon and the port, which
/// reads back; one that has none is still binding.
pub proof fn the_address_reads_back(host: Seq<char>, bound_port: u16)
    ensures
        bound_port == 0 ==> listening_text(host, bound_port) == "binding…"@,
        bound_port != 0 ==> {
            let text = listening_text(host, bound_port);
            &&& host.is_prefix_of(text)
            &&& text[host.len() as int] == ':'
            &&& parsed_u16(text.skip(host.len() as int + 1)) == Some(bound_port)
            &&& text.skip(host.len() as int + 1) == decimal_text(bound_port as nat)
        },
{
    reveal_strlit(":");
    let text = listening_text(host, bound_port);
    if bound_port != 0 {
        decimal_reads_back(bound_port);
        assert(text.skip(host.len() as int + 1) =~= decimal_text(bound_port as nat));
        assert(host.is_prefix_of(text));
    }
}

/// The server's number is shown in eight hexadecimal digits, which read back.
pub proof fn the_server_number_reads_back(server_id: u32)
    ensures
        server_id_text(server_id).len() == 10,
        server_id_text(server_id)[0] == '0',
        server_id_text(server_id)[1] == 'x',
        hex_value(server_id_text(server_id).skip(2)) == server_id,
        forall|i: int| 2 <= i < 10 ==> is_hex_digit(#[trigger] server_id_text(server_id)[i]),
{
    reveal_strlit("0x");
    reveal_with_fuel(hex_range, 9);
    hex_reads_back(server_id as nat, 8);
    assert(server_id_text(server_id).skip(2) =~= hex_text(server_id as nat, 8));
    assert forall|i: int| 2 <= i < 10 implies is_hex_digit(
        #[trigger] server_id_text(server_id)[i],
    ) by {
        assert(is_hex_digit(hex_text(server_id as nat, 8)[i - 2]));
    }
}

/// The status line: both counts, whether the controllers are read, and how the
/// calibration stands, which shows its confidence only while it is on and steady.
pub proof fn the_status_line_in_full(s: ServerStatus, percent: Seq<char>)
    ensures
        ({
            let counts = decimal_text(s.controllers as nat) + " / "@ + decimal_text(
                s.subscribers as nat,
            );
            let line = activity_text(s, percent);
            &&& s.device_active && !s.calibration_active ==> line == counts
                + " (awake, calibration off)"@
            &&& !s.device_active && !s.calibration_active ==> line == counts
                + " (idle, calibration off)"@
            &&& s.device_active && s.calibration_active && s.calibration_steady ==> line == counts
                + " (awake, calibration locked "@ + percent + "%)"@
            &&& !s.device_active && s.calibration_active && s.calibration_steady ==> line == counts
                + " (idle, calibration locked "@ + percent + "%)"@
            &&& s.device_active && s.calibration_active && !s.calibration_steady ==> line == counts
                + " (awake, calibrating…)"@
            &&& !s.device_active && s.calibration_active && !s.calibration_steady ==> line == counts
                + " (idle, calibrating…)"@
        }),
{
    let counts = decimal_text(s.controllers as nat) + " / "@ + decimal_text(s.subscribers as nat);
    let line = activity_text(s, percent);
    reveal_strlit(" (");
    reveal_strlit("awake");
    reveal_strlit("idle");
    reveal_strlit(", ");
    reveal_strlit(")");
    reveal_strlit("%");
    reveal_strlit("%)");
    reveal_strlit("calibration off");
    reveal_strlit("calibration locked ");
    reveal_strlit("calibrating…");
    reveal_strlit(" (awake, calibration off)");
    reveal_strlit(" (idle, calibration off)");
    reveal_strlit(" (awake, calibration locked ");
    reveal_strlit(" (idle, calibration locked ");
    reveal_strlit(" (awake, calibrating…)");
    reveal_strlit(" (idle, calibrating…)");
    if !s.calibration_active {
        if s.device_active {
            assert(line =~= counts + " (awake, calibration off)"@);
        } else {
            assert(line =~= counts + " (idle, calibration off)"@);
        }
    } else if s.calibration_steady {
        if s.device_active {
            assert(line =~= counts + " (awake, calibration locked "@ + percent + "%)"@);
        } else {
            assert(line =~= counts + " (idle, calibration locked "@ + percent + "%)"@);
        }
    } else if s.device_active {
        assert(line =~= counts + " (awake, calibrating…)"@);
    } else {
        assert(line =~= counts + " (idle, calibrating…)"@);
    }
}

/// Whether two windows are the same but for their settings and their remarks.
pub open spec fn same_window(a: AppView, b: AppView) -> bool {
    &&& a.shutdown == b.shutdown
    &&& a.ui_wants_device == b.ui_wants_device
    &&& a.port == b.port
    &&& a.tray == b.tray
    &&& a.visible == b.visible
    &&& a.confirm_defaults == b.confirm_defaults
}

/// Editing and saving settings touches the settings and the remarks alone: editing the
/// mappings leaves the remark, saving and recalibrating leave the settings, and the
/// port that the system settings take over is the one in the field.
pub proof fn editing_and_saving_stay_with_the_settings(
    app: AppView,
    settings: SettingsInput,
    system: SystemInput,
    note: Seq<char>,
    saved: Result<(), String>,
)
    ensures
        same_window(app.after_settings(settings), app),
        app.after_settings(settings).note == app.note,
        app.after_settings(settings).cfg == edited_settings(app.cfg, settings),
        same_window(app.after_system(system), app),
        system.port_left ==> (parsed_u16(app.port) matches Some(number) ==> app.after_system(
            system,
        ).cfg.port == number),
        app.after_system(system).cfg == edited_system(app.cfg, parsed_u16(app.port), system),
        app.after_system(system).note == system_note(app.note, parsed_u16(app.port), system),
        same_window(app.after_save(note, saved), app),
        app.after_save(note, saved).cfg == app.cfg,
        saved is Ok ==> app.after_save(note, saved).note == note,
        saved matches Err(e) ==> app.after_save(note, saved).note == "save failed: "@ + e@,
        same_window(app.after_recalibrate(), app),
        app.after_recalibrate().cfg == app.cfg,
        app.after_recalibrate().note == "recalibrating gyro."@,
{
}

/// Quitting ends the program, asks for the window to be closed and does nothing else.
pub proof fn what_quitting_does(app: AppView)
    ensures
        app.after_quit().0.shutdown,
        app.after_quit().1 == seq![Viewport::Close],
        same_window((AppView { shutdown: app.shutdown, ..app.after_quit().0 }), app),
        app.after_quit().0.cfg == app.cfg,
        app.after_quit().0.note == app.note,
{
}

} // verus!
