//! The settings window: what it holds, what it shows and what each click does.

use crate::config::{Axis, AxisMap, Config};
use crate::text::{
    append_decimal, append_hex, decimal, decimal_text, hex_text, parse_u16, parsed_u16,
};
use vstd::prelude::*;
use vstd::string::*;

pub mod laws;

verus! {

/// What the window asks of the windowing system.
#[derive(Debug, Clone, Copy, PartialEq, Eq, Structural)]
pub enum Viewport {
    Visible(bool),
    Focus,
    CancelClose,
    Close,
}

/// The window and the settings in it.
#[derive(Debug, PartialEq)]
pub struct App {
    /// The program is to end.
    pub shutdown: bool,
    /// The controllers are to be read for the window's sake.
    pub ui_wants_device: bool,
    pub cfg: Config,
    /// What stands in the port field.
    pub port: String,
    pub note: String,
    /// There is an icon in the system tray.
    pub tray: bool,
    pub visible: bool,
    /// The next press of the restore button restores.
    pub confirm_defaults: bool,
}

/// An [`App`] with its texts as characters.
pub ghost struct AppView {
    pub shutdown: bool,
    pub ui_wants_device: bool,
    pub cfg: Config,
    pub port: Seq<char>,
    pub note: Seq<char>,
    pub tray: bool,
    pub visible: bool,
    pub confirm_defaults: bool,
}

impl View for App {
    type V = AppView;

    open spec fn view(&self) -> AppView {
        AppView {
            shutdown: self.shutdown,
            ui_wants_device: self.ui_wants_device,
            cfg: self.cfg,
            port: self.port@,
            note: self.note@,
            tray: self.tray,
            visible: self.visible,
            confirm_defaults: self.confirm_defaults,
        }
    }
}

/// What the user did to one row of an axis mapping.
#[derive(Debug, Clone, Copy, PartialEq, Eq, Structural)]
pub struct RowInput {
    /// The raw axis picked from the list.
    pub picked: Option<u8>,
    pub toggle_invert: bool,
}

/// What the user did to the mapping and sensitivity settings.
#[derive(Debug, Clone, Copy, PartialEq, Eq, Structural)]
pub struct SettingsInput {
    pub gyro_x: RowInput,
    pub gyro_y: RowInput,
    pub gyro_z: RowInput,
    /// The bits of the sensitivity moved to.
    pub sensitivity: Option<u32>,
    pub toggle_auto_calibrate: bool,
    pub copy_from_gyro: bool,
    pub accel_x: RowInput,
    pub accel_y: RowInput,
    pub accel_z: RowInput,
}

/// What came of turning the start with the system on or off.
#[derive(Debug, PartialEq, Eq)]
pub struct Autostart {
    pub enabled: bool,
    pub result: Result<(), String>,
}

/// What the user did to the system settings.
#[derive(Debug, PartialEq, Eq)]
pub struct SystemInput {
    /// The port field was left.
    pub port_left: bool,
    pub toggle_expose: bool,
    pub toggle_start_minimized: bool,
    pub toggle_close_to_tray: bool,
    pub autostart: Option<Autostart>,
}

/// What happened at the tray icon.
#[derive(Debug, Clone, Copy, PartialEq, Eq, Structural)]
pub enum TrayEvent {
    /// The left button was released on the icon.
    IconClicked,
    ShowChosen,
    QuitChosen,
    Other,
}

/// What the server and the readers report for display.
#[derive(Debug, Clone, Copy, PartialEq, Eq, Structural)]
pub struct ServerStatus {
    /// 0 before the server has its port.
    pub bound_port: u16,
    pub server_id: u32,
    pub device_active: bool,
    pub controllers: u64,
    pub subscribers: u64,
    pub calibration_active: bool,
    pub calibration_steady: bool,
}

/// The lines of the status display that hold no measured quantity.
#[derive(Debug, PartialEq, Eq)]
pub struct StatusText {
    pub listening: String,
    pub server_id: String,
    pub activity: String,
}

/// Whether the window is to be seen from the start.
pub open spec fn is_visible_at_start(cfg: Config, start_minimized: bool) -> bool {
    !(cfg.start_minimized || start_minimized)
}

pub fn starts_visible(cfg: &Config, start_minimized: bool) -> (visible: bool)
    ensures
        visible == is_visible_at_start(*cfg, start_minimized),
{
    !(cfg.start_minimized || start_minimized)
}

/// What showing or hiding the window asks for.
pub open spec fn showing(visible: bool) -> Seq<Viewport> {
    if visible {
        seq![Viewport::Visible(true), Viewport::Focus]
    } else {
        seq![Viewport::Visible(false)]
    }
}

/// The name of the raw axis that `source` selects.
pub open spec fn axis_name(source: u8) -> Seq<char> {
    if source == 0 {
        "raw X"@
    } else if source == 1 {
        "raw Y"@
    } else {
        "raw Z"@
    }
}

pub fn axis_label(source: u8) -> (label: &'static str)
    ensures
        label@ == axis_name(source),
{
    match source {
        0 => "raw X",
        1 => "raw Y",
        _ => "raw Z",
    }
}

/// The axis once `input` is applied to its row.
pub open spec fn edited_axis(axis: Axis, input: RowInput) -> Axis {
    Axis {
        source: match input.picked {
            Some(source) => source,
            None => axis.source,
        },
        invert: axis.invert != input.toggle_invert,
    }
}

/// Applies `input` to the row of `axis`, and says whether that changed it.
pub fn axis_row(axis: &mut Axis, input: &RowInput) -> (changed: bool)
    ensures
        *final(axis) == edited_axis(*old(axis), *input),
        changed == (*final(axis) != *old(axis)),
{
    let mut changed = false;
    if let Some(source) = input.picked {
        if source != axis.source {
            axis.source = source;
            changed = true;
        }
    }
    if input.toggle_invert {
        axis.invert = !axis.invert;
        changed = true;
    }
    changed
}

/// The mapping once its three rows are edited.
pub open spec fn edited_map(map: AxisMap, x: RowInput, y: RowInput, z: RowInput) -> AxisMap {
    AxisMap { x: edited_axis(map.x, x), y: edited_axis(map.y, y), z: edited_axis(map.z, z) }
}

fn edit_map(map: &mut AxisMap, x: &RowInput, y: &RowInput, z: &RowInput) -> (changed: bool)
    ensures
        *final(map) == edited_map(*old(map), *x, *y, *z),
        changed == (*final(map) != *old(map)),
{
    let x_changed = axis_row(&mut map.x, x);
    let y_changed = axis_row(&mut map.y, y);
    let z_changed = axis_row(&mut map.z, z);
    x_changed || y_changed || z_changed
}

/// The gyro mapping that `input` leads to.
pub open spec fn edited_gyro(cfg: Config, input: SettingsInput) -> AxisMap {
    edited_map(cfg.gyro, input.gyro_x, input.gyro_y, input.gyro_z)
}

/// The accelerometer mapping as its rows show it: the gyro's where that was just
/// copied.
pub open spec fn shown_accel(cfg: Config, input: SettingsInput) -> AxisMap {
    if input.copy_from_gyro {
        edited_gyro(cfg, input)
    } else {
        cfg.accel
    }
}

/// The accelerometer mapping to show in its rows; what `input` holds of them plays
/// no part.
pub fn accel_rows(cfg: &Config, input: &SettingsInput) -> (map: AxisMap)
    ensures
        map == shown_accel(*cfg, *input),
{
    if input.copy_from_gyro {
        let mut gyro = cfg.gyro;
        edit_map(&mut gyro, &input.gyro_x, &input.gyro_y, &input.gyro_z);
        gyro
    } else {
        cfg.accel
    }
}

/// The settings that `input` leads to.
pub open spec fn edited_settings(cfg: Config, input: SettingsInput) -> Config {
    Config {
        gyro: edited_gyro(cfg, input),
        accel: edited_map(shown_accel(cfg, input), input.accel_x, input.accel_y, input.accel_z),
        gyro_sensitivity: match input.sensitivity {
            Some(bits) => bits,
            None => cfg.gyro_sensitivity,
        },
        auto_calibrate: cfg.auto_calibrate != input.toggle_auto_calibrate,
        ..cfg
    }
}

/// Whether `input` calls for the settings to be saved.
pub open spec fn settings_touched(cfg: Config, input: SettingsInput) -> bool {
    ||| edited_gyro(cfg, input) != cfg.gyro
    ||| input.sensitivity is Some
    ||| input.toggle_auto_calibrate
    ||| input.copy_from_gyro
    ||| edited_settings(cfg, input).accel != shown_accel(cfg, input)
}

fn edit_settings(cfg: &mut Config, input: &SettingsInput) -> (changed: bool)
    ensures
        *final(cfg) == edited_settings(*old(cfg), *input),
        changed == settings_touched(*old(cfg), *input),
{
    let mut accel = accel_rows(cfg, input);
    let mut gyro = cfg.gyro;
    let gyro_changed = edit_map(&mut gyro, &input.gyro_x, &input.gyro_y, &input.gyro_z);
    cfg.gyro = gyro;
    if let Some(bits) = input.sensitivity {
        cfg.gyro_sensitivity = bits;
    }
    if input.toggle_auto_calibrate {
        cfg.auto_calibrate = !cfg.auto_calibrate;
    }
    let accel_changed = edit_map(&mut accel, &input.accel_x, &input.accel_y, &input.accel_z);
    cfg.accel = accel;
    gyro_changed || input.sensitivity.is_some() || input.toggle_auto_calibrate
        || input.copy_from_gyro || accel_changed
}

/// The system settings that `input` leads to while the port field holds the number
/// `port`.
pub open spec fn edited_system(cfg: Config, port: Option<u16>, input: SystemInput) -> Config {
    Config {
        port: match port {
            Some(number) => if input.port_left {
                number
            } else {
                cfg.port
            },
            None => cfg.port,
        },
        expose_to_network: cfg.expose_to_network != input.toggle_expose,
        start_minimized: cfg.start_minimized != input.toggle_start_minimized,
        close_to_tray: cfg.close_to_tray != input.toggle_close_to_tray,
        ..cfg
    }
}

/// Whether `input` calls for the system settings to be saved.
pub open spec fn system_touched(port: Option<u16>, input: SystemInput) -> bool {
    ||| input.port_left && port is Some
    ||| input.toggle_expose
    ||| input.toggle_start_minimized
    ||| input.toggle_close_to_tray
}

fn edit_system(cfg: &mut Config, port: Option<u16>, input: &SystemInput) -> (changed: bool)
    ensures
        *final(cfg) == edited_system(*old(cfg), port, *input),
        changed == system_touched(port, *input),
{
    let mut changed = false;
    if input.port_left {
        if let Some(number) = port {
            cfg.port = number;
            changed = true;
        }
    }
    if input.toggle_expose {
        cfg.expose_to_network = !cfg.expose_to_network;
        changed = true;
    }
    if input.toggle_start_minimized {
        cfg.start_minimized = !cfg.start_minimized;
        changed = true;
    }
    if input.toggle_close_to_tray {
        cfg.close_to_tray = !cfg.close_to_tray;
        changed = true;
    }
    changed
}

/// What the window remarks on turning the start with the system on or off.
pub open spec fn autostart_note(autostart: Autostart) -> Seq<char> {
    match autostart.result {
        Ok(_) => if autostart.enabled {
            "autostart enabled."@
        } else {
            "autostart disabled."@
        },
        Err(e) => "autostart change failed: "@ + e@,
    }
}

fn remark_on_autostart(autostart: &Autostart) -> (note: String)
    ensures
        note@ == autostart_note(*autostart),
{
    match &autostart.result {
        Ok(_) => if autostart.enabled {
            "autostart enabled.".to_owned()
        } else {
            "autostart disabled.".to_owned()
        },
        Err(e) => "autostart change failed: ".to_owned().concat(e.as_str()),
    }
}

/// What the window remarks on `input`, before anything is saved.
pub open spec fn system_note(note: Seq<char>, port: Option<u16>, input: SystemInput) -> Seq<char> {
    match input.autostart {
        Some(autostart) => autostart_note(autostart),
        None => if input.port_left && port is None {
            "port must be a number from 0 to 65535."@
        } else {
            note
        },
    }
}

/// What the window remarks on an attempt to save.
pub open spec fn save_note(note: Seq<char>, saved: Result<(), String>) -> Seq<char> {
    match saved {
        Ok(_) => note,
        Err(e) => "save failed: "@ + e@,
    }
}

/// Where the server listens.
pub open spec fn listening_text(host: Seq<char>, bound_port: u16) -> Seq<char> {
    if bound_port == 0 {
        "binding…"@
    } else {
        host + ":"@ + decimal_text(bound_port as nat)
    }
}

/// The server's number.
pub open spec fn server_id_text(server_id: u32) -> Seq<char> {
    "0x"@ + hex_text(server_id as nat, 8)
}

/// How the gyro calibration stands; `percent` is its confidence.
pub open spec fn calibration_text(s: ServerStatus, percent: Seq<char>) -> Seq<char> {
    if !s.calibration_active {
        "calibration off"@
    } else if s.calibration_steady {
        "calibration locked "@ + percent + "%"@
    } else {
        "calibrating…"@
    }
}

/// How many controllers and subscribers there are and what they are about.
pub open spec fn activity_text(s: ServerStatus, percent: Seq<char>) -> Seq<char> {
    decimal_text(s.controllers as nat) + " / "@ + decimal_text(s.subscribers as nat) + " ("@ + (
    if s.device_active {
        "awake"@
    } else {
        "idle"@
    }) + ", "@ + calibration_text(s, percent) + ")"@
}

/// The text of the restore button.
pub open spec fn restore_text(confirm_defaults: bool) -> Seq<char> {
    if confirm_defaults {
        "Confirm restore"@
    } else {
        "Restore defaults"@
    }
}

impl AppView {
    /// The window at the start.
    pub open spec fn at_start(cfg: Config, start_minimized: bool, tray: bool) -> AppView {
        AppView {
            shutdown: false,
            ui_wants_device: is_visible_at_start(cfg, start_minimized),
            cfg,
            port: decimal_text(cfg.port as nat),
            note: seq![],
            tray,
            visible: is_visible_at_start(cfg, start_minimized),
            confirm_defaults: false,
        }
    }

    /// The window as it is shown or hidden.
    pub open spec fn shown(self, visible: bool) -> AppView {
        AppView { visible, ui_wants_device: visible, ..self }
    }

    /// What came of saving the settings; `note` is the remark on success.
    pub open spec fn after_save(self, note: Seq<char>, saved: Result<(), String>) -> AppView {
        AppView { note: save_note(note, saved), ..self }
    }

    /// What the user's editing of the mapping and sensitivity settings leads to.
    pub open spec fn after_settings(self, input: SettingsInput) -> AppView {
        AppView { cfg: edited_settings(self.cfg, input), ..self }
    }

    /// What the user's editing of the system settings leads to.
    pub open spec fn after_system(self, input: SystemInput) -> AppView {
        AppView {
            cfg: edited_system(self.cfg, parsed_u16(self.port), input),
            note: system_note(self.note, parsed_u16(self.port), input),
            ..self
        }
    }

    /// What quitting leads to.
    pub open spec fn after_quit(self) -> (AppView, Seq<Viewport>) {
        (AppView { shutdown: true, ..self }, seq![Viewport::Close])
    }

    /// What a press of the recalibrate button leads to.
    pub open spec fn after_recalibrate(self) -> AppView {
        AppView { note: "recalibrating gyro."@, ..self }
    }

    /// What an event at the tray icon leads to.
    pub open spec fn after_tray(self, event: TrayEvent) -> (AppView, Seq<Viewport>) {
        match event {
            TrayEvent::IconClicked => (self.shown(!self.visible), showing(!self.visible)),
            TrayEvent::ShowChosen => (self.shown(true), showing(true)),
            TrayEvent::QuitChosen => self.after_quit(),
            TrayEvent::Other => (self, seq![]),
        }
    }

    /// What a row of events at the tray icon leads to.
    pub open spec fn after_tray_events(self, events: Seq<TrayEvent>) -> (AppView, Seq<Viewport>)
        decreases events.len(),
    {
        if events.len() == 0 {
            (self, seq![])
        } else {
            let before = self.after_tray_events(events.drop_last());
            let after = before.0.after_tray(events.last());
            (after.0, before.1 + after.1)
        }
    }

    /// What a request to close the window leads to.
    pub open spec fn after_close(self) -> (AppView, Seq<Viewport>) {
        if self.cfg.close_to_tray && self.tray {
            (self.shown(false), seq![Viewport::CancelClose] + showing(false))
        } else {
            (AppView { shutdown: true, ..self }, seq![])
        }
    }

    /// What a press of the restore button leads to.
    pub open spec fn after_restore(self, defaults: Config) -> AppView {
        if self.confirm_defaults {
            AppView {
                cfg: defaults,
                port: decimal_text(defaults.port as nat),
                confirm_defaults: false,
                ..self
            }
        } else {
            AppView { confirm_defaults: true, ..self }
        }
    }
}

impl App {
    /// The controllers are wanted for the window's sake just while it is seen.
    pub open spec fn wf(&self) -> bool {
        self@.ui_wants_device == self@.visible
    }

    /// The window at the start; `tray` says whether the tray icon could be made.
    pub fn new(cfg: Config, start_minimized: bool, tray: bool) -> (app: App)
        ensures
            app.wf(),
            app@ == AppView::at_start(cfg, start_minimized, tray),
    {
        let visible = starts_visible(&cfg, start_minimized);
        App {
            shutdown: false,
            ui_wants_device: visible,
            cfg,
            port: decimal(cfg.port as u64),
            note: String::new(),
            tray,
            visible,
            confirm_defaults: false,
        }
    }

    /// Shows or hides the window.
    pub fn set_visible(&mut self, visible: bool) -> (commands: Vec<Viewport>)
        ensures
            final(self).wf(),
            final(self)@ == old(self)@.shown(visible),
            commands@ == showing(visible),
    {
        self.visible = visible;
        self.ui_wants_device = visible;
        let mut commands: Vec<Viewport> = Vec::new();
        commands.push(Viewport::Visible(visible));
        if visible {
            commands.push(Viewport::Focus);
        }
        assert(commands@ =~= showing(visible));
        commands
    }

    /// Takes in what came of saving the settings; `note` is the remark on success.
    pub fn save(&mut self, note: &str, saved: Result<(), String>)
        ensures
            final(self)@ == old(self)@.after_save(note@, saved),
    {
        match saved {
            Ok(_) => {
                self.note = note.to_owned();
            },
            Err(e) => {
                self.note = "save failed: ".to_owned().concat(e.as_str());
            },
        }
    }

    /// Takes in what the user did to the mapping and sensitivity settings. Where
    /// they are to be saved, the remark on success is returned.
    pub fn settings(&mut self, input: &SettingsInput) -> (save: Option<&'static str>)
        ensures
            final(self)@ == old(self)@.after_settings(*input),
            save is Some <==> settings_touched(old(self)@.cfg, *input),
            save matches Some(note) ==> note@ == "settings saved."@,
    {
        let changed = edit_settings(&mut self.cfg, input);
        if changed {
            Some("settings saved.")
        } else {
            None
        }
    }

    /// Takes in what the user did to the system settings. Where they are to be
    /// saved, the remark on success is returned.
    pub fn system_settings(&mut self, input: &SystemInput) -> (save: Option<&'static str>)
        ensures
            final(self)@ == old(self)@.after_system(*input),
            save is Some <==> system_touched(parsed_u16(old(self)@.port), *input),
            save matches Some(note) ==> note@ == "system settings saved."@,
    {
        let port = parse_u16(self.port.as_str());
        if input.port_left && port.is_none() {
            self.note = "port must be a number from 0 to 65535.".to_owned();
        }
        let save = edit_system(&mut self.cfg, port, input);
        if let Some(autostart) = &input.autostart {
            self.note = remark_on_autostart(autostart);
        }
        if save {
            Some("system settings saved.")
        } else {
            None
        }
    }

    /// The status display. `host` is the address that the settings bind to, and
    /// `percent` the confidence of the calibration.
    pub fn status(s: &ServerStatus, host: &str, percent: &str) -> (text: StatusText)
        ensures
            text.listening@ == listening_text(host@, s.bound_port),
            text.server_id@ == server_id_text(s.server_id),
            text.activity@ == activity_text(*s, percent@),
    {
        let listening = if s.bound_port == 0 {
            "binding…".to_owned()
        } else {
            let mut out = host.to_owned();
            out.append(":");
            append_decimal(&mut out, s.bound_port as u64);
            out
        };
        let mut server_id = "0x".to_owned();
        append_hex(&mut server_id, s.server_id as u64, 8);
        let mut activity = decimal(s.controllers);
        activity.append(" / ");
        append_decimal(&mut activity, s.subscribers);
        activity.append(" (");
        if s.device_active {
            activity.append("awake");
        } else {
            activity.append("idle");
        }
        activity.append(", ");
        if !s.calibration_active {
            activity.append("calibration off");
        } else if s.calibration_steady {
            activity.append("calibration locked ");
            activity.append(percent);
            activity.append("%");
        } else {
            activity.append("calibrating…");
        }
        activity.append(")");
        assert(activity@ =~= activity_text(*s, percent@));
        StatusText { listening, server_id, activity }
    }

    /// Takes in what happened at the tray icon, first on the icon and then in its
    /// menu.
    pub fn handle_tray(&mut self, events: &Vec<TrayEvent>) -> (commands: Vec<Viewport>)
        ensures
            old(self).wf() ==> final(self).wf(),
            (final(self)@, commands@) == old(self)@.after_tray_events(events@),
    {
        let mut commands: Vec<Viewport> = Vec::new();
        let mut at: usize = 0;
        while at < events.len()
            invariant
                at <= events@.len(),
                old(self).wf() ==> self.wf(),
                (self@, commands@) == old(self)@.after_tray_events(events@.take(at as int)),
            decreases events@.len() - at,
        {
            assert(events@.take(at + 1).drop_last() =~= events@.take(at as int));
            let mut asked = match events[at] {
                TrayEvent::IconClicked => {
                    let visible = !self.visible;
                    self.set_visible(visible)
                },
                TrayEvent::ShowChosen => self.set_visible(true),
                TrayEvent::QuitChosen => self.quit(),
                TrayEvent::Other => Vec::new(),
            };
            commands.append(&mut asked);
            at += 1;
        }
        assert(events@.take(at as int) =~= events@);
        commands
    }

    /// Ends the program.
    pub fn quit(&mut self) -> (commands: Vec<Viewport>)
        ensures
            old(self).wf() ==> final(self).wf(),
            (final(self)@, commands@) == old(self)@.after_quit(),
    {
        self.shutdown = true;
        let mut commands: Vec<Viewport> = Vec::new();
        commands.push(Viewport::Close);
        assert(commands@ =~= old(self)@.after_quit().1);
        commands
    }

    /// Takes in a request to close the window: it hides in the tray where it may,
    /// else the program ends.
    pub fn close_requested(&mut self) -> (commands: Vec<Viewport>)
        ensures
            old(self).wf() ==> final(self).wf(),
            (final(self)@, commands@) == old(self)@.after_close(),
    {
        let mut commands: Vec<Viewport> = Vec::new();
        if self.cfg.close_to_tray && self.tray {
            commands.push(Viewport::CancelClose);
            let mut hiding = self.set_visible(false);
            commands.append(&mut hiding);
        } else {
            self.shutdown = true;
        }
        assert(commands@ =~= old(self)@.after_close().1);
        commands
    }

    /// Remarks that the gyro is calibrated anew.
    pub fn recalibrate_clicked(&mut self)
        ensures
            final(self)@ == old(self)@.after_recalibrate(),
    {
        self.note = "recalibrating gyro.".to_owned();
    }

    pub fn restore_label(&self) -> (label: &'static str)
        ensures
            label@ == restore_text(self@.confirm_defaults),
    {
        if self.confirm_defaults {
            "Confirm restore"
        } else {
            "Restore defaults"
        }
    }

    /// Takes in a press of the restore button: the first asks for another, the
    /// second restores. Where the settings are to be saved, the remark on success
    /// is returned.
    pub fn restore_clicked(&mut self, defaults: &Config) -> (save: Option<&'static str>)
        ensures
            final(self)@ == old(self)@.after_restore(*defaults),
            save is Some <==> old(self)@.confirm_defaults,
            save matches Some(note) ==> note@ == "restored defaults."@,
    {
        let confirmed = self.confirm_defaults;
        self.confirm_defaults = !confirmed;
        if confirmed {
            self.cfg = *defaults;
            self.port = decimal(defaults.port as u64);
            Some("restored defaults.")
        } else {
            None
        }
    }
}

} // verus!
