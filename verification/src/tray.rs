//! What the tray menu does.

use crate::binary64::{number, Binary64, ONE, THOUSANDTH};
use crate::bridge::{Action, Payload, PayloadView};
use crate::settings::{
    copied, first_of, position_of, texts, Fit, Layout, Monitors, MonitorsView, Settings,
    SettingsView, StaticBackground, DEFAULT_ENGINE_VOLUME, DEFAULT_SFX_VOLUME,
};
use crate::text::{
    parse_within, rsplit_once, same, spelled_within, split_last, strip_prefix, stripped,
};
use crate::wallpaper::{
    audio_dispatches, dispatch_views, one_dispatch, push_audio, push_dispatch, Dispatch,
    DispatchView,
};
use vstd::prelude::*;

verus! {

/// What a menu item stands for.
pub enum Command {
    Quit,
    Pause,
    ShuffleNow,
    Reload,
    SettingsFile,
    VariedModules,
    RedAlert,
    BootAnimation,
    Audio,
    PauseCovered,
    PauseFullscreen,
    SystemInfo,
    Autostart,
    AllMonitors,
    PrimaryMonitor,
    Module(String),
    ScreenModule(String, String),
    Monitor(String),
    Layout(Layout),
    Margin(u8),
    Filter(String),
    SfxVolume(String),
    EngineVolume(String),
    RenderScale(String),
    Shuffle(u64),
    Fit(Fit),
    Background(StaticBackground),
    Nothing,
}

/// What a menu item stands for, as a value.
pub enum CommandView {
    Quit,
    Pause,
    ShuffleNow,
    Reload,
    SettingsFile,
    VariedModules,
    RedAlert,
    BootAnimation,
    Audio,
    PauseCovered,
    PauseFullscreen,
    SystemInfo,
    Autostart,
    AllMonitors,
    PrimaryMonitor,
    Module(Seq<char>),
    ScreenModule(Seq<char>, Seq<char>),
    Monitor(Seq<char>),
    Layout(Layout),
    Margin(u8),
    Filter(Seq<char>),
    SfxVolume(Seq<char>),
    EngineVolume(Seq<char>),
    RenderScale(Seq<char>),
    Shuffle(u64),
    Fit(Fit),
    Background(StaticBackground),
    Nothing,
}

impl View for Command {
    type V = CommandView;

    open spec fn view(&self) -> CommandView {
        match self {
            Command::Quit => CommandView::Quit,
            Command::Pause => CommandView::Pause,
            Command::ShuffleNow => CommandView::ShuffleNow,
            Command::Reload => CommandView::Reload,
            Command::SettingsFile => CommandView::SettingsFile,
            Command::VariedModules => CommandView::VariedModules,
            Command::RedAlert => CommandView::RedAlert,
            Command::BootAnimation => CommandView::BootAnimation,
            Command::Audio => CommandView::Audio,
            Command::PauseCovered => CommandView::PauseCovered,
            Command::PauseFullscreen => CommandView::PauseFullscreen,
            Command::SystemInfo => CommandView::SystemInfo,
            Command::Autostart => CommandView::Autostart,
            Command::AllMonitors => CommandView::AllMonitors,
            Command::PrimaryMonitor => CommandView::PrimaryMonitor,
            Command::Module(name) => CommandView::Module(name@),
            Command::ScreenModule(key, name) => CommandView::ScreenModule(key@, name@),
            Command::Monitor(key) => CommandView::Monitor(key@),
            Command::Layout(layout) => CommandView::Layout(*layout),
            Command::Margin(margin) => CommandView::Margin(*margin),
            Command::Filter(name) => CommandView::Filter(name@),
            Command::SfxVolume(text) => CommandView::SfxVolume(text@),
            Command::EngineVolume(text) => CommandView::EngineVolume(text@),
            Command::RenderScale(text) => CommandView::RenderScale(text@),
            Command::Shuffle(minutes) => CommandView::Shuffle(*minutes),
            Command::Fit(fit) => CommandView::Fit(*fit),
            Command::Background(background) => CommandView::Background(*background),
            Command::Nothing => CommandView::Nothing,
        }
    }
}

pub open spec fn layout_named(name: Seq<char>) -> Layout {
    if name == "span"@ {
        Layout::Span
    } else if name == "split"@ {
        Layout::Split
    } else {
        Layout::Separate
    }
}

pub open spec fn fit_named(name: Seq<char>) -> Fit {
    if name == "workarea"@ {
        Fit::WorkArea
    } else {
        Fit::Full
    }
}

pub open spec fn background_named(name: Seq<char>) -> StaticBackground {
    if name == "black"@ {
        StaticBackground::Black
    } else {
        StaticBackground::Leave
    }
}

/// The number a text spells, or 0 where it spells none that fits.
pub open spec fn number_or_zero(text: Seq<char>, limit: nat) -> nat {
    match spelled_within(text, limit) {
        Some(value) => value,
        None => 0,
    }
}

/// What an id with a parameter stands for.
pub open spec fn parametrised_command(id: Seq<char>) -> CommandView {
    if let Some(name) = stripped(id, "module:"@) {
        CommandView::Module(name)
    } else if let Some(rest) = stripped(id, "screen-module:"@) {
        match split_last(rest, ':') {
            Some((key, name)) => CommandView::ScreenModule(key, name),
            None => CommandView::Nothing,
        }
    } else if let Some(key) = stripped(id, "monitor:"@) {
        CommandView::Monitor(key)
    } else if let Some(name) = stripped(id, "layout:"@) {
        CommandView::Layout(layout_named(name))
    } else if let Some(value) = stripped(id, "margin:"@) {
        CommandView::Margin(number_or_zero(value, u8::MAX as nat) as u8)
    } else if let Some(name) = stripped(id, "filter:"@) {
        CommandView::Filter(name)
    } else if let Some(value) = stripped(id, "sfx:"@) {
        CommandView::SfxVolume(value)
    } else if let Some(value) = stripped(id, "engine:"@) {
        CommandView::EngineVolume(value)
    } else if let Some(value) = stripped(id, "render-scale:"@) {
        CommandView::RenderScale(value)
    } else if let Some(value) = stripped(id, "shuffle:"@) {
        CommandView::Shuffle(number_or_zero(value, u64::MAX as nat) as u64)
    } else if let Some(choice) = stripped(id, "fit:"@) {
        CommandView::Fit(fit_named(choice))
    } else if let Some(choice) = stripped(id, "background:"@) {
        CommandView::Background(background_named(choice))
    } else {
        CommandView::Nothing
    }
}

/// What an id stands for.
pub open spec fn command_of(id: Seq<char>) -> CommandView {
    if id == "quit"@ {
        CommandView::Quit
    } else if id == "pause"@ {
        CommandView::Pause
    } else if id == "shuffle-now"@ {
        CommandView::ShuffleNow
    } else if id == "reload"@ {
        CommandView::Reload
    } else if id == "settings-file"@ {
        CommandView::SettingsFile
    } else if id == "varied-modules"@ {
        CommandView::VariedModules
    } else if id == "red-alert"@ {
        CommandView::RedAlert
    } else if id == "boot-animation"@ {
        CommandView::BootAnimation
    } else if id == "audio"@ {
        CommandView::Audio
    } else if id == "pause-covered"@ {
        CommandView::PauseCovered
    } else if id == "pause-fullscreen"@ {
        CommandView::PauseFullscreen
    } else if id == "system-info"@ {
        CommandView::SystemInfo
    } else if id == "autostart"@ {
        CommandView::Autostart
    } else if id == "monitors:all"@ {
        CommandView::AllMonitors
    } else if id == "monitors:primary"@ {
        CommandView::PrimaryMonitor
    } else {
        parametrised_command(id)
    }
}

fn parse_parametrised(id: &str) -> (command: Command)
    ensures
        command@ == parametrised_command(id@),
{
    if let Some(name) = strip_prefix(id, "module:") {
        return Command::Module(name.to_owned());
    }
    if let Some(rest) = strip_prefix(id, "screen-module:") {
        return match rsplit_once(rest, ':') {
            Some((key, name)) => Command::ScreenModule(key.to_owned(), name.to_owned()),
            None => Command::Nothing,
        };
    }
    if let Some(key) = strip_prefix(id, "monitor:") {
        return Command::Monitor(key.to_owned());
    }
    if let Some(name) = strip_prefix(id, "layout:") {
        return Command::Layout(
            if same(name, "span") {
                Layout::Span
            } else if same(name, "split") {
                Layout::Split
            } else {
                Layout::Separate
            },
        );
    }
    if let Some(value) = strip_prefix(id, "margin:") {
        let margin: u8 = match parse_within(value, 255) {
            Some(value) => value as u8,
            None => 0,
        };
        return Command::Margin(margin);
    }
    if let Some(name) = strip_prefix(id, "filter:") {
        return Command::Filter(name.to_owned());
    }
    if let Some(value) = strip_prefix(id, "sfx:") {
        return Command::SfxVolume(value.to_owned());
    }
    if let Some(value) = strip_prefix(id, "engine:") {
        return Command::EngineVolume(value.to_owned());
    }
    if let Some(value) = strip_prefix(id, "render-scale:") {
        return Command::RenderScale(value.to_owned());
    }
    if let Some(value) = strip_prefix(id, "shuffle:") {
        let minutes: u64 = match parse_within(value, u64::MAX) {
            Some(value) => value,
            None => 0,
        };
        return Command::Shuffle(minutes);
    }
    if let Some(choice) = strip_prefix(id, "fit:") {
        return Command::Fit(
            if same(choice, "workarea") {
                Fit::WorkArea
            } else {
                Fit::Full
            },
        );
    }
    if let Some(choice) = strip_prefix(id, "background:") {
        return Command::Background(
            if same(choice, "black") {
                StaticBackground::Black
            } else {
                StaticBackground::Leave
            },
        );
    }
    Command::Nothing
}

/// Reads the id of a menu item.
pub fn parse_command(id: &str) -> (command: Command)
    ensures
        command@ == command_of(id@),
{
    if same(id, "quit") {
        Command::Quit
    } else if same(id, "pause") {
        Command::Pause
    } else if same(id, "shuffle-now") {
        Command::ShuffleNow
    } else if same(id, "reload") {
        Command::Reload
    } else if same(id, "settings-file") {
        Command::SettingsFile
    } else if same(id, "varied-modules") {
        Command::VariedModules
    } else if same(id, "red-alert") {
        Command::RedAlert
    } else if same(id, "boot-animation") {
        Command::BootAnimation
    } else if same(id, "audio") {
        Command::Audio
    } else if same(id, "pause-covered") {
        Command::PauseCovered
    } else if same(id, "pause-fullscreen") {
        Command::PauseFullscreen
    } else if same(id, "system-info") {
        Command::SystemInfo
    } else if same(id, "autostart") {
        Command::Autostart
    } else if same(id, "monitors:all") {
        Command::AllMonitors
    } else if same(id, "monitors:primary") {
        Command::PrimaryMonitor
    } else {
        parse_parametrised(id)
    }
}

/// The text of the number in a command, where it has one with a fraction.
pub open spec fn number_text(command: CommandView) -> Option<Seq<char>> {
    match command {
        CommandView::SfxVolume(value) => Some(value),
        CommandView::EngineVolume(value) => Some(value),
        CommandView::RenderScale(value) => Some(value),
        _ => None,
    }
}

/// The text in a command that has to be read as a number with a fraction.
pub fn number_wanted(command: &Command) -> (text: Option<&str>)
    ensures
        match command@ {
            CommandView::SfxVolume(value) => text is Some && text->0@ == value,
            CommandView::EngineVolume(value) => text is Some && text->0@ == value,
            CommandView::RenderScale(value) => text is Some && text->0@ == value,
            _ => text is None,
        },
        text is Some <==> number_text(command@) is Some,
        text matches Some(text) ==> number_text(command@) == Some(text@),
{
    match command {
        Command::SfxVolume(value) => Some(value.as_str()),
        Command::EngineVolume(value) => Some(value.as_str()),
        Command::RenderScale(value) => Some(value.as_str()),
        _ => None,
    }
}

/// Whether a command depends on what the settings file holds.
pub open spec fn takes_the_file(command: CommandView) -> bool {
    command is Reload
}

/// Whether a command wants the settings file to be read again: reloading takes up
/// what was edited there.
pub fn file_wanted(command: &Command) -> (wanted: bool)
    ensures
        wanted == (command@ is Reload),
        wanted == takes_the_file(command@),
{
    match command {
        Command::Reload => true,
        _ => false,
    }
}

/// What chance and the system contribute to a command.
pub struct Inputs {
    /// The number that the command's text spells, where it spells one.
    pub number: Option<Binary64>,
    /// A module rolled for all screens.
    pub shared: String,
    /// A module rolled for the screen the command is about.
    pub fresh: String,
    /// The keys of the monitors there are.
    pub monitors: Vec<String>,
    /// What the settings file holds, where it was read.
    pub file: Option<Settings>,
}

/// What chance and the system contribute to a command, as values.
pub struct InputsView {
    pub number: Option<Binary64>,
    pub shared: Seq<char>,
    pub fresh: Seq<char>,
    pub monitors: Seq<Seq<char>>,
    pub file: Option<SettingsView>,
}

impl View for Inputs {
    type V = InputsView;

    open spec fn view(&self) -> InputsView {
        InputsView {
            number: self.number,
            shared: self.shared@,
            fresh: self.fresh@,
            monitors: texts(self.monitors@),
            file: match self.file {
                Some(file) => Some(file@),
                None => None,
            },
        }
    }
}

impl Inputs {
    /// The settings that were read are in order.
    pub open spec fn wf(&self) -> bool {
        self.file matches Some(file) ==> file.module_by_monitor.wf()
    }
}

pub open spec fn number_or(value: Option<Binary64>, fallback: u64) -> Binary64 {
    match value {
        Some(value) => value,
        None => number(fallback),
    }
}

/// The names with one of them taken out where it is among them, and put last
/// otherwise.
pub open spec fn toggled(names: Seq<Seq<char>>, key: Seq<char>) -> Seq<Seq<char>> {
    match first_of(names, key) {
        Some(at) => names.remove(at),
        None => names.push(key),
    }
}

/// The monitors that are covered now, by name.
pub open spec fn listed(monitors: MonitorsView, all: Seq<Seq<char>>) -> Seq<Seq<char>> {
    match monitors {
        MonitorsView::Only(names) => names,
        MonitorsView::Primary => Seq::empty(),
        MonitorsView::All => all,
    }
}

/// The monitors that are covered once one of them is switched on or off. None where
/// that would leave no monitor at all.
pub open spec fn monitor_toggled(
    monitors: MonitorsView,
    all: Seq<Seq<char>>,
    key: Seq<char>,
) -> Option<MonitorsView> {
    let names = toggled(listed(monitors, all), key);
    if names.len() == 0 {
        None
    } else if names.len() == all.len() {
        Some(MonitorsView::All)
    } else {
        Some(MonitorsView::Only(names))
    }
}

/// Switches one monitor on or off. None where that would leave no monitor at all.
pub fn toggle_monitor(
    monitors: &Monitors,
    all: &Vec<String>,
    key: &str,
) -> (changed: Option<Monitors>)
    ensures
        changed is Some <==> monitor_toggled(monitors@, texts(all@), key@) is Some,
        changed matches Some(changed) ==> monitor_toggled(monitors@, texts(all@), key@) == Some(
            changed@,
        ),
{
    let mut selected: Vec<String> = match monitors {
        Monitors::Only(names) => copied(names),
        Monitors::Primary => Vec::new(),
        Monitors::All => copied(all),
    };
    assert(texts(selected@) == listed(monitors@, texts(all@)));
    let ghost before = selected@;
    match position_of(&selected, key) {
        Some(at) => {
            let _ = selected.remove(at);
            assert(texts(selected@) == texts(before).remove(at as int));
        },
        None => {
            let name = key.to_owned();
            selected.push(name);
            assert(texts(selected@) == texts(before).push(name@));
        },
    }
    assert(texts(selected@) == toggled(listed(monitors@, texts(all@)), key@));
    if selected.len() == 0 {
        return None;
    }
    if selected.len() == all.len() {
        Some(Monitors::All)
    } else {
        Some(Monitors::Only(selected))
    }
}

/// Something to be done outside.
pub enum Effect {
    Quit,
    SetPaused(bool),
    /// Pick new modules and tell the pages.
    Shuffle,
    /// Close the windows and open them again.
    Rebuild,
    OpenSettingsFolder,
    /// Write the settings to their file.
    Save,
    ToggleAutostart,
    ApplyBackground,
    Dispatch(Dispatch),
    /// Build the menu again.
    RefreshMenu,
}

/// Something to be done outside, as a value.
pub enum EffectView {
    Quit,
    SetPaused(bool),
    Shuffle,
    Rebuild,
    OpenSettingsFolder,
    Save,
    ToggleAutostart,
    ApplyBackground,
    Dispatch(DispatchView),
    RefreshMenu,
}

impl View for Effect {
    type V = EffectView;

    open spec fn view(&self) -> EffectView {
        match self {
            Effect::Quit => EffectView::Quit,
            Effect::SetPaused(paused) => EffectView::SetPaused(*paused),
            Effect::Shuffle => EffectView::Shuffle,
            Effect::Rebuild => EffectView::Rebuild,
            Effect::OpenSettingsFolder => EffectView::OpenSettingsFolder,
            Effect::Save => EffectView::Save,
            Effect::ToggleAutostart => EffectView::ToggleAutostart,
            Effect::ApplyBackground => EffectView::ApplyBackground,
            Effect::Dispatch(dispatch) => EffectView::Dispatch(dispatch@),
            Effect::RefreshMenu => EffectView::RefreshMenu,
        }
    }
}

pub open spec fn effect_views(list: Seq<Effect>) -> Seq<EffectView> {
    list.map_values(|e: Effect| e@)
}

/// Some dispatches, as effects.
pub open spec fn sent(list: Seq<DispatchView>) -> Seq<EffectView> {
    list.map_values(|d: DispatchView| EffectView::Dispatch(d))
}

/// The settings after they were read from their file again; the ones there were
/// where it could not be read.
pub open spec fn reloaded(settings: SettingsView, inputs: InputsView) -> SettingsView {
    match inputs.file {
        Some(file) => file,
        None => settings,
    }
}

/// What reloading has to do outside. The windows are opened again with the settings
/// that were read; the static wallpaper is only touched where the file asks for
/// another one.
pub open spec fn reload_effects(settings: SettingsView, inputs: InputsView) -> Seq<EffectView> {
    if reloaded(settings, inputs).static_background == settings.static_background {
        seq![EffectView::Rebuild]
    } else {
        seq![EffectView::ApplyBackground, EffectView::Rebuild]
    }
}

/// The settings after a command.
pub open spec fn settings_after(
    settings: SettingsView,
    command: CommandView,
    inputs: InputsView,
) -> SettingsView {
    match command {
        CommandView::Reload => reloaded(settings, inputs),
        CommandView::VariedModules => SettingsView {
            varied_modules: !settings.varied_modules,
            ..settings
        },
        CommandView::RedAlert => SettingsView { red_alert: !settings.red_alert, ..settings },
        CommandView::BootAnimation => SettingsView {
            boot_animation: !settings.boot_animation,
            ..settings
        },
        CommandView::Audio => SettingsView { audio: !settings.audio, ..settings },
        CommandView::PauseCovered => SettingsView {
            pause_when_covered: !settings.pause_when_covered,
            ..settings
        },
        CommandView::PauseFullscreen => SettingsView {
            pause_on_fullscreen: !settings.pause_on_fullscreen,
            ..settings
        },
        CommandView::SystemInfo => SettingsView { system_info: !settings.system_info, ..settings },
        CommandView::AllMonitors => SettingsView { monitors: MonitorsView::All, ..settings },
        CommandView::PrimaryMonitor => SettingsView { monitors: MonitorsView::Primary, ..settings },
        CommandView::Module(name) => SettingsView { module: name, ..settings },
        CommandView::ScreenModule(key, name) => SettingsView {
            module_by_monitor: if name == "inherit"@ {
                settings.module_by_monitor.remove(key)
            } else {
                settings.module_by_monitor.insert(key, name)
            },
            ..settings
        },
        CommandView::Monitor(key) => match monitor_toggled(
            settings.monitors,
            inputs.monitors,
            key,
        ) {
            Some(monitors) => SettingsView { monitors, ..settings },
            None => settings,
        },
        CommandView::Layout(layout) => SettingsView { layout, ..settings },
        CommandView::Margin(margin) => SettingsView { margin, ..settings },
        CommandView::Filter(name) => SettingsView { filter: name, ..settings },
        CommandView::SfxVolume(_) => SettingsView {
            sfx_volume: number_or(inputs.number, DEFAULT_SFX_VOLUME),
            ..settings
        },
        CommandView::EngineVolume(_) => SettingsView {
            engine_volume: number_or(inputs.number, DEFAULT_ENGINE_VOLUME),
            ..settings
        },
        CommandView::RenderScale(_) => if scale_unchanged(settings, inputs) {
            settings
        } else {
            SettingsView { render_scale: number_or(inputs.number, ONE), ..settings }
        },
        CommandView::Shuffle(minutes) => SettingsView { shuffle_minutes: minutes, ..settings },
        CommandView::Fit(fit) => SettingsView { fit, ..settings },
        CommandView::Background(background) => SettingsView {
            static_background: background,
            ..settings
        },
        _ => settings,
    }
}

/// Whether the render quality asked for is the one in use.
pub open spec fn scale_unchanged(settings: SettingsView, inputs: InputsView) -> bool {
    number_or(inputs.number, ONE).near(settings.scale_held(), number(THOUSANDTH))
}

pub open spec fn save_and_rebuild() -> Seq<EffectView> {
    seq![EffectView::Save, EffectView::Rebuild]
}

pub open spec fn save_and_send(list: Seq<DispatchView>) -> Seq<EffectView> {
    seq![EffectView::Save] + sent(list)
}

/// What turns a filter on: the old one is cleared first.
pub open spec fn filter_dispatches(name: Seq<char>) -> Seq<DispatchView> {
    let clear = one_dispatch(None, Action::ToggleFilterEffects, PayloadView::Null);
    if name == "none"@ {
        clear
    } else {
        clear + one_dispatch(None, Action::ToggleFilterEffects, PayloadView::Text(name))
    }
}

/// What a command with a parameter has to do outside, in order.
pub open spec fn parametrised_effects(
    settings: SettingsView,
    command: CommandView,
    inputs: InputsView,
) -> Seq<EffectView> {
    match command {
        CommandView::Module(_) => seq![EffectView::Save, EffectView::Shuffle],
        CommandView::ScreenModule(key, _) => save_and_send(
            one_dispatch(
                Some(key),
                Action::SetActiveModule,
                PayloadView::Text(
                    settings_after(settings, command, inputs).module_on(
                        key,
                        inputs.shared,
                        inputs.fresh,
                    ),
                ),
            ),
        ),
        CommandView::Monitor(key) => if monitor_toggled(
            settings.monitors,
            inputs.monitors,
            key,
        ) is Some {
            save_and_rebuild()
        } else {
            Seq::empty()
        },
        CommandView::Layout(_) => save_and_rebuild(),
        CommandView::Margin(margin) => save_and_send(
            one_dispatch(None, Action::SetMargin, PayloadView::Whole(margin as u64)),
        ),
        CommandView::Filter(name) => save_and_send(filter_dispatches(name)),
        CommandView::SfxVolume(_) => save_and_send(
            one_dispatch(
                None,
                Action::SetSfxVolume,
                PayloadView::Number(number_or(inputs.number, DEFAULT_SFX_VOLUME)),
            ),
        ),
        CommandView::EngineVolume(_) => save_and_send(
            one_dispatch(
                None,
                Action::SetSbgVolume,
                PayloadView::Number(number_or(inputs.number, DEFAULT_ENGINE_VOLUME)),
            ),
        ),
        CommandView::RenderScale(_) => if scale_unchanged(settings, inputs) {
            Seq::empty()
        } else {
            save_and_rebuild()
        },
        CommandView::Shuffle(_) => seq![EffectView::Save],
        CommandView::Fit(fit) => if fit == settings.fit {
            Seq::empty()
        } else {
            save_and_rebuild()
        },
        CommandView::Background(background) => if background == settings.static_background {
            Seq::empty()
        } else {
            seq![EffectView::Save, EffectView::ApplyBackground, EffectView::Rebuild]
        },
        _ => Seq::empty(),
    }
}

/// What a command has to do outside, in order, before the menu is built again.
pub open spec fn command_effects(
    settings: SettingsView,
    paused: bool,
    command: CommandView,
    inputs: InputsView,
) -> Seq<EffectView> {
    match command {
        CommandView::Quit => seq![EffectView::Quit],
        CommandView::Pause => seq![EffectView::SetPaused(!paused)],
        CommandView::ShuffleNow => seq![EffectView::Shuffle],
        CommandView::Reload => reload_effects(settings, inputs),
        CommandView::SettingsFile => seq![EffectView::OpenSettingsFolder],
        CommandView::VariedModules => seq![EffectView::Save],
        CommandView::RedAlert => save_and_send(
            one_dispatch(None, Action::SetRedAlert, PayloadView::RedAlert(!settings.red_alert)),
        ),
        CommandView::BootAnimation => seq![EffectView::Save],
        CommandView::Audio => save_and_send(audio_dispatches(settings, None, !settings.audio)),
        CommandView::PauseCovered => seq![EffectView::Save, EffectView::SetPaused(false)],
        CommandView::PauseFullscreen => if settings.pause_on_fullscreen {
            seq![EffectView::Save, EffectView::SetPaused(false)]
        } else {
            seq![EffectView::Save]
        },
        CommandView::SystemInfo => seq![EffectView::Save],
        CommandView::Autostart => seq![EffectView::ToggleAutostart],
        CommandView::AllMonitors => save_and_rebuild(),
        CommandView::PrimaryMonitor => save_and_rebuild(),
        _ => parametrised_effects(settings, command, inputs),
    }
}

/// Everything a click has to do outside, in order. Whatever it was, the menu is
/// built again afterwards, unless the click ended everything.
pub open spec fn event_effects(
    settings: SettingsView,
    paused: bool,
    command: CommandView,
    inputs: InputsView,
) -> Seq<EffectView> {
    let effects = command_effects(settings, paused, command, inputs);
    if command == CommandView::Quit {
        effects
    } else {
        effects.push(EffectView::RefreshMenu)
    }
}

/// Adds some dispatches. They are turned over twice on the way, since a vector
/// gives up its last element most easily.
fn push_sent(effects: &mut Vec<Effect>, list: Vec<Dispatch>)
    ensures
        effect_views(final(effects)@) == effect_views(old(effects)@) + sent(
            dispatch_views(list@),
        ),
{
    let ghost before = effect_views(effects@);
    let ghost all = sent(dispatch_views(list@));
    let mut rest = list;
    let mut turned: Vec<Dispatch> = Vec::new();
    let ghost whole = rest@;
    while rest.len() > 0
        invariant
            rest@.len() + turned@.len() == whole.len(),
            rest@ == whole.take(rest@.len() as int),
            forall|j: int| 0 <= j < turned@.len() ==> turned@[j] == whole[whole.len() - 1 - j],
        decreases rest@.len(),
    {
        if let Some(last) = rest.pop() {
            turned.push(last);
        }
    }
    assert(before + all.take(0) == before);
    while turned.len() > 0
        invariant
            turned@.len() <= whole.len(),
            all == sent(dispatch_views(whole)),
            forall|j: int| 0 <= j < turned@.len() ==> turned@[j] == whole[whole.len() - 1 - j],
            effect_views(effects@) == before + all.take(whole.len() - turned@.len()),
        decreases turned@.len(),
    {
        let ghost done = whole.len() - turned@.len();
        let ghost so_far = effect_views(effects@);
        if let Some(next) = turned.pop() {
            assert(next == whole[done]);
            let ghost value = EffectView::Dispatch(next@);
            effects.push(Effect::Dispatch(next));
            assert(effect_views(effects@) == so_far.push(value));
            assert(all[done] == value);
            assert(all.take(done + 1) == all.take(done).push(value));
            assert(before + all.take(done + 1) == (before + all.take(done)).push(value));
        }
    }
    assert(all.take(whole.len() as int) == all);
}

fn push_effect(effects: &mut Vec<Effect>, effect: Effect)
    ensures
        effect_views(final(effects)@) == effect_views(old(effects)@).push(effect@),
{
    effects.push(effect);
    assert(effect_views(effects@) == effect_views(old(effects)@).push(effect@));
}

fn saved() -> (effects: Vec<Effect>)
    ensures
        effect_views(effects@) == seq![EffectView::Save],
{
    let mut effects: Vec<Effect> = Vec::new();
    push_effect(&mut effects, Effect::Save);
    assert(effect_views(effects@) == seq![EffectView::Save]);
    effects
}

fn saved_and_rebuilt() -> (effects: Vec<Effect>)
    ensures
        effect_views(effects@) == save_and_rebuild(),
{
    let mut effects = saved();
    push_effect(&mut effects, Effect::Rebuild);
    assert(effect_views(effects@) == save_and_rebuild());
    effects
}

fn saved_and_sent(list: Vec<Dispatch>) -> (effects: Vec<Effect>)
    ensures
        effect_views(effects@) == save_and_send(dispatch_views(list@)),
{
    let mut effects = saved();
    push_sent(&mut effects, list);
    effects
}

fn only(effect: Effect) -> (effects: Vec<Effect>)
    ensures
        effect_views(effects@) == seq![effect@],
{
    let mut effects: Vec<Effect> = Vec::new();
    push_effect(&mut effects, effect);
    assert(effect_views(effects@) == seq![effect@]);
    effects
}

fn nothing() -> (effects: Vec<Effect>)
    ensures
        effect_views(effects@) == Seq::<EffectView>::empty(),
{
    let effects: Vec<Effect> = Vec::new();
    assert(effect_views(effects@) == Seq::<EffectView>::empty());
    effects
}

fn one(key: Option<&str>, action: Action, payload: Payload) -> (list: Vec<Dispatch>)
    ensures
        dispatch_views(list@) == one_dispatch(
            match key {
                Some(key) => Some(key@),
                None => None,
            },
            action,
            payload@,
        ),
{
    let mut list: Vec<Dispatch> = Vec::new();
    push_dispatch(&mut list, key, action, payload);
    assert(dispatch_views(list@) == one_dispatch(
        match key {
            Some(key) => Some(key@),
            None => None,
        },
        action,
        payload@,
    ));
    list
}

/// Whether a command has a parameter.
pub open spec fn is_parametrised(command: CommandView) -> bool {
    match command {
        CommandView::Module(_) => true,
        CommandView::ScreenModule(_, _) => true,
        CommandView::Monitor(_) => true,
        CommandView::Layout(_) => true,
        CommandView::Margin(_) => true,
        CommandView::Filter(_) => true,
        CommandView::SfxVolume(_) => true,
        CommandView::EngineVolume(_) => true,
        CommandView::RenderScale(_) => true,
        CommandView::Shuffle(_) => true,
        CommandView::Fit(_) => true,
        CommandView::Background(_) => true,
        CommandView::Nothing => true,
        _ => false,
    }
}

/// Whether a command with a parameter had its effect.
#[verifier::opaque]
spec fn handled(
    before: SettingsView,
    after: SettingsView,
    effects: Seq<EffectView>,
    command: CommandView,
    inputs: InputsView,
) -> bool {
    &&& after == settings_after(before, command, inputs)
    &&& effects == parametrised_effects(before, command, inputs)
}

/// Chooses the module for every screen. The screens are rolled again under the
/// current layout rules: one module for a shared scene, picks of their own
/// otherwise.
fn set_module(settings: &mut Settings, name: &String, inputs: &Inputs) -> (effects: Vec<Effect>)
    ensures
        handled(
            old(settings)@,
            final(settings)@,
            effect_views(effects@),
            CommandView::Module(name@),
            inputs@,
        ),
        final(settings).module_by_monitor == old(settings).module_by_monitor,
{
    reveal(handled);
    settings.module = name.clone();
    let mut effects = saved();
    push_effect(&mut effects, Effect::Shuffle);
    assert(effect_views(effects@) == seq![EffectView::Save, EffectView::Shuffle]);
    effects
}

/// Chooses the module of one screen and tells its page. The choice to follow the
/// global setting takes the override away.
fn set_screen_module(
    settings: &mut Settings,
    key: &str,
    name: &str,
    inputs: &Inputs,
) -> (effects: Vec<Effect>)
    ensures
        handled(
            old(settings)@,
            final(settings)@,
            effect_views(effects@),
            CommandView::ScreenModule(key@, name@),
            inputs@,
        ),
        old(settings).module_by_monitor.wf() ==> final(settings).module_by_monitor.wf(),
{
    reveal(handled);
    if same(name, "inherit") {
        settings.module_by_monitor.remove(key);
    } else {
        settings.module_by_monitor.insert(key, name);
    }
    let module = settings.module_for(key, inputs.shared.as_str(), inputs.fresh.as_str());
    saved_and_sent(one(Some(key), Action::SetActiveModule, Payload::Text(module)))
}

/// Switches one monitor on or off.
fn set_monitor(settings: &mut Settings, key: &str, inputs: &Inputs) -> (effects: Vec<Effect>)
    ensures
        handled(
            old(settings)@,
            final(settings)@,
            effect_views(effects@),
            CommandView::Monitor(key@),
            inputs@,
        ),
        final(settings).module_by_monitor == old(settings).module_by_monitor,
{
    reveal(handled);
    match toggle_monitor(&settings.monitors, &inputs.monitors, key) {
        Some(monitors) => {
            settings.monitors = monitors;
            saved_and_rebuilt()
        },
        None => nothing(),
    }
}

/// Chooses how the scene is spread over the monitors.
fn set_layout(settings: &mut Settings, layout: Layout, inputs: &Inputs) -> (effects: Vec<Effect>)
    ensures
        handled(
            old(settings)@,
            final(settings)@,
            effect_views(effects@),
            CommandView::Layout(layout),
            inputs@,
        ),
        final(settings).module_by_monitor == old(settings).module_by_monitor,
{
    reveal(handled);
    settings.layout = layout;
    saved_and_rebuilt()
}

/// Chooses the margin and tells the pages.
fn set_margin(settings: &mut Settings, margin: u8, inputs: &Inputs) -> (effects: Vec<Effect>)
    ensures
        handled(
            old(settings)@,
            final(settings)@,
            effect_views(effects@),
            CommandView::Margin(margin),
            inputs@,
        ),
        final(settings).module_by_monitor == old(settings).module_by_monitor,
{
    reveal(handled);
    settings.margin = margin;
    saved_and_sent(one(None, Action::SetMargin, Payload::Whole(margin as u64)))
}

/// Chooses a filter. The renderer treats filters as toggles, so the old one is
/// cleared before the new one is set.
fn set_filter(settings: &mut Settings, name: &str, inputs: &Inputs) -> (effects: Vec<Effect>)
    ensures
        handled(
            old(settings)@,
            final(settings)@,
            effect_views(effects@),
            CommandView::Filter(name@),
            inputs@,
        ),
        final(settings).module_by_monitor == old(settings).module_by_monitor,
{
    reveal(handled);
    settings.filter = name.to_owned();
    let mut list = one(None, Action::ToggleFilterEffects, Payload::Null);
    if !same(name, "none") {
        push_dispatch(
            &mut list,
            None,
            Action::ToggleFilterEffects,
            Payload::Text(name.to_owned()),
        );
    }
    assert(dispatch_views(list@) == filter_dispatches(name@));
    saved_and_sent(list)
}

/// Sets the level of the sound effects and tells the pages.
fn set_sfx_volume(settings: &mut Settings, value: &str, inputs: &Inputs) -> (effects: Vec<Effect>)
    ensures
        handled(
            old(settings)@,
            final(settings)@,
            effect_views(effects@),
            CommandView::SfxVolume(value@),
            inputs@,
        ),
        final(settings).module_by_monitor == old(settings).module_by_monitor,
{
    reveal(handled);
    let volume = match inputs.number {
        Some(volume) => volume,
        None => Binary64 { bits: DEFAULT_SFX_VOLUME },
    };
    settings.sfx_volume = volume;
    saved_and_sent(one(None, Action::SetSfxVolume, Payload::Number(volume)))
}

/// Sets the level of the engine hum and tells the pages.
fn set_engine_volume(
    settings: &mut Settings,
    value: &str,
    inputs: &Inputs,
) -> (effects: Vec<Effect>)
    ensures
        handled(
            old(settings)@,
            final(settings)@,
            effect_views(effects@),
            CommandView::EngineVolume(value@),
            inputs@,
        ),
        final(settings).module_by_monitor == old(settings).module_by_monitor,
{
    reveal(handled);
    let volume = match inputs.number {
        Some(volume) => volume,
        None => Binary64 { bits: DEFAULT_ENGINE_VOLUME },
    };
    settings.engine_volume = volume;
    saved_and_sent(one(None, Action::SetSbgVolume, Payload::Number(volume)))
}

/// Chooses the render quality. The split layout maps physical pixels to those of
/// the page through it, and the page has to be laid out again either way.
fn set_render_scale(settings: &mut Settings, value: &str, inputs: &Inputs) -> (effects: Vec<Effect>)
    ensures
        handled(
            old(settings)@,
            final(settings)@,
            effect_views(effects@),
            CommandView::RenderScale(value@),
            inputs@,
        ),
        final(settings).module_by_monitor == old(settings).module_by_monitor,
{
    reveal(handled);
    let scale = match inputs.number {
        Some(scale) => scale,
        None => Binary64 { bits: ONE },
    };
    if scale.near_to(settings.render_scale(), Binary64 { bits: THOUSANDTH }) {
        return nothing();
    }
    settings.render_scale = scale;
    saved_and_rebuilt()
}

/// Chooses how often the modules are shuffled.
fn set_shuffle(settings: &mut Settings, minutes: u64, inputs: &Inputs) -> (effects: Vec<Effect>)
    ensures
        handled(
            old(settings)@,
            final(settings)@,
            effect_views(effects@),
            CommandView::Shuffle(minutes),
            inputs@,
        ),
        final(settings).module_by_monitor == old(settings).module_by_monitor,
{
    reveal(handled);
    settings.shuffle_minutes = minutes;
    saved()
}

/// Chooses how much of a monitor the wallpaper covers.
fn set_fit(settings: &mut Settings, fit: Fit, inputs: &Inputs) -> (effects: Vec<Effect>)
    ensures
        handled(
            old(settings)@,
            final(settings)@,
            effect_views(effects@),
            CommandView::Fit(fit),
            inputs@,
        ),
        final(settings).module_by_monitor == old(settings).module_by_monitor,
{
    reveal(handled);
    if fit == settings.fit {
        return nothing();
    }
    settings.fit = fit;
    saved_and_rebuilt()
}

/// Chooses what becomes of the static wallpaper. Explorer rebuilds its desktop
/// windows around a wallpaper change.
fn set_background(
    settings: &mut Settings,
    background: StaticBackground,
    inputs: &Inputs,
) -> (effects: Vec<Effect>)
    ensures
        handled(
            old(settings)@,
            final(settings)@,
            effect_views(effects@),
            CommandView::Background(background),
            inputs@,
        ),
        final(settings).module_by_monitor == old(settings).module_by_monitor,
{
    reveal(handled);
    if background == settings.static_background {
        return nothing();
    }
    settings.static_background = background;
    let mut effects = saved();
    push_effect(&mut effects, Effect::ApplyBackground);
    push_effect(&mut effects, Effect::Rebuild);
    assert(effect_views(effects@) == seq![
        EffectView::Save,
        EffectView::ApplyBackground,
        EffectView::Rebuild,
    ]);
    effects
}

/// Carries out a command with a parameter.
fn handle_parametrised_event(
    settings: &mut Settings,
    command: &Command,
    inputs: &Inputs,
) -> (effects: Vec<Effect>)
    requires
        is_parametrised(command@),
    ensures
        handled(old(settings)@, final(settings)@, effect_views(effects@), command@, inputs@),
        old(settings).module_by_monitor.wf() ==> final(settings).module_by_monitor.wf(),
{
    match command {
        Command::Module(name) => set_module(settings, name, inputs),
        Command::ScreenModule(key, name) => set_screen_module(
            settings,
            key.as_str(),
            name.as_str(),
            inputs,
        ),
        Command::Monitor(key) => set_monitor(settings, key.as_str(), inputs),
        Command::Layout(layout) => set_layout(settings, *layout, inputs),
        Command::Margin(margin) => set_margin(settings, *margin, inputs),
        Command::Filter(name) => set_filter(settings, name.as_str(), inputs),
        Command::SfxVolume(value) => set_sfx_volume(settings, value.as_str(), inputs),
        Command::EngineVolume(value) => set_engine_volume(settings, value.as_str(), inputs),
        Command::RenderScale(value) => set_render_scale(settings, value.as_str(), inputs),
        Command::Shuffle(minutes) => set_shuffle(settings, *minutes, inputs),
        Command::Fit(fit) => set_fit(settings, *fit, inputs),
        Command::Background(background) => set_background(settings, *background, inputs),
        _ => {
            reveal(handled);
            nothing()
        },
    }
}

/// Turns the audio of every page on or off.
fn apply_audio(settings: &Settings, enabled: bool) -> (effects: Vec<Effect>)
    ensures
        effect_views(effects@) == save_and_send(audio_dispatches(settings@, None, enabled)),
{
    let mut list: Vec<Dispatch> = Vec::new();
    push_audio(&mut list, settings, None, enabled);
    assert(dispatch_views(list@) == audio_dispatches(settings@, None, enabled));
    saved_and_sent(list)
}

fn saved_and_resumed() -> (effects: Vec<Effect>)
    ensures
        effect_views(effects@) == seq![EffectView::Save, EffectView::SetPaused(false)],
{
    let mut effects = saved();
    push_effect(&mut effects, Effect::SetPaused(false));
    assert(effect_views(effects@) == seq![EffectView::Save, EffectView::SetPaused(false)]);
    effects
}

/// Whether a command had its effect.
#[verifier::opaque]
spec fn carried_out(
    before: SettingsView,
    after: SettingsView,
    effects: Seq<EffectView>,
    paused: bool,
    command: CommandView,
    inputs: InputsView,
) -> bool {
    &&& after == settings_after(before, command, inputs)
    &&& effects == command_effects(before, paused, command, inputs)
}

/// Carries out a command that leaves the settings alone.
fn handle_request(
    settings: &mut Settings,
    paused: bool,
    command: &Command,
    inputs: &Inputs,
) -> (effects: Vec<Effect>)
    requires
        command@ is Quit || command@ is Pause || command@ is ShuffleNow
            || command@ is SettingsFile || command@ is Autostart,
    ensures
        carried_out(
            old(settings)@,
            final(settings)@,
            effect_views(effects@),
            paused,
            command@,
            inputs@,
        ),
        final(settings).module_by_monitor == old(settings).module_by_monitor,
{
    reveal(carried_out);
    match command {
        Command::Quit => only(Effect::Quit),
        Command::Pause => only(Effect::SetPaused(!paused)),
        Command::ShuffleNow => only(Effect::Shuffle),
        Command::SettingsFile => only(Effect::OpenSettingsFolder),
        _ => only(Effect::ToggleAutostart),
    }
}

/// Takes up the settings that were read from their file.
fn handle_reload(settings: &mut Settings, paused: bool, inputs: &Inputs) -> (effects: Vec<Effect>)
    ensures
        carried_out(
            old(settings)@,
            final(settings)@,
            effect_views(effects@),
            paused,
            CommandView::Reload,
            inputs@,
        ),
        old(settings).module_by_monitor.wf() && inputs.wf()
            ==> final(settings).module_by_monitor.wf(),
{
    reveal(carried_out);
    let before = settings.static_background;
    if let Some(file) = &inputs.file {
        *settings = file.clone();
    }
    if settings.static_background == before {
        return only(Effect::Rebuild);
    }
    let mut effects = only(Effect::ApplyBackground);
    push_effect(&mut effects, Effect::Rebuild);
    assert(effect_views(effects@) == seq![EffectView::ApplyBackground, EffectView::Rebuild]);
    effects
}

/// Flips a setting that the pages read when they start.
fn handle_switch(
    settings: &mut Settings,
    paused: bool,
    command: &Command,
    inputs: &Inputs,
) -> (effects: Vec<Effect>)
    requires
        command@ is VariedModules || command@ is BootAnimation || command@ is SystemInfo,
    ensures
        carried_out(
            old(settings)@,
            final(settings)@,
            effect_views(effects@),
            paused,
            command@,
            inputs@,
        ),
        final(settings).module_by_monitor == old(settings).module_by_monitor,
{
    reveal(carried_out);
    match command {
        Command::VariedModules => settings.varied_modules = !settings.varied_modules,
        Command::BootAnimation => settings.boot_animation = !settings.boot_animation,
        _ => settings.system_info = !settings.system_info,
    }
    saved()
}

/// Flips a setting that the pages are told about.
fn handle_live_switch(
    settings: &mut Settings,
    paused: bool,
    command: &Command,
    inputs: &Inputs,
) -> (effects: Vec<Effect>)
    requires
        command@ is RedAlert || command@ is Audio,
    ensures
        carried_out(
            old(settings)@,
            final(settings)@,
            effect_views(effects@),
            paused,
            command@,
            inputs@,
        ),
        final(settings).module_by_monitor == old(settings).module_by_monitor,
{
    reveal(carried_out);
    match command {
        Command::RedAlert => {
            let active = !settings.red_alert;
            settings.red_alert = active;
            saved_and_sent(one(None, Action::SetRedAlert, Payload::RedAlert(active)))
        },
        _ => {
            let enabled = !settings.audio;
            settings.audio = enabled;
            apply_audio(settings, enabled)
        },
    }
}

/// Flips one of the rules for pausing. Whatever was hidden under the old rule has to
/// come back before the new one gets a say.
fn handle_pause_rule(
    settings: &mut Settings,
    paused: bool,
    command: &Command,
    inputs: &Inputs,
) -> (effects: Vec<Effect>)
    requires
        command@ is PauseCovered || command@ is PauseFullscreen,
    ensures
        carried_out(
            old(settings)@,
            final(settings)@,
            effect_views(effects@),
            paused,
            command@,
            inputs@,
        ),
        final(settings).module_by_monitor == old(settings).module_by_monitor,
{
    reveal(carried_out);
    match command {
        Command::PauseCovered => {
            settings.pause_when_covered = !settings.pause_when_covered;
            saved_and_resumed()
        },
        _ => {
            let enabled = !settings.pause_on_fullscreen;
            settings.pause_on_fullscreen = enabled;
            if enabled {
                saved()
            } else {
                saved_and_resumed()
            }
        },
    }
}

/// Chooses all monitors or the primary one.
fn handle_monitors(
    settings: &mut Settings,
    paused: bool,
    command: &Command,
    inputs: &Inputs,
) -> (effects: Vec<Effect>)
    requires
        command@ is AllMonitors || command@ is PrimaryMonitor,
    ensures
        carried_out(
            old(settings)@,
            final(settings)@,
            effect_views(effects@),
            paused,
            command@,
            inputs@,
        ),
        final(settings).module_by_monitor == old(settings).module_by_monitor,
{
    reveal(carried_out);
    settings.monitors = match command {
        Command::AllMonitors => Monitors::All,
        _ => Monitors::Primary,
    };
    saved_and_rebuilt()
}

proof fn lemma_parametrised_effects(
    before: SettingsView,
    after: SettingsView,
    effects: Seq<EffectView>,
    paused: bool,
    command: CommandView,
    inputs: InputsView,
)
    requires
        is_parametrised(command),
        handled(before, after, effects, command, inputs),
    ensures
        carried_out(before, after, effects, paused, command, inputs),
{
    reveal(handled);
    reveal(carried_out);
}

fn carry_out(
    settings: &mut Settings,
    paused: bool,
    command: &Command,
    inputs: &Inputs,
) -> (effects: Vec<Effect>)
    ensures
        carried_out(
            old(settings)@,
            final(settings)@,
            effect_views(effects@),
            paused,
            command@,
            inputs@,
        ),
        old(settings).module_by_monitor.wf() && inputs.wf()
            ==> final(settings).module_by_monitor.wf(),
{
    match command {
        Command::Quit => handle_request(settings, paused, command, inputs),
        Command::Pause => handle_request(settings, paused, command, inputs),
        Command::ShuffleNow => handle_request(settings, paused, command, inputs),
        Command::Reload => handle_reload(settings, paused, inputs),
        Command::SettingsFile => handle_request(settings, paused, command, inputs),
        Command::Autostart => handle_request(settings, paused, command, inputs),
        Command::VariedModules => handle_switch(settings, paused, command, inputs),
        Command::BootAnimation => handle_switch(settings, paused, command, inputs),
        Command::SystemInfo => handle_switch(settings, paused, command, inputs),
        Command::RedAlert => handle_live_switch(settings, paused, command, inputs),
        Command::Audio => handle_live_switch(settings, paused, command, inputs),
        Command::PauseCovered => handle_pause_rule(settings, paused, command, inputs),
        Command::PauseFullscreen => handle_pause_rule(settings, paused, command, inputs),
        Command::AllMonitors => handle_monitors(settings, paused, command, inputs),
        Command::PrimaryMonitor => handle_monitors(settings, paused, command, inputs),
        _ => {
            let effects = handle_parametrised_event(settings, command, inputs);
            proof {
                lemma_parametrised_effects(
                    old(settings)@,
                    settings@,
                    effect_views(effects@),
                    paused,
                    command@,
                    inputs@,
                );
            }
            effects
        },
    }
}

/// Carries out a command: changes the settings and tells what has to be done
/// outside, in order.
pub fn handle_command(
    settings: &mut Settings,
    paused: bool,
    command: &Command,
    inputs: &Inputs,
) -> (effects: Vec<Effect>)
    ensures
        final(settings)@ == settings_after(old(settings)@, command@, inputs@),
        old(settings).module_by_monitor.wf() && inputs.wf()
            ==> final(settings).module_by_monitor.wf(),
        effect_views(effects@) == command_effects(old(settings)@, paused, command@, inputs@),
{
    reveal(carried_out);
    carry_out(settings, paused, command, inputs)
}

/// Handles a click on the menu item with a given id. Whatever it was, the menu is
/// built again afterwards, unless the click ended everything.
pub fn handle_menu_event(
    settings: &mut Settings,
    paused: bool,
    id: &str,
    inputs: &Inputs,
) -> (effects: Vec<Effect>)
    ensures
        final(settings)@ == settings_after(old(settings)@, command_of(id@), inputs@),
        old(settings).module_by_monitor.wf() && inputs.wf()
            ==> final(settings).module_by_monitor.wf(),
        effect_views(effects@) == event_effects(
            old(settings)@,
            paused,
            command_of(id@),
            inputs@,
        ),
{
    let command = parse_command(id);
    let mut effects = handle_command(settings, paused, &command, inputs);
    match command {
        Command::Quit => {},
        _ => push_effect(&mut effects, Effect::RefreshMenu),
    }
    effects
}

} // verus!
