//! What follows from a click: which setting it changes, what is told to the pages,
//! and when the windows are opened again.

use crate::binary64::number;
use crate::bridge::{Action, PayloadView};
use crate::choices::{lemma_engine_id, lemma_layout_id, lemma_scale_id, lemma_sfx_id};
use crate::settings::{
    lemma_first_of, Fit, Layout, MonitorsView, SettingsView, StaticBackground,
};
use crate::text::{digits, numbers_are_read_up_to_the_limit, spelled_within};
use crate::tray::{
    background_named, command_effects, command_of, event_effects, fit_named, is_parametrised,
    layout_named, listed, monitor_toggled, number_or_zero, number_text, parametrised_effects,
    scale_unchanged, settings_after, takes_the_file, toggled, CommandView, EffectView, InputsView,
};
use crate::wallpaper::DispatchView;
use vstd::prelude::*;

verus! {

/// What is in a short list is at one of its few places.
proof fn lemma_few(list: Seq<EffectView>, wanted: EffectView)
    requires
        list.len() <= 4,
    ensures
        list.contains(wanted) <==> ({
            ||| list.len() > 0 && list[0] == wanted
            ||| list.len() > 1 && list[1] == wanted
            ||| list.len() > 2 && list[2] == wanted
            ||| list.len() > 3 && list[3] == wanted
        }),
{
}

/// Whether an effect tells every page one thing.
spec fn tells(effect: EffectView, action: Action, payload: PayloadView) -> bool {
    effect == EffectView::Dispatch(DispatchView { key: None, action, payload })
}

/// What a switch or a request leads to.
spec fn leads_to(
    settings: SettingsView,
    paused: bool,
    command: CommandView,
    inputs: InputsView,
    effect: EffectView,
) -> bool {
    let saves = effect == EffectView::Save;
    let after = settings_after(settings, command, inputs);
    match command {
        CommandView::Quit => effect == EffectView::Quit,
        CommandView::Pause => effect == EffectView::SetPaused(!paused),
        CommandView::ShuffleNow => effect == EffectView::Shuffle,
        CommandView::Reload => effect == EffectView::Rebuild || (effect
            == EffectView::ApplyBackground && after.static_background
            != settings.static_background),
        CommandView::SettingsFile => effect == EffectView::OpenSettingsFolder,
        CommandView::Autostart => effect == EffectView::ToggleAutostart,
        CommandView::VariedModules => saves,
        CommandView::BootAnimation => saves,
        CommandView::SystemInfo => saves,
        CommandView::RedAlert => saves || tells(
            effect,
            Action::SetRedAlert,
            PayloadView::RedAlert(!settings.red_alert),
        ),
        CommandView::Audio => saves || if settings.audio {
            tells(effect, Action::AudioOff, PayloadView::Null)
        } else {
            ||| tells(effect, Action::AudioOn, PayloadView::Null)
            ||| tells(effect, Action::SetSfxVolume, PayloadView::Number(settings.sfx_volume))
            ||| tells(effect, Action::SetSbgVolume, PayloadView::Number(settings.engine_volume))
        },
        CommandView::PauseCovered => saves || effect == EffectView::SetPaused(false),
        CommandView::PauseFullscreen => saves || (settings.pause_on_fullscreen && effect
            == EffectView::SetPaused(false)),
        CommandView::AllMonitors => saves || effect == EffectView::Rebuild,
        CommandView::PrimaryMonitor => saves || effect == EffectView::Rebuild,
        _ => false,
    }
}

/// What a choice leads to.
spec fn choice_leads_to(
    settings: SettingsView,
    command: CommandView,
    inputs: InputsView,
    effect: EffectView,
) -> bool {
    let saves = effect == EffectView::Save;
    let opens = effect == EffectView::Save || effect == EffectView::Rebuild;
    let after = settings_after(settings, command, inputs);
    match command {
        CommandView::Module(_) => saves || effect == EffectView::Shuffle,
        CommandView::ScreenModule(key, _) => saves || effect == EffectView::Dispatch(
            DispatchView {
                key: Some(key),
                action: Action::SetActiveModule,
                payload: PayloadView::Text(after.module_on(key, inputs.shared, inputs.fresh)),
            },
        ),
        CommandView::Monitor(key) => opens && monitor_toggled(
            settings.monitors,
            inputs.monitors,
            key,
        ) is Some,
        CommandView::Layout(_) => opens,
        CommandView::Margin(margin) => saves || tells(
            effect,
            Action::SetMargin,
            PayloadView::Whole(margin as u64),
        ),
        CommandView::Filter(name) => saves || tells(
            effect,
            Action::ToggleFilterEffects,
            PayloadView::Null,
        ) || (name != "none"@ && tells(
            effect,
            Action::ToggleFilterEffects,
            PayloadView::Text(name),
        )),
        CommandView::SfxVolume(_) => saves || tells(
            effect,
            Action::SetSfxVolume,
            PayloadView::Number(after.sfx_volume),
        ),
        CommandView::EngineVolume(_) => saves || tells(
            effect,
            Action::SetSbgVolume,
            PayloadView::Number(after.engine_volume),
        ),
        CommandView::RenderScale(_) => opens && !scale_unchanged(settings, inputs),
        CommandView::Shuffle(_) => saves,
        CommandView::Fit(fit) => opens && fit != settings.fit,
        CommandView::Background(background) => (opens || effect == EffectView::ApplyBackground)
            && background != settings.static_background,
        _ => false,
    }
}

proof fn lemma_leads_to(
    settings: SettingsView,
    paused: bool,
    command: CommandView,
    inputs: InputsView,
    effect: EffectView,
)
    requires
        !is_parametrised(command),
    ensures
        command_effects(settings, paused, command, inputs).contains(effect) <==> leads_to(
            settings,
            paused,
            command,
            inputs,
            effect,
        ),
{
    let effects = command_effects(settings, paused, command, inputs);
    assert(effects.len() <= 4);
    lemma_few(effects, effect);
}

proof fn lemma_choice_leads_to(
    settings: SettingsView,
    command: CommandView,
    inputs: InputsView,
    effect: EffectView,
)
    requires
        is_parametrised(command),
    ensures
        parametrised_effects(settings, command, inputs).contains(effect) <==> choice_leads_to(
            settings,
            command,
            inputs,
            effect,
        ),
{
    let effects = parametrised_effects(settings, command, inputs);
    assert(effects.len() <= 4);
    lemma_few(effects, effect);
}

/// What a click leads to, and the menu is built again behind it.
proof fn lemma_click_leads_to(
    settings: SettingsView,
    paused: bool,
    command: CommandView,
    inputs: InputsView,
    effect: EffectView,
)
    requires
        effect != EffectView::RefreshMenu,
    ensures
        event_effects(settings, paused, command, inputs).contains(effect) <==> if is_parametrised(
            command,
        ) {
            choice_leads_to(settings, command, inputs, effect)
        } else {
            leads_to(settings, paused, command, inputs, effect)
        },
{
    let effects = command_effects(settings, paused, command, inputs);
    if is_parametrised(command) {
        lemma_choice_leads_to(settings, command, inputs, effect);
        assert(effects == parametrised_effects(settings, command, inputs));
    } else {
        lemma_leads_to(settings, paused, command, inputs, effect);
    }
    lemma_behind(effects, effect);
}

proof fn lemma_behind(effects: Seq<EffectView>, effect: EffectView)
    requires
        effect != EffectView::RefreshMenu,
    ensures
        effects.push(EffectView::RefreshMenu).contains(effect) <==> effects.contains(effect),
{
    let all = effects.push(EffectView::RefreshMenu);
    if all.contains(effect) {
        let i = choose|i: int| 0 <= i < all.len() && all[i] == effect;
        assert(effects[i] == effect);
    }
    if effects.contains(effect) {
        let i = choose|i: int| 0 <= i < effects.len() && effects[i] == effect;
        assert(all[i] == effect);
    }
}

/// A click that changes what is only read when the windows open, the layout, the
/// covered monitors, the fit, the insets, the render scale or the static background,
/// opens them again.
pub proof fn window_settings_open_the_windows_again(
    settings: SettingsView,
    paused: bool,
    command: CommandView,
    inputs: InputsView,
)
    requires
        ({
            let after = settings_after(settings, command, inputs);
            ||| after.layout != settings.layout
            ||| after.monitors != settings.monitors
            ||| after.fit != settings.fit
            ||| after.insets != settings.insets
            ||| after.render_scale != settings.render_scale
            ||| after.static_background != settings.static_background
        }),
    ensures
        event_effects(settings, paused, command, inputs).contains(EffectView::Rebuild),
{
    lemma_click_leads_to(settings, paused, command, inputs, EffectView::Rebuild);
}

/// Every click on a layout saves the settings and then opens the windows again, even
/// where it is the layout in use.
pub proof fn layout_clicks_open_the_windows_again(
    settings: SettingsView,
    paused: bool,
    name: Seq<char>,
    inputs: InputsView,
)
    ensures
        ({
            let effects = event_effects(settings, paused, command_of("layout:"@ + name), inputs);
            &&& effects.len() == 3
            &&& effects[0] == EffectView::Save
            &&& effects[1] == EffectView::Rebuild
            &&& effects[2] == EffectView::RefreshMenu
        }),
{
    lemma_layout_id(name);
}

/// So does every choice of all monitors or of the primary one.
pub proof fn monitor_choices_open_the_windows_again(
    settings: SettingsView,
    paused: bool,
    command: CommandView,
    inputs: InputsView,
)
    requires
        command == CommandView::AllMonitors || command == CommandView::PrimaryMonitor,
    ensures
        ({
            let effects = event_effects(settings, paused, command, inputs);
            &&& effects.len() == 3
            &&& effects[0] == EffectView::Save
            &&& effects[1] == EffectView::Rebuild
            &&& effects[2] == EffectView::RefreshMenu
        }),
{
}

/// A new static background is painted, or the old one put back, before the windows
/// are opened again.
pub proof fn background_comes_before_the_windows(
    settings: SettingsView,
    paused: bool,
    command: CommandView,
    inputs: InputsView,
    i: int,
    j: int,
)
    requires
        0 <= i < event_effects(settings, paused, command, inputs).len(),
        0 <= j < event_effects(settings, paused, command, inputs).len(),
        event_effects(settings, paused, command, inputs)[i] == EffectView::ApplyBackground,
        event_effects(settings, paused, command, inputs)[j] == EffectView::Rebuild,
    ensures
        i < j,
{
    let effects = event_effects(settings, paused, command, inputs);
    assert(effects.len() <= 5);
    assert(0 <= i < 5 && 0 <= j < 5);
}

/// The static background is touched exactly by a click that changes its setting.
pub proof fn background_follows_its_setting(
    settings: SettingsView,
    paused: bool,
    command: CommandView,
    inputs: InputsView,
)
    ensures
        event_effects(settings, paused, command, inputs).contains(EffectView::ApplyBackground)
            <==> settings_after(settings, command, inputs).static_background
            != settings.static_background,
{
    lemma_click_leads_to(settings, paused, command, inputs, EffectView::ApplyBackground);
}

/// The windows are opened again only for a reload, for a choice of layout or of
/// monitors, for another fit or background, and for a render scale that is a
/// thousandth or more away from the one in use.
pub proof fn windows_stay_open_otherwise(
    settings: SettingsView,
    paused: bool,
    command: CommandView,
    inputs: InputsView,
)
    requires
        event_effects(settings, paused, command, inputs).contains(EffectView::Rebuild),
    ensures
        match command {
            CommandView::Reload | CommandView::Layout(_) | CommandView::AllMonitors
            | CommandView::PrimaryMonitor => true,
            CommandView::Monitor(key) => settings_after(settings, command, inputs).monitors
                != settings.monitors,
            CommandView::Fit(fit) => fit != settings.fit,
            CommandView::Background(background) => background != settings.static_background,
            CommandView::RenderScale(_) => inputs.number matches Some(asked) ==> !asked.near(
                settings.scale_held(),
                number(0x3f50_624d_d2f1_a9fc),
            ),
            _ => false,
        },
{
    lemma_click_leads_to(settings, paused, command, inputs, EffectView::Rebuild);
    if let CommandView::Monitor(key) = command {
        let names = listed(settings.monitors, inputs.monitors);
        lemma_first_of(names, key);
        assert(toggled(names, key).len() != names.len());
    }
}

/// Pausing by hand turns the pause round. Switching the pause over covered windows,
/// or switching off the one over full-screen applications, shows the windows again.
/// Nothing else pauses or resumes.
pub proof fn pausing_follows_its_switches(
    settings: SettingsView,
    paused: bool,
    command: CommandView,
    inputs: InputsView,
    pause: bool,
)
    ensures
        event_effects(settings, paused, command, inputs).contains(EffectView::SetPaused(pause))
            <==> match command {
            CommandView::Pause => pause != paused,
            CommandView::PauseCovered => !pause,
            CommandView::PauseFullscreen => settings.pause_on_fullscreen && !pause,
            _ => false,
        },
{
    lemma_click_leads_to(settings, paused, command, inputs, EffectView::SetPaused(pause));
}

/// A shuffle follows from being asked for one and from every choice of a module.
pub proof fn shuffling_follows_its_clicks(
    settings: SettingsView,
    paused: bool,
    command: CommandView,
    inputs: InputsView,
)
    ensures
        event_effects(settings, paused, command, inputs).contains(EffectView::Shuffle)
            <==> command is ShuffleNow || command is Module,
{
    lemma_click_leads_to(settings, paused, command, inputs, EffectView::Shuffle);
}

/// Quitting, opening the folder of the settings and starting with the system each
/// follow from their own click alone.
pub proof fn requests_are_carried_out(
    settings: SettingsView,
    paused: bool,
    command: CommandView,
    inputs: InputsView,
)
    ensures
        event_effects(settings, paused, command, inputs).contains(EffectView::Quit)
            <==> command is Quit,
        event_effects(settings, paused, command, inputs).contains(EffectView::OpenSettingsFolder)
            <==> command is SettingsFile,
        event_effects(settings, paused, command, inputs).contains(EffectView::ToggleAutostart)
            <==> command is Autostart,
{
    lemma_click_leads_to(settings, paused, command, inputs, EffectView::Quit);
    lemma_click_leads_to(settings, paused, command, inputs, EffectView::OpenSettingsFolder);
    lemma_click_leads_to(settings, paused, command, inputs, EffectView::ToggleAutostart);
}

/// The settings are written only by a click that is about one of them.
pub proof fn requests_are_not_saved(
    settings: SettingsView,
    paused: bool,
    command: CommandView,
    inputs: InputsView,
)
    requires
        command is Quit || command is Pause || command is ShuffleNow || command is Reload
            || command is SettingsFile || command is Autostart || command is Nothing,
    ensures
        !event_effects(settings, paused, command, inputs).contains(EffectView::Save),
{
    lemma_click_leads_to(settings, paused, command, inputs, EffectView::Save);
}

/// Whatever setting a page follows while it runs, every page is told its new value:
/// the margin, the alert, the volumes, and the sound with both of its volumes.
pub proof fn pages_are_told_what_changed(
    settings: SettingsView,
    paused: bool,
    command: CommandView,
    inputs: InputsView,
    said: DispatchView,
)
    requires
        !(command is ScreenModule),
        !(command is Filter),
    ensures
        event_effects(settings, paused, command, inputs).contains(EffectView::Dispatch(said))
            <==> said.key is None && ({
            let after = settings_after(settings, command, inputs);
            match command {
                CommandView::Margin(_) => said.action == Action::SetMargin && said.payload
                    == PayloadView::Whole(after.margin as u64),
                CommandView::RedAlert => said.action == Action::SetRedAlert && said.payload
                    == PayloadView::RedAlert(after.red_alert),
                CommandView::SfxVolume(_) => said.action == Action::SetSfxVolume && said.payload
                    == PayloadView::Number(after.sfx_volume),
                CommandView::EngineVolume(_) => said.action == Action::SetSbgVolume && said.payload
                    == PayloadView::Number(after.engine_volume),
                CommandView::Audio => if after.audio {
                    ||| said.action == Action::AudioOn && said.payload == PayloadView::Null
                    ||| said.action == Action::SetSfxVolume && said.payload
                        == PayloadView::Number(after.sfx_volume)
                    ||| said.action == Action::SetSbgVolume && said.payload
                        == PayloadView::Number(after.engine_volume)
                } else {
                    said.action == Action::AudioOff && said.payload == PayloadView::Null
                },
                _ => false,
            }
        }),
{
    lemma_click_leads_to(settings, paused, command, inputs, EffectView::Dispatch(said));
}

/// A chosen filter goes to every page: the old one is cleared, and the new one is set
/// unless it is none.
pub proof fn pages_are_told_the_filter(
    settings: SettingsView,
    paused: bool,
    name: Seq<char>,
    inputs: InputsView,
    said: DispatchView,
)
    ensures
        event_effects(settings, paused, CommandView::Filter(name), inputs).contains(
            EffectView::Dispatch(said),
        ) <==> said.key is None && said.action == Action::ToggleFilterEffects && (said.payload
            == PayloadView::Null || (name != "none"@ && said.payload == PayloadView::Text(name))),
{
    lemma_click_leads_to(
        settings,
        paused,
        CommandView::Filter(name),
        inputs,
        EffectView::Dispatch(said),
    );
}

/// A module chosen for one screen goes to that screen alone. Where the choice is to
/// follow the others, the screen gets the module of all, or a pick where that is left
/// to chance: its own if picks vary, else the shared one.
pub proof fn screens_are_told_their_module(
    settings: SettingsView,
    paused: bool,
    key: Seq<char>,
    name: Seq<char>,
    inputs: InputsView,
    said: DispatchView,
)
    ensures
        event_effects(settings, paused, CommandView::ScreenModule(key, name), inputs).contains(
            EffectView::Dispatch(said),
        ) <==> said.key == Some(key) && said.action == Action::SetActiveModule && said.payload
            == PayloadView::Text(
            if name != "inherit"@ {
                name
            } else if settings.module != "random"@ {
                settings.module
            } else if settings.varied_modules {
                inputs.fresh
            } else {
                inputs.shared
            },
        ),
{
    lemma_click_leads_to(
        settings,
        paused,
        CommandView::ScreenModule(key, name),
        inputs,
        EffectView::Dispatch(said),
    );
}

/// A click touches the one setting it is about and no other.
pub proof fn clicks_touch_their_own_setting(
    settings: SettingsView,
    command: CommandView,
    inputs: InputsView,
)
    requires
        !(command is Reload),
    ensures
        ({
            let after = settings_after(settings, command, inputs);
            &&& !(command is Module) ==> after.module == settings.module
            &&& !(command is ScreenModule) ==> after.module_by_monitor
                == settings.module_by_monitor
            &&& !(command is VariedModules) ==> after.varied_modules == settings.varied_modules
            &&& !(command is Shuffle) ==> after.shuffle_minutes == settings.shuffle_minutes
            &&& !(command is Layout) ==> after.layout == settings.layout
            &&& !(command is Fit) ==> after.fit == settings.fit
            &&& !(command is Margin) ==> after.margin == settings.margin
            &&& !(command is Filter) ==> after.filter == settings.filter
            &&& !(command is Audio) ==> after.audio == settings.audio
            &&& !(command is SfxVolume) ==> after.sfx_volume == settings.sfx_volume
            &&& !(command is EngineVolume) ==> after.engine_volume == settings.engine_volume
            &&& !(command is RenderScale) ==> after.render_scale == settings.render_scale
            &&& !(command is RedAlert) ==> after.red_alert == settings.red_alert
            &&& !(command is BootAnimation) ==> after.boot_animation == settings.boot_animation
            &&& !(command is SystemInfo) ==> after.system_info == settings.system_info
            &&& !(command is PauseCovered) ==> after.pause_when_covered
                == settings.pause_when_covered
            &&& !(command is PauseFullscreen) ==> after.pause_on_fullscreen
                == settings.pause_on_fullscreen
            &&& !(command is Background) ==> after.static_background == settings.static_background
            &&& !(command is Monitor || command is AllMonitors || command is PrimaryMonitor)
                ==> after.monitors == settings.monitors
            &&& after.insets == settings.insets
            &&& after.saved_wallpaper == settings.saved_wallpaper
        }),
{
}

/// A switch turns its setting round.
pub proof fn switches_turn_their_setting(settings: SettingsView, inputs: InputsView)
    ensures
        settings_after(settings, CommandView::VariedModules, inputs).varied_modules
            != settings.varied_modules,
        settings_after(settings, CommandView::RedAlert, inputs).red_alert != settings.red_alert,
        settings_after(settings, CommandView::BootAnimation, inputs).boot_animation
            != settings.boot_animation,
        settings_after(settings, CommandView::Audio, inputs).audio != settings.audio,
        settings_after(settings, CommandView::PauseCovered, inputs).pause_when_covered
            != settings.pause_when_covered,
        settings_after(settings, CommandView::PauseFullscreen, inputs).pause_on_fullscreen
            != settings.pause_on_fullscreen,
        settings_after(settings, CommandView::SystemInfo, inputs).system_info
            != settings.system_info,
{
}

/// A choice is kept as it was made, whatever was chosen before.
pub proof fn choices_are_kept(
    settings: SettingsView,
    inputs: InputsView,
    name: Seq<char>,
    layout: Layout,
    fit: Fit,
    background: StaticBackground,
    margin: u8,
    minutes: u64,
)
    ensures
        settings_after(settings, CommandView::Module(name), inputs).module == name,
        settings_after(settings, CommandView::Filter(name), inputs).filter == name,
        settings_after(settings, CommandView::Layout(layout), inputs).layout == layout,
        settings_after(settings, CommandView::Fit(fit), inputs).fit == fit,
        settings_after(settings, CommandView::Background(background), inputs).static_background
            == background,
        settings_after(settings, CommandView::Margin(margin), inputs).margin == margin,
        settings_after(settings, CommandView::Shuffle(minutes), inputs).shuffle_minutes == minutes,
        settings_after(settings, CommandView::AllMonitors, inputs).monitors == MonitorsView::All,
        settings_after(settings, CommandView::PrimaryMonitor, inputs).monitors
            == MonitorsView::Primary,
{
}

/// A number that was chosen is kept as it was read; one that cannot be read gives the
/// volume that the settings start with. A render scale is kept only where it is a
/// thousandth or more away from the one in use, and one that cannot be read is whole.
pub proof fn chosen_numbers_are_kept(
    settings: SettingsView,
    inputs: InputsView,
    text: Seq<char>,
)
    ensures
        inputs.number matches Some(asked) ==> {
            &&& settings_after(settings, CommandView::SfxVolume(text), inputs).sfx_volume == asked
            &&& settings_after(settings, CommandView::EngineVolume(text), inputs).engine_volume
                == asked
            &&& settings_after(settings, CommandView::RenderScale(text), inputs).render_scale == (
            if asked.near(settings.scale_held(), number(0x3f50_624d_d2f1_a9fc)) {
                settings.render_scale
            } else {
                asked
            })
        },
        inputs.number is None ==> {
            &&& settings_after(settings, CommandView::SfxVolume(text), inputs).sfx_volume == number(
                0x3fcc_28f5_c28f_5c29,
            )
            &&& settings_after(settings, CommandView::EngineVolume(text), inputs).engine_volume
                == number(0x3fbe_b851_eb85_1eb8)
            &&& settings_after(settings, CommandView::RenderScale(text), inputs).render_scale == (
            if number(0x3ff0_0000_0000_0000).near(
                settings.scale_held(),
                number(0x3f50_624d_d2f1_a9fc),
            ) {
                settings.render_scale
            } else {
                number(0x3ff0_0000_0000_0000)
            })
        },
{
}

/// A module chosen for one screen is kept for that screen, and following the others
/// forgets it; what was chosen for any other screen stays.
pub proof fn screen_choices_are_kept(
    settings: SettingsView,
    inputs: InputsView,
    key: Seq<char>,
    name: Seq<char>,
    other: Seq<char>,
)
    ensures
        ({
            let after = settings_after(settings, CommandView::ScreenModule(key, name), inputs);
            &&& name != "inherit"@ ==> after.module_by_monitor.contains_key(key)
                && after.module_by_monitor[key] == name
            &&& name == "inherit"@ ==> !after.module_by_monitor.contains_key(key)
            &&& other != key ==> after.module_by_monitor.contains_key(other)
                == settings.module_by_monitor.contains_key(other)
            &&& other != key && settings.module_by_monitor.contains_key(other)
                ==> after.module_by_monitor[other] == settings.module_by_monitor[other]
        }),
{
}

/// A click on a monitor starts from the monitors in use: the named ones, every one, or
/// none where only the primary one is covered.
pub proof fn ticking_starts_from_what_is_covered(all: Seq<Seq<char>>, names: Seq<Seq<char>>)
    ensures
        listed(MonitorsView::All, all) == all,
        listed(MonitorsView::Primary, all).len() == 0,
        listed(MonitorsView::Only(names), all) == names,
{
}

/// A click that would leave no monitor changes nothing; one that leaves as many as
/// there are covers all of them; any other covers the ones that are left.
pub proof fn ticked_monitors_are_covered(
    settings: SettingsView,
    paused: bool,
    key: Seq<char>,
    inputs: InputsView,
)
    ensures
        ({
            let left = toggled(listed(settings.monitors, inputs.monitors), key);
            let after = settings_after(settings, CommandView::Monitor(key), inputs);
            &&& left.len() == 0 ==> after == settings && event_effects(
                settings,
                paused,
                CommandView::Monitor(key),
                inputs,
            ) == seq![EffectView::RefreshMenu]
            &&& left.len() > 0 && left.len() == inputs.monitors.len() ==> after.monitors
                == MonitorsView::All
            &&& left.len() > 0 && left.len() != inputs.monitors.len() ==> after.monitors
                == MonitorsView::Only(left)
        }),
{
}

/// A monitor that is not listed is added at the end; one that is listed is taken out,
/// and the others keep their order.
pub proof fn ticking_adds_or_takes_out(names: Seq<Seq<char>>, key: Seq<char>, at: int)
    ensures
        !names.contains(key) ==> toggled(names, key) == names.push(key),
        0 <= at < names.len() && names[at] == key && (forall|i: int|
            0 <= i < at ==> names[i] != key) ==> toggled(names, key) == names.remove(at),
{
    lemma_first_of(names, key);
    crate::settings::the_first_is_found(names, key, at);
}

/// Each plain entry of the menu stands for its own command.
pub proof fn plain_entries_stand_for_their_command()
    ensures
        command_of("quit"@) == CommandView::Quit,
        command_of("pause"@) == CommandView::Pause,
        command_of("shuffle-now"@) == CommandView::ShuffleNow,
        command_of("reload"@) == CommandView::Reload,
        command_of("settings-file"@) == CommandView::SettingsFile,
        command_of("varied-modules"@) == CommandView::VariedModules,
        command_of("red-alert"@) == CommandView::RedAlert,
        command_of("boot-animation"@) == CommandView::BootAnimation,
        command_of("audio"@) == CommandView::Audio,
        command_of("pause-covered"@) == CommandView::PauseCovered,
        command_of("pause-fullscreen"@) == CommandView::PauseFullscreen,
        command_of("system-info"@) == CommandView::SystemInfo,
        command_of("autostart"@) == CommandView::Autostart,
        command_of("monitors:all"@) == CommandView::AllMonitors,
        command_of("monitors:primary"@) == CommandView::PrimaryMonitor,
{
    reveal_strlit("quit");
    reveal_strlit("pause");
    reveal_strlit("shuffle-now");
    reveal_strlit("reload");
    reveal_strlit("settings-file");
    reveal_strlit("varied-modules");
    reveal_strlit("red-alert");
    reveal_strlit("boot-animation");
    reveal_strlit("audio");
    reveal_strlit("pause-covered");
    reveal_strlit("pause-fullscreen");
    reveal_strlit("system-info");
    reveal_strlit("autostart");
    reveal_strlit("monitors:all");
    reveal_strlit("monitors:primary");
    assert("quit"@.len() == 4 && "pause"@.len() == 5 && "reload"@.len() == 6);
    assert("audio"@.len() == 5 && "audio"@[0] == 'a' && "pause"@[0] == 'p');
    assert("red-alert"@.len() == 9 && "autostart"@.len() == 9 && "red-alert"@[0] == 'r'
        && "autostart"@[0] == 'a');
    assert("shuffle-now"@.len() == 11 && "system-info"@.len() == 11 && "shuffle-now"@[1] == 'h'
        && "system-info"@[1] == 'y');
    assert("monitors:all"@.len() == 12);
    assert("settings-file"@.len() == 13 && "pause-covered"@.len() == 13 && "settings-file"@[0]
        == 's' && "pause-covered"@[0] == 'p');
    assert("varied-modules"@.len() == 14 && "boot-animation"@.len() == 14 && "varied-modules"@[0]
        == 'v' && "boot-animation"@[0] == 'b');
    assert("pause-fullscreen"@.len() == 16 && "monitors:primary"@.len() == 16
        && "pause-fullscreen"@[0] == 'p' && "monitors:primary"@[0] == 'm');
}

/// Each name of a layout, a fit or a background stands for it; a name that is none of
/// them gives the one that the settings start with.
pub proof fn names_stand_for_their_choice(name: Seq<char>)
    ensures
        layout_named(name) == Layout::Span <==> name == "span"@,
        layout_named(name) == Layout::Split <==> name == "split"@,
        fit_named(name) == Fit::WorkArea <==> name == "workarea"@,
        background_named(name) == StaticBackground::Black <==> name == "black"@,
{
    reveal_strlit("span");
    reveal_strlit("split");
    assert("span"@.len() == 4 && "split"@.len() == 5);
}


/// The number in a volume or a render quality is asked for as it stands in the id, and
/// nothing else asks for one.
pub proof fn numbers_are_asked_for(text: Seq<char>, command: CommandView)
    ensures
        number_text(command_of("sfx:"@ + text)) == Some(text),
        number_text(command_of("engine:"@ + text)) == Some(text),
        number_text(command_of("render-scale:"@ + text)) == Some(text),
        number_text(command) is Some ==> command is SfxVolume || command is EngineVolume
            || command is RenderScale,
{
    lemma_sfx_id(text);
    lemma_engine_id(text);
    lemma_scale_id(text);
}

/// What was read besides the settings matters to nothing that did not ask for it: the
/// number and the file only to the commands that want them.
pub proof fn inputs_matter_to_those_who_ask(
    settings: SettingsView,
    paused: bool,
    command: CommandView,
    inputs: InputsView,
    other: InputsView,
)
    requires
        number_text(command) is None || inputs.number == other.number,
        !takes_the_file(command) || inputs.file == other.file,
        inputs.monitors == other.monitors,
        inputs.shared == other.shared,
        inputs.fresh == other.fresh,
    ensures
        settings_after(settings, command, inputs) == settings_after(settings, command, other),
        event_effects(settings, paused, command, inputs) == event_effects(
            settings,
            paused,
            command,
            other,
        ),
        takes_the_file(CommandView::Reload),
{
}


/// Saving comes before anything else that a click leads to, and nothing happens twice.
pub proof fn saving_comes_first(
    settings: SettingsView,
    paused: bool,
    command: CommandView,
    inputs: InputsView,
    i: int,
    j: int,
)
    requires
        0 <= i < j < event_effects(settings, paused, command, inputs).len(),
    ensures
        event_effects(settings, paused, command, inputs)[j] != EffectView::Save,
        event_effects(settings, paused, command, inputs)[i] != event_effects(
            settings,
            paused,
            command,
            inputs,
        )[j],
{
    let effects = command_effects(settings, paused, command, inputs);
    if is_parametrised(command) {
        lemma_choices_happen_once(settings, command, inputs);
        assert(effects == parametrised_effects(settings, command, inputs));
    } else {
        lemma_requests_happen_once(settings, paused, command, inputs);
    }
}

proof fn lemma_choices_happen_once(
    settings: SettingsView,
    command: CommandView,
    inputs: InputsView,
)
    requires
        is_parametrised(command),
    ensures
        ({
            let effects = parametrised_effects(settings, command, inputs);
            forall|i: int, j: int|
                0 <= i < j < effects.len() ==> #[trigger] effects[j] != EffectView::Save
                    && #[trigger] effects[i] != effects[j] && effects[i] != EffectView::RefreshMenu
                    && effects[j] != EffectView::RefreshMenu
        }),
        parametrised_effects(settings, command, inputs).len() == 1 ==> parametrised_effects(
            settings,
            command,
            inputs,
        )[0] != EffectView::RefreshMenu,
{
    let effects = parametrised_effects(settings, command, inputs);
    assert(effects.len() <= 4);
}

proof fn lemma_requests_happen_once(
    settings: SettingsView,
    paused: bool,
    command: CommandView,
    inputs: InputsView,
)
    requires
        !is_parametrised(command),
    ensures
        ({
            let effects = command_effects(settings, paused, command, inputs);
            forall|i: int, j: int|
                0 <= i < j < effects.len() ==> #[trigger] effects[j] != EffectView::Save
                    && #[trigger] effects[i] != effects[j] && effects[i] != EffectView::RefreshMenu
                    && effects[j] != EffectView::RefreshMenu
        }),
        command_effects(settings, paused, command, inputs).len() == 1 ==> command_effects(
            settings,
            paused,
            command,
            inputs,
        )[0] != EffectView::RefreshMenu,
{
    let effects = command_effects(settings, paused, command, inputs);
    assert(effects.len() <= 4);
}

/// What is no number, or one too large, counts as none.
pub proof fn unreadable_numbers_count_as_none(text: Seq<char>, value: nat, limit: nat)
    ensures
        spelled_within(text, limit) is None ==> number_or_zero(text, limit) == 0,
        value <= limit ==> number_or_zero(digits(value), limit) == value,
        value > limit ==> number_or_zero(digits(value), limit) == 0,
{
    numbers_are_read_up_to_the_limit(value, limit);
}

/// An entry that stands for nothing does nothing.
pub proof fn nothing_leads_to_nothing(settings: SettingsView, paused: bool, inputs: InputsView)
    ensures
        settings_after(settings, CommandView::Nothing, inputs) == settings,
        event_effects(settings, paused, CommandView::Nothing, inputs) == seq![
            EffectView::RefreshMenu,
        ],
{
}

} // verus!
