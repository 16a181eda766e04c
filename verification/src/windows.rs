//! What holds of the open windows: who is told what, who is hidden, who is placed.

use crate::bridge::{dispatch_script, Action, PayloadView};
use crate::desktop::{Host, HostMode};
use crate::geometry::Rect;
use crate::layout::{SpotView, TargetView, WindowPlan};
use crate::settings::SettingsView;
use crate::supervisor::{
    on_fallback, renderer_step, reported, shuffle_is_due, tick_outcome, RendererStepView, Report,
    TickFacts, TickStep,
};
use crate::wallpaper::{
    all_parked, all_paused, asleep, audio_dispatches, boot_dispatches, changes, handles_of,
    key_at, known_state, labelled, lemma_labelled, module_dispatches, opened_screens,
    pause_mode, pinned, receivers, running_steps, shuffled, start_dispatches, to_park,
    uncovered, woken, AutoPause, CoverageQuestion, DispatchView, ScreenView, WindowStep,
};
use vstd::prelude::*;

verus! {

/// A dispatch for one monitor reaches every window on that monitor, whether it is
/// hidden or awake or neither.
pub proof fn dispatch_reaches_its_monitor(
    screens: Seq<ScreenView>,
    key: Seq<char>,
    count: int,
    j: int,
)
    requires
        0 <= j < count <= screens.len(),
        screens[j].key == key,
    ensures
        receivers(screens, Some(key), count).contains(screens[j].label),
    decreases count,
{
    let before = receivers(screens, Some(key), count - 1);
    let after = receivers(screens, Some(key), count);
    if j == count - 1 {
        assert(after[before.len() as int] == screens[j].label);
    } else {
        dispatch_reaches_its_monitor(screens, key, count - 1, j);
        let i = choose|i: int| 0 <= i < before.len() && before[i] == screens[j].label;
        assert(after[i] == screens[j].label);
    }
}

/// A dispatch for one monitor goes to each window there once, in the order in which
/// they were opened.
pub proof fn each_window_is_told_once(
    screens: Seq<ScreenView>,
    key: Seq<char>,
    here: spec_fn(ScreenView) -> bool,
    label: spec_fn(ScreenView) -> Seq<char>,
    count: int,
)
    requires
        here == (|s: ScreenView| s.key == key),
        label == (|s: ScreenView| s.label),
        0 <= count <= screens.len(),
    ensures
        receivers(screens, Some(key), count) == screens.take(count).filter(here).map_values(label),
    decreases count,
{
    reveal(Seq::filter);
    let all = screens.take(count);
    if count > 0 {
        each_window_is_told_once(screens, key, here, label, count - 1);
        assert(all.drop_last() == screens.take(count - 1));
        let shorter = all.drop_last().filter(here);
        if here(all.last()) {
            assert(shorter.push(all.last()).map_values(label) == shorter.map_values(label).push(
                screens[count - 1].label,
            ));
        }
    } else {
        assert(all.filter(here).map_values(label) == Seq::<Seq<char>>::empty());
    }
}

/// Whether a window is hidden or awake never decides what it is told.
pub proof fn hidden_windows_are_told(
    screens: Seq<ScreenView>,
    other: Seq<ScreenView>,
    key: Option<Seq<char>>,
    count: int,
)
    requires
        0 <= count <= screens.len(),
        screens.len() == other.len(),
        forall|i: int|
            0 <= i < screens.len() ==> (#[trigger] screens[i]).key == other[i].key
                && screens[i].label == other[i].label,
    ensures
        receivers(screens, key, count) == receivers(other, key, count),
    decreases count,
{
    if count > 0 {
        hidden_windows_are_told(screens, other, key, count - 1);
        assert(screens[count - 1].key == other[count - 1].key);
    }
}

/// A label finds the first window that bears it, and nothing exactly if none does.
pub proof fn labels_find_their_window(screens: Seq<ScreenView>, label: Seq<char>, at: int)
    requires
        0 <= at < screens.len(),
        screens[at].label == label,
        forall|i: int| 0 <= i < at ==> (#[trigger] screens[i]).label != label,
    ensures
        labelled(screens, label) == Some(at),
        key_at(screens, label) == Some(screens[at].key),
    decreases at,
{
    if at > 0 {
        let rest = screens.skip(1);
        assert forall|i: int| 0 <= i < at - 1 implies (#[trigger] rest[i]).label != label by {
            assert(rest[i] == screens[i + 1]);
        }
        assert(screens[0].label != label);
        labels_find_their_window(rest, label, at - 1);
    }
}

/// A label that no window bears finds none.
pub proof fn unknown_labels_find_nothing(screens: Seq<ScreenView>, label: Seq<char>)
    requires
        forall|i: int| 0 <= i < screens.len() ==> (#[trigger] screens[i]).label != label,
    ensures
        labelled(screens, label) is None,
        key_at(screens, label) is None,
        woken(screens, label) == screens,
        !asleep(screens, label),
{
    lemma_labelled(screens, label);
}

/// Waking a window marks it awake exactly if it is hidden, and touches nothing else
/// of it or of any other window.
pub proof fn waking_marks_one_window(
    screens: Seq<ScreenView>,
    label: Seq<char>,
    at: int,
    i: int,
)
    requires
        labelled(screens, label) == Some(at),
        0 <= i < screens.len(),
    ensures
        woken(screens, label).len() == screens.len(),
        i != at ==> woken(screens, label)[i] == screens[i],
        woken(screens, label)[at].awake == (screens[at].hidden || screens[at].awake),
        woken(screens, label)[i] == (ScreenView {
            awake: woken(screens, label)[i].awake,
            ..screens[i]
        }),
{
    lemma_labelled(screens, label);
}

/// Only a stopped page has to be resumed before a dispatch, and once woken it does
/// not have to be again.
pub proof fn pages_are_resumed_once(screens: Seq<ScreenView>, label: Seq<char>, at: int)
    requires
        labelled(screens, label) == Some(at),
    ensures
        asleep(screens, label) <==> screens[at].hidden && !screens[at].awake,
        !asleep(woken(screens, label), label),
{
    lemma_labelled(screens, label);
    lemma_labels_stay(screens, woken(screens, label), label);
}

proof fn lemma_labels_stay(screens: Seq<ScreenView>, other: Seq<ScreenView>, label: Seq<char>)
    requires
        screens.len() == other.len(),
        forall|i: int| 0 <= i < screens.len() ==> (#[trigger] screens[i]).label == other[i].label,
    ensures
        labelled(screens, label) == labelled(other, label),
    decreases screens.len(),
{
    if screens.len() > 0 {
        let rest = screens.skip(1);
        let left = other.skip(1);
        assert forall|i: int| 0 <= i < rest.len() implies (#[trigger] rest[i]).label
            == left[i].label by {
            assert(rest[i] == screens[i + 1]);
        }
        assert(screens[0].label == other[0].label);
        lemma_labels_stay(rest, left, label);
    }
}

/// Pausing or resuming by hand sets every window the same way, stops what was awake,
/// and changes nothing else.
pub proof fn pausing_sets_every_window(screens: Seq<ScreenView>, paused: bool, i: int)
    requires
        0 <= i < screens.len(),
    ensures
        all_paused(screens, paused).len() == screens.len(),
        all_paused(screens, paused)[i].hidden == paused,
        !all_paused(screens, paused)[i].awake,
        all_paused(screens, paused)[i] == (ScreenView { hidden: paused, awake: false, ..screens[i]
        }),
{
}

/// A window is told to change exactly if its coverage differs from what it shows, and
/// then it is told its coverage.
pub proof fn changed_windows_are_told(
    screens: Seq<ScreenView>,
    covered: Seq<bool>,
    count: int,
    j: int,
)
    requires
        0 <= j < count <= screens.len(),
        covered.len() == screens.len(),
        screens[j].hidden != covered[j],
    ensures
        changes(screens, covered, count).contains((screens[j].label, covered[j])),
    decreases count,
{
    let before = changes(screens, covered, count - 1);
    let after = changes(screens, covered, count);
    let told = (screens[j].label, covered[j]);
    if j == count - 1 {
        assert(after[before.len() as int] == told);
    } else {
        changed_windows_are_told(screens, covered, count - 1, j);
        let i = choose|i: int| 0 <= i < before.len() && before[i] == told;
        assert(after[i] == told);
    }
}

/// Whatever is told to change is a window whose coverage differs from what it shows;
/// the changes come in the order of the windows.
pub proof fn told_windows_change(
    screens: Seq<ScreenView>,
    covered: Seq<bool>,
    count: int,
    i: int,
) -> (j: int)
    requires
        0 <= count <= screens.len(),
        covered.len() == screens.len(),
        0 <= i < changes(screens, covered, count).len(),
    ensures
        i <= j < count,
        screens[j].hidden != covered[j],
        changes(screens, covered, count)[i] == (screens[j].label, covered[j]),
    decreases count,
{
    lemma_fewer_changes(screens, covered, count - 1);
    if i < changes(screens, covered, count - 1).len() {
        told_windows_change(screens, covered, count - 1, i)
    } else {
        count - 1
    }
}

proof fn lemma_fewer_changes(screens: Seq<ScreenView>, covered: Seq<bool>, count: int)
    ensures
        count >= 0 ==> changes(screens, covered, count).len() <= count,
    decreases count,
{
    if count > 0 {
        lemma_fewer_changes(screens, covered, count - 1);
    }
}

/// A coverage check changes a window only where its coverage differs from what it
/// shows; what it does not change it leaves as it is, awake or not.
pub proof fn coverage_touches_changed_windows(
    screens: Seq<ScreenView>,
    covered: Seq<bool>,
    i: int,
)
    requires
        covered.len() == screens.len(),
        0 <= i < screens.len(),
    ensures
        uncovered(screens, covered).len() == screens.len(),
        covered[i] == screens[i].hidden ==> uncovered(screens, covered)[i] == screens[i],
        covered[i] != screens[i].hidden ==> uncovered(screens, covered)[i] == (ScreenView {
            hidden: covered[i],
            awake: false,
            ..screens[i]
        }),
{
}

/// The windows put back to sleep are exactly the hidden ones that were woken, each
/// once and in order.
pub proof fn woken_windows_are_parked(
    screens: Seq<ScreenView>,
    owed: spec_fn(ScreenView) -> bool,
    label: spec_fn(ScreenView) -> Seq<char>,
    count: int,
)
    requires
        owed == (|s: ScreenView| s.hidden && s.awake),
        label == (|s: ScreenView| s.label),
        0 <= count <= screens.len(),
    ensures
        to_park(screens, count) == screens.take(count).filter(owed).map_values(label),
    decreases count,
{
    reveal(Seq::filter);
    let all = screens.take(count);
    if count > 0 {
        woken_windows_are_parked(screens, owed, label, count - 1);
        assert(all.drop_last() == screens.take(count - 1));
        let shorter = all.drop_last().filter(owed);
        if owed(all.last()) {
            assert(shorter.push(all.last()).map_values(label) == shorter.map_values(label).push(
                screens[count - 1].label,
            ));
        }
    } else {
        assert(all.filter(owed).map_values(label) == Seq::<Seq<char>>::empty());
    }
}

/// Parking changes nothing but whether a hidden window is awake, and a second time
/// there is nothing to park.
pub proof fn parking_only_stops_pages(screens: Seq<ScreenView>, count: int, i: int)
    requires
        0 <= count <= screens.len(),
        0 <= i < screens.len(),
    ensures
        all_parked(screens).len() == screens.len(),
        all_parked(screens)[i] == (ScreenView { awake: all_parked(screens)[i].awake, ..screens[i]
        }),
        !screens[i].hidden ==> all_parked(screens)[i] == screens[i],
        to_park(all_parked(screens), count).len() == 0,
    decreases count,
{
    if count > 0 {
        parking_only_stops_pages(screens, count - 1, i);
    }
}

/// The windows that are placed are exactly those that show, each once, in order and
/// at its own bounds.
pub proof fn showing_windows_are_placed(
    screens: Seq<ScreenView>,
    showing: spec_fn(ScreenView) -> bool,
    place: spec_fn(ScreenView) -> (isize, Rect),
    count: int,
)
    requires
        showing == (|s: ScreenView| !s.hidden),
        place == (|s: ScreenView| (s.hwnd, s.bounds)),
        0 <= count <= screens.len(),
    ensures
        pinned(screens, count) == screens.take(count).filter(showing).map_values(place),
    decreases count,
{
    reveal(Seq::filter);
    let all = screens.take(count);
    if count > 0 {
        showing_windows_are_placed(screens, showing, place, count - 1);
        assert(all.drop_last() == screens.take(count - 1));
        let shorter = all.drop_last().filter(showing);
        if showing(all.last()) {
            assert(shorter.push(all.last()).map_values(place) == shorter.map_values(place).push(
                (screens[count - 1].hwnd, screens[count - 1].bounds),
            ));
        }
    } else {
        assert(all.filter(showing).map_values(place) == Seq::<(isize, Rect)>::empty());
    }
}

/// Every window that could be made is opened: it shows, on the bounds and for the
/// monitor of its target, with the label and module of its plan and what the settings
/// say of the margin and the alert.
pub proof fn made_windows_are_opened(
    targets: Seq<TargetView>,
    plans: Seq<WindowPlan>,
    handles: Seq<Option<isize>>,
    settings: SettingsView,
    count: int,
    i: int,
    hwnd: isize,
) -> (j: int)
    requires
        0 <= i < count,
        handles[i] == Some(hwnd),
    ensures
        0 <= j < opened_screens(targets, plans, handles, settings, count).len(),
        ({
            let screen = opened_screens(targets, plans, handles, settings, count)[j];
            &&& screen.hwnd == hwnd
            &&& screen.label == plans[i].label@
            &&& screen.module == plans[i].module@
            &&& screen.key == targets[i].key
            &&& screen.name == targets[i].name
            &&& screen.bounds == targets[i].bounds
            &&& screen.monitor == targets[i].monitor
            &&& screen.margin == settings.margin
            &&& screen.red_alert == settings.red_alert
            &&& !screen.hidden
            &&& !screen.awake
        }),
    decreases count,
{
    if i == count - 1 {
        opened_screens(targets, plans, handles, settings, count - 1).len() as int
    } else {
        made_windows_are_opened(targets, plans, handles, settings, count - 1, i, hwnd)
    }
}

/// Every open window was made, in the order of the targets.
pub proof fn open_windows_were_made(
    targets: Seq<TargetView>,
    plans: Seq<WindowPlan>,
    handles: Seq<Option<isize>>,
    settings: SettingsView,
    count: int,
    j: int,
) -> (i: int)
    requires
        0 <= count,
        0 <= j < opened_screens(targets, plans, handles, settings, count).len(),
    ensures
        j <= i < count,
        handles[i] == Some(opened_screens(targets, plans, handles, settings, count)[j].hwnd),
        opened_screens(targets, plans, handles, settings, count)[j].label == plans[i].label@,
    decreases count,
{
    lemma_fewer_windows(targets, plans, handles, settings, count - 1);
    if j < opened_screens(targets, plans, handles, settings, count - 1).len() {
        open_windows_were_made(targets, plans, handles, settings, count - 1, j)
    } else {
        count - 1
    }
}

proof fn lemma_fewer_windows(
    targets: Seq<TargetView>,
    plans: Seq<WindowPlan>,
    handles: Seq<Option<isize>>,
    settings: SettingsView,
    count: int,
)
    ensures
        count >= 0 ==> opened_screens(targets, plans, handles, settings, count).len() <= count,
    decreases count,
{
    if count > 0 {
        lemma_fewer_windows(targets, plans, handles, settings, count - 1);
    }
}

/// A window that runs is resumed, drawn and shown; one that does not is hidden, not
/// drawn and stopped.
pub proof fn running_windows_show()
    ensures
        running_steps(true).contains(WindowStep::Resume),
        running_steps(true).contains(WindowStep::SetVisible(true)),
        running_steps(true).contains(WindowStep::Show),
        !running_steps(true).contains(WindowStep::Hide),
        !running_steps(true).contains(WindowStep::Suspend),
        running_steps(false).contains(WindowStep::Hide),
        running_steps(false).contains(WindowStep::SetVisible(false)),
        running_steps(false).contains(WindowStep::Suspend),
        !running_steps(false).contains(WindowStep::Show),
        !running_steps(false).contains(WindowStep::Resume),
{
    let on = running_steps(true);
    assert(on[0] == WindowStep::Resume && on[1] == WindowStep::SetVisible(true) && on[2]
        == WindowStep::Show);
    let off = running_steps(false);
    assert(off[0] == WindowStep::Hide && off[1] == WindowStep::SetVisible(false) && off[2]
        == WindowStep::Suspend);
}

/// Windows pause on their own only while the wallpaper is not paused by hand and any
/// is open: when covered, if the settings ask for that, else for a full-screen
/// application, if the settings ask for that.
pub proof fn windows_pause_as_set(settings: SettingsView, paused: bool, count: nat)
    ensures
        paused ==> pause_mode(settings, paused, count) == AutoPause::Never,
        count == 0 ==> pause_mode(settings, paused, count) == AutoPause::Never,
        !paused && count > 0 && settings.pause_when_covered ==> pause_mode(settings, paused, count)
            == AutoPause::WhenCovered,
        !paused && count > 0 && !settings.pause_when_covered && settings.pause_on_fullscreen
            ==> pause_mode(settings, paused, count) == AutoPause::OnFullscreen,
        !settings.pause_when_covered && !settings.pause_on_fullscreen ==> pause_mode(
            settings,
            paused,
            count,
        ) == AutoPause::Never,
{
}

/// A full-screen application counts on the whole monitor; other windows count over
/// the wallpaper's own bounds.
pub proof fn coverage_is_asked_in_its_place(screen: ScreenView)
    ensures
        AutoPause::OnFullscreen.asks(screen) == CoverageQuestion::Fullscreen(screen.monitor),
        AutoPause::WhenCovered.asks(screen) == CoverageQuestion::Windows(screen.bounds),
        AutoPause::Never.asks(screen) == CoverageQuestion::Nothing,
{
}

/// Shuffling gives each window the module that the settings show on its monitor, for
/// the pick rolled for that very window, and changes nothing else.
pub proof fn shuffling_changes_modules_only(
    settings: SettingsView,
    screens: Seq<ScreenView>,
    shared: Seq<char>,
    rolls: Seq<Seq<char>>,
    i: int,
)
    requires
        0 <= i < screens.len(),
    ensures
        shuffled(settings, screens, shared, rolls).len() == screens.len(),
        shuffled(settings, screens, shared, rolls)[i] == (ScreenView {
            module: settings.module_shown(screens[i].key, shared, rolls[i]),
            ..screens[i]
        }),
{
}

/// Each window's monitor is told the module of that window, and nothing else is told.
pub proof fn modules_go_to_their_monitor(screens: Seq<ScreenView>, i: int)
    requires
        0 <= i < screens.len(),
    ensures
        module_dispatches(screens).len() == screens.len(),
        module_dispatches(screens)[i].key == Some(screens[i].key),
        module_dispatches(screens)[i].action == Action::SetActiveModule,
        module_dispatches(screens)[i].payload == PayloadView::Text(screens[i].module),
{
}

/// Sound that goes on is switched on first and then set to both volumes; sound that
/// goes off is switched off and nothing more.
pub proof fn sound_is_set_as_chosen(settings: SettingsView, key: Option<Seq<char>>)
    ensures
        audio_dispatches(settings, key, true) == seq![
            DispatchView { key, action: Action::AudioOn, payload: PayloadView::Null },
            DispatchView {
                key,
                action: Action::SetSfxVolume,
                payload: PayloadView::Number(settings.sfx_volume),
            },
            DispatchView {
                key,
                action: Action::SetSbgVolume,
                payload: PayloadView::Number(settings.engine_volume),
            },
        ],
        audio_dispatches(settings, key, false) == seq![
            DispatchView { key, action: Action::AudioOff, payload: PayloadView::Null },
        ],
{
}

/// Everything that a page is told when it starts goes to its own monitor.
pub proof fn starting_pages_are_told_alone(settings: SettingsView, key: Seq<char>, i: int)
    requires
        0 <= i < boot_dispatches(settings, key).len(),
    ensures
        boot_dispatches(settings, key)[i].key == Some(key),
{
}

/// A page that starts is told that borders do not follow the mouse, and beyond that
/// its margin, its filter, its sound and its alert, each exactly if it is not what a
/// page starts with.
pub proof fn starting_pages_are_told_the_settings(
    settings: SettingsView,
    key: Seq<char>,
    said: DispatchView,
)
    ensures
        boot_dispatches(settings, key).contains(said) <==> said.key == Some(key) && match said.action {
            Action::SetBorderOnMouseOver => said.payload == PayloadView::Bool(false),
            Action::SetMargin => settings.margin > 0 && said.payload == PayloadView::Whole(
                settings.margin as u64,
            ),
            Action::ToggleFilterEffects => settings.filter != "none"@ && said.payload
                == PayloadView::Text(settings.filter),
            Action::AudioOn => settings.audio && said.payload == PayloadView::Null,
            Action::AudioOff => !settings.audio && said.payload == PayloadView::Null,
            Action::SetSfxVolume => settings.audio && said.payload == PayloadView::Number(
                settings.sfx_volume,
            ),
            Action::SetSbgVolume => settings.audio && said.payload == PayloadView::Number(
                settings.engine_volume,
            ),
            Action::SetRedAlert => settings.red_alert && said.payload == PayloadView::RedAlert(
                true,
            ),
            Action::SetActiveModule => false,
            Action::SystemInfoUpdated => false,
        },
{
    let all = boot_dispatches(settings, key);
    let margin: int = if settings.margin > 0 {
        1
    } else {
        0
    };
    let filter: int = if settings.filter != "none"@ {
        1
    } else {
        0
    };
    let audio: int = if settings.audio {
        3
    } else {
        1
    };
    let alert: int = if settings.red_alert {
        1
    } else {
        0
    };
    assert(all.len() == 1 + margin + filter + audio + alert);
    assert(all[0].action == Action::SetBorderOnMouseOver);
    assert(margin == 1 ==> all[1].action == Action::SetMargin);
    assert(filter == 1 ==> all[1 + margin].action == Action::ToggleFilterEffects);
    assert(audio == 1 ==> all[1 + margin + filter].action == Action::AudioOff);
    assert(audio == 3 ==> all[1 + margin + filter].action == Action::AudioOn);
    assert(audio == 3 ==> all[2 + margin + filter].action == Action::SetSfxVolume);
    assert(audio == 3 ==> all[3 + margin + filter].action == Action::SetSbgVolume);
    assert(alert == 1 ==> all[1 + margin + filter + audio].action == Action::SetRedAlert);
    if all.contains(said) {
        let i = choose|i: int| 0 <= i < all.len() && all[i] == said;
        assert(0 <= i < 7);
    }
}

/// A shuffle is due once as many minutes have passed as the settings say, and never
/// while they say none.
pub proof fn shuffles_come_on_time(minutes: u64, elapsed_secs: u64)
    ensures
        !shuffle_is_due(0, elapsed_secs),
        minutes > 0 ==> (shuffle_is_due(minutes, elapsed_secs) <==> elapsed_secs >= 60 * minutes),
{
}

/// Only windows in Progman are on the fallback host.
pub proof fn progman_is_the_fallback(host: Host)
    ensures
        !on_fallback(None),
        on_fallback(Some(host)) <==> host.mode == HostMode::Progman,
{
}

/// In a proper host that lives, a surface found elsewhere is of no account: only the
/// places of the windows decide, and a shuffle comes exactly when it is due.
pub proof fn proper_host_is_kept(
    host: Host,
    signature: Seq<SpotView>,
    facts: TickFacts,
    worker: isize,
    current: Seq<SpotView>,
)
    requires
        !facts.on_fallback_host || worker == 0,
    ensures
        current == signature ==> tick_outcome(Some(host), signature, facts, true, worker, current)
            == (TickStep::Settle { shuffle: facts.shuffle_due }),
        current != signature ==> tick_outcome(Some(host), signature, facts, true, worker, current)
            == TickStep::Relayout,
{
}

/// A page that is ready gets its settings. A page that asks for the load of the
/// machine gets it for its own monitor, exactly if that is allowed and the window is
/// known. Nothing else is answered.
pub proof fn pages_get_what_they_ask_for(
    settings: SettingsView,
    screens: Seq<ScreenView>,
    label: Seq<char>,
    action: Seq<char>,
    key: Seq<char>,
)
    ensures
        renderer_step(settings, screens, label, action) == RendererStepView::ApplySettings <==> action
            == "webapp-ready"@,
        renderer_step(settings, screens, label, action) == RendererStepView::SystemInfo(key)
            <==> action == "request-system-info"@ && settings.system_info && key_at(screens, label)
            == Some(key),
{
    reveal_strlit("webapp-ready");
    reveal_strlit("request-system-info");
    assert("webapp-ready"@.len() == 12);
    assert("request-system-info"@.len() == 19);
}

/// What a page reports of its margin or its alert is kept for its own window, zero
/// and off where it reports none; a margin too large for its byte wraps round. No
/// other window and nothing else of this one changes.
pub proof fn reports_are_kept_for_their_window(
    screens: Seq<ScreenView>,
    label: Seq<char>,
    action: Seq<char>,
    report: Report,
    at: int,
    i: int,
)
    requires
        labelled(screens, label) == Some(at),
        0 <= i < screens.len(),
    ensures
        reported(screens, label, action, report).len() == screens.len(),
        i != at ==> reported(screens, label, action, report)[i] == screens[i],
        reported(screens, label, action, report)[at] == (ScreenView {
            margin: reported(screens, label, action, report)[at].margin,
            red_alert: reported(screens, label, action, report)[at].red_alert,
            ..screens[at]
        }),
        action == "screen-margin-updated"@ ==> (report.margin_style matches Some(style)
            ==> reported(screens, label, action, report)[at].margin == style % 256),
        action == "screen-margin-updated"@ && report.margin_style is None ==> reported(
            screens,
            label,
            action,
            report,
        )[at].margin == 0,
        action != "screen-margin-updated"@ ==> reported(screens, label, action, report)[at].margin
            == screens[at].margin,
        action == "red-alert-updated"@ ==> reported(screens, label, action, report)[at].red_alert
            == (report.red_alert_active == Some(true)),
        action != "red-alert-updated"@ ==> reported(screens, label, action, report)[at].red_alert
            == screens[at].red_alert,
{
    lemma_labelled(screens, label);
    reveal_strlit("screen-margin-updated");
    reveal_strlit("red-alert-updated");
    assert("screen-margin-updated"@.len() == 21);
    assert("red-alert-updated"@.len() == 17);
}


/// What a page reports of itself is what it is told when it asks again; a page of no
/// known window is told that it has no alert and no margin.
pub proof fn reports_read_back(
    screens: Seq<ScreenView>,
    label: Seq<char>,
    report: Report,
    style: u64,
    alert: bool,
)
    requires
        report.margin_style == Some(style),
        report.red_alert_active == Some(alert),
        style < 256,
    ensures
        labelled(screens, label) is Some ==> {
            let first = reported(screens, label, "screen-margin-updated"@, report);
            let both = reported(first, label, "red-alert-updated"@, report);
            known_state(both, label) == (alert, style as u8)
        },
        labelled(screens, label) is None ==> known_state(screens, label) == (false, 0u8),
{
    reveal_strlit("screen-margin-updated");
    reveal_strlit("red-alert-updated");
    assert("screen-margin-updated"@.len() == 21);
    assert("red-alert-updated"@.len() == 17);
    lemma_labelled(screens, label);
    let first = reported(screens, label, "screen-margin-updated"@, report);
    let both = reported(first, label, "red-alert-updated"@, report);
    if labelled(screens, label) is Some {
        lemma_labels_stay(screens, first, label);
        lemma_labels_stay(first, both, label);
    }
}

/// A dispatch is written with the name of its action and the value of its payload.
pub proof fn dispatches_are_written_out(said: DispatchView, json: Seq<char>, digits: Seq<char>)
    ensures
        said.payload.json() == Some(json) ==> said.script(digits) == dispatch_script(
            said.action.text(),
            json,
        ),
        said.payload.json() is None ==> said.script(digits) == dispatch_script(
            said.action.text(),
            digits,
        ),
{
}


/// Every window counts as one of the wallpaper's own, hidden or not.
pub proof fn every_window_is_our_own(screens: Seq<ScreenView>, i: int)
    requires
        0 <= i < screens.len(),
    ensures
        handles_of(screens).len() == screens.len(),
        handles_of(screens)[i] == screens[i].hwnd,
        handles_of(screens).contains(screens[i].hwnd),
{
    assert(handles_of(screens)[i] == screens[i].hwnd);
}

/// A page of a window that is known is told its settings, hidden or not; any other is
/// told nothing.
pub proof fn known_pages_are_told_the_settings(
    settings: SettingsView,
    screens: Seq<ScreenView>,
    label: Seq<char>,
    at: int,
)
    ensures
        labelled(screens, label) == Some(at) ==> start_dispatches(settings, screens, label)
            == boot_dispatches(settings, screens[at].key),
        labelled(screens, label) is None ==> start_dispatches(settings, screens, label).len() == 0,
{
}

} // verus!
