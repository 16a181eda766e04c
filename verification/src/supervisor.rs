//! What keeps the wallpaper going: watching the desktop, and answering the pages.

use crate::desktop::{Host, HostMode};
use crate::json::{bool_field, bool_fields, whole_field, whole_fields};
use crate::layout::{same_signature, spot_views, Spot, SpotView};
use crate::settings::SettingsView;
use crate::text::same;
use crate::wallpaper::{
    all_parked, all_paused, changes, key_at, labelled, lemma_labelled, receivers, shuffled,
    uncovered, woken, ScreenView, State,
};
use vstd::prelude::*;

verus! {

/// What is settled at the start of a tick.
#[derive(Clone, Copy, Debug, PartialEq, Eq, Structural)]
pub struct TickFacts {
    /// The windows had to settle for Progman.
    pub on_fallback_host: bool,
    pub shuffle_due: bool,
}

/// What a tick has learned.
pub enum TickEvent {
    Started,
    /// Whether the host window still exists.
    HostAlive(bool),
    /// The wallpaper surface, 0 for none.
    Worker(isize),
    /// What the windows would look like right now.
    Layout(Vec<Spot>),
}

/// What a tick has learned, as values.
pub enum TickEventView {
    Started,
    HostAlive(bool),
    Worker(isize),
    Layout(Seq<SpotView>),
}

impl View for TickEvent {
    type V = TickEventView;

    open spec fn view(&self) -> TickEventView {
        match self {
            TickEvent::Started => TickEventView::Started,
            TickEvent::HostAlive(alive) => TickEventView::HostAlive(*alive),
            TickEvent::Worker(worker) => TickEventView::Worker(*worker),
            TickEvent::Layout(spots) => TickEventView::Layout(spot_views(spots@)),
        }
    }
}

/// What a tick does next.
#[derive(Clone, Copy, Debug, PartialEq, Eq, Structural)]
pub enum TickStep {
    /// Find out whether this host still exists.
    AskHost(Host),
    /// Find out whether there is a wallpaper surface.
    AskWorker,
    /// Find out what the windows would look like.
    AskLayout,
    /// Open the windows again. Explorer restarting takes the host and every child
    /// with it, and a proper wallpaper surface is better than Progman.
    Rebuild,
    /// The monitors changed: redo the flat background, which is cut to the size of
    /// the desktop, open the windows again and refresh the menu.
    Relayout,
    /// All is well: shuffle if it is time, then park the windows that were woken.
    Settle { shuffle: bool },
}

/// Whether the windows sit in Progman for want of a WorkerW.
pub open spec fn on_fallback(host: Option<Host>) -> bool {
    host matches Some(host) && host.mode == HostMode::Progman
}

/// Whether it is time for new modules, given the seconds since the last ones.
pub open spec fn shuffle_is_due(minutes: u64, elapsed_secs: u64) -> bool {
    minutes > 0 && elapsed_secs >= minutes * 60
}

/// What follows an event.
pub open spec fn tick_step(
    host: Option<Host>,
    signature: Seq<SpotView>,
    facts: TickFacts,
    event: TickEventView,
) -> TickStep {
    match event {
        TickEventView::Started => match host {
            Some(host) => TickStep::AskHost(host),
            None => TickStep::Rebuild,
        },
        TickEventView::HostAlive(alive) => if !alive {
            TickStep::Rebuild
        } else if facts.on_fallback_host {
            TickStep::AskWorker
        } else {
            TickStep::AskLayout
        },
        TickEventView::Worker(worker) => if worker != 0 {
            TickStep::Rebuild
        } else {
            TickStep::AskLayout
        },
        TickEventView::Layout(current) => if current != signature {
            TickStep::Relayout
        } else {
            TickStep::Settle { shuffle: facts.shuffle_due }
        },
    }
}

impl State {
    /// What a tick starts from, given the seconds since the last shuffle.
    pub fn tick_facts(&self, elapsed_secs: u64) -> (facts: TickFacts)
        ensures
            facts.on_fallback_host == (self.host matches Some(host) && host.mode
                == HostMode::Progman),
            facts.on_fallback_host == on_fallback(self.host),
            facts.shuffle_due == shuffle_is_due(self.settings.shuffle_minutes, elapsed_secs),
    {
        let minutes = self.settings.shuffle_minutes;
        TickFacts {
            on_fallback_host: match self.host {
                Some(host) => host.mode == HostMode::Progman,
                None => false,
            },
            shuffle_due: minutes > 0 && elapsed_secs / 60 >= minutes,
        }
    }

    /// Keeps the windows attached and in place, and rotates modules on a timer. The
    /// caller finds out what it asks for and comes back with the answer.
    pub fn tick(&self, facts: TickFacts, event: &TickEvent) -> (step: TickStep)
        ensures
            step == tick_step(self.host, spot_views(self.signature@), facts, event@),
    {
        match event {
            TickEvent::Started => match self.host {
                Some(host) => TickStep::AskHost(host),
                None => TickStep::Rebuild,
            },
            TickEvent::HostAlive(alive) => if !*alive {
                TickStep::Rebuild
            } else if facts.on_fallback_host {
                TickStep::AskWorker
            } else {
                TickStep::AskLayout
            },
            TickEvent::Worker(worker) => if *worker != 0 {
                TickStep::Rebuild
            } else {
                TickStep::AskLayout
            },
            TickEvent::Layout(current) => if !same_signature(current, &self.signature) {
                TickStep::Relayout
            } else {
                TickStep::Settle { shuffle: facts.shuffle_due }
            },
        }
    }
}

/// The step a tick comes to when it finds the desktop in a given shape: the answers
/// it would get to whatever it asks.
pub open spec fn tick_outcome(
    host: Option<Host>,
    signature: Seq<SpotView>,
    facts: TickFacts,
    alive: bool,
    worker: isize,
    current: Seq<SpotView>,
) -> TickStep {
    let first = tick_step(host, signature, facts, TickEventView::Started);
    if first is AskHost {
        let second = tick_step(host, signature, facts, TickEventView::HostAlive(alive));
        let third = if second == TickStep::AskWorker {
            tick_step(host, signature, facts, TickEventView::Worker(worker))
        } else {
            second
        };
        if third == TickStep::AskLayout {
            tick_step(host, signature, facts, TickEventView::Layout(current))
        } else {
            third
        }
    } else {
        first
    }
}

/// A lost host always brings the windows back: whatever else a tick would find, it
/// opens them again.
pub proof fn lost_host_is_rebuilt(
    host: Option<Host>,
    signature: Seq<SpotView>,
    facts: TickFacts,
    alive: bool,
    worker: isize,
    current: Seq<SpotView>,
)
    requires
        host is None || !alive,
    ensures
        tick_outcome(host, signature, facts, alive, worker, current) == TickStep::Rebuild,
{
}

/// With the host in place, a changed arrangement of the monitors is always noticed,
/// unless the windows move to a better host anyway.
pub proof fn changed_layout_is_noticed(
    host: Host,
    signature: Seq<SpotView>,
    facts: TickFacts,
    worker: isize,
    current: Seq<SpotView>,
)
    requires
        current != signature,
    ensures
        ({
            let outcome = tick_outcome(Some(host), signature, facts, true, worker, current);
            outcome == TickStep::Relayout || (outcome == TickStep::Rebuild
                && facts.on_fallback_host && worker != 0)
        }),
{
}

/// A tick on a healthy desktop changes nothing but the modules, and those only when
/// it is time.
pub proof fn healthy_desktop_settles(
    host: Host,
    signature: Seq<SpotView>,
    facts: TickFacts,
)
    ensures
        tick_outcome(Some(host), signature, facts, true, 0, signature) == (TickStep::Settle {
            shuffle: facts.shuffle_due,
        }),
{
}

/// Windows on Progman move over as soon as Explorer produces a proper surface.
pub proof fn fallback_host_is_left(
    host: Host,
    signature: Seq<SpotView>,
    facts: TickFacts,
    worker: isize,
    current: Seq<SpotView>,
)
    requires
        facts.on_fallback_host,
        worker != 0,
    ensures
        tick_outcome(Some(host), signature, facts, true, worker, current) == TickStep::Rebuild,
{
}

/// What a page reported along with its action.
pub struct Report {
    pub margin_style: Option<u64>,
    pub red_alert_active: Option<bool>,
}

/// What a field of a payload holds, where there is a payload and it has the field.
pub open spec fn whole_in(payload: Option<serde_json::Value>, name: Seq<char>) -> Option<u64> {
    match payload {
        Some(value) => if whole_fields(value).contains_key(name) {
            Some(whole_fields(value)[name])
        } else {
            None
        },
        None => None,
    }
}

pub open spec fn bool_in(payload: Option<serde_json::Value>, name: Seq<char>) -> Option<bool> {
    match payload {
        Some(value) => if bool_fields(value).contains_key(name) {
            Some(bool_fields(value)[name])
        } else {
            None
        },
        None => None,
    }
}

impl Report {
    /// Reads what a page sent along.
    pub fn read(payload: &Option<serde_json::Value>) -> (report: Report)
        ensures
            report.margin_style == whole_in(*payload, "marginStyle"@),
            report.red_alert_active == bool_in(*payload, "redAlertActive"@),
    {
        match payload {
            Some(value) => Report {
                margin_style: whole_field(value, "marginStyle"),
                red_alert_active: bool_field(value, "redAlertActive"),
            },
            None => Report { margin_style: None, red_alert_active: None },
        }
    }
}

/// What a page's action asks for.
pub enum RendererStep {
    Nothing,
    /// Send the page everything it needs to match the settings.
    ApplySettings,
    /// Send a reading of the system to this monitor.
    SystemInfo(String),
}

/// What a page's action asks for, as a value.
pub enum RendererStepView {
    Nothing,
    ApplySettings,
    SystemInfo(Seq<char>),
}

impl View for RendererStep {
    type V = RendererStepView;

    open spec fn view(&self) -> RendererStepView {
        match self {
            RendererStep::Nothing => RendererStepView::Nothing,
            RendererStep::ApplySettings => RendererStepView::ApplySettings,
            RendererStep::SystemInfo(key) => RendererStepView::SystemInfo(key@),
        }
    }
}

/// What an action from the window with a given label asks for.
pub open spec fn renderer_step(
    settings: SettingsView,
    screens: Seq<ScreenView>,
    label: Seq<char>,
    action: Seq<char>,
) -> RendererStepView {
    if action == "webapp-ready"@ {
        RendererStepView::ApplySettings
    } else if action == "request-system-info"@ && settings.system_info {
        match key_at(screens, label) {
            Some(key) => RendererStepView::SystemInfo(key),
            None => RendererStepView::Nothing,
        }
    } else {
        RendererStepView::Nothing
    }
}

/// The margin a page reported, cut to a byte; none is no margin.
pub open spec fn reported_margin(report: Report) -> u8 {
    match report.margin_style {
        Some(style) => (style % 256) as u8,
        None => 0,
    }
}

pub open spec fn reported_alert(report: Report) -> bool {
    match report.red_alert_active {
        Some(active) => active,
        None => false,
    }
}

/// The windows after an action: the one it came from may have changed its margin or
/// its alert.
pub open spec fn reported(
    screens: Seq<ScreenView>,
    label: Seq<char>,
    action: Seq<char>,
    report: Report,
) -> Seq<ScreenView> {
    match labelled(screens, label) {
        Some(at) => if action == "screen-margin-updated"@ {
            screens.update(at, ScreenView { margin: reported_margin(report), ..screens[at] })
        } else if action == "red-alert-updated"@ {
            screens.update(at, ScreenView { red_alert: reported_alert(report), ..screens[at] })
        } else {
            screens
        },
        None => screens,
    }
}

proof fn lemma_actions_differ()
    ensures
        "webapp-ready"@ != "request-system-info"@,
        "webapp-ready"@ != "screen-margin-updated"@,
        "webapp-ready"@ != "red-alert-updated"@,
        "request-system-info"@ != "screen-margin-updated"@,
        "request-system-info"@ != "red-alert-updated"@,
        "screen-margin-updated"@ != "red-alert-updated"@,
{
    reveal_strlit("webapp-ready");
    reveal_strlit("request-system-info");
    reveal_strlit("screen-margin-updated");
    reveal_strlit("red-alert-updated");
    assert("webapp-ready"@.len() == 12);
    assert("request-system-info"@.len() == 19);
    assert("screen-margin-updated"@.len() == 21);
    assert("red-alert-updated"@.len() == 17);
}

impl State {
    /// Handles an action from a page. Only the window that asks is answered with a
    /// reading: telling all of them would wake the ones that were suspended for
    /// having nothing to show.
    pub fn renderer_action(
        &mut self,
        label: &str,
        action: &str,
        report: &Report,
    ) -> (step: RendererStep)
        requires
            old(self).wf(),
        ensures
            final(self).wf(),
            final(self).same_around(old(self)),
            final(self).paused == old(self).paused,
            final(self).views() == reported(old(self).views(), label@, action@, *report),
            step@ == renderer_step(old(self).settings@, old(self).views(), label@, action@),
    {
        proof {
            lemma_actions_differ();
        }
        if same(action, "webapp-ready") {
            return RendererStep::ApplySettings;
        }
        if same(action, "request-system-info") {
            if !self.settings.system_info {
                return RendererStep::Nothing;
            }
            return match self.key_of(label) {
                Some(key) => RendererStep::SystemInfo(key),
                None => RendererStep::Nothing,
            };
        }
        if same(action, "screen-margin-updated") {
            let margin: u8 = match report.margin_style {
                Some(style) => (style % 256) as u8,
                None => 0,
            };
            if let Some(at) = self.find(label) {
                assert(self.views()[at as int] == self.screens@[at as int]@);
                self.screens[at].margin = margin;
            }
            assert(self.views() == reported(old(self).views(), label@, action@, *report));
        } else if same(action, "red-alert-updated") {
            let active = match report.red_alert_active {
                Some(active) => active,
                None => false,
            };
            if let Some(at) = self.find(label) {
                assert(self.views()[at as int] == self.screens@[at as int]@);
                self.screens[at].red_alert = active;
            }
            assert(self.views() == reported(old(self).views(), label@, action@, *report));
        }
        RendererStep::Nothing
    }
}

/// Pausing by hand hides every window, and resuming shows every one of them again;
/// nothing else about them changes.
pub proof fn pause_and_resume(screens: Seq<ScreenView>, i: int)
    requires
        0 <= i < screens.len(),
    ensures
        all_paused(screens, true)[i].hidden,
        !all_paused(all_paused(screens, true), false)[i].hidden,
        all_paused(all_paused(screens, true), false)[i] == (ScreenView {
            hidden: false,
            awake: false,
            ..screens[i]
        }),
{
}

/// After a coverage check every window is hidden exactly if it is covered.
pub proof fn hidden_exactly_when_covered(screens: Seq<ScreenView>, covered: Seq<bool>, i: int)
    requires
        covered.len() == screens.len(),
        0 <= i < screens.len(),
    ensures
        uncovered(screens, covered)[i].hidden == covered[i],
{
}

/// A second check that finds the same changes nothing.
pub proof fn same_coverage_changes_nothing(screens: Seq<ScreenView>, covered: Seq<bool>, count: int)
    requires
        covered.len() == screens.len(),
        0 <= count <= screens.len(),
    ensures
        changes(uncovered(screens, covered), covered, count) == Seq::<(Seq<char>, bool)>::empty(),
        uncovered(uncovered(screens, covered), covered) == uncovered(screens, covered),
    decreases count,
{
    if count > 0 {
        same_coverage_changes_nothing(screens, covered, count - 1);
    }
    assert(uncovered(uncovered(screens, covered), covered) =~= uncovered(screens, covered));
}

/// Each monitor is handled separately: whether one window is hidden depends on its
/// own coverage alone.
pub proof fn screens_pause_independently(
    screens: Seq<ScreenView>,
    covered: Seq<bool>,
    other: Seq<bool>,
    i: int,
)
    requires
        covered.len() == screens.len(),
        other.len() == screens.len(),
        0 <= i < screens.len(),
        covered[i] == other[i],
    ensures
        uncovered(screens, covered)[i] == uncovered(screens, other)[i],
{
}

/// A page that is about to get a dispatch runs: its window shows, or was woken.
pub proof fn dispatched_pages_run(screens: Seq<ScreenView>, label: Seq<char>)
    ensures
        labelled(screens, label) matches Some(at) ==> !woken(screens, label)[at].hidden || woken(
            screens,
            label,
        )[at].awake,
{
    lemma_labelled(screens, label);
}

/// Waking a window never shows it.
pub proof fn waking_shows_nothing(screens: Seq<ScreenView>, label: Seq<char>, i: int)
    requires
        0 <= i < screens.len(),
    ensures
        woken(screens, label)[i].hidden == screens[i].hidden,
{
    lemma_labelled(screens, label);
}

/// After parking, no hidden window is awake.
pub proof fn parking_leaves_none_awake(screens: Seq<ScreenView>, i: int)
    requires
        0 <= i < screens.len(),
    ensures
        all_parked(screens)[i].hidden ==> !all_parked(screens)[i].awake,
{
}

/// A dispatch without a monitor goes to every window.
pub proof fn broadcast_reaches_everyone(screens: Seq<ScreenView>, count: int)
    requires
        0 <= count <= screens.len(),
    ensures
        receivers(screens, None, count) == screens.take(count).map_values(
            |s: ScreenView| s.label,
        ),
    decreases count,
{
    if count > 0 {
        broadcast_reaches_everyone(screens, count - 1);
        let shorter = screens.take(count - 1).map_values(|s: ScreenView| s.label);
        let longer = screens.take(count).map_values(|s: ScreenView| s.label);
        assert(longer == shorter.push(screens[count - 1].label));
    } else {
        assert(screens.take(0).map_values(|s: ScreenView| s.label) == Seq::<Seq<char>>::empty());
    }
}

/// A dispatch for one monitor goes to windows on that monitor only.
pub proof fn dispatch_stays_on_its_monitor(
    screens: Seq<ScreenView>,
    key: Seq<char>,
    count: int,
    i: int,
)
    requires
        0 <= count <= screens.len(),
        0 <= i < receivers(screens, Some(key), count).len(),
    ensures
        exists|j: int|
            0 <= j < count && (#[trigger] screens[j]).key == key && screens[j].label == receivers(
                screens,
                Some(key),
                count,
            )[i],
    decreases count,
{
    if count > 0 {
        let before = receivers(screens, Some(key), count - 1);
        if i < before.len() {
            dispatch_stays_on_its_monitor(screens, key, count - 1, i);
            let j = choose|j: int|
                0 <= j < count - 1 && (#[trigger] screens[j]).key == key && screens[j].label
                    == before[i];
            assert(screens[j].label == receivers(screens, Some(key), count)[i]);
        } else {
            assert(screens[count - 1].label == receivers(screens, Some(key), count)[i]);
        }
    }
}

/// Shuffling windows that share one scene leaves them all with the same module.
pub proof fn shared_scene_shuffles_together(
    settings: SettingsView,
    screens: Seq<ScreenView>,
    shared: Seq<char>,
    rolls: Seq<Seq<char>>,
    i: int,
    j: int,
)
    requires
        settings.one_scene(),
        0 <= i < screens.len(),
        0 <= j < screens.len(),
    ensures
        shuffled(settings, screens, shared, rolls)[i].module == shuffled(
            settings,
            screens,
            shared,
            rolls,
        )[j].module,
{
}

} // verus!
