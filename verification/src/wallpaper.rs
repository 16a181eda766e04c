//! The wallpaper windows: opening them, pausing them, and talking to the pages in
//! them.

use crate::binary64::Binary64;
use crate::bridge::{dispatch_call, dispatch_script, Action, Payload, PayloadView};
use crate::desktop::{can_place, place, reachable, refresh, repainted, Host, HostMode, Placement};
use crate::geometry::Rect;
use crate::layout::{
    layout_signature, signature_of, spot_views, target_views, Spot, Target, WindowPlan,
};
use crate::settings::{optional, texts, Settings, SettingsView};
use crate::text::same;
use vstd::prelude::*;

verus! {

/// One wallpaper window, bound to one monitor (or to all of them in span layout).
pub struct Screen {
    pub label: String,
    pub key: String,
    pub name: String,
    pub bounds: Rect,
    pub monitor: Rect,
    pub hwnd: isize,
    pub module: String,
    /// Not showing, and therefore not rendering either.
    pub hidden: bool,
    /// A hidden window that had to be woken to receive a dispatch, and is owed a
    /// suspend again on the next tick.
    pub awake: bool,
    pub red_alert: bool,
    pub margin: u8,
}

/// One wallpaper window, as values.
pub struct ScreenView {
    pub label: Seq<char>,
    pub key: Seq<char>,
    pub name: Seq<char>,
    pub bounds: Rect,
    pub monitor: Rect,
    pub hwnd: isize,
    pub module: Seq<char>,
    pub hidden: bool,
    pub awake: bool,
    pub red_alert: bool,
    pub margin: u8,
}

impl View for Screen {
    type V = ScreenView;

    open spec fn view(&self) -> ScreenView {
        ScreenView {
            label: self.label@,
            key: self.key@,
            name: self.name@,
            bounds: self.bounds,
            monitor: self.monitor,
            hwnd: self.hwnd,
            module: self.module@,
            hidden: self.hidden,
            awake: self.awake,
            red_alert: self.red_alert,
            margin: self.margin,
        }
    }
}

pub open spec fn screen_views(screens: Seq<Screen>) -> Seq<ScreenView> {
    screens.map_values(|s: Screen| s@)
}

/// Everything known about the wallpaper.
pub struct State {
    pub settings: Settings,
    pub host: Option<Host>,
    pub screens: Vec<Screen>,
    pub signature: Vec<Spot>,
    pub paused: bool,
}

impl State {
    pub open spec fn views(&self) -> Seq<ScreenView> {
        screen_views(self.screens@)
    }

    /// Only a hidden window is ever kept awake.
    pub open spec fn wf(&self) -> bool {
        forall|i: int|
            0 <= i < self.screens@.len() ==> (#[trigger] self.screens@[i]).awake
                ==> self.screens@[i].hidden
    }

    /// Whether everything but the windows themselves is as it was.
    pub open spec fn same_around(&self, other: &State) -> bool {
        &&& self.settings == other.settings
        &&& self.host == other.host
        &&& self.signature == other.signature
    }

    /// No windows yet.
    pub fn new(settings: Settings) -> (state: State)
        ensures
            state.wf(),
            state.settings == settings,
            state.host is None,
            state.screens@.len() == 0,
            state.signature@.len() == 0,
            !state.paused,
    {
        State { settings, host: None, screens: Vec::new(), signature: Vec::new(), paused: false }
    }
}

/// The window that opened for a plan.
pub open spec fn opened(
    target: crate::layout::TargetView,
    plan: WindowPlan,
    hwnd: isize,
    settings: SettingsView,
) -> ScreenView {
    ScreenView {
        label: plan.label@,
        key: target.key,
        name: target.name,
        bounds: target.bounds,
        monitor: target.monitor,
        hwnd,
        module: plan.module@,
        hidden: false,
        awake: false,
        red_alert: settings.red_alert,
        margin: settings.margin,
    }
}

/// The windows that opened out of the first `count` that were planned.
pub open spec fn opened_screens(
    targets: Seq<crate::layout::TargetView>,
    plans: Seq<WindowPlan>,
    handles: Seq<Option<isize>>,
    settings: SettingsView,
    count: int,
) -> Seq<ScreenView>
    decreases count,
{
    if count <= 0 {
        Seq::empty()
    } else {
        let before = opened_screens(targets, plans, handles, settings, count - 1);
        match handles[count - 1] {
            Some(hwnd) => before.push(
                opened(targets[count - 1], plans[count - 1], hwnd, settings),
            ),
            None => before,
        }
    }
}

impl State {
    /// Takes over the windows that opened, given the handle of each one planned, or
    /// none where it could not be created. They all start out showing.
    pub fn start(
        &mut self,
        targets: &Vec<Target>,
        plans: &Vec<WindowPlan>,
        handles: &Vec<Option<isize>>,
    )
        requires
            plans@.len() == targets@.len(),
            handles@.len() == targets@.len(),
        ensures
            final(self).wf(),
            final(self).settings == old(self).settings,
            final(self).host == old(self).host,
            !final(self).paused,
            spot_views(final(self).signature@) == signature_of(target_views(targets@)),
            final(self).views() == opened_screens(
                target_views(targets@),
                plans@,
                handles@,
                old(self).settings@,
                targets@.len() as int,
            ),
    {
        let mut screens: Vec<Screen> = Vec::new();
        let mut i: usize = 0;
        assert(screen_views(screens@) == Seq::<ScreenView>::empty());
        while i < targets.len()
            invariant
                i <= targets@.len(),
                plans@.len() == targets@.len(),
                handles@.len() == targets@.len(),
                *self == *old(self),
                forall|j: int| 0 <= j < screens@.len() ==> !(#[trigger] screens@[j]).awake,
                screen_views(screens@) == opened_screens(
                    target_views(targets@),
                    plans@,
                    handles@,
                    self.settings@,
                    i as int,
                ),
            decreases targets@.len() - i,
        {
            let target = &targets[i];
            assert(target_views(targets@)[i as int] == target@);
            if let Some(hwnd) = handles[i] {
                let ghost before = screen_views(screens@);
                let screen = Screen {
                    label: plans[i].label.clone(),
                    key: target.key.clone(),
                    name: target.name.clone(),
                    bounds: target.bounds,
                    monitor: target.monitor,
                    hwnd,
                    module: plans[i].module.clone(),
                    hidden: false,
                    awake: false,
                    red_alert: self.settings.red_alert,
                    margin: self.settings.margin,
                };
                screens.push(screen);
                assert(screen_views(screens@) == before.push(screen@));
            }
            i += 1;
        }
        self.signature = layout_signature(targets);
        self.screens = screens;
        self.paused = false;
    }

    /// Forgets the windows. Tells which windows of the desktop have to be repainted.
    pub fn stop(&mut self) -> (repaint: Vec<isize>)
        ensures
            final(self).wf(),
            final(self).screens@.len() == 0,
            final(self).paused == old(self).paused,
            final(self).same_around(old(self)),
            repaint@ == (match old(self).host {
                Some(host) => match host.mode {
                    HostMode::WorkerW => seq![host.progman, host.hwnd],
                    HostMode::Progman => seq![host.progman],
                },
                None => Seq::<isize>::empty(),
            }),
            old(self).host matches Some(host) ==> repaint@ == repainted(host),
    {
        self.screens.clear();
        match self.host {
            Some(host) => refresh(&host),
            None => Vec::new(),
        }
    }
}

/// The placements of the first `count` windows, of those that are showing.
pub open spec fn pinned(screens: Seq<ScreenView>, count: int) -> Seq<(isize, Rect)>
    decreases count,
{
    if count <= 0 {
        Seq::empty()
    } else if screens[count - 1].hidden {
        pinned(screens, count - 1)
    } else {
        pinned(screens, count - 1).push((screens[count - 1].hwnd, screens[count - 1].bounds))
    }
}

impl State {
    /// Whether [`State::pin_all`] may be called.
    pub fn can_pin_all(&self, origin: Rect) -> (can: bool)
        ensures
            can == (forall|i: int|
                0 <= i < self.screens@.len() ==> reachable(
                    (#[trigger] self.screens@[i]).bounds,
                    origin,
                )),
    {
        let mut i: usize = 0;
        while i < self.screens.len()
            invariant
                i <= self.screens@.len(),
                forall|j: int|
                    0 <= j < i ==> reachable((#[trigger] self.screens@[j]).bounds, origin),
            decreases self.screens@.len() - i,
        {
            if !can_place(self.screens[i].bounds, origin) {
                return false;
            }
            i += 1;
        }
        true
    }

    /// Puts every window that is showing in its place. The page resizes its window
    /// once it is shown, so the placement needs the last word.
    pub fn pin_all(&self, origin: Rect) -> (placements: Vec<(isize, Placement)>)
        requires
            forall|i: int|
                0 <= i < self.screens@.len() ==> reachable(
                    (#[trigger] self.screens@[i]).bounds,
                    origin,
                ),
        ensures
            self.host is None ==> placements@.len() == 0,
            self.host matches Some(host) ==> {
                let places = pinned(self.views(), self.screens@.len() as int);
                &&& placements@.len() == places.len()
                &&& forall|i: int|
                    0 <= i < places.len() ==> {
                        let (hwnd, placement) = #[trigger] placements@[i];
                        &&& hwnd == places[i].0
                        &&& placement.x == places[i].1.x - origin.x
                        &&& placement.y == places[i].1.y - origin.y
                        &&& placement.width == places[i].1.width
                        &&& placement.height == places[i].1.height
                        &&& placement.to_bottom == (host.mode == HostMode::Progman)
                    }
            },
    {
        let mut placements: Vec<(isize, Placement)> = Vec::new();
        let host = match self.host {
            Some(host) => host,
            None => return placements,
        };
        let mut i: usize = 0;
        while i < self.screens.len()
            invariant
                i <= self.screens@.len(),
                forall|j: int|
                    0 <= j < self.screens@.len() ==> reachable(
                        (#[trigger] self.screens@[j]).bounds,
                        origin,
                    ),
                placements@.len() == pinned(self.views(), i as int).len(),
                forall|j: int|
                    0 <= j < placements@.len() ==> {
                        let places = pinned(self.views(), i as int);
                        let (hwnd, placement) = #[trigger] placements@[j];
                        &&& hwnd == places[j].0
                        &&& placement.x == places[j].1.x - origin.x
                        &&& placement.y == places[j].1.y - origin.y
                        &&& placement.width == places[j].1.width
                        &&& placement.height == places[j].1.height
                        &&& placement.to_bottom == (host.mode == HostMode::Progman)
                    },
            decreases self.screens@.len() - i,
        {
            let screen = &self.screens[i];
            assert(self.views()[i as int] == screen@);
            if !screen.hidden {
                placements.push((screen.hwnd, place(screen.bounds, origin, host.mode)));
            }
            i += 1;
        }
        placements
    }
}

/// The first window with a given label.
pub open spec fn labelled(screens: Seq<ScreenView>, label: Seq<char>) -> Option<int>
    decreases screens.len(),
{
    if screens.len() == 0 {
        None
    } else if screens[0].label == label {
        Some(0)
    } else {
        match labelled(screens.skip(1), label) {
            Some(at) => Some(at + 1),
            None => None,
        }
    }
}

pub proof fn lemma_labelled(screens: Seq<ScreenView>, label: Seq<char>)
    ensures
        labelled(screens, label) matches Some(at) ==> 0 <= at < screens.len() && screens[at].label
            == label,
        labelled(screens, label) is None ==> forall|i: int|
            0 <= i < screens.len() ==> (#[trigger] screens[i]).label != label,
    decreases screens.len(),
{
    if screens.len() > 0 && screens[0].label != label {
        lemma_labelled(screens.skip(1), label);
        if labelled(screens.skip(1), label) is None {
            assert forall|i: int| 0 <= i < screens.len() implies (#[trigger] screens[i]).label
                != label by {
                if i > 0 {
                    assert(screens.skip(1)[i - 1] == screens[i]);
                }
            }
        }
    }
}

impl State {
    pub(crate) fn find(&self, label: &str) -> (at: Option<usize>)
        ensures
            at matches Some(at) ==> at < self.screens@.len() && labelled(self.views(), label@)
                == Some(at as int),
            at is None ==> labelled(self.views(), label@) is None,
    {
        let ghost all = self.views();
        let mut i: usize = 0;
        assert(all.skip(0) == all);
        while i < self.screens.len()
            invariant
                i <= self.screens@.len(),
                all == self.views(),
                labelled(all, label@) == (match labelled(all.skip(i as int), label@) {
                    Some(at) => Some(at + i),
                    None => None,
                }),
            decreases self.screens@.len() - i,
        {
            let ghost rest = all.skip(i as int);
            assert(rest[0] == self.screens@[i as int]@);
            assert(rest.skip(1) == all.skip(i + 1));
            if same(self.screens[i].label.as_str(), label) {
                return Some(i);
            }
            i += 1;
        }
        None
    }

    /// The monitor a window belongs to, for dispatching back to just that one.
    pub fn key_of(&self, label: &str) -> (key: Option<String>)
        ensures
            optional(key) == key_at(self.views(), label@),
    {
        match self.find(label) {
            Some(at) => {
                assert(self.views()[at as int] == self.screens@[at as int]@);
                Some(self.screens[at].key.clone())
            },
            None => None,
        }
    }

    /// The alert and the margin a window reported last.
    pub fn window_state(&self, label: &str) -> (state: (bool, u8))
        ensures
            state == (match labelled(self.views(), label@) {
                Some(at) => (self.views()[at].red_alert, self.views()[at].margin),
                None => (false, 0u8),
            }),
            state == known_state(self.views(), label@),
    {
        match self.find(label) {
            Some(at) => {
                assert(self.views()[at as int] == self.screens@[at as int]@);
                (self.screens[at].red_alert, self.screens[at].margin)
            },
            None => (false, 0),
        }
    }
}

/// What is known of a window's alert and margin; of an unknown one, that it has none.
pub open spec fn known_state(screens: Seq<ScreenView>, label: Seq<char>) -> (bool, u8) {
    match labelled(screens, label) {
        Some(at) => (screens[at].red_alert, screens[at].margin),
        None => (false, 0),
    }
}

pub open spec fn key_at(screens: Seq<ScreenView>, label: Seq<char>) -> Option<Seq<char>> {
    match labelled(screens, label) {
        Some(at) => Some(screens[at].key),
        None => None,
    }
}

/// The labels of the first `count` windows, of those that a dispatch goes to: every
/// window, or the ones on one monitor.
pub open spec fn receivers(
    screens: Seq<ScreenView>,
    key: Option<Seq<char>>,
    count: int,
) -> Seq<Seq<char>>
    decreases count,
{
    if count <= 0 {
        Seq::empty()
    } else if key is None || key == Some(screens[count - 1].key) {
        receivers(screens, key, count - 1).push(screens[count - 1].label)
    } else {
        receivers(screens, key, count - 1)
    }
}

impl State {
    /// The windows an action goes to: the ones on one monitor, or every window when
    /// `key` is None.
    pub fn dispatch(&self, key: Option<&str>) -> (labels: Vec<String>)
        ensures
            texts(labels@) == receivers(
                self.views(),
                match key {
                    Some(key) => Some(key@),
                    None => None,
                },
                self.screens@.len() as int,
            ),
            forall|j: int|
                0 <= j < self.screens@.len() && (key matches Some(key) ==> (
                #[trigger] self.screens@[j]).key@ == key@) ==> texts(labels@).contains(
                    self.screens@[j].label@,
                ),
    {
        let ghost wanted = match key {
            Some(key) => Some(key@),
            None => None,
        };
        let mut labels: Vec<String> = Vec::new();
        let mut i: usize = 0;
        assert(texts(labels@) == Seq::<Seq<char>>::empty());
        while i < self.screens.len()
            invariant
                i <= self.screens@.len(),
                wanted == (match key {
                    Some(key) => Some(key@),
                    None => None,
                }),
                texts(labels@) == receivers(self.views(), wanted, i as int),
                forall|j: int|
                    0 <= j < i && (key matches Some(key) ==> (#[trigger] self.screens@[j]).key@
                        == key@) ==> texts(labels@).contains(self.screens@[j].label@),
            decreases self.screens@.len() - i,
        {
            let screen = &self.screens[i];
            assert(self.views()[i as int] == screen@);
            let takes = match key {
                Some(key) => same(screen.key.as_str(), key),
                None => true,
            };
            if takes {
                let ghost before = texts(labels@);
                let label = screen.label.clone();
                labels.push(label);
                assert(texts(labels@) == before.push(label@));
                assert(texts(labels@)[before.len() as int] == label@);
                assert forall|text: Seq<char>| before.contains(text) implies texts(
                    labels@,
                ).contains(text) by {
                    let at = choose|at: int| 0 <= at < before.len() && before[at] == text;
                    assert(texts(labels@)[at] == text);
                }
            }
            i += 1;
        }
        labels
    }

    /// Wakes a window for a dispatch. A suspended page would never run it; waking it
    /// leaves it invisible and so still cheap, and it is parked again on the next
    /// tick. Tells whether the page has to be resumed.
    pub fn wake(&mut self, label: &str) -> (resume: bool)
        requires
            old(self).wf(),
        ensures
            final(self).wf(),
            final(self).same_around(old(self)),
            final(self).paused == old(self).paused,
            final(self).views() == woken(old(self).views(), label@),
            resume == (labelled(old(self).views(), label@) matches Some(at) && old(
                self,
            ).views()[at].hidden && !old(self).views()[at].awake),
            resume == asleep(old(self).views(), label@),
    {
        match self.find(label) {
            Some(at) => {
                assert(self.views()[at as int] == self.screens@[at as int]@);
                if self.screens[at].hidden && !self.screens[at].awake {
                    self.screens[at].awake = true;
                    assert(self.views() == woken(old(self).views(), label@));
                    true
                } else {
                    assert(self.views() == woken(old(self).views(), label@));
                    false
                }
            },
            None => false,
        }
    }
}

/// Whether a window's page is stopped, so that it would not get a dispatch.
pub open spec fn asleep(screens: Seq<ScreenView>, label: Seq<char>) -> bool {
    labelled(screens, label) matches Some(at) && screens[at].hidden && !screens[at].awake
}

/// The windows after one of them had to be woken.
pub open spec fn woken(screens: Seq<ScreenView>, label: Seq<char>) -> Seq<ScreenView> {
    match labelled(screens, label) {
        Some(at) => if screens[at].hidden {
            screens.update(at, ScreenView { awake: true, ..screens[at] })
        } else {
            screens
        },
        None => screens,
    }
}

/// One thing done to a window and the browser in it.
#[derive(Clone, Copy, Debug, PartialEq, Eq, Structural)]
pub enum WindowStep {
    /// Let the page run again.
    Resume,
    /// Let the browser draw, or keep it from drawing.
    SetVisible(bool),
    Show,
    Hide,
    /// Stop the page.
    Suspend,
}

/// Shows or hides one window, browser and all.
///
/// Order matters both ways round: a browser only suspends what is already
/// invisible, and only draws what has been resumed.
pub fn set_window_running(running: bool) -> (steps: Vec<WindowStep>)
    ensures
        steps@ == running_steps(running),
{
    let mut steps: Vec<WindowStep> = Vec::new();
    if running {
        steps.push(WindowStep::Resume);
        steps.push(WindowStep::SetVisible(true));
        steps.push(WindowStep::Show);
    } else {
        steps.push(WindowStep::Hide);
        steps.push(WindowStep::SetVisible(false));
        steps.push(WindowStep::Suspend);
    }
    assert(steps@ == running_steps(running));
    steps
}

pub open spec fn running_steps(running: bool) -> Seq<WindowStep> {
    if running {
        seq![WindowStep::Resume, WindowStep::SetVisible(true), WindowStep::Show]
    } else {
        seq![WindowStep::Hide, WindowStep::SetVisible(false), WindowStep::Suspend]
    }
}

/// A page is only ever suspended once the browser has stopped drawing it, and the
/// browser only ever draws a page that has been resumed.
pub proof fn steps_come_in_order(running: bool, i: int)
    requires
        0 <= i < running_steps(running).len(),
    ensures
        running_steps(running)[i] == WindowStep::Suspend ==> exists|j: int|
            0 <= j < i && running_steps(running)[j] == WindowStep::SetVisible(false),
        running_steps(running)[i] == WindowStep::SetVisible(true) ==> exists|j: int|
            0 <= j < i && running_steps(running)[j] == WindowStep::Resume,
{
    assert(running_steps(false)[1] == WindowStep::SetVisible(false));
    assert(running_steps(true)[0] == WindowStep::Resume);
}

/// An action for some of the pages.
pub struct Dispatch {
    /// The monitor it is for; every one where there is none.
    pub key: Option<String>,
    pub action: Action,
    pub payload: Payload,
}

/// An action for some of the pages, as values.
pub struct DispatchView {
    pub key: Option<Seq<char>>,
    pub action: Action,
    pub payload: PayloadView,
}

impl View for Dispatch {
    type V = DispatchView;

    open spec fn view(&self) -> DispatchView {
        DispatchView { key: optional(self.key), action: self.action, payload: self.payload@ }
    }
}

impl DispatchView {
    /// The call that pushes this action into a page, given the digits of its payload
    /// where that is a number with a fraction.
    pub open spec fn script(self, digits: Seq<char>) -> Seq<char> {
        dispatch_script(
            self.action.text(),
            match self.payload.json() {
                Some(json) => json,
                None => digits,
            },
        )
    }
}

impl Dispatch {
    /// The number whose digits the script needs, where the payload is one with a
    /// fraction.
    pub fn number(&self) -> (number: Option<Binary64>)
        ensures
            number == (match self@.payload {
                PayloadView::Number(value) => Some(value),
                _ => None,
            }),
    {
        match self.payload {
            Payload::Number(value) => Some(value),
            _ => None,
        }
    }

    /// The call that pushes this action into a page. The digits stand for a payload
    /// that is a number with a fraction; they are of no use for any other.
    pub fn script(&self, digits: &str) -> (script: String)
        ensures
            script@ == self@.script(digits@),
    {
        match self.payload.json() {
            Some(json) => dispatch_call(self.action.name(), json.as_str()),
            None => dispatch_call(self.action.name(), digits),
        }
    }
}

/// Only a number with a fraction takes its digits from outside: the script of any other
/// dispatch is settled by the action and the payload alone.
pub proof fn digits_matter_for_numbers_only(
    dispatch: DispatchView,
    digits: Seq<char>,
    other: Seq<char>,
)
    requires
        !(dispatch.payload is Number),
    ensures
        dispatch.payload.json() matches Some(json) && dispatch.script(digits) == dispatch_script(
            dispatch.action.text(),
            json,
        ),
        dispatch.script(digits) == dispatch.script(other),
{
}

pub open spec fn dispatch_views(list: Seq<Dispatch>) -> Seq<DispatchView> {
    list.map_values(|d: Dispatch| d@)
}

pub fn push_dispatch(list: &mut Vec<Dispatch>, key: Option<&str>, action: Action, payload: Payload)
    ensures
        dispatch_views(final(list)@) == dispatch_views(old(list)@).push(
            (DispatchView {
                key: match key {
                    Some(key) => Some(key@),
                    None => None,
                },
                action,
                payload: payload@,
            }),
        ),
{
    let key = match key {
        Some(key) => Some(key.to_owned()),
        None => None,
    };
    let entry = Dispatch { key, action, payload };
    list.push(entry);
    assert(dispatch_views(list@) == dispatch_views(old(list)@).push(entry@));
}

/// One action with its payload, as a sequence.
pub open spec fn one_dispatch(
    key: Option<Seq<char>>,
    action: Action,
    payload: PayloadView,
) -> Seq<DispatchView> {
    seq![DispatchView { key, action, payload }]
}

/// What turns the audio of a page on, at the right volumes, or off.
pub open spec fn audio_dispatches(
    settings: SettingsView,
    key: Option<Seq<char>>,
    enabled: bool,
) -> Seq<DispatchView> {
    if enabled {
        seq![
            DispatchView { key, action: Action::AudioOn, payload: PayloadView::Null },
            DispatchView {
                key,
                action: Action::SetSfxVolume,
                payload: PayloadView::Number(settings.sfx_volume),
            },
            DispatchView {
                key,
                action: Action::SetSbgVolume,
                payload: PayloadView::Number(settings.engine_volume),
            },
        ]
    } else {
        one_dispatch(key, Action::AudioOff, PayloadView::Null)
    }
}

/// Everything a freshly booted page needs to match the settings.
pub open spec fn boot_dispatches(settings: SettingsView, key: Seq<char>) -> Seq<DispatchView> {
    let to = Some(key);
    let border = one_dispatch(to, Action::SetBorderOnMouseOver, PayloadView::Bool(false));
    let margin = if settings.margin > 0 {
        one_dispatch(to, Action::SetMargin, PayloadView::Whole(settings.margin as u64))
    } else {
        Seq::empty()
    };
    let filter = if settings.filter != "none"@ {
        one_dispatch(to, Action::ToggleFilterEffects, PayloadView::Text(settings.filter))
    } else {
        Seq::empty()
    };
    let audio = audio_dispatches(settings, to, settings.audio);
    let alert = if settings.red_alert {
        one_dispatch(to, Action::SetRedAlert, PayloadView::RedAlert(true))
    } else {
        Seq::empty()
    };
    border + margin + filter + audio + alert
}

/// Turns the audio of some pages on, at the right volumes, or off.
pub fn push_audio(list: &mut Vec<Dispatch>, settings: &Settings, key: Option<&str>, enabled: bool)
    ensures
        dispatch_views(final(list)@) == dispatch_views(old(list)@) + audio_dispatches(
            settings@,
            match key {
                Some(key) => Some(key@),
                None => None,
            },
            enabled,
        ),
{
    if enabled {
        push_dispatch(list, key, Action::AudioOn, Payload::Null);
        push_dispatch(list, key, Action::SetSfxVolume, Payload::Number(settings.sfx_volume));
        push_dispatch(list, key, Action::SetSbgVolume, Payload::Number(settings.engine_volume));
    } else {
        push_dispatch(list, key, Action::AudioOff, Payload::Null);
    }
    assert(dispatch_views(list@) == dispatch_views(old(list)@) + audio_dispatches(
        settings@,
        match key {
            Some(key) => Some(key@),
            None => None,
        },
        enabled,
    ));
}

impl State {
    /// Everything a freshly booted page needs to match the current settings. Nothing
    /// for a window that is not known.
    pub fn apply_settings(&self, label: &str) -> (list: Vec<Dispatch>)
        ensures
            dispatch_views(list@) == (match key_at(self.views(), label@) {
                Some(key) => boot_dispatches(self.settings@, key),
                None => Seq::empty(),
            }),
            dispatch_views(list@) == start_dispatches(self.settings@, self.views(), label@),
    {
        let mut list: Vec<Dispatch> = Vec::new();
        assert(dispatch_views(list@) == Seq::<DispatchView>::empty());
        let key = match self.key_of(label) {
            Some(key) => key,
            None => return list,
        };
        let settings = &self.settings;
        let to = Some(key.as_str());
        let ghost border = one_dispatch(
            Some(key@),
            Action::SetBorderOnMouseOver,
            PayloadView::Bool(false),
        );
        push_dispatch(&mut list, to, Action::SetBorderOnMouseOver, Payload::Bool(false));
        assert(dispatch_views(list@) == border);
        if settings.margin > 0 {
            push_dispatch(
                &mut list,
                to,
                Action::SetMargin,
                Payload::Whole(settings.margin as u64),
            );
        }
        let ghost margin = dispatch_views(list@).skip(1);
        assert(dispatch_views(list@) == border + margin);
        if !same(settings.filter.as_str(), "none") {
            push_dispatch(
                &mut list,
                to,
                Action::ToggleFilterEffects,
                Payload::Text(settings.filter.clone()),
            );
        }
        let ghost filter = dispatch_views(list@).skip((border + margin).len() as int);
        assert(dispatch_views(list@) == border + margin + filter);
        push_audio(&mut list, settings, to, settings.audio);
        let ghost audio = audio_dispatches(settings@, Some(key@), settings@.audio);
        assert(dispatch_views(list@) == border + margin + filter + audio);
        if settings.red_alert {
            push_dispatch(&mut list, to, Action::SetRedAlert, Payload::RedAlert(true));
        }
        assert(dispatch_views(list@) == boot_dispatches(settings@, key@));
        list
    }
}

/// The windows with new modules.
pub open spec fn shuffled(
    settings: SettingsView,
    screens: Seq<ScreenView>,
    shared: Seq<char>,
    rolls: Seq<Seq<char>>,
) -> Seq<ScreenView> {
    Seq::new(
        screens.len(),
        |i: int|
            ScreenView {
                module: settings.module_shown(screens[i].key, shared, rolls[i]),
                ..screens[i]
            },
    )
}

/// What tells every window its module.
pub open spec fn module_dispatches(screens: Seq<ScreenView>) -> Seq<DispatchView> {
    Seq::new(
        screens.len(),
        |i: int|
            DispatchView {
                key: Some(screens[i].key),
                action: Action::SetActiveModule,
                payload: PayloadView::Text(screens[i].module),
            },
    )
}

impl State {
    /// Picks a new module for every window, given one module rolled for all of them
    /// and one for each, and tells the pages.
    pub fn shuffle(&mut self, shared: &str, rolls: &Vec<String>) -> (list: Vec<Dispatch>)
        requires
            rolls@.len() >= old(self).screens@.len(),
            old(self).wf(),
        ensures
            final(self).wf(),
            final(self).same_around(old(self)),
            final(self).paused == old(self).paused,
            final(self).views() == shuffled(
                old(self).settings@,
                old(self).views(),
                shared@,
                texts(rolls@),
            ),
            dispatch_views(list@) == module_dispatches(final(self).views()),
    {
        let ghost before = self.views();
        let ghost after = shuffled(self.settings@, before, shared@, texts(rolls@));
        let mut list: Vec<Dispatch> = Vec::new();
        let mut i: usize = 0;
        assert(dispatch_views(list@) == module_dispatches(after).take(0));
        while i < self.screens.len()
            invariant
                i <= self.screens@.len(),
                self.screens@.len() == old(self).screens@.len(),
                rolls@.len() >= self.screens@.len(),
                before == old(self).views(),
                after == shuffled(old(self).settings@, before, shared@, texts(rolls@)),
                self.same_around(old(self)),
                self.paused == old(self).paused,
                self.wf(),
                forall|j: int| 0 <= j < i ==> (#[trigger] self.screens@[j])@ == after[j],
                forall|j: int|
                    i <= j < self.screens@.len() ==> (#[trigger] self.screens@[j])@ == before[j],
                dispatch_views(list@) == module_dispatches(after).take(i as int),
            decreases self.screens@.len() - i,
        {
            assert(texts(rolls@)[i as int] == rolls@[i as int]@);
            assert(self.screens@[i as int]@ == before[i as int]);
            let module = self.settings.screen_module(
                self.screens[i].key.as_str(),
                shared,
                rolls[i].as_str(),
            );
            let key = self.screens[i].key.clone();
            let sent = module.clone();
            self.screens[i].module = module;
            assert(self.screens@[i as int]@ == after[i as int]);
            let ghost told = dispatch_views(list@);
            push_dispatch(
                &mut list,
                Some(key.as_str()),
                Action::SetActiveModule,
                Payload::Text(sent),
            );
            i += 1;
            assert(module_dispatches(after).take(i as int) == told.push(
                module_dispatches(after)[i - 1],
            ));
        }
        assert(self.views() == after);
        assert(module_dispatches(after).take(i as int) == module_dispatches(after));
        list
    }

    /// Pauses or resumes by hand: every window is hidden or shown. Tells which
    /// windows have to stop or start.
    pub fn set_paused(&mut self, paused: bool) -> (labels: Vec<String>)
        ensures
            final(self).wf(),
            final(self).same_around(old(self)),
            final(self).paused == paused,
            final(self).views() == all_paused(old(self).views(), paused),
            texts(labels@) == old(self).views().map_values(|s: ScreenView| s.label),
            texts(labels@) == receivers(old(self).views(), None, old(self).screens@.len() as int),
    {
        let ghost before = self.views();
        let ghost after = all_paused(before, paused);
        let ghost names = before.map_values(|s: ScreenView| s.label);
        self.paused = paused;
        let mut labels: Vec<String> = Vec::new();
        let mut i: usize = 0;
        assert(texts(labels@) == names.take(0));
        while i < self.screens.len()
            invariant
                i <= self.screens@.len(),
                self.screens@.len() == old(self).screens@.len(),
                before == old(self).views(),
                after == all_paused(before, paused),
                names == before.map_values(|s: ScreenView| s.label),
                self.same_around(old(self)),
                self.paused == paused,
                forall|j: int| 0 <= j < i ==> (#[trigger] self.screens@[j])@ == after[j],
                forall|j: int|
                    i <= j < self.screens@.len() ==> (#[trigger] self.screens@[j])@ == before[j],
                texts(labels@) == names.take(i as int),
                texts(labels@) == receivers(before, None, i as int),
            decreases self.screens@.len() - i,
        {
            assert(self.screens@[i as int]@ == before[i as int]);
            let label = self.screens[i].label.clone();
            self.screens[i].hidden = paused;
            self.screens[i].awake = false;
            assert(self.screens@[i as int]@ == after[i as int]);
            let ghost told = texts(labels@);
            labels.push(label);
            i += 1;
            assert(texts(labels@) == told.push(label@));
            assert(names.take(i as int) == told.push(names[i - 1]));
        }
        assert(self.views() == after);
        assert(names.take(i as int) == names);
        assert forall|j: int| 0 <= j < self.screens@.len() implies !(
        #[trigger] self.screens@[j]).awake by {
            assert(!after[j].awake);
            assert(self.screens@[j]@ == after[j]);
        }
        labels
    }

    pub fn is_paused(&self) -> (paused: bool)
        ensures
            paused == self.paused,
    {
        self.paused
    }
}

/// The windows after all of them were paused or resumed.
pub open spec fn all_paused(screens: Seq<ScreenView>, paused: bool) -> Seq<ScreenView> {
    screens.map_values(|s: ScreenView| ScreenView { hidden: paused, awake: false, ..s })
}

/// When the wallpaper stops drawing itself.
#[derive(Clone, Copy, Debug, PartialEq, Eq, Structural)]
pub enum AutoPause {
    Never,
    /// Only for an application that owns a whole monitor: a game, a video.
    OnFullscreen,
    /// For anything that leaves none of the wallpaper showing, which on a working
    /// desktop is most of the time.
    WhenCovered,
}

/// What is asked about one window.
#[derive(Clone, Copy, Debug, PartialEq, Eq, Structural)]
pub enum CoverageQuestion {
    /// Nothing: it is not covered.
    Nothing,
    /// Whether an application fills this monitor.
    Fullscreen(Rect),
    /// Whether other windows leave none of this rectangle showing.
    Windows(Rect),
}

impl AutoPause {
    pub open spec fn asks(self, screen: ScreenView) -> CoverageQuestion {
        match self {
            AutoPause::Never => CoverageQuestion::Nothing,
            AutoPause::OnFullscreen => CoverageQuestion::Fullscreen(screen.monitor),
            AutoPause::WhenCovered => CoverageQuestion::Windows(screen.bounds),
        }
    }

    /// Fullscreen is judged against the whole monitor, since a maximised window
    /// covers the work area and is no reason to stop, while coverage is judged
    /// against the wallpaper itself, which is all there is to see.
    pub fn question(&self, screen: &Screen) -> (question: CoverageQuestion)
        ensures
            question == self.asks(screen@),
    {
        match self {
            AutoPause::Never => CoverageQuestion::Nothing,
            AutoPause::OnFullscreen => CoverageQuestion::Fullscreen(screen.monitor),
            AutoPause::WhenCovered => CoverageQuestion::Windows(screen.bounds),
        }
    }
}

/// The windows themselves, hidden or not.
pub open spec fn handles_of(screens: Seq<ScreenView>) -> Seq<isize> {
    screens.map_values(|s: ScreenView| s.hwnd)
}

/// What the page of a window is told when it starts.
pub open spec fn start_dispatches(
    settings: SettingsView,
    screens: Seq<ScreenView>,
    label: Seq<char>,
) -> Seq<DispatchView> {
    match key_at(screens, label) {
        Some(key) => boot_dispatches(settings, key),
        None => Seq::empty(),
    }
}

/// By which rule windows are paused on their own, if by any.
pub open spec fn pause_mode(settings: SettingsView, paused: bool, count: nat) -> AutoPause {
    if paused || count == 0 {
        AutoPause::Never
    } else if settings.pause_when_covered {
        AutoPause::WhenCovered
    } else if settings.pause_on_fullscreen {
        AutoPause::OnFullscreen
    } else {
        AutoPause::Never
    }
}

/// The windows that change, out of the first `count`, with whether each is hidden
/// from now on.
pub open spec fn changes(
    screens: Seq<ScreenView>,
    covered: Seq<bool>,
    count: int,
) -> Seq<(Seq<char>, bool)>
    decreases count,
{
    if count <= 0 {
        Seq::empty()
    } else if covered[count - 1] == screens[count - 1].hidden {
        changes(screens, covered, count - 1)
    } else {
        changes(screens, covered, count - 1).push((screens[count - 1].label, covered[count - 1]))
    }
}

/// The windows, hidden exactly where they are covered. A window that changes is no
/// longer kept awake.
pub open spec fn uncovered(screens: Seq<ScreenView>, covered: Seq<bool>) -> Seq<ScreenView> {
    Seq::new(
        screens.len(),
        |i: int|
            if covered[i] == screens[i].hidden {
                screens[i]
            } else {
                ScreenView { hidden: covered[i], awake: false, ..screens[i] }
            },
    )
}

pub open spec fn change_views(list: Seq<(String, bool)>) -> Seq<(Seq<char>, bool)> {
    list.map_values(|c: (String, bool)| (c.0@, c.1))
}

impl State {
    /// The handles of all the windows.
    pub fn handles(&self) -> (handles: Vec<isize>)
        ensures
            handles@ == self.views().map_values(|s: ScreenView| s.hwnd),
            handles@ == handles_of(self.views()),
    {
        let ghost all = self.views().map_values(|s: ScreenView| s.hwnd);
        let mut handles: Vec<isize> = Vec::new();
        let mut i: usize = 0;
        while i < self.screens.len()
            invariant
                i <= self.screens@.len(),
                all == self.views().map_values(|s: ScreenView| s.hwnd),
                handles@ == all.take(i as int),
            decreases self.screens@.len() - i,
        {
            handles.push(self.screens[i].hwnd);
            i += 1;
            assert(handles@ == all.take(i as int));
        }
        assert(all.take(i as int) == all);
        handles
    }

    /// Decides, several times a second, whether each screen still has anything to
    /// show. A wallpaper that was paused by hand stays paused, and there is nothing
    /// to decide until the windows exist.
    pub fn coverage_tick(&self) -> (mode: AutoPause)
        ensures
            mode == (if self.paused || self.screens@.len() == 0 {
                AutoPause::Never
            } else if self.settings.pause_when_covered {
                AutoPause::WhenCovered
            } else if self.settings.pause_on_fullscreen {
                AutoPause::OnFullscreen
            } else {
                AutoPause::Never
            }),
            mode == pause_mode(self.settings@, self.paused, self.screens@.len()),
    {
        if self.paused || self.screens.len() == 0 {
            AutoPause::Never
        } else if self.settings.pause_when_covered {
            AutoPause::WhenCovered
        } else if self.settings.pause_on_fullscreen {
            AutoPause::OnFullscreen
        } else {
            AutoPause::Never
        }
    }

    /// A wallpaper nobody can see still costs a CPU and a GPU, so stop drawing it.
    /// Takes whether each window is covered and tells which windows change, with
    /// whether they are hidden from now on.
    pub fn update_auto_pause(&mut self, covered: &Vec<bool>) -> (list: Vec<(String, bool)>)
        requires
            covered@.len() == old(self).screens@.len(),
            old(self).wf(),
        ensures
            final(self).wf(),
            final(self).same_around(old(self)),
            final(self).paused == old(self).paused,
            final(self).views() == uncovered(old(self).views(), covered@),
            change_views(list@) == changes(
                old(self).views(),
                covered@,
                old(self).screens@.len() as int,
            ),
    {
        let ghost before = self.views();
        let ghost after = uncovered(before, covered@);
        let mut list: Vec<(String, bool)> = Vec::new();
        let mut i: usize = 0;
        assert(change_views(list@) == Seq::<(Seq<char>, bool)>::empty());
        while i < self.screens.len()
            invariant
                i <= self.screens@.len(),
                self.screens@.len() == old(self).screens@.len(),
                covered@.len() == self.screens@.len(),
                before == old(self).views(),
                after == uncovered(before, covered@),
                self.same_around(old(self)),
                self.paused == old(self).paused,
                self.wf(),
                forall|j: int| 0 <= j < i ==> (#[trigger] self.screens@[j])@ == after[j],
                forall|j: int|
                    i <= j < self.screens@.len() ==> (#[trigger] self.screens@[j])@ == before[j],
                change_views(list@) == changes(before, covered@, i as int),
            decreases self.screens@.len() - i,
        {
            assert(self.screens@[i as int]@ == before[i as int]);
            if covered[i] != self.screens[i].hidden {
                let entry = (self.screens[i].label.clone(), covered[i]);
                self.screens[i].awake = false;
                self.screens[i].hidden = covered[i];
                let ghost told = change_views(list@);
                list.push(entry);
                assert(change_views(list@) == told.push((entry.0@, entry.1)));
            }
            assert(self.screens@[i as int]@ == after[i as int]);
            i += 1;
        }
        assert(self.views() == after);
        list
    }

    /// Suspends again the hidden windows that a dispatch had to wake. Tells which
    /// ones.
    pub fn park_woken_screens(&mut self) -> (labels: Vec<String>)
        requires
            old(self).wf(),
        ensures
            final(self).wf(),
            final(self).same_around(old(self)),
            final(self).paused == old(self).paused,
            final(self).views() == all_parked(old(self).views()),
            texts(labels@) == to_park(old(self).views(), old(self).screens@.len() as int),
    {
        let ghost before = self.views();
        let mut labels: Vec<String> = Vec::new();
        let mut i: usize = 0;
        assert(texts(labels@) == Seq::<Seq<char>>::empty());
        while i < self.screens.len()
            invariant
                i <= self.screens@.len(),
                self.screens@.len() == old(self).screens@.len(),
                before == old(self).views(),
                self.same_around(old(self)),
                self.paused == old(self).paused,
                self.wf(),
                forall|j: int|
                    0 <= j < i ==> (#[trigger] self.screens@[j])@ == parked(before[j]),
                forall|j: int|
                    i <= j < self.screens@.len() ==> (#[trigger] self.screens@[j])@ == before[j],
                texts(labels@) == to_park(before, i as int),
            decreases self.screens@.len() - i,
        {
            assert(self.screens@[i as int]@ == before[i as int]);
            if self.screens[i].hidden && self.screens[i].awake {
                let label = self.screens[i].label.clone();
                self.screens[i].awake = false;
                let ghost told = texts(labels@);
                labels.push(label);
                assert(texts(labels@) == told.push(label@));
            }
            assert(self.screens@[i as int]@ == parked(before[i as int]));
            i += 1;
        }
        assert(self.views() == all_parked(before));
        labels
    }
}

/// A window that is no longer kept awake, where it was hidden.
pub open spec fn parked(screen: ScreenView) -> ScreenView {
    if screen.hidden {
        ScreenView { awake: false, ..screen }
    } else {
        screen
    }
}

pub open spec fn all_parked(screens: Seq<ScreenView>) -> Seq<ScreenView> {
    screens.map_values(|s: ScreenView| parked(s))
}

/// The labels of the first `count` windows, of those that are hidden but awake.
pub open spec fn to_park(screens: Seq<ScreenView>, count: int) -> Seq<Seq<char>>
    decreases count,
{
    if count <= 0 {
        Seq::empty()
    } else if screens[count - 1].hidden && screens[count - 1].awake {
        to_park(screens, count - 1).push(screens[count - 1].label)
    } else {
        to_park(screens, count - 1)
    }
}

} // verus!
