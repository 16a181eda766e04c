//! The web app behind every window talks to an `electronAPI` object. This builds that
//! object as a script, so that the app finds what it expects.
//!
//! The page calls in through an invoke function; actions go the other way as calls that
//! are evaluated in the page.

use crate::binary64::{number, Binary64, ONE, ZERO};
use crate::geometry::Rect;
use crate::json::{quote, quoted, quoted_texts_are_told_apart};
use crate::settings::{optional, Layout, Settings, SettingsView};
use crate::text::{
    decimal, digits, signed_decimal, signed_digits, written_numbers_are_told_apart,
};
use vstd::prelude::*;

verus! {

/// The script up to the loading configuration.
pub const SCRIPT_HEAD: &'static str = r#"(() => {
  if (window.electronAPI) return;

  const config = "#;

/// The script from there up to the viewport.
pub const SCRIPT_BODY: &'static str = r#";
  const listeners = [];

  const invoke = (command, args) => {
    const internals = window.__TAURI_INTERNALS__;
    if (!internals) return Promise.resolve(null);
    return internals.invoke(command, args);
  };

  window.electronBuildVersions = {
    node: () => '',
    chrome: () => (navigator.userAgent.match(/Chrome\/([\d.]+)/) || [])[1] || '',
    electron: () => '',
  };

  window.electronAPI = {
    initialWebappConfig: config,
    sendElectronAction: (action, payload) => invoke('renderer_action', { action, payload: payload ?? null }),
    onElectronAction: (handler) => listeners.push(handler),
    getCPUUsage: () => ({ percentCPUUsage: 0, idleWakeupsPerSecond: 0 }),
    invoke: () => invoke('window_state', {}),
  };

  // Called from Rust with eval - the counterpart of Electron's webContents.send.
  window.__titanDispatch = (action, value) => {
    for (const handler of listeners) {
      try {
        handler(action, value);
      } catch (error) {
        console.error('titan action failed', action, error);
      }
    }
  };

"#;

/// The rest of the script.
pub const SCRIPT_TAIL: &'static str = r#"
})();"#;

/// The viewport script up to the width of the scene.
pub const VIEWPORT_WIDTH: &'static str = r#"  const sceneWidth = "#;

/// From there up to the height of the scene.
pub const VIEWPORT_HEIGHT: &'static str = r#";
  const sceneHeight = "#;

/// From there up to how far the scene is shifted sideways.
pub const VIEWPORT_LEFT: &'static str = r#";

  Object.defineProperty(window, 'innerWidth', { get: () => sceneWidth, configurable: true });
  Object.defineProperty(window, 'innerHeight', { get: () => sceneHeight, configurable: true });

  const viewportCss = `
    html, body {
      width: ${sceneWidth}px !important;
      height: ${sceneHeight}px !important;
      max-width: none !important;
      max-height: none !important;
      overflow: hidden !important;
    }
    html {
      position: fixed !important;
      left: 0 !important;
      top: 0 !important;
      transform: translate("#;

/// From there up to how far it is shifted down.
pub const VIEWPORT_TOP: &'static str = r#"px, "#;

/// The rest of the viewport script.
pub const VIEWPORT_TAIL: &'static str = r#"px) !important;
      transform-origin: 0 0 !important;
    }
  `;

  let viewportSheet = null;

  const applyViewport = () => {
    try {
      if (!viewportSheet) {
        viewportSheet = new CSSStyleSheet();
        viewportSheet.replaceSync(viewportCss);
      }

      if (!document.adoptedStyleSheets.includes(viewportSheet)) {
        document.adoptedStyleSheets = [...document.adoptedStyleSheets, viewportSheet];
      }
    } catch (error) {
      console.error('viewport override failed', error);
    }
  };

  // The document may still be empty when this runs and the app restyles the
  // root while it boots, so re-apply until it sticks.
  document.addEventListener('DOMContentLoaded', applyViewport);
  window.addEventListener('load', applyViewport);
  applyViewport();
  for (const delay of [0, 250, 1000, 3000]) setTimeout(applyViewport, delay);"#;

/// The loading configuration of the web app.
pub struct WebappConfig {
    pub show_loading_display: bool,
    pub force_wait_on_loading: bool,
    pub gray_scale_loading_efx: bool,
    pub initial_module_name: Option<String>,
}

/// The loading configuration of the web app, as values.
pub struct WebappConfigView {
    pub show_loading_display: bool,
    pub force_wait_on_loading: bool,
    pub gray_scale_loading_efx: bool,
    pub initial_module_name: Option<Seq<char>>,
}

impl View for WebappConfig {
    type V = WebappConfigView;

    open spec fn view(&self) -> WebappConfigView {
        WebappConfigView {
            show_loading_display: self.show_loading_display,
            force_wait_on_loading: self.force_wait_on_loading,
            gray_scale_loading_efx: self.gray_scale_loading_efx,
            initial_module_name: optional(self.initial_module_name),
        }
    }
}

/// The configuration that one window gets.
pub open spec fn config_for(
    settings: SettingsView,
    module: Option<Seq<char>>,
    is_first: bool,
) -> WebappConfigView {
    WebappConfigView {
        show_loading_display: settings.boot_animation,
        force_wait_on_loading: settings.boot_animation && is_first,
        gray_scale_loading_efx: !is_first,
        initial_module_name: module,
    }
}

impl WebappConfigView {
    /// The configuration as JSON. A module that is missing is left out.
    pub open spec fn json(self) -> Seq<char> {
        let module = match self.initial_module_name {
            Some(name) => ",\"initialModuleName\":"@ + quoted(name),
            None => Seq::empty(),
        };
        "{\"showLoadingDisplay\":"@ + bool_json(self.show_loading_display)
            + ",\"forceWaitOnLoading\":"@ + bool_json(self.force_wait_on_loading)
            + ",\"grayScaleLoadingEfx\":"@ + bool_json(self.gray_scale_loading_efx) + module
            + "}"@
    }
}

impl WebappConfig {
    /// The configuration as the web app parses it.
    pub fn json(&self) -> (json: String)
        ensures
            json@ == self@.json(),
    {
        let mut json = "{\"showLoadingDisplay\":".to_owned();
        json.append(bool_text(self.show_loading_display));
        json.append(",\"forceWaitOnLoading\":");
        json.append(bool_text(self.force_wait_on_loading));
        json.append(",\"grayScaleLoadingEfx\":");
        json.append(bool_text(self.gray_scale_loading_efx));
        let mut module = String::new();
        if let Some(name) = &self.initial_module_name {
            module.append(",\"initialModuleName\":");
            module.append(quote(name.as_str()).as_str());
        }
        assert(module@ == (match self@.initial_module_name {
            Some(name) => ",\"initialModuleName\":"@ + quoted(name),
            None => Seq::empty(),
        }));
        json.append(module.as_str());
        json.append("}");
        json
    }
}

/// The configuration for one window. Only the first window waits for the boot
/// animation, and only the others boot in gray.
pub fn webapp_config(
    settings: &Settings,
    module: Option<&str>,
    is_first: bool,
) -> (config: WebappConfig)
    ensures
        config@ == config_for(
            settings@,
            match module {
                Some(name) => Some(name@),
                None => None,
            },
            is_first,
        ),
{
    WebappConfig {
        show_loading_display: settings.boot_animation,
        force_wait_on_loading: settings.boot_animation && is_first,
        gray_scale_loading_efx: !is_first,
        initial_module_name: match module {
            Some(name) => Some(name.to_owned()),
            None => None,
        },
    }
}

/// In split layout the page is laid out for the whole desktop and every window shows
/// only its own slice of it.
#[derive(Clone, Copy, Debug, PartialEq, Eq, Structural)]
pub struct Viewport {
    pub scene: Rect,
    pub offset_x: i32,
    pub offset_y: i32,
    /// The monitor's DPI scale. The page works in CSS pixels, the desktop in physical
    /// ones, and at anything other than 100% the two differ.
    pub scale: Binary64,
}

/// A viewport in CSS pixels: the size of the scene, and where in it the window lies.
#[derive(Clone, Copy, Debug, PartialEq, Eq, Structural)]
pub struct CssSlice {
    pub width: i32,
    pub height: i32,
    pub left: i32,
    pub top: i32,
}

/// The scale to divide by. One that is not positive says nothing.
pub open spec fn divisor(scale: Binary64) -> Binary64 {
    if number(ZERO).below(scale) {
        scale
    } else {
        number(ONE)
    }
}

pub fn css_scale(scale: Binary64) -> (used: Binary64)
    ensures
        used == divisor(scale),
{
    if (Binary64 { bits: ZERO }).less_than(scale) {
        scale
    } else {
        Binary64 { bits: ONE }
    }
}

/// The script that stretches the document over the whole scene and shifts it so that the
/// window lands on its own part.
pub open spec fn viewport_script(slice: CssSlice) -> Seq<char> {
    VIEWPORT_WIDTH@ + signed_digits(slice.width as int) + VIEWPORT_HEIGHT@ + signed_digits(
        slice.height as int,
    ) + VIEWPORT_LEFT@ + signed_digits(-slice.left) + VIEWPORT_TOP@ + signed_digits(-slice.top)
        + VIEWPORT_TAIL@
}

/// Stretches the document over the whole desktop and shifts it so this window lands on
/// its own part of the scene. The app sizes its canvas from the window and from the
/// document, so both have to report the whole scene rather than this window.
pub fn split_viewport_js(slice: CssSlice) -> (script: String)
    ensures
        script@ == viewport_script(slice),
{
    let mut script = VIEWPORT_WIDTH.to_owned();
    script.append(signed_decimal(slice.width as i64).as_str());
    script.append(VIEWPORT_HEIGHT);
    script.append(signed_decimal(slice.height as i64).as_str());
    script.append(VIEWPORT_LEFT);
    script.append(signed_decimal(-(slice.left as i64)).as_str());
    script.append(VIEWPORT_TOP);
    script.append(signed_decimal(-(slice.top as i64)).as_str());
    script.append(VIEWPORT_TAIL);
    script
}

/// The script of a window: the bridge with its configuration and, in split layout, the
/// viewport.
pub open spec fn window_script(
    settings: SettingsView,
    module: Option<Seq<char>>,
    is_first: bool,
    slice: Option<CssSlice>,
) -> Seq<char> {
    let viewport = match slice {
        Some(slice) => if settings.layout == Layout::Split {
            viewport_script(slice)
        } else {
            Seq::empty()
        },
        None => Seq::empty(),
    };
    SCRIPT_HEAD@ + config_for(settings, module, is_first).json() + SCRIPT_BODY@ + viewport
        + SCRIPT_TAIL@
}

pub fn init_script(
    settings: &Settings,
    module: Option<&str>,
    is_first: bool,
    slice: Option<CssSlice>,
) -> (script: String)
    ensures
        script@ == window_script(
            settings@,
            match module {
                Some(name) => Some(name@),
                None => None,
            },
            is_first,
            slice,
        ),
{
    let config = webapp_config(settings, module, is_first);
    let viewport = match (settings.layout, slice) {
        (Layout::Split, Some(slice)) => split_viewport_js(slice),
        _ => String::new(),
    };
    let mut script = SCRIPT_HEAD.to_owned();
    script.append(config.json().as_str());
    script.append(SCRIPT_BODY);
    script.append(viewport.as_str());
    script.append(SCRIPT_TAIL);
    script
}

/// What the page is told to do.
#[derive(Clone, Copy, Debug, PartialEq, Eq, Structural)]
pub enum Action {
    SetBorderOnMouseOver,
    SetMargin,
    ToggleFilterEffects,
    AudioOn,
    AudioOff,
    SetSfxVolume,
    SetSbgVolume,
    SetRedAlert,
    SetActiveModule,
    SystemInfoUpdated,
}

impl Action {
    pub open spec fn text(self) -> Seq<char> {
        match self {
            Action::SetBorderOnMouseOver => "set-border-on-mouse-over"@,
            Action::SetMargin => "set-margin"@,
            Action::ToggleFilterEffects => "toggle-filter-effects"@,
            Action::AudioOn => "audio-on"@,
            Action::AudioOff => "audio-off"@,
            Action::SetSfxVolume => "set-sfx-volume"@,
            Action::SetSbgVolume => "set-sbg-volume"@,
            Action::SetRedAlert => "set-red-alert"@,
            Action::SetActiveModule => "set-active-module"@,
            Action::SystemInfoUpdated => "system-info-updated"@,
        }
    }

    /// What the page calls the action.
    pub fn name(&self) -> (name: &'static str)
        ensures
            name@ == self.text(),
    {
        match self {
            Action::SetBorderOnMouseOver => "set-border-on-mouse-over",
            Action::SetMargin => "set-margin",
            Action::ToggleFilterEffects => "toggle-filter-effects",
            Action::AudioOn => "audio-on",
            Action::AudioOff => "audio-off",
            Action::SetSfxVolume => "set-sfx-volume",
            Action::SetSbgVolume => "set-sbg-volume",
            Action::SetRedAlert => "set-red-alert",
            Action::SetActiveModule => "set-active-module",
            Action::SystemInfoUpdated => "system-info-updated",
        }
    }
}

/// What goes along with an action.
pub enum Payload {
    Null,
    Bool(bool),
    Whole(u64),
    /// A number with a fraction. Only its bits are known here, not its digits.
    Number(Binary64),
    Text(String),
    /// A red alert, always a silent one.
    RedAlert(bool),
    /// Something that is JSON already.
    Json(String),
}

/// What goes along with an action, as a value.
pub enum PayloadView {
    Null,
    Bool(bool),
    Whole(u64),
    Number(Binary64),
    Text(Seq<char>),
    RedAlert(bool),
    Json(Seq<char>),
}

impl View for Payload {
    type V = PayloadView;

    open spec fn view(&self) -> PayloadView {
        match self {
            Payload::Null => PayloadView::Null,
            Payload::Bool(value) => PayloadView::Bool(*value),
            Payload::Whole(value) => PayloadView::Whole(*value),
            Payload::Number(value) => PayloadView::Number(*value),
            Payload::Text(value) => PayloadView::Text(value@),
            Payload::RedAlert(value) => PayloadView::RedAlert(*value),
            Payload::Json(value) => PayloadView::Json(value@),
        }
    }
}

pub open spec fn bool_json(value: bool) -> Seq<char> {
    if value {
        "true"@
    } else {
        "false"@
    }
}

impl PayloadView {
    /// The payload as JSON. A number with a fraction has no digits here.
    pub open spec fn json(self) -> Option<Seq<char>> {
        match self {
            PayloadView::Null => Some("null"@),
            PayloadView::Bool(value) => Some(bool_json(value)),
            PayloadView::Whole(value) => Some(digits(value as nat)),
            PayloadView::Number(_) => None,
            PayloadView::Text(value) => Some(quoted(value)),
            PayloadView::RedAlert(active) => Some(
                "{\"redAlertActive\":"@ + bool_json(active) + ",\"silentRedAlert\":true}"@,
            ),
            PayloadView::Json(value) => Some(value),
        }
    }
}

fn bool_text(value: bool) -> (text: &'static str)
    ensures
        text@ == bool_json(value),
{
    if value {
        "true"
    } else {
        "false"
    }
}

impl Payload {
    /// The payload as JSON, except for a number with a fraction.
    pub fn json(&self) -> (json: Option<String>)
        ensures
            optional(json) == self@.json(),
    {
        match self {
            Payload::Null => Some("null".to_owned()),
            Payload::Bool(value) => Some(bool_text(*value).to_owned()),
            Payload::Whole(value) => Some(decimal(*value)),
            Payload::Number(_) => None,
            Payload::Text(value) => Some(quote(value.as_str())),
            Payload::RedAlert(active) => {
                let mut json = "{\"redAlertActive\":".to_owned();
                json.append(bool_text(*active));
                json.append(",\"silentRedAlert\":true}");
                Some(json)
            },
            Payload::Json(value) => Some(value.clone()),
        }
    }
}

/// The state of a window as pages ask for it when they start.
pub open spec fn window_state_text(red_alert: bool, margin: u8) -> Seq<char> {
    "{\"windowType\":\"main\",\"titleBarStyle\":\"hidden\",\"redAlertActive\":"@ + bool_json(
        red_alert,
    ) + ",\"silentRedAlert\":true,\"marginStyle\":"@ + digits(margin as nat) + "}"@
}

/// The state of a window as JSON, given its alert and its margin.
pub fn window_state_json(red_alert: bool, margin: u8) -> (json: String)
    ensures
        json@ == window_state_text(red_alert, margin),
{
    let mut json = "{\"windowType\":\"main\",\"titleBarStyle\":\"hidden\",\"redAlertActive\":".to_owned();
    json.append(bool_text(red_alert));
    json.append(",\"silentRedAlert\":true,\"marginStyle\":");
    json.append(decimal(margin as u64).as_str());
    json.append("}");
    json
}

/// A call that pushes one action into a page.
pub open spec fn dispatch_script(action: Seq<char>, value_json: Seq<char>) -> Seq<char> {
    "window.__titanDispatch && window.__titanDispatch("@ + quoted(action) + ", "@ + value_json
        + ");"@
}

/// A single action pushed into one window, with its payload as JSON.
pub fn dispatch_call(action: &str, value_json: &str) -> (script: String)
    ensures
        script@ == dispatch_script(action@, value_json@),
{
    let mut script = "window.__titanDispatch && window.__titanDispatch(".to_owned();
    script.append(quote(action).as_str());
    script.append(", ");
    script.append(value_json);
    script.append(");");
    script
}


/// Every window shows the boot animation exactly if the settings ask for it; only the
/// first one waits for it, and every other one shows it in gray. A window starts with
/// the module it was given.
pub proof fn only_the_first_window_waits(
    settings: SettingsView,
    module: Option<Seq<char>>,
    is_first: bool,
)
    ensures
        config_for(settings, module, is_first).show_loading_display <==> settings.boot_animation,
        config_for(settings, module, true).force_wait_on_loading <==> settings.boot_animation,
        !config_for(settings, module, false).force_wait_on_loading,
        !config_for(settings, module, true).gray_scale_loading_efx,
        config_for(settings, module, false).gray_scale_loading_efx,
        config_for(settings, module, is_first).initial_module_name == module,
{
}

/// The page finds each part of the configuration under its own name, and a module only
/// where there is one.
pub proof fn configuration_is_written_under_its_names(config: WebappConfigView, name: Seq<char>)
    ensures
        config.json() == "{\"showLoadingDisplay\":"@ + bool_json(config.show_loading_display)
            + ",\"forceWaitOnLoading\":"@ + bool_json(config.force_wait_on_loading)
            + ",\"grayScaleLoadingEfx\":"@ + bool_json(config.gray_scale_loading_efx) + (
        match config.initial_module_name {
            Some(name) => ",\"initialModuleName\":"@ + quoted(name),
            None => Seq::empty(),
        }) + "}"@,
{
}

/// A scale above zero is divided by as it is; any other, and what is no number, counts
/// as one.
pub proof fn positive_scales_are_divided_by(scale: Binary64)
    ensures
        !scale.is_nan() && scale.scaled() > 0 ==> divisor(scale) == scale,
        scale.is_nan() || scale.scaled() <= 0 ==> divisor(scale) == number(0x3ff0_0000_0000_0000),
{
    assert(number(ZERO).scaled() == 0);
}

/// The viewport goes into the script in split layout alone; there it stands behind the
/// configuration, whatever slice it is for.
pub proof fn viewports_are_for_split_scenes(
    settings: SettingsView,
    module: Option<Seq<char>>,
    is_first: bool,
    slice: CssSlice,
)
    ensures
        settings.layout != Layout::Split ==> window_script(settings, module, is_first, Some(slice))
            == window_script(settings, module, is_first, None),
        settings.layout == Layout::Split ==> window_script(settings, module, is_first, Some(slice))
            == SCRIPT_HEAD@ + config_for(settings, module, is_first).json() + SCRIPT_BODY@
            + viewport_script(slice) + SCRIPT_TAIL@,
        window_script(settings, module, is_first, None) == SCRIPT_HEAD@ + config_for(
            settings,
            module,
            is_first,
        ).json() + SCRIPT_BODY@ + SCRIPT_TAIL@,
{
    let head = SCRIPT_HEAD@ + config_for(settings, module, is_first).json() + SCRIPT_BODY@;
    assert(head + Seq::<char>::empty() == head);
}

/// In the script the scene's size comes first, and the offsets stand behind it with
/// their signs turned round.
pub proof fn slices_are_shifted_back(slice: CssSlice)
    ensures
        (VIEWPORT_WIDTH@ + signed_digits(slice.width as int) + VIEWPORT_HEIGHT@ + signed_digits(
            slice.height as int,
        ) + VIEWPORT_LEFT@ + signed_digits(0 - slice.left) + VIEWPORT_TOP@ + signed_digits(
            0 - slice.top,
        )).is_prefix_of(viewport_script(slice)),
{
}

proof fn lemma_behind(front: Seq<char>, one: Seq<char>, two: Seq<char>)
    requires
        front + one == front + two,
    ensures
        one == two,
{
    assert((front + one).skip(front.len() as int) == one);
    assert((front + two).skip(front.len() as int) == two);
}

/// The page knows every action by its own name.
pub proof fn actions_have_their_names()
    ensures
        Action::SetBorderOnMouseOver.text() == "set-border-on-mouse-over"@,
        Action::SetMargin.text() == "set-margin"@,
        Action::ToggleFilterEffects.text() == "toggle-filter-effects"@,
        Action::AudioOn.text() == "audio-on"@,
        Action::AudioOff.text() == "audio-off"@,
        Action::SetSfxVolume.text() == "set-sfx-volume"@,
        Action::SetSbgVolume.text() == "set-sbg-volume"@,
        Action::SetRedAlert.text() == "set-red-alert"@,
        Action::SetActiveModule.text() == "set-active-module"@,
        Action::SystemInfoUpdated.text() == "system-info-updated"@,
{
}

/// Two dispatches never come out as the same script unless both the action and the
/// value are the same.
pub proof fn dispatches_are_told_apart(
    action: Seq<char>,
    value: Seq<char>,
    other: Seq<char>,
    second: Seq<char>,
)
    requires
        dispatch_script(action, value) == dispatch_script(other, second),
    ensures
        action == other,
        value == second,
{
    let front = "window.__titanDispatch && window.__titanDispatch("@;
    let left = ", "@ + (value + ");"@);
    let right = ", "@ + (second + ");"@);
    assert(dispatch_script(action, value) == front + (quoted(action) + left));
    assert(dispatch_script(other, second) == front + (quoted(other) + right));
    lemma_behind(front, quoted(action) + left, quoted(other) + right);
    quoted_texts_are_told_apart(action, other, left, right);
    lemma_behind(", "@, value + ");"@, second + ");"@);
    let (one, two) = (value + ");"@, second + ");"@);
    assert(value.len() == second.len());
    assert(one.take(value.len() as int) == value);
    assert(two.take(second.len() as int) == second);
}

/// A payload is written as the value it stands for; a number that is not whole is
/// written by whoever sends it.
pub proof fn payloads_are_written_as_values(value: u64, text: Seq<char>, on: bool, n: Binary64)
    ensures
        PayloadView::Null.json() == Some("null"@),
        PayloadView::Bool(true).json() == Some("true"@),
        PayloadView::Bool(false).json() == Some("false"@),
        PayloadView::Whole(value).json() == Some(digits(value as nat)),
        PayloadView::Text(text).json() == Some(quoted(text)),
        PayloadView::Json(text).json() == Some(text),
        PayloadView::Number(n).json() is None,
        PayloadView::RedAlert(on).json() == Some(
            if on {
                "{\"redAlertActive\":"@ + "true"@ + ",\"silentRedAlert\":true}"@
            } else {
                "{\"redAlertActive\":"@ + "false"@ + ",\"silentRedAlert\":true}"@
            },
        ),
{
}

/// The state of a window tells both its alert and its margin.
pub proof fn window_states_are_told_apart(alert: bool, margin: u8, other: bool, second: u8)
    requires
        window_state_text(alert, margin) == window_state_text(other, second),
    ensures
        alert == other,
        margin == second,
{
    reveal_strlit("true");
    reveal_strlit("false");
    reveal_strlit("}");
    let front = "{\"windowType\":\"main\",\"titleBarStyle\":\"hidden\",\"redAlertActive\":"@;
    let mid = ",\"silentRedAlert\":true,\"marginStyle\":"@;
    let left = mid + (digits(margin as nat) + "}"@);
    let right = mid + (digits(second as nat) + "}"@);
    assert(window_state_text(alert, margin) == front + (bool_json(alert) + left));
    assert(window_state_text(other, second) == front + (bool_json(other) + right));
    lemma_behind(front, bool_json(alert) + left, bool_json(other) + right);
    assert((bool_json(alert) + left)[0] == bool_json(alert)[0]);
    assert((bool_json(other) + right)[0] == bool_json(other)[0]);
    assert(alert == other);
    lemma_behind(bool_json(alert), left, right);
    lemma_behind(mid, digits(margin as nat) + "}"@, digits(second as nat) + "}"@);
    written_numbers_are_told_apart(margin as int, second as int, "}"@, "}"@);
}

} // verus!
