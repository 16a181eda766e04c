//! What clicking through the menu comes to: every item does what it says.

use crate::binary64::{number, order_of_positive_bits, EPSILON, ONE, QUARTER, THOUSANDTH, ZERO};
use crate::bridge::{Action, PayloadView};
use crate::menu::{
    background_entries, filter_checks, fit_entries, layout_entries, margin_checks,
    module_checks, monitor_checked, scale_checks, screen_choice, screen_prefix,
    shuffle_checks, volume_checks, EntryView, MARGIN_LABELS, SHUFFLE_MINUTES, VOLUME_BITS,
    VOLUME_IDS,
};
use crate::modules::MODULES;
use crate::settings::{
    first_of, lemma_first_of, scale_stays_in_range, Fit, MonitorsView, SettingsView,
    StaticBackground, FILTERS, RENDER_SCALE_BITS, RENDER_SCALE_IDS,
};
use crate::text::{
    digits, last_mark, lemma_last_mark, split_last, stripped, written_numbers_read_back,
};
use crate::tray::{
    background_named, command_effects, command_of, event_effects, filter_dispatches, fit_named,
    is_parametrised, layout_named, listed, monitor_toggled, number_or, number_or_zero,
    parametrised_command, parametrised_effects, scale_unchanged, settings_after, toggled,
    CommandView, EffectView, InputsView,
};
use vstd::prelude::*;

verus! {

/// The id of an entry that can be checked.
pub open spec fn id_of(entry: EntryView) -> Seq<char> {
    entry->Check_id
}

pub open spec fn is_checked(entry: EntryView) -> bool {
    entry->checked
}

/// The settings once an entry was clicked.
pub open spec fn clicked(
    settings: SettingsView,
    entry: EntryView,
    inputs: InputsView,
) -> SettingsView {
    settings_after(settings, command_of(id_of(entry)), inputs)
}

proof fn lemma_own_prefix(own: Seq<char>, rest: Seq<char>)
    ensures
        stripped(own + rest, own) == Some(rest),
{
    assert((own + rest).subrange(0, own.len() as int) == own);
    assert((own + rest).skip(own.len() as int) == rest);
}

/// How the ids with a parameter start, in the order in which they are tried.
spec fn prefix(kind: u8) -> Seq<char> {
    match kind {
        0 => "module:"@,
        1 => "screen-module:"@,
        2 => "monitor:"@,
        3 => "layout:"@,
        4 => "margin:"@,
        5 => "filter:"@,
        6 => "sfx:"@,
        7 => "engine:"@,
        8 => "render-scale:"@,
        9 => "shuffle:"@,
        10 => "fit:"@,
        _ => "background:"@,
    }
}

/// What an id that starts in one of these ways stands for.
spec fn prefixed_command(kind: u8, rest: Seq<char>) -> CommandView {
    match kind {
        0 => CommandView::Module(rest),
        1 => match split_last(rest, ':') {
            Some((key, name)) => CommandView::ScreenModule(key, name),
            None => CommandView::Nothing,
        },
        2 => CommandView::Monitor(rest),
        3 => CommandView::Layout(layout_named(rest)),
        4 => CommandView::Margin(number_or_zero(rest, u8::MAX as nat) as u8),
        5 => CommandView::Filter(rest),
        6 => CommandView::SfxVolume(rest),
        7 => CommandView::EngineVolume(rest),
        8 => CommandView::RenderScale(rest),
        9 => CommandView::Shuffle(number_or_zero(rest, u64::MAX as nat) as u64),
        10 => CommandView::Fit(fit_named(rest)),
        _ => CommandView::Background(background_named(rest)),
    }
}

/// Whether a text has one colon, at its end.
spec fn is_marked(text: Seq<char>) -> bool {
    &&& text.len() > 0
    &&& text.last() == ':'
    &&& forall|i: int| 0 <= i < text.len() - 1 ==> text[i] != ':'
}

/// A text that starts in one way up to its first colon starts in no other.
proof fn lemma_other_prefix(own: Seq<char>, rest: Seq<char>, other: Seq<char>)
    requires
        is_marked(own),
        is_marked(other),
        own != other,
    ensures
        stripped(own + rest, other) is None,
{
    let id = own + rest;
    if other.is_prefix_of(id) {
        assert(other == id.subrange(0, other.len() as int));
        assert(other[other.len() - 1] == ':' && id[own.len() - 1] == ':');
        if own.len() < other.len() {
            assert(other[own.len() - 1] == id[own.len() - 1]);
        }
        if other.len() < own.len() {
            assert(own[other.len() - 1] == id[other.len() - 1]);
        }
        assert(own == id.subrange(0, own.len() as int));
    }
}

proof fn lemma_prefixes(kind: u8)
    requires
        0 <= kind < 12,
    ensures
        is_marked(prefix(kind)),
        forall|other: u8|
            0 <= other < 12 && other != kind ==> #[trigger] prefix(other) != prefix(kind),
        prefix(kind).len() == 4 || prefix(kind).len() == 7 || prefix(kind).len() == 8
            || prefix(kind).len() == 11 || prefix(kind).len() == 13 || prefix(kind).len() == 14,
{
    reveal_strlit("module:");
    reveal_strlit("screen-module:");
    reveal_strlit("monitor:");
    reveal_strlit("layout:");
    reveal_strlit("margin:");
    reveal_strlit("filter:");
    reveal_strlit("sfx:");
    reveal_strlit("engine:");
    reveal_strlit("render-scale:");
    reveal_strlit("shuffle:");
    reveal_strlit("fit:");
    reveal_strlit("background:");
    assert forall|other: u8| 0 <= other < 12 && other != kind implies #[trigger] prefix(other)
        != prefix(kind) by {
        let (one, two) = (prefix(kind), prefix(other));
        assert(one.len() != two.len() || one[0] != two[0] || one[1] != two[1] || one[2] != two[2]);
    }
}

/// An id with a parameter is none of the ids without one.
proof fn lemma_no_plain_id(id: Seq<char>, n: int)
    requires
        n == 4 || n == 7 || n == 8 || n == 11 || n == 13 || n == 14,
        n <= id.len(),
        id[n - 1] == ':',
    ensures
        command_of(id) == parametrised_command(id),
{
    reveal_strlit("quit");
    reveal_strlit("pause");
    reveal_strlit("shuffle-now");
    reveal_strlit("reload");
    reveal_strlit("settings-file");
    reveal_strlit("varied-modules");
    reveal_strlit("red-alert");
    reveal_strlit("boot-animation");
    reveal_strlit("audio");
    reveal_strlit("pause-covered");
    reveal_strlit("pause-fullscreen");
    reveal_strlit("system-info");
    reveal_strlit("autostart");
    reveal_strlit("monitors:all");
    reveal_strlit("monitors:primary");
}

/// An id that starts in one of the ways with a parameter stands for what that one
/// means, whatever follows.
proof fn lemma_prefixed(kind: u8, rest: Seq<char>)
    requires
        0 <= kind < 12,
    ensures
        command_of(prefix(kind) + rest) == prefixed_command(kind, rest),
{
    let id = prefix(kind) + rest;
    lemma_prefixes(kind);
    lemma_own_prefix(prefix(kind), rest);
    lemma_no_plain_id(id, prefix(kind).len() as int);
    assert forall|other: u8| 0 <= other < 12 && other != kind implies stripped(
        id,
        #[trigger] prefix(other),
    ) is None by {
        lemma_prefixes(other);
        lemma_other_prefix(prefix(kind), rest, prefix(other));
    }
    assert(prefix(0) == "module:"@);
    assert(prefix(1) == "screen-module:"@);
    assert(prefix(2) == "monitor:"@);
    assert(prefix(3) == "layout:"@);
    assert(prefix(4) == "margin:"@);
    assert(prefix(5) == "filter:"@);
    assert(prefix(6) == "sfx:"@);
    assert(prefix(7) == "engine:"@);
    assert(prefix(8) == "render-scale:"@);
    assert(prefix(9) == "shuffle:"@);
    assert(prefix(10) == "fit:"@);
    assert(prefix(11) == "background:"@);
}

/// The id of a module stands for that module.
proof fn lemma_module_id(name: Seq<char>)
    ensures
        command_of("module:"@ + name) == CommandView::Module(name),
{
    lemma_prefixed(0, name);
}

/// The id of a monitor stands for that monitor.
proof fn lemma_monitor_id(key: Seq<char>)
    ensures
        command_of("monitor:"@ + key) == CommandView::Monitor(key),
{
    lemma_prefixed(2, key);
}

/// The id of a layout stands for what its name says.
pub(crate) proof fn lemma_layout_id(name: Seq<char>)
    ensures
        command_of("layout:"@ + name) == CommandView::Layout(layout_named(name)),
{
    lemma_prefixed(3, name);
}

/// The id of a margin stands for that margin.
proof fn lemma_margin_id(margin: u8)
    ensures
        command_of("margin:"@ + digits(margin as nat)) == CommandView::Margin(margin),
{
    lemma_prefixed(4, digits(margin as nat));
    written_numbers_read_back(margin as nat);
}

/// The id of a filter stands for that filter.
proof fn lemma_filter_id(name: Seq<char>)
    ensures
        command_of("filter:"@ + name) == CommandView::Filter(name),
{
    lemma_prefixed(5, name);
}

/// The id of a volume of the sound effects stands for that volume.
pub(crate) proof fn lemma_sfx_id(value: Seq<char>)
    ensures
        command_of("sfx:"@ + value) == CommandView::SfxVolume(value),
{
    lemma_prefixed(6, value);
}

/// The id of a volume of the engine hum stands for that volume.
pub(crate) proof fn lemma_engine_id(value: Seq<char>)
    ensures
        command_of("engine:"@ + value) == CommandView::EngineVolume(value),
{
    lemma_prefixed(7, value);
}

/// The id of a render quality stands for that quality.
pub(crate) proof fn lemma_scale_id(value: Seq<char>)
    ensures
        command_of("render-scale:"@ + value) == CommandView::RenderScale(value),
{
    lemma_prefixed(8, value);
}

/// The id of a time between shuffles stands for that time.
proof fn lemma_shuffle_id(minutes: u64)
    ensures
        command_of("shuffle:"@ + digits(minutes as nat)) == CommandView::Shuffle(minutes),
{
    lemma_prefixed(9, digits(minutes as nat));
    written_numbers_read_back(minutes as nat);
}

/// The id of a fit stands for what its name says.
proof fn lemma_fit_id(name: Seq<char>)
    ensures
        command_of("fit:"@ + name) == CommandView::Fit(fit_named(name)),
{
    lemma_prefixed(10, name);
}

/// The id of a background stands for what its name says.
proof fn lemma_background_id(name: Seq<char>)
    ensures
        command_of("background:"@ + name) == CommandView::Background(background_named(name)),
{
    lemma_prefixed(11, name);
}

/// The id of a module for one screen stands for that screen and that module.
proof fn lemma_screen_module_id(key: Seq<char>, name: Seq<char>)
    requires
        !name.contains(':'),
    ensures
        command_of(screen_prefix(key) + name) == CommandView::ScreenModule(key, name),
{
    let rest = key + ":"@ + name;
    reveal_strlit(":");
    lemma_prefixed(1, rest);
    assert(screen_prefix(key) + name == "screen-module:"@ + rest);
    lemma_last_mark(rest, ':');
    assert(rest[key.len() as int] == ':');
    assert(rest.contains(':'));
    let at = last_mark(rest, ':')->0;
    if at > key.len() {
        assert(name[at - key.len() - 1] == rest[at]);
    }
    assert(at == key.len());
    assert(rest.take(at) == key);
    assert(rest.skip(at + 1) == name);
}

/// Texts with the same beginning are the same where their ends are.
proof fn lemma_same_ends(front: Seq<char>, left: Seq<char>, right: Seq<char>)
    ensures
        front + left == front + right <==> left == right,
{
    if front + left == front + right {
        assert((front + left).skip(front.len() as int) == left);
        assert((front + right).skip(front.len() as int) == right);
    }
}

proof fn lemma_same_numbers(left: nat, right: nat)
    ensures
        digits(left) == digits(right) <==> left == right,
{
    written_numbers_read_back(left);
    written_numbers_read_back(right);
}

/// Clicking a module moves the check mark to it.
pub proof fn chosen_module_is_checked(settings: SettingsView, inputs: InputsView, i: int, j: int)
    requires
        0 <= i < MODULES@.len(),
        0 <= j < MODULES@.len(),
    ensures
        ({
            let before = module_checks("module:"@, settings.module);
            let after = module_checks("module:"@, clicked(settings, before[i], inputs).module);
            is_checked(after[j]) <==> id_of(after[j]) == id_of(before[i])
        }),
{
    lemma_module_id(MODULES@[i]@);
    lemma_same_ends("module:"@, MODULES@[i]@, MODULES@[j]@);
}

/// Clicking a module of one screen moves the check mark of that screen to it, and
/// those of the other screens stay where they are. So does the choice to follow the
/// global setting.
pub proof fn chosen_screen_module_is_checked(
    settings: SettingsView,
    inputs: InputsView,
    key: Seq<char>,
    other: Seq<char>,
    name: Seq<char>,
)
    requires
        !name.contains(':'),
    ensures
        ({
            let after = settings_after(settings, command_of(screen_prefix(key) + name), inputs);
            &&& screen_choice(after, key) == name
            &&& other != key ==> screen_choice(after, other) == screen_choice(settings, other)
        }),
{
    lemma_screen_module_id(key, name);
}

/// Clicking a layout moves the check mark to it.
pub proof fn chosen_layout_is_checked(settings: SettingsView, inputs: InputsView, i: int, j: int)
    requires
        0 <= i < 3,
        0 <= j < 3,
    ensures
        ({
            let before = layout_entries(settings.layout);
            let after = layout_entries(clicked(settings, before[i], inputs).layout);
            is_checked(after[j]) <==> j == i
        }),
{
    reveal_strlit("layout:");
    reveal_strlit("separate");
    reveal_strlit("split");
    reveal_strlit("span");
    reveal_strlit("layout:separate");
    reveal_strlit("layout:split");
    reveal_strlit("layout:span");
    lemma_layout_id("separate"@);
    lemma_layout_id("split"@);
    lemma_layout_id("span"@);
    assert("layout:"@ + "separate"@ == "layout:separate"@);
    assert("layout:"@ + "split"@ == "layout:split"@);
    assert("layout:"@ + "span"@ == "layout:span"@);
    assert("separate"@.len() == 8 && "split"@.len() == 5 && "span"@.len() == 4);
}

/// Clicking a margin moves the check mark to it.
pub proof fn chosen_margin_is_checked(settings: SettingsView, inputs: InputsView, i: int, j: int)
    requires
        0 <= i < MARGIN_LABELS@.len(),
        0 <= j < MARGIN_LABELS@.len(),
    ensures
        ({
            let before = margin_checks(settings.margin);
            let after = margin_checks(clicked(settings, before[i], inputs).margin);
            is_checked(after[j]) <==> j == i
        }),
{
    lemma_margin_id(i as u8);
}

/// Clicking a filter moves the check mark to it.
pub proof fn chosen_filter_is_checked(settings: SettingsView, inputs: InputsView, i: int, j: int)
    requires
        0 <= i < FILTERS@.len(),
        0 <= j < FILTERS@.len(),
    ensures
        ({
            let before = filter_checks(settings.filter);
            let after = filter_checks(clicked(settings, before[i], inputs).filter);
            is_checked(after[j]) <==> id_of(after[j]) == id_of(before[i])
        }),
{
    lemma_filter_id(FILTERS@[i]@);
    lemma_same_ends("filter:"@, FILTERS@[i]@, FILTERS@[j]@);
}

/// Clicking a time between shuffles moves the check mark to it.
pub proof fn chosen_shuffle_is_checked(settings: SettingsView, inputs: InputsView, i: int, j: int)
    requires
        0 <= i < SHUFFLE_MINUTES@.len(),
        0 <= j < SHUFFLE_MINUTES@.len(),
    ensures
        ({
            let before = shuffle_checks(settings.shuffle_minutes);
            let after = shuffle_checks(clicked(settings, before[i], inputs).shuffle_minutes);
            is_checked(after[j]) <==> id_of(after[j]) == id_of(before[i])
        }),
{
    let (here, there) = (SHUFFLE_MINUTES@[i], SHUFFLE_MINUTES@[j]);
    lemma_shuffle_id(here);
    lemma_same_ends("shuffle:"@, digits(here as nat), digits(there as nat));
    lemma_same_numbers(here as nat, there as nat);
}

proof fn lemma_fit_ids()
    ensures
        command_of("fit:full"@) == CommandView::Fit(Fit::Full),
        command_of("fit:workarea"@) == CommandView::Fit(Fit::WorkArea),
{
    reveal_strlit("fit:");
    reveal_strlit("full");
    reveal_strlit("workarea");
    reveal_strlit("fit:full");
    reveal_strlit("fit:workarea");
    lemma_fit_id("full"@);
    lemma_fit_id("workarea"@);
    assert("fit:"@ + "full"@ == "fit:full"@);
    assert("fit:"@ + "workarea"@ == "fit:workarea"@);
    assert("full"@.len() == 4 && "workarea"@.len() == 8);
}

proof fn lemma_background_ids()
    ensures
        command_of("background:leave"@) == CommandView::Background(StaticBackground::Leave),
        command_of("background:black"@) == CommandView::Background(StaticBackground::Black),
{
    reveal_strlit("background:");
    reveal_strlit("leave");
    reveal_strlit("black");
    reveal_strlit("background:leave");
    reveal_strlit("background:black");
    lemma_background_id("leave"@);
    lemma_background_id("black"@);
    assert("background:"@ + "leave"@ == "background:leave"@);
    assert("background:"@ + "black"@ == "background:black"@);
    assert("leave"@[1] == 'e' && "black"@[1] == 'l');
}

/// Clicking a screen fit moves the check mark to it.
pub proof fn chosen_fit_is_checked(settings: SettingsView, inputs: InputsView, i: int, j: int)
    requires
        0 <= i < 2,
        0 <= j < 2,
    ensures
        ({
            let before = fit_entries(settings.fit, settings.insets);
            let after = fit_entries(clicked(settings, before[i], inputs).fit, settings.insets);
            is_checked(after[j]) <==> j == i
        }),
{
    lemma_fit_ids();
}

/// Clicking what becomes of the static wallpaper moves the check mark to it.
pub proof fn chosen_background_is_checked(
    settings: SettingsView,
    inputs: InputsView,
    i: int,
    j: int,
)
    requires
        0 <= i < 2,
        0 <= j < 2,
    ensures
        ({
            let before = background_entries(settings.static_background);
            let after = background_entries(
                clicked(settings, before[i], inputs).static_background,
            );
            is_checked(after[j]) <==> j == i
        }),
{
    lemma_background_ids();
}

proof fn lemma_tolerances()
    ensures
        number(EPSILON).scaled() > 0,
        number(THOUSANDTH).scaled() > 0,
{
    order_of_positive_bits(ZERO, EPSILON);
    order_of_positive_bits(ZERO, THOUSANDTH);
    assert(number(ZERO).scaled() == 0);
}

/// Clicking a volume puts the check mark on it, given that its text is read as the
/// number it spells.
pub proof fn chosen_volume_is_checked(settings: SettingsView, inputs: InputsView, i: int)
    requires
        0 <= i < VOLUME_BITS@.len(),
        inputs.number == Some(number(VOLUME_BITS@[i])),
    ensures
        ({
            let before = volume_checks("sfx:"@, settings.sfx_volume, settings.audio);
            let after = clicked(settings, before[i], inputs);
            is_checked(volume_checks("sfx:"@, after.sfx_volume, after.audio)[i])
        }),
        ({
            let before = volume_checks("engine:"@, settings.engine_volume, settings.audio);
            let after = clicked(settings, before[i], inputs);
            is_checked(volume_checks("engine:"@, after.engine_volume, after.audio)[i])
        }),
{
    lemma_tolerances();
    lemma_sfx_id(VOLUME_IDS@[i]@);
    lemma_engine_id(VOLUME_IDS@[i]@);
    assert(number(VOLUME_BITS@[i]).is_number());
}

/// Clicking a render quality puts the check mark on it, given that its text is read
/// as the number it spells.
pub proof fn chosen_scale_is_checked(settings: SettingsView, inputs: InputsView, i: int)
    requires
        0 <= i < RENDER_SCALE_BITS@.len(),
        inputs.number == Some(number(RENDER_SCALE_BITS@[i])),
    ensures
        ({
            let before = scale_checks(settings.scale_held());
            let after = clicked(settings, before[i], inputs);
            is_checked(scale_checks(after.scale_held())[i])
        }),
{
    let step = RENDER_SCALE_BITS@[i];
    lemma_tolerances();
    lemma_scale_id(RENDER_SCALE_IDS@[i]@);
    scale_stays_in_range(settings);
    assert(QUARTER < step <= ONE);
    assert(number(step).is_number());
    order_of_positive_bits(QUARTER, step);
    if step < ONE {
        order_of_positive_bits(step, ONE);
    }
}

/// Flipping a switch twice leaves all settings as they were.
pub proof fn switching_twice_changes_nothing(
    settings: SettingsView,
    command: CommandView,
    inputs: InputsView,
    later: InputsView,
)
    requires
        command is VariedModules || command is RedAlert || command is BootAnimation
            || command is Audio || command is PauseCovered || command is PauseFullscreen
            || command is SystemInfo,
    ensures
        settings_after(settings_after(settings, command, inputs), command, later) == settings,
{
}

/// Reloading takes up whatever was edited in the settings file, insets among it: the
/// settings are what the file holds, and the windows are opened again after that.
pub proof fn reloading_takes_up_the_file(
    settings: SettingsView,
    file: SettingsView,
    paused: bool,
    inputs: InputsView,
)
    requires
        inputs.file == Some(file),
    ensures
        settings_after(settings, command_of("reload"@), inputs) == file,
        event_effects(settings, paused, command_of("reload"@), inputs).contains(
            EffectView::Rebuild,
        ),
        event_effects(settings, paused, command_of("reload"@), inputs).contains(
            EffectView::ApplyBackground,
        ) <==> file.static_background != settings.static_background,
{
    reveal_strlit("quit");
    reveal_strlit("pause");
    reveal_strlit("shuffle-now");
    reveal_strlit("reload");
    assert("reload"@.len() == 6 && "quit"@.len() == 4 && "pause"@.len() == 5
        && "shuffle-now"@.len() == 11);
    let effects = event_effects(settings, paused, CommandView::Reload, inputs);
    if file.static_background == settings.static_background {
        assert(effects[0] == EffectView::Rebuild);
        assert(effects =~= seq![EffectView::Rebuild, EffectView::RefreshMenu]);
    } else {
        assert(effects[0] == EffectView::ApplyBackground);
        assert(effects[1] == EffectView::Rebuild);
    }
}

/// A file that holds the settings in use changes none of them: reloading only opens
/// the windows again.
pub proof fn reloading_the_same_only_rebuilds(
    settings: SettingsView,
    paused: bool,
    inputs: InputsView,
)
    requires
        inputs.file is Some ==> inputs.file == Some(settings),
    ensures
        settings_after(settings, CommandView::Reload, inputs) == settings,
        event_effects(settings, paused, CommandView::Reload, inputs) == seq![
            EffectView::Rebuild,
            EffectView::RefreshMenu,
        ],
{
}

/// A screen fit, a static wallpaper or a render quality that is already in place
/// changes nothing, saves nothing, and opens no window again.
pub proof fn same_choice_rebuilds_nothing(
    settings: SettingsView,
    command: CommandView,
    inputs: InputsView,
    paused: bool,
)
    requires
        command == CommandView::Fit(settings.fit) || command == CommandView::Background(
            settings.static_background,
        ) || (command is RenderScale && scale_unchanged(settings, inputs)),
    ensures
        settings_after(settings, command, inputs) == settings,
        event_effects(settings, paused, command, inputs) == seq![EffectView::RefreshMenu],
{
}

/// A render quality from a quarter up to one is in place once it was chosen.
proof fn lemma_chosen_scale_is_held(settings: SettingsView, value: Seq<char>, inputs: InputsView)
    requires
        QUARTER <= number_or(inputs.number, ONE).bits <= ONE,
    ensures
        scale_unchanged(
            settings_after(settings, CommandView::RenderScale(value), inputs),
            inputs,
        ),
{
    let scale = number_or(inputs.number, ONE);
    if !scale_unchanged(settings, inputs) {
        lemma_tolerances();
        assert(scale.is_number());
        if QUARTER < scale.bits {
            order_of_positive_bits(QUARTER, scale.bits);
        } else {
            order_of_positive_bits(QUARTER, ONE);
        }
        if scale.bits < ONE {
            order_of_positive_bits(scale.bits, ONE);
        }
    }
}

/// Choosing the same screen fit, static wallpaper or render quality twice in a row
/// does nothing the second time. A render quality has to lie from a quarter up to
/// one, as all those on offer do.
pub proof fn repeated_choice_does_nothing(
    settings: SettingsView,
    command: CommandView,
    inputs: InputsView,
    later: InputsView,
    paused: bool,
)
    requires
        command is Fit || command is Background || (command is RenderScale && later.number
            == inputs.number && QUARTER <= number_or(inputs.number, ONE).bits <= ONE),
    ensures
        ({
            let after = settings_after(settings, command, inputs);
            &&& settings_after(after, command, later) == after
            &&& parametrised_effects(after, command, later) == Seq::<EffectView>::empty()
            &&& event_effects(after, paused, command, later) == seq![EffectView::RefreshMenu]
        }),
{
    let after = settings_after(settings, command, inputs);
    if let CommandView::RenderScale(value) = command {
        lemma_chosen_scale_is_held(settings, value, inputs);
        assert(scale_unchanged(after, later));
    }
    same_choice_rebuilds_nothing(after, command, later, paused);
}

/// Clicking the same screen fit, static wallpaper or render quality twice in a row
/// does nothing the second time: no setting changes, nothing is saved, no window is
/// opened again, and the static wallpaper is left alone. The text of the render
/// quality has to be read as the number it spells.
pub proof fn repeated_click_does_nothing(
    settings: SettingsView,
    id: Seq<char>,
    inputs: InputsView,
    later: InputsView,
    paused: bool,
    i: int,
)
    requires
        ({
            ||| id == "fit:full"@
            ||| id == "fit:workarea"@
            ||| id == "background:leave"@
            ||| id == "background:black"@
            ||| 0 <= i < RENDER_SCALE_BITS@.len() && id == "render-scale:"@
                + RENDER_SCALE_IDS@[i]@ && inputs.number == Some(number(RENDER_SCALE_BITS@[i]))
                && later.number == inputs.number
        }),
    ensures
        ({
            let after = settings_after(settings, command_of(id), inputs);
            &&& settings_after(after, command_of(id), later) == after
            &&& parametrised_effects(after, command_of(id), later) == Seq::<EffectView>::empty()
            &&& event_effects(after, paused, command_of(id), later) == seq![
                EffectView::RefreshMenu,
            ]
        }),
{
    lemma_fit_ids();
    lemma_background_ids();
    if 0 <= i < RENDER_SCALE_BITS@.len() {
        lemma_scale_id(RENDER_SCALE_IDS@[i]@);
        assert(QUARTER <= RENDER_SCALE_BITS@[i] <= ONE);
    }
    repeated_choice_does_nothing(settings, command_of(id), inputs, later, paused);
}

/// The menu is built again after every click but the one that ends everything.
pub proof fn menu_follows_every_click(
    settings: SettingsView,
    paused: bool,
    id: Seq<char>,
    inputs: InputsView,
)
    ensures
        id != "quit"@ ==> event_effects(settings, paused, command_of(id), inputs).last()
            == EffectView::RefreshMenu,
        id == "quit"@ ==> event_effects(settings, paused, command_of(id), inputs) == seq![
            EffectView::Quit,
        ],
{
}

proof fn lemma_saved_first(settings: SettingsView, command: CommandView, inputs: InputsView)
    requires
        settings_after(settings, command, inputs) != settings,
    ensures
        parametrised_effects(settings, command, inputs).len() > 0 ==> parametrised_effects(
            settings,
            command,
            inputs,
        )[0] == EffectView::Save,
        is_parametrised(command) ==> parametrised_effects(settings, command, inputs).len() > 0,
{
}

/// Whatever changes a setting writes the settings to their file, first of all,
/// unless they were read from there.
pub proof fn changes_are_saved(
    settings: SettingsView,
    paused: bool,
    command: CommandView,
    inputs: InputsView,
)
    requires
        settings_after(settings, command, inputs) != settings,
        command != CommandView::Reload,
    ensures
        event_effects(settings, paused, command, inputs).len() > 0,
        event_effects(settings, paused, command, inputs)[0] == EffectView::Save,
{
    let effects = command_effects(settings, paused, command, inputs);
    if is_parametrised(command) {
        lemma_saved_first(settings, command, inputs);
        assert(effects == parametrised_effects(settings, command, inputs));
    } else {
        assert(command != CommandView::Quit);
        assert(effects.len() > 0 && effects[0] == EffectView::Save);
    }
    assert(event_effects(settings, paused, command, inputs) == effects.push(
        EffectView::RefreshMenu,
    ));
}

/// The old filter is always cleared before a new one is set, and nothing but the
/// new one is.
pub proof fn filter_is_cleared_first(name: Seq<char>, i: int)
    requires
        0 <= i < filter_dispatches(name).len(),
    ensures
        filter_dispatches(name)[i].key is None,
        filter_dispatches(name)[i].action == Action::ToggleFilterEffects,
        filter_dispatches(name)[i].payload == (if i == 0 {
            PayloadView::Null
        } else {
            PayloadView::Text(name)
        }),
        filter_dispatches(name).len() == (if name == "none"@ {
            1int
        } else {
            2
        }),
{
}

proof fn lemma_subset_is_shorter(some: Seq<Seq<char>>, all: Seq<Seq<char>>)
    requires
        some.no_duplicates(),
        all.no_duplicates(),
        forall|name: Seq<char>| some.contains(name) ==> all.contains(name),
    ensures
        some.len() <= all.len(),
        some.len() == all.len() ==> forall|name: Seq<char>|
            all.contains(name) ==> some.contains(name),
{
    some.unique_seq_to_set();
    all.unique_seq_to_set();
    assert(some.to_set().subset_of(all.to_set()));
    vstd::set_lib::lemma_len_subset(some.to_set(), all.to_set());
    if some.len() == all.len() {
        vstd::set_lib::lemma_subset_equality(some.to_set(), all.to_set());
        assert forall|name: Seq<char>| all.contains(name) implies some.contains(name) by {
            assert(all.to_set().contains(name));
            assert(some.to_set().contains(name));
        }
    }
}

/// Clicking a monitor flips its check mark and leaves those of the other monitors
/// alone, so long as only monitors that are there were chosen before. It is refused
/// where it would leave no monitor at all.
pub proof fn clicked_monitor_flips(
    monitors: MonitorsView,
    all: Seq<Seq<char>>,
    key: Seq<char>,
    other: Seq<char>,
)
    requires
        all.no_duplicates(),
        all.contains(key),
        all.contains(other),
        monitors matches MonitorsView::Only(names) ==> names.no_duplicates() && forall|
            name: Seq<char>,
        |
            names.contains(name) ==> all.contains(name),
    ensures
        command_of("monitor:"@ + key) == CommandView::Monitor(key),
        match monitor_toggled(monitors, all, key) {
            Some(after) => monitor_checked(after, other) == (if other == key {
                !monitor_checked(monitors, other)
            } else {
                monitor_checked(monitors, other)
            }),
            None => monitor_checked(monitors, other) <==> other == key,
        },
{
    lemma_monitor_id(key);
    let names = listed(monitors, all);
    let after = toggled(names, key);
    lemma_first_of(names, key);
    assert forall|name: Seq<char>| after.contains(name) <==> if name == key {
        !names.contains(key)
    } else {
        names.contains(name)
    } by {
        match first_of(names, key) {
            Some(at) => {
                if after.contains(name) {
                    let i = choose|i: int| 0 <= i < after.len() && after[i] == name;
                    if i < at {
                        assert(names[i] == name);
                    } else {
                        assert(names[i + 1] == name);
                    }
                }
                if name != key && names.contains(name) {
                    let i = choose|i: int| 0 <= i < names.len() && names[i] == name;
                    if i < at {
                        assert(after[i] == name);
                    } else {
                        assert(after[i - 1] == name);
                    }
                }
            },
            None => {
                if name == key {
                    assert(after[names.len() as int] == key);
                }
                if names.contains(name) {
                    let i = choose|i: int| 0 <= i < names.len() && names[i] == name;
                    assert(after[i] == name);
                }
            },
        }
    }
    assert(after.no_duplicates());
    lemma_subset_is_shorter(after, all);
    if after.len() == 0 {
        assert(!after.contains(other));
        assert(!after.contains(key));
    }
}

} // verus!
