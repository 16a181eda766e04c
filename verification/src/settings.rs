//! Everything the user can choose.

use crate::binary64::{number, Binary64, ONE, QUARTER};
use crate::geometry::{is_i32, Rect};
use crate::text::same;
use vstd::prelude::*;

verus! {

pub const FILTERS: [&'static str; 4] = ["none", "softGlow", "grayScale", "lightMode"];

/// What the fractions of the real pixel count the scene may be rasterised at are
/// called. Rendering and compositing cost follows the number of pixels, so this is
/// the one knob that lowers the price of the animation itself rather than the time
/// it runs.
pub const RENDER_SCALE_LABELS: [&'static str; 5] = [
    "Full (sharpest)",
    "85%",
    "75%",
    "60%",
    "50% (cheapest)",
];

/// The same fractions in decimal.
pub const RENDER_SCALE_IDS: [&'static str; 5] = ["1", "0.85", "0.75", "0.6", "0.5"];

/// The same fractions as double precision numbers.
pub const RENDER_SCALE_BITS: [u64; 5] = [
    0x3ff0_0000_0000_0000,
    0x3feb_3333_3333_3333,
    0x3fe8_0000_0000_0000,
    0x3fe3_3333_3333_3333,
    0x3fe0_0000_0000_0000,
];

/// 0.22
pub const DEFAULT_SFX_VOLUME: u64 = 0x3fcc_28f5_c28f_5c29;

/// 0.12
pub const DEFAULT_ENGINE_VOLUME: u64 = 0x3fbe_b851_eb85_1eb8;

/// How the scene is spread over the available monitors.
#[derive(Clone, Copy, Debug, PartialEq, Eq, Structural)]
pub enum Layout {
    /// One independent scene per monitor, each with its own module.
    Separate,
    /// A single window covering every monitor, so the interface runs across them.
    Span,
    /// One scene the size of the whole desktop, but every monitor gets its own
    /// window showing the slice that belongs to it.
    Split,
}

impl Default for Layout {
    fn default() -> (layout: Self)
        ensures
            layout == Layout::Separate,
    {
        Layout::Separate
    }
}

/// How much of a monitor the wallpaper covers.
#[derive(Clone, Copy, Debug, PartialEq, Eq, Structural)]
pub enum Fit {
    /// The whole monitor, taskbar included; the shell paints over the bottom.
    Full,
    /// Only what the shell leaves free, so the taskbar covers nothing.
    WorkArea,
}

impl Default for Fit {
    fn default() -> (fit: Self)
        ensures
            fit == Fit::Full,
    {
        Fit::Full
    }
}

/// What to do with the static Windows wallpaper hiding behind the animation.
#[derive(Clone, Copy, Debug, PartialEq, Eq, Structural)]
pub enum StaticBackground {
    Leave,
    Black,
}

impl Default for StaticBackground {
    fn default() -> (background: Self)
        ensures
            background == StaticBackground::Leave,
    {
        StaticBackground::Leave
    }
}

/// Extra pixels trimmed off each edge after the fit, for docks and bars the shell
/// does not report.
#[derive(Clone, Copy, Debug, PartialEq, Eq, Structural)]
pub struct Insets {
    pub top: i32,
    pub right: i32,
    pub bottom: i32,
    pub left: i32,
}

impl Default for Insets {
    fn default() -> (insets: Self)
        ensures
            insets == no_insets(),
    {
        Insets { top: 0, right: 0, bottom: 0, left: 0 }
    }
}

pub open spec fn no_insets() -> Insets {
    Insets { top: 0, right: 0, bottom: 0, left: 0 }
}

/// A length, but at least one pixel.
pub open spec fn at_least_one(length: int) -> int {
    if length < 1 {
        1
    } else {
        length
    }
}

impl Insets {
    /// A rectangle with the insets taken off. At least one pixel is left.
    pub open spec fn trimmed(self, bounds: Rect) -> Rect {
        Rect {
            x: (bounds.x + self.left) as i32,
            y: (bounds.y + self.top) as i32,
            width: at_least_one(bounds.width - self.left - self.right) as i32,
            height: at_least_one(bounds.height - self.top - self.bottom) as i32,
        }
    }

    /// Whether trimming stays within the range of coordinates all along.
    pub open spec fn trim_in_range(self, bounds: Rect) -> bool {
        &&& is_i32(bounds.x + self.left)
        &&& is_i32(bounds.y + self.top)
        &&& is_i32(bounds.width - self.left)
        &&& is_i32(bounds.width - self.left - self.right)
        &&& is_i32(bounds.height - self.top)
        &&& is_i32(bounds.height - self.top - self.bottom)
    }

    pub fn is_zero(&self) -> (zero: bool)
        ensures
            zero == (*self == no_insets()),
    {
        *self == Insets::default()
    }

    /// Whether [`Insets::apply`] may be called.
    pub fn fits(&self, bounds: Rect) -> (fits: bool)
        ensures
            fits == self.trim_in_range(bounds),
    {
        match (
            bounds.x.checked_add(self.left),
            bounds.y.checked_add(self.top),
            bounds.width.checked_sub(self.left),
            bounds.height.checked_sub(self.top),
        ) {
            (Some(_), Some(_), Some(width), Some(height)) => width.checked_sub(
                self.right,
            ).is_some() && height.checked_sub(self.bottom).is_some(),
            _ => false,
        }
    }

    pub fn apply(&self, bounds: Rect) -> (trimmed: Rect)
        requires
            self.trim_in_range(bounds),
        ensures
            trimmed == self.trimmed(bounds),
    {
        let width: i32 = bounds.width - self.left - self.right;
        let height: i32 = bounds.height - self.top - self.bottom;
        Rect {
            x: bounds.x + self.left,
            y: bounds.y + self.top,
            width: if width < 1 {
                1
            } else {
                width
            },
            height: if height < 1 {
                1
            } else {
                height
            },
        }
    }
}

/// Insets trim exactly the pixels they say off each edge, so long as they leave
/// anything.
pub proof fn insets_trim_each_edge(insets: Insets, bounds: Rect)
    requires
        insets.trim_in_range(bounds),
        insets.left + insets.right < bounds.width,
        insets.top + insets.bottom < bounds.height,
    ensures
        insets.trimmed(bounds).x == bounds.x + insets.left,
        insets.trimmed(bounds).y == bounds.y + insets.top,
        insets.trimmed(bounds).right() == bounds.right() - insets.right,
        insets.trimmed(bounds).bottom() == bounds.bottom() - insets.bottom,
{
}

/// Whatever the insets, a window is left with some size.
pub proof fn insets_leave_a_window(insets: Insets, bounds: Rect)
    requires
        insets.trim_in_range(bounds),
    ensures
        insets.trimmed(bounds).width >= 1,
        insets.trimmed(bounds).height >= 1,
{
}

/// No insets change nothing about a rectangle that is not empty.
pub proof fn no_insets_change_nothing(bounds: Rect)
    requires
        bounds.width >= 1,
        bounds.height >= 1,
    ensures
        no_insets().trimmed(bounds) == bounds,
{
}

/// The monitors the wallpaper covers.
#[derive(Debug, PartialEq, Eq)]
pub enum Monitors {
    All,
    Primary,
    Only(Vec<String>),
}

/// The monitors the wallpaper covers, as values.
pub enum MonitorsView {
    All,
    Primary,
    Only(Seq<Seq<char>>),
}

/// Some texts, as values.
pub open spec fn texts(list: Seq<String>) -> Seq<Seq<char>> {
    list.map_values(|text: String| text@)
}

impl View for Monitors {
    type V = MonitorsView;

    open spec fn view(&self) -> MonitorsView {
        match self {
            Monitors::All => MonitorsView::All,
            Monitors::Primary => MonitorsView::Primary,
            Monitors::Only(names) => MonitorsView::Only(texts(names@)),
        }
    }
}

/// A list of texts that holds the same texts as another.
pub fn copied(list: &Vec<String>) -> (copy: Vec<String>)
    ensures
        texts(copy@) == texts(list@),
{
    let mut copy: Vec<String> = Vec::new();
    let mut i: usize = 0;
    while i < list.len()
        invariant
            i <= list@.len(),
            texts(copy@) == texts(list@).take(i as int),
        decreases list@.len() - i,
    {
        let ghost before = texts(copy@);
        let text = list[i].clone();
        copy.push(text);
        i += 1;
        assert(texts(copy@) == before.push(text@));
        assert(texts(list@).take(i as int) == before.push(texts(list@)[i - 1]));
    }
    assert(texts(list@).take(i as int) == texts(list@));
    copy
}

impl Clone for Monitors {
    fn clone(&self) -> (monitors: Self)
        ensures
            monitors@ == self@,
    {
        match self {
            Monitors::All => Monitors::All,
            Monitors::Primary => Monitors::Primary,
            Monitors::Only(names) => Monitors::Only(copied(names)),
        }
    }
}

impl Default for Monitors {
    fn default() -> (monitors: Self)
        ensures
            monitors == Monitors::All,
    {
        Monitors::All
    }
}

/// The position of the first of some texts that equals `wanted`.
pub open spec fn first_of(list: Seq<Seq<char>>, wanted: Seq<char>) -> Option<int>
    decreases list.len(),
{
    if list.len() == 0 {
        None
    } else if list[0] == wanted {
        Some(0)
    } else {
        match first_of(list.skip(1), wanted) {
            Some(at) => Some(at + 1),
            None => None,
        }
    }
}

pub fn position_of(list: &Vec<String>, wanted: &str) -> (at: Option<usize>)
    ensures
        at matches Some(at) ==> first_of(texts(list@), wanted@) == Some(at as int) && at
            < list@.len(),
        at is None ==> first_of(texts(list@), wanted@) is None,
{
    let mut i: usize = 0;
    let ghost all = texts(list@);
    assert(all.skip(0) == all);
    while i < list.len()
        invariant
            i <= list@.len(),
            all == texts(list@),
            first_of(all, wanted@) == (match first_of(all.skip(i as int), wanted@) {
                Some(at) => Some(at + i),
                None => None,
            }),
        decreases list@.len() - i,
    {
        let ghost rest = all.skip(i as int);
        assert(rest[0] == list@[i as int]@);
        assert(rest.skip(1) == all.skip(i + 1));
        if same(list[i].as_str(), wanted) {
            return Some(i);
        }
        i += 1;
    }
    None
}

pub proof fn lemma_first_of(list: Seq<Seq<char>>, wanted: Seq<char>)
    ensures
        first_of(list, wanted) is Some <==> list.contains(wanted),
        first_of(list, wanted) matches Some(at) ==> 0 <= at < list.len() && list[at] == wanted,
    decreases list.len(),
{
    if list.len() > 0 && list[0] != wanted {
        lemma_first_of(list.skip(1), wanted);
        if list.contains(wanted) {
            let i = choose|i: int| 0 <= i < list.len() && list[i] == wanted;
            assert(list.skip(1)[i - 1] == wanted);
        }
        if first_of(list.skip(1), wanted) is Some {
            let at = first_of(list.skip(1), wanted)->0;
            assert(list[at + 1] == wanted);
        }
    } else if list.len() > 0 {
        assert(list.contains(list[0]));
    }
}

pub fn lists(list: &Vec<String>, wanted: &str) -> (found: bool)
    ensures
        found == texts(list@).contains(wanted@),
{
    proof {
        lemma_first_of(texts(list@), wanted@);
    }
    position_of(list, wanted).is_some()
}

/// The modules chosen for single monitors.
#[derive(Debug)]
pub struct ModuleMap {
    entries: Vec<(String, String)>,
}

/// What a list of entries maps each key to; a later entry wins.
pub open spec fn mapped(entries: Seq<(String, String)>) -> Map<Seq<char>, Seq<char>>
    decreases entries.len(),
{
    if entries.len() == 0 {
        Map::empty()
    } else {
        mapped(entries.drop_last()).insert(entries.last().0@, entries.last().1@)
    }
}

impl View for ModuleMap {
    type V = Map<Seq<char>, Seq<char>>;

    closed spec fn view(&self) -> Map<Seq<char>, Seq<char>> {
        mapped(self.entries@)
    }
}

impl ModuleMap {
    /// No monitor is listed twice.
    pub closed spec fn wf(&self) -> bool {
        forall|i: int, j: int|
            0 <= i < j < self.entries@.len() ==> (#[trigger] self.entries@[i]).0@
                != (#[trigger] self.entries@[j]).0@
    }

    pub fn new() -> (map: ModuleMap)
        ensures
            map.wf(),
            map@ == Map::<Seq<char>, Seq<char>>::empty(),
    {
        ModuleMap { entries: Vec::new() }
    }

    /// The monitors that have a module of their own, in the order in which they are
    /// kept.
    pub closed spec fn keys(&self) -> Seq<Seq<char>> {
        self.entries@.map_values(|e: (String, String)| e.0@)
    }

    /// How many monitors have a module of their own.
    pub fn len(&self) -> (len: usize)
        ensures
            len == self.keys().len(),
    {
        self.entries.len()
    }

    /// The monitor and the module at a position below [`ModuleMap::len`].
    pub fn entry(&self, at: usize) -> (entry: Option<(&String, &String)>)
        ensures
            entry is Some <==> at < self.keys().len(),
            entry matches Some((key, name)) ==> key@ == self.keys()[at as int] && (self.wf()
                ==> self@[key@] == name@),
    {
        if at < self.entries.len() {
            proof {
                if self.wf() {
                    lemma_distinct_entry(self.entries@, at as int);
                }
            }
            Some((&self.entries[at].0, &self.entries[at].1))
        } else {
            None
        }
    }

    pub fn get(&self, key: &str) -> (name: Option<&String>)
        ensures
            name is Some <==> self@.contains_key(key@),
            name matches Some(name) ==> name@ == self@[key@],
    {
        let mut i: usize = self.entries.len();
        assert(self.entries@.take(i as int) == self.entries@);
        while i > 0
            invariant
                i <= self.entries@.len(),
                mapped(self.entries@.take(i as int)).contains_key(key@) == self@.contains_key(key@),
                self@.contains_key(key@) ==> mapped(self.entries@.take(i as int))[key@]
                    == self@[key@],
            decreases i,
        {
            let ghost front = self.entries@.take(i as int);
            assert(front.drop_last() == self.entries@.take(i - 1));
            assert(front.last() == self.entries@[i - 1]);
            if same(self.entries[i - 1].0.as_str(), key) {
                return Some(&self.entries[i - 1].1);
            }
            i -= 1;
        }
        None
    }

    pub fn remove(&mut self, key: &str)
        ensures
            final(self)@ == old(self)@.remove(key@),
            old(self).wf() ==> final(self).wf(),
    {
        let mut kept: Vec<(String, String)> = Vec::new();
        let mut i: usize = 0;
        while i < self.entries.len()
            invariant
                i <= self.entries@.len(),
                self.entries@ == old(self).entries@,
                mapped(kept@) == mapped(self.entries@.take(i as int)).remove(key@),
                forall|j: int| 0 <= j < kept@.len() ==> (#[trigger] kept@[j]).0@ != key@,
                self.wf() ==> forall|j: int, k: int|
                    0 <= j < k < kept@.len() ==> (#[trigger] kept@[j]).0@ != (
                    #[trigger] kept@[k]).0@,
                forall|j: int|
                    0 <= j < kept@.len() ==> exists|k: int|
                        0 <= k < i && #[trigger] self.entries@[k] == #[trigger] kept@[j],
            decreases self.entries@.len() - i,
        {
            let ghost front = self.entries@.take(i + 1);
            let ghost before = kept@;
            assert(front.drop_last() == self.entries@.take(i as int));
            assert(front.last() == self.entries@[i as int]);
            if !same(self.entries[i].0.as_str(), key) {
                let entry = (self.entries[i].0.clone(), self.entries[i].1.clone());
                assert(entry == self.entries@[i as int]);
                kept.push(entry);
                assert(kept@.drop_last() == before);
                assert(mapped(kept@) =~= mapped(front).remove(key@));
                assert forall|j: int, k: int| 0 <= j < k < kept@.len() && self.wf() implies (
                #[trigger] kept@[j]).0@ != (#[trigger] kept@[k]).0@ by {
                    assert(kept@[j] == before[j]);
                    if k < before.len() {
                        assert(kept@[k] == before[k]);
                    } else {
                        let from = choose|from: int|
                            0 <= from < i && #[trigger] self.entries@[from] == before[j];
                        assert(self.entries@[from].0@ != self.entries@[i as int].0@);
                    }
                }
                assert forall|j: int| 0 <= j < kept@.len() implies exists|k: int|
                    0 <= k < i + 1 && #[trigger] self.entries@[k] == #[trigger] kept@[j] by {
                    if j < before.len() {
                        assert(kept@[j] == before[j]);
                        let from = choose|from: int|
                            0 <= from < i && #[trigger] self.entries@[from] == before[j];
                        assert(self.entries@[from] == kept@[j]);
                    } else {
                        assert(self.entries@[i as int] == kept@[j]);
                    }
                }
            } else {
                assert(mapped(kept@) =~= mapped(front).remove(key@));
            }
            i += 1;
        }
        assert(self.entries@.take(i as int) == self.entries@);
        self.entries = kept;
        proof {
            lemma_mapped_keys(kept@, key@);
        }
    }

    pub fn insert(&mut self, key: &str, name: &str)
        ensures
            final(self)@ == old(self)@.insert(key@, name@),
            old(self).wf() ==> final(self).wf(),
    {
        self.remove(key);
        let ghost before = self.entries@;
        let entry = (key.to_owned(), name.to_owned());
        self.entries.push(entry);
        proof {
            assert(self.entries@.drop_last() == before);
            assert(self@ =~= old(self)@.insert(key@, name@));
            lemma_mapped_keys(before, key@);
            if old(self).wf() {
                assert forall|i: int, j: int| 0 <= i < j < self.entries@.len() implies (
                #[trigger] self.entries@[i]).0@ != (#[trigger] self.entries@[j]).0@ by {
                    assert(self.entries@[i] == before[i]);
                    if j < before.len() {
                        assert(self.entries@[j] == before[j]);
                    } else {
                        assert(!mapped(before).contains_key(key@));
                        assert(before[i].0@ != key@);
                    }
                }
            }
        }
    }
}

impl Clone for ModuleMap {
    fn clone(&self) -> (map: Self)
        ensures
            map@ == self@,
            map.wf() == self.wf(),
            map.keys() == self.keys(),
    {
        let mut entries: Vec<(String, String)> = Vec::new();
        let mut i: usize = 0;
        while i < self.entries.len()
            invariant
                i <= self.entries@.len(),
                entries@ == self.entries@.take(i as int),
            decreases self.entries@.len() - i,
        {
            let entry = (self.entries[i].0.clone(), self.entries[i].1.clone());
            assert(entry == self.entries@[i as int]);
            entries.push(entry);
            i += 1;
            assert(entries@ == self.entries@.take(i as int));
        }
        assert(entries@ == self.entries@);
        ModuleMap { entries }
    }
}

proof fn lemma_mapped_keys(entries: Seq<(String, String)>, key: Seq<char>)
    ensures
        mapped(entries).contains_key(key) <==> exists|i: int|
            0 <= i < entries.len() && (#[trigger] entries[i]).0@ == key,
    decreases entries.len(),
{
    if entries.len() > 0 {
        let front = entries.drop_last();
        lemma_mapped_keys(front, key);
        if mapped(front).contains_key(key) {
            let i = choose|i: int| 0 <= i < front.len() && (#[trigger] front[i]).0@ == key;
            assert(entries[i] == front[i]);
        }
        if exists|i: int| 0 <= i < entries.len() && (#[trigger] entries[i]).0@ == key {
            let i = choose|i: int| 0 <= i < entries.len() && (#[trigger] entries[i]).0@ == key;
            if i < front.len() {
                assert(front[i] == entries[i]);
            }
        }
        if entries.last().0@ == key {
            assert(entries[entries.len() - 1].0@ == key);
        }
    }
}

spec fn distinct(entries: Seq<(String, String)>) -> bool {
    forall|i: int, j: int|
        0 <= i < j < entries.len() ==> (#[trigger] entries[i]).0@ != (#[trigger] entries[j]).0@
}

proof fn lemma_distinct_size(entries: Seq<(String, String)>)
    requires
        distinct(entries),
    ensures
        mapped(entries).dom().finite(),
        mapped(entries).dom().len() == entries.len(),
    decreases entries.len(),
{
    if entries.len() > 0 {
        let front = entries.drop_last();
        assert forall|i: int, j: int| 0 <= i < j < front.len() implies (#[trigger] front[i]).0@ != (
        #[trigger] front[j]).0@ by {
            assert(front[i] == entries[i] && front[j] == entries[j]);
        }
        lemma_distinct_size(front);
        lemma_mapped_keys(front, entries.last().0@);
        assert(!mapped(front).contains_key(entries.last().0@)) by {
            if mapped(front).contains_key(entries.last().0@) {
                let i = choose|i: int|
                    0 <= i < front.len() && (#[trigger] front[i]).0@ == entries.last().0@;
                assert(entries[i] == front[i]);
                assert(entries[i].0@ != entries[entries.len() - 1].0@);
            }
        }
        assert(mapped(entries).dom() =~= mapped(front).dom().insert(entries.last().0@));
    }
}

proof fn lemma_distinct_entry(entries: Seq<(String, String)>, at: int)
    requires
        distinct(entries),
        0 <= at < entries.len(),
    ensures
        mapped(entries).contains_key(entries[at].0@),
        mapped(entries)[entries[at].0@] == entries[at].1@,
    decreases entries.len(),
{
    if at < entries.len() - 1 {
        let front = entries.drop_last();
        assert forall|i: int, j: int| 0 <= i < j < front.len() implies (#[trigger] front[i]).0@ != (
        #[trigger] front[j]).0@ by {
            assert(front[i] == entries[i] && front[j] == entries[j]);
        }
        lemma_distinct_entry(front, at);
        assert(front[at] == entries[at]);
        assert(entries[at].0@ != entries[entries.len() - 1].0@);
    }
}

/// Going through the entries one by one finds every monitor that has a module of
/// its own, each of them once.
pub proof fn entries_are_complete(map: ModuleMap)
    requires
        map.wf(),
    ensures
        map.keys().no_duplicates(),
        map@.dom().finite(),
        map.keys().len() == map@.dom().len(),
        forall|key: Seq<char>| #[trigger] map@.contains_key(key) <==> map.keys().contains(key),
{
    let entries = map.entries@;
    lemma_distinct_size(entries);
    assert forall|key: Seq<char>| #[trigger] map@.contains_key(key) <==> map.keys().contains(
        key,
    ) by {
        lemma_mapped_keys(entries, key);
        if map@.contains_key(key) {
            let i = choose|i: int| 0 <= i < entries.len() && (#[trigger] entries[i]).0@ == key;
            assert(map.keys()[i] == key);
        }
        if map.keys().contains(key) {
            let i = choose|i: int| 0 <= i < map.keys().len() && map.keys()[i] == key;
            assert(entries[i].0@ == key);
        }
    }
    assert forall|i: int, j: int|
        0 <= i < map.keys().len() && 0 <= j < map.keys().len() && i
            != j implies map.keys()[i] != map.keys()[j] by {
        if i < j {
            assert(entries[i].0@ != entries[j].0@);
        } else {
            assert(entries[j].0@ != entries[i].0@);
        }
    }
}

#[derive(Debug)]
pub struct Settings {
    pub layout: Layout,
    pub monitors: Monitors,
    pub module: String,
    pub varied_modules: bool,
    pub module_by_monitor: ModuleMap,
    pub margin: u8,
    pub filter: String,
    pub red_alert: bool,
    pub audio: bool,
    pub sfx_volume: Binary64,
    pub engine_volume: Binary64,
    pub boot_animation: bool,
    pub system_info: bool,
    pub pause_on_fullscreen: bool,
    /// Stop rendering whenever other windows leave none of the wallpaper showing,
    /// not just when one of them is fullscreen.
    pub pause_when_covered: bool,
    /// Fraction of the real pixels the scene is rasterised into, 1.0 for all of
    /// them.
    pub render_scale: Binary64,
    pub shuffle_minutes: u64,
    pub fit: Fit,
    pub insets: Insets,
    pub static_background: StaticBackground,
    /// The wallpaper to put back when it is no longer flattened.
    pub saved_wallpaper: Option<String>,
}

/// The settings, as values.
#[verifier::ext_equal]
pub struct SettingsView {
    pub layout: Layout,
    pub monitors: MonitorsView,
    pub module: Seq<char>,
    pub varied_modules: bool,
    pub module_by_monitor: Map<Seq<char>, Seq<char>>,
    pub margin: u8,
    pub filter: Seq<char>,
    pub red_alert: bool,
    pub audio: bool,
    pub sfx_volume: Binary64,
    pub engine_volume: Binary64,
    pub boot_animation: bool,
    pub system_info: bool,
    pub pause_on_fullscreen: bool,
    pub pause_when_covered: bool,
    pub render_scale: Binary64,
    pub shuffle_minutes: u64,
    pub fit: Fit,
    pub insets: Insets,
    pub static_background: StaticBackground,
    pub saved_wallpaper: Option<Seq<char>>,
}

/// A text that may be missing, as a value.
pub open spec fn optional(text: Option<String>) -> Option<Seq<char>> {
    match text {
        Some(text) => Some(text@),
        None => None,
    }
}

impl View for Settings {
    type V = SettingsView;

    open spec fn view(&self) -> SettingsView {
        SettingsView {
            layout: self.layout,
            monitors: self.monitors@,
            module: self.module@,
            varied_modules: self.varied_modules,
            module_by_monitor: self.module_by_monitor@,
            margin: self.margin,
            filter: self.filter@,
            red_alert: self.red_alert,
            audio: self.audio,
            sfx_volume: self.sfx_volume,
            engine_volume: self.engine_volume,
            boot_animation: self.boot_animation,
            system_info: self.system_info,
            pause_on_fullscreen: self.pause_on_fullscreen,
            pause_when_covered: self.pause_when_covered,
            render_scale: self.render_scale,
            shuffle_minutes: self.shuffle_minutes,
            fit: self.fit,
            insets: self.insets,
            static_background: self.static_background,
            saved_wallpaper: optional(self.saved_wallpaper),
        }
    }
}

impl Clone for Settings {
    fn clone(&self) -> (settings: Self)
        ensures
            settings@ == self@,
            settings.module_by_monitor.wf() == self.module_by_monitor.wf(),
    {
        Settings {
            layout: self.layout,
            monitors: self.monitors.clone(),
            module: self.module.clone(),
            varied_modules: self.varied_modules,
            module_by_monitor: self.module_by_monitor.clone(),
            margin: self.margin,
            filter: self.filter.clone(),
            red_alert: self.red_alert,
            audio: self.audio,
            sfx_volume: self.sfx_volume,
            engine_volume: self.engine_volume,
            boot_animation: self.boot_animation,
            system_info: self.system_info,
            pause_on_fullscreen: self.pause_on_fullscreen,
            pause_when_covered: self.pause_when_covered,
            render_scale: self.render_scale,
            shuffle_minutes: self.shuffle_minutes,
            fit: self.fit,
            insets: self.insets,
            static_background: self.static_background,
            saved_wallpaper: match &self.saved_wallpaper {
                Some(path) => Some(path.clone()),
                None => None,
            },
        }
    }
}

/// The settings to start with: those that were read, or the ones of a first start.
pub open spec fn loaded(read: Option<SettingsView>) -> SettingsView {
    match read {
        Some(settings) => settings,
        None => default_settings(),
    }
}

/// What holds where nothing has been chosen.
pub open spec fn default_settings() -> SettingsView {
    SettingsView {
        layout: Layout::Separate,
        monitors: MonitorsView::All,
        module: "random"@,
        varied_modules: true,
        module_by_monitor: Map::empty(),
        margin: 0,
        filter: "none"@,
        red_alert: false,
        audio: false,
        sfx_volume: Binary64 { bits: DEFAULT_SFX_VOLUME },
        engine_volume: Binary64 { bits: DEFAULT_ENGINE_VOLUME },
        boot_animation: true,
        system_info: true,
        pause_on_fullscreen: true,
        pause_when_covered: true,
        render_scale: Binary64 { bits: ONE },
        shuffle_minutes: 0,
        fit: Fit::Full,
        insets: no_insets(),
        static_background: StaticBackground::Leave,
        saved_wallpaper: None,
    }
}

impl Default for Settings {
    fn default() -> (settings: Self)
        ensures
            settings@ == default_settings(),
            settings.module_by_monitor.wf(),
    {
        Settings {
            layout: Layout::default(),
            monitors: Monitors::default(),
            module: "random".to_owned(),
            varied_modules: true,
            module_by_monitor: ModuleMap::new(),
            margin: 0,
            filter: "none".to_owned(),
            red_alert: false,
            audio: false,
            sfx_volume: Binary64 { bits: DEFAULT_SFX_VOLUME },
            engine_volume: Binary64 { bits: DEFAULT_ENGINE_VOLUME },
            boot_animation: true,
            system_info: true,
            pause_on_fullscreen: true,
            pause_when_covered: true,
            render_scale: Binary64 { bits: ONE },
            shuffle_minutes: 0,
            fit: Fit::default(),
            insets: Insets::default(),
            static_background: StaticBackground::default(),
            saved_wallpaper: None,
        }
    }
}

impl SettingsView {
    /// The module for one monitor: an override first, then the global choice, and
    /// where that is left to chance a pick of its own or the shared one.
    pub open spec fn module_on(self, key: Seq<char>, shared: Seq<char>, fresh: Seq<char>) -> Seq<
        char,
    > {
        if self.module_by_monitor.contains_key(key) {
            self.module_by_monitor[key]
        } else if self.module != "random"@ {
            self.module
        } else if self.varied_modules {
            fresh
        } else {
            shared
        }
    }

    /// The module for one scene that covers several screens.
    pub open spec fn module_of_scene(self, shared: Seq<char>) -> Seq<char> {
        if self.module == "random"@ {
            shared
        } else {
            self.module
        }
    }

    /// Whether the screens share one scene.
    pub open spec fn one_scene(self) -> bool {
        self.layout != Layout::Separate
    }

    /// The module that a screen shows under the current layout.
    pub open spec fn module_shown(
        self,
        key: Seq<char>,
        shared: Seq<char>,
        fresh: Seq<char>,
    ) -> Seq<char> {
        if self.one_scene() {
            self.module_of_scene(shared)
        } else {
            self.module_on(key, shared, fresh)
        }
    }

    /// The fraction the scene is really rasterised at.
    pub open spec fn scale_held(self) -> Binary64 {
        if self.render_scale.is_number() {
            self.render_scale.clamped(number(QUARTER), number(ONE))
        } else {
            Binary64 { bits: ONE }
        }
    }
}

impl Settings {
    /// What a settings file holds, or the defaults where it is missing or cannot
    /// be read.
    pub fn load(read: Option<Settings>) -> (settings: Settings)
        ensures
            settings@ == (match read {
                Some(settings) => settings@,
                None => default_settings(),
            }),
            read matches Some(read) ==> settings@ == loaded(Some(read@)),
            read is None ==> settings@ == loaded(None),
            read is None ==> settings.module_by_monitor.wf(),
            read matches Some(read) ==> settings.module_by_monitor.wf()
                == read.module_by_monitor.wf(),
    {
        match read {
            Some(settings) => settings,
            None => Settings::default(),
        }
    }

    /// Module for one monitor: an explicit override first, then the global choice.
    /// A random pick is rolled per monitor, and handed in as `fresh`, unless the
    /// screens are meant to stay in sync, in which case they all get `shared`.
    pub fn module_for(&self, key: &str, shared: &str, fresh: &str) -> (name: String)
        ensures
            name@ == self@.module_on(key@, shared@, fresh@),
            !self@.module_by_monitor.contains_key(key@) && self@.module != "random"@ ==> name@
                == self@.module,
    {
        if let Some(name) = self.module_by_monitor.get(key) {
            return name.clone();
        }
        if !same(self.module.as_str(), "random") {
            return self.module.clone();
        }
        if self.varied_modules {
            fresh.to_owned()
        } else {
            shared.to_owned()
        }
    }

    /// One scene covering several screens has to use a single module, so per
    /// monitor overrides and varied random picks do not apply to it.
    pub fn scene_module(&self, shared: &str) -> (name: String)
        ensures
            name@ == self@.module_of_scene(shared@),
    {
        if same(self.module.as_str(), "random") {
            shared.to_owned()
        } else {
            self.module.clone()
        }
    }

    pub fn one_scene(&self) -> (one: bool)
        ensures
            one == self@.one_scene(),
    {
        self.layout != Layout::Separate
    }

    /// The module a screen shows under the current layout.
    pub fn screen_module(&self, key: &str, shared: &str, fresh: &str) -> (name: String)
        ensures
            name@ == self@.module_shown(key@, shared@, fresh@),
            !self@.module_by_monitor.contains_key(key@) && self@.module != "random"@ ==> name@
                == self@.module,
    {
        if self.one_scene() {
            self.scene_module(shared)
        } else {
            self.module_for(key, shared, fresh)
        }
    }

    /// Guards against a hand-edited settings file asking for something the browser
    /// would refuse or that would be unreadable on screen.
    pub fn render_scale(&self) -> (scale: Binary64)
        ensures
            scale == self@.scale_held(),
            QUARTER <= scale.bits <= ONE,
    {
        let low = Binary64 { bits: QUARTER };
        let high = Binary64 { bits: ONE };
        proof {
            scale_stays_in_range(self@);
            lemma_quarter_below_one();
        }
        if self.render_scale.finite() {
            self.render_scale.clamp(low, high)
        } else {
            high
        }
    }

    /// Whether the scene is rasterised into fewer pixels than the screen has.
    pub fn renders_below_full(&self) -> (below: bool)
        ensures
            below == self@.scale_held().below(number(ONE)),
    {
        self.render_scale().less_than(Binary64 { bits: ONE })
    }
}

proof fn lemma_quarter_below_one()
    ensures
        number(QUARTER).below(number(ONE)),
{
    crate::binary64::order_of_positive_bits(QUARTER, ONE);
}

/// Whatever the settings file says, the scene is rasterised at a fraction from a
/// quarter up to one.
pub proof fn scale_stays_in_range(settings: SettingsView)
    ensures
        QUARTER <= settings.scale_held().bits <= ONE,
{
    let scale = settings.scale_held();
    lemma_quarter_below_one();
    if settings.render_scale.is_number() && scale == settings.render_scale {
        crate::binary64::bits_between(scale, QUARTER, ONE);
    }
}

/// Screens that share one scene all show the same module, whatever was rolled for
/// each and whatever was chosen for single monitors.
pub proof fn one_scene_one_module(
    settings: SettingsView,
    shared: Seq<char>,
    key: Seq<char>,
    fresh: Seq<char>,
    other_key: Seq<char>,
    other_fresh: Seq<char>,
)
    requires
        settings.one_scene(),
    ensures
        settings.module_shown(key, shared, fresh) == settings.module_shown(
            other_key,
            shared,
            other_fresh,
        ),
{
}

/// A module chosen for a monitor is what that monitor shows, so long as the
/// screens are separate scenes.
pub proof fn override_comes_first(
    settings: SettingsView,
    key: Seq<char>,
    shared: Seq<char>,
    fresh: Seq<char>,
)
    requires
        !settings.one_scene(),
        settings.module_by_monitor.contains_key(key),
    ensures
        settings.module_shown(key, shared, fresh) == settings.module_by_monitor[key],
{
}

/// Screens meant to stay in sync do: without overrides and without varied picks
/// they all show the same module.
pub proof fn screens_stay_in_sync(
    settings: SettingsView,
    shared: Seq<char>,
    key: Seq<char>,
    fresh: Seq<char>,
    other_key: Seq<char>,
    other_fresh: Seq<char>,
)
    requires
        !settings.varied_modules,
        !settings.module_by_monitor.contains_key(key),
        !settings.module_by_monitor.contains_key(other_key),
    ensures
        settings.module_shown(key, shared, fresh) == settings.module_shown(
            other_key,
            shared,
            other_fresh,
        ),
{
}


/// A module that was chosen for all screens is what a screen without a choice of its
/// own shows, under every layout, whatever was rolled and whether or not picks vary.
pub proof fn global_choice_is_shown(
    settings: SettingsView,
    key: Seq<char>,
    shared: Seq<char>,
    fresh: Seq<char>,
)
    requires
        !settings.module_by_monitor.contains_key(key),
        settings.module != "random"@,
    ensures
        settings.module_on(key, shared, fresh) == settings.module,
        settings.module_of_scene(shared) == settings.module,
        settings.module_shown(key, shared, fresh) == settings.module,
{
}

/// Where the module is left to chance and a screen has no choice of its own, a
/// separate scene shows the pick rolled for it exactly if picks vary, and the shared
/// one otherwise. One scene always shows the shared one.
pub proof fn random_pick_is_shown(
    settings: SettingsView,
    key: Seq<char>,
    shared: Seq<char>,
    fresh: Seq<char>,
)
    requires
        !settings.module_by_monitor.contains_key(key),
        settings.module == "random"@,
    ensures
        settings.module_of_scene(shared) == shared,
        settings.layout == Layout::Separate && settings.varied_modules ==> settings.module_shown(
            key,
            shared,
            fresh,
        ) == fresh,
        settings.layout == Layout::Separate && !settings.varied_modules ==> settings.module_shown(
            key,
            shared,
            fresh,
        ) == shared,
        settings.layout != Layout::Separate ==> settings.module_shown(key, shared, fresh)
            == shared,
        settings.varied_modules ==> settings.module_on(key, shared, fresh) == fresh,
        !settings.varied_modules ==> settings.module_on(key, shared, fresh) == shared,
{
}

/// A choice for one screen is what that screen is told, whatever else was chosen or
/// rolled; one scene over several screens passes over it.
pub proof fn screen_choice_is_told(
    settings: SettingsView,
    key: Seq<char>,
    shared: Seq<char>,
    fresh: Seq<char>,
)
    requires
        settings.module_by_monitor.contains_key(key),
    ensures
        settings.module_on(key, shared, fresh) == settings.module_by_monitor[key],
        settings.layout == Layout::Separate ==> settings.module_shown(key, shared, fresh)
            == settings.module_by_monitor[key],
        settings.layout != Layout::Separate ==> settings.module_shown(key, shared, fresh)
            == settings.module_of_scene(shared),
{
}

/// The screens share one scene in the split and the span layout, and only there.
pub proof fn split_and_span_are_one_scene(settings: SettingsView)
    ensures
        settings.one_scene() <==> settings.layout == Layout::Split || settings.layout
            == Layout::Span,
{
}

/// A fraction from a quarter up to one is used as it stands; a smaller one counts as
/// a quarter, a larger one as one, and what is no number as one.
pub proof fn scale_is_held_as_asked(settings: SettingsView)
    ensures
        ({
            let asked = settings.render_scale;
            let quarter = number(0x3fd0_0000_0000_0000);
            let one = number(0x3ff0_0000_0000_0000);
            &&& !asked.is_number() ==> settings.scale_held() == one
            &&& asked.is_number() && asked.scaled() < quarter.scaled() ==> settings.scale_held()
                == quarter
            &&& asked.is_number() && asked.scaled() > one.scaled() ==> settings.scale_held() == one
            &&& asked.is_number() && quarter.scaled() <= asked.scaled() <= one.scaled()
                ==> settings.scale_held() == asked
        }),
{
    lemma_quarter_below_one();
}

/// Trimming moves the near corner by what is taken off there and nothing else: the
/// right and the bottom inset never move it.
pub proof fn insets_move_the_corner(insets: Insets, bounds: Rect)
    requires
        insets.trim_in_range(bounds),
    ensures
        insets.trimmed(bounds).x - bounds.x == insets.left,
        insets.trimmed(bounds).y - bounds.y == insets.top,
        insets.left + insets.right >= bounds.width ==> insets.trimmed(bounds).width == 1,
        insets.top + insets.bottom >= bounds.height ==> insets.trimmed(bounds).height == 1,
        insets.left + insets.right < bounds.width ==> insets.trimmed(bounds).width
            == bounds.width - insets.left - insets.right,
        insets.top + insets.bottom < bounds.height ==> insets.trimmed(bounds).height
            == bounds.height - insets.top - insets.bottom,
{
}

/// Insets and monitors of any sensible size can be trimmed.
pub proof fn sensible_insets_fit(insets: Insets, bounds: Rect)
    requires
        -0x1000_0000 <= insets.top <= 0x1000_0000,
        -0x1000_0000 <= insets.right <= 0x1000_0000,
        -0x1000_0000 <= insets.bottom <= 0x1000_0000,
        -0x1000_0000 <= insets.left <= 0x1000_0000,
        -0x1000_0000 <= bounds.x <= 0x1000_0000,
        -0x1000_0000 <= bounds.y <= 0x1000_0000,
        0 <= bounds.width <= 0x1000_0000,
        0 <= bounds.height <= 0x1000_0000,
    ensures
        insets.trim_in_range(bounds),
{
}

/// The position that is found is that of the first text that equals the wanted one.
pub proof fn the_first_is_found(list: Seq<Seq<char>>, wanted: Seq<char>, at: int)
    ensures
        first_of(list, wanted) == Some(at) <==> 0 <= at < list.len() && list[at] == wanted
            && forall|i: int| 0 <= i < at ==> list[i] != wanted,
        first_of(list, wanted) is None <==> forall|i: int|
            0 <= i < list.len() ==> list[i] != wanted,
    decreases list.len(),
{
    lemma_first_of(list, wanted);
    if list.len() > 0 {
        the_first_is_found(list.skip(1), wanted, at - 1);
        assert forall|i: int| 0 < i < list.len() implies list.skip(1)[i - 1] == list[i] by {}
        if list[0] != wanted && 0 < at < list.len() && list[at] == wanted && (forall|i: int|
            0 <= i < at ==> list[i] != wanted) {
            assert forall|i: int| 0 <= i < at - 1 implies list.skip(1)[i] != wanted by {
                assert(list.skip(1)[i] == list[i + 1]);
            }
        }
        if first_of(list, wanted) == Some(at) && list[0] != wanted {
            assert forall|i: int| 0 <= i < at implies list[i] != wanted by {
                if i > 0 {
                    assert(list.skip(1)[i - 1] == list[i]);
                }
            }
        }
    }
    if forall|i: int| 0 <= i < list.len() ==> list[i] != wanted {
        assert(!list.contains(wanted));
    }
    if first_of(list, wanted) is None {
        assert forall|i: int| 0 <= i < list.len() implies list[i] != wanted by {
            assert(list.contains(list[i]));
        }
    }
}


/// What could be read is used as it stands, and only what could not be is replaced.
pub proof fn read_settings_are_used(settings: SettingsView)
    ensures
        loaded(Some(settings)) == settings,
        loaded(None) == default_settings(),
{
}

/// On a first start every monitor shows a scene of its own over the whole screen, with
/// a module left to chance, in silence and without an alert, a margin or a filter. It
/// pauses by itself, shows the load of the machine, and remembers no wallpaper.
pub proof fn a_first_start_is_quiet(key: Seq<char>, shared: Seq<char>, fresh: Seq<char>)
    ensures
        ({
            let settings = default_settings();
            &&& settings.layout == Layout::Separate
            &&& settings.monitors == MonitorsView::All
            &&& settings.fit == Fit::Full
            &&& !settings.module_by_monitor.contains_key(key)
            &&& settings.module_shown(key, shared, fresh) == (if settings.varied_modules {
                fresh
            } else {
                shared
            })
            &&& !settings.audio
            &&& !settings.red_alert
            &&& settings.static_background == StaticBackground::Leave
            &&& settings.saved_wallpaper is None
            &&& settings.module == "random"@
            &&& settings.varied_modules
            &&& settings.margin == 0
            &&& settings.filter == "none"@
            &&& settings.boot_animation
            &&& settings.system_info
            &&& settings.pause_when_covered
            &&& settings.pause_on_fullscreen
            &&& settings.shuffle_minutes == 0
            &&& settings.render_scale == number(0x3ff0_0000_0000_0000)
            &&& settings.insets.top == 0 && settings.insets.right == 0 && settings.insets.bottom
                == 0 && settings.insets.left == 0
        }),
{
}

} // verus!
