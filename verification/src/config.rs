//! The settings: their defaults, the range clamp, the "Open in" menu tree and the key table as it
//! is stored.
use crate::octagon::{
    clamped_octagon, fresh_octagon, LineColor, OctagonState, CROP_DEFAULT, CROP_MAX, CROP_MIN, ONE,
    ZERO,
};
use crate::single::{clamp_finite, clamped, Single};
use crate::text::{chars_of, comes_before, law_text_order, same_text, text_before};
use crate::view::{Background, Tonemap};
use vstd::prelude::*;

verus! {

/// Bits of the zoom step's bounds and default: `1.01`, `4.0`, `1.15`.
pub const ZOOM_STEP_MIN: u32 = 0x3f81_47ae;
pub const ZOOM_STEP_MAX: u32 = 0x4080_0000;
pub const ZOOM_STEP_DEFAULT: u32 = 0x3f93_3333;

/// Bits of the exposure step's bounds and default, in stops: `0.01`, `4.0`, `0.25`.
pub const EXPOSURE_STEP_MIN: u32 = 0x3c23_d70a;
pub const EXPOSURE_STEP_MAX: u32 = 0x4080_0000;
pub const EXPOSURE_STEP_DEFAULT: u32 = 0x3e80_0000;

/// Bits of the playback rate's bounds and default, in frames per second: `0.1`, `120.0`, `24.0`.
pub const FPS_MIN: u32 = 0x3dcc_cccd;
pub const FPS_MAX: u32 = 0x42f0_0000;
pub const FPS_DEFAULT: u32 = 0x41c0_0000;

/// How a launch relates to a window that is already running.
#[derive(Debug, Clone, Copy, PartialEq, Eq, Structural)]
pub enum InstanceMode {
    /// Each opened image gets a window of its own.
    NewWindow,
    /// One window; later opens go to it.
    SingleInstance,
}

impl Default for InstanceMode {
    fn default() -> (r: Self)
        ensures
            r == InstanceMode::NewWindow,
    {
        InstanceMode::NewWindow
    }
}

/// One entry of the "Open in" menu: a leaf that launches a program, or a submenu. Where an entry
/// has both `items` and `path`, the submenu wins.
#[derive(Debug)]
pub struct MenuEntry {
    /// Label shown in the menu.
    pub name: String,
    /// Leaf only: the program.
    pub path: Option<String>,
    /// Leaf only: launch arguments; `{path}` stands for the image's path.
    pub args: Vec<String>,
    /// Submenu only: nested entries.
    pub items: Vec<MenuEntry>,
}

/// The entry that the index chain `path` leads to.
pub open spec fn entry_along(entries: Seq<MenuEntry>, path: Seq<usize>) -> Option<MenuEntry>
    decreases path.len(),
{
    if path.len() == 0 || path[0] >= entries.len() {
        None
    } else if path.len() == 1 {
        Some(entries[path[0] as int])
    } else {
        entry_along(entries[path[0] as int].items@, path.skip(1))
    }
}

/// The entry at `path`, an index chain from the root: `[1, 0]` is the second top-level entry's
/// first child. An empty chain, or one that leaves the tree, leads nowhere.
pub fn entry_at<'a>(entries: &'a [MenuEntry], path: &[usize]) -> (r: Option<&'a MenuEntry>)
    ensures
        r is Some <==> entry_along(entries@, path@) is Some,
        r matches Some(e) ==> entry_along(entries@, path@) == Some(*e),
{
    if path.len() == 0 {
        return None;
    }
    let mut cur: &'a [MenuEntry] = entries;
    let mut k: usize = 0;
    assert(path@.skip(0) =~= path@);
    while k + 1 < path.len()
        invariant
            k < path.len(),
            entry_along(cur@, path@.skip(k as int)) == entry_along(entries@, path@),
        decreases path.len() - k,
    {
        let i = path[k];
        assert(path@.skip(k as int)[0] == i);
        if i >= cur.len() {
            return None;
        }
        assert(path@.skip(k as int).skip(1) =~= path@.skip(k + 1));
        cur = cur[i].items.as_slice();
        k += 1;
    }
    let last = path[k];
    assert(path@.skip(k as int)[0] == last);
    if last < cur.len() {
        Some(&cur[last])
    } else {
        None
    }
}

/// `s` with every `{path}` replaced by `path`, from the left.
pub open spec fn expanded(s: Seq<char>, path: Seq<char>) -> Seq<char>
    decreases s.len(),
{
    if s.len() == 0 {
        Seq::empty()
    } else if starts_with_token(s) {
        path + expanded(s.skip(6), path)
    } else {
        seq![s[0]] + expanded(s.skip(1), path)
    }
}

/// Whether `s` starts with the token `{path}`.
pub open spec fn starts_with_token(s: Seq<char>) -> bool {
    s.len() >= 6 && s.take(6) == seq!['{', 'p', 'a', 't', 'h', '}']
}

/// The arguments that a leaf is launched with: each of `args` expanded, or the image's path alone
/// where there are none.
pub open spec fn launch_args(args: Seq<String>, path: Seq<char>) -> Seq<Seq<char>> {
    if args.len() == 0 {
        seq![path]
    } else {
        args.map_values(|a: String| expanded(a@, path))
    }
}

fn token_at(s: &Vec<char>, i: usize) -> (r: bool)
    requires
        i <= s.len(),
    ensures
        r == starts_with_token(s@.skip(i as int)),
{
    let ghost t = s@.skip(i as int);
    if s.len() - i < 6 {
        return false;
    }
    let r = s[i] == '{' && s[i + 1] == 'p' && s[i + 2] == 'a' && s[i + 3] == 't' && s[i + 4] == 'h'
        && s[i + 5] == '}';
    proof {
        let p = seq!['{', 'p', 'a', 't', 'h', '}'];
        if r {
            assert(t.take(6) =~= p);
        } else {
            if t.take(6) == p {
                assert(t.take(6)[0] == p[0] && t.take(6)[1] == p[1] && t.take(6)[2] == p[2]
                    && t.take(6)[3] == p[3] && t.take(6)[4] == p[4] && t.take(6)[5] == p[5]);
            }
        }
    }
    r
}

fn expand(arg: &str, path: &str) -> (r: String)
    ensures
        r@ == expanded(arg@, path@),
{
    let s = chars_of(arg);
    let mut r = String::new();
    let mut i: usize = 0;
    assert(s@.skip(0) =~= s@);
    assert(Seq::<char>::empty() + expanded(s@, path@) =~= expanded(s@, path@));
    while i < s.len()
        invariant
            i <= s.len(),
            s@ == arg@,
            r@ + expanded(s@.skip(i as int), path@) == expanded(arg@, path@),
        decreases s.len() - i,
    {
        let ghost t = s@.skip(i as int);
        let ghost was = r@;
        if token_at(&s, i) {
            assert(t.skip(6) =~= s@.skip(i + 6));
            r.append(path);
            assert(r@ + expanded(s@.skip(i + 6), path@) =~= was + expanded(t, path@));
            i += 6;
        } else {
            assert(t.skip(1) =~= s@.skip(i + 1));
            r.push(s[i]);
            assert(r@ + expanded(s@.skip(i + 1), path@) =~= was + expanded(t, path@));
            i += 1;
        }
    }
    assert(r@ + expanded(s@.skip(i as int), path@) =~= r@);
    r
}

impl MenuEntry {
    /// Whether this entry is a submenu. A submenu's `path` and `args` are ignored.
    pub fn is_submenu(&self) -> (r: bool)
        ensures
            r == (self.items@.len() > 0),
    {
        self.items.len() > 0
    }

    /// The arguments to launch a leaf entry with for the image at `image`.
    pub fn resolved_args(&self, image: &str) -> (r: Vec<String>)
        ensures
            r@.map_values(|s: String| s@) == launch_args(self.args@, image@),
    {
        let mut r: Vec<String> = Vec::new();
        if self.args.len() == 0 {
            r.push(image.to_owned());
            assert(r@.map_values(|s: String| s@) =~= seq![image@]);
            return r;
        }
        let mut i: usize = 0;
        while i < self.args.len()
            invariant
                i <= self.args.len(),
                r.len() == i,
                forall|k: int| 0 <= k < i ==> (#[trigger] r@[k])@ == expanded(self.args@[k]@, image@),
            decreases self.args.len() - i,
        {
            r.push(expand(self.args[i].as_str(), image));
            i += 1;
        }
        assert(r@.map_values(|s: String| s@) =~= launch_args(self.args@, image@));
        r
    }
}

/// The entry one step further along a chain is that child of the entry the chain leads to.
pub proof fn law_entry_along_steps(entries: Seq<MenuEntry>, path: Seq<usize>, i: usize)
    requires
        path.len() > 0,
    ensures
        entry_along(entries, path.push(i)) == match entry_along(entries, path) {
            Some(e) => if i < e.items@.len() {
                Some(e.items@[i as int])
            } else {
                None
            },
            None => None,
        },
    decreases path.len(),
{
    let p = path.push(i);
    assert(p.skip(1) =~= path.skip(1).push(i));
    if path[0] < entries.len() {
        if path.len() == 1 {
            reveal_with_fuel(entry_along, 2);
            assert(p.skip(1)[0] == i);
        } else {
            law_entry_along_steps(entries[path[0] as int].items@, path.skip(1), i);
        }
    }
}

/// An argument without the token is passed on as it is.
pub proof fn law_expand_without_token(s: Seq<char>, path: Seq<char>)
    requires
        forall|k: int| 0 <= k <= s.len() ==> !starts_with_token(#[trigger] s.skip(k)),
    ensures
        expanded(s, path) == s,
    decreases s.len(),
{
    if s.len() > 0 {
        assert(s.skip(0) =~= s);
        let t = s.skip(1);
        assert forall|k: int| 0 <= k <= t.len() implies !starts_with_token(#[trigger] t.skip(k)) by {
            assert(t.skip(k) =~= s.skip(k + 1));
        }
        law_expand_without_token(t, path);
        assert(seq![s[0]] + t =~= s);
    }
}

/// The backdrop setting: `Auto` keeps the rule by image, any other value pins the backdrop.
#[derive(Debug, Clone, Copy, PartialEq, Eq, Structural)]
pub enum BackgroundCfg {
    Auto,
    Black,
    White,
    Grey,
    Checker,
}

/// The backdrop that a setting pins.
pub open spec fn pinned_background(b: BackgroundCfg) -> Option<Background> {
    match b {
        BackgroundCfg::Auto => None,
        BackgroundCfg::Black => Some(Background::Black),
        BackgroundCfg::White => Some(Background::White),
        BackgroundCfg::Grey => Some(Background::Grey),
        BackgroundCfg::Checker => Some(Background::Checker),
    }
}

impl Default for BackgroundCfg {
    fn default() -> (r: Self)
        ensures
            r == BackgroundCfg::Auto,
    {
        BackgroundCfg::Auto
    }
}

impl BackgroundCfg {
    /// The backdrop override that this choice implies.
    pub fn override_for_render(self) -> (r: Option<Background>)
        ensures
            r == pinned_background(self),
    {
        match self {
            BackgroundCfg::Auto => None,
            BackgroundCfg::Black => Some(Background::Black),
            BackgroundCfg::White => Some(Background::White),
            BackgroundCfg::Grey => Some(Background::Grey),
            BackgroundCfg::Checker => Some(Background::Checker),
        }
    }
}

/// The tonemap operator that a freshly opened HDR image starts on.
#[derive(Debug, Clone, Copy, PartialEq, Eq, Structural)]
pub enum TonemapCfg {
    Reinhard,
    Aces,
}

impl Default for TonemapCfg {
    fn default() -> (r: Self)
        ensures
            r == TonemapCfg::Reinhard,
    {
        TonemapCfg::Reinhard
    }
}

/// The operator that a setting names.
pub open spec fn tonemap_of(t: TonemapCfg) -> Tonemap {
    match t {
        TonemapCfg::Reinhard => Tonemap::Reinhard,
        TonemapCfg::Aces => Tonemap::Aces,
    }
}

impl TonemapCfg {
    /// The operator that this setting names.
    pub fn to_render(self) -> (r: Tonemap)
        ensures
            r == tonemap_of(self),
    {
        match self {
            TonemapCfg::Reinhard => Tonemap::Reinhard,
            TonemapCfg::Aces => Tonemap::Aces,
        }
    }
}

/// How an image is scaled when it opens.
#[derive(Debug, Clone, Copy, PartialEq, Eq, Structural)]
pub enum FitCfg {
    /// Shrink an oversized image to the window; show a small one at 1:1.
    Fit,
    /// Open at 1:1, however large the image.
    ActualSize,
}

impl Default for FitCfg {
    fn default() -> (r: Self)
        ensures
            r == FitCfg::Fit,
    {
        FitCfg::Fit
    }
}

/// What a newly enabled flipbook starts with, and whether sheets are looked for at all.
#[derive(Debug, Clone, Copy, PartialEq, Eq, Structural)]
pub struct FlipbookCfg {
    /// Playback rate in frames per second.
    pub fps: Single,
    /// Whether frames crossfade.
    pub blend: bool,
    /// Whether playback starts at once.
    pub autoplay: bool,
    /// Whether every decoded still image is tested for being a sprite sheet.
    pub auto_detect: bool,
}

/// The shipped flipbook settings.
pub open spec fn default_flipbook_cfg() -> FlipbookCfg {
    FlipbookCfg { fps: Single { bits: FPS_DEFAULT }, blend: false, autoplay: true, auto_detect: true }
}

impl Default for FlipbookCfg {
    fn default() -> (r: Self)
        ensures
            r == default_flipbook_cfg(),
    {
        FlipbookCfg { fps: Single { bits: FPS_DEFAULT }, blend: false, autoplay: true, auto_detect: true }
    }
}

/// Which of the fixed items the actions menu shows.
#[derive(Debug, Clone, Copy, PartialEq, Eq, Structural)]
pub struct ContextMenuCfg {
    pub show_in_explorer: bool,
    pub copy_file: bool,
    pub copy_path: bool,
    pub copy_file_name: bool,
}

impl Default for ContextMenuCfg {
    fn default() -> (r: Self)
        ensures
            r == (ContextMenuCfg {
                show_in_explorer: true,
                copy_file: true,
                copy_path: true,
                copy_file_name: true,
            }),
    {
        ContextMenuCfg { show_in_explorer: true, copy_file: true, copy_path: true, copy_file_name: true }
    }
}

/// The octagon overlay's stored options, used only where `remember` is on.
#[derive(Debug, Clone, Copy, PartialEq, Eq, Structural)]
pub struct OctagonCfg {
    pub remember: bool,
    pub color: LineColor,
    pub line_opacity: Single,
    pub crop: Single,
    pub hide: Single,
}

/// The shipped octagon settings.
pub open spec fn default_octagon_cfg() -> OctagonCfg {
    OctagonCfg {
        remember: false,
        color: LineColor::Red,
        line_opacity: Single { bits: ONE },
        crop: Single { bits: CROP_DEFAULT },
        hide: Single { bits: ZERO },
    }
}

impl Default for OctagonCfg {
    fn default() -> (r: Self)
        ensures
            r == default_octagon_cfg(),
    {
        OctagonCfg {
            remember: false,
            color: LineColor::Red,
            line_opacity: Single { bits: ONE },
            crop: Single { bits: CROP_DEFAULT },
            hide: Single { bits: ZERO },
        }
    }
}

/// The overlay that a launch starts with: the stored options in range where they are remembered,
/// a fresh one otherwise, and always switched off.
pub open spec fn initial_octagon(c: OctagonCfg) -> OctagonState {
    if c.remember {
        clamped_octagon(
            OctagonState {
                enabled: false,
                color: c.color,
                line_opacity: c.line_opacity,
                crop: c.crop,
                hide: c.hide,
            },
        )
    } else {
        fresh_octagon()
    }
}

impl OctagonCfg {
    /// The overlay that a launch starts with.
    pub fn initial_state(&self) -> (r: OctagonState)
        ensures
            r == initial_octagon(*self),
            !r.enabled,
    {
        let mut s = OctagonState::default();
        if self.remember {
            s.color = self.color;
            s.line_opacity = self.line_opacity;
            s.crop = self.crop;
            s.hide = self.hide;
            s.clamp();
        }
        s
    }
}

/// One stored key binding: a single chord, or several for one action.
#[derive(Debug, Clone, PartialEq, Eq)]
pub enum KeyValue {
    One(String),
    Many(Vec<String>),
}

/// What a stored binding holds: one text, or a list of them.
pub enum KeyText {
    One(Seq<char>),
    Many(Seq<Seq<char>>),
}

/// The texts of a stored binding, as it was written.
pub open spec fn key_text(v: KeyValue) -> KeyText {
    match v {
        KeyValue::One(s) => KeyText::One(s@),
        KeyValue::Many(list) => KeyText::Many(list@.map_values(|s: String| s@)),
    }
}

/// The chord texts of a stored binding, however they were written.
pub open spec fn chord_texts(t: KeyText) -> Seq<Seq<char>> {
    match t {
        KeyText::One(s) => seq![s],
        KeyText::Many(list) => list,
    }
}

impl KeyValue {
    /// The chord strings, however they were written.
    pub fn as_strings(&self) -> (r: Vec<&str>)
        ensures
            r@.map_values(|s: &str| s@) == chord_texts(key_text(*self)),
    {
        let mut r: Vec<&str> = Vec::new();
        match self {
            KeyValue::One(s) => {
                r.push(s.as_str());
                assert(r@.map_values(|s: &str| s@) =~= seq![s@]);
            },
            KeyValue::Many(list) => {
                let mut i: usize = 0;
                while i < list.len()
                    invariant
                        i <= list.len(),
                        r.len() == i,
                        forall|k: int| 0 <= k < i ==> (#[trigger] r@[k])@ == list@[k]@,
                    decreases list.len() - i,
                {
                    r.push(list[i].as_str());
                    i += 1;
                }
                assert(r@.map_values(|s: &str| s@) =~= list@.map_values(|s: String| s@));
            },
        }
        r
    }
}

/// The stored key table: action name to chords, in the order of the names.
#[derive(Debug)]
pub struct KeybindsCfg {
    entries: Vec<(String, KeyValue)>,
}

/// The map that a list of entries stands for, a later entry in place of an earlier one.
pub open spec fn entries_map(entries: Seq<(String, KeyValue)>) -> Map<Seq<char>, KeyText>
    decreases entries.len(),
{
    if entries.len() == 0 {
        Map::empty()
    } else {
        entries_map(entries.drop_last()).insert(entries.last().0@, key_text(entries.last().1))
    }
}

/// No name occurs twice among the entries.
spec fn distinct_names(entries: Seq<(String, KeyValue)>) -> bool {
    forall|i: int, j: int|
        0 <= i < j < entries.len() ==> (#[trigger] entries[i]).0@ != (#[trigger] entries[j]).0@
}

/// The entries are in the order of their names.
spec fn in_name_order(entries: Seq<(String, KeyValue)>) -> bool {
    forall|i: int, j: int|
        0 <= i < j < entries.len() ==> text_before(
            (#[trigger] entries[i]).0@,
            (#[trigger] entries[j]).0@,
        )
}

proof fn lemma_ordered_are_distinct(entries: Seq<(String, KeyValue)>)
    requires
        in_name_order(entries),
    ensures
        distinct_names(entries),
{
    assert forall|i: int, j: int| 0 <= i < j < entries.len() implies (#[trigger] entries[i]).0@ != (
    #[trigger] entries[j]).0@ by {
        law_text_order(entries[i].0@, entries[i].0@, entries[i].0@);
    }
}

proof fn lemma_entries_map(entries: Seq<(String, KeyValue)>)
    requires
        distinct_names(entries),
    ensures
        forall|i: int|
            0 <= i < entries.len() ==> entries_map(entries).contains_key(
                (#[trigger] entries[i]).0@,
            ) && entries_map(entries)[entries[i].0@] == key_text(entries[i].1),
        forall|n: Seq<char>| #[trigger]
            entries_map(entries).contains_key(n) ==> exists|i: int|
                0 <= i < entries.len() && (#[trigger] entries[i]).0@ == n,
        entries_map(entries).dom().finite(),
        entries_map(entries).dom().len() == entries.len(),
    decreases entries.len(),
{
    if entries.len() > 0 {
        let t = entries.drop_last();
        let n = entries.len() - 1;
        assert forall|i: int, j: int| 0 <= i < j < t.len() implies (#[trigger] t[i]).0@ != (
        #[trigger] t[j]).0@ by {
            assert(entries[i].0@ != entries[j].0@);
        }
        lemma_entries_map(t);
        assert forall|i: int| 0 <= i < entries.len() implies entries_map(entries).contains_key(
            (#[trigger] entries[i]).0@,
        ) && entries_map(entries)[entries[i].0@] == key_text(entries[i].1) by {
            if i < n {
                assert(t[i] == entries[i]);
                assert(entries[i].0@ != entries[n].0@);
            }
        }
        assert forall|m: Seq<char>| #[trigger] entries_map(entries).contains_key(m) implies exists|i: int|
            0 <= i < entries.len() && (#[trigger] entries[i]).0@ == m by {
            if m == entries[n].0@ {
            } else {
                assert(entries_map(t).contains_key(m));
                let i = choose|i: int| 0 <= i < t.len() && (#[trigger] t[i]).0@ == m;
                assert(entries[i].0@ == m);
            }
        }
        if entries_map(t).contains_key(entries[n].0@) {
            let i = choose|i: int| 0 <= i < t.len() && (#[trigger] t[i]).0@ == entries[n].0@;
            assert(entries[i].0@ == entries[n].0@);
        }
        assert(entries_map(entries).dom() =~= entries_map(t).dom().insert(entries[n].0@));
    }
}

/// An entry put in place of the one with its name leaves the order.
proof fn lemma_entries_replace(entries: Seq<(String, KeyValue)>, p: int, added: (String, KeyValue))
    requires
        in_name_order(entries),
        0 <= p < entries.len(),
        entries[p].0@ == added.0@,
    ensures
        in_name_order(entries.update(p, added)),
        entries_map(entries.update(p, added)) == entries_map(entries).insert(
            added.0@,
            key_text(added.1),
        ),
{
    let u = entries.update(p, added);
    assert forall|i: int, j: int| 0 <= i < j < u.len() implies text_before(
        (#[trigger] u[i]).0@,
        (#[trigger] u[j]).0@,
    ) by {
        assert(text_before(entries[i].0@, entries[j].0@));
    }
    lemma_ordered_are_distinct(entries);
    lemma_ordered_are_distinct(u);
    lemma_entries_map(entries);
    lemma_entries_map(u);
    let (m, n) = (entries_map(entries).insert(added.0@, key_text(added.1)), entries_map(u));
    assert forall|k: Seq<char>| m.contains_key(k) <==> n.contains_key(k) by {
        assert(u[p].0@ == added.0@);
        if n.contains_key(k) {
            let i = choose|i: int| 0 <= i < u.len() && (#[trigger] u[i]).0@ == k;
            assert(entries[i].0@ == k);
        }
        if entries_map(entries).contains_key(k) {
            let i = choose|i: int| 0 <= i < entries.len() && (#[trigger] entries[i]).0@ == k;
            assert(u[i].0@ == k);
        }
    }
    assert forall|k: Seq<char>| m.contains_key(k) implies m[k] == n[k] by {
        assert(n.contains_key(k));
        let i = choose|i: int| 0 <= i < u.len() && (#[trigger] u[i]).0@ == k;
        if i != p {
            assert(u[i] == entries[i]);
            assert(u[i].0@ != u[p].0@);
        }
    }
    assert(n =~= m);
}

/// An entry put between those whose names come before and after its own keeps the order.
proof fn lemma_entries_insert(entries: Seq<(String, KeyValue)>, p: int, added: (String, KeyValue))
    requires
        in_name_order(entries),
        0 <= p <= entries.len(),
        forall|i: int| 0 <= i < p ==> text_before((#[trigger] entries[i]).0@, added.0@),
        p < entries.len() ==> text_before(added.0@, entries[p].0@),
    ensures
        in_name_order(entries.insert(p, added)),
        entries_map(entries.insert(p, added)) == entries_map(entries).insert(
            added.0@,
            key_text(added.1),
        ),
{
    let u = entries.insert(p, added);
    assert forall|i: int, j: int| 0 <= i < j < u.len() implies text_before(
        (#[trigger] u[i]).0@,
        (#[trigger] u[j]).0@,
    ) by {
        let (a, b) = (if i < p {
            i
        } else {
            i - 1
        }, if j < p {
            j
        } else {
            j - 1
        });
        if i == p {
            assert(u[j] == entries[b]);
            if b > p {
                assert(text_before(entries[p].0@, entries[b].0@));
                law_text_order(added.0@, entries[p].0@, entries[b].0@);
            }
        } else if j == p {
            assert(u[i] == entries[a]);
        } else {
            assert(u[i] == entries[a] && u[j] == entries[b]);
        }
    }
    lemma_ordered_are_distinct(entries);
    lemma_ordered_are_distinct(u);
    lemma_entries_map(entries);
    lemma_entries_map(u);
    let (m, n) = (entries_map(entries).insert(added.0@, key_text(added.1)), entries_map(u));
    assert(u[p] == added);
    assert forall|k: Seq<char>| m.contains_key(k) <==> n.contains_key(k) by {
        if n.contains_key(k) {
            let i = choose|i: int| 0 <= i < u.len() && (#[trigger] u[i]).0@ == k;
            if i < p {
                assert(entries[i].0@ == k);
            } else if i > p {
                assert(entries[i - 1].0@ == k);
            }
        }
        if entries_map(entries).contains_key(k) {
            let i = choose|i: int| 0 <= i < entries.len() && (#[trigger] entries[i]).0@ == k;
            assert(u[if i < p {
                i
            } else {
                i + 1
            }].0@ == k);
        }
    }
    assert forall|k: Seq<char>| m.contains_key(k) implies m[k] == n[k] by {
        assert(n.contains_key(k));
        let i = choose|i: int| 0 <= i < u.len() && (#[trigger] u[i]).0@ == k;
        if i != p {
            assert(u[i] == entries[if i < p {
                i
            } else {
                i - 1
            }]);
            assert(u[i].0@ != u[p].0@);
        }
    }
    assert(n =~= m);
}

/// The first place whose name does not come before `name`.
fn place_of(entries: &Vec<(String, KeyValue)>, name: &str) -> (p: usize)
    ensures
        p <= entries.len(),
        forall|i: int| 0 <= i < p ==> text_before((#[trigger] entries@[i]).0@, name@),
        p < entries.len() ==> !text_before(entries@[p as int].0@, name@),
{
    let mut p: usize = 0;
    while p < entries.len() && comes_before(entries[p].0.as_str(), name)
        invariant
            p <= entries.len(),
            forall|i: int| 0 <= i < p ==> text_before((#[trigger] entries@[i]).0@, name@),
        decreases entries.len() - p,
    {
        p += 1;
    }
    p
}

fn find_in(entries: &Vec<(String, KeyValue)>, name: &str) -> (r: Option<usize>)
    ensures
        r matches Some(i) ==> i < entries.len() && entries@[i as int].0@ == name@,
        r is None ==> forall|i: int|
            0 <= i < entries.len() ==> (#[trigger] entries@[i]).0@ != name@,
{
    let mut i: usize = 0;
    while i < entries.len()
        invariant
            i <= entries.len(),
            forall|k: int| 0 <= k < i ==> (#[trigger] entries@[k]).0@ != name@,
        decreases entries.len() - i,
    {
        if same_text(entries[i].0.as_str(), name) {
            return Some(i);
        }
        i += 1;
    }
    None
}

impl KeybindsCfg {
    #[verifier::type_invariant]
    spec fn valid(self) -> bool {
        in_name_order(self.entries@)
    }

    /// The table as a map from action name to what is stored under it.
    pub closed spec fn table(self) -> Map<Seq<char>, KeyText> {
        entries_map(self.entries@)
    }

    /// The empty table.
    pub fn new() -> (r: Self)
        ensures
            r.table() == Map::<Seq<char>, KeyText>::empty(),
    {
        KeybindsCfg { entries: Vec::new() }
    }

    /// Store `value` under `name`, in place of what was stored there.
    pub fn insert(&mut self, name: String, value: KeyValue)
        ensures
            final(self).table() == old(self).table().insert(name@, key_text(value)),
    {
        proof {
            use_type_invariant(&*self);
        }
        let mut entries: Vec<(String, KeyValue)> = Vec::new();
        std::mem::swap(&mut entries, &mut self.entries);
        let ghost was = entries@;
        let ghost added = (name, value);
        let p = place_of(&entries, name.as_str());
        if p < entries.len() && same_text(entries[p].0.as_str(), name.as_str()) {
            proof {
                lemma_entries_replace(was, p as int, added);
            }
            entries.set(p, (name, value));
        } else {
            proof {
                if p < was.len() {
                    law_text_order(was[p as int].0@, name@, name@);
                }
                lemma_entries_insert(was, p as int, added);
            }
            entries.insert(p, (name, value));
        }
        self.entries = entries;
    }

    /// The value stored under `name`.
    pub fn get(&self, name: &str) -> (r: Option<&KeyValue>)
        ensures
            r is Some <==> self.table().contains_key(name@),
            r matches Some(v) ==> key_text(*v) == self.table()[name@],
    {
        proof {
            use_type_invariant(self);
            lemma_ordered_are_distinct(self.entries@);
            lemma_entries_map(self.entries@);
        }
        match find_in(&self.entries, name) {
            Some(i) => Some(&self.entries[i].1),
            None => None,
        }
    }

    /// The number of names stored.
    pub fn len(&self) -> (n: usize)
        ensures
            n == self.table().dom().len(),
            self.table().dom().finite(),
    {
        proof {
            use_type_invariant(self);
            lemma_ordered_are_distinct(self.entries@);
            lemma_entries_map(self.entries@);
        }
        self.entries.len()
    }

    /// Whether nothing is stored.
    pub fn is_empty(&self) -> (r: bool)
        ensures
            r == (self.table() == Map::<Seq<char>, KeyText>::empty()),
    {
        proof {
            use_type_invariant(self);
            lemma_ordered_are_distinct(self.entries@);
            lemma_entries_map(self.entries@);
            if self.entries.len() > 0 {
                assert(self.table().contains_key(self.entries@[0].0@));
            }
        }
        self.entries.len() == 0
    }

    /// The names stored, each once, in their order.
    pub fn names(&self) -> (r: Vec<String>)
        ensures
            r.len() == self.table().dom().len(),
            forall|i: int, j: int|
                0 <= i < j < r.len() ==> text_before((#[trigger] r@[i])@, (#[trigger] r@[j])@),
            forall|n: Seq<char>| #[trigger]
                self.table().contains_key(n) <==> exists|i: int|
                    0 <= i < r.len() && (#[trigger] r@[i])@ == n,
    {
        proof {
            use_type_invariant(self);
            lemma_ordered_are_distinct(self.entries@);
            lemma_entries_map(self.entries@);
        }
        let mut r: Vec<String> = Vec::new();
        let mut i: usize = 0;
        while i < self.entries.len()
            invariant
                i <= self.entries.len(),
                r.len() == i,
                forall|k: int| 0 <= k < i ==> (#[trigger] r@[k])@ == self.entries@[k].0@,
            decreases self.entries.len() - i,
        {
            r.push(self.entries[i].0.clone());
            i += 1;
        }
        proof {
            assert forall|n: Seq<char>| #[trigger] self.table().contains_key(n) implies exists|i: int|
                0 <= i < r.len() && (#[trigger] r@[i])@ == n by {
                let i = choose|i: int|
                    0 <= i < self.entries.len() && (#[trigger] self.entries@[i]).0@ == n;
                assert(r@[i]@ == n);
            }
        }
        r
    }
}

/// The settings.
#[derive(Debug)]
pub struct Config {
    pub instance_mode: InstanceMode,
    /// Reload the displayed image when its file changes on disk.
    pub hot_reload: bool,
    /// Whether the fit command also scales small images up.
    pub fit_upscale: bool,
    /// Zoom factor of one wheel notch or zoom key press.
    pub zoom_step: Single,
    /// Exposure step in stops.
    pub exposure_step: Single,
    pub default_tonemap: TonemapCfg,
    pub default_fit: FitCfg,
    pub background: BackgroundCfg,
    pub flipbook: FlipbookCfg,
    pub context_menu: ContextMenuCfg,
    pub octagon: OctagonCfg,
    pub keybinds: KeybindsCfg,
    pub open_with: Vec<MenuEntry>,
}

/// The clamp of the zoom step.
pub open spec fn clamped_zoom_step(v: Single) -> Single {
    clamped(
        v,
        Single { bits: ZOOM_STEP_DEFAULT },
        Single { bits: ZOOM_STEP_MIN },
        Single { bits: ZOOM_STEP_MAX },
    )
}

/// The clamp of the exposure step.
pub open spec fn clamped_exposure_step(v: Single) -> Single {
    clamped(
        v,
        Single { bits: EXPOSURE_STEP_DEFAULT },
        Single { bits: EXPOSURE_STEP_MIN },
        Single { bits: EXPOSURE_STEP_MAX },
    )
}

/// The clamp of the playback rate.
pub open spec fn clamped_fps(v: Single) -> Single {
    clamped(v, Single { bits: FPS_DEFAULT }, Single { bits: FPS_MIN }, Single { bits: FPS_MAX })
}

/// The clamp of the stored octagon options.
pub open spec fn clamped_octagon_cfg(c: OctagonCfg) -> OctagonCfg {
    OctagonCfg {
        remember: c.remember,
        color: c.color,
        line_opacity: clamped(
            c.line_opacity,
            Single { bits: ONE },
            Single { bits: ZERO },
            Single { bits: ONE },
        ),
        crop: clamped(
            c.crop,
            Single { bits: CROP_DEFAULT },
            Single { bits: CROP_MIN },
            Single { bits: CROP_MAX },
        ),
        hide: clamped(c.hide, Single { bits: ZERO }, Single { bits: ZERO }, Single { bits: ONE }),
    }
}

/// `c` with every number in range, and everything else as it was.
pub open spec fn sanitized(c: Config) -> Config {
    Config {
        zoom_step: clamped_zoom_step(c.zoom_step),
        exposure_step: clamped_exposure_step(c.exposure_step),
        flipbook: FlipbookCfg { fps: clamped_fps(c.flipbook.fps), ..c.flipbook },
        octagon: clamped_octagon_cfg(c.octagon),
        ..c
    }
}

/// Whether a configuration holds the defaults.
pub open spec fn is_default_config(r: Config) -> bool {
    &&& r.instance_mode == InstanceMode::NewWindow
    &&& r.hot_reload
    &&& r.fit_upscale
    &&& r.zoom_step == (Single { bits: ZOOM_STEP_DEFAULT })
    &&& r.exposure_step == (Single { bits: EXPOSURE_STEP_DEFAULT })
    &&& r.default_tonemap == TonemapCfg::Reinhard
    &&& r.default_fit == FitCfg::Fit
    &&& r.background == BackgroundCfg::Auto
    &&& r.flipbook == default_flipbook_cfg()
    &&& r.context_menu == (ContextMenuCfg {
        show_in_explorer: true,
        copy_file: true,
        copy_path: true,
        copy_file_name: true,
    })
    &&& r.octagon == default_octagon_cfg()
    &&& r.keybinds.table() == Map::<Seq<char>, KeyText>::empty()
    &&& r.open_with@.len() == 0
}

impl Default for Config {
    fn default() -> (r: Self)
        ensures
            is_default_config(r),
    {
        Config {
            instance_mode: InstanceMode::default(),
            hot_reload: true,
            fit_upscale: true,
            zoom_step: Single { bits: ZOOM_STEP_DEFAULT },
            exposure_step: Single { bits: EXPOSURE_STEP_DEFAULT },
            default_tonemap: TonemapCfg::default(),
            default_fit: FitCfg::default(),
            background: BackgroundCfg::default(),
            flipbook: FlipbookCfg::default(),
            context_menu: ContextMenuCfg::default(),
            octagon: OctagonCfg::default(),
            keybinds: KeybindsCfg::new(),
            open_with: Vec::new(),
        }
    }
}

impl Config {
    /// The configuration to run with: what was read, every number in range; the defaults where
    /// nothing could be read.
    pub fn loaded(read: Option<Config>) -> (c: Config)
        ensures
            read matches Some(r) ==> c == sanitized(r),
            read is None ==> is_default_config(c),
    {
        let mut c = match read {
            Some(r) => r,
            None => Config::default(),
        };
        c.sanitize();
        c
    }

    /// Clamp every number into range, with the default in place of what is no number.
    pub fn sanitize(&mut self)
        ensures
            *final(self) == sanitized(*old(self)),
    {
        self.zoom_step = clamp_finite(
            self.zoom_step,
            Single { bits: ZOOM_STEP_DEFAULT },
            Single { bits: ZOOM_STEP_MIN },
            Single { bits: ZOOM_STEP_MAX },
        );
        self.exposure_step = clamp_finite(
            self.exposure_step,
            Single { bits: EXPOSURE_STEP_DEFAULT },
            Single { bits: EXPOSURE_STEP_MIN },
            Single { bits: EXPOSURE_STEP_MAX },
        );
        self.flipbook.fps = clamp_finite(
            self.flipbook.fps,
            Single { bits: FPS_DEFAULT },
            Single { bits: FPS_MIN },
            Single { bits: FPS_MAX },
        );
        let (zero, one) = (Single { bits: ZERO }, Single { bits: ONE });
        self.octagon.crop = clamp_finite(
            self.octagon.crop,
            Single { bits: CROP_DEFAULT },
            Single { bits: CROP_MIN },
            Single { bits: CROP_MAX },
        );
        self.octagon.hide = clamp_finite(self.octagon.hide, zero, zero, one);
        self.octagon.line_opacity = clamp_finite(self.octagon.line_opacity, one, zero, one);
    }
}

/// Sanitizing twice changes nothing more, and the overlay that a launch starts with is the same
/// before and after.
pub proof fn law_sanitize_settles(c: Config)
    ensures
        sanitized(sanitized(c)) == sanitized(c),
        initial_octagon(sanitized(c).octagon) == initial_octagon(c.octagon),
{
}

/// The token in an argument stands for the path, wherever it comes and however often; what stands
/// before it is kept as it is.
pub proof fn law_token_gives_way_to_the_path(head: char, s: Seq<char>, path: Seq<char>)
    ensures
        expanded(seq!['{', 'p', 'a', 't', 'h', '}'] + s, path) == path + expanded(s, path),
        head != '{' ==> expanded(seq![head] + s, path) == seq![head] + expanded(s, path),
        expanded(Seq::<char>::empty(), path).len() == 0,
{
    let token = seq!['{', 'p', 'a', 't', 'h', '}'];
    assert((token + s).take(6) =~= token);
    assert((token + s).skip(6) =~= s);
    assert((seq![head] + s).skip(1) =~= s);
    if head != '{' && (seq![head] + s).len() >= 6 {
        assert((seq![head] + s).take(6)[0] == head);
    }
}

/// A program without arguments gets the path alone; every other gets as many as it was given.
pub proof fn law_programs_get_the_path(args: Seq<String>, path: Seq<char>)
    ensures
        args.len() == 0 ==> launch_args(args, path) == seq![path],
        args.len() > 0 ==> launch_args(args, path).len() == args.len(),
        forall|i: int|
            0 <= i < args.len() ==> #[trigger] launch_args(args, path)[i] == expanded(
                args[i]@,
                path,
            ),
{
}

/// Walking down the menu: one step reads that entry of the list, and every further step goes
/// into the entry's own list; a step past the end leads nowhere.
pub proof fn law_menu_is_walked_down(entries: Seq<MenuEntry>, i: usize, j: usize)
    ensures
        i < entries.len() ==> entry_along(entries, seq![i]) == Some(entries[i as int]),
        i >= entries.len() ==> entry_along(entries, seq![i]) is None,
        entry_along(entries, Seq::empty()) is None,
        i < entries.len() && j < entries[i as int].items.len() ==> entry_along(entries, seq![i, j])
            == Some(entries[i as int].items[j as int]),
{
    reveal_with_fuel(entry_along, 3);
    assert(seq![i, j].skip(1) =~= seq![j]);
}

/// A backdrop is pinned by every setting but the automatic one, to the backdrop of that name.
pub proof fn law_pinned_backdrops(b: BackgroundCfg)
    ensures
        pinned_background(b) is None <==> b == BackgroundCfg::Auto,
        pinned_background(b) == Some(Background::Black) <==> b == BackgroundCfg::Black,
        pinned_background(b) == Some(Background::White) <==> b == BackgroundCfg::White,
        pinned_background(b) == Some(Background::Grey) <==> b == BackgroundCfg::Grey,
        pinned_background(b) == Some(Background::Checker) <==> b == BackgroundCfg::Checker,
{
}

/// The setting names the tone mapping that images open with.
pub proof fn law_tonemap_setting(t: TonemapCfg)
    ensures
        tonemap_of(t) == Tonemap::Aces <==> t == TonemapCfg::Aces,
        tonemap_of(t) == Tonemap::Reinhard <==> t == TonemapCfg::Reinhard,
{
}

/// The overlay starts switched off. Remembered, it has its last settings as far as they lie in
/// range; not remembered, it is as on the first day, whatever the settings say.
pub proof fn law_overlay_starts_off(c: OctagonCfg, d: OctagonCfg)
    ensures
        !initial_octagon(c).enabled,
        !c.remember && !d.remember ==> initial_octagon(c) == initial_octagon(d),
        !c.remember ==> initial_octagon(c) == initial_octagon(default_octagon_cfg()),
        c.remember ==> initial_octagon(c).color == c.color,
        c.remember && crate::single::in_range(c.crop, Single { bits: 0 }, Single { bits: 0x3f00_0000 })
            ==> initial_octagon(c).crop == c.crop,
        c.remember && crate::single::in_range(c.hide, Single { bits: 0 }, Single { bits: ONE })
            ==> initial_octagon(c).hide == c.hide,
        c.remember && crate::single::in_range(
            c.line_opacity,
            Single { bits: 0 },
            Single { bits: ONE },
        ) ==> initial_octagon(c).line_opacity == c.line_opacity,
{
}

/// One text is a list of one, and a list is itself.
pub proof fn law_one_chord_is_a_list_of_one(s: Seq<char>, list: Seq<Seq<char>>)
    ensures
        chord_texts(KeyText::One(s)) == chord_texts(KeyText::Many(seq![s])),
        chord_texts(KeyText::Many(list)) == list,
        chord_texts(KeyText::One(s)).len() == 1,
{
}

/// Sanitising changes numbers that lie out of range and nothing else, and the defaults all lie in
/// range.
pub proof fn law_sanitize_keeps_what_fits(c: Config, r: Config)
    ensures
        ({
            let s = sanitized(c);
            &&& s.instance_mode == c.instance_mode && s.hot_reload == c.hot_reload
            &&& s.fit_upscale == c.fit_upscale && s.default_tonemap == c.default_tonemap
            &&& s.default_fit == c.default_fit && s.background == c.background
            &&& s.flipbook.blend == c.flipbook.blend && s.flipbook.autoplay == c.flipbook.autoplay
            &&& s.flipbook.auto_detect == c.flipbook.auto_detect
            &&& s.context_menu == c.context_menu && s.keybinds == c.keybinds
            &&& s.open_with == c.open_with
            &&& s.octagon.remember == c.octagon.remember && s.octagon.color == c.octagon.color
            &&& crate::single::in_range(
                c.zoom_step,
                Single { bits: ZOOM_STEP_MIN },
                Single { bits: ZOOM_STEP_MAX },
            ) ==> s.zoom_step == c.zoom_step
            &&& crate::single::in_range(
                c.exposure_step,
                Single { bits: EXPOSURE_STEP_MIN },
                Single { bits: EXPOSURE_STEP_MAX },
            ) ==> s.exposure_step == c.exposure_step
            &&& crate::single::in_range(
                c.flipbook.fps,
                Single { bits: FPS_MIN },
                Single { bits: FPS_MAX },
            ) ==> s.flipbook.fps == c.flipbook.fps
            &&& crate::single::in_range(
                s.zoom_step,
                Single { bits: ZOOM_STEP_MIN },
                Single { bits: ZOOM_STEP_MAX },
            )
            &&& crate::single::in_range(
                s.exposure_step,
                Single { bits: EXPOSURE_STEP_MIN },
                Single { bits: EXPOSURE_STEP_MAX },
            )
            &&& crate::single::in_range(
                s.flipbook.fps,
                Single { bits: FPS_MIN },
                Single { bits: FPS_MAX },
            )
            &&& crate::single::in_range(s.octagon.crop, Single { bits: 0 }, Single { bits: 0x3f00_0000 })
            &&& crate::single::in_range(s.octagon.hide, Single { bits: 0 }, Single { bits: ONE })
            &&& crate::single::in_range(
                s.octagon.line_opacity,
                Single { bits: 0 },
                Single { bits: ONE },
            )
            &&& is_default_config(r) ==> sanitized(r) == r
        }),
{
}

/// A zoom step always magnifies, an exposure step always brightens, and a flipbook always moves:
/// none of them can be set to stand still.
pub proof fn law_steps_move(v: Single)
    ensures
        crate::single::rank(clamped_zoom_step(v)) > crate::single::rank(Single { bits: ONE }),
        crate::single::rank(clamped_exposure_step(v)) > 0,
        crate::single::rank(clamped_fps(v)) > 0,
        !crate::single::is_finite(v) ==> clamped_zoom_step(v).bits == ZOOM_STEP_DEFAULT
            && clamped_exposure_step(v).bits == EXPOSURE_STEP_DEFAULT && clamped_fps(v).bits
            == FPS_DEFAULT,
{
}

/// Out of the box every image opens fitted in a window of its own, changed files are read again,
/// every item of the menu shows, and a flipbook is looked for and plays unblended.
pub proof fn law_out_of_the_box(r: Config)
    requires
        is_default_config(r),
    ensures
        r.instance_mode != InstanceMode::SingleInstance,
        r.hot_reload && r.fit_upscale,
        r.default_fit != FitCfg::ActualSize,
        tonemap_of(r.default_tonemap) == Tonemap::Reinhard,
        pinned_background(r.background) is None,
        r.flipbook.autoplay && r.flipbook.auto_detect && !r.flipbook.blend,
        r.context_menu.show_in_explorer && r.context_menu.copy_file && r.context_menu.copy_path
            && r.context_menu.copy_file_name,
        !r.octagon.remember,
        initial_octagon(OctagonCfg { remember: true, ..r.octagon }) == initial_octagon(r.octagon),
        r.open_with.len() == 0,
{
}

/// The ends of each setting's range: a zoom step from about a hundredth to four times, an exposure
/// step from a hundredth of a stop to four, a speed from a tenth of a frame to 120 a second, and
/// what each has out of the box.
pub proof fn law_ranges_of_the_settings(v: Single)
    ensures
        crate::single::in_range(
            clamped_zoom_step(v),
            Single { bits: 0x3f81_47ae },
            Single { bits: 0x4080_0000 },
        ),
        crate::single::in_range(
            clamped_exposure_step(v),
            Single { bits: 0x3c23_d70a },
            Single { bits: 0x4080_0000 },
        ),
        crate::single::in_range(
            clamped_fps(v),
            Single { bits: 0x3dcc_cccd },
            Single { bits: 0x42f0_0000 },
        ),
        crate::single::in_range(v, Single { bits: 0x3f81_47ae }, Single { bits: 0x4080_0000 })
            ==> clamped_zoom_step(v) == v,
        crate::single::in_range(v, Single { bits: 0x3c23_d70a }, Single { bits: 0x4080_0000 })
            ==> clamped_exposure_step(v) == v,
        crate::single::in_range(v, Single { bits: 0x3dcc_cccd }, Single { bits: 0x42f0_0000 })
            ==> clamped_fps(v) == v,
        !crate::single::is_finite(v) ==> clamped_zoom_step(v).bits == 0x3f93_3333
            && clamped_exposure_step(v).bits == 0x3e80_0000 && clamped_fps(v).bits == 0x41c0_0000,
{
}

} // verus!
