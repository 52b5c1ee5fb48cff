//! Adopting settings: what a committed configuration changes of a window that is open, and what of
//! the overlay is kept for the next launch.
use vstd::prelude::*;

use crate::config::{Config, FitCfg, OctagonCfg};
use crate::keybinds::{KeyAction, Keybinds};
use crate::octagon::OctagonState;
use crate::scene::{Prefs, Scene};
use crate::single::Single;
use crate::view::Background;
use crate::viewer::{redrawn, Session, Viewer};

verus! {

/// The backdrop that a configuration asks for; none leaves it to each image.
pub open spec fn shown_background(s: Scene, bg: Option<Background>) -> Background {
    match (bg, s.shown) {
        (Some(b), _) => b,
        (None, Some(p)) => crate::scene::natural_background(p),
        (None, None) => Background::Black,
    }
}

/// The scene after a configuration was pushed into it. The backdrop applies to the image shown;
/// how images open applies to the next one.
pub open spec fn configured(s: Scene, cfg: Config) -> Scene {
    let bg = crate::config::pinned_background(cfg.background);
    Scene {
        prefs: Prefs {
            fit_upscale: cfg.fit_upscale,
            open_actual_size: cfg.default_fit == FitCfg::ActualSize,
            default_tonemap: crate::config::tonemap_of(cfg.default_tonemap),
            background_override: bg,
            background: shown_background(s, bg),
            ..s.prefs
        },
        ..s
    }
}

/// Push the view's part of a configuration into a scene.
pub fn apply_view_config(scene: &mut Scene, cfg: &Config)
    ensures
        *final(scene) == configured(*old(scene), *cfg),
{
    scene.prefs.fit_upscale = cfg.fit_upscale;
    scene.prefs.open_actual_size = match cfg.default_fit {
        FitCfg::ActualSize => true,
        FitCfg::Fit => false,
    };
    scene.prefs.default_tonemap = cfg.default_tonemap.to_render();
    scene.set_background_pref(cfg.background.override_for_render());
}

/// Adopting settings leaves the image, how it is shown and its flipbook as they are.
pub proof fn law_settings_leave_image_alone(s: Scene, cfg: Config)
    ensures
        configured(s, cfg).shown == s.shown,
        configured(s, cfg).display == s.display,
        configured(s, cfg).flipbook == s.flipbook,
        configured(s, cfg).prefs.octagon == s.prefs.octagon,
{
}

/// What adopting a configuration does to the watch on the file.
#[derive(Debug, Clone, Copy, PartialEq, Eq, Structural)]
pub enum WatchChange {
    Keep,
    /// Start, on the open image where there is one.
    Start,
    Stop,
}

/// What a change of the setting does to the watch on the file.
pub open spec fn watched(was: bool, now: bool) -> WatchChange {
    if was == now {
        WatchChange::Keep
    } else if now {
        WatchChange::Start
    } else {
        WatchChange::Stop
    }
}

/// What a change of the setting does to the watch on the file.
pub fn watch_change(was: bool, now: bool) -> (r: WatchChange)
    ensures
        r == watched(was, now),
{
    if was == now {
        WatchChange::Keep
    } else if now {
        WatchChange::Start
    } else {
        WatchChange::Stop
    }
}

/// Whether two numbers compare as equal: both zeros do, and what is no number never does.
pub open spec fn compares_equal(a: Single, b: Single) -> bool {
    !crate::flipbook::is_nan(a) && !crate::flipbook::is_nan(b) && crate::single::rank(a)
        == crate::single::rank(b)
}

fn same_number(a: Single, b: Single) -> (r: bool)
    ensures
        r == compares_equal(a, b),
{
    if a.bits % 0x8000_0000 > 0x7f80_0000 || b.bits % 0x8000_0000 > 0x7f80_0000 {
        return false;
    }
    a.bits == b.bits || (a.bits % 0x8000_0000 == 0 && b.bits % 0x8000_0000 == 0)
}

/// Whether the options kept of an overlay are those of a state.
pub open spec fn keeps(c: OctagonCfg, s: OctagonState) -> bool {
    c.color == s.color && compares_equal(c.line_opacity, s.line_opacity) && compares_equal(
        c.crop,
        s.crop,
    ) && compares_equal(c.hide, s.hide)
}

/// The options of a state, kept.
pub open spec fn captured(c: OctagonCfg, s: OctagonState) -> OctagonCfg {
    OctagonCfg {
        remember: c.remember,
        color: s.color,
        line_opacity: s.line_opacity,
        crop: s.crop,
        hide: s.hide,
    }
}

/// Keep an overlay's options, but not whether it is on. Tells whether any of them changed.
pub fn capture_octagon(c: &mut OctagonCfg, s: OctagonState) -> (changed: bool)
    ensures
        changed == !keeps(*old(c), s),
        *final(c) == captured(*old(c), s),
{
    let same = c.color == s.color && same_number(c.line_opacity, s.line_opacity) && same_number(
        c.crop,
        s.crop,
    ) && same_number(c.hide, s.hide);
    c.color = s.color;
    c.line_opacity = s.line_opacity;
    c.crop = s.crop;
    c.hide = s.hide;
    !same
}

/// Keep an overlay's options when the window closes, where that was opted into. Tells whether the
/// configuration is to be saved.
pub fn persist_octagon(c: &mut OctagonCfg, s: OctagonState) -> (save: bool)
    ensures
        save == (old(c).remember && !keeps(*old(c), s)),
        *final(c) == if old(c).remember {
            captured(*old(c), s)
        } else {
            *old(c)
        },
{
    c.remember && capture_octagon(c, s)
}

/// An overlay whose options are remembered starts the next launch with them, switched off.
pub proof fn law_remembered_overlay_comes_back(c: OctagonCfg, s: OctagonState)
    requires
        c.remember,
        crate::octagon::clamped_octagon(s) == s,
    ensures
        crate::config::initial_octagon(captured(c, s)) == (OctagonState { enabled: false, ..s }),
{
}

/// What a window is left to do after it adopted a configuration.
pub struct Adopted {
    pub watch: WatchChange,
    /// The bindings from now on.
    pub binds: Keybinds,
}

impl Viewer {
    /// Adopt a configuration that another window committed. The view's part applies at once; the
    /// bindings and what becomes of the watch are handed back.
    pub fn adopt_settings(&mut self, was: &Config, new: &Config) -> (r: Adopted)
        ensures
            r.watch == watched(was.hot_reload, new.hot_reload),
            forall|a: KeyAction| #[trigger]
                (r.binds.table())(a) == crate::keybinds::configured(new.keybinds.table(), a),
            final(self)@ == redrawn(
                Session { scene: configured(old(self)@.scene, *new), ..old(self)@ },
            ),
    {
        let watch = watch_change(was.hot_reload, new.hot_reload);
        let binds = Keybinds::from_config(&new.keybinds);
        apply_view_config(&mut self.scene, new);
        assert(self@ =~= (Session { scene: configured(old(self)@.scene, *new), ..old(self)@ }));
        self.redraw();
        Adopted { watch, binds }
    }

    /// Adopt a configuration that this window committed, before it is saved. Opting into keeping
    /// the overlay takes its options as they are now: the draft carries only the choice.
    pub fn apply_settings(&mut self, was: &Config, new: &mut Config) -> (r: Adopted)
        ensures
            r.watch == watched(was.hot_reload, old(new).hot_reload),
            forall|a: KeyAction| #[trigger]
                (r.binds.table())(a) == crate::keybinds::configured(old(new).keybinds.table(), a),
            final(self)@ == redrawn(
                Session { scene: configured(old(self)@.scene, *old(new)), ..old(self)@ },
            ),
            *final(new) == (Config {
                octagon: if old(new).octagon.remember {
                    captured(old(new).octagon, old(self)@.scene.prefs.octagon)
                } else {
                    old(new).octagon
                },
                ..*old(new)
            }),
    {
        let r = self.adopt_settings(was, new);
        if new.octagon.remember {
            capture_octagon(&mut new.octagon, self.scene.prefs.octagon);
        }
        r
    }
}

/// The settings set the preferences they name and no others, and applying them twice is
/// applying them once.
pub proof fn law_settings_set_what_they_name(s: Scene, cfg: Config)
    ensures
        configured(s, cfg).prefs.fit_upscale == cfg.fit_upscale,
        configured(s, cfg).prefs.open_actual_size <==> cfg.default_fit == FitCfg::ActualSize,
        configured(s, cfg).prefs.default_tonemap == crate::config::tonemap_of(cfg.default_tonemap),
        configured(s, cfg).prefs.outline == s.prefs.outline,
        configured(s, cfg).prefs.clear == s.prefs.clear,
        configured(s, cfg).gesture == s.gesture,
        configured(s, cfg).generation == s.generation,
        crate::config::pinned_background(cfg.background) matches Some(b) ==> configured(
            s,
            cfg,
        ).prefs.background == b,
        configured(configured(s, cfg), cfg) == configured(s, cfg),
{
}

/// Adopting the settings and then opening an image leaves the backdrop that opening the image
/// and then adopting them does.
pub proof fn law_backdrop_does_not_depend_on_order(s: Scene, cfg: Config, p: crate::scene::Picture)
    ensures
        crate::scene::with_image(configured(s, cfg), p).prefs.background == configured(
            crate::scene::with_image(s, p),
            cfg,
        ).prefs.background,
        s.shown is None && crate::config::pinned_background(cfg.background) is None ==> configured(
            s,
            cfg,
        ).prefs.background == Background::Black,
{
}

/// Watching starts only where it is wanted now and was not before, stops only the other way
/// round, and going back undoes the change.
pub proof fn law_watching_follows_the_setting(was: bool, now: bool)
    ensures
        watched(was, now) == WatchChange::Start <==> !was && now,
        watched(was, now) == WatchChange::Stop <==> was && !now,
        watched(was, now) == WatchChange::Keep <==> watched(now, was) == WatchChange::Keep,
        watched(was, now) == WatchChange::Start <==> watched(now, was) == WatchChange::Stop,
{
}

/// Equal numbers: both zeros are one number, what is no number equals nothing, and apart from
/// that only the same bits are equal.
pub proof fn law_numbers_compare_by_value(a: Single, b: Single)
    ensures
        compares_equal(a, b) == compares_equal(b, a),
        crate::flipbook::is_nan(a) ==> !compares_equal(a, b),
        !crate::flipbook::is_nan(a) ==> compares_equal(a, a),
        compares_equal(Single { bits: 0 }, Single { bits: 0x8000_0000 }),
        compares_equal(a, b) && a != b ==> a.bits % 0x8000_0000 == 0 && b.bits % 0x8000_0000 == 0,
{
}

/// Capturing the overlay takes over all its settings, keeps the wish to remember them, and
/// leaves nothing to capture again.
pub proof fn law_capture_takes_everything(c: OctagonCfg, s: OctagonState)
    ensures
        captured(c, s).remember == c.remember,
        captured(c, s).color == s.color,
        captured(c, s).line_opacity == s.line_opacity,
        captured(c, s).crop == s.crop,
        captured(c, s).hide == s.hide,
        crate::octagon::clamped_octagon(s) == s ==> keeps(captured(c, s), s),
        keeps(c, s) ==> c.color == s.color,
        c.color != s.color ==> !keeps(c, s),
        keeps(c, s) ==> compares_equal(c.crop, s.crop) && compares_equal(c.hide, s.hide)
            && compares_equal(c.line_opacity, s.line_opacity),
{
    assert(crate::octagon::clamped_octagon(s) == s ==> crate::single::is_finite(s.crop)
        && crate::single::is_finite(s.hide) && crate::single::is_finite(s.line_opacity));
}

} // verus!
