//! What a window shows and how: the picture on the surface, the session's display preferences, the
//! channel, exposure and tone mapping, the flipbook parameters and the mouse gesture. The geometry
//! of the view is floating point and the caller's; each operation says what it owes the view.
use vstd::prelude::*;

use crate::flipbook::{frame_cell_of, frame_dims, resolve_frames, Grid};
use crate::image::PixelFormat;
use crate::octagon::OctagonState;
use crate::single::Single;
use crate::view::{background_code, channel_code, Background, Channel, Tonemap};

verus! {

/// `16.0`, the largest exposure in stops.
pub const EXPOSURE_MAX: u32 = 0x4180_0000;

/// `-16.0`, the smallest exposure in stops.
pub const EXPOSURE_MIN: u32 = 0xc180_0000;

/// What is known of the picture on the surface.
#[derive(Debug, Clone, Copy, PartialEq, Eq, Structural)]
pub struct Picture {
    pub width: u32,
    pub height: u32,
    pub format: PixelFormat,
    pub channels: u8,
    /// Every pixel is opaque.
    pub alpha_opaque: bool,
}

/// What the surface draws of a sprite sheet.
#[derive(Debug, Clone, Copy, PartialEq, Eq, Structural)]
pub struct FlipbookParams {
    pub grid: Grid,
    pub frame_count: u32,
    pub frame_pos: Single,
    pub blend: bool,
}

/// Preferences that outlive an image.
#[derive(Debug, Clone, Copy, PartialEq, Eq, Structural)]
pub struct Prefs {
    /// The colour where no image is, `0x00RRGGBB`.
    pub clear: u32,
    pub background: Background,
    /// An explicit choice, which sticks across images.
    pub background_override: Option<Background>,
    pub outline: bool,
    pub octagon: OctagonState,
    /// Whether the fit command scales small images up.
    pub fit_upscale: bool,
    /// Whether images open at their own size.
    pub open_actual_size: bool,
    pub default_tonemap: Tonemap,
}

/// How the image is shown.
#[derive(Debug, Clone, Copy, PartialEq, Eq, Structural)]
pub struct Display {
    pub channel: Channel,
    /// Exposure in stops.
    pub exposure: Single,
    pub tonemap: Tonemap,
}

/// The mouse gesture in flight.
#[derive(Debug, Clone, Copy, PartialEq, Eq, Structural)]
pub struct Gesture {
    pub dragging: bool,
    pub zoom_dragging: bool,
    /// The zoom drag has moved too far to be a click.
    pub zoom_dragged: bool,
}

/// What an operation owes the geometry of the view.
#[derive(Debug, Clone, Copy, PartialEq, Eq, Structural)]
pub enum Framing {
    /// Nothing.
    Keep,
    /// Fit the shown dimensions to the viewport.
    Fit { upscale: bool },
    /// One image pixel per screen pixel, centred.
    ActualSize,
    /// The same, then bring the pan back into range.
    ActualSizeClamped,
    /// Bring the pan back into range.
    ClampPan,
}

/// What a move of the cursor does.
#[derive(Debug, Clone, Copy, PartialEq, Eq, Structural)]
pub enum Drag {
    Nothing,
    Pan,
    Zoom,
}

/// The display state of one window.
#[derive(Debug, Clone, Copy, PartialEq, Eq, Structural)]
pub struct Scene {
    pub prefs: Prefs,
    pub shown: Option<Picture>,
    pub display: Display,
    pub flipbook: Option<FlipbookParams>,
    pub gesture: Gesture,
    /// The latest decode request of the window.
    pub generation: u64,
}

/// The integer parameters of the image shader, and the two cells that it blends.
#[derive(Debug, Clone, Copy)]
pub struct ShaderCodes {
    pub channel: i32,
    pub tonemap: i32,
    pub is_hdr: bool,
    pub has_image: bool,
    pub background: i32,
    pub outline: bool,
    /// The dimensions of the image, or of the whole sheet.
    pub image: Option<(u32, u32)>,
    pub octagon_crop: Single,
    /// How far the image fades outside the octagon; not at all while the overlay is off.
    pub octagon_hide: Single,
    /// The sheet's grid, the two cells as column and row, and the blend between them.
    pub cells: Option<(Grid, (u32, u32), (u32, u32), Single)>,
}

/// The backdrop that a picture's nature asks for: a checkerboard under real transparency.
pub open spec fn natural_background(p: Picture) -> Background {
    if crate::image::has_alpha(p.channels) && !p.alpha_opaque {
        Background::Checker
    } else {
        Background::Black
    }
}

/// The backdrop that a picture's nature asks for.
pub fn default_background(p: Picture) -> (b: Background)
    ensures
        b == natural_background(p),
{
    if (p.channels == 2 || p.channels == 4) && !p.alpha_opaque {
        Background::Checker
    } else {
        Background::Black
    }
}

/// The display state of a fresh window.
pub open spec fn fresh_scene(fit_upscale: bool) -> Scene {
    Scene {
        prefs: Prefs {
            clear: 0,
            background: Background::Black,
            background_override: None,
            outline: true,
            octagon: crate::octagon::fresh_octagon(),
            fit_upscale,
            open_actual_size: false,
            default_tonemap: Tonemap::Reinhard,
        },
        shown: None,
        display: neutral_display(Channel::Rgb, Tonemap::Reinhard),
        flipbook: None,
        gesture: Gesture { dragging: false, zoom_dragging: false, zoom_dragged: false },
        generation: 0,
    }
}

pub open spec fn neutral_display(channel: Channel, tonemap: Tonemap) -> Display {
    Display { channel, exposure: Single { bits: 0 }, tonemap }
}

pub open spec fn shows_alpha(s: Scene) -> bool {
    s.shown matches Some(p) && crate::image::has_alpha(p.channels)
}

pub open spec fn shows_hdr(s: Scene) -> bool {
    s.shown matches Some(p) && crate::image::is_float_format(p.format)
}

/// The scene after an image was adopted: the backdrop that was chosen or that suits it, the
/// configured tone mapping, its own composite, no flipbook.
pub open spec fn with_image(s: Scene, p: Picture) -> Scene {
    Scene {
        prefs: Prefs {
            background: match s.prefs.background_override {
                Some(b) => b,
                None => natural_background(p),
            },
            ..s.prefs
        },
        shown: Some(p),
        display: neutral_display(
            crate::view::composite(crate::image::has_alpha(p.channels)),
            s.prefs.default_tonemap,
        ),
        flipbook: None,
        ..s
    }
}

/// The scene after a reload of the same image: only an alpha view that lost its channel changes.
pub open spec fn with_reloaded(s: Scene, p: Picture) -> Scene {
    Scene {
        shown: Some(p),
        display: Display {
            channel: crate::view::kept_channel(
                s.display.channel,
                crate::image::has_alpha(p.channels),
            ),
            ..s.display
        },
        ..s
    }
}

/// `d` are the dimensions that the view frames: the image's, or one cell's.
pub open spec fn are_view_dims(s: Scene, d: (u32, u32)) -> bool {
    match (s.shown, s.flipbook) {
        (Some(p), Some(fb)) => crate::flipbook::is_frame_dim(p.width, fb.grid.cols, d.0)
            && crate::flipbook::is_frame_dim(p.height, fb.grid.rows, d.1),
        (Some(p), None) => d == (p.width, p.height),
        (None, _) => false,
    }
}

pub open spec fn grid_of(fb: Option<FlipbookParams>) -> Option<Grid> {
    match fb {
        Some(f) => Some(f.grid),
        None => None,
    }
}

/// What setting flipbook parameters owes the view: entering or leaving the mode, or another grid,
/// fits anew.
pub open spec fn refit(s: Scene, fb: Option<FlipbookParams>) -> Framing {
    if grid_of(s.flipbook) != grid_of(fb) && s.shown is Some {
        Framing::Fit { upscale: false }
    } else {
        Framing::Keep
    }
}

/// An exposure brought into range; a NaN stays one.
pub open spec fn exposure_in_range(e: Single) -> Single {
    if crate::single::is_finite(e) {
        crate::single::clamped(
            e,
            e,
            Single { bits: EXPOSURE_MIN },
            Single { bits: EXPOSURE_MAX },
        )
    } else if e.bits == 0x7f80_0000 {
        Single { bits: EXPOSURE_MAX }
    } else if e.bits == 0xff80_0000 {
        Single { bits: EXPOSURE_MIN }
    } else {
        e
    }
}

impl Scene {
    /// The state of a fresh window.
    pub fn new(fit_upscale: bool) -> (s: Self)
        ensures
            s == fresh_scene(fit_upscale),
    {
        Scene {
            prefs: Prefs {
                clear: 0,
                background: Background::Black,
                background_override: None,
                outline: true,
                octagon: OctagonState::default(),
                fit_upscale,
                open_actual_size: false,
                default_tonemap: Tonemap::Reinhard,
            },
            shown: None,
            display: Display {
                channel: Channel::Rgb,
                exposure: Single { bits: 0 },
                tonemap: Tonemap::Reinhard,
            },
            flipbook: None,
            gesture: Gesture { dragging: false, zoom_dragging: false, zoom_dragged: false },
            generation: 0,
        }
    }

    /// Whether the image holds floating-point samples.
    pub fn is_hdr(&self) -> (r: bool)
        ensures
            r == shows_hdr(*self),
    {
        match self.shown {
            Some(p) => p.format.is_hdr(),
            None => false,
        }
    }

    /// Whether the image has an alpha channel.
    pub fn has_alpha(&self) -> (r: bool)
        ensures
            r == shows_alpha(*self),
    {
        match self.shown {
            Some(p) => p.channels == 2 || p.channels == 4,
            None => false,
        }
    }

    /// Choose the backdrop for the rest of the session.
    pub fn set_background(&mut self, bg: Background)
        ensures
            *final(self) == (Scene {
                prefs: Prefs {
                    background: bg,
                    background_override: Some(bg),
                    ..old(self).prefs
                },
                ..*old(self)
            }),
            *final(self) == with_backdrop(*old(self), bg),
    {
        self.prefs.background = bg;
        self.prefs.background_override = Some(bg);
    }

    /// Adopt the configured backdrop; none leaves it to each image.
    pub fn set_background_pref(&mut self, bg: Option<Background>)
        ensures
            *final(self) == (Scene {
                prefs: Prefs {
                    background_override: bg,
                    background: match (bg, old(self).shown) {
                        (Some(b), _) => b,
                        (None, Some(p)) => natural_background(p),
                        (None, None) => Background::Black,
                    },
                    ..old(self).prefs
                },
                ..*old(self)
            }),
            *final(self) == with_backdrop_pref(*old(self), bg),
    {
        self.prefs.background_override = bg;
        self.prefs.background = match bg {
            Some(b) => b,
            None => match self.shown {
                Some(p) => default_background(p),
                None => Background::Black,
            },
        };
    }

    /// Switch the outline.
    pub fn toggle_outline(&mut self)
        ensures
            *final(self) == (Scene {
                prefs: Prefs { outline: !old(self).prefs.outline, ..old(self).prefs },
                ..*old(self)
            }),
            *final(self) == outline_switched(*old(self)),
    {
        self.prefs.outline = !self.prefs.outline;
    }

    /// Set the octagon overlay's options, each brought into range.
    pub fn set_octagon(&mut self, s: OctagonState)
        ensures
            *final(self) == (Scene {
                prefs: Prefs { octagon: crate::octagon::clamped_octagon(s), ..old(self).prefs },
                ..*old(self)
            }),
    {
        let mut s = s;
        s.clamp();
        self.prefs.octagon = s;
    }

    /// Switch the octagon overlay.
    pub fn toggle_octagon(&mut self)
        ensures
            *final(self) == (Scene {
                prefs: Prefs {
                    octagon: OctagonState {
                        enabled: !old(self).prefs.octagon.enabled,
                        ..old(self).prefs.octagon
                    },
                    ..old(self).prefs
                },
                ..*old(self)
            }),
            *final(self) == overlay_switched(*old(self)),
    {
        self.prefs.octagon.enabled = !self.prefs.octagon.enabled;
    }

    /// Show one channel, or all again where it is shown already.
    pub fn toggle_channel(&mut self, ch: Channel)
        ensures
            *final(self) == (Scene {
                display: Display {
                    channel: crate::view::toggled_channel(
                        old(self).display.channel,
                        ch,
                        shows_alpha(*old(self)),
                    ),
                    ..old(self).display
                },
                ..*old(self)
            }),
    {
        self.display.channel = if self.display.channel == ch {
            Channel::composite(self.has_alpha())
        } else {
            ch
        };
    }

    /// Switch between the colour channels with and without alpha, or leave a single channel.
    pub fn toggle_composite(&mut self)
        ensures
            *final(self) == (Scene {
                display: Display {
                    channel: crate::view::toggled_composite(
                        old(self).display.channel,
                        shows_alpha(*old(self)),
                    ),
                    ..old(self).display
                },
                ..*old(self)
            }),
    {
        self.display.channel = if self.display.channel == Channel::Rgba {
            Channel::Rgb
        } else {
            Channel::composite(self.has_alpha())
        };
    }

    /// Adopt an exposure, brought into range.
    pub fn adjust_exposure(&mut self, sum: Single)
        ensures
            *final(self) == (Scene {
                display: Display { exposure: exposure_in_range(sum), ..old(self).display },
                ..*old(self)
            }),
    {
        let low = Single { bits: EXPOSURE_MIN };
        let high = Single { bits: EXPOSURE_MAX };
        self.display.exposure = if sum.bits % 0x8000_0000 < 0x7f80_0000 {
            crate::single::clamp_finite(sum, sum, low, high)
        } else if sum.bits == 0x7f80_0000 {
            high
        } else if sum.bits == 0xff80_0000 {
            low
        } else {
            sum
        };
    }

    /// Back to no exposure change.
    pub fn reset_exposure(&mut self)
        ensures
            *final(self) == (Scene {
                display: Display { exposure: Single { bits: 0 }, ..old(self).display },
                ..*old(self)
            }),
    {
        self.display.exposure = Single { bits: 0 };
    }

    /// Switch the tone mapping.
    pub fn toggle_tonemap(&mut self)
        ensures
            *final(self) == (Scene {
                display: Display {
                    tonemap: crate::view::other_tonemap(old(self).display.tonemap),
                    ..old(self).display
                },
                ..*old(self)
            }),
    {
        self.display.tonemap = self.display.tonemap.other();
    }

    /// The dimensions that the view frames: none without an image.
    pub fn view_dims(&self) -> (r: Option<(u32, u32)>)
        ensures
            r is Some <==> self.shown is Some,
            r matches Some(d) ==> are_view_dims(*self, d),
    {
        match self.shown {
            Some(p) => match self.flipbook {
                Some(fb) => Some(frame_dims(fb.grid, (p.width, p.height))),
                None => Some((p.width, p.height)),
            },
            None => None,
        }
    }

    /// Draw a sheet's frames, or the whole image again.
    pub fn set_flipbook(&mut self, fb: Option<FlipbookParams>) -> (framing: Framing)
        ensures
            *final(self) == (Scene { flipbook: fb, ..*old(self) }),
            framing == refit(*old(self), fb),
    {
        let same = match (self.flipbook, fb) {
            (Some(a), Some(b)) => a.grid == b.grid,
            (None, None) => true,
            _ => false,
        };
        self.flipbook = fb;
        if !same && self.shown.is_some() {
            Framing::Fit { upscale: false }
        } else {
            Framing::Keep
        }
    }

    /// Move the playback position only.
    pub fn set_flipbook_pos(&mut self, frame_pos: Single)
        ensures
            *final(self) == (Scene {
                flipbook: match old(self).flipbook {
                    Some(fb) => Some(FlipbookParams { frame_pos, ..fb }),
                    None => None,
                },
                ..*old(self)
            }),
            *final(self) == at_position(*old(self), frame_pos),
    {
        match self.flipbook {
            Some(fb) => {
                self.flipbook = Some(FlipbookParams { frame_pos, ..fb });
            },
            None => {},
        }
    }

    /// Show nothing. The preferences and the display state stay.
    pub fn clear_image(&mut self)
        ensures
            *final(self) == (Scene { shown: None, flipbook: None, ..*old(self) }),
    {
        self.shown = None;
        self.flipbook = None;
    }

    /// Adopt a newly opened image once its upload is decided. A refused upload changes nothing.
    pub fn set_image(&mut self, p: Picture, uploaded: bool) -> (framing: Option<Framing>)
        ensures
            !uploaded ==> framing is None && *final(self) == *old(self),
            uploaded ==> *final(self) == with_image(*old(self), p) && framing == Some(
                if old(self).prefs.open_actual_size {
                    Framing::ActualSize
                } else {
                    Framing::Fit { upscale: false }
                },
            ),
            uploaded ==> framing == Some(opening_framing(*old(self))),
    {
        if !uploaded {
            return None;
        }
        self.prefs.background = match self.prefs.background_override {
            Some(b) => b,
            None => default_background(p),
        };
        self.shown = Some(p);
        self.display = Display {
            channel: Channel::composite(self.has_alpha()),
            exposure: Single { bits: 0 },
            tonemap: self.prefs.default_tonemap,
        };
        self.flipbook = None;
        Some(
            if self.prefs.open_actual_size {
                Framing::ActualSize
            } else {
                Framing::Fit { upscale: false }
            },
        )
    }

    /// Adopt a reloaded image of the same dimensions and keep the view. `fit` says whether the
    /// view is in fit mode.
    pub fn replace_image_keep_view(&mut self, p: Picture, uploaded: bool, fit: bool) -> (framing:
        Option<Framing>)
        ensures
            !uploaded ==> framing is None && *final(self) == *old(self),
            uploaded ==> *final(self) == with_reloaded(*old(self), p) && framing == Some(
                if fit {
                    Framing::Keep
                } else {
                    Framing::ClampPan
                },
            ),
            uploaded ==> framing == Some(reload_framing(fit)),
    {
        if !uploaded {
            return None;
        }
        self.shown = Some(p);
        if !self.has_alpha() && (self.display.channel == Channel::Rgba || self.display.channel
            == Channel::A) {
            self.display.channel = Channel::Rgb;
        }
        Some(
            if fit {
                Framing::Keep
            } else {
                Framing::ClampPan
            },
        )
    }

    /// What a changed viewport owes the view.
    pub fn viewport_changed(&self, fit: bool, fit_upscale: bool) -> (framing: Framing)
        ensures
            framing == if self.shown is None {
                Framing::Keep
            } else if fit {
                Framing::Fit { upscale: fit_upscale }
            } else {
                Framing::ClampPan
            },
            framing == viewport_framing(*self, fit, fit_upscale),
    {
        if self.shown.is_none() {
            Framing::Keep
        } else if fit {
            Framing::Fit { upscale: fit_upscale }
        } else {
            Framing::ClampPan
        }
    }

    /// What the fit command owes the view.
    pub fn fit(&self) -> (framing: Framing)
        ensures
            framing == if self.shown is Some {
                Framing::Fit { upscale: self.prefs.fit_upscale }
            } else {
                Framing::Keep
            },
            framing == fit_framing(*self),
    {
        if self.shown.is_some() {
            Framing::Fit { upscale: self.prefs.fit_upscale }
        } else {
            Framing::Keep
        }
    }

    /// What the 1:1 command owes the view.
    pub fn one_to_one(&self) -> (framing: Framing)
        ensures
            framing == if self.shown is Some {
                Framing::ActualSizeClamped
            } else {
                Framing::ActualSize
            },
            framing == actual_framing(*self),
    {
        if self.shown.is_some() {
            Framing::ActualSizeClamped
        } else {
            Framing::ActualSize
        }
    }

    /// The left button went down.
    pub fn begin_drag(&mut self)
        ensures
            *final(self) == (Scene {
                gesture: Gesture { dragging: true, ..old(self).gesture },
                ..*old(self)
            }),
            *final(self) == held(*old(self), true),
    {
        self.gesture.dragging = true;
    }

    /// The left button went up.
    pub fn end_drag(&mut self)
        ensures
            *final(self) == (Scene {
                gesture: Gesture { dragging: false, ..old(self).gesture },
                ..*old(self)
            }),
            *final(self) == held(*old(self), false),
    {
        self.gesture.dragging = false;
    }

    /// The right button went down.
    pub fn begin_zoom_drag(&mut self)
        ensures
            *final(self) == (Scene {
                gesture: Gesture {
                    zoom_dragging: true,
                    zoom_dragged: false,
                    ..old(self).gesture
                },
                ..*old(self)
            }),
            *final(self) == zoom_held(*old(self), true),
    {
        self.gesture.zoom_dragging = true;
        self.gesture.zoom_dragged = false;
    }

    /// The right button went up. Tells whether it had moved too far to be a click.
    pub fn end_zoom_drag(&mut self) -> (dragged: bool)
        ensures
            dragged == old(self).gesture.zoom_dragged,
            *final(self) == (Scene {
                gesture: Gesture { zoom_dragging: false, ..old(self).gesture },
                ..*old(self)
            }),
            *final(self) == zoom_held(*old(self), false),
    {
        self.gesture.zoom_dragging = false;
        self.gesture.zoom_dragged
    }

    /// Whether a drag owns the mouse.
    pub fn is_mouse_captured(&self) -> (r: bool)
        ensures
            r == (self.gesture.dragging || self.gesture.zoom_dragging),
            r == holds_mouse(*self),
    {
        self.gesture.dragging || self.gesture.zoom_dragging
    }

    /// The cursor moved; `beyond_slop` says whether it is out of reach of a click, `vertical`
    /// whether it moved up or down.
    pub fn on_cursor_moved(&mut self, beyond_slop: bool, vertical: bool) -> (drag: Drag)
        ensures
            *final(self) == (Scene {
                gesture: Gesture {
                    zoom_dragged: old(self).gesture.zoom_dragged || (!old(self).gesture.dragging
                        && old(self).gesture.zoom_dragging && beyond_slop),
                    ..old(self).gesture
                },
                ..*old(self)
            }),
            drag == if old(self).shown is None {
                Drag::Nothing
            } else if old(self).gesture.dragging {
                Drag::Pan
            } else if old(self).gesture.zoom_dragging && vertical {
                Drag::Zoom
            } else {
                Drag::Nothing
            },
            (*final(self), drag) == cursor_moved(*old(self), beyond_slop, vertical),
    {
        if self.gesture.dragging {
            if self.shown.is_some() {
                return Drag::Pan;
            }
        } else if self.gesture.zoom_dragging {
            if beyond_slop {
                self.gesture.zoom_dragged = true;
            }
            if vertical && self.shown.is_some() {
                return Drag::Zoom;
            }
        }
        Drag::Nothing
    }

    /// What the shader is told of the scene.
    pub fn shader_codes(&self) -> (c: ShaderCodes)
        ensures
            c.channel == crate::view::channel_number(self.display.channel),
            c.tonemap == if self.display.tonemap == Tonemap::Aces {
                1i32
            } else {
                0i32
            },
            c.is_hdr == shows_hdr(*self),
            c.has_image == (self.shown is Some),
            c.background == crate::view::background_number(self.prefs.background),
            c.outline == self.prefs.outline,
            c.image == match self.shown {
                Some(p) => Some((p.width, p.height)),
                None => None,
            },
            c.octagon_crop == self.prefs.octagon.crop,
            c.octagon_hide == if self.prefs.octagon.enabled {
                self.prefs.octagon.hide
            } else {
                Single { bits: 0 }
            },
            c.cells is Some <==> self.shown is Some && self.flipbook is Some,
            c.cells matches Some(cells) ==> are_cells(self.flipbook->0, cells),
            are_shader_codes(*self, c),
    {
        let cells = match (self.shown, self.flipbook) {
            (Some(_), Some(fb)) => {
                let (a, b, blend) = resolve_frames(fb.frame_pos, fb.frame_count, fb.blend);
                let cells = (fb.grid, frame_cell_of(a, fb.grid), frame_cell_of(b, fb.grid), blend);
                assert(are_frames(fb, a, b, cells.3));
                assert(are_cells(fb, cells));
                Some(cells)
            },
            _ => None,
        };
        ShaderCodes {
            channel: channel_code(self.display.channel),
            tonemap: match self.display.tonemap {
                Tonemap::Reinhard => 0,
                Tonemap::Aces => 1,
            },
            is_hdr: self.is_hdr(),
            has_image: self.shown.is_some(),
            background: background_code(self.prefs.background),
            outline: self.prefs.outline,
            image: match self.shown {
                Some(p) => Some((p.width, p.height)),
                None => None,
            },
            octagon_crop: self.prefs.octagon.crop,
            octagon_hide: if self.prefs.octagon.enabled {
                self.prefs.octagon.hide
            } else {
                Single { bits: 0 }
            },
            cells,
        }
    }
}

/// `a`, `b` and `blend` are what a playback position resolves to.
pub open spec fn are_frames(fb: FlipbookParams, a: u32, b: u32, blend: Single) -> bool {
    if fb.frame_count <= 1 {
        (a, b, blend) == (0u32, 0u32, Single { bits: 0 })
    } else {
        exists|p: Single| #[trigger]
            crate::flipbook::is_loop_position(fb.frame_pos, fb.frame_count, p) && (a, b)
                == crate::flipbook::frame_pair(
                crate::wrap::whole_part(p),
                fb.frame_count,
                fb.blend,
            ) && (if fb.blend {
                crate::wrap::is_fraction(p, blend)
            } else {
                blend == (Single { bits: 0 })
            })
    }
}

/// `cells` are the cells of the two frames that a playback position resolves to.
pub open spec fn are_cells(fb: FlipbookParams, cells: (Grid, (u32, u32), (u32, u32), Single)) -> bool {
    cells.0 == fb.grid && exists|a: u32, b: u32| #[trigger]
        are_frames(fb, a, b, cells.3) && cells.1 == crate::flipbook::frame_cell(a, fb.grid)
            && cells.2 == crate::flipbook::frame_cell(b, fb.grid)
}

/// An explicit backdrop outlives every image; without one each image decides anew.
pub proof fn law_chosen_backdrop_sticks(s: Scene, p: Picture, q: Picture)
    ensures
        s.prefs.background_override matches Some(b) ==> with_image(
            with_image(s, p),
            q,
        ).prefs.background == b,
        s.prefs.background_override is None ==> with_image(with_image(s, p), q).prefs.background
            == natural_background(q),
{
}

/// A reload of an image that keeps its alpha changes nothing but the picture.
pub proof fn law_reload_keeps_display(s: Scene, p: Picture)
    requires
        shows_alpha(s) ==> crate::image::has_alpha(p.channels),
        !shows_alpha(s) ==> s.display.channel != Channel::Rgba && s.display.channel != Channel::A,
    ensures
        with_reloaded(s, p) == (Scene { shown: Some(p), ..s }),
{
}

/// Every image opens in a view that it has: alpha is shown only where there is alpha.
pub proof fn law_images_open_composited(s: Scene, p: Picture)
    ensures
        with_image(s, p).display.channel == if crate::image::has_alpha(p.channels) {
            Channel::Rgba
        } else {
            Channel::Rgb
        },
        with_image(s, p).display.exposure == (Single { bits: 0 }),
{
}

/// What may be seen through lies on a checkerboard, everything else on black.
pub proof fn law_only_transparency_gets_a_pattern(p: Picture)
    ensures
        natural_background(p) == Background::Checker || natural_background(p) == Background::Black,
        natural_background(p) == Background::Checker <==> crate::image::has_alpha(p.channels)
            && !p.alpha_opaque,
        p.alpha_opaque ==> natural_background(p) == Background::Black,
{
}

/// A new image starts over what belongs to one image and nothing else: it is the one on show,
/// without exposure and in the preferred tone mapping, and no flipbook runs. The preferences, a
/// held button and the count of uploads stay.
pub proof fn law_new_image_starts_over(s: Scene, p: Picture)
    ensures
        ({
            let n = with_image(s, p);
            &&& n.shown == Some(p)
            &&& n.flipbook is None
            &&& n.display.exposure == (Single { bits: 0 })
            &&& n.display.tonemap == s.prefs.default_tonemap
            &&& n.display.channel == Channel::Rgba <==> crate::image::has_alpha(p.channels)
            &&& n.display.channel == Channel::Rgb <==> !crate::image::has_alpha(p.channels)
            &&& s.prefs.background_override is None ==> (n.prefs.background == Background::Checker
                <==> crate::image::has_alpha(p.channels) && !p.alpha_opaque)
            &&& s.prefs.background_override matches Some(b) ==> n.prefs.background == b
            &&& n.prefs.background_override == s.prefs.background_override
            &&& n.prefs.outline == s.prefs.outline
            &&& n.prefs.octagon == s.prefs.octagon
            &&& n.prefs.fit_upscale == s.prefs.fit_upscale
            &&& n.prefs.open_actual_size == s.prefs.open_actual_size
            &&& n.prefs.default_tonemap == s.prefs.default_tonemap
            &&& n.gesture == s.gesture
            &&& n.generation == s.generation
        }),
{
}

/// A reload changes the picture and keeps the rest: the backdrop, the flipbook, the exposure and
/// the tone mapping. The channel stays too, but for one that would show an alpha that is gone.
pub proof fn law_reload_changes_the_picture_only(s: Scene, p: Picture)
    ensures
        ({
            let n = with_reloaded(s, p);
            &&& n.shown == Some(p)
            &&& n.prefs == s.prefs
            &&& n.flipbook == s.flipbook
            &&& n.gesture == s.gesture
            &&& n.generation == s.generation
            &&& n.display.exposure == s.display.exposure
            &&& n.display.tonemap == s.display.tonemap
            &&& n.display.channel != s.display.channel ==> !crate::image::has_alpha(p.channels)
                && n.display.channel == Channel::Rgb
            &&& !crate::image::has_alpha(p.channels) ==> n.display.channel != Channel::Rgba
                && n.display.channel != Channel::A
        }),
{
}

/// A fresh scene shows nothing, lies on black with the outline drawn, and no button is held.
pub proof fn law_fresh_scene_is_empty(fit_upscale: bool, s: Scene, p: Picture)
    ensures
        fresh_scene(fit_upscale).shown is None,
        fresh_scene(fit_upscale).flipbook is None,
        fresh_scene(fit_upscale).prefs.background == Background::Black,
        fresh_scene(fit_upscale).prefs.background_override is None,
        fresh_scene(fit_upscale).prefs.outline,
        !fresh_scene(fit_upscale).prefs.octagon.enabled,
        !fresh_scene(fit_upscale).prefs.open_actual_size,
        fresh_scene(fit_upscale).prefs.fit_upscale == fit_upscale,
        fresh_scene(fit_upscale).display.tonemap == fresh_scene(fit_upscale).prefs.default_tonemap,
        !fresh_scene(fit_upscale).gesture.dragging,
        !fresh_scene(fit_upscale).gesture.zoom_dragging,
        !shows_alpha(fresh_scene(fit_upscale)),
        !shows_hdr(fresh_scene(fit_upscale)),
        shows_alpha(with_image(s, p)) <==> crate::image::has_alpha(p.channels),
        shows_hdr(with_image(s, p)) <==> crate::image::is_float_format(p.format),
{
}

/// Only a changed layout of frames moves the view, and only with a picture to fit: another
/// position, another count or blending leaves the view alone.
pub proof fn law_view_moves_with_the_layout(s: Scene, fb: Option<FlipbookParams>)
    ensures
        refit(s, fb) == Framing::Keep || refit(s, fb) == (Framing::Fit { upscale: false }),
        s.shown is None ==> refit(s, fb) == Framing::Keep,
        s.flipbook is None && fb is None ==> refit(s, fb) == Framing::Keep,
        s.shown is Some && (s.flipbook is Some) != (fb is Some) ==> refit(s, fb) != Framing::Keep,
        s.shown is Some && s.flipbook is Some && fb is Some ==> (refit(s, fb) == Framing::Keep
            <==> s.flipbook->0.grid == fb->0.grid),
{
}

/// An exposure ends between sixteen stops down and sixteen stops up, one in range stays as it
/// is, and beyond an end that end is taken.
pub proof fn law_exposure_stays_in_range(e: Single)
    ensures
        crate::single::in_range(e, Single { bits: 0xc180_0000 }, Single { bits: 0x4180_0000 })
            ==> exposure_in_range(e) == e,
        crate::single::is_finite(e) ==> crate::single::in_range(
            exposure_in_range(e),
            Single { bits: 0xc180_0000 },
            Single { bits: 0x4180_0000 },
        ),
        crate::single::is_finite(e) && crate::single::rank(e) > crate::single::rank(
            Single { bits: 0x4180_0000 },
        ) ==> exposure_in_range(e).bits == 0x4180_0000,
        crate::single::is_finite(e) && crate::single::rank(e) < crate::single::rank(
            Single { bits: 0xc180_0000 },
        ) ==> exposure_in_range(e).bits == 0xc180_0000,
        e.bits == 0x7f80_0000 ==> exposure_in_range(e).bits == 0x4180_0000,
        e.bits == 0xff80_0000 ==> exposure_in_range(e).bits == 0xc180_0000,
        exposure_in_range(exposure_in_range(e)) == exposure_in_range(e),
{
}

/// Without a flipbook the view frames the whole picture.
pub proof fn law_plain_images_are_framed_whole(s: Scene, d: (u32, u32))
    ensures
        s.flipbook is None && are_view_dims(s, d) ==> s.shown is Some && d.0 == s.shown->0.width
            && d.1 == s.shown->0.height,
        are_view_dims(s, d) ==> s.shown is Some,
{
}

/// A flipbook that does not blend shows one whole frame, and one of a single frame always shows
/// the first.
pub proof fn law_unblended_frames_are_whole(fb: FlipbookParams, a: u32, b: u32, blend: Single)
    requires
        are_frames(fb, a, b, blend),
    ensures
        !fb.blend ==> blend == (Single { bits: 0 }),
        fb.frame_count <= 1 ==> a == 0 && b == 0 && blend == (Single { bits: 0 }),
{
}

/// What a changed viewport owes the view.
pub open spec fn viewport_framing(s: Scene, fit: bool, upscale: bool) -> Framing {
    match (s.shown, fit) {
        (None, _) => Framing::Keep,
        (Some(_), true) => Framing::Fit { upscale },
        (Some(_), false) => Framing::ClampPan,
    }
}

/// What the fit command owes the view.
pub open spec fn fit_framing(s: Scene) -> Framing {
    match s.shown {
        Some(_) => Framing::Fit { upscale: s.prefs.fit_upscale },
        None => Framing::Keep,
    }
}

/// What the 1:1 command owes the view.
pub open spec fn actual_framing(s: Scene) -> Framing {
    match s.shown {
        Some(_) => Framing::ActualSizeClamped,
        None => Framing::ActualSize,
    }
}

/// How a new image is framed.
pub open spec fn opening_framing(s: Scene) -> Framing {
    if !s.prefs.open_actual_size {
        Framing::Fit { upscale: false }
    } else {
        Framing::ActualSize
    }
}

/// How an image that was read again is framed.
pub open spec fn reload_framing(fit: bool) -> Framing {
    if !fit {
        Framing::ClampPan
    } else {
        Framing::Keep
    }
}

/// How the view is framed. A fitted view stays fitted when the window changes, and one that is
/// not only keeps the picture in sight; without a picture nothing is fitted. New images are never
/// magnified to fit, and an image that was read again never moves a fitted view.
pub proof fn law_framing(s: Scene, fit: bool, upscale: bool)
    ensures
        s.shown is None ==> viewport_framing(s, fit, upscale) == Framing::Keep && fit_framing(s)
            == Framing::Keep && actual_framing(s) == Framing::ActualSize,
        s.shown is Some ==> (viewport_framing(s, fit, upscale) is Fit <==> fit) && (
        viewport_framing(s, fit, upscale) == Framing::ClampPan <==> !fit),
        s.shown is Some ==> viewport_framing(s, true, upscale) == (Framing::Fit { upscale }),
        s.shown is Some ==> (fit_framing(s) == (Framing::Fit { upscale: true })
            <==> s.prefs.fit_upscale) && fit_framing(s) is Fit,
        s.shown is Some ==> actual_framing(s) == Framing::ActualSizeClamped,
        opening_framing(s) is Fit <==> !s.prefs.open_actual_size,
        opening_framing(s) != (Framing::Fit { upscale: true }),
        opening_framing(s) == Framing::ActualSize <==> s.prefs.open_actual_size,
        reload_framing(fit) == Framing::Keep <==> fit,
        reload_framing(fit) == Framing::ClampPan <==> !fit,
{
}

/// The scene with the left button held or not.
pub open spec fn held(s: Scene, down: bool) -> Scene {
    Scene { gesture: Gesture { dragging: down, ..s.gesture }, ..s }
}

/// The scene with the right button held or not.
pub open spec fn zoom_held(s: Scene, down: bool) -> Scene {
    Scene {
        gesture: Gesture {
            zoom_dragging: down,
            zoom_dragged: !down && s.gesture.zoom_dragged,
            ..s.gesture
        },
        ..s
    }
}

/// Whether a drag owns the mouse.
pub open spec fn holds_mouse(s: Scene) -> bool {
    s.gesture.zoom_dragging || s.gesture.dragging
}

/// What a moved cursor makes of the scene, and what it does to the view.
pub open spec fn cursor_moved(s: Scene, beyond_slop: bool, vertical: bool) -> (Scene, Drag) {
    let zooms = s.gesture.zoom_dragging && !s.gesture.dragging;
    (
        Scene {
            gesture: Gesture {
                zoom_dragged: s.gesture.zoom_dragged || (zooms && beyond_slop),
                ..s.gesture
            },
            ..s
        },
        match s.shown {
            Some(_) => if s.gesture.dragging {
                Drag::Pan
            } else if zooms && vertical {
                Drag::Zoom
            } else {
                Drag::Nothing
            },
            None => Drag::Nothing,
        },
    )
}

/// The mouse is held from a press to its release, by either button; a press of the right one
/// starts a new count, and its release leaves the count to be read.
pub proof fn law_drags_hold_the_mouse(s: Scene, down: bool)
    ensures
        holds_mouse(held(s, true)),
        holds_mouse(zoom_held(s, true)),
        holds_mouse(held(s, false)) <==> s.gesture.zoom_dragging,
        holds_mouse(zoom_held(s, false)) <==> s.gesture.dragging,
        held(s, down).gesture.zoom_dragging == s.gesture.zoom_dragging,
        held(s, down).gesture.zoom_dragged == s.gesture.zoom_dragged,
        zoom_held(s, down).gesture.dragging == s.gesture.dragging,
        !zoom_held(s, true).gesture.zoom_dragged,
        zoom_held(s, false).gesture.zoom_dragged == s.gesture.zoom_dragged,
        held(held(s, true), down) == held(s, down),
{
}

/// A held left button pans and a held right button zooms, the left one first and only with an
/// image; sideways nothing zooms. A move beyond a click's reach is remembered of the right button
/// alone, with or without an image, and never forgotten by another move.
pub proof fn law_moves_do_what_is_held(s: Scene, beyond_slop: bool, vertical: bool)
    ensures
        ({
            let (t, drag) = cursor_moved(s, beyond_slop, vertical);
            &&& drag == Drag::Pan <==> s.shown is Some && s.gesture.dragging
            &&& drag == Drag::Zoom <==> s.shown is Some && !s.gesture.dragging
                && s.gesture.zoom_dragging && vertical
            &&& s.gesture.zoom_dragged ==> t.gesture.zoom_dragged
            &&& t.gesture.zoom_dragged && !s.gesture.zoom_dragged ==> beyond_slop
                && s.gesture.zoom_dragging && !s.gesture.dragging
            &&& beyond_slop && s.gesture.zoom_dragging && !s.gesture.dragging
                ==> t.gesture.zoom_dragged
            &&& holds_mouse(t) == holds_mouse(s)
            &&& t.display == s.display && t.prefs == s.prefs && t.shown == s.shown
        }),
{
}

/// The scene with a backdrop chosen.
pub open spec fn with_backdrop(s: Scene, bg: Background) -> Scene {
    Scene {
        prefs: Prefs { background: bg, background_override: Some(bg), ..s.prefs },
        ..s
    }
}

/// The scene with a backdrop configured.
pub open spec fn with_backdrop_pref(s: Scene, bg: Option<Background>) -> Scene {
    Scene {
        prefs: Prefs {
            background_override: bg,
            background: if bg is Some {
                bg->0
            } else if s.shown is Some {
                natural_background(s.shown->0)
            } else {
                Background::Black
            },
            ..s.prefs
        },
        ..s
    }
}

/// The scene with the outline switched.
pub open spec fn outline_switched(s: Scene) -> Scene {
    Scene { prefs: Prefs { outline: !s.prefs.outline, ..s.prefs }, ..s }
}

/// The scene with the overlay switched.
pub open spec fn overlay_switched(s: Scene) -> Scene {
    Scene {
        prefs: Prefs {
            octagon: OctagonState {
                enabled: !s.prefs.octagon.enabled,
                ..s.prefs.octagon
            },
            ..s.prefs
        },
        ..s
    }
}

/// The scene at another position of its flipbook.
pub open spec fn at_position(s: Scene, frame_pos: Single) -> Scene {
    Scene {
        flipbook: if s.flipbook is Some {
            Some(FlipbookParams { frame_pos, ..s.flipbook->0 })
        } else {
            None
        },
        ..s
    }
}

/// A chosen backdrop is on show at once and stays through the next image. Configured to none, the
/// backdrop is the one that the image would open with.
pub proof fn law_chosen_backdrop_is_shown(s: Scene, bg: Background, p: Picture)
    ensures
        with_backdrop(s, bg).prefs.background == bg,
        with_image(with_backdrop(s, bg), p).prefs.background == bg,
        with_backdrop_pref(s, Some(bg)) == with_backdrop(s, bg),
        with_backdrop_pref(with_image(s, p), None).prefs.background == with_image(
            with_backdrop_pref(s, None),
            p,
        ).prefs.background,
        with_backdrop_pref(with_backdrop(s, bg), None) == with_backdrop_pref(s, None),
        with_backdrop(s, bg).display == s.display,
        with_backdrop(s, bg).prefs.outline == s.prefs.outline,
        with_backdrop(s, bg).shown == s.shown,
{
}

/// Each switch turns its own thing round, and twice leaves the scene as it was.
pub proof fn law_switches_turn_round(s: Scene, frame_pos: Single)
    ensures
        outline_switched(s).prefs.outline != s.prefs.outline,
        outline_switched(outline_switched(s)) == s,
        outline_switched(s).prefs.octagon == s.prefs.octagon,
        overlay_switched(s).prefs.octagon.enabled != s.prefs.octagon.enabled,
        overlay_switched(overlay_switched(s)) == s,
        overlay_switched(s).prefs.outline == s.prefs.outline,
        overlay_switched(s).prefs.octagon.crop == s.prefs.octagon.crop,
        at_position(s, frame_pos).flipbook is Some <==> s.flipbook is Some,
        s.flipbook is Some ==> at_position(s, frame_pos).flipbook->0.frame_pos == frame_pos
            && grid_of(at_position(s, frame_pos).flipbook) == grid_of(s.flipbook)
            && at_position(s, frame_pos).flipbook->0.blend == s.flipbook->0.blend,
{
}

/// What the shader is told.
pub open spec fn are_shader_codes(s: Scene, c: ShaderCodes) -> bool {
    &&& c.channel == crate::view::channel_number(s.display.channel)
    &&& c.tonemap == (if s.display.tonemap == Tonemap::Reinhard {
        0i32
    } else {
        1i32
    })
    &&& c.background == crate::view::background_number(s.prefs.background)
    &&& c.outline == s.prefs.outline
    &&& c.is_hdr == shows_hdr(s)
    &&& c.has_image == (s.shown is Some)
    &&& c.octagon_crop == s.prefs.octagon.crop
    &&& s.prefs.octagon.enabled ==> c.octagon_hide == s.prefs.octagon.hide
    &&& !s.prefs.octagon.enabled ==> c.octagon_hide == (Single { bits: 0 })
}

/// Each switch of the scene tells the shader its own thing: the tone mapping and the outline turn
/// round, and an overlay that is off hides nothing.
pub proof fn law_shader_hears_of_switches(s: Scene, c: ShaderCodes, d: ShaderCodes)
    requires
        are_shader_codes(s, c),
    ensures
        are_shader_codes(outline_switched(s), d) ==> d.outline != c.outline && d.channel
            == c.channel && d.background == c.background,
        are_shader_codes(overlay_switched(s), d) ==> c.octagon_hide == (Single { bits: 0 })
            || d.octagon_hide == (Single { bits: 0 }),
        are_shader_codes(
            Scene {
                display: Display {
                    tonemap: crate::view::other_tonemap(s.display.tonemap),
                    ..s.display
                },
                ..s
            },
            d,
        ) ==> c.tonemap + d.tonemap == 1,
        c.tonemap == 1 <==> s.display.tonemap == Tonemap::Aces,
        s.shown is None ==> !c.has_image && !c.is_hdr,
{
}

/// The cells that are drawn lie on the sheet. Without blending they are one; with it the second
/// is the cell of the frame after the first, and after the last frame that of the first.
pub proof fn law_drawn_cells_are_neighbours(
    fb: FlipbookParams,
    cells: (Grid, (u32, u32), (u32, u32), Single),
)
    requires
        are_cells(fb, cells),
    ensures
        cells.0 == fb.grid,
        !fb.blend || fb.frame_count <= 1 ==> cells.1 == cells.2,
        fb.frame_count <= 1 ==> cells.1 == (0u32, 0u32),
        fb.blend && fb.frame_count > 1 ==> exists|a: u32|
            a < fb.frame_count && cells.1 == #[trigger] crate::flipbook::frame_cell(a, fb.grid)
                && cells.2 == crate::flipbook::frame_cell(
                if a + 1 < fb.frame_count {
                    (a + 1) as u32
                } else {
                    0
                },
                fb.grid,
            ),
        fb.grid.cols >= 1 ==> cells.1.0 < fb.grid.cols,
        fb.grid.rows >= 1 ==> cells.1.1 < fb.grid.rows,
{
    let (a, b) = choose|a: u32, b: u32| #[trigger]
        are_frames(fb, a, b, cells.3) && cells.1 == crate::flipbook::frame_cell(a, fb.grid)
            && cells.2 == crate::flipbook::frame_cell(b, fb.grid);
    if fb.frame_count > 1 {
        let p = choose|p: Single| #[trigger]
            crate::flipbook::is_loop_position(fb.frame_pos, fb.frame_count, p) && (a, b)
                == crate::flipbook::frame_pair(
                crate::wrap::whole_part(p),
                fb.frame_count,
                fb.blend,
            ) && (if fb.blend {
                crate::wrap::is_fraction(p, cells.3)
            } else {
                cells.3 == (Single { bits: 0 })
            });
        crate::flipbook::law_blending_pairs_neighbours(
            crate::wrap::whole_part(p),
            fb.frame_count,
            fb.blend,
        );
    }
    let cols = if fb.grid.cols > 1 {
        fb.grid.cols as int
    } else {
        1
    };
    assert(0 <= a as int % cols < cols) by (nonlinear_arith)
        requires
            cols >= 1,
    ;
    if fb.frame_count <= 1 {
        vstd::arithmetic::div_mod::lemma_small_mod(0, cols as nat);
        vstd::arithmetic::div_mod::lemma_basic_div(0, cols);
    }
}

} // verus!
