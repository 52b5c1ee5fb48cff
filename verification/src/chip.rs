//! The hint that an image looks like a sprite sheet: its text, its colours, where its parts lie and
//! what a click on it means.
use vstd::prelude::*;

use crate::chrome::rgb;
use crate::flipbook::Grid;
use crate::status::decimal;

verus! {

/// The colours of the hint, each `0x00BBGGRR`.
#[derive(Debug, Clone, Copy, PartialEq, Eq, Structural)]
pub struct ChipColors {
    pub bg: u32,
    pub border: u32,
    pub fg: u32,
    pub accent: u32,
    pub accent_text: u32,
}

/// The colours of the hint in a theme.
pub open spec fn chip_colors(dark: bool) -> ChipColors {
    if dark {
        ChipColors {
            bg: crate::chrome::colorref(45, 45, 45),
            border: crate::chrome::colorref(90, 90, 90),
            fg: crate::chrome::colorref(235, 235, 235),
            accent: crate::chrome::colorref(14, 99, 156),
            accent_text: crate::chrome::colorref(255, 255, 255),
        }
    } else {
        ChipColors {
            bg: crate::chrome::colorref(250, 250, 250),
            border: crate::chrome::colorref(160, 160, 160),
            fg: crate::chrome::colorref(30, 30, 30),
            accent: crate::chrome::colorref(0, 120, 215),
            accent_text: crate::chrome::colorref(255, 255, 255),
        }
    }
}

/// The colours of the hint in a theme.
pub fn colors(dark: bool) -> (c: ChipColors)
    ensures
        c == chip_colors(dark),
{
    if dark {
        ChipColors {
            bg: rgb(45, 45, 45),
            border: rgb(90, 90, 90),
            fg: rgb(235, 235, 235),
            accent: rgb(14, 99, 156),
            accent_text: rgb(255, 255, 255),
        }
    } else {
        ChipColors {
            bg: rgb(250, 250, 250),
            border: rgb(160, 160, 160),
            fg: rgb(30, 30, 30),
            accent: rgb(0, 120, 215),
            accent_text: rgb(255, 255, 255),
        }
    }
}

/// What the hint says.
pub fn label(grid: Grid) -> (s: String)
    ensures
        s@ == "Looks like a "@ + crate::status::dims_text(grid.cols as nat, grid.rows as nat)
            + " flipbook"@,
{
    let mut s = String::new();
    s.append("Looks like a ");
    s.append(decimal(grid.cols as u64).as_str());
    s.append("\u{d7}");
    s.append(decimal(grid.rows as u64).as_str());
    s.append(" flipbook");
    assert(s@ =~= "Looks like a "@ + crate::status::dims_text(grid.cols as nat, grid.rows as nat)
        + " flipbook"@);
    s
}

/// A rectangle, its right and bottom edges outside.
#[derive(Debug, Clone, Copy, PartialEq, Eq, Structural)]
pub struct Rect {
    pub left: i32,
    pub top: i32,
    pub right: i32,
    pub bottom: i32,
}

/// Whether a point lies in a rectangle.
pub open spec fn is_inside(r: Rect, x: int, y: int) -> bool {
    r.left <= x < r.right && r.top <= y < r.bottom
}

/// Where the parts of the hint lie.
#[derive(Debug, Clone, Copy, PartialEq, Eq, Structural)]
pub struct ChipLayout {
    pub button: Rect,
    pub close: Rect,
    pub width: i32,
    pub height: i32,
}

/// A length of 96 dots per inch on a display of `dpi`.
pub open spec fn scaled(v: int, dpi: u32) -> int {
    v * dpi / 96
}

fn sc(v: i32, dpi: u32) -> (r: i32)
    requires
        0 <= v <= 10,
        10 * dpi <= i32::MAX,
    ensures
        r == scaled(v as int, dpi),
        0 <= r <= 0x200_0000,
{
    assert(0 <= v * dpi <= 10 * dpi) by (nonlinear_arith)
        requires
            0 <= v <= 10,
            0 <= dpi,
    ;
    v * dpi as i32 / 96
}

/// Where the parts lie for a label `label_w` wide, a button text `button_w` wide and lines `text_h`
/// high.
pub open spec fn laid_out(dpi: u32, label_w: int, text_h: int, button_w: int) -> (
    (int, int, int, int),
    (int, int, int, int),
    int,
    int,
) {
    let pad = scaled(10, dpi);
    let line = text_h + scaled(6, dpi);
    let h = text_h + 2 * pad;
    let x = pad + label_w + pad;
    let btn_w = button_w + 2 * scaled(8, dpi);
    let y = (h - line) / 2;
    let c = x + btn_w + pad;
    ((x, y, x + btn_w, y + line), (c, y, c + line, y + line), c + line + pad, h)
}

pub open spec fn is_rect(r: Rect, t: (int, int, int, int)) -> bool {
    r.left == t.0 && r.top == t.1 && r.right == t.2 && r.bottom == t.3
}

/// Whether a length or a place fits 32 bits.
pub open spec fn fits(v: int) -> bool {
    i32::MIN <= v <= i32::MAX
}

/// Whether everything that laying the hint out adds up fits 32 bits.
pub open spec fn layout_fits(dpi: u32, label_w: int, text_h: int, button_w: int) -> bool {
    let (button, close, width, height) = laid_out(dpi, label_w, text_h, button_w);
    &&& 10 * dpi <= i32::MAX
    &&& fits(text_h + scaled(6, dpi))
    &&& fits(button_w + 2 * scaled(8, dpi))
    &&& fits(button.0) && fits(button.2)
    &&& fits(close.0) && fits(close.2)
    &&& fits(width) && fits(height)
}

/// Lay the hint out.
pub fn layout(dpi: u32, label_w: i32, text_h: i32, button_w: i32) -> (r: ChipLayout)
    requires
        layout_fits(dpi, label_w as int, text_h as int, button_w as int),
    ensures
        ({
            let l = laid_out(dpi, label_w as int, text_h as int, button_w as int);
            &&& is_rect(r.button, l.0)
            &&& is_rect(r.close, l.1)
            &&& r.width == l.2
            &&& r.height == l.3
        }),
{
    let pad = sc(10, dpi);
    let inset = sc(8, dpi);
    let line = text_h + sc(6, dpi);
    let h = text_h + 2 * pad;
    let x = pad + label_w + pad;
    let btn_w = button_w + 2 * inset;
    proof {
        assert(6 * dpi / 96 <= 10 * dpi / 96);
    }
    let y = (h - line) / 2;
    let button = Rect { left: x, top: y, right: x + btn_w, bottom: y + line };
    let c = x + btn_w + pad;
    let close = Rect { left: c, top: y, right: c + line, bottom: y + line };
    ChipLayout { button, close, width: c + line + pad, height: h }
}

/// The button and the closing cross lie beside each other inside the hint.
pub proof fn law_chip_parts_are_apart(
    dpi: u32,
    label_w: int,
    text_h: int,
    button_w: int,
    x: int,
    y: int,
    button: Rect,
    close: Rect,
)
    requires
        label_w >= 0,
        text_h >= 0,
        button_w >= 0,
        is_rect(button, laid_out(dpi, label_w, text_h, button_w).0),
        is_rect(close, laid_out(dpi, label_w, text_h, button_w).1),
    ensures
        !(is_inside(button, x, y) && is_inside(close, x, y)),
        is_inside(button, x, y) || is_inside(close, x, y) ==> 0 <= x < laid_out(
            dpi,
            label_w,
            text_h,
            button_w,
        ).2 && 0 <= y < laid_out(dpi, label_w, text_h, button_w).3,
{
    assert(0 <= 6 * dpi / 96 <= 10 * dpi / 96);
    assert(0 <= 8 * dpi / 96);
}

/// Where the hint's left edge goes so that it is centred on `center`.
pub fn left_edge(center: i32, width: i32) -> (x: i32)
    requires
        0 <= width,
        i32::MIN <= center - width / 2,
    ensures
        x == center - width / 2,
{
    center - width / 2
}

/// What a click on the hint means.
#[derive(Debug, Clone, Copy, PartialEq, Eq, Structural)]
pub enum ChipAnswer {
    Accept,
    Dismiss,
}

/// What a click at a point means.
pub fn answer_at(l: ChipLayout, x: i32, y: i32) -> (r: Option<ChipAnswer>)
    ensures
        r == if is_inside(l.close, x as int, y as int) {
            Some(ChipAnswer::Dismiss)
        } else if is_inside(l.button, x as int, y as int) {
            Some(ChipAnswer::Accept)
        } else {
            None
        },
        r == answered(l, x as int, y as int),
{
    if inside(l.close, x, y) {
        Some(ChipAnswer::Dismiss)
    } else if inside(l.button, x, y) {
        Some(ChipAnswer::Accept)
    } else {
        None
    }
}

fn inside(r: Rect, x: i32, y: i32) -> (b: bool)
    ensures
        b == is_inside(r, x as int, y as int),
{
    x >= r.left && x < r.right && y >= r.top && y < r.bottom
}

/// The signed value of 16 bits.
pub open spec fn signed16(u: int) -> int {
    if u < 0x8000 {
        u
    } else {
        u - 0x1_0000
    }
}

/// The point of a mouse message: the low 16 bits are x, the next 16 bits are y, both signed.
pub fn message_point(lparam: u64) -> (p: (i32, i32))
    ensures
        p.0 == signed16(lparam as int % 0x1_0000),
        p.1 == signed16(lparam as int / 0x1_0000 % 0x1_0000),
{
    let x = (lparam % 0x1_0000) as i32;
    let y = (lparam / 0x1_0000 % 0x1_0000) as i32;
    (
        if x < 0x8000 {
            x
        } else {
            x - 0x1_0000
        },
        if y < 0x8000 {
            y
        } else {
            y - 0x1_0000
        },
    )
}

/// Whether the hint is up, and for which display and theme.
#[derive(Debug, Clone, Copy, PartialEq, Eq, Structural)]
pub struct HintChip {
    pub dpi: u32,
    pub colors: ChipColors,
    pub visible: bool,
}

impl HintChip {
    /// A hint that is not up.
    pub fn new(dpi: u32, dark: bool) -> (c: Self)
        ensures
            c == (HintChip { dpi, colors: chip_colors(dark), visible: false }),
    {
        HintChip { dpi, colors: colors(dark), visible: false }
    }

    /// The display changed. Tells whether that is news: the font is made anew and the hint hidden.
    pub fn set_dpi(&mut self, dpi: u32) -> (changed: bool)
        ensures
            changed == (dpi != old(self).dpi),
            *final(self) == (HintChip {
                dpi,
                visible: old(self).visible && !changed,
                ..*old(self)
            }),
    {
        if dpi == self.dpi {
            return false;
        }
        self.dpi = dpi;
        self.visible = false;
        true
    }

    /// The theme changed. Tells whether the hint is to be painted again.
    pub fn set_dark(&mut self, dark: bool) -> (repaint: bool)
        ensures
            *final(self) == (HintChip { colors: chip_colors(dark), ..*old(self) }),
            repaint == old(self).visible,
    {
        self.colors = colors(dark);
        self.visible
    }

    /// Put the hint up.
    pub fn show(&mut self)
        ensures
            *final(self) == (HintChip { visible: true, ..*old(self) }),
    {
        self.visible = true;
    }

    /// Take the hint down. Tells whether it was up.
    pub fn conceal(&mut self) -> (was: bool)
        ensures
            was == old(self).visible,
            *final(self) == (HintChip { visible: false, ..*old(self) }),
    {
        let was = self.visible;
        self.visible = false;
        was
    }
}

/// The chip's text stands out from its ground in either mode, and the ground is the darker one in
/// dark mode; the words on the button are white in both.
pub proof fn law_chip_contrasts(dark: bool)
    ensures
        ({
            let c = chip_colors(dark);
            &&& dark <==> c.fg > c.bg
            &&& dark <==> c.border > c.bg
            &&& c.accent_text == 0xff_ffff
            &&& c.accent != c.bg && c.accent != c.accent_text
            &&& chip_colors(true).bg < chip_colors(false).bg
            &&& chip_colors(true).fg > chip_colors(false).fg
            &&& chip_colors(true).border < chip_colors(false).border
            &&& c.accent / 65536 > c.accent / 256 % 256 > c.accent % 256
        }),
{
}

/// Lengths grow with the resolution: at 96 dots they are as given, at twice as many twice that,
/// and a longer one is never the shorter.
pub proof fn law_lengths_scale(v: int, w: int, dpi: u32)
    requires
        0 <= v <= w,
    ensures
        scaled(v, 96) == v,
        scaled(v, 192) == 2 * v,
        0 <= scaled(v, dpi) <= scaled(w, dpi),
        96 * scaled(v, dpi) <= v * dpi < 96 * scaled(v, dpi) + 96,
{
    assert(0 <= v * dpi <= w * dpi) by (nonlinear_arith)
        requires
            0 <= v <= w,
    ;
}

/// How the chip is laid out: the same gap before the label, between the parts and behind the last;
/// both parts as high as a line and centred; the close part square.
pub proof fn law_chip_layout(dpi: u32, label_w: int, text_h: int, button_w: int)
    requires
        text_h >= 0,
    ensures
        ({
            let (button, close, width, height) = laid_out(dpi, label_w, text_h, button_w);
            let gap = scaled(10, dpi);
            &&& button.0 == gap + label_w + gap
            &&& close.0 - button.2 == gap
            &&& width - close.2 == gap
            &&& height == gap + text_h + gap
            &&& button.1 == close.1 && button.3 == close.3
            &&& close.2 - close.0 == close.3 - close.1
            &&& button.3 - button.1 == text_h + scaled(6, dpi)
            &&& button.2 - button.0 == scaled(8, dpi) + button_w + scaled(8, dpi)
            &&& 0 <= (height - button.3) - button.1 <= 1
        }),
{
}

/// Sixteen bits read with their sign: the value lies in range and differs from the bits by whole
/// turns.
pub proof fn law_signed_halves(u: int)
    requires
        0 <= u < 0x1_0000,
    ensures
        -0x8000 <= signed16(u) < 0x8000,
        (u - signed16(u)) % 0x1_0000 == 0,
        signed16(u) < 0 <==> u >= 0x8000,
{
}

/// What a click on the chip answers.
pub open spec fn answered(l: ChipLayout, x: int, y: int) -> Option<ChipAnswer> {
    match (is_inside(l.button, x, y), is_inside(l.close, x, y)) {
        (_, true) => Some(ChipAnswer::Dismiss),
        (true, false) => Some(ChipAnswer::Accept),
        (false, false) => None,
    }
}

/// A click on the button alone accepts, one on the close part dismisses, and one beside both
/// answers nothing. A part reaches from its left and top edges up to its right and bottom ones.
pub proof fn law_clicks_answer(l: ChipLayout, x: int, y: int)
    ensures
        answered(l, x, y) == Some(ChipAnswer::Dismiss) <==> is_inside(l.close, x, y),
        answered(l, x, y) == Some(ChipAnswer::Accept) <==> is_inside(l.button, x, y) && !is_inside(
            l.close,
            x,
            y,
        ),
        is_inside(l.button, l.button.left as int, l.button.top as int) <==> l.button.left
            < l.button.right && l.button.top < l.button.bottom,
        !is_inside(l.button, l.button.right as int, y) && !is_inside(
            l.button,
            x,
            l.button.bottom as int,
        ),
        x < l.close.left || y < l.close.top ==> !is_inside(l.close, x, y),
{
}

} // verus!
