use fire::config::FlipbookCfg;
use fire::flipbook::{
    filename_prior, frame_cell_of, frame_dims, parse_grid_token, resolve_frames, stem_prior,
    FlipbookState, Grid, PerPath,
};
use fire::playback::{
    anim_deadline, apply_edit, stepped_position, surface_flipbook, transport_snapshot, whole_single,
    AnimState, Awaited, Books, EditReach, Pump, TransportEdit,
};
use fire::single::Single;
use fire::timers::{TimerKind, TimerQueue};

fn num(v: f32) -> Single {
    Single::from_bits(v.to_bits())
}

fn value(s: Single) -> f32 {
    f32::from_bits(s.to_bits())
}

fn resolve(pos: f32, count: u32, blend: bool) -> (u32, u32, f32) {
    let (a, b, t) = resolve_frames(num(pos), count, blend);
    (a, b, value(t))
}

fn max_lod(grid: Grid, sheet: (u32, u32)) -> f32 {
    let (w, h) = frame_dims(grid, sheet);
    ((w.min(h) as f32).log2() - 1.0).max(0.0)
}

fn prior(name: &str) -> Option<Grid> {
    filename_prior(name)
}

#[test]
fn filename_accept_and_reject() {
    assert_eq!(prior("run_8x8.png"), Some(Grid::new(8, 8)));
    assert_eq!(prior("explosion_4x4_v2.tga"), Some(Grid::new(4, 4)));
    assert_eq!(prior("sheet-2X8.png"), Some(Grid::new(2, 8)));
    assert_eq!(prior("T_x_8x8.png"), Some(Grid::new(8, 8)));
    assert_eq!(prior("smoke_6x3.exr"), Some(Grid::new(6, 3)));
    assert_eq!(prior("a_1x1.png"), None);
    assert_eq!(prior("a_65x2.png"), None);
    assert_eq!(prior("photo.png"), None);
    assert_eq!(prior("render_1920x1080.png"), None);
}

#[test]
fn resolve_frames_blend_off_snaps() {
    assert_eq!(resolve(3.7, 16, false), (3, 3, 0.0));
    assert_eq!(resolve(0.0, 16, false), (0, 0, 0.0));
}

#[test]
fn resolve_frames_blend_on_and_seam() {
    let (a, b, t) = resolve(3.25, 16, true);
    assert_eq!((a, b), (3, 4));
    assert!((t - 0.25).abs() < 1e-6);
    let (a, b, t) = resolve(15.5, 16, true);
    assert_eq!((a, b), (15, 0));
    assert!((t - 0.5).abs() < 1e-6);
}

#[test]
fn resolve_frames_count_one_and_negative_wrap() {
    assert_eq!(resolve(0.5, 1, true), (0, 0, 0.0));
    let (a, b, _) = resolve(-0.5, 16, true);
    assert_eq!((a, b), (15, 0));
}

#[test]
fn frame_dims_and_max_lod() {
    assert_eq!(frame_dims(Grid::new(8, 8), (128, 128)), (16, 16));
    assert!((max_lod(Grid::new(8, 8), (128, 128)) - 3.0).abs() < 1e-6);
}

#[test]
fn state_clamp_invariants() {
    let mut s = FlipbookState::new(Grid::new(8, 8));
    s.grid = Grid::new(100, 0);
    s.frame_count = 9999;
    s.fps = num(1000.0);
    s.frame_pos = num(200.0);
    s.clamp();
    assert_eq!(s.grid, Grid::new(64, 1));
    assert_eq!(s.frame_count, 64);
    assert_eq!(value(s.fps), 120.0);
    assert!(value(s.frame_pos) >= 0.0 && value(s.frame_pos) < 64.0);
}

#[test]
fn positions_wrap_as_the_remainder_does() {
    for count in [1u32, 2, 3, 7, 16, 4096] {
        for pos in [0.0f32, 0.1, 0.9999999, 1.5, -0.25, -7.75, 123.456, 4095.9, 1e7, -1e-9, 3e8] {
            let n = count as f32;
            let p = pos.rem_euclid(n);
            let a = (p.floor() as u32).min(count - 1);
            let (x, y, t) = resolve(pos, count, true);
            if count == 1 {
                assert_eq!((x, y, t), (0, 0, 0.0));
            } else {
                assert_eq!((x, y), (a, (a + 1) % count), "{pos} of {count}");
                assert_eq!(t, p - p.floor(), "{pos} of {count}");
            }
        }
    }
}

#[test]
fn a_position_of_no_number_goes_to_the_start() {
    let mut s = FlipbookState::new(Grid::new(2, 2));
    s.fps = num(f32::NEG_INFINITY);
    s.frame_pos = num(f32::INFINITY);
    s.clamp();
    assert_eq!(value(s.fps), 0.1);
    assert_eq!(value(s.frame_pos), 0.0);
}

#[test]
fn clamping_lands_in_range_and_settles() {
    let wild = [
        f32::NAN,
        -f32::NAN,
        f32::INFINITY,
        f32::NEG_INFINITY,
        f32::MAX,
        f32::MIN,
        f32::MIN_POSITIVE,
        -1e-10,
        -0.0,
        0.0,
        0.1,
        24.0,
        63.999996,
        64.0,
        120.0,
        -1.0,
    ];
    for fps in wild {
        for pos in wild {
            let mut s = FlipbookState::new(Grid::new(8, 8));
            s.fps = num(fps);
            s.frame_pos = num(pos);
            s.clamp();
            let (f, p) = (value(s.fps), value(s.frame_pos));
            assert!((0.1..=120.0).contains(&f), "{fps}");
            assert!(p >= 0.0 && p < 64.0, "{pos}");
            let once = s;
            s.clamp();
            assert_eq!(s, once);
        }
    }
    let mut s = FlipbookState::new(Grid::new(8, 8));
    s.fps = num(f32::NAN);
    s.frame_pos = num(-1e-10);
    s.clamp();
    assert_eq!((value(s.fps), value(s.frame_pos)), (24.0, 0.0));
    let d = FlipbookCfg { fps: num(1e9), ..FlipbookCfg::default() };
    assert_eq!(value(FlipbookState::seeded(Grid::new(2, 2), d).fps), 120.0);
}

#[test]
fn a_stem_ends_at_the_last_dot() {
    assert_eq!(prior("/d/a_4x2.8x8"), Some(Grid::new(4, 2)));
    assert_eq!(prior("/d/v1.a_4x2.png"), Some(Grid::new(4, 2)));
    assert_eq!(prior("/d/.a_4x2"), Some(Grid::new(4, 2)));
    assert_eq!(prior("/d/a_4x2"), Some(Grid::new(4, 2)));
    assert_eq!(prior("/d/a_4x2."), Some(Grid::new(4, 2)));
    assert_eq!(prior("/d/.."), None);
}

#[test]
fn cells_are_row_major() {
    assert_eq!(frame_cell_of(4, Grid::new(3, 3)), (1, 1));
    assert_eq!(frame_cell_of(2, Grid::new(2, 4)), (0, 1));
    assert_eq!(frame_dims(Grid::new(3, 3), (1000, 1000)), (333, 333));
    assert_eq!(frame_dims(Grid::new(64, 1), (10, 10)), (1, 10));
}

#[test]
fn grid_tokens_are_two_numbers() {
    assert_eq!(parse_grid_token("4x2"), Some(Grid::new(4, 2)));
    assert_eq!(parse_grid_token("04X002"), Some(Grid::new(4, 2)));
    for bad in ["x4", "4x", "4xx2", "4x2x", "+4x2", "0x2", "99999999999x2", "", "4"] {
        assert_eq!(parse_grid_token(bad), None, "{bad}");
    }
    assert_eq!(stem_prior("a_4x2_3x3"), Some(Grid::new(3, 3)));
    assert_eq!(stem_prior("plain name"), None);
    assert_eq!(filename_prior("/tmp/dir_8x8/photo.png"), None);
}

#[test]
fn animations_loop_through_every_frame() {
    let mut a = AnimState::new();
    assert_eq!(a.delay_ms(), None);
    assert_eq!(a.next_frame(), None);
    a.adopt(Some(vec![10, 20, 30]));
    assert_eq!(a.delay_ms(), Some(10));
    assert_eq!(a.next_frame(), Some(1));
    assert_eq!(a.advance_frame(true), Some(20));
    assert_eq!(a.advance_frame(true), Some(30));
    assert_eq!(a.next_frame(), Some(0));
    assert_eq!(a.advance_frame(true), Some(10));
    a.adopt(None);
    assert_eq!(a.advance_frame(true), None);
}

#[test]
fn deadlines_are_never_at_once() {
    assert_eq!(anim_deadline(100, 40), 140);
    assert_eq!(anim_deadline(100, 0), 101);
}

#[test]
fn a_killed_timer_is_dropped_when_it_fires() {
    let mut q = TimerQueue::new();
    let mut w = Awaited::none();
    w.arm(&mut q, 1, TimerKind::Anim, 5);
    let first = w.anim.unwrap();
    w.arm(&mut q, 1, TimerKind::Anim, 9);
    let second = w.anim.unwrap();
    assert!(!w.take(TimerKind::Anim, first));
    assert!(w.take(TimerKind::Anim, second));
    assert!(!w.take(TimerKind::Anim, second));
    w.arm(&mut q, 1, TimerKind::Caret, 9);
    let caret = w.caret.unwrap();
    w.kill(TimerKind::Caret);
    assert!(!w.take(TimerKind::Caret, caret));
}

#[test]
fn a_request_for_frames_ends() {
    let mut p = Pump { wanted: 0 };
    p.request_frames(2);
    p.request_frames(1);
    assert_eq!(p.wanted, 2);
    assert!(p.drawn());
    assert!(!p.drawn());
    assert!(!p.drawn());
}

#[test]
fn books_keep_each_path_apart() {
    let mut b = Books::new();
    assert_eq!(b.get("a"), PerPath::default());
    let on = PerPath { enabled: true, ..PerPath::default() };
    b.set("a", on);
    assert_eq!(b.get("a"), on);
    assert_eq!(b.get("b"), PerPath::default());
    b.set("a", PerPath::default());
    assert_eq!(b.get("a"), PerPath::default());
}

#[test]
fn leaving_and_entering_keeps_the_settings() {
    let defaults = FlipbookCfg::default();
    let fresh = PerPath { hint: Some(Grid::new(4, 2)), ..PerPath::default() };
    assert_eq!(fresh.chip_hint(), Some(Grid::new(4, 2)));
    let on = fresh.toggle(defaults);
    assert!(on.enabled);
    assert_eq!(on.chip_hint(), None);
    assert_eq!(on.active().unwrap().grid, Grid::new(4, 2));
    let mut edited = on;
    edited.state = Some(FlipbookState { blend: true, ..on.state.unwrap() });
    let back = edited.toggle(defaults).toggle(defaults);
    assert_eq!(back.state.unwrap().blend, true);
    assert_eq!(back.active().unwrap().grid, Grid::new(4, 2));
    assert_eq!(edited.toggle(defaults).active(), None);
    let slow = FlipbookCfg { fps: num(5.0), autoplay: false, blend: true, ..defaults };
    let seeded = fresh.toggle(slow).active().unwrap();
    assert_eq!((value(seeded.fps), seeded.playing, seeded.blend), (5.0, false, true));
    assert_eq!(edited.toggle(slow), edited.toggle(defaults));
    let shown = surface_flipbook(on.active()).unwrap();
    assert_eq!((shown.grid, shown.frame_count), (Grid::new(4, 2), 8));
    assert_eq!(surface_flipbook(None), None);
}

#[test]
fn edits_reach_as_far_as_they_must() {
    let s = FlipbookState::new(Grid::new(4, 4));
    let (t, reach) = apply_edit(s, TransportEdit::SetCols(8));
    assert_eq!((t.grid, t.frame_count, reach), (Grid::new(8, 4), 32, EditReach::Grid));
    let (u, reach) = apply_edit(t, TransportEdit::SetCount(5));
    assert_eq!((u.frame_count, reach), (5, EditReach::Params));
    let (v, _) = apply_edit(u, TransportEdit::SetRows(2));
    assert_eq!((v.grid, v.frame_count), (Grid::new(8, 2), 5));
    let (p, reach) = apply_edit(s, TransportEdit::Scrub(num(2.75)));
    assert_eq!((value(p.frame_pos), p.playing, reach), (2.75, true, EditReach::Position));
    let (w, _) = apply_edit(s, TransportEdit::Scrub(num(17.5)));
    assert_eq!(value(w.frame_pos), 1.5);
    let (q, _) = apply_edit(s, TransportEdit::TogglePlay);
    assert!(!q.playing);
    let (f, _) = apply_edit(s, TransportEdit::SetFps(num(1e6)));
    assert_eq!(value(f.fps), 120.0);
}

#[test]
fn a_step_and_back_lands_where_it_began() {
    let s = FlipbookState { frame_pos: num(15.4), ..FlipbookState::new(Grid::new(4, 4)) };
    let on = stepped_position(s, 1);
    assert_eq!(value(on), 0.0);
    let back = stepped_position(FlipbookState { frame_pos: on, ..s }, -1);
    assert_eq!(value(back), 15.0);
    assert_eq!(value(stepped_position(s, 33)), 0.0);
}

#[test]
fn whole_numbers_are_exact_singles() {
    for n in [0u32, 1, 2, 3, 4095, 4096, 0xff_ffff] {
        assert_eq!(value(whole_single(n)), n as f32);
    }
}

#[test]
fn the_transport_shows_the_state() {
    assert_eq!(transport_snapshot(None), None);
    let t = transport_snapshot(Some(FlipbookState::new(Grid::new(3, 2)))).unwrap();
    assert_eq!((t.cols, t.rows, t.frame_count, t.grid_max), (3, 2, 6, 64));
}

fn frame_cell_offset(frame: u32, grid: Grid, sheet: (u32, u32)) -> (f32, f32) {
    let (col, row) = frame_cell_of(frame, grid);
    let (w, h) = (sheet.0 as f32 / grid.cols as f32, sheet.1 as f32 / grid.rows as f32);
    (col as f32 * w, row as f32 * h)
}

#[test]
fn cell_offset_row_major_and_fractional() {
    let (x, y) = frame_cell_offset(4, Grid::new(3, 3), (1000, 1000));
    assert!((x - 1000.0 / 3.0).abs() < 1e-3);
    assert!((y - 1000.0 / 3.0).abs() < 1e-3);
    let (x, y) = frame_cell_offset(2, Grid::new(2, 4), (128, 256));
    assert_eq!((x, y), (0.0, 64.0));
}
