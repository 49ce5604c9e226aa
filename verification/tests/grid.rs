use wobl::{
    Attribute, AttributeSet, Backend, Cell, Color, DrawCall, Recorded, Recorder, RenderMode, Wobl,
};

fn white() -> Color {
    Color::new(255, 255, 255)
}

fn blue() -> Color {
    Color::new(0, 0, 255)
}

fn letter(ch: char) -> Cell {
    Cell::new(ch, white(), blue(), AttributeSet::none())
}

fn diffing(width: u32, height: u32) -> Wobl<Recorder> {
    Wobl::new(Recorder::new(RenderMode::Diffing), "grid", width, height, None)
}

#[test]
fn color_from_vec_pads_with_zero() {
    assert_eq!(Color::from_vec(&vec![]), Color::new(0, 0, 0));
    assert_eq!(Color::from_vec(&vec![7]), Color::new(7, 0, 0));
    assert_eq!(Color::from_vec(&vec![7, 8]), Color::new(7, 8, 0));
    assert_eq!(Color::from_vec(&vec![7, 8, 9]), Color::new(7, 8, 9));
}

#[test]
fn color_from_vec_ignores_what_follows_blue() {
    assert_eq!(Color::from_vec(&vec![1, 2, 3, 4, 5]), Color::new(1, 2, 3));
}

#[test]
fn color_new_keeps_channels() {
    let c = Color::new(10, 20, 30);
    assert_eq!((c.r, c.g, c.b), (10, 20, 30));
}

#[test]
fn empty_cell_is_a_black_space() {
    let c = Cell::empty();
    assert_eq!(c.ch, ' ');
    assert_eq!(c.fg, Color::new(0, 0, 0));
    assert_eq!(c.bg, Color::new(0, 0, 0));
    assert_eq!(c.atr, AttributeSet::none());
    assert_eq!(c, Cell::new(' ', Color::new(0, 0, 0), Color::new(0, 0, 0), AttributeSet::none()));
}

#[test]
fn cell_new_keeps_fields() {
    let atr = AttributeSet::none().with(Attribute::Bold);
    let c = Cell::new('q', white(), blue(), atr);
    assert_eq!(c.ch, 'q');
    assert_eq!(c.fg, white());
    assert_eq!(c.bg, blue());
    assert_eq!(c.atr, atr);
    assert_ne!(c, letter('q'));
}

#[test]
fn attribute_set_ignores_order_and_repeats() {
    let a = AttributeSet::from_vec(&vec![Attribute::Bold, Attribute::Italic, Attribute::Bold]);
    let b = AttributeSet::from_vec(&vec![Attribute::Italic, Attribute::Bold]);
    assert_eq!(a, b);
    assert!(a.contains(Attribute::Bold));
    assert!(a.contains(Attribute::Italic));
    assert!(!a.contains(Attribute::Underlined));
    assert_eq!(AttributeSet::from_vec(&vec![]), AttributeSet::none());
}

#[test]
fn attribute_set_with_adds_one_member() {
    let all = [
        Attribute::Reset,
        Attribute::Bold,
        Attribute::Dim,
        Attribute::Italic,
        Attribute::Underlined,
        Attribute::Reverse,
        Attribute::Hidden,
        Attribute::CrossedOut,
    ];
    for a in all {
        let s = AttributeSet::none().with(a);
        for b in all {
            assert_eq!(s.contains(b), a == b);
        }
        assert_eq!(s.with(a), s);
    }
}

#[test]
fn new_engine_starts_empty_and_sets_up_the_device() {
    let w = Wobl::new(Recorder::new(RenderMode::Diffing), "title", 3, 2, Some(30));
    assert_eq!(w.width(), 3);
    assert_eq!(w.height(), 2);
    assert_eq!(w.render_mode(), RenderMode::Diffing);
    assert_eq!(w.back(), &vec![Cell::empty(); 6]);
    assert_eq!(w.front(), &vec![Cell::empty(); 6]);
    assert_eq!(
        w.backend().log(),
        &vec![
            Recorded::SetFps(Some(30)),
            Recorded::Init { title: "title".to_string(), width: 3, height: 2 },
        ]
    );
}

#[test]
fn direct_engine_keeps_no_front_buffer() {
    let w = Wobl::new(Recorder::new(RenderMode::Direct), "title", 3, 2, None);
    assert_eq!(w.render_mode(), RenderMode::Direct);
    assert_eq!(w.back().len(), 6);
    assert_eq!(w.front().len(), 0);
}

#[test]
fn empty_grid_sends_nothing() {
    let mut w = diffing(0, 5);
    w.draw_cell(0, 0, &letter('a'));
    w.draw_text(0, 0, "abc", white(), blue());
    w.wait_frame();
    assert_eq!(w.back().len(), 0);
    assert_eq!(w.backend().draws(), vec![]);
}

#[test]
fn index_is_row_major() {
    let w = diffing(3, 2);
    assert_eq!(w.index(0, 0), 0);
    assert_eq!(w.index(2, 0), 2);
    assert_eq!(w.index(0, 1), 3);
    assert_eq!(w.index(1, 1), 4);
    assert_eq!(w.index(2, 1), 5);
}

#[test]
fn one_draw_gives_one_update() {
    let mut w = diffing(3, 2);
    let x = Cell::new('X', white(), blue(), AttributeSet::none());
    w.draw_cell(1, 1, &x);
    w.wait_frame();
    assert_eq!(w.backend().draws(), vec![DrawCall { x: 1, y: 1, cell: x }]);
    let e = Cell::empty();
    assert_eq!(w.front(), &vec![e, e, e, e, x, e]);
    assert_eq!(w.back(), w.front());
}

#[test]
fn clear_after_draw_gives_one_update_with_the_empty_cell() {
    let mut w = diffing(3, 2);
    let x = Cell::new('X', white(), blue(), AttributeSet::none());
    w.draw_cell(1, 1, &x);
    w.wait_frame();
    w.clear();
    assert_eq!(w.front()[4], x);
    w.wait_frame();
    assert_eq!(
        w.backend().draws(),
        vec![DrawCall { x: 1, y: 1, cell: x }, DrawCall { x: 1, y: 1, cell: Cell::empty() }]
    );
    assert_eq!(w.front(), &vec![Cell::empty(); 6]);
    w.clear();
    w.wait_frame();
    assert_eq!(w.backend().draws().len(), 2);
}

#[test]
fn second_frame_boundary_sends_no_draw() {
    let mut w = diffing(4, 3);
    w.draw_text(0, 0, "ab\ncd", white(), blue());
    w.wait_frame();
    let sent = w.backend().draws().len();
    assert_eq!(sent, 4);
    w.wait_frame();
    assert_eq!(w.backend().draws().len(), sent);
    let log = w.backend().log();
    assert_eq!(&log[log.len() - 2..], &[Recorded::Flush, Recorded::WaitFrame]);
    assert_eq!(&log[log.len() - 4..log.len() - 2], &[Recorded::Flush, Recorded::WaitFrame]);
}

#[test]
fn frame_boundary_draws_then_flushes_then_waits() {
    let mut w = diffing(2, 2);
    w.draw_cell(1, 0, &letter('a'));
    w.draw_cell(0, 1, &letter('b'));
    w.wait_frame();
    assert_eq!(
        w.backend().log(),
        &vec![
            Recorded::SetFps(None),
            Recorded::Init { title: "grid".to_string(), width: 2, height: 2 },
            Recorded::Draw(DrawCall { x: 1, y: 0, cell: letter('a') }),
            Recorded::Draw(DrawCall { x: 0, y: 1, cell: letter('b') }),
            Recorded::Flush,
            Recorded::WaitFrame,
        ]
    );
}

#[test]
fn flush_alone_does_not_wait() {
    let mut w = diffing(1, 1);
    w.draw_cell(0, 0, &letter('a'));
    w.flush();
    let log = w.backend().log();
    assert_eq!(log[log.len() - 1], Recorded::Flush);
    assert_eq!(log[log.len() - 2], Recorded::Draw(DrawCall { x: 0, y: 0, cell: letter('a') }));
    assert_eq!(w.front(), w.back());
}

#[test]
fn updates_are_exactly_the_changed_cells() {
    let mut w = diffing(4, 3);
    w.draw_text(0, 0, "abcd\nefgh\nijkl", white(), blue());
    w.wait_frame();
    let before = w.front().clone();
    let sent_before = w.backend().draws().len();
    assert_eq!(sent_before, 12);
    w.draw_cell(3, 2, &letter('Z'));
    w.draw_cell(0, 0, &letter('a'));
    w.draw_cell(2, 1, &letter('Q'));
    w.draw_cell(1, 0, &letter('R'));
    w.draw_cell(1, 0, &letter('b'));
    let composed = w.back().clone();
    w.wait_frame();
    let mut expected = Vec::new();
    for i in 0..12usize {
        if composed[i] != before[i] {
            expected.push(DrawCall { x: (i % 4) as u32, y: (i / 4) as u32, cell: composed[i] });
        }
    }
    assert_eq!(
        expected,
        vec![
            DrawCall { x: 2, y: 1, cell: letter('Q') },
            DrawCall { x: 3, y: 2, cell: letter('Z') },
        ]
    );
    assert_eq!(&w.backend().draws()[sent_before..], &expected[..]);
    assert_eq!(w.front(), &composed);
}

#[test]
fn direct_mode_sends_every_cell_every_frame() {
    let mut w = Wobl::new(Recorder::new(RenderMode::Direct), "direct", 2, 2, None);
    w.draw_cell(1, 0, &letter('a'));
    w.wait_frame();
    let e = Cell::empty();
    let frame = vec![
        DrawCall { x: 0, y: 0, cell: e },
        DrawCall { x: 1, y: 0, cell: letter('a') },
        DrawCall { x: 0, y: 1, cell: e },
        DrawCall { x: 1, y: 1, cell: e },
    ];
    assert_eq!(w.backend().draws(), frame);
    w.wait_frame();
    let twice: Vec<DrawCall> = frame.iter().chain(frame.iter()).copied().collect();
    assert_eq!(w.backend().draws(), twice);
    assert_eq!(w.front().len(), 0);
}

#[test]
fn draws_off_the_grid_change_nothing() {
    let mut w = diffing(3, 2);
    w.draw_cell(1, 0, &letter('k'));
    w.wait_frame();
    let back = w.back().clone();
    let front = w.front().clone();
    let sent = w.backend().draws().len();
    for (x, y) in [
        (-1, 0),
        (0, -1),
        (3, 0),
        (0, 2),
        (3, 2),
        (-1, -1),
        (i32::MIN, 0),
        (0, i32::MIN),
        (i32::MAX, 0),
        (0, i32::MAX),
        (i32::MAX, i32::MAX),
    ] {
        w.draw_cell(x, y, &letter('!'));
        assert_eq!(w.back(), &back);
        assert_eq!(w.front(), &front);
    }
    w.wait_frame();
    assert_eq!(w.backend().draws().len(), sent);
}

#[test]
fn last_draw_wins() {
    let mut w = diffing(2, 1);
    w.draw_cell(1, 0, &letter('a'));
    w.draw_cell(1, 0, &letter('b'));
    assert_eq!(w.back(), &vec![Cell::empty(), letter('b')]);
    w.wait_frame();
    assert_eq!(w.backend().draws(), vec![DrawCall { x: 1, y: 0, cell: letter('b') }]);
}

#[test]
fn draw_does_not_touch_the_front_buffer() {
    let mut w = diffing(2, 1);
    w.draw_cell(0, 0, &letter('a'));
    assert_eq!(w.front(), &vec![Cell::empty(); 2]);
    assert_eq!(w.backend().draws(), vec![]);
}

#[test]
fn clear_resets_the_back_buffer_only() {
    let mut w = diffing(2, 2);
    w.draw_text(0, 0, "ab\ncd", white(), blue());
    w.wait_frame();
    w.clear();
    assert_eq!(w.back(), &vec![Cell::empty(); 4]);
    assert_eq!(w.front(), &vec![letter('a'), letter('b'), letter('c'), letter('d')]);
}

#[test]
fn text_advances_by_column_and_newline_returns_to_start() {
    let mut w = diffing(4, 3);
    w.draw_text(1, 0, "ab\nc\n\nz", white(), blue());
    let e = Cell::empty();
    assert_eq!(
        w.back(),
        &vec![
            e, letter('a'), letter('b'), e,
            e, letter('c'), e, e,
            e, e, e, e,
        ]
    );
}

#[test]
fn text_is_clipped_not_wrapped() {
    let mut w = diffing(3, 2);
    w.draw_text(1, 0, "abcdef", white(), blue());
    let e = Cell::empty();
    assert_eq!(w.back(), &vec![e, letter('a'), letter('b'), e, e, e]);
    w.clear();
    w.draw_text(-2, 1, "abcdef", white(), blue());
    assert_eq!(w.back(), &vec![e, e, e, letter('c'), letter('d'), letter('e')]);
    w.clear();
    w.draw_text(0, -1, "ab\ncd\nef\ngh", white(), blue());
    assert_eq!(w.back(), &vec![letter('c'), letter('d'), e, letter('e'), letter('f'), e]);
}

#[test]
fn text_at_the_largest_coordinates_draws_nothing() {
    let mut w = diffing(3, 2);
    w.draw_text(i32::MAX, i32::MAX, "ab\ncd", white(), blue());
    assert_eq!(w.back(), &vec![Cell::empty(); 6]);
}

#[test]
fn empty_text_draws_nothing() {
    let mut w = diffing(3, 2);
    w.draw_text(0, 0, "", white(), blue());
    assert_eq!(w.back(), &vec![Cell::empty(); 6]);
}

#[test]
fn text_counts_characters_not_bytes() {
    let mut w = diffing(3, 1);
    w.draw_text(0, 0, "\u{e9}\u{4e16}z", white(), blue());
    assert_eq!(w.back(), &vec![letter('\u{e9}'), letter('\u{4e16}'), letter('z')]);
}

#[test]
fn text_with_attributes_styles_every_cell() {
    let mut w = diffing(2, 1);
    w.draw_text_atr(0, 0, "hi", white(), blue(), &vec![Attribute::Italic, Attribute::Bold]);
    let atr = AttributeSet::none().with(Attribute::Bold).with(Attribute::Italic);
    assert_eq!(
        w.back(),
        &vec![Cell::new('h', white(), blue(), atr), Cell::new('i', white(), blue(), atr)]
    );
}

#[test]
fn attribute_change_alone_is_a_change() {
    let mut w = diffing(1, 1);
    w.draw_text(0, 0, "a", white(), blue());
    w.wait_frame();
    w.draw_text_atr(0, 0, "a", white(), blue(), &vec![Attribute::Underlined]);
    w.wait_frame();
    let underlined =
        Cell::new('a', white(), blue(), AttributeSet::none().with(Attribute::Underlined));
    assert_eq!(
        w.backend().draws(),
        vec![
            DrawCall { x: 0, y: 0, cell: letter('a') },
            DrawCall { x: 0, y: 0, cell: underlined },
        ]
    );
}

#[test]
fn set_fps_reaches_the_device() {
    let mut w = diffing(1, 1);
    w.set_fps(Some(10));
    w.set_fps(None);
    let log = w.backend().log();
    assert_eq!(&log[log.len() - 2..], &[Recorded::SetFps(Some(10)), Recorded::SetFps(None)]);
}

#[test]
fn recorder_reports_its_mode() {
    assert_eq!(Recorder::new(RenderMode::Diffing).render_mode(), RenderMode::Diffing);
    assert_eq!(Recorder::new(RenderMode::Direct).render_mode(), RenderMode::Direct);
}

#[test]
fn engine_runs_on_a_boxed_backend() {
    let backend: Box<dyn Backend> = Box::new(Recorder::new(RenderMode::Diffing));
    let mut w = Wobl::new(backend, "boxed", 2, 1, Some(60));
    assert_eq!(w.render_mode(), RenderMode::Diffing);
    w.draw_cell(1, 0, &letter('b'));
    assert_eq!(w.front(), &vec![Cell::empty(); 2]);
    w.wait_frame();
    assert_eq!(w.front(), &vec![Cell::empty(), letter('b')]);
    let direct: Box<dyn Backend> = Box::new(Recorder::new(RenderMode::Direct));
    let w = Wobl::new(direct, "boxed", 2, 1, None);
    assert_eq!(w.render_mode(), RenderMode::Direct);
    assert_eq!(w.front().len(), 0);
}

#[test]
fn boxed_recorder_still_records() {
    let mut w = Wobl::new(Box::new(Recorder::new(RenderMode::Diffing)), "boxed", 1, 1, None);
    w.draw_cell(0, 0, &letter('z'));
    w.wait_frame();
    assert_eq!(w.backend().draws(), vec![DrawCall { x: 0, y: 0, cell: letter('z') }]);
}
