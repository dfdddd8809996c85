use ripples::util::{ansi_grayscale, ansi_rgb, Draw};
use ripples::window::Window;

/// Depth resolution: a deeper tile replaces, an equal or shallower one
/// is kept, and into an empty cell the tile always goes.
#[test]
fn depth_resolution_at_one_cell() {
    // A at depth five first, B at depth three second: A stays.
    let mut w = Window::new(2, 1);
    w.draw(Draw::new('A').with_z(5), (0, 0));
    w.draw(Draw::new('B').with_z(3), (0, 0));
    assert_eq!(w.canvas[0].as_ref().unwrap().item(), 'A');

    // A at three first, B at five second: B wins.
    let mut w = Window::new(2, 1);
    w.draw(Draw::new('A').with_z(3), (0, 0));
    w.draw(Draw::new('B').with_z(5), (0, 0));
    assert_eq!(w.canvas[0].as_ref().unwrap().item(), 'B');

    // Equal depth: the first-drawn tile wins.
    let mut w = Window::new(2, 1);
    w.draw(Draw::new('A').with_z(4), (0, 0));
    w.draw(Draw::new('B').with_z(4), (0, 0));
    assert_eq!(w.canvas[0].as_ref().unwrap().item(), 'A');
}

/// No-op render: freshly reset with an identical (empty) previous
/// frame, render writes nothing at all.
#[test]
fn unchanged_frame_renders_nothing() {
    let mut w = Window::new(3, 2);
    w.reset();
    assert_eq!(w.render(), None);
}

/// A frame identical to the previous one is skipped even when it holds
/// tiles.
#[test]
fn repeated_frame_renders_nothing() {
    let mut w = Window::new(3, 2);
    w.reset();
    w.draw(Draw::new('x'), (1, 1));
    assert!(w.render().is_some());
    w.reset();
    w.draw(Draw::new('x'), (1, 1));
    assert_eq!(w.render(), None);
}

/// The full frame text of a one-cell window: cursor home, style reset,
/// foreground, the glyph, and the row reposition, byte for byte.
#[test]
fn frame_text_is_exact() {
    let mut w = Window::new(1, 1);
    w.reset();
    w.draw(Draw::new('x').with_fg(254), (0, 0));
    let s = w.render().expect("a changed frame must render");
    assert_eq!(s, "\x1b[1;1H\x1b[m\x1b[38;5;254mx\x1b[1D\x1b[1B");
}

/// An italic tile carries the italic escape; a colorless one resets
/// the foreground; an empty cell is a plain space.
#[test]
fn frame_text_styles_each_cell() {
    let mut w = Window::new(2, 1);
    w.reset();
    w.draw(Draw::new('a').with_italic(), (0, 0));
    let s = w.render().expect("a changed frame must render");
    assert_eq!(s, "\x1b[1;1H\x1b[m\x1b[3m\x1b[39ma \x1b[2D\x1b[1B");
}

/// Any single changed cell repaints the whole grid.
#[test]
fn any_change_repaints_everything() {
    let mut w = Window::new(2, 2);
    w.reset();
    w.draw(Draw::new('a'), (0, 0));
    w.draw(Draw::new('b'), (1, 1));
    let first = w.render().unwrap();
    w.reset();
    w.draw(Draw::new('a'), (0, 0));
    let second = w.render().unwrap();
    assert_ne!(first, second);
    assert!(second.starts_with("\x1b[1;1H"));
    assert_eq!(second, "\x1b[1;1H\x1b[m\x1b[39ma \x1b[2D\x1b[1B  \x1b[2D\x1b[1B");
}

/// Drawing a tile list clips tiles outside the grid and keeps order.
#[test]
fn draw_all_clips() {
    let mut w = Window::new(2, 2);
    w.reset();
    let tiles = vec![
        (Draw::new('a'), (0i32, 0i32)),
        (Draw::new('b'), (-1i32, 0i32)),
        (Draw::new('c'), (5i32, 5i32)),
        (Draw::new('d'), (1i32, 1i32)),
    ];
    w.draw_all(&tiles);
    assert_eq!(w.canvas[0].as_ref().unwrap().item(), 'a');
    assert!(w.canvas[1].is_none());
    assert!(w.canvas[2].is_none());
    assert_eq!(w.canvas[3].as_ref().unwrap().item(), 'd');
}

/// Tile identity ignores the background color but respects the rest.
#[test]
fn tile_identity_ignores_background() {
    let a = Draw::new('q').with_fg(10).with_bg(1);
    let b = Draw::new('q').with_fg(10).with_bg(200);
    assert!(a == b);
    let c = Draw::new('q').with_fg(11).with_bg(1);
    assert!(a != c);
    let d = Draw::new('q').with_fg(10).with_z(2);
    assert!(a != d);
    let e = Draw::new('q').with_fg(10).with_italic();
    assert!(a != e);
}

/// The palette helpers lay colors out as the 256-color table does.
#[test]
fn palette_layout() {
    assert_eq!(ansi_rgb(0, 0, 0), 16);
    assert_eq!(ansi_rgb(5, 5, 5), 231);
    assert_eq!(ansi_rgb(0, 2, 5), 33);
    assert_eq!(ansi_rgb(2, 1, 0), 94);
    assert_eq!(ansi_grayscale(0), 232);
    assert_eq!(ansi_grayscale(22), 254);
    assert_eq!(ansi_grayscale(23), 255);
}
