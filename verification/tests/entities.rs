use rand::SeedableRng;
use ripples::carrot::Carrot;
use ripples::dialog::Dialog;
use ripples::hole::Hole;
use ripples::track::Track;
use ripples::train::Train;
use ripples::train_scene::TrainScene;
use ripples::util::{explosion_path, explosion_target_dt, move_per_radiate, Radiate};
use ripples::num::UNIT;
use ripples::water::{Water, NEUTRAL};
use ripples::zoom::Zoom;

/// Without a radial push a point stands still; inside the push radius
/// it is thrown outward along its ray; outside it is unaffected.
#[test]
fn radial_push_moves_points() {
    assert_eq!(move_per_radiate(&None, 7, (3, 4)), (3, 4));
    let rad = Some(Radiate { t: 0, pos: (0, 0) });
    // Distance three, age ten: pushed out to distance ten.
    assert_eq!(move_per_radiate(&rad, 10, (3, 0)), (10, 0));
    // The origin itself never moves off the origin.
    assert_eq!(move_per_radiate(&rad, 10, (0, 0)), (0, 0));
    // A faraway point is untouched.
    assert_eq!(move_per_radiate(&rad, 10, (100, 100)), (100, 100));
}

/// The arc timing formula: three tenths per column, four tenths per
/// row, rounded up, plus two.
#[test]
fn arc_timing() {
    assert_eq!(explosion_target_dt((0, 0), (0, 0)), 2);
    assert_eq!(explosion_target_dt((10, 0), (0, 0)), 5);
    assert_eq!(explosion_target_dt((0, 10), (0, 0)), 6);
    assert_eq!(explosion_target_dt((-10, -10), (0, 0)), 9);
}

/// The arc's endpoints: at age zero the debris sits on its origin, and
/// past the arc time it sits on its target.
#[test]
fn arc_endpoints() {
    assert_eq!(explosion_path(0, (10, 0), (0, 0)), (0, 0));
    assert_eq!(explosion_path(2, (10, 0), (0, 0)), (4, 0));
    assert_eq!(explosion_path(1000, (10, 0), (0, 0)), (10, 0));
    assert_eq!(explosion_path(1000, (-7, 3), (2, 2)), (-7, 3));
}

/// The track: a sleeper joint every fourth column.
#[test]
fn track_pattern() {
    let t = Track::new(6, 6);
    let tiles = t.tiles();
    let symbols: Vec<char> = tiles.iter().map(|(d, _)| d.item()).collect();
    assert_eq!(symbols, vec!['=', '+', '=', '=', '=', '+']);
    assert_eq!(tiles[0].1, (0, 6));
    assert_eq!(tiles[5].1, (5, 6));
}

/// The train rolls two columns per tick and is put back at its start
/// once it is far off screen.
#[test]
fn train_rolls_and_resets() {
    let mut t = Train::new(5, 100, 7);
    t.tick();
    assert_eq!(t.left_x(), 98);
    t.reset();
    assert_eq!(t.left_x(), 100);
    assert_eq!(t.right_x(), 100 + 47 + 40 * 3 + 46);
    let mut far = Train::new(2, -500, 7);
    far.tick();
    assert_eq!(far.left_x(), -500);
}

/// The train scene only moves its train while rolling or while still
/// stopping, and freezes for good once the train has left the screen.
#[test]
fn train_scene_states() {
    let mut s = TrainScene::new(100, 40);
    let x0 = s.train().left_x();
    s.tick();
    assert_eq!(s.train().left_x(), x0, "a frozen scene stands still");
    s.unfreeze();
    s.tick();
    assert_eq!(s.train().left_x(), x0 - 2);
    s.freeze();
    s.tick();
    assert_eq!(s.train().left_x(), x0 - 2, "already off screen, freezes at once");
    s.unfreeze();
    for _ in 0..155 {
        s.tick();
    }
    assert_eq!(s.train().left_x(), x0 - 312);
    s.freeze();
    s.tick();
    assert_eq!(s.train().left_x(), x0 - 314, "still visible, keeps rolling");
}

/// The zoom mask: off it blanks nothing; a wide-open iris blanks
/// nothing; a completed fade-out blanks the whole screen.
#[test]
fn zoom_mask_coverage() {
    let z = Zoom::new(4, 4);
    assert_eq!(z.tiles().len(), 0);

    let mut z = Zoom::new(4, 4);
    z.zoom((2, 2), 3);
    assert_eq!(z.tiles().len(), 0, "the iris opens far outside the screen");

    z.disappear();
    z.tick(60);
    let tiles = z.tiles();
    assert_eq!(tiles.len(), 16, "a finished fade blanks every cell");
    assert!(tiles.iter().all(|(d, _)| d.item() == ' ' && d.z_idx() == 1000));
}

/// After the iris has shrunk to its target radius, distant cells are
/// blanked and the center is left visible.
#[test]
fn zoom_mask_shrinks() {
    let mut z = Zoom::new(20, 20);
    z.zoom((10, 10), 2);
    z.tick(200);
    let tiles = z.tiles();
    assert!(!tiles.is_empty());
    assert!(tiles.iter().all(|(_, p)| *p != (10, 10)), "the center stays visible");
    assert!(tiles.iter().any(|(_, p)| *p == (0, 0)), "the corner is blanked");
}

/// Word wrap: short text stands alone; long text breaks at the last
/// space within the width, dropping the space; spaceless text breaks
/// hard at the width, dropping the character after it.
#[test]
fn dialog_wraps_text() {
    let d = Dialog::new((0, 20), "hello".to_string(), false);
    assert_eq!(d.to_lines(), vec!["hello".to_string()]);

    let text = format!("{} {}", "x".repeat(10), "y".repeat(35));
    let d = Dialog::new((0, 20), text, false);
    assert_eq!(d.to_lines(), vec!["x".repeat(10), "y".repeat(35)]);

    let d = Dialog::new((0, 20), "a".repeat(45), false);
    assert_eq!(d.to_lines(), vec!["a".repeat(40), "a".repeat(4)]);
}

/// The dialog box draws its tail corner at the anchor and its text
/// inside the frame.
#[test]
fn dialog_box_layout() {
    let d = Dialog::new((0, 10), "hi".to_string(), false);
    let tiles = d.tiles();
    assert_eq!(tiles[0].0.item(), 'L');
    assert_eq!(tiles[0].1, (0, 10));
    assert!(tiles.iter().any(|(t, p)| t.item() == 'h' && *p == (3, 8)));
    assert!(tiles.iter().any(|(t, p)| t.item() == 'i' && *p == (4, 8)));
    assert!(tiles.iter().all(|(t, _)| t.z_idx() == 10));
}

/// The carrot appears one tile per tick after `appear`, and scattering
/// adds fifteen lettered pieces inside the scatter disc plus the
/// pending target letter.
#[test]
fn carrot_appears_and_scatters() {
    let mut c = Carrot::new((30, 20));
    assert_eq!(c.tiles().len(), 0);
    c.tick(5);
    c.appear();
    c.tick(6);
    assert_eq!(c.tiles().len(), 1);
    c.tick(20);
    assert_eq!(c.tiles().len(), 3);

    let mut rng = rand::rngs::StdRng::seed_from_u64(7);
    c.set_target_letters(vec![('q', (40, 25))]);
    c.scatter(&mut rng);
    assert_eq!(c.debris.len(), 16);
    for (t0, letter, (x, y), targeted) in c.debris.iter().take(15) {
        assert_eq!(*t0, 20);
        assert!(('a'..='z').contains(letter));
        let dx = x - 30;
        let dy = y - 20;
        assert!(dx * dx + dy * dy <= 225);
        assert!(*x >= 0 && *y >= 0);
        assert!(!targeted);
    }
    let last = c.debris.last().unwrap();
    assert_eq!(*last, (20, 'q', (40, 25), true));
    assert!(c.target_letters.is_empty());
    assert_eq!(c.tiles().len(), 3 + 16);
}

/// Stray debris is dropped once twice its arc time has passed, while
/// targeted debris stays.
#[test]
fn carrot_tick_prunes_debris() {
    let mut c = Carrot::new((0, 0));
    c.debris.push((0, 'a', (4, 0), false));
    c.debris.push((0, 'b', (4, 0), true));
    c.tick(5);
    assert_eq!(c.debris.len(), 2, "both arcs still young");
    c.tick(100);
    assert_eq!(c.debris.len(), 1);
    assert_eq!(c.debris[0].1, 'b');
}

/// The hole reacts to clicks on its rim only.
#[test]
fn hole_click_area() {
    let h = Hole::new((10, 5));
    assert!(h.contains_click((10, 5)));
    assert!(h.contains_click((14, 8)));
    assert!(!h.contains_click((15, 5)));
    assert!(!h.contains_click((10, 9)));
    assert!(!h.contains_click((9, 5)));
}

/// Flinging pops queued dirt into flight until the queue runs dry, at
/// which point the kazoo starts rising.
#[test]
fn hole_flings_then_kazoo() {
    let mut h = Hole::new((10, 5));
    h.add_dirt(vec![(false, 'o', (15, 7)), (true, 'k', (18, 9))]);
    assert!(h.fling());
    assert_eq!(h.flung_dirt.len(), 1);
    assert_eq!(h.flung_dirt[0], (0, true, 'k', (18, 9)));
    assert!(h.fling());
    assert_eq!(h.flung_dirt.len(), 2);
    assert!(h.kazoo.is_none());
    assert!(!h.fling());
    assert_eq!(h.kazoo, Some((0, (24, 5))));
}

/// Dirt resting on open water sinks and splashes it; dirt on dry
/// (pinned) ground stays where it fell.
#[test]
fn hole_dunks_resting_dirt() {
    let mut h = Hole::new((0, 0));
    let mut w = Water::new(6, 6);
    // Fallen long ago, resting at (3, 4) on open water.
    h.flung_dirt.push((0, false, 'o', (3, 4)));
    h.tick(1000);
    h.maybe_dunk(&mut w);
    assert!(h.flung_dirt.is_empty(), "the dirt sank");
    assert_eq!(w.get_big(2, 3).pos, UNIT, "the splash perturbed the block");
    assert_eq!(w.get_big(0, 0).pos, NEUTRAL);

    // The same drop onto pinned ground stays.
    let mut h2 = Hole::new((0, 0));
    let mut w2 = Water::new(6, 6);
    w2.big_fix(2, 3);
    h2.flung_dirt.push((0, false, 'o', (3, 4)));
    h2.tick(1000);
    h2.maybe_dunk(&mut w2);
    assert_eq!(h2.flung_dirt.len(), 1);
}

/// The hole's rim tiles stand at its position; the kazoo blinks its
/// eleven pieces once it rises.
#[test]
fn hole_tiles_shape() {
    let mut h = Hole::new((10, 5));
    let base = h.tiles();
    assert_eq!(base.len(), 20, "five columns by four rows, nothing masked away");
    assert_eq!(base[0].1, (10, 5));
    assert!(!h.fling());
    let with_kazoo = h.tiles();
    assert_eq!(with_kazoo.len(), 20 + 11);
}
