use terrarium::brush::{Brush, BRUSH_MAX, BRUSH_MIN, BRUSH_START};
use terrarium::cell::{EMPTY, SAND, STONE, WATER};
use terrarium::painter::{clamp_pointer, Painter};
use terrarium::particle_handler::ParticleHandler;

fn covered(world: &ParticleHandler) -> Vec<(usize, usize, u8)> {
    let mut out = Vec::new();
    for i in 0..world.cells().len() {
        let cell = world.particle_at(i);
        if cell.0 != EMPTY {
            let (x, y) = world.i2c(i);
            out.push((x, y, cell.0));
        }
    }
    out
}

#[test]
fn new_brush_paints_sand_four_cells_wide() {
    let brush = Brush::new();
    assert_eq!(brush.particle(), SAND);
    assert_eq!(brush.size(), 4);
    assert_eq!(BRUSH_START, 4);
    assert_eq!((BRUSH_MIN, BRUSH_MAX), (1, 40));
}

#[test]
fn wheel_moves_the_brush_by_two_cells_a_notch() {
    let mut brush = Brush::new();
    brush.scroll(1);
    assert_eq!(brush.size(), 6);
    brush.scroll(-1);
    assert_eq!(brush.size(), 4);
    brush.scroll(3);
    assert_eq!(brush.size(), 10);
    brush.scroll(0);
    assert_eq!(brush.size(), 10);
    assert_eq!(brush.particle(), SAND);
}

#[test]
fn wheel_moves_a_brush_of_one_cell_by_one() {
    let mut brush = Brush::new();
    brush.scroll(-1);
    assert_eq!(brush.size(), 2);
    brush.scroll(-1);
    assert_eq!(brush.size(), 1);
    brush.scroll(1);
    assert_eq!(brush.size(), 2);
    brush.scroll(1);
    assert_eq!(brush.size(), 4);
    brush.scroll(-2);
    assert_eq!(brush.size(), 1);
    brush.scroll(5);
    assert_eq!(brush.size(), 6);
}

#[test]
fn brush_stays_between_one_and_forty_cells() {
    let mut brush = Brush::new();
    brush.scroll(18);
    assert_eq!(brush.size(), 40);
    brush.scroll(1);
    assert_eq!(brush.size(), 40);
    brush.scroll(i32::MAX);
    assert_eq!(brush.size(), 40);
    brush.scroll(-19);
    assert_eq!(brush.size(), 2);
    brush.scroll(-1);
    assert_eq!(brush.size(), 1);
    brush.scroll(-1);
    assert_eq!(brush.size(), 1);
    brush.scroll(i32::MIN);
    assert_eq!(brush.size(), 1);
    brush.scroll(i32::MAX);
    assert_eq!(brush.size(), 40);
    brush.scroll(i32::MIN);
    assert_eq!(brush.size(), 1);
}

#[test]
fn brush_takes_a_kind_by_its_id() {
    let mut brush = Brush::new();
    brush.set_particle(STONE);
    assert_eq!(brush.particle(), STONE);
    brush.set_particle(WATER);
    assert_eq!(brush.particle(), WATER);
    brush.set_particle(9);
    assert_eq!(brush.particle(), EMPTY);
    assert_eq!(brush.size(), 4);
}

#[test]
fn pointer_is_brought_into_the_window() {
    assert_eq!(clamp_pointer(-5, 800), 0);
    assert_eq!(clamp_pointer(i32::MIN, 800), 0);
    assert_eq!(clamp_pointer(0, 800), 0);
    assert_eq!(clamp_pointer(417, 800), 417);
    assert_eq!(clamp_pointer(799, 800), 799);
    assert_eq!(clamp_pointer(800, 800), 799);
    assert_eq!(clamp_pointer(i32::MAX, 600), 599);
    assert_eq!(clamp_pointer(3, 1), 0);
    assert_eq!(clamp_pointer(i32::MAX, u32::MAX), i32::MAX as usize);
}

#[test]
fn new_painter_starts_in_the_corner() {
    let painter = Painter::new();
    assert_eq!(painter.particle(), SAND);
    assert_eq!(painter.size(), 4);
    assert_eq!(painter.last_pos(), (0, 0));
}

#[test]
fn pointer_without_a_button_only_moves() {
    let mut world = ParticleHandler::new([10, 10], 1);
    let mut painter = Painter::new();
    world.set_freeze(true);
    painter.pointer(&mut world, 6, 3, false, false, false);
    assert_eq!(painter.last_pos(), (6, 3));
    assert_eq!(painter.particle(), SAND);
    assert!(covered(&world).is_empty());
    assert!(!world.frozen());
}

#[test]
fn first_button_paints_sand_from_the_last_pixel() {
    let mut world = ParticleHandler::new([10, 10], 1);
    let mut painter = Painter::new();
    painter.scroll(-2);
    assert_eq!(painter.size(), 1);
    painter.pointer(&mut world, 2, 5, false, false, false);
    painter.pointer(&mut world, 6, 5, true, false, false);
    // four stamps, spread evenly over the five pixels
    let expected = vec![(2, 5, SAND), (3, 5, SAND), (5, 5, SAND), (6, 5, SAND)];
    assert_eq!(covered(&world), expected);
    assert_eq!(painter.last_pos(), (6, 5));
    assert_eq!(painter.particle(), SAND);
    assert!(!world.frozen());
}

#[test]
fn second_button_paints_stone() {
    let mut world = ParticleHandler::new([10, 10], 1);
    let mut painter = Painter::new();
    painter.scroll(-2);
    painter.pointer(&mut world, 4, 4, false, false, false);
    painter.pointer(&mut world, 4, 4, false, true, false);
    assert_eq!(covered(&world), vec![(4, 4, STONE)]);
    assert_eq!(painter.particle(), STONE);
    assert!(!world.frozen());
}

#[test]
fn third_button_paints_water_and_stops_the_world() {
    let mut world = ParticleHandler::new([10, 10], 1);
    let mut painter = Painter::new();
    painter.scroll(-2);
    painter.pointer(&mut world, 4, 4, false, false, false);
    painter.pointer(&mut world, 4, 4, false, false, true);
    assert_eq!(covered(&world), vec![(4, 4, WATER)]);
    assert_eq!(painter.particle(), WATER);
    assert!(world.frozen());
    world.update();
    assert_eq!(covered(&world), vec![(4, 4, WATER)]);
    painter.pointer(&mut world, 4, 4, false, false, false);
    assert!(!world.frozen());
    world.update();
    assert_eq!(covered(&world), vec![(4, 5, WATER)]);
}

#[test]
fn first_held_button_counts() {
    let mut world = ParticleHandler::new([10, 10], 1);
    let mut painter = Painter::new();
    painter.scroll(-2);
    painter.pointer(&mut world, 1, 1, true, true, true);
    assert_eq!(painter.particle(), SAND);
    assert!(!world.frozen());
    painter.pointer(&mut world, 8, 8, false, true, true);
    assert_eq!(painter.particle(), STONE);
    assert!(!world.frozen());
    assert_eq!(world.particle_at(world.c2i(8, 8)).0, STONE);
    assert_eq!(world.particle_at(world.c2i(0, 0)).0, SAND);
}

#[test]
fn painter_wheel_changes_the_stamp() {
    let mut world = ParticleHandler::new([10, 10], 1);
    let mut painter = Painter::new();
    painter.pointer(&mut world, 5, 5, false, false, false);
    painter.pointer(&mut world, 5, 5, true, false, false);
    assert_eq!(covered(&world).len(), 16);
    painter.scroll(1);
    assert_eq!(painter.size(), 6);
    assert_eq!(painter.last_pos(), (5, 5));
    painter.pointer(&mut world, 5, 5, false, true, false);
    assert_eq!(covered(&world).len(), 36);
}

#[test]
fn indicator_is_the_brush_square_on_cell_corners() {
    let mut painter = Painter::new();
    let mut world = ParticleHandler::new([800, 600], 4);
    painter.pointer(&mut world, 103, 58, false, false, false);
    // half the brush is two cells, eight pixels
    assert_eq!(painter.indicator(4), (92, 48, 16));
    painter.scroll(3);
    assert_eq!(painter.size(), 10);
    assert_eq!(painter.indicator(4), (80, 36, 40));
    painter.scroll(-20);
    assert_eq!(painter.size(), 1);
    assert_eq!(painter.indicator(4), (100, 56, 0));
    assert_eq!(painter.indicator(1), (103, 58, 0));
}
