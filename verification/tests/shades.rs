use terrarium::cell::{shade, Cell, EMPTY, SAND, STONE, WATER};
use terrarium::painter::Painter;
use terrarium::particle_handler::ParticleHandler;

const BLANK: Cell = (EMPTY, (0, 0, 0));

fn by_index(len: usize) -> Vec<usize> {
    (0..len).map(|i| i % 3).collect()
}

#[test]
fn stamp_with_given_shades_is_exact() {
    let mut world = ParticleHandler::new([6, 5], 1);
    let picks = by_index(30);
    world.spawn_particle_width_with(SAND, 2, 2, 3, &picks);
    for i in 0..30 {
        let (x, y) = world.i2c(i);
        let expected = if (1..4).contains(&x) && (1..4).contains(&y) {
            (SAND, shade(SAND, i % 3))
        } else {
            BLANK
        };
        assert_eq!(world.particle_at(i), expected);
    }
    assert_eq!(world.particle_at(world.c2i(1, 1)), (SAND, (220, 193, 136)));
    assert_eq!(world.particle_at(world.c2i(2, 1)), (SAND, (255, 230, 157)));
    assert_eq!(world.particle_at(world.c2i(3, 1)), (SAND, (182, 160, 113)));
}

#[test]
fn shade_numbers_past_the_last_give_the_last_and_missing_ones_the_first() {
    let mut world = ParticleHandler::new([4, 1], 1);
    world.spawn_particle_width_with(WATER, 0, 0, 9, &vec![7, usize::MAX]);
    assert_eq!(world.particle_at(0), (WATER, (28, 175, 255)));
    assert_eq!(world.particle_at(1), (WATER, (28, 175, 255)));
    assert_eq!(world.particle_at(2), (WATER, (28, 163, 236)));
    assert_eq!(world.particle_at(3), (WATER, (28, 163, 236)));
    let mut none = ParticleHandler::new([2, 2], 1);
    none.spawn_particle_width_with(STONE, 0, 0, 9, &Vec::new());
    assert!(none.cells().iter().all(|c| *c == (STONE, (65, 65, 65))));
}

#[test]
fn given_shades_do_not_touch_cells_of_the_same_kind() {
    let mut world = ParticleHandler::new([5, 5], 1);
    world.spawn_particle_width_with(SAND, 2, 2, 3, &vec![0; 25]);
    world.spawn_particle_width_with(SAND, 2, 2, 5, &vec![2; 25]);
    for i in 0..25 {
        let (x, y) = world.i2c(i);
        let expected = if (1..4).contains(&x) && (1..4).contains(&y) {
            (SAND, shade(SAND, 0))
        } else {
            (SAND, shade(SAND, 2))
        };
        assert_eq!(world.particle_at(i), expected);
    }
    world.spawn_particle_width_with(STONE, 0, 0, 3, &vec![1; 25]);
    assert_eq!(world.particle_at(world.c2i(0, 0)), (STONE, shade(STONE, 1)));
    assert_eq!(world.particle_at(world.c2i(1, 1)), (STONE, shade(STONE, 1)));
    assert_eq!(world.particle_at(world.c2i(2, 2)), (SAND, shade(SAND, 0)));
}

#[test]
fn single_particle_with_a_given_shade_is_exact() {
    let mut world = ParticleHandler::new([12, 8], 4);
    world.spawn_particle_with(STONE, 9, 6, 1);
    for i in 0..6 {
        let expected = if i == 5 { (STONE, (60, 60, 60)) } else { BLANK };
        assert_eq!(world.particle_at(i), expected);
    }
    world.spawn_particle_with(STONE, 9, 6, 2);
    assert_eq!(world.particle_at(5), (STONE, (75, 75, 75)));
    world.spawn_particle_with(SAND, 9, 6, 0);
    assert_eq!(world.particle_at(5), (SAND, (182, 160, 113)));
    world.spawn_particle_with(9, 9, 6, 0);
    assert_eq!(world.particle_at(5), BLANK);
    let before = world.cells().clone();
    world.spawn_particle_with(SAND, 12, 0, 0);
    world.spawn_particle_with(SAND, 0, 8, 0);
    assert_eq!(world.cells(), &before);
}

#[test]
fn line_with_given_shades_is_exact() {
    let mut world = ParticleHandler::new([10, 10], 1);
    let picks = by_index(100);
    world.spawn_line_with(0, 0, 9, 9, SAND, 1, &picks);
    for i in 0..100 {
        let (x, y) = world.i2c(i);
        let expected = if x == y { (SAND, shade(SAND, i % 3)) } else { BLANK };
        assert_eq!(world.particle_at(i), expected);
    }
}

#[test]
fn line_with_a_wide_brush_paints_each_cell_once() {
    let mut world = ParticleHandler::new([8, 3], 1);
    let picks = by_index(24);
    world.spawn_line_with(1, 1, 6, 1, WATER, 3, &picks);
    // stamps on columns 1, 2, 4, 5, 6, each three cells wide
    for i in 0..24 {
        assert_eq!(world.particle_at(i), (WATER, shade(WATER, i % 3)));
    }
    let again = world.cells().clone();
    world.spawn_line_with(1, 1, 6, 1, WATER, 3, &vec![1; 24]);
    assert_eq!(world.cells(), &again);
}

#[test]
fn pointer_with_given_shades_is_exact() {
    let mut world = ParticleHandler::new([10, 10], 1);
    let mut painter = Painter::new();
    painter.scroll(-2);
    let picks = by_index(100);
    painter.pointer_with(&mut world, 3, 3, false, false, false, &picks);
    assert!(world.cells().iter().all(|c| *c == BLANK));
    assert_eq!(painter.last_pos(), (3, 3));
    painter.pointer_with(&mut world, 3, 6, false, true, false, &picks);
    // length three: stamps on rows 3, 4.5 and 6
    for i in 0..100 {
        let (x, y) = world.i2c(i);
        let expected = if x == 3 && (y == 3 || y == 5 || y == 6) {
            (STONE, shade(STONE, i % 3))
        } else {
            BLANK
        };
        assert_eq!(world.particle_at(i), expected);
    }
    assert_eq!(painter.particle(), STONE);
    assert_eq!(painter.last_pos(), (3, 6));
    assert!(!world.frozen());
    painter.pointer_with(&mut world, 3, 6, false, false, true, &picks);
    assert_eq!(world.particle_at(world.c2i(3, 6)), (WATER, shade(WATER, 63 % 3)));
    assert!(world.frozen());
}

#[test]
fn same_coins_and_shades_give_the_same_world() {
    let picks = by_index(400);
    let flips: Vec<bool> = (0..400).map(|i| i % 5 < 2).collect();
    let mut worlds = Vec::new();
    for _ in 0..2 {
        let mut world = ParticleHandler::new([20, 20], 1);
        world.spawn_line_with(2, 2, 17, 5, SAND, 4, &picks);
        world.spawn_line_with(3, 12, 16, 12, STONE, 2, &picks);
        world.spawn_line_with(10, 0, 10, 6, WATER, 3, &picks);
        for _ in 0..30 {
            world.update_with(&flips);
        }
        worlds.push(world.cells().clone());
    }
    assert_eq!(worlds[0], worlds[1]);
    assert!(worlds[0].iter().any(|c| c.0 == SAND));
    assert!(worlds[0].iter().any(|c| c.0 == WATER));
}
