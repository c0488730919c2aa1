use terrarium::cell::{shade, Cell, EMPTY, SAND, STONE, WATER};
use terrarium::particle::{Particle, Sand, Stone, Water};
use terrarium::particle_handler::ParticleHandler;

const BLANK: Cell = (EMPTY, (0, 0, 0));

fn seen(draw: fn() -> (u8, u8, u8), kind: u8) -> [bool; 3] {
    let mut seen = [false; 3];
    for _ in 0..3000 {
        let color = draw();
        let pick = (0..3).find(|&pick| shade(kind, pick) == color);
        assert!(pick.is_some());
        seen[pick.unwrap()] = true;
    }
    seen
}

#[test]
fn every_shade_of_each_kind_is_drawn() {
    assert_eq!(seen(Sand::var_color, SAND), [true; 3]);
    assert_eq!(seen(Stone::var_color, STONE), [true; 3]);
    assert_eq!(seen(Water::var_color, WATER), [true; 3]);
}

#[test]
fn color_of_a_kind_comes_from_its_palette() {
    for kind in [SAND, STONE, WATER] {
        let mut seen = [false; 3];
        for _ in 0..3000 {
            let color = ParticleHandler::color_by_particle(kind);
            let pick = (0..3).find(|&pick| shade(kind, pick) == color);
            assert!(pick.is_some());
            seen[pick.unwrap()] = true;
        }
        assert_eq!(seen, [true; 3]);
    }
}

#[test]
fn stamped_cells_get_shades_of_their_own() {
    let mut world = ParticleHandler::new([40, 40], 1);
    world.spawn_particle_width(WATER, 20, 20, 40);
    let mut seen = [false; 3];
    for cell in world.cells() {
        assert_eq!(cell.0, WATER);
        let pick = (0..3).find(|&pick| shade(WATER, pick) == cell.1);
        assert!(pick.is_some());
        seen[pick.unwrap()] = true;
    }
    assert_eq!(seen, [true; 3]);
}

#[test]
fn blocked_grain_goes_to_either_side() {
    let mut left = 0;
    let mut right = 0;
    for _ in 0..400 {
        let mut world = ParticleHandler::new([3, 2], 1);
        let grain = (SAND, shade(SAND, 0));
        let stone = (STONE, shade(STONE, 0));
        world.set_particle(world.c2i(1, 0), grain);
        world.set_particle(world.c2i(1, 1), stone);
        world.update();
        assert_eq!(world.particle_at(world.c2i(1, 0)), BLANK);
        assert_eq!(world.particle_at(world.c2i(1, 1)), stone);
        if world.particle_at(world.c2i(0, 1)) == grain {
            assert_eq!(world.particle_at(world.c2i(2, 1)), BLANK);
            left += 1;
        } else {
            assert_eq!(world.particle_at(world.c2i(2, 1)), grain);
            assert_eq!(world.particle_at(world.c2i(0, 1)), BLANK);
            right += 1;
        }
    }
    assert!(left > 0 && right > 0);
}

#[test]
fn rule_with_a_drawn_coin_lands_on_one_of_its_two_targets() {
    let mut world = ParticleHandler::new([3, 2], 1);
    let grain = (SAND, shade(SAND, 1));
    world.set_particle(world.c2i(1, 0), grain);
    world.set_particle(world.c2i(1, 1), (STONE, shade(STONE, 0)));
    let index = world.c2i(1, 0);
    let targets = [Sand::destination(&world, index, false), Sand::destination(&world, index, true)];
    assert_eq!(targets, [world.c2i(0, 1), world.c2i(2, 1)]);
    for _ in 0..100 {
        let mut next = vec![BLANK; 6];
        Sand::update(&world, &mut next, index);
        let written: Vec<usize> = (0..6).filter(|&i| next[i] != BLANK).collect();
        assert_eq!(written.len(), 1);
        assert!(targets.contains(&written[0]));
        assert_eq!(next[written[0]], grain);
    }
}
