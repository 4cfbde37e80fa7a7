use snake_sim::food::{food_at, food_spawner, growth_event, random_position, spawn_food_at, Food};
use snake_sim::grid::{step_position, Direction, Position, Size, ARENA_HEIGHT, ARENA_WIDTH, FOOD_SIZE, HEAD_SIZE, SEGMENT_SIZE};
use snake_sim::ids::EntityIds;
use snake_sim::sim::Simulation;
use snake_sim::snake::{
    requested_direction, snake_eating, snake_growth, snake_movement, snake_movement_input,
    spawn_segment, spawn_snake, DirectionKeys, GrowthEvent, Segment, SnakeSegments,
};
use snake_sim::timer::{TickTimer, TICK_PERIOD_MICROS};

fn pos(x: i32, y: i32) -> Position {
    Position { x, y }
}

fn no_keys() -> DirectionKeys {
    DirectionKeys { left: false, down: false, up: false, right: false }
}

fn in_arena(p: Position) -> bool {
    0 <= p.x && p.x < ARENA_WIDTH && 0 <= p.y && p.y < ARENA_HEIGHT
}

/// A fresh simulation whose food lies far from the snake's path.
fn quiet_sim() -> Simulation {
    let mut sim = Simulation::new();
    sim.foods = vec![Food { id: 2, position: pos(8, 0) }];
    sim
}

fn positions(sim: &Simulation) -> Vec<Position> {
    sim.segments.0.iter().map(|s| s.position).collect()
}

#[test]
fn scenario_a_one_tick_up() {
    let mut sim = quiet_sim();
    let events = sim.update(no_keys(), TICK_PERIOD_MICROS);
    assert!(events.is_empty());
    assert_eq!(positions(&sim), vec![pos(3, 4), pos(3, 3)]);
    assert_eq!(sim.last_tail_position, Some(pos(3, 2)));
}

#[test]
fn scenario_b_wraps_left_edge() {
    let mut sim = quiet_sim();
    sim.segments.0[0].position = pos(0, 5);
    sim.segments.0[1].position = pos(1, 5);
    sim.direction = Direction::Left;
    sim.update(no_keys(), TICK_PERIOD_MICROS);
    assert_eq!(sim.segments.0[0].position, pos(ARENA_WIDTH - 1, 5));
    assert_eq!(sim.segments.0[1].position, pos(0, 5));
}

#[test]
fn scenario_c_reversal_rejected() {
    let mut sim = quiet_sim();
    let keys = DirectionKeys { left: false, down: true, up: false, right: false };
    sim.update(keys, TICK_PERIOD_MICROS);
    assert_eq!(sim.direction, Direction::Up);
    assert_eq!(sim.segments.0[0].position, pos(3, 4));
}

#[test]
fn scenario_d_single_food_eaten() {
    let mut sim = Simulation::new();
    sim.foods = vec![Food { id: 2, position: pos(3, 4) }, Food { id: 100, position: pos(7, 7) }];
    sim.ids.next = 101;
    let events = sim.update(no_keys(), TICK_PERIOD_MICROS);
    assert_eq!(events, vec![GrowthEvent { food: 2 }]);
    assert_eq!(positions(&sim), vec![pos(3, 4), pos(3, 3), pos(3, 2)]);
    assert_eq!(sim.segments.0[2].id, 101);
    assert_eq!(sim.foods.len(), 2);
    assert_eq!(sim.foods[0], Food { id: 100, position: pos(7, 7) });
    assert_eq!(sim.foods[1].id, 102);
    assert!(in_arena(sim.foods[1].position));
    assert!(sim.foods.iter().all(|f| f.id != 2));
}

#[test]
fn scenario_e_two_foods_collapse_growth() {
    let mut sim = Simulation::new();
    sim.foods = vec![Food { id: 2, position: pos(3, 4) }, Food { id: 3, position: pos(3, 4) }];
    sim.ids.next = 4;
    let before_chain = sim.segments.0.len();
    let before_food = sim.foods.len();
    let events = sim.update(no_keys(), TICK_PERIOD_MICROS);
    assert_eq!(events, vec![GrowthEvent { food: 2 }, GrowthEvent { food: 3 }]);
    assert_eq!(sim.segments.0.len(), before_chain + 1);
    assert_eq!(sim.foods.len(), before_food);
    assert_eq!(sim.foods[0].id, 5);
    assert_eq!(sim.foods[1].id, 6);
    assert_eq!(sim.ids.next, 7);
}

#[test]
fn no_movement_before_period() {
    let mut sim = quiet_sim();
    let events = sim.update(no_keys(), TICK_PERIOD_MICROS - 1);
    assert!(events.is_empty());
    assert_eq!(positions(&sim), vec![pos(3, 3), pos(3, 2)]);
    assert_eq!(sim.last_tail_position, None);
    assert_eq!(sim.timer.elapsed, TICK_PERIOD_MICROS - 1);
    sim.update(no_keys(), 1);
    assert_eq!(positions(&sim), vec![pos(3, 4), pos(3, 3)]);
    assert_eq!(sim.timer.elapsed, 0);
}

#[test]
fn slow_frame_moves_once() {
    let mut sim = quiet_sim();
    sim.update(no_keys(), 3 * TICK_PERIOD_MICROS + 7);
    assert_eq!(positions(&sim), vec![pos(3, 4), pos(3, 3)]);
    assert_eq!(sim.timer.elapsed, 7);
}

#[test]
fn new_simulation_has_one_food() {
    let sim = Simulation::new();
    assert_eq!(sim.foods.len(), 1);
    assert!(in_arena(sim.foods[0].position));
    assert_eq!(sim.foods[0].id, 2);
    assert_eq!(positions(&sim), vec![pos(3, 3), pos(3, 2)]);
    assert_eq!(sim.direction, Direction::Up);
    assert_eq!(sim.ids.next, 3);
}

#[test]
fn chain_never_shrinks_over_many_frames() {
    let mut sim = quiet_sim();
    let mut len = sim.segments.0.len();
    for frame in 0..200u64 {
        let keys = DirectionKeys { left: frame % 7 == 0, down: frame % 5 == 0, up: false, right: frame % 3 == 0 };
        assert!(sim.can_update(keys, 40_000));
        let before_dir = sim.direction;
        let events = sim.update(keys, 40_000);
        assert_ne!(sim.direction, before_dir.opposite());
        assert!(sim.segments.0.len() >= len);
        assert_eq!(sim.segments.0.len() == len + 1, !events.is_empty());
        len = sim.segments.0.len();
        assert!(sim.segments.0.iter().all(|s| in_arena(s.position)));
    }
}

#[test]
fn can_update_refuses_growth_without_tail() {
    let mut sim = Simulation::new();
    sim.foods = vec![Food { id: 2, position: pos(3, 3) }];
    assert!(!sim.can_update(no_keys(), 1));
    assert!(sim.can_update(no_keys(), TICK_PERIOD_MICROS));
    sim.foods = vec![Food { id: 2, position: pos(5, 5) }];
    assert!(sim.can_update(no_keys(), 1));
    assert!(!sim.can_update(no_keys(), u64::MAX));
    assert!(sim.ids_left());
    sim.ids.next = u64::MAX - 1;
    assert!(!sim.ids_left());
}

#[test]
fn opposite_pairs() {
    assert_eq!(Direction::Left.opposite(), Direction::Right);
    assert_eq!(Direction::Right.opposite(), Direction::Left);
    assert_eq!(Direction::Up.opposite(), Direction::Down);
    assert_eq!(Direction::Down.opposite(), Direction::Up);
}

#[test]
fn key_precedence() {
    let all = DirectionKeys { left: true, down: true, up: true, right: true };
    assert_eq!(requested_direction(all, Direction::Up), Direction::Left);
    let dur = DirectionKeys { left: false, down: true, up: true, right: true };
    assert_eq!(requested_direction(dur, Direction::Left), Direction::Down);
    let ur = DirectionKeys { left: false, down: false, up: true, right: true };
    assert_eq!(requested_direction(ur, Direction::Left), Direction::Up);
    let r = DirectionKeys { left: false, down: false, up: false, right: true };
    assert_eq!(requested_direction(r, Direction::Up), Direction::Right);
    assert_eq!(requested_direction(no_keys(), Direction::Down), Direction::Down);
}

#[test]
fn input_turns_and_refuses_reversal() {
    let mut d = Direction::Up;
    snake_movement_input(&mut d, DirectionKeys { left: true, down: false, up: false, right: false });
    assert_eq!(d, Direction::Left);
    snake_movement_input(&mut d, DirectionKeys { left: false, down: false, up: false, right: true });
    assert_eq!(d, Direction::Left);
    snake_movement_input(&mut d, no_keys());
    assert_eq!(d, Direction::Left);
    // Left wins over Down, and Left is no reversal of Left.
    snake_movement_input(&mut d, DirectionKeys { left: true, down: true, up: false, right: false });
    assert_eq!(d, Direction::Left);
}

#[test]
fn step_wraps_every_edge() {
    assert_eq!(step_position(pos(0, 4), Direction::Left), pos(9, 4));
    assert_eq!(step_position(pos(9, 4), Direction::Right), pos(0, 4));
    assert_eq!(step_position(pos(4, 9), Direction::Up), pos(4, 0));
    assert_eq!(step_position(pos(4, 0), Direction::Down), pos(4, 9));
    assert_eq!(step_position(pos(4, 4), Direction::Up), pos(4, 5));
    assert_eq!(step_position(pos(-3, 25), Direction::Right), pos(8, 5));
}

#[test]
fn movement_follows_the_leader() {
    let mut segs = SnakeSegments(vec![
        Segment { id: 0, position: pos(5, 5) },
        Segment { id: 1, position: pos(5, 4) },
        Segment { id: 2, position: pos(4, 4) },
        Segment { id: 3, position: pos(4, 3) },
    ]);
    let tail = snake_movement(&mut segs, Direction::Right);
    assert_eq!(tail, Some(pos(4, 3)));
    let got: Vec<(u64, Position)> = segs.0.iter().map(|s| (s.id, s.position)).collect();
    assert_eq!(got, vec![(0, pos(6, 5)), (1, pos(5, 5)), (2, pos(5, 4)), (3, pos(4, 4))]);
}

#[test]
fn eating_removes_only_matches() {
    let mut foods = vec![
        Food { id: 1, position: pos(2, 2) },
        Food { id: 2, position: pos(1, 1) },
        Food { id: 3, position: pos(2, 2) },
    ];
    let events = snake_eating(pos(2, 2), &mut foods);
    assert_eq!(events, vec![GrowthEvent { food: 1 }, GrowthEvent { food: 3 }]);
    assert_eq!(foods, vec![Food { id: 2, position: pos(1, 1) }]);
    let none = snake_eating(pos(0, 0), &mut foods);
    assert!(none.is_empty());
    assert_eq!(foods.len(), 1);
}

#[test]
fn growth_collapses_events() {
    let mut ids = EntityIds { next: 10 };
    let mut segs = spawn_snake(&mut EntityIds::new());
    let events = vec![GrowthEvent { food: 4 }, GrowthEvent { food: 5 }, GrowthEvent { food: 6 }];
    snake_growth(&mut segs, &mut ids, Some(pos(7, 1)), &events);
    assert_eq!(segs.0.len(), 3);
    assert_eq!(segs.0[2], Segment { id: 10, position: pos(7, 1) });
    assert_eq!(ids.next, 11);
    snake_growth(&mut segs, &mut ids, None, &Vec::new());
    assert_eq!(segs.0.len(), 3);
    assert_eq!(ids.next, 11);
}

#[test]
fn food_spawns_per_event() {
    let mut foods = vec![Food { id: 0, position: pos(1, 1) }];
    let mut ids = EntityIds { next: 5 };
    let events = vec![GrowthEvent { food: 9 }, GrowthEvent { food: 8 }];
    growth_event(&mut foods, &mut ids, &events);
    assert_eq!(foods.len(), 3);
    assert_eq!(foods[0], Food { id: 0, position: pos(1, 1) });
    assert_eq!((foods[1].id, foods[2].id), (5, 6));
    assert!(in_arena(foods[1].position) && in_arena(foods[2].position));
    assert_eq!(ids.next, 7);
}

#[test]
fn food_spawns_at_given_cells() {
    let mut foods = vec![Food { id: 0, position: pos(1, 1) }];
    let mut ids = EntityIds { next: 3 };
    spawn_food_at(&mut foods, &mut ids, &vec![pos(4, 5), pos(4, 5)]);
    assert_eq!(
        foods,
        vec![
            Food { id: 0, position: pos(1, 1) },
            Food { id: 3, position: pos(4, 5) },
            Food { id: 4, position: pos(4, 5) },
        ]
    );
    assert_eq!(ids.next, 5);
    assert!(food_at(&foods, pos(4, 5)));
    assert!(!food_at(&foods, pos(5, 4)));
}

#[test]
fn random_cells_stay_in_arena() {
    let mut seen_x = [false; 10];
    for _ in 0..2000 {
        let p = random_position();
        assert!(in_arena(p));
        seen_x[p.x as usize] = true;
    }
    assert!(seen_x.iter().filter(|s| **s).count() > 1);
    let mut ids = EntityIds { next: 42 };
    let f = food_spawner(&mut ids);
    assert_eq!(f.id, 42);
    assert!(in_arena(f.position));
    assert_eq!(ids.next, 43);
}

#[test]
fn timer_admits_once_per_period() {
    let mut t = TickTimer::new(100);
    assert!(!t.tick(60));
    assert_eq!(t.elapsed, 60);
    assert!(t.tick(40));
    assert_eq!(t.elapsed, 0);
    assert!(t.tick(250));
    assert_eq!(t.elapsed, 50);
    assert!(!t.tick(0));
    assert!(t.tick(1_000_000_007));
    assert_eq!(t.elapsed, 57);
    assert!(t.delta_fits(100 * u32::MAX as u64 + 42));
    assert!(!t.delta_fits(100 * (u32::MAX as u64 + 1)));
    assert!(!t.delta_fits(u64::MAX));
}

#[test]
fn ids_are_handed_out_in_order() {
    let mut ids = EntityIds::new();
    assert_eq!(ids.fresh(), 0);
    assert_eq!(ids.fresh(), 1);
    let s = spawn_segment(&mut ids, pos(2, 2));
    assert_eq!(s, Segment { id: 2, position: pos(2, 2) });
    assert!(ids.has_room(u64::MAX - 3));
    assert!(!ids.has_room(u64::MAX - 2));
}

#[test]
fn sizes_are_squares() {
    let s = Size::square(HEAD_SIZE);
    assert_eq!((s.width, s.height), (80, 80));
    assert_eq!(Size::square(SEGMENT_SIZE).width, 65);
    assert_eq!(Size::square(FOOD_SIZE).height, 80);
}

#[test]
fn movement_of_headless_chain_is_a_no_op() {
    let mut segs = SnakeSegments(Vec::new());
    assert_eq!(snake_movement(&mut segs, Direction::Up), None);
    assert!(segs.0.is_empty());
}
