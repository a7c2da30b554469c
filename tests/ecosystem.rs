use food_chain::components::{distance, Age, Creature, Position, Satiety, Species, Stamina, HP};
use food_chain::consts::{
    DECREASE_HP_HUMAN, HEALING_HP_BEAR, HEALING_HP_FOX, HEALING_HP_WALNUT, HEALING_SATIETY_BEAR,
    HEALING_SATIETY_FOX, HEALING_SATIETY_WALNUT, HEALTHSPAN_STRONG_BEAR, INITIAL_HP_HUMAN,
    LIFESPAN_WEAK_BEAR, MAX_HP_BEAR, MAX_SATIETY_FOX, MAX_SATIETY_STRONG_BEAR, MAX_STAMINA,
    SHIP_PATH_LEN, WALNUT_THRESHOLD,
};
use food_chain::field::Field;
use food_chain::lifecycle::{
    despawn, die_of_old_age, give_birth, grow_walnuts, increase_walnut, metabolism, nearby_sites,
    reproduce, reproduce_one, reproduce_with, weaken_bear,
};
use food_chain::movement::{
    approach, get_neighbor, get_random_direction, move_fauna, move_player, step_toward, Input,
};
use food_chain::predation::{can_eat_now, eat_phase, eaten_phase, predation, snapshot};
use food_chain::ship::{ship_moving, Ship};
use food_chain::timer::GameTimer;
use food_chain::world::{StateKind, World};

fn pos(x: i32, y: i32) -> Position {
    Position { x, y }
}

fn standard_field() -> Field {
    Field::rectangle(1, 6, 16, 28)
}

fn standard_world() -> World {
    World::new(standard_field(), pos(16, 33), 100)
}

fn ready(mut c: Creature) -> Creature {
    c.stamina.val = MAX_STAMINA;
    c
}

// ---- components ----

#[test]
fn position_directions() {
    assert_eq!(Position::up(), pos(0, 1));
    assert_eq!(Position::down(), pos(0, -1));
    assert_eq!(Position::left(), pos(-1, 0));
    assert_eq!(Position::right(), pos(1, 0));
    assert_eq!(Position::stay(), pos(0, 0));
    assert_eq!(pos(3, 4).add(&Position::left()), pos(2, 4));
}

#[test]
fn manhattan_distance() {
    assert_eq!(distance(&pos(1, 1), &pos(4, -3)), 7);
    assert_eq!(distance(&pos(-2, 5), &pos(-2, 5)), 0);
}

#[test]
fn predation_graph() {
    assert!(Species::Human.eats(Species::Walnut));
    assert!(Species::Human.eats(Species::Fox));
    assert!(Species::Human.eats(Species::WeakBear));
    assert!(!Species::Human.eats(Species::StrongBear));
    assert!(Species::StrongBear.eats(Species::Human));
    assert!(Species::StrongBear.eats(Species::Fox));
    assert!(!Species::WeakBear.eats(Species::Human));
    assert!(Species::Fox.eats(Species::Walnut));
    assert!(!Species::Fox.eats(Species::Fox));
    assert!(!Species::Walnut.eats(Species::Walnut));
}

#[test]
fn hp_constructors() {
    let h = HP::human();
    assert_eq!((h.val, h.max, h.decay), (5000, 10000, 10));
    let b = HP::bear(1234);
    assert_eq!((b.val, b.max, b.decay), (1234, 3000, 3));
    let f = HP::fox();
    assert_eq!((f.val, f.max, f.decay), (500, 500, 1));
    let w = HP::walnut();
    assert_eq!((w.val, w.max, w.decay), (100, 100, 0));
}

#[test]
fn hunger_stops_at_zero() {
    let mut h = HP { val: 25, max: 100, decay: 10 };
    h.hunger();
    assert_eq!(h.val, 15);
    h.hunger();
    h.hunger();
    assert_eq!(h.val, 0);
    assert!(h.is_dead());
    let mut w = HP::walnut();
    w.hunger();
    assert_eq!(w.val, 100);
}

#[test]
fn weak_and_healthy_thresholds() {
    assert!(HP::bear(2699).is_weak());
    assert!(!HP::bear(2700).is_weak());
    assert!(!HP::bear(2700).is_healthy());
    assert!(HP::bear(2701).is_healthy());
}

#[test]
fn satiety_constructors() {
    assert_eq!(Satiety::human().max, None);
    assert_eq!(Satiety::strong_bear().max, Some(MAX_SATIETY_STRONG_BEAR));
    assert_eq!(Satiety::weak_bear().max, None);
    assert_eq!(Satiety::fox().max, Some(MAX_SATIETY_FOX));
    assert_eq!(Satiety::walnut().max, None);
    assert!(Satiety { val: 50, max: Some(50) }.is_full());
    assert!(!Satiety { val: 49, max: Some(50) }.is_full());
    assert!(!Satiety { val: 1000000, max: None }.is_full());
}

#[test]
fn stamina_cool_down_clamps() {
    let mut s = Stamina::human();
    s.cool_down();
    assert_eq!(s.val, 30);
    s.cool_down();
    s.cool_down();
    assert_eq!(s.val, 90);
    assert!(!s.can_move());
    s.cool_down();
    assert_eq!(s.val, MAX_STAMINA);
    assert!(s.can_move());
    let mut w = Stamina::walnut();
    w.cool_down();
    assert_eq!(w.val, 0);
    assert_eq!(Stamina::ship().healing_val, 4);
    assert_eq!(Stamina::fox().healing_val, 10);
}

#[test]
fn age_grows() {
    let mut a = Age { val: 7 };
    a.get_old();
    assert_eq!(a.val, 8);
    let mut m = Age { val: u32::MAX };
    m.get_old();
    assert_eq!(m.val, u32::MAX);
}

// ---- field ----

#[test]
fn rectangle_reachability() {
    let f = standard_field();
    assert_eq!(f.cells.len(), 16 * 28);
    assert!(f.reachable(1, 6));
    assert!(f.reachable(16, 33));
    assert!(!f.reachable(0, 6));
    assert!(!f.reachable(17, 6));
    assert!(!f.reachable(1, 34));
}

#[test]
fn field_rejects_far_cells() {
    assert!(Field::new(vec![pos(0, 0), pos(2000000, 0)]).is_none());
    let f = Field::new(vec![pos(0, 0), pos(5, 5)]).unwrap();
    assert!(f.reachable(5, 5));
    assert!(!f.reachable(5, 4));
}

// ---- clock ----

#[test]
fn timer_fires_once_per_period() {
    let mut t = GameTimer::new(100);
    assert!(!t.tick(40));
    assert!(!t.tick(59));
    assert!(t.tick(1));
    assert_eq!(t.elapsed_ms, 0);
    assert!(t.tick(250));
    assert_eq!(t.elapsed_ms, 50);
    assert!(!t.tick(49));
}

// ---- movement ----

#[test]
fn nearest_prey_first_of_ties() {
    let prey = vec![pos(10, 10), pos(3, 0), pos(0, 3), pos(1, 1)];
    assert_eq!(get_neighbor(&prey, &pos(0, 0)), Some(3));
    let tied = vec![pos(5, 5), pos(0, 2), pos(2, 0)];
    assert_eq!(get_neighbor(&tied, &pos(0, 0)), Some(1));
    assert_eq!(get_neighbor(&vec![], &pos(0, 0)), None);
}

#[test]
fn chase_step_picks_closest_open_neighbor() {
    let f = standard_field();
    assert_eq!(step_toward(&f, &pos(5, 10), &pos(5, 20)), pos(5, 11));
    assert_eq!(step_toward(&f, &pos(5, 10), &pos(1, 10)), pos(4, 10));
    // On the left edge, a target further left is approached vertically.
    assert_eq!(step_toward(&f, &pos(1, 10), &pos(-5, 3)), pos(1, 9));
    // Equally good steps: the first tried (right before up) wins.
    assert_eq!(step_toward(&f, &pos(5, 10), &pos(8, 13)), pos(6, 10));
    let island = Field::new(vec![pos(0, 0)]).unwrap();
    assert_eq!(step_toward(&island, &pos(0, 0), &pos(3, 3)), pos(0, 0));
}

#[test]
fn wander_directions() {
    assert_eq!(get_random_direction(0), pos(-1, 0));
    assert_eq!(get_random_direction(1), pos(1, 0));
    assert_eq!(get_random_direction(2), pos(0, -1));
    assert_eq!(get_random_direction(3), pos(0, 1));
    assert_eq!(get_random_direction(4), pos(0, 0));
}

#[test]
fn approach_chases_or_wanders() {
    let f = standard_field();
    let prey = vec![pos(8, 10)];
    assert_eq!(approach(&prey, &pos(5, 10), &f, 7, 0), pos(6, 10));
    assert_eq!(approach(&prey, &pos(5, 10), &f, 8, 0), pos(4, 10));
    assert_eq!(approach(&vec![], &pos(5, 10), &f, 1, 3), pos(5, 11));
    // A wandering step off the terrain is not taken.
    assert_eq!(approach(&vec![], &pos(1, 10), &f, 1, 0), pos(1, 10));
}

#[test]
fn player_moves_by_input_when_rested() {
    let f = standard_field();
    let up = Input { left: false, right: false, up: true, down: false };
    let mut tired = Creature::player(pos(4, 6));
    move_player(&mut tired, &f, &up);
    assert_eq!(tired.pos, pos(4, 6));
    let mut p = ready(Creature::player(pos(4, 6)));
    move_player(&mut p, &f, &up);
    assert_eq!(p.pos, pos(4, 7));
    assert_eq!(p.stamina.val, 0);
    // A blocked step keeps the player and its stamina.
    let down = Input { left: false, right: false, up: false, down: true };
    let mut q = ready(Creature::player(pos(4, 6)));
    move_player(&mut q, &f, &down);
    assert_eq!(q.pos, pos(4, 6));
    assert_eq!(q.stamina.val, MAX_STAMINA);
    let both = Input { left: true, right: true, up: false, down: false };
    assert_eq!(both.direction(), pos(0, 0));
    let diagonal = Input { left: true, right: false, up: true, down: false };
    assert_eq!(diagonal.direction(), pos(0, 0));
    let mut r = ready(Creature::player(pos(4, 6)));
    move_player(&mut r, &f, &diagonal);
    assert_eq!(r.pos, pos(4, 6));
    let three = Input { left: true, right: true, up: true, down: false };
    assert_eq!(three.direction(), pos(0, 1));
    assert_eq!(Input::none().direction(), pos(0, 0));
}

#[test]
fn fauna_spend_stamina_even_when_blocked() {
    let island = Field::new(vec![pos(0, 0)]).unwrap();
    let mut fox = ready(Creature::fox(pos(0, 0)));
    move_fauna(&mut fox, &vec![pos(3, 0)], &island, 1, 0);
    assert_eq!(fox.pos, pos(0, 0));
    assert_eq!(fox.stamina.val, 0);
    let f = standard_field();
    let mut fox2 = ready(Creature::fox(pos(5, 10)));
    move_fauna(&mut fox2, &vec![pos(5, 7)], &f, 3, 4);
    assert_eq!(fox2.pos, pos(5, 9));
    let mut tired = Creature::fox(pos(5, 10));
    move_fauna(&mut tired, &vec![pos(5, 7)], &f, 3, 4);
    assert_eq!(tired.pos, pos(5, 10));
}

#[test]
fn movement_stays_on_terrain() {
    let mut w = standard_world();
    assert!(w.spawn_fox(pos(1, 6)));
    assert!(w.spawn_strong_bear(pos(16, 6), MAX_HP_BEAR));
    assert!(w.spawn_weak_bear(pos(1, 33), 1000));
    assert!(w.spawn_player(pos(4, 6)));
    assert!(!w.spawn_walnut(pos(0, 0)));
    for _ in 0..300 {
        for c in w.creatures.iter_mut() {
            c.stamina.val = MAX_STAMINA;
        }
        w.move_creatures(&Input { left: true, right: false, up: false, down: true });
        for c in w.creatures.iter() {
            assert!(w.field.reachable(c.pos.x, c.pos.y));
        }
    }
}

// ---- ship ----

#[test]
fn ship_path_offsets() {
    assert_eq!(ship_moving(0), pos(1, 0));
    assert_eq!(ship_moving(11), pos(1, 0));
    assert_eq!(ship_moving(12), pos(0, -1));
    assert_eq!(ship_moving(44), pos(0, 1));
    assert_eq!(ship_moving(76), pos(-1, 0));
    assert_eq!(ship_moving(87), pos(-1, 0));
}

#[test]
fn ship_waits_for_stamina() {
    let mut s = Ship::new(pos(16, 33));
    s.move_ship();
    assert_eq!(s.pos, pos(16, 33));
    assert_eq!(s.index, 0);
    s.stamina.val = MAX_STAMINA;
    s.move_ship();
    assert_eq!(s.pos, pos(17, 33));
    assert_eq!(s.index, 1);
    assert_eq!(s.stamina.val, 0);
}

#[test]
fn ship_loop_returns_home() {
    let mut s = Ship::new(pos(16, 33));
    for step in 0..SHIP_PATH_LEN {
        s.stamina.val = MAX_STAMINA;
        s.move_ship();
        if step + 1 < SHIP_PATH_LEN {
            assert!(s.index == step + 1);
        }
        if step == 11 {
            assert_eq!(s.pos, pos(28, 33));
        }
        if step == 43 {
            assert_eq!(s.pos, pos(28, 1));
        }
    }
    assert_eq!(s.pos, pos(16, 33));
    assert_eq!(s.index, 0);
}

// ---- predation ----

#[test]
fn player_eats_weak_bear() {
    let mut w = standard_world();
    assert!(w.spawn_player(pos(4, 6)));
    assert!(w.spawn_weak_bear(pos(4, 6), 1000));
    let snap = snapshot(&w.creatures);
    eat_phase(&mut w.creatures, &snap);
    assert_eq!(w.creatures[0].hp.val, INITIAL_HP_HUMAN + HEALING_HP_BEAR);
    assert_eq!(w.creatures[0].satiety.val, HEALING_SATIETY_BEAR);
    assert_eq!(w.creatures[1].hp.val, 1000);
    eaten_phase(&mut w.creatures, &snap);
    assert_eq!(w.creatures[1].hp.val, 0);
    assert_eq!(w.creatures[0].hp.val, INITIAL_HP_HUMAN + HEALING_HP_BEAR);
    despawn(&mut w.creatures);
    assert_eq!(w.creatures.len(), 1);
    assert_eq!(w.creatures[0].species, Species::Human);
}

#[test]
fn healthy_weak_bear_is_not_eaten() {
    let mut cs = vec![Creature::player(pos(4, 6)), Creature::weak_bear(pos(4, 6), 2900)];
    predation(&mut cs);
    assert_eq!(cs[0].hp.val, INITIAL_HP_HUMAN);
    assert_eq!(cs[1].hp.val, 2900);
}

#[test]
fn only_healthy_strong_bear_eats_human() {
    let hungry = Creature::strong_bear(pos(2, 2), 2000);
    let healthy = Creature::strong_bear(pos(2, 2), 2800);
    let human = Creature::player(pos(2, 2));
    assert!(!can_eat_now(&hungry, &human));
    assert!(can_eat_now(&healthy, &human));
    let mut cs = vec![human, healthy];
    predation(&mut cs);
    assert_eq!(cs[0].hp.val, 0);
    assert_eq!(cs[1].hp.val, 2800 + 2000);
    assert_eq!(cs[1].satiety.val, 800);
}

#[test]
fn eater_gains_once_per_prey() {
    let mut cs = vec![
        Creature::fox(pos(3, 3)),
        Creature::walnut(pos(3, 3)),
        Creature::walnut(pos(3, 3)),
        Creature::walnut(pos(4, 3)),
    ];
    let snap = snapshot(&cs);
    eat_phase(&mut cs, &snap);
    assert_eq!(cs[0].hp.val, 500 + 2 * HEALING_HP_WALNUT);
    assert_eq!(cs[0].satiety.val, 2 * HEALING_SATIETY_WALNUT);
    // Running the eat phase again over the same snapshot adds nothing.
    eat_phase(&mut cs, &snap);
    assert_eq!(cs[0].hp.val, 500 + 2 * HEALING_HP_WALNUT);
    eaten_phase(&mut cs, &snap);
    assert_eq!(cs[1].hp.val, 0);
    assert_eq!(cs[2].hp.val, 0);
    assert_eq!(cs[3].hp.val, 100);
}

#[test]
fn eater_killed_in_same_tick_keeps_its_meal() {
    // A fox eats a walnut while a bear eats the fox on the same cell.
    let mut cs = vec![
        Creature::fox(pos(3, 3)),
        Creature::walnut(pos(3, 3)),
        Creature::strong_bear(pos(3, 3), 1000),
    ];
    predation(&mut cs);
    assert_eq!(cs[0].hp.val, 0);
    assert_eq!(cs[0].satiety.val, HEALING_SATIETY_WALNUT);
    assert_eq!(cs[2].hp.val, 1000 + HEALING_HP_FOX + HEALING_HP_WALNUT);
    assert_eq!(cs[2].satiety.val, HEALING_SATIETY_FOX + HEALING_SATIETY_WALNUT);
}

#[test]
fn healing_is_capped_at_the_largest_value() {
    let mut fox = Creature::fox(pos(0, 0));
    fox.hp.val = u64::MAX - 10;
    let mut cs = vec![fox, Creature::walnut(pos(0, 0))];
    predation(&mut cs);
    assert_eq!(cs[0].hp.val, u64::MAX);
}

// ---- metabolism and lifecycle ----

#[test]
fn metabolism_decays_rests_and_ages() {
    let mut cs = vec![Creature::player(pos(1, 6)), Creature::walnut(pos(2, 6))];
    metabolism(&mut cs);
    assert_eq!(cs[0].hp.val, INITIAL_HP_HUMAN - DECREASE_HP_HUMAN);
    assert_eq!(cs[0].stamina.val, 30);
    assert_eq!(cs[0].age.val, 1);
    assert_eq!(cs[1].hp.val, 100);
}

#[test]
fn nearby_sites_exclude_parent_and_void() {
    let f = standard_field();
    let sites = nearby_sites(&f, &pos(5, 10));
    assert_eq!(sites.len(), 15);
    assert!(!sites.contains(&pos(5, 10)));
    assert!(sites.contains(&pos(3, 8)));
    assert!(sites.contains(&pos(6, 11)));
    assert!(!sites.contains(&pos(7, 10)));
    assert_eq!(sites[0], pos(3, 8));
    assert_eq!(sites[3], pos(3, 11));
    assert_eq!(sites[4], pos(4, 8));
    assert_eq!(sites[10], pos(5, 11));
    assert_eq!(sites[14], pos(6, 11));
    let corner = nearby_sites(&f, &pos(1, 6));
    assert_eq!(corner.len(), 3);
    let island = Field::new(vec![pos(0, 0)]).unwrap();
    assert_eq!(nearby_sites(&island, &pos(0, 0)).len(), 0);
}

#[test]
fn reproduction_keeps_the_remainder() {
    let f = standard_field();
    let mut fox = Creature::fox(pos(5, 10));
    fox.satiety.val = 3 * MAX_SATIETY_FOX + 7;
    let child = reproduce_one(&mut fox, &f).unwrap();
    assert_eq!(fox.satiety.val, 2 * MAX_SATIETY_FOX + 7);
    assert_eq!(child.species, Species::Fox);
    assert_ne!(child.pos, fox.pos);
    assert!(f.reachable(child.pos.x, child.pos.y));
    assert!((child.pos.x - 5).abs() <= 2 && (child.pos.y - 10).abs() <= 2);
    assert_eq!(child.satiety.val, 0);
    let mut hungry = Creature::fox(pos(5, 10));
    hungry.satiety.val = MAX_SATIETY_FOX - 1;
    assert!(reproduce_one(&mut hungry, &f).is_none());
    assert_eq!(hungry.satiety.val, MAX_SATIETY_FOX - 1);
}

#[test]
fn reproduction_without_room_still_spends_satiety() {
    let island = Field::new(vec![pos(0, 0)]).unwrap();
    let mut bear = Creature::strong_bear(pos(0, 0), MAX_HP_BEAR);
    bear.satiety.val = MAX_SATIETY_STRONG_BEAR;
    assert!(reproduce_one(&mut bear, &island).is_none());
    assert_eq!(bear.satiety.val, 0);
}

#[test]
fn one_offspring_per_tick_despite_overshoot() {
    let f = standard_field();
    let mut fox = Creature::fox(pos(5, 10));
    fox.satiety.val = 10 * MAX_SATIETY_FOX;
    let mut cs = vec![fox, Creature::player(pos(10, 20))];
    reproduce(&mut cs, &f);
    assert_eq!(cs.len(), 3);
    assert_eq!(cs[0].satiety.val, 9 * MAX_SATIETY_FOX);
    assert_eq!(cs[2].species, Species::Fox);
}

#[test]
fn walnuts_sprout_nearby() {
    let f = standard_field();
    let mut cs = vec![Creature::walnut(pos(8, 20))];
    for _ in 0..400 {
        increase_walnut(&mut cs, &f);
    }
    assert!(cs.len() > 1);
    for (k, c) in cs.iter().enumerate() {
        assert_eq!(c.species, Species::Walnut);
        assert!(f.reachable(c.pos.x, c.pos.y));
        for d in cs.iter().take(k) {
            assert_ne!(d.pos, c.pos);
        }
    }
}

#[test]
fn strong_bear_weakens_in_place() {
    let mut old = Creature::strong_bear(pos(7, 9), 1234);
    old.age.val = HEALTHSPAN_STRONG_BEAR + 1;
    let mut young = Creature::strong_bear(pos(2, 9), 3000);
    young.age.val = HEALTHSPAN_STRONG_BEAR;
    let mut cs = vec![old, young];
    weaken_bear(&mut cs);
    assert_eq!(cs[0].species, Species::WeakBear);
    assert_eq!(cs[0].pos, pos(7, 9));
    assert_eq!(cs[0].hp.val, 1234);
    assert_eq!(cs[0].age.val, HEALTHSPAN_STRONG_BEAR);
    assert_eq!(cs[0].satiety.max, None);
    assert_eq!(cs[1], young);
}

#[test]
fn weak_bear_dies_of_old_age() {
    let mut aged = Creature::weak_bear(pos(1, 6), 2000);
    aged.age.val = LIFESPAN_WEAK_BEAR + 1;
    let mut younger = Creature::weak_bear(pos(2, 6), 2000);
    younger.age.val = LIFESPAN_WEAK_BEAR;
    let mut cs = vec![aged, Creature::fox(pos(3, 6)), younger];
    die_of_old_age(&mut cs);
    assert_eq!(cs.len(), 2);
    assert_eq!(cs[0].species, Species::Fox);
    assert_eq!(cs[1], younger);
}

#[test]
fn despawn_removes_only_the_dead() {
    let mut dead = Creature::fox(pos(1, 6));
    dead.hp.val = 0;
    let mut cs = vec![Creature::walnut(pos(2, 6)), dead, Creature::player(pos(4, 6))];
    despawn(&mut cs);
    assert_eq!(cs.len(), 2);
    assert_eq!(cs[0].species, Species::Walnut);
    assert_eq!(cs[1].species, Species::Human);
}

// ---- world ----

#[test]
fn player_reaching_ship_clears_game() {
    let mut w = standard_world();
    assert!(w.spawn_player(pos(16, 33)));
    assert!(w.spawn_walnut(pos(3, 7)));
    w.goal();
    assert_eq!(w.state, StateKind::GameClear);
    assert!(w.creatures.iter().all(|c| c.species != Species::Human));
    assert_eq!(w.creatures.len(), 1);
    w.run_tick(&Input::none());
    assert!(w.creatures.iter().all(|c| c.species != Species::Human));
    assert_eq!(w.state, StateKind::GameClear);
}

#[test]
fn player_away_from_ship_keeps_playing() {
    let mut w = standard_world();
    assert!(w.spawn_player(pos(4, 6)));
    w.goal();
    assert_eq!(w.state, StateKind::Playing);
    assert_eq!(w.creatures.len(), 1);
}

#[test]
fn finished_games_stay_finished() {
    let mut w = standard_world();
    w.game_over();
    assert_eq!(w.state, StateKind::GameOver);
    assert!(w.spawn_player(pos(16, 33)));
    w.goal();
    assert_eq!(w.state, StateKind::GameOver);
    w.game_over();
    assert_eq!(w.state, StateKind::GameOver);
}

#[test]
fn state_texts() {
    assert_eq!(StateKind::Playing.text(), "Playing!");
    assert_eq!(StateKind::GameClear.text(), "GameClear!");
    assert_eq!(StateKind::GameOver.text(), "GameOver!!!!");
}

#[test]
fn tick_waits_for_the_clock() {
    let mut w = standard_world();
    assert!(w.spawn_player(pos(4, 6)));
    assert!(!w.tick(60, &Input::none()));
    assert_eq!(w.creatures[0].hp.val, INITIAL_HP_HUMAN);
    assert!(w.tick(40, &Input::none()));
    assert_eq!(w.creatures[0].hp.val, INITIAL_HP_HUMAN - DECREASE_HP_HUMAN);
    assert_eq!(w.creatures[0].age.val, 1);
}

#[test]
fn full_tick_scenario_player_eats_weak_bear() {
    let mut w = standard_world();
    assert!(w.spawn_player(pos(4, 6)));
    assert!(w.spawn_weak_bear(pos(4, 6), 1000));
    w.run_tick(&Input::none());
    assert_eq!(w.creatures.len(), 1);
    assert_eq!(w.creatures[0].species, Species::Human);
    assert_eq!(
        w.creatures[0].hp.val,
        INITIAL_HP_HUMAN - DECREASE_HP_HUMAN + HEALING_HP_BEAR
    );
    assert_eq!(w.creatures[0].satiety.val, HEALING_SATIETY_BEAR);
}

#[test]
fn starving_creatures_are_purged_the_same_tick() {
    let mut w = standard_world();
    assert!(w.spawn_player(pos(4, 6)));
    w.creatures[0].hp.val = DECREASE_HP_HUMAN;
    w.run_tick(&Input::none());
    assert!(w.creatures.is_empty());
}

#[test]
fn long_run_keeps_invariants() {
    let mut w = standard_world();
    assert!(w.spawn_player(pos(4, 6)));
    assert!(w.spawn_strong_bear(pos(10, 20), MAX_HP_BEAR));
    for i in 0..3 {
        assert!(w.spawn_fox(pos(3 + 4 * i, 12)));
    }
    for i in 0..10 {
        assert!(w.spawn_walnut(pos(1 + i, 25)));
    }
    for _ in 0..500 {
        w.run_tick(&Input { left: false, right: true, up: true, down: false });
        for c in w.creatures.iter() {
            assert!(c.hp.val > 0);
            assert!(w.field.reachable(c.pos.x, c.pos.y));
        }
    }
}

#[test]
fn give_birth_uses_the_drawn_site() {
    let f = standard_field();
    let mut fox = Creature::fox(pos(5, 10));
    fox.satiety.val = 120;
    let child = give_birth(&mut fox, &f, 1).unwrap();
    assert_eq!(child, Creature::fox(pos(3, 9)));
    assert_eq!(fox.satiety.val, 70);
    let mut again = Creature::fox(pos(5, 10));
    again.satiety.val = 50;
    // Draws wrap round the sites available.
    assert_eq!(give_birth(&mut again, &f, 16).unwrap().pos, pos(3, 9));
    assert_eq!(again.satiety.val, 0);
}

#[test]
fn each_parent_gets_its_own_newborn_in_order() {
    let f = standard_field();
    let mut fox = Creature::fox(pos(5, 10));
    fox.satiety.val = 120;
    let mut bear = Creature::strong_bear(pos(10, 20), 2000);
    bear.satiety.val = MAX_SATIETY_STRONG_BEAR;
    let mut hungry = Creature::fox(pos(12, 12));
    hungry.satiety.val = 10;
    let mut cs = vec![fox, Creature::player(pos(4, 6)), bear, hungry];
    reproduce_with(&mut cs, &f, &vec![1, 0, 4, 0]);
    assert_eq!(cs.len(), 6);
    assert_eq!(cs[0].satiety.val, 70);
    assert_eq!(cs[2].satiety.val, 0);
    assert_eq!(cs[3].satiety.val, 10);
    assert_eq!(cs[4], Creature::fox(pos(3, 9)));
    assert_eq!(cs[5], Creature::strong_bear(pos(9, 18), MAX_HP_BEAR));
}

#[test]
fn walnut_growth_with_given_draws() {
    let f = standard_field();
    let mut cs = vec![Creature::walnut(pos(5, 10)), Creature::fox(pos(9, 9))];
    grow_walnuts(&mut cs, &f, &vec![96, 100], &vec![0, 0]);
    assert_eq!(cs.len(), 3);
    assert_eq!(cs[2], Creature::walnut(pos(3, 8)));
    let mut low = vec![Creature::walnut(pos(5, 10))];
    grow_walnuts(&mut low, &f, &vec![WALNUT_THRESHOLD], &vec![0]);
    assert_eq!(low.len(), 1);
    // The drawn cell already holds a walnut: nothing grows there.
    let mut taken = vec![Creature::walnut(pos(5, 10)), Creature::walnut(pos(3, 8))];
    grow_walnuts(&mut taken, &f, &vec![99, 1], &vec![0, 0]);
    assert_eq!(taken.len(), 2);
    // Two walnuts drawing the same cell add one walnut there.
    let mut pair = vec![Creature::walnut(pos(5, 10)), Creature::walnut(pos(5, 9))];
    grow_walnuts(&mut pair, &f, &vec![99, 99], &vec![4, 5]);
    assert_eq!(pair.len(), 3);
    assert_eq!(pair[2].pos, pos(4, 8));
}

#[test]
fn walnuts_add_at_most_one_each_per_tick() {
    let f = standard_field();
    let mut cs = vec![Creature::walnut(pos(5, 10)), Creature::walnut(pos(12, 30))];
    for _ in 0..100 {
        let before = cs.len();
        let walnuts = cs.iter().filter(|c| c.species == Species::Walnut).count();
        increase_walnut(&mut cs, &f);
        assert!(cs.len() <= before + walnuts);
    }
}
