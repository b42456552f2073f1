use oort_simulator::collision::{
    bullet_interaction_groups, ship_interaction_groups, wall_interaction_groups, InteractionGroups,
};
use oort_simulator::scenario::{
    add_walls, check_tutorial_victory, check_victory, finish_tick, keeps_running, list, load,
    load_safe, within_radius, Scenario, Status, MAX_TICKS, STRESS_BOUND,
};
use oort_simulator::ship::{
    asteroid, create, fighter, missile, normalize_heading, target, ShipClass, ShipData, ShipHandle,
};
use oort_simulator::simulation::{
    saturating_sub, Bullet, BulletData, Effect, Hit, Placement, Simulation, BULLET_LIFETIME,
};
use oort_simulator::units::{FULL_TURN, PHYSICS_TICK_LENGTH};
use oort_simulator::vector::{clamp_scalar, Vec2};

fn world_with(ships: Vec<ShipData>) -> (Simulation, Vec<ShipHandle>) {
    let mut sim = Simulation::new();
    let mut handles = vec![];
    for (i, d) in ships.into_iter().enumerate() {
        handles.push(create(&mut sim, 100_000 * i as i64, 0, 0, 0, 0, d));
    }
    (sim, handles)
}

fn interacts(a: InteractionGroups, b: InteractionGroups) -> bool {
    a.memberships & b.filter != 0 && b.memberships & a.filter != 0
}

#[test]
fn fighter_has_standard_loadout() {
    let d = fighter(3);
    assert_eq!(d.class, ShipClass::Fighter);
    assert_eq!(d.team, 3);
    assert_eq!(d.weapons.len(), 1);
    assert_eq!(d.weapons[0].reload_time, 12_000);
    assert_eq!(d.weapons[0].damage, 20_000);
    assert_eq!(d.missile.unwrap().reload_time, 300_000);
    assert_eq!(d.health, 100_000);
    assert_eq!(d.max_acceleration, Vec2 { x: 200_000, y: 100_000 });
    assert_eq!(d.radar.unwrap().width, 1_047);
    let d = ShipData::default();
    assert_eq!(d.health, 100_000);
    assert!(d.weapons.is_empty());
}

#[test]
fn other_classes() {
    assert_eq!(asteroid(7).class, ShipClass::Asteroid { variant: 7 });
    assert_eq!(asteroid(7).team, 9);
    assert_eq!(asteroid(7).health, 200_000);
    assert_eq!(target(2).health, 1_000);
    assert_eq!(missile(1).class, ShipClass::Missile);
    assert_eq!(missile(1).max_acceleration, Vec2 { x: 400_000, y: 100_000 });
    assert_eq!(missile(1).radar_cross_section, 4_000);
}

#[test]
fn accelerate_is_clamped_componentwise() {
    let (mut sim, hs) = world_with(vec![fighter(0)]);
    let mut ship = sim.ship_mut(hs[0]);
    ship.accelerate(Vec2 { x: 1_000_000, y: -1_000_000 });
    assert_eq!(ship.data().acceleration, Vec2 { x: 200_000, y: -100_000 });
    ship.accelerate(Vec2 { x: 5, y: -7 });
    assert_eq!(ship.data().acceleration, Vec2 { x: 5, y: -7 });
    ship.accelerate(Vec2 { x: i64::MIN, y: i64::MAX });
    assert_eq!(ship.data().acceleration, Vec2 { x: -200_000, y: 100_000 });
}

#[test]
fn torque_is_clamped() {
    let (mut sim, hs) = world_with(vec![fighter(0)]);
    let mut ship = sim.ship_mut(hs[0]);
    ship.torque(100_000);
    assert_eq!(ship.data().angular_acceleration, FULL_TURN);
    ship.torque(-100_000);
    assert_eq!(ship.data().angular_acceleration, -FULL_TURN);
    ship.torque(12);
    assert_eq!(ship.data().angular_acceleration, 12);
}

#[test]
fn clamp_scalar_values() {
    assert_eq!(clamp_scalar(10, 3), 3);
    assert_eq!(clamp_scalar(-10, 3), -3);
    assert_eq!(clamp_scalar(2, 3), 2);
    assert_eq!(clamp_scalar(i64::MIN, 0), 0);
}

#[test]
fn fire_twice_in_one_tick_fires_once() {
    let (mut sim, hs) = world_with(vec![fighter(0)]);
    {
        let mut ship = sim.ship_mut(hs[0]);
        ship.fire_weapon(0);
        ship.fire_weapon(0);
        assert_eq!(ship.data().weapons[0].reload_time_remaining, 12_000);
    }
    assert_eq!(sim.bullets.len(), 1);
    assert_eq!(sim.bullets[0].data, BulletData { damage: 20_000, team: 0 });
    assert_eq!(sim.bullets[0].ttl, BULLET_LIFETIME);
    match sim.effects.last().unwrap() {
        Effect::InsertBullet { placement: Placement::Muzzle { ship, offset, speed }, .. } => {
            assert_eq!(*ship, hs[0]);
            assert_eq!(*offset, Vec2 { x: 20_000, y: 0 });
            assert_eq!(*speed, 1_000_000);
        }
        e => panic!("unexpected effect {:?}", e),
    }
}

#[test]
fn fire_out_of_range_is_a_no_op() {
    let (mut sim, hs) = world_with(vec![fighter(0)]);
    let effects = sim.effects.len();
    {
        let mut ship = sim.ship_mut(hs[0]);
        ship.fire_weapon(1);
        ship.fire_weapon(-1);
        ship.fire_weapon(i64::MAX);
    }
    assert!(sim.bullets.is_empty());
    assert_eq!(sim.effects.len(), effects);
}

#[test]
fn weapon_reloads_after_enough_ticks() {
    let (mut sim, hs) = world_with(vec![fighter(0)]);
    sim.ship_mut(hs[0]).fire_weapon(0);
    for _ in 0..11 {
        sim.step(&vec![]);
    }
    let i = sim.find_ship(hs[0]).unwrap();
    assert_eq!(sim.ships[i].data.weapons[0].reload_time_remaining, 1_000);
    sim.step(&vec![]);
    let i = sim.find_ship(hs[0]).unwrap();
    assert_eq!(sim.ships[i].data.weapons[0].reload_time_remaining, 0);
    sim.ship_mut(hs[0]).fire_weapon(0);
    assert_eq!(sim.bullets.len(), 2);
}

#[test]
fn launch_missile_creates_missile_of_same_team() {
    let (mut sim, hs) = world_with(vec![fighter(4)]);
    sim.ship_mut(hs[0]).launch_missile();
    sim.ship_mut(hs[0]).launch_missile();
    assert_eq!(sim.ships.len(), 2);
    assert_eq!(sim.ships[1].data.class, ShipClass::Missile);
    assert_eq!(sim.ships[1].data.team, 4);
    assert_eq!(sim.ships[0].data.missile.unwrap().reload_time_remaining, 300_000);
}

#[test]
fn launch_without_launcher_is_a_no_op() {
    let (mut sim, hs) = world_with(vec![target(1)]);
    sim.ship_mut(hs[0]).launch_missile();
    assert_eq!(sim.ships.len(), 1);
}

#[test]
fn explode_twice_spawns_twenty_five_bullets() {
    let (mut sim, hs) = world_with(vec![fighter(2)]);
    sim.ship_mut(hs[0]).explode();
    sim.ship_mut(hs[0]).explode();
    assert_eq!(sim.bullets.len(), 25);
    assert!(sim.ships[0].data.destroyed);
    for b in &sim.bullets {
        assert_eq!(b.data, BulletData { damage: 20_000, team: 2 });
    }
    let mut directions = vec![];
    for e in &sim.effects {
        if let Effect::InsertBullet { placement: Placement::Burst { direction, .. }, .. } = e {
            assert!(*direction >= 0 && *direction <= FULL_TURN);
            directions.push(*direction);
        }
    }
    assert_eq!(directions.len(), 25);
    directions.dedup();
    assert!(directions.len() > 1);
}

#[test]
fn destroyed_ship_leaves_on_next_step() {
    let (mut sim, hs) = world_with(vec![fighter(0), fighter(1)]);
    sim.ship_mut(hs[1]).explode();
    sim.step(&vec![]);
    assert!(sim.find_ship(hs[1]).is_none());
    assert!(sim.find_ship(hs[0]).is_some());
    assert!(sim.effects.contains(&Effect::RemoveShip { handle: hs[1] }));
}

#[test]
fn step_hands_over_forces_and_resets() {
    let (mut sim, hs) = world_with(vec![fighter(0)]);
    {
        let mut ship = sim.ship_mut(hs[0]);
        ship.accelerate(Vec2 { x: 10, y: 20 });
        ship.torque(30);
    }
    sim.effects.clear();
    sim.step(&vec![]);
    assert_eq!(
        sim.effects,
        vec![
            Effect::ApplyForce { handle: hs[0], acceleration: Vec2 { x: 10, y: 20 } },
            Effect::ApplyTorque { handle: hs[0], angular_acceleration: 30 },
        ]
    );
    assert_eq!(sim.ships[0].data.acceleration, Vec2 { x: 0, y: 0 });
    assert_eq!(sim.ships[0].data.angular_acceleration, 0);
    assert_eq!(sim.tick, 1);
}

#[test]
fn hits_damage_and_destroy() {
    let (mut sim, hs) = world_with(vec![target(1), fighter(0)]);
    sim.ship_mut(hs[1]).fire_weapon(0);
    let b = sim.bullets[0].handle;
    sim.step(&vec![Hit { bullet: b, ship: Some(hs[0]) }]);
    assert!(sim.bullets.is_empty());
    assert_eq!(sim.ships[0].data.health, 1_000 - 20_000);
    assert!(sim.ships[0].data.destroyed);
    assert_eq!(check_victory(&sim), Status::Running);
    sim.step(&vec![Hit { bullet: b, ship: Some(hs[0]) }]);
    assert!(sim.find_ship(hs[0]).is_none());
    assert_eq!(check_victory(&sim), Status::Victory { team: 0 });
}

#[test]
fn bullet_touching_a_wall_vanishes() {
    let (mut sim, hs) = world_with(vec![fighter(0)]);
    sim.ship_mut(hs[0]).fire_weapon(0);
    let b = sim.bullets[0].handle;
    sim.step(&vec![Hit { bullet: b, ship: None }]);
    assert!(sim.bullets.is_empty());
    assert_eq!(sim.ships[0].data.health, 100_000);
}

#[test]
fn bullets_expire_after_their_lifetime() {
    let mut sim = Simulation::new();
    sim.spawn_bullet(
        Placement::World { position: Vec2 { x: 0, y: 0 }, velocity: Vec2 { x: 0, y: 0 }, heading: 0 },
        BulletData { damage: 1, team: 0 },
    );
    for _ in 0..(BULLET_LIFETIME / PHYSICS_TICK_LENGTH - 1) {
        sim.step(&vec![]);
    }
    assert_eq!(sim.bullets.len(), 1);
    assert_eq!(sim.bullets[0].ttl, PHYSICS_TICK_LENGTH);
    sim.step(&vec![]);
    assert!(sim.bullets.is_empty());
}

#[test]
fn victory_rule() {
    let (sim, _) = world_with(vec![]);
    assert_eq!(check_victory(&sim), Status::Victory { team: 0 });
    let (sim, _) = world_with(vec![fighter(3), fighter(3), missile(1)]);
    assert_eq!(check_victory(&sim), Status::Victory { team: 3 });
    let (sim, _) = world_with(vec![fighter(0), fighter(1)]);
    assert_eq!(check_victory(&sim), Status::Running);
    let (sim, _) = world_with(vec![missile(1), missile(2)]);
    assert_eq!(check_victory(&sim), Status::Victory { team: 0 });
}

#[test]
fn tutorial_victory_rule() {
    let (sim, _) = world_with(vec![fighter(1)]);
    assert_eq!(check_victory(&sim), Status::Victory { team: 1 });
    assert_eq!(check_tutorial_victory(&sim), Status::Failed);
    let (sim, _) = world_with(vec![fighter(0)]);
    assert_eq!(check_tutorial_victory(&sim), Status::Victory { team: 0 });
    let (sim, _) = world_with(vec![fighter(0), fighter(1)]);
    assert_eq!(check_tutorial_victory(&sim), Status::Running);
}

#[test]
fn registry() {
    for name in ["test", "basic", "gunnery", "asteroid-stress", "bullet-stress", "welcome", "duel"] {
        assert_eq!(load(name).name(), name);
    }
    assert!(load_safe("nonexistent").is_none());
    assert_eq!(load_safe("tutorial05").unwrap().name(), "tutorial05");
    let names = list();
    assert_eq!(names.len(), 12);
    assert_eq!(names[0], "welcome");
    assert_eq!(names[11], "duel");
    for n in &names {
        assert!(load_safe(n).is_some());
    }
    assert_eq!(load("tutorial01").next_scenario(), Some("tutorial02".to_string()));
    assert_eq!(load("tutorial09").next_scenario(), None);
}

#[test]
fn walls_surround_the_arena() {
    let mut sim = Simulation::new();
    add_walls(&mut sim);
    assert_eq!(sim.effects.len(), 4);
    match sim.effects[1] {
        Effect::InsertWall { position, angle, length, width, restitution, groups } => {
            assert_eq!(position, Vec2 { x: 0, y: -5_000_000 });
            assert_eq!(angle, 3142);
            assert_eq!(length, 10_000_000);
            assert_eq!(width, 10_000);
            assert_eq!(restitution, 1000);
            assert_eq!(groups, wall_interaction_groups());
        }
        _ => panic!("expected a wall"),
    }
}

#[test]
fn collision_groups_policy() {
    let wall = wall_interaction_groups();
    let a = ship_interaction_groups(0, ShipClass::Fighter);
    let b = ship_interaction_groups(1, ShipClass::Fighter);
    let ma = ship_interaction_groups(0, ShipClass::Missile);
    assert!(interacts(wall, a));
    assert!(interacts(wall, bullet_interaction_groups(5)));
    assert!(interacts(a, b));
    assert!(interacts(a, bullet_interaction_groups(1)));
    assert!(!interacts(a, bullet_interaction_groups(0)));
    assert!(interacts(a, a));
    assert!(!interacts(ma, a));
    assert!(interacts(ma, b));
    assert!(interacts(bullet_interaction_groups(0), bullet_interaction_groups(1)));
    assert!(!interacts(bullet_interaction_groups(2), bullet_interaction_groups(2)));
    assert_eq!(a, InteractionGroups { memberships: 1 << 1, filter: !(1u32 << 2) });
}

#[test]
fn radius_and_saturation() {
    let c = Vec2 { x: 200_000, y: 0 };
    assert!(within_radius(Vec2 { x: 230_000, y: 39_000 }, c, 50_000));
    assert!(!within_radius(Vec2 { x: 230_000, y: 40_000 }, c, 50_000));
    assert!(!within_radius(Vec2 { x: i64::MIN, y: i64::MAX }, c, 50_000));
    assert_eq!(saturating_sub(i64::MIN, 1), i64::MIN);
    assert_eq!(saturating_sub(5, 7), -2);
}

#[test]
fn basic_scenario_setup() {
    let mut sim = Simulation::new();
    let mut s = load("basic");
    s.init(&mut sim, 0);
    assert_eq!(sim.ships.len(), 2);
    assert_eq!(sim.ships[0].data.team, 0);
    assert_eq!(sim.ships[1].data.team, 1);
    assert_eq!(s.status(&sim), Status::Running);
}

#[test]
fn gunnery_targets_lie_in_their_box() {
    let mut sim = Simulation::new();
    let mut s = load("gunnery");
    s.init(&mut sim, 7);
    assert_eq!(sim.ships.len(), 5);
    for e in &sim.ships[1..] {
        assert_eq!(e.data.class, ShipClass::Target);
        assert!(e.position.x >= 1_500_000 && e.position.x < 2_500_000);
        assert!(e.position.y >= -2_500_000 && e.position.y < -1_500_000);
        assert!(e.velocity.y >= 400_000 && e.velocity.y < 1_000_000);
    }
    assert_ne!(sim.ships[1].position, sim.ships[2].position);
    assert_eq!(s.status(&sim), Status::Running);
}

#[test]
fn same_seed_same_world() {
    let run = |seed: u32| {
        let mut sim = Simulation::new();
        let mut s = load("asteroid-stress");
        s.init(&mut sim, seed);
        sim.effects.clone()
    };
    assert_eq!(run(3), run(3));
    assert_ne!(run(3), run(4));
}

#[test]
fn same_inputs_same_statuses() {
    let run = || {
        let mut sim = Simulation::new();
        let mut s = load("duel");
        s.init(&mut sim, 1);
        let shooter = sim.ships[0].handle;
        let target_ship = sim.ships[1].handle;
        let mut statuses = vec![];
        for tick in 0..60 {
            sim.ship_mut(shooter).fire_weapon(0);
            let hits: Vec<Hit> = if tick % 12 == 5 {
                sim.bullets.iter().take(1).map(|b: &Bullet| Hit { bullet: b.handle, ship: Some(target_ship) }).collect()
            } else {
                vec![]
            };
            sim.step(&hits);
            s.tick(&mut sim);
            statuses.push(s.status(&sim));
        }
        statuses
    };
    let a = run();
    assert_eq!(a, run());
    assert_eq!(*a.last().unwrap(), Status::Victory { team: 0 });
}

#[test]
fn bullet_stress_ends_in_victory() {
    let mut sim = Simulation::new();
    let mut s = load("bullet-stress");
    s.init(&mut sim, 0);
    assert_eq!(sim.bullets.len(), 1000);
    assert_eq!(s.status(&sim), Status::Running);
    for _ in 0..(BULLET_LIFETIME / PHYSICS_TICK_LENGTH) {
        sim.step(&vec![]);
    }
    assert_eq!(s.status(&sim), Status::Victory { team: 0 });
}

#[test]
fn tutorial02_goal_is_tracked() {
    let mut sim = Simulation::new();
    let mut s = load("tutorial02");
    s.init(&mut sim, 0);
    s.tick(&mut sim);
    assert_eq!(s.status(&sim), Status::Running);
    let h = sim.ships[0].handle;
    sim.observe(h, Vec2 { x: 180_000, y: 10_000 }, Vec2 { x: 0, y: 0 }, 0, 0);
    s.tick(&mut sim);
    assert_eq!(s.status(&sim), Status::Victory { team: 0 });
    assert_eq!(s.target_marker(), Some((Vec2 { x: 200_000, y: 0 }, 50_000, true)));
}

#[test]
fn tutorial03_target_is_drawn_in_range() {
    let mut sim = Simulation::new();
    let mut s = load("tutorial03");
    s.init(&mut sim, 11);
    let (centre, _, reached) = s.target_marker().unwrap();
    assert!(!reached);
    assert!(centre.x >= -500_000 && centre.x < 500_000);
    assert!(centre.y >= -500_000 && centre.y < 500_000);
}

#[test]
fn tutorial_scenarios_upload_enemy_code() {
    let mut sim = Simulation::new();
    let mut s = load("tutorial07");
    s.init(&mut sim, 2);
    assert_eq!(sim.ships.len(), 20);
    assert!(sim.has_code(1));
    assert!(!sim.has_code(0));
    let created = sim.effects.iter().filter(|e| matches!(e, Effect::CreateController { .. })).count();
    assert_eq!(created, 10);
    assert_eq!(check_tutorial_victory(&sim), Status::Running);
}

#[test]
fn tutorial09_player_is_unarmed() {
    let mut sim = Simulation::new();
    let mut s = load("tutorial09");
    s.init(&mut sim, 0);
    assert_eq!(sim.ships.len(), 4);
    assert!(sim.ships[0].data.weapons.is_empty());
    assert_eq!(sim.ships[1].data.team, 1);
}

#[test]
fn welcome_keeps_twenty_asteroids_around() {
    let mut sim = Simulation::new();
    let mut s = load("welcome");
    s.init(&mut sim, 5);
    assert_eq!(sim.ships.len(), 1);
    s.tick(&mut sim);
    assert_eq!(sim.ships.len(), 20);
    for e in &sim.ships[1..] {
        match e.data.class {
            ShipClass::Asteroid { variant } => assert!([1, 6, 14].contains(&variant)),
            c => panic!("unexpected class {:?}", c),
        }
    }
    assert_eq!(s.status(&sim), Status::Running);
}

#[test]
fn controller_failure_is_recorded() {
    let mut sim = Simulation::new();
    sim.upload_code(0, "broken".to_string());
    let h = create(&mut sim, 0, 0, 0, 0, 0, fighter(0));
    assert!(sim.ships[0].controlled);
    assert!(sim.effects.contains(&Effect::CreateController { handle: h, team: 0 }));
    sim.controller_failed(h, "incompatible agent".to_string());
    assert!(!sim.ships[0].controlled);
    assert_eq!(sim.errors, vec!["incompatible agent".to_string()]);
    sim.write_target(h, Vec2 { x: 1, y: 1 });
    assert!(!sim.effects.iter().any(|e| matches!(e, Effect::WriteTarget { .. })));
}


#[test]
fn headings_are_brought_into_one_turn() {
    assert_eq!(normalize_heading(0), 0);
    assert_eq!(normalize_heading(FULL_TURN), FULL_TURN);
    assert_eq!(normalize_heading(-1), FULL_TURN - 1);
    assert_eq!(normalize_heading(-FULL_TURN), 0);
    assert_eq!(normalize_heading(FULL_TURN + 5), 5);
    assert_eq!(normalize_heading(2 * FULL_TURN), FULL_TURN);
    assert_eq!(normalize_heading(i64::MIN), 3835);
    assert_eq!(normalize_heading(i64::MAX), (i64::MAX % FULL_TURN));
}

#[test]
fn accessor_reports_observed_motion() {
    let (mut sim, hs) = world_with(vec![fighter(0)]);
    sim.observe(hs[0], Vec2 { x: 1, y: 2 }, Vec2 { x: 3, y: 4 }, -1000, 250);
    let ship = sim.ship(hs[0]);
    assert_eq!(ship.position(), Vec2 { x: 1, y: 2 });
    assert_eq!(ship.velocity(), Vec2 { x: 3, y: 4 });
    assert_eq!(ship.heading(), FULL_TURN - 1000);
    assert_eq!(ship.angular_velocity(), 250);
    assert_eq!(ship.data().team, 0);
    sim.observe(ShipHandle(999), Vec2 { x: 9, y: 9 }, Vec2 { x: 9, y: 9 }, 0, 0);
    assert_eq!(sim.ships[0].position, Vec2 { x: 1, y: 2 });
}

#[test]
fn tutorial08_fleets_are_placed_on_their_rings() {
    let mut sim = Simulation::new();
    let mut s = load("tutorial08");
    s.init(&mut sim, 9);
    assert_eq!(sim.ships.len(), 6);
    for (k, e) in sim.ships.iter().enumerate() {
        match e.spawn {
            Placement::Polar { radius, angle, velocity, speed, course, heading } => {
                if k < 3 {
                    assert!((100_000..500_000).contains(&radius));
                    assert_eq!(e.data.team, 0);
                } else {
                    assert!((3_500_000..4_500_000).contains(&radius));
                    assert_eq!(e.data.team, 1);
                }
                assert!((0..FULL_TURN).contains(&angle) && (0..FULL_TURN).contains(&heading));
                assert_eq!((velocity, speed, course), (Vec2 { x: 0, y: 0 }, 0, 0));
            }
            p => panic!("unexpected placement {:?}", p),
        }
        assert!(sim.effects.iter().any(|x| matches!(x, Effect::InsertShip { handle, placement, .. } if *handle == e.handle && *placement == e.spawn)));
    }
}

#[test]
fn bullet_stress_field_is_placed_in_its_square() {
    let mut sim = Simulation::new();
    let mut s = load("bullet-stress");
    s.init(&mut sim, 4);
    assert_eq!(sim.ships[0].spawn, Placement::World { position: Vec2 { x: 0, y: 0 }, velocity: Vec2 { x: 0, y: 0 }, heading: 0 });
    let mut n = 0;
    for e in &sim.effects {
        if let Effect::InsertBullet { placement: Placement::World { position, velocity, .. }, .. } = e {
            assert!((-STRESS_BOUND..STRESS_BOUND).contains(&position.x));
            assert!((-STRESS_BOUND..STRESS_BOUND).contains(&position.y));
            assert!((-1_000_000..1_000_000).contains(&velocity.x));
            assert!((-1_000_000..1_000_000).contains(&velocity.y));
            n += 1;
        }
    }
    assert_eq!(n, 1000);
}

#[test]
fn tutorial05_enemy_draws_heading_and_velocity() {
    let mut sim = Simulation::new();
    let mut s = load("tutorial05");
    s.init(&mut sim, 6);
    match sim.ships[1].spawn {
        Placement::World { position, velocity, heading } => {
            assert!((-500_000..500_000).contains(&position.x));
            assert!((0..FULL_TURN).contains(&heading));
            assert!((-400_000..400_000).contains(&velocity.x));
            assert!((-400_000..400_000).contains(&velocity.y));
        }
        p => panic!("unexpected placement {:?}", p),
    }
}

#[test]
fn end_of_tick_order_and_stop_rule() {
    let mut sim = Simulation::new();
    let mut s = load("tutorial02");
    s.init(&mut sim, 0);
    let h = sim.ships[0].handle;
    sim.observe(h, Vec2 { x: 200_000, y: 0 }, Vec2 { x: 0, y: 0 }, 0, 0);
    let status = finish_tick(&mut s, &mut sim);
    assert_eq!(status, Status::Victory { team: 0 });
    assert!(!keeps_running(status, &sim));
    assert!(keeps_running(Status::Running, &sim));
    sim.tick = MAX_TICKS;
    assert!(!keeps_running(Status::Running, &sim));
}
