//! Ship data, ship classes, and the per-ship commands a controller may issue.

use vstd::prelude::*;

use crate::collision::bullet_groups_spec;
use crate::rng::{gen_range, new_rng};
use crate::simulation::{
    lemma_with_ship_data_wf, Bullet, BulletData, BulletHandle, Effect, Placement, ShipEntryModel,
    SimModel, Simulation, BULLET_LIFETIME,
};
use crate::units::{FULL_TURN, PHYSICS_TICK_LENGTH};
use crate::vector::{clamp_scalar, clamp_spec, Vec2};

verus! {

/// Identity of a ship. Handles are handed out in increasing order and never reused.
#[derive(PartialEq, Eq, Structural, Clone, Copy, Debug, Hash)]
pub struct ShipHandle(pub u64);

impl ShipHandle {
    pub fn index(self) -> (r: u64)
        ensures
            r == self.0,
    {
        self.0
    }
}

#[derive(PartialEq, Eq, Structural, Clone, Copy, Debug, Hash)]
pub enum ShipClass {
    Fighter,
    Asteroid { variant: i32 },
    Target,
    Missile,
}

/// A gun or a missile launcher. Times are in time units (see `units`), damage in
/// thousandths of a hit point.
#[derive(PartialEq, Eq, Structural, Clone, Copy, Debug)]
pub struct Weapon {
    pub reload_time: u64,
    pub reload_time_remaining: u64,
    pub damage: i64,
}

impl Weapon {
    /// The reload countdown never exceeds the reload time.
    pub open spec fn wf(self) -> bool {
        self.reload_time_remaining <= self.reload_time
    }
}

/// Sensor settings of a ship; angles in thousandths of a radian, the other
/// quantities in thousandths of their unit.
#[derive(PartialEq, Eq, Structural, Clone, Copy, Debug)]
pub struct Radar {
    pub heading: i64,
    pub width: i64,
    pub power: i64,
    pub rx_cross_section: i64,
    pub min_rssi: i64,
    pub scanned: bool,
}

pub struct ShipData {
    pub class: ShipClass,
    pub weapons: Vec<Weapon>,
    pub missile: Option<Weapon>,
    pub health: i64,
    pub team: i32,
    pub acceleration: Vec2,
    pub angular_acceleration: i64,
    pub max_acceleration: Vec2,
    pub max_angular_acceleration: i64,
    pub destroyed: bool,
    pub radar: Option<Radar>,
    pub radar_cross_section: i64,
}

/// Whether an optional weapon slot is empty or holds a well-formed weapon.
pub open spec fn slot_wf(w: Option<Weapon>) -> bool {
    match w {
        Some(w) => w.wf(),
        None => true,
    }
}

/// What a `ShipData` holds, with the weapon list as a sequence.
pub struct ShipModel {
    pub class: ShipClass,
    pub weapons: Seq<Weapon>,
    pub missile: Option<Weapon>,
    pub health: i64,
    pub team: i32,
    pub acceleration: Vec2,
    pub angular_acceleration: i64,
    pub max_acceleration: Vec2,
    pub max_angular_acceleration: i64,
    pub destroyed: bool,
    pub radar: Option<Radar>,
    pub radar_cross_section: i64,
}

impl ShipModel {
    /// Reload countdowns within their reload times, limits non-negative, and the
    /// pending accelerations within those limits.
    pub open spec fn wf(self) -> bool {
        &&& forall|i: int| 0 <= i < self.weapons.len() ==> (#[trigger] self.weapons[i]).wf()
        &&& slot_wf(self.missile)
        &&& self.max_acceleration.x >= 0
        &&& self.max_acceleration.y >= 0
        &&& self.max_angular_acceleration >= 0
        &&& self.acceleration.within(self.max_acceleration)
        &&& -self.max_angular_acceleration <= self.angular_acceleration
            <= self.max_angular_acceleration
    }
}

impl View for ShipData {
    type V = ShipModel;

    open spec fn view(&self) -> ShipModel {
        ShipModel {
            class: self.class,
            weapons: self.weapons@,
            missile: self.missile,
            health: self.health,
            team: self.team,
            acceleration: self.acceleration,
            angular_acceleration: self.angular_acceleration,
            max_acceleration: self.max_acceleration,
            max_angular_acceleration: self.max_angular_acceleration,
            destroyed: self.destroyed,
            radar: self.radar,
            radar_cross_section: self.radar_cross_section,
        }
    }
}

impl ShipData {
    pub open spec fn wf(&self) -> bool {
        self@.wf()
    }
}

/// A ship with no weapons, radar or thrust: full health, team 0.
pub open spec fn default_model() -> ShipModel {
    ShipModel {
        class: ShipClass::Fighter,
        weapons: Seq::empty(),
        missile: None,
        health: 100_000,
        team: 0,
        acceleration: Vec2 { x: 0, y: 0 },
        angular_acceleration: 0,
        max_acceleration: Vec2 { x: 0, y: 0 },
        max_angular_acceleration: 0,
        destroyed: false,
        radar: None,
        radar_cross_section: 10_000,
    }
}

/// A fighter: one gun, one missile launcher, a radar, thrust of 200 forward and 100
/// sideways, a turn per second squared.
pub open spec fn fighter_model(team: i32) -> ShipModel {
    ShipModel {
        weapons: seq![fighter_gun()],
        missile: Some(fighter_launcher()),
        team,
        max_acceleration: Vec2 { x: 200_000, y: 100_000 },
        max_angular_acceleration: FULL_TURN,
        radar: Some(radar_spec(20_000_000, 5_000)),
        ..default_model()
    }
}

/// An inert rock of team 9 with 200 hit points.
pub open spec fn asteroid_model(variant: i32) -> ShipModel {
    ShipModel {
        class: ShipClass::Asteroid { variant },
        health: 200_000,
        team: 9,
        ..default_model()
    }
}

/// A practice target with one hit point.
pub open spec fn target_model(team: i32) -> ShipModel {
    ShipModel { class: ShipClass::Target, health: 1_000, team, ..default_model() }
}

/// A missile: one hit point, strong thrust, its own radar.
pub open spec fn missile_model(team: i32) -> ShipModel {
    ShipModel {
        class: ShipClass::Missile,
        health: 1_000,
        team,
        max_acceleration: Vec2 { x: 400_000, y: 100_000 },
        max_angular_acceleration: 12_566,
        radar: Some(radar_spec(10_000_000, 3_000)),
        radar_cross_section: 4_000,
        ..default_model()
    }
}

impl Default for ShipData {
    fn default() -> (r: ShipData)
        ensures
            r@ == default_model(),
            r.wf(),
    {
        ShipData {
            class: ShipClass::Fighter,
            weapons: Vec::new(),
            missile: None,
            health: 100_000,
            team: 0,
            acceleration: Vec2 { x: 0, y: 0 },
            angular_acceleration: 0,
            max_acceleration: Vec2 { x: 0, y: 0 },
            max_angular_acceleration: 0,
            destroyed: false,
            radar: None,
            radar_cross_section: 10_000,
        }
    }
}

/// The gun of a fighter: reloads in 0.2 s, deals 20 hit points.
pub open spec fn fighter_gun() -> Weapon {
    Weapon { reload_time: 12_000, reload_time_remaining: 0, damage: 20_000 }
}

/// The missile launcher of a fighter: reloads in 5 s.
pub open spec fn fighter_launcher() -> Weapon {
    Weapon { reload_time: 300_000, reload_time_remaining: 0, damage: 0 }
}

/// A radar at rest with the given power and receive cross-section; its beam is a
/// sixth of a turn wide.
pub open spec fn radar_spec(power: i64, rx_cross_section: i64) -> Radar {
    Radar {
        heading: 0,
        width: 1_047,
        power,
        rx_cross_section,
        min_rssi: 10,
        scanned: false,
    }
}

pub fn fighter(team: i32) -> (r: ShipData)
    ensures
        r@ == fighter_model(team),
        r.wf(),
{
    let mut weapons: Vec<Weapon> = Vec::new();
    weapons.push(Weapon { reload_time: 12_000, reload_time_remaining: 0, damage: 20_000 });
    assert(weapons@ =~= seq![fighter_gun()]);
    ShipData {
        class: ShipClass::Fighter,
        weapons,
        missile: Some(Weapon { reload_time: 300_000, reload_time_remaining: 0, damage: 0 }),
        health: 100_000,
        team,
        acceleration: Vec2 { x: 0, y: 0 },
        angular_acceleration: 0,
        max_acceleration: Vec2 { x: 200_000, y: 100_000 },
        max_angular_acceleration: FULL_TURN,
        destroyed: false,
        radar: Some(
            Radar {
                heading: 0,
                width: 1_047,
                power: 20_000_000,
                rx_cross_section: 5_000,
                min_rssi: 10,
                scanned: false,
            },
        ),
        radar_cross_section: 10_000,
    }
}

/// Asteroids are inert and belong to team 9.
pub fn asteroid(variant: i32) -> (r: ShipData)
    ensures
        r@ == asteroid_model(variant),
        r.wf(),
{
    let mut d = ShipData::default();
    d.class = ShipClass::Asteroid { variant };
    d.health = 200_000;
    d.team = 9;
    d
}

pub fn target(team: i32) -> (r: ShipData)
    ensures
        r@ == target_model(team),
        r.wf(),
{
    let mut d = ShipData::default();
    d.class = ShipClass::Target;
    d.health = 1_000;
    d.team = team;
    d
}

pub fn missile(team: i32) -> (r: ShipData)
    ensures
        r@ == missile_model(team),
        r.wf(),
{
    let mut d = ShipData::default();
    d.class = ShipClass::Missile;
    d.health = 1_000;
    d.max_acceleration = Vec2 { x: 400_000, y: 100_000 };
    d.max_angular_acceleration = 12_566;
    d.team = team;
    d.radar = Some(
        Radar {
            heading: 0,
            width: 1_047,
            power: 10_000_000,
            rx_cross_section: 3_000,
            min_rssi: 10,
            scanned: false,
        },
    );
    d.radar_cross_section = 4_000;
    d
}

} // verus!

verus! {

/// Distance of the muzzle ahead of the ship's centre: 20 m.
pub const MUZZLE_OFFSET: i64 = 20_000;

/// Speed of a bullet relative to the firing ship: 1000 m/s.
pub const BULLET_SPEED: i64 = 1_000_000;

/// Speed of a missile relative to the launching ship: 100 m/s.
pub const MISSILE_SPEED: i64 = 100_000;

/// Number of bullets an exploding ship scatters.
pub const EXPLOSION_BULLETS: u64 = 25;

/// Damage of each bullet of an explosion: 20 hit points.
pub const EXPLOSION_DAMAGE: i64 = 20_000;

/// The world after ship `h` asks to accelerate by `a`: the request, limited to the
/// ship's box of accelerations, replaces any earlier one.
pub open spec fn accelerate_spec(m: SimModel, h: ShipHandle, a: Vec2) -> SimModel {
    let d = m.ship(h).data;
    m.with_ship_data(h, ShipModel { acceleration: a.clamped_spec(d.max_acceleration), ..d })
}

/// The world after ship `h` asks for angular acceleration `a`, limited likewise.
pub open spec fn torque_spec(m: SimModel, h: ShipHandle, a: i64) -> SimModel {
    let d = m.ship(h).data;
    m.with_ship_data(
        h,
        ShipModel {
            angular_acceleration: clamp_spec(a as int, d.max_angular_acceleration as int) as i64,
            ..d
        },
    )
}

/// Whether weapon `index` of ship `h` fires: it exists, it has reloaded, and a
/// bullet handle is left.
pub open spec fn can_fire(m: SimModel, h: ShipHandle, index: i64) -> bool {
    let d = m.ship(h).data;
    &&& 0 <= index < d.weapons.len()
    &&& d.weapons[index as int].reload_time_remaining == 0
    &&& m.next_bullet < u64::MAX
}

/// The world after ship `h` pulls the trigger of weapon `index`: when it fires, the
/// weapon starts reloading and a bullet leaves the muzzle.
pub open spec fn fire_spec(m: SimModel, h: ShipHandle, index: i64) -> SimModel {
    let d = m.ship(h).data;
    let w = d.weapons[index as int];
    if can_fire(m, h, index) {
        m.with_ship_data(
            h,
            ShipModel {
                weapons: d.weapons.update(
                    index as int,
                    Weapon { reload_time_remaining: w.reload_time, ..w },
                ),
                ..d
            },
        ).with_bullet(
            Placement::Muzzle {
                ship: h,
                offset: Vec2 { x: MUZZLE_OFFSET, y: 0 },
                speed: BULLET_SPEED,
            },
            BulletData { damage: w.damage, team: d.team },
        )
    } else {
        m
    }
}

/// Whether ship `h` launches a missile: it has a launcher that has reloaded, and a
/// ship handle is left.
pub open spec fn can_launch(m: SimModel, h: ShipHandle) -> bool {
    let d = m.ship(h).data;
    &&& d.missile.is_some()
    &&& d.missile.unwrap().reload_time_remaining == 0
    &&& m.next_ship < u64::MAX
}

/// The world after ship `h` asks to launch a missile: when it does, the launcher
/// starts reloading and a missile of its team leaves the muzzle.
pub open spec fn launch_spec(m: SimModel, h: ShipHandle) -> SimModel {
    let d = m.ship(h).data;
    let w = d.missile.unwrap();
    if can_launch(m, h) {
        m.with_ship_data(
            h,
            ShipModel { missile: Some(Weapon { reload_time_remaining: w.reload_time, ..w }), ..d },
        ).with_ship(
            Placement::Muzzle {
                ship: h,
                offset: Vec2 { x: MUZZLE_OFFSET, y: 0 },
                speed: MISSILE_SPEED,
            },
            missile_model(d.team),
        )
    } else {
        m
    }
}

/// Whether `e` queues bullet `b` flying out of ship `h` in some direction of the
/// full turn, with the groups of `team`.
pub open spec fn is_burst_insert(e: Effect, b: BulletHandle, h: ShipHandle, team: i32) -> bool {
    match e {
        Effect::InsertBullet { bullet, placement, groups } => {
            &&& bullet == b
            &&& groups == bullet_groups_spec(team)
            &&& match placement {
                Placement::Burst { ship, direction, speed } => {
                    &&& ship == h
                    &&& 0 <= direction <= FULL_TURN
                    &&& speed == BULLET_SPEED
                }
                _ => false,
            }
        }
        _ => false,
    }
}

/// The bullets an explosion of a ship of `team` adds when the next handle is
/// `first`.
pub open spec fn shrapnel(first: u64, n: nat, team: i32) -> Seq<Bullet> {
    Seq::new(
        n,
        |k: int|
            Bullet {
                handle: BulletHandle((first + k) as u64),
                data: BulletData { damage: EXPLOSION_DAMAGE, team },
                ttl: BULLET_LIFETIME,
            },
    )
}

/// How `m1` follows from `m0` when ship `h` explodes. A ship already destroyed
/// changes nothing. Otherwise it is marked destroyed and, when the bullet handles
/// allow, scatters `EXPLOSION_BULLETS` bullets from its position.
pub open spec fn exploded(m0: SimModel, m1: SimModel, h: ShipHandle) -> bool {
    let d = m0.ship(h).data;
    let m = m0.with_ship_data(h, ShipModel { destroyed: true, ..d });
    let n: nat = if m0.next_bullet <= u64::MAX - EXPLOSION_BULLETS {
        EXPLOSION_BULLETS as nat
    } else {
        0
    };
    if d.destroyed {
        m1 == m0
    } else {
        &&& m1.ships == m.ships
        &&& m1.errors == m0.errors
        &&& m1.codes == m0.codes
        &&& m1.next_ship == m0.next_ship
        &&& m1.tick == m0.tick
        &&& m1.next_bullet == m0.next_bullet + n
        &&& m1.bullets == m0.bullets + shrapnel(m0.next_bullet, n, d.team)
        &&& m1.effects.len() == m0.effects.len() + n
        &&& m1.effects.subrange(0, m0.effects.len() as int) == m0.effects
        &&& forall|k: int|
            0 <= k < n ==> is_burst_insert(
                #[trigger] m1.effects[m0.effects.len() + k],
                BulletHandle((m0.next_bullet + k) as u64),
                h,
                d.team,
            )
    }
}

/// A weapon after one physics tick of reloading.
pub open spec fn reloaded(w: Weapon) -> Weapon {
    Weapon {
        reload_time_remaining: if w.reload_time_remaining > PHYSICS_TICK_LENGTH {
            (w.reload_time_remaining - PHYSICS_TICK_LENGTH) as u64
        } else {
            0
        },
        ..w
    }
}

pub open spec fn reloaded_slot(w: Option<Weapon>) -> Option<Weapon> {
    match w {
        Some(w) => Some(reloaded(w)),
        None => None,
    }
}

pub open spec fn cleared_radar(r: Option<Radar>) -> Option<Radar> {
    match r {
        Some(r) => Some(Radar { scanned: false, ..r }),
        None => None,
    }
}

/// A ship's data after its tick: weapons reloaded by one tick, radar cleared, the
/// queued accelerations handed over and reset.
pub open spec fn ticked(d: ShipModel) -> ShipModel {
    ShipModel {
        weapons: d.weapons.map_values(|w: Weapon| reloaded(w)),
        missile: reloaded_slot(d.missile),
        radar: cleared_radar(d.radar),
        acceleration: Vec2 { x: 0, y: 0 },
        angular_acceleration: 0,
        ..d
    }
}

/// What a ship's tick queues: its force, its torque, and its removal when destroyed.
pub open spec fn tick_effects(e: ShipEntryModel) -> Seq<Effect> {
    let push = seq![
        Effect::ApplyForce { handle: e.handle, acceleration: e.data.acceleration },
        Effect::ApplyTorque {
            handle: e.handle,
            angular_acceleration: e.data.angular_acceleration,
        },
    ];
    if e.data.destroyed {
        push.push(Effect::RemoveShip { handle: e.handle })
    } else {
        push
    }
}

/// The world after the tick of ship `h`: a destroyed ship leaves the store, any
/// other has its data ticked.
pub open spec fn tick_spec(m: SimModel, h: ShipHandle) -> SimModel {
    let i = m.ship_index(h);
    let e = m.ships[i];
    SimModel {
        ships: if e.data.destroyed {
            m.ships.remove(i)
        } else {
            m.ships.update(i, ShipEntryModel { data: ticked(e.data), ..e })
        },
        effects: m.effects + tick_effects(e),
        ..m
    }
}

} // verus!

verus! {

/// Advances every reload countdown of `ws` by one physics tick.
pub(crate) fn reload_all(ws: &mut Vec<Weapon>)
    requires
        forall|i: int| 0 <= i < old(ws)@.len() ==> (#[trigger] old(ws)@[i]).wf(),
    ensures
        final(ws)@ == old(ws)@.map_values(|w: Weapon| reloaded(w)),
        forall|i: int| 0 <= i < final(ws)@.len() ==> (#[trigger] final(ws)@[i]).wf(),
{
    let ghost w0 = ws@;
    let mut k: usize = 0;
    while k < ws.len()
        invariant
            w0 == old(ws)@,
            ws@.len() == w0.len(),
            k <= ws@.len(),
            forall|j: int| 0 <= j < k ==> ws@[j] == reloaded(w0[j]),
            forall|j: int| k <= j < ws@.len() ==> ws@[j] == w0[j],
            forall|i: int| 0 <= i < w0.len() ==> (#[trigger] w0[i]).wf(),
        decreases ws@.len() - k,
    {
        let r = ws[k].reload_time_remaining;
        ws[k].reload_time_remaining = if r > PHYSICS_TICK_LENGTH {
            r - PHYSICS_TICK_LENGTH
        } else {
            0
        };
        k = k + 1;
    }
    assert(ws@ =~= w0.map_values(|w: Weapon| reloaded(w)));
}

/// Ticks a ship's own state (see `ticked`).
pub(crate) fn tick_data(d: &mut ShipData)
    requires
        old(d).wf(),
    ensures
        final(d)@ == ticked(old(d)@),
        final(d).wf(),
{
    reload_all(&mut d.weapons);
    if let Some(w) = d.missile {
        let r = w.reload_time_remaining;
        let left = if r > PHYSICS_TICK_LENGTH {
            r - PHYSICS_TICK_LENGTH
        } else {
            0
        };
        d.missile = Some(Weapon { reload_time_remaining: left, ..w });
    }
    if let Some(r) = d.radar {
        d.radar = Some(Radar { scanned: false, ..r });
    }
    d.acceleration = Vec2 { x: 0, y: 0 };
    d.angular_acceleration = 0;
}

impl Simulation {
    pub(crate) fn accelerate_ship(&mut self, h: ShipHandle, a: Vec2)
        requires
            old(self)@.wf(),
            old(self)@.has_ship(h),
        ensures
            final(self)@ == accelerate_spec(old(self)@, h, a),
            final(self)@.wf(),
    {
        let i = self.find_ship(h).unwrap();
        let ghost m0 = self@;
        assert(m0.ships[i as int].data.wf());
        let c = a.clamped(self.ships[i].data.max_acceleration);
        self.ships[i].data.acceleration = c;
        proof {
            let nd = ShipModel { acceleration: c, ..m0.ship(h).data };
            assert(self@.ships =~= m0.with_ship_data(h, nd).ships);
            lemma_with_ship_data_wf(m0, h, nd);
        }
    }

    pub(crate) fn torque_ship(&mut self, h: ShipHandle, a: i64)
        requires
            old(self)@.wf(),
            old(self)@.has_ship(h),
        ensures
            final(self)@ == torque_spec(old(self)@, h, a),
            final(self)@.wf(),
    {
        let i = self.find_ship(h).unwrap();
        let ghost m0 = self@;
        assert(m0.ships[i as int].data.wf());
        let c = clamp_scalar(a, self.ships[i].data.max_angular_acceleration);
        self.ships[i].data.angular_acceleration = c;
        proof {
            let nd = ShipModel { angular_acceleration: c, ..m0.ship(h).data };
            assert(self@.ships =~= m0.with_ship_data(h, nd).ships);
            lemma_with_ship_data_wf(m0, h, nd);
        }
    }

    pub(crate) fn fire_ship_weapon(&mut self, h: ShipHandle, index: i64)
        requires
            old(self)@.wf(),
            old(self)@.has_ship(h),
        ensures
            final(self)@ == fire_spec(old(self)@, h, index),
            final(self)@.wf(),
    {
        let i = self.find_ship(h).unwrap();
        let ghost m0 = self@;
        let n = self.ships[i].data.weapons.len();
        if index < 0 || index as i128 >= n as i128 {
            return;
        }
        let idx = index as usize;
        let w = self.ships[i].data.weapons[idx];
        if w.reload_time_remaining > 0 || self.next_bullet == u64::MAX {
            return;
        }
        let team = self.ships[i].data.team;
        self.ships[i].data.weapons[idx].reload_time_remaining = w.reload_time;
        proof {
            let d = m0.ship(h).data;
            let nd = ShipModel {
                weapons: d.weapons.update(idx as int, Weapon { reload_time_remaining: w.reload_time, ..w }),
                ..d
            };
            assert(d.wf());
            assert(nd.wf());
            assert(self@.ships =~= m0.with_ship_data(h, nd).ships);
            lemma_with_ship_data_wf(m0, h, nd);
        }
        self.spawn_bullet(
            Placement::Muzzle { ship: h, offset: Vec2 { x: MUZZLE_OFFSET, y: 0 }, speed: BULLET_SPEED },
            BulletData { damage: w.damage, team },
        );
    }

    pub(crate) fn launch_ship_missile(&mut self, h: ShipHandle)
        requires
            old(self)@.wf(),
            old(self)@.has_ship(h),
        ensures
            final(self)@ == launch_spec(old(self)@, h),
            final(self)@.wf(),
    {
        let i = self.find_ship(h).unwrap();
        let ghost m0 = self@;
        let slot = self.ships[i].data.missile;
        let w = match slot {
            Some(w) => w,
            None => {
                return;
            },
        };
        if w.reload_time_remaining > 0 || self.next_ship == u64::MAX {
            return;
        }
        let team = self.ships[i].data.team;
        self.ships[i].data.missile = Some(Weapon { reload_time_remaining: w.reload_time, ..w });
        proof {
            let d = m0.ship(h).data;
            let nd = ShipModel {
                missile: Some(Weapon { reload_time_remaining: w.reload_time, ..w }),
                ..d
            };
            assert(self@.ships =~= m0.with_ship_data(h, nd).ships);
            lemma_with_ship_data_wf(m0, h, nd);
        }
        let data = missile(team);
        self.create_ship(
            Placement::Muzzle { ship: h, offset: Vec2 { x: MUZZLE_OFFSET, y: 0 }, speed: MISSILE_SPEED },
            data,
        );
    }

    pub(crate) fn explode_ship(&mut self, h: ShipHandle)
        requires
            old(self)@.wf(),
            old(self)@.has_ship(h),
        ensures
            exploded(old(self)@, final(self)@, h),
            final(self)@.wf(),
    {
        let i = self.find_ship(h).unwrap();
        let ghost m0 = self@;
        if self.ships[i].data.destroyed {
            return;
        }
        let team = self.ships[i].data.team;
        self.ships[i].data.destroyed = true;
        let ghost nd = ShipModel { destroyed: true, ..m0.ship(h).data };
        proof {
            assert(self@.ships =~= m0.with_ship_data(h, nd).ships);
            lemma_with_ship_data_wf(m0, h, nd);
        }
        let ghost m1 = self@;
        if self.next_bullet > u64::MAX - EXPLOSION_BULLETS {
            assert(m1.bullets =~= m0.bullets + shrapnel(m0.next_bullet, 0, team));
            assert(m1.effects.subrange(0, m0.effects.len() as int) =~= m0.effects);
            return;
        }
        let mut rng = new_rng(0);
        let mut k: u64 = 0;
        assert(self@.bullets =~= m1.bullets + shrapnel(m1.next_bullet, 0, team));
        assert(self@.effects.subrange(0, m1.effects.len() as int) =~= m1.effects);
        while k < EXPLOSION_BULLETS
            invariant
                m1 == m0.with_ship_data(h, nd),
                m1.wf(),
                m1.next_bullet == m0.next_bullet,
                m1.effects == m0.effects,
                m1.next_bullet <= u64::MAX - EXPLOSION_BULLETS,
                k <= EXPLOSION_BULLETS,
                self@.wf(),
                self@.ships == m1.ships,
                self@.errors == m1.errors,
                self@.codes == m1.codes,
                self@.next_ship == m1.next_ship,
                self@.tick == m1.tick,
                self@.next_bullet == m1.next_bullet + k,
                self@.bullets == m1.bullets + shrapnel(m1.next_bullet, k as nat, team),
                self@.effects.len() == m1.effects.len() + k,
                self@.effects.subrange(0, m1.effects.len() as int) == m1.effects,
                forall|j: int|
                    0 <= j < k ==> is_burst_insert(
                        #[trigger] self@.effects[m1.effects.len() + j],
                        BulletHandle((m1.next_bullet + j) as u64),
                        h,
                        team,
                    ),
            decreases EXPLOSION_BULLETS - k,
        {
            let direction = gen_range(&mut rng, 0, FULL_TURN + 1);
            let ghost before = self@;
            self.spawn_bullet(
                Placement::Burst { ship: h, direction, speed: BULLET_SPEED },
                BulletData { damage: EXPLOSION_DAMAGE, team },
            );
            proof {
                assert(self@.bullets =~= m1.bullets + shrapnel(m1.next_bullet, (k + 1) as nat, team));
                assert(self@.effects.subrange(0, m1.effects.len() as int) =~= m1.effects) by {
                    assert(before.effects.subrange(0, m1.effects.len() as int) == m1.effects);
                }
                assert forall|j: int| 0 <= j < k + 1 implies is_burst_insert(
                    #[trigger] self@.effects[m1.effects.len() + j],
                    BulletHandle((m1.next_bullet + j) as u64),
                    h,
                    team,
                ) by {
                    if j < k {
                        assert(self@.effects[m1.effects.len() + j] == before.effects[m1.effects.len() + j]);
                    }
                }
            }
            k = k + 1;
        }
    }

    pub(crate) fn tick_ship(&mut self, h: ShipHandle)
        requires
            old(self)@.wf(),
            old(self)@.has_ship(h),
        ensures
            final(self)@ == tick_spec(old(self)@, h),
            final(self)@.wf(),
    {
        let i = self.find_ship(h).unwrap();
        let ghost m0 = self@;
        assert(m0.ships[i as int].data.wf());
        let acceleration = self.ships[i].data.acceleration;
        let angular_acceleration = self.ships[i].data.angular_acceleration;
        let destroyed = self.ships[i].data.destroyed;
        tick_data(&mut self.ships[i].data);
        self.effects.push(Effect::ApplyForce { handle: h, acceleration });
        self.effects.push(Effect::ApplyTorque { handle: h, angular_acceleration });
        if destroyed {
            self.ships.remove(i);
            self.effects.push(Effect::RemoveShip { handle: h });
        }
        proof {
            let t = tick_spec(m0, h);
            let e = m0.ships[i as int];
            assert(self@.effects =~= m0.effects + tick_effects(e));
            if destroyed {
                assert(self@.ships =~= m0.ships.remove(i as int));
            } else {
                assert(self@.ships =~= m0.ships.update(i as int, ShipEntryModel { data: ticked(e.data), ..e }));
            }
            assert(self@.ships == t.ships);
            assert(self@.wf()) by {
                let m = self@;
                if destroyed {
                    assert forall|a: int, b: int| 0 <= a < b < m.ships.len() implies (#[trigger] m.ships[a]).handle.0
                        < (#[trigger] m.ships[b]).handle.0 by {
                        let a0 = if a < i { a } else { a + 1 };
                        let b0 = if b < i { b } else { b + 1 };
                        assert(m.ships[a] == m0.ships[a0]);
                        assert(m.ships[b] == m0.ships[b0]);
                    }
                    assert forall|a: int| 0 <= a < m.ships.len() implies (#[trigger] m.ships[a]).data.wf() && m.ships[a].handle.0 < m.next_ship by {
                        let a0 = if a < i { a } else { a + 1 };
                        assert(m.ships[a] == m0.ships[a0]);
                    }
                } else {
                    assert forall|a: int, b: int| 0 <= a < b < m.ships.len() implies (#[trigger] m.ships[a]).handle.0
                        < (#[trigger] m.ships[b]).handle.0 by {
                        assert(m.ships[a].handle == m0.ships[a].handle);
                        assert(m.ships[b].handle == m0.ships[b].handle);
                    }
                    assert forall|a: int| 0 <= a < m.ships.len() implies (#[trigger] m.ships[a]).data.wf() && m.ships[a].handle.0 < m.next_ship by {
                        if a != i {
                            assert(m.ships[a] == m0.ships[a]);
                        }
                    }
                }
            }
        }
    }
}

/// Read access to one ship of a world.
pub struct ShipAccessor<'a> {
    pub simulation: &'a Simulation,
    pub handle: ShipHandle,
}

impl<'a> ShipAccessor<'a> {
    pub fn data(&self) -> (r: &ShipData)
        requires
            self.simulation@.wf(),
            self.simulation@.has_ship(self.handle),
        ensures
            r@ == self.simulation@.ship(self.handle).data,
    {
        let i = self.simulation.find_ship(self.handle).unwrap();
        &self.simulation.ships[i].data
    }

    /// Where the physics engine last reported the ship.
    pub fn position(&self) -> (r: Vec2)
        requires
            self.simulation@.wf(),
            self.simulation@.has_ship(self.handle),
        ensures
            r == self.simulation@.ship(self.handle).position,
    {
        let i = self.simulation.find_ship(self.handle).unwrap();
        self.simulation.ships[i].position
    }

    /// The velocity the physics engine last reported for the ship.
    pub fn velocity(&self) -> (r: Vec2)
        requires
            self.simulation@.wf(),
            self.simulation@.has_ship(self.handle),
        ensures
            r == self.simulation@.ship(self.handle).velocity,
    {
        let i = self.simulation.find_ship(self.handle).unwrap();
        self.simulation.ships[i].velocity
    }

    /// The ship's last reported heading, brought into one turn.
    pub fn heading(&self) -> (r: i64)
        requires
            self.simulation@.wf(),
            self.simulation@.has_ship(self.handle),
        ensures
            r == normalized_heading(self.simulation@.ship(self.handle).heading as int),
    {
        let i = self.simulation.find_ship(self.handle).unwrap();
        normalize_heading(self.simulation.ships[i].heading)
    }

    /// The ship's last reported angular velocity.
    pub fn angular_velocity(&self) -> (r: i64)
        requires
            self.simulation@.wf(),
            self.simulation@.has_ship(self.handle),
        ensures
            r == self.simulation@.ship(self.handle).angular_velocity,
    {
        let i = self.simulation.find_ship(self.handle).unwrap();
        self.simulation.ships[i].angular_velocity
    }
}

} // verus!

verus! {

/// The mutation surface of one ship, handed to its controller each tick. Every
/// method also states that the borrow of the world is carried through unchanged,
/// so that the caller sees the changes in the world once the accessor is gone.
pub struct ShipAccessorMut<'a> {
    pub simulation: &'a mut Simulation,
    pub handle: ShipHandle,
}

impl<'a> ShipAccessorMut<'a> {
    /// The world seen through this accessor.
    pub open spec fn sim(&self) -> SimModel {
        (*self.simulation)@
    }

    /// Whether the accessor points at a live ship of a well-formed world.
    pub open spec fn valid(&self) -> bool {
        self.sim().wf() && self.sim().has_ship(self.handle)
    }

    pub fn data(&self) -> (r: &ShipData)
        requires
            self.valid(),
        ensures
            r@ == self.sim().ship(self.handle).data,
    {
        let i = self.simulation.find_ship(self.handle).unwrap();
        &self.simulation.ships[i].data
    }

    /// Queues acceleration `acceleration` (ship frame), limited component-wise to
    /// the ship's maximum; the last request of a tick wins.
    pub fn accelerate(&mut self, acceleration: Vec2)
        requires
            old(self).valid(),
        ensures
            final(self).sim() == accelerate_spec(old(self).sim(), old(self).handle, acceleration),
            final(self).sim().ship(old(self).handle).data.acceleration.within(
                old(self).sim().ship(old(self).handle).data.max_acceleration,
            ),
            final(self).valid(),
            final(self).handle == old(self).handle,
            *final(final(self).simulation) == *final(old(self).simulation),
    {
        self.simulation.accelerate_ship(self.handle, acceleration);
        proof {
            let m0 = old(self).sim();
            let h = self.handle;
            let d = m0.ship(h).data;
            lemma_with_ship_data_wf(
                m0,
                h,
                ShipModel { acceleration: acceleration.clamped_spec(d.max_acceleration), ..d },
            );
        }
    }

    /// Queues angular acceleration, limited to the ship's maximum either way; the
    /// last request of a tick wins.
    pub fn torque(&mut self, angular_acceleration: i64)
        requires
            old(self).valid(),
        ensures
            final(self).sim() == torque_spec(
                old(self).sim(),
                old(self).handle,
                angular_acceleration,
            ),
            final(self).valid(),
            final(self).handle == old(self).handle,
            *final(final(self).simulation) == *final(old(self).simulation),
    {
        self.simulation.torque_ship(self.handle, angular_acceleration);
        proof {
            let m0 = old(self).sim();
            let h = self.handle;
            let d = m0.ship(h).data;
            lemma_with_ship_data_wf(
                m0,
                h,
                ShipModel {
                    angular_acceleration: clamp_spec(
                        angular_acceleration as int,
                        d.max_angular_acceleration as int,
                    ) as i64,
                    ..d
                },
            );
        }
    }

    /// Fires weapon `index` when it exists and has reloaded; otherwise does nothing.
    pub fn fire_weapon(&mut self, index: i64)
        requires
            old(self).valid(),
        ensures
            final(self).sim() == fire_spec(old(self).sim(), old(self).handle, index),
            final(self).valid(),
            final(self).handle == old(self).handle,
            *final(final(self).simulation) == *final(old(self).simulation),
    {
        self.simulation.fire_ship_weapon(self.handle, index);
        proof {
            let m0 = old(self).sim();
            let h = self.handle;
            if can_fire(m0, h, index) {
                let d = m0.ship(h).data;
                let w = d.weapons[index as int];
                let nd = ShipModel {
                    weapons: d.weapons.update(index as int, Weapon { reload_time_remaining: w.reload_time, ..w }),
                    ..d
                };
                assert(d.wf());
                assert(nd.wf());
                lemma_with_ship_data_wf(m0, h, nd);
            }
        }
    }

    /// Launches a missile when the ship has a launcher that has reloaded.
    pub fn launch_missile(&mut self)
        requires
            old(self).valid(),
        ensures
            final(self).sim() == launch_spec(old(self).sim(), old(self).handle),
            final(self).valid(),
            final(self).handle == old(self).handle,
            *final(final(self).simulation) == *final(old(self).simulation),
    {
        self.simulation.launch_ship_missile(self.handle);
        proof {
            let m0 = old(self).sim();
            let h = self.handle;
            if can_launch(m0, h) {
                let d = m0.ship(h).data;
                let w = d.missile.unwrap();
                let nd = ShipModel { missile: Some(Weapon { reload_time_remaining: w.reload_time, ..w }), ..d };
                lemma_with_ship_data_wf(m0, h, nd);
                let m1 = m0.with_ship_data(h, nd);
                let i = m1.ship_index(h);
                assert(self.sim().ships[i].handle == h);
            }
        }
    }

    /// Destroys the ship and scatters its shrapnel; a second call does nothing.
    pub fn explode(&mut self)
        requires
            old(self).valid(),
        ensures
            exploded(old(self).sim(), final(self).sim(), old(self).handle),
            final(self).valid(),
            final(self).handle == old(self).handle,
            *final(final(self).simulation) == *final(old(self).simulation),
    {
        self.simulation.explode_ship(self.handle);
        proof {
            let m0 = old(self).sim();
            let h = self.handle;
            let d = m0.ship(h).data;
            if !d.destroyed {
                let nd = ShipModel { destroyed: true, ..d };
                lemma_with_ship_data_wf(m0, h, nd);
                let i = m0.with_ship_data(h, nd).ship_index(h);
                assert(self.sim().ships[i].handle == h);
            }
        }
    }

    /// The ship's part of a physics tick: reloading, radar reset, handing the queued
    /// force and torque to the engine, and, for a destroyed ship, leaving the world.
    pub fn tick(&mut self)
        requires
            old(self).valid(),
        ensures
            final(self).sim() == tick_spec(old(self).sim(), old(self).handle),
            final(self).sim().wf(),
            final(self).handle == old(self).handle,
            *final(final(self).simulation) == *final(old(self).simulation),
    {
        self.simulation.tick_ship(self.handle);
    }
}

impl Simulation {
    pub fn ship(&self, handle: ShipHandle) -> (r: ShipAccessor<'_>)
        ensures
            r.simulation == self,
            r.handle == handle,
    {
        ShipAccessor { simulation: self, handle }
    }

    pub fn ship_mut(&mut self, handle: ShipHandle) -> (r: ShipAccessorMut<'_>)
        ensures
            *r.simulation == *old(self),
            *final(self) == *final(r.simulation),
            r.handle == handle,
    {
        ShipAccessorMut { simulation: self, handle }
    }
}

/// Requested accelerations end up inside the ship's box of accelerations.
pub proof fn lemma_accelerate_within_limits(m: SimModel, h: ShipHandle, a: Vec2)
    requires
        m.wf(),
        m.has_ship(h),
    ensures
        accelerate_spec(m, h, a).ship(h).data.acceleration.within(m.ship(h).data.max_acceleration),
        accelerate_spec(m, h, a).ship(h).data.max_acceleration == m.ship(h).data.max_acceleration,
{
    let d = m.ship(h).data;
    lemma_with_ship_data_wf(m, h, ShipModel { acceleration: a.clamped_spec(d.max_acceleration), ..d });
}

/// Pulling the same trigger twice within one tick fires at most once when the
/// weapon's reload time exceeds a tick: one bullet at most is added, and a weapon
/// that fired is left with exactly its reload time to wait.
pub proof fn lemma_fire_twice(m: SimModel, h: ShipHandle, index: i64)
    requires
        m.wf(),
        m.has_ship(h),
        0 <= index < m.ship(h).data.weapons.len() ==> m.ship(h).data.weapons[index as int].reload_time
            > PHYSICS_TICK_LENGTH,
    ensures
        ({
            let m2 = fire_spec(fire_spec(m, h, index), h, index);
            &&& m2.bullets.len() <= m.bullets.len() + 1
            &&& can_fire(m, h, index) ==> {
                &&& m2.bullets.len() == m.bullets.len() + 1
                &&& m2.ship(h).data.weapons[index as int].reload_time_remaining
                    == m.ship(h).data.weapons[index as int].reload_time
            }
        }),
{
    let m1 = fire_spec(m, h, index);
    let d = m.ship(h).data;
    if can_fire(m, h, index) {
        let w = d.weapons[index as int];
        let nd = ShipModel {
            weapons: d.weapons.update(index as int, Weapon { reload_time_remaining: w.reload_time, ..w }),
            ..d
        };
        assert(d.wf());
        assert(nd.wf());
        lemma_with_ship_data_wf(m, h, nd);
        let mid = m.with_ship_data(h, nd);
        assert(m1.ships == mid.ships);
        assert(m1.ship(h) == mid.ship(h));
        assert(m1.ship(h).data.weapons[index as int].reload_time_remaining == w.reload_time);
        assert(!can_fire(m1, h, index));
        assert(m1.bullets.len() == m.bullets.len() + 1);
    }
}

/// A ship that explodes twice scatters `EXPLOSION_BULLETS` bullets in all, provided
/// bullet handles remain, and stays destroyed.
pub proof fn lemma_explode_twice(m0: SimModel, m1: SimModel, m2: SimModel, h: ShipHandle)
    requires
        m0.wf(),
        m0.has_ship(h),
        !m0.ship(h).data.destroyed,
        m0.next_bullet <= u64::MAX - EXPLOSION_BULLETS,
        exploded(m0, m1, h),
        exploded(m1, m2, h),
    ensures
        m2.bullets.len() == m0.bullets.len() + EXPLOSION_BULLETS,
        m2.has_ship(h),
        m2.ship(h).data.destroyed,
{
    let d = m0.ship(h).data;
    let nd = ShipModel { destroyed: true, ..d };
    lemma_with_ship_data_wf(m0, h, nd);
    let m = m0.with_ship_data(h, nd);
    assert(m1.ships == m.ships);
    assert(m1.has_ship(h)) by {
        let i = m.ship_index(h);
        assert(m1.ships[i].handle == h);
    }
    assert(m1.ship(h) == m.ship(h));
    assert(m2 == m1);
}

} // verus!

verus! {

/// Creates a ship of `data` at `(x, y)` with velocity `(vx, vy)` and heading `h`.
pub fn create(sim: &mut Simulation, x: i64, y: i64, vx: i64, vy: i64, h: i64, data: ShipData) -> (r: ShipHandle)
    requires
        old(sim)@.wf(),
        old(sim).next_ship < u64::MAX,
        data.wf(),
    ensures
        r == ShipHandle(old(sim).next_ship),
        final(sim)@ == old(sim)@.with_ship(
            Placement::World { position: Vec2 { x, y }, velocity: Vec2 { x: vx, y: vy }, heading: h },
            data@,
        ),
        final(sim)@.wf(),
{
    sim.create_ship(
        Placement::World { position: Vec2 { x, y }, velocity: Vec2 { x: vx, y: vy }, heading: h },
        data,
    )
}

} // verus!

verus! {

/// `h` brought into `[0, FULL_TURN]` by whole turns, the way one unwinds an angle
/// turn by turn: values already there stay, smaller ones land in
/// `[0, FULL_TURN)`, larger ones in `(0, FULL_TURN]`.
pub open spec fn normalized_heading(h: int) -> int {
    if 0 <= h <= FULL_TURN {
        h
    } else if h < 0 {
        h % (FULL_TURN as int)
    } else if h % (FULL_TURN as int) == 0 {
        FULL_TURN as int
    } else {
        h % (FULL_TURN as int)
    }
}

pub fn normalize_heading(h: i64) -> (r: i64)
    ensures
        r == normalized_heading(h as int),
        0 <= r <= FULL_TURN,
{
    if 0 <= h && h <= FULL_TURN {
        return h;
    }
    let t: u64 = FULL_TURN as u64;
    if h < 0 {
        let a: u64 = (-(h as i128)) as u64;
        let q: u64 = a % t;
        proof {
            let (ai, ti, qi) = (a as int, t as int, q as int);
            let k = ai / ti;
            vstd::arithmetic::div_mod::lemma_fundamental_div_mod(ai, ti);
            assert(ai == ti * k + qi);
            if qi == 0 {
                assert(h as int == (-k) * ti + 0) by (nonlinear_arith)
                    requires
                        h as int == -ai,
                        ai == ti * k + qi,
                        qi == 0,
                ;
                vstd::arithmetic::div_mod::lemma_fundamental_div_mod_converse(h as int, ti, -k, 0);
            } else {
                assert(h as int == (-k - 1) * ti + (ti - qi)) by (nonlinear_arith)
                    requires
                        h as int == -ai,
                        ai == ti * k + qi,
                ;
                vstd::arithmetic::div_mod::lemma_fundamental_div_mod_converse(
                    h as int,
                    ti,
                    -k - 1,
                    ti - qi,
                );
            }
        }
        if q == 0 {
            0
        } else {
            FULL_TURN - q as i64
        }
    } else {
        let q: u64 = (h as u64) % t;
        if q == 0 {
            FULL_TURN
        } else {
            q as i64
        }
    }
}

} // verus!
