//! The world: stores of ships and bullets, the effect queue, and the physics tick.

use vstd::prelude::*;

use crate::collision::{
    bullet_groups_spec, bullet_interaction_groups, ship_groups_spec, ship_interaction_groups,
    InteractionGroups,
};
use crate::ship::{tick_spec, ShipClass, ShipData, ShipHandle, ShipModel};
use crate::units::PHYSICS_TICK_LENGTH;
use crate::vector::Vec2;

verus! {

/// Lifetime of a bullet: 10 s, in time units.
pub const BULLET_LIFETIME: u64 = 600_000;

#[derive(PartialEq, Eq, Structural, Clone, Copy, Debug, Hash)]
pub struct BulletHandle(pub u64);

/// What a bullet carries besides its body: the damage it deals and its team.
#[derive(PartialEq, Eq, Structural, Clone, Copy, Debug)]
pub struct BulletData {
    pub damage: i64,
    pub team: i32,
}

/// A live bullet and the time it has left before it vanishes.
#[derive(PartialEq, Eq, Structural, Clone, Copy, Debug)]
pub struct Bullet {
    pub handle: BulletHandle,
    pub data: BulletData,
    pub ttl: u64,
}

/// Where the physics engine puts a new body.
#[derive(PartialEq, Eq, Structural, Clone, Copy, Debug)]
pub enum Placement {
    /// At a world position with a world velocity and heading.
    World { position: Vec2, velocity: Vec2, heading: i64 },
    /// At `offset` in the frame of `ship`, moving with the ship's velocity plus
    /// `speed` along its heading, and facing the ship's heading.
    Muzzle { ship: ShipHandle, offset: Vec2, speed: i64 },
    /// At the position of `ship`, moving with the ship's velocity plus `speed` in the
    /// world direction `direction`.
    Burst { ship: ShipHandle, direction: i64, speed: i64 },
    /// At distance `radius` from the origin in direction `angle`, moving with
    /// `velocity` plus `speed` in direction `course`, facing `heading`.
    Polar { radius: i64, angle: i64, velocity: Vec2, speed: i64, course: i64, heading: i64 },
}

/// An instruction for the physics engine or the controller host, queued in order.
#[derive(PartialEq, Eq, Structural, Clone, Copy, Debug)]
pub enum Effect {
    InsertShip {
        handle: ShipHandle,
        class: ShipClass,
        placement: Placement,
        restitution: i64,
        groups: InteractionGroups,
    },
    InsertBullet { bullet: BulletHandle, placement: Placement, groups: InteractionGroups },
    InsertWall {
        position: Vec2,
        angle: i64,
        length: i64,
        width: i64,
        restitution: i64,
        groups: InteractionGroups,
    },
    /// Push the body with this acceleration, given in the ship's own frame.
    ApplyForce { handle: ShipHandle, acceleration: Vec2 },
    /// Turn the body with this angular acceleration.
    ApplyTorque { handle: ShipHandle, angular_acceleration: i64 },
    RemoveShip { handle: ShipHandle },
    RemoveBullet { bullet: BulletHandle },
    /// Build the controller of a new ship from its team's code.
    CreateController { handle: ShipHandle, team: i32 },
    /// Hand a destination to the controller of a ship.
    WriteTarget { handle: ShipHandle, target: Vec2 },
}

/// A contact reported by the physics engine: a bullet touched a ship, or something
/// that is not a ship (`ship` is `None`).
#[derive(PartialEq, Eq, Structural, Clone, Copy, Debug)]
pub struct Hit {
    pub bullet: BulletHandle,
    pub ship: Option<ShipHandle>,
}

/// A live ship: its data, whether a controller drives it, where it was placed
/// when created (as its `InsertShip` effect says), and its motion as the physics
/// engine last reported it.
pub struct ShipEntry {
    pub handle: ShipHandle,
    pub data: ShipData,
    pub controlled: bool,
    pub spawn: Placement,
    pub position: Vec2,
    pub velocity: Vec2,
    pub heading: i64,
    pub angular_velocity: i64,
}

pub struct ShipEntryModel {
    pub handle: ShipHandle,
    pub data: ShipModel,
    pub controlled: bool,
    pub spawn: Placement,
    pub position: Vec2,
    pub velocity: Vec2,
    pub heading: i64,
    pub angular_velocity: i64,
}

impl View for ShipEntry {
    type V = ShipEntryModel;

    open spec fn view(&self) -> ShipEntryModel {
        ShipEntryModel {
            handle: self.handle,
            data: self.data@,
            controlled: self.controlled,
            spawn: self.spawn,
            position: self.position,
            velocity: self.velocity,
            heading: self.heading,
            angular_velocity: self.angular_velocity,
        }
    }
}

/// The code a team's ships are built from.
pub struct TeamCode {
    pub team: i32,
    pub code: String,
}

/// The world: every store of the game, and the queue of effects that the physics
/// engine and the controller host carry out in order.
pub struct Simulation {
    pub ships: Vec<ShipEntry>,
    pub bullets: Vec<Bullet>,
    pub effects: Vec<Effect>,
    pub errors: Vec<String>,
    pub codes: Vec<TeamCode>,
    pub next_ship: u64,
    pub next_bullet: u64,
    pub tick: u64,
}

pub struct SimModel {
    pub ships: Seq<ShipEntryModel>,
    pub bullets: Seq<Bullet>,
    pub effects: Seq<Effect>,
    pub errors: Seq<Seq<char>>,
    pub codes: Seq<(i32, Seq<char>)>,
    pub next_ship: u64,
    pub next_bullet: u64,
    pub tick: u64,
}

impl View for Simulation {
    type V = SimModel;

    open spec fn view(&self) -> SimModel {
        SimModel {
            ships: self.ships@.map_values(|e: ShipEntry| e@),
            bullets: self.bullets@,
            effects: self.effects@,
            errors: self.errors@.map_values(|s: String| s@),
            codes: self.codes@.map_values(|c: TeamCode| (c.team, c.code@)),
            next_ship: self.next_ship,
            next_bullet: self.next_bullet,
            tick: self.tick,
        }
    }
}

impl SimModel {
    /// Ship handles strictly increase along the store and stay below the next one to
    /// hand out; the same for bullets; every ship's data is well formed and every
    /// bullet's remaining lifetime is bounded.
    pub open spec fn wf(self) -> bool {
        &&& forall|i: int, j: int|
            0 <= i < j < self.ships.len() ==> (#[trigger] self.ships[i]).handle.0
                < (#[trigger] self.ships[j]).handle.0
        &&& forall|i: int|
            0 <= i < self.ships.len() ==> (#[trigger] self.ships[i]).handle.0 < self.next_ship
        &&& forall|i: int| 0 <= i < self.ships.len() ==> (#[trigger] self.ships[i]).data.wf()
        &&& forall|i: int, j: int|
            0 <= i < j < self.bullets.len() ==> (#[trigger] self.bullets[i]).handle.0
                < (#[trigger] self.bullets[j]).handle.0
        &&& forall|i: int|
            0 <= i < self.bullets.len() ==> (#[trigger] self.bullets[i]).handle.0
                < self.next_bullet
        &&& forall|i: int|
            0 <= i < self.bullets.len() ==> (#[trigger] self.bullets[i]).ttl <= BULLET_LIFETIME
    }

    pub open spec fn has_ship(self, h: ShipHandle) -> bool {
        exists|i: int| 0 <= i < self.ships.len() && (#[trigger] self.ships[i]).handle == h
    }

    /// The position of ship `h` in the store (meaningful when `has_ship(h)`).
    pub open spec fn ship_index(self, h: ShipHandle) -> int {
        choose|i: int| 0 <= i < self.ships.len() && (#[trigger] self.ships[i]).handle == h
    }

    pub open spec fn ship(self, h: ShipHandle) -> ShipEntryModel {
        self.ships[self.ship_index(h)]
    }

    pub open spec fn has_bullet(self, b: BulletHandle) -> bool {
        exists|i: int| 0 <= i < self.bullets.len() && (#[trigger] self.bullets[i]).handle == b
    }

    pub open spec fn bullet_index(self, b: BulletHandle) -> int {
        choose|i: int| 0 <= i < self.bullets.len() && (#[trigger] self.bullets[i]).handle == b
    }

    pub open spec fn has_code(self, team: i32) -> bool {
        exists|i: int| 0 <= i < self.codes.len() && (#[trigger] self.codes[i]).0 == team
    }

    /// The handles of the live ships, in store order.
    pub open spec fn ship_handles(self) -> Seq<ShipHandle> {
        self.ships.map_values(|e: ShipEntryModel| e.handle)
    }

    /// The world with the effect `e` queued.
    pub open spec fn with_effect(self, e: Effect) -> SimModel {
        SimModel { effects: self.effects.push(e), ..self }
    }

    /// The world with the data of ship `h` replaced by `d`.
    pub open spec fn with_ship_data(self, h: ShipHandle, d: ShipModel) -> SimModel {
        let i = self.ship_index(h);
        SimModel { ships: self.ships.update(i, ShipEntryModel { data: d, ..self.ships[i] }), ..self }
    }

    /// The world after a bullet with `data` is spawned at `placement`.
    pub open spec fn with_bullet(self, placement: Placement, data: BulletData) -> SimModel {
        let b = BulletHandle(self.next_bullet);
        SimModel {
            bullets: self.bullets.push(Bullet { handle: b, data, ttl: BULLET_LIFETIME }),
            effects: self.effects.push(
                Effect::InsertBullet {
                    bullet: b,
                    placement,
                    groups: bullet_groups_spec(data.team),
                },
            ),
            next_bullet: (self.next_bullet + 1) as u64,
            ..self
        }
    }

    /// The world after a ship with `data` is created at `placement`: it joins the
    /// store, its body is queued for insertion, and when its team has code a
    /// controller is requested for it.
    pub open spec fn with_ship(self, placement: Placement, data: ShipModel) -> SimModel {
        let h = ShipHandle(self.next_ship);
        let controlled = self.has_code(data.team);
        let (position, velocity, heading) = placement_motion(placement);
        let insert = Effect::InsertShip {
            handle: h,
            class: data.class,
            placement,
            restitution: restitution_spec(data.class),
            groups: ship_groups_spec(data.team, data.class),
        };
        let effects = if controlled {
            self.effects.push(insert).push(Effect::CreateController { handle: h, team: data.team })
        } else {
            self.effects.push(insert)
        };
        SimModel {
            ships: self.ships.push(
                ShipEntryModel {
                    handle: h,
                    data,
                    controlled,
                    spawn: placement,
                    position,
                    velocity,
                    heading,
                    angular_velocity: 0,
                },
            ),
            effects,
            next_ship: (self.next_ship + 1) as u64,
            ..self
        }
    }
}

/// What a new ship's entry records of its placement until the engine reports on
/// it: position and velocity of a World placement, and the heading of a World or
/// Polar one; the rest starts at zero.
pub open spec fn placement_motion(p: Placement) -> (Vec2, Vec2, i64) {
    match p {
        Placement::World { position, velocity, heading } => (position, velocity, heading),
        Placement::Polar { heading, .. } => (Vec2 { x: 0, y: 0 }, Vec2 { x: 0, y: 0 }, heading),
        _ => (Vec2 { x: 0, y: 0 }, Vec2 { x: 0, y: 0 }, 0),
    }
}

pub fn motion_of(p: Placement) -> (r: (Vec2, Vec2, i64))
    ensures
        r == placement_motion(p),
{
    match p {
        Placement::World { position, velocity, heading } => (position, velocity, heading),
        Placement::Polar { heading, .. } => (Vec2 { x: 0, y: 0 }, Vec2 { x: 0, y: 0 }, heading),
        _ => (Vec2 { x: 0, y: 0 }, Vec2 { x: 0, y: 0 }, 0),
    }
}

/// Bounciness of a ship's collider in thousandths: missiles do not bounce.
pub open spec fn restitution_spec(class: ShipClass) -> i64 {
    if class == ShipClass::Missile {
        0
    } else {
        100
    }
}

pub fn restitution(class: ShipClass) -> (r: i64)
    ensures
        r == restitution_spec(class),
{
    match class {
        ShipClass::Missile => 0,
        _ => 100,
    }
}

/// In a well-formed world the entry holding a handle is the one `ship_index` names.
pub proof fn lemma_ship_index(m: SimModel, i: int)
    requires
        m.wf(),
        0 <= i < m.ships.len(),
    ensures
        m.has_ship(m.ships[i].handle),
        m.ship_index(m.ships[i].handle) == i,
{
    let h = m.ships[i].handle;
    assert(m.has_ship(h));
    let j = m.ship_index(h);
    if j < i {
        assert(m.ships[j].handle.0 < m.ships[i].handle.0);
    } else if j > i {
        assert(m.ships[i].handle.0 < m.ships[j].handle.0);
    }
}

/// Replacing one ship's data by well-formed data keeps the world well formed.
pub proof fn lemma_with_ship_data_wf(m: SimModel, h: ShipHandle, d: ShipModel)
    requires
        m.wf(),
        m.has_ship(h),
        d.wf(),
    ensures
        m.with_ship_data(h, d).wf(),
        m.with_ship_data(h, d).has_ship(h),
        m.with_ship_data(h, d).ship_index(h) == m.ship_index(h),
        m.with_ship_data(h, d).ship(h).data == d,
{
    let i = m.ship_index(h);
    let m1 = m.with_ship_data(h, d);
    assert(m1.ships[i].handle == h);
    lemma_ship_index(m1, i);
}

/// In a well-formed world the entry holding a bullet handle is the one
/// `bullet_index` names.
pub proof fn lemma_bullet_index(m: SimModel, i: int)
    requires
        m.wf(),
        0 <= i < m.bullets.len(),
    ensures
        m.has_bullet(m.bullets[i].handle),
        m.bullet_index(m.bullets[i].handle) == i,
{
    let b = m.bullets[i].handle;
    assert(m.has_bullet(b));
    let j = m.bullet_index(b);
    if j < i {
        assert(m.bullets[j].handle.0 < m.bullets[i].handle.0);
    } else if j > i {
        assert(m.bullets[i].handle.0 < m.bullets[j].handle.0);
    }
}

impl Simulation {
    /// An empty world.
    pub fn new() -> (r: Simulation)
        ensures
            r@.ships.len() == 0,
            r@.bullets.len() == 0,
            r@.effects.len() == 0,
            r@.errors.len() == 0,
            r@.codes.len() == 0,
            r@.next_ship == 0,
            r@.next_bullet == 0,
            r@.tick == 0,
            r@.wf(),
    {
        Simulation {
            ships: Vec::new(),
            bullets: Vec::new(),
            effects: Vec::new(),
            errors: Vec::new(),
            codes: Vec::new(),
            next_ship: 0,
            next_bullet: 0,
            tick: 0,
        }
    }

    /// Where ship `h` stands in the store, or `None` when no live ship has it.
    pub fn find_ship(&self, h: ShipHandle) -> (r: Option<usize>)
        requires
            self@.wf(),
        ensures
            r.is_none() <==> !self@.has_ship(h),
            r.is_some() ==> r.unwrap() < self.ships@.len() && r.unwrap() == self@.ship_index(h),
    {
        let mut i: usize = 0;
        while i < self.ships.len()
            invariant
                self@.wf(),
                i <= self.ships@.len(),
                forall|k: int| 0 <= k < i ==> self.ships@[k].handle != h,
            decreases self.ships@.len() - i,
        {
            if self.ships[i].handle == h {
                proof {
                    lemma_ship_index(self@, i as int);
                }
                return Some(i);
            }
            i = i + 1;
        }
        proof {
            if self@.has_ship(h) {
                let j = choose|j: int|
                    0 <= j < self@.ships.len() && (#[trigger] self@.ships[j]).handle == h;
                assert(self.ships@[j].handle == h);
            }
        }
        None
    }

    /// Whether team `team` has code to build controllers from.
    pub fn has_code(&self, team: i32) -> (r: bool)
        ensures
            r == self@.has_code(team),
    {
        let mut i: usize = 0;
        while i < self.codes.len()
            invariant
                i <= self.codes@.len(),
                forall|k: int| 0 <= k < i ==> self@.codes[k].0 != team,
            decreases self.codes@.len() - i,
        {
            if self.codes[i].team == team {
                assert(self@.codes[i as int].0 == team);
                return true;
            }
            i = i + 1;
        }
        false
    }

    /// Spawns a bullet; its body is queued for the physics engine.
    pub fn spawn_bullet(&mut self, placement: Placement, data: BulletData) -> (r: BulletHandle)
        requires
            old(self)@.wf(),
            old(self).next_bullet < u64::MAX,
        ensures
            r == BulletHandle(old(self).next_bullet),
            final(self)@ == old(self)@.with_bullet(placement, data),
            final(self)@.wf(),
    {
        let b = BulletHandle(self.next_bullet);
        let groups = bullet_interaction_groups(data.team);
        self.bullets.push(Bullet { handle: b, data, ttl: BULLET_LIFETIME });
        self.effects.push(Effect::InsertBullet { bullet: b, placement, groups });
        self.next_bullet = self.next_bullet + 1;
        proof {
            let m = self@;
            let n = old(self)@.bullets.len();
            assert(m.bullets =~= old(self)@.bullets.push(Bullet { handle: b, data, ttl: BULLET_LIFETIME }));
            assert forall|i: int, j: int| 0 <= i < j < m.bullets.len() implies (#[trigger] m.bullets[i]).handle.0
                < (#[trigger] m.bullets[j]).handle.0 by {
                if j == n {
                    assert(old(self)@.bullets[i].handle.0 < old(self)@.next_bullet);
                } else {
                    assert(old(self)@.bullets[i] == m.bullets[i]);
                    assert(old(self)@.bullets[j] == m.bullets[j]);
                }
            }
            assert(self@.errors =~= old(self)@.errors);
            assert(self@.codes =~= old(self)@.codes);
            assert(self@.ships =~= old(self)@.ships);
        }
        b
    }

    /// Creates a ship at `placement` (see `with_ship`).
    pub fn create_ship(&mut self, placement: Placement, data: ShipData) -> (r: ShipHandle)
        requires
            old(self)@.wf(),
            old(self).next_ship < u64::MAX,
            data.wf(),
        ensures
            r == ShipHandle(old(self).next_ship),
            final(self)@ == old(self)@.with_ship(placement, data@),
            final(self)@.wf(),
    {
        let h = ShipHandle(self.next_ship);
        let team = data.team;
        let class = data.class;
        let controlled = self.has_code(team);
        let (position, velocity, heading) = motion_of(placement);
        let groups = ship_interaction_groups(team, class);
        let restitution = restitution(class);
        self.effects.push(Effect::InsertShip { handle: h, class, placement, restitution, groups });
        if controlled {
            self.effects.push(Effect::CreateController { handle: h, team });
        }
        self.ships.push(
            ShipEntry {
                handle: h,
                data,
                controlled,
                spawn: placement,
                position,
                velocity,
                heading,
                angular_velocity: 0,
            },
        );
        self.next_ship = self.next_ship + 1;
        proof {
            assert(self@.errors =~= old(self)@.errors);
            assert(self@.codes =~= old(self)@.codes);
            assert(self@.ships =~= old(self)@.with_ship(placement, data@).ships);
        }
        h
    }

    /// Records the code that team `team`'s ships are built from, replacing any
    /// earlier code of that team.
    pub fn upload_code(&mut self, team: i32, code: String)
        requires
            old(self)@.wf(),
        ensures
            final(self)@.has_code(team),
            final(self)@.ships == old(self)@.ships,
            final(self)@.bullets == old(self)@.bullets,
            final(self)@.effects == old(self)@.effects,
            final(self)@.next_ship == old(self)@.next_ship,
            final(self)@.next_bullet == old(self)@.next_bullet,
            final(self)@.tick == old(self)@.tick,
            final(self)@.wf(),
            forall|t: i32| t != team ==> (final(self)@.has_code(t) <==> old(self)@.has_code(t)),
            exists|i: int|
                0 <= i < final(self)@.codes.len() && final(self)@.codes[i] == (team, code@) && (
                forall|k: int|
                    0 <= k < i ==> (#[trigger] final(self)@.codes[k]).0 != team),
    {
        let ghost m0 = self@;
        let mut i: usize = 0;
        while i < self.codes.len()
            invariant
                self@ == m0,
                m0 == old(self)@,
                m0.wf(),
                i <= self.codes@.len(),
                forall|k: int| 0 <= k < i ==> self@.codes[k].0 != team,
            decreases self.codes@.len() - i,
        {
            if self.codes[i].team == team {
                self.codes[i].code = code;
                proof {
                    let m1 = self@;
                    assert(m1.codes =~= m0.codes.update(i as int, (team, code@)));
                    assert(m1.has_code(team)) by {
                        assert(m1.codes[i as int].0 == team);
                    }
                    assert forall|t: i32| t != team implies (m1.has_code(t) <==> m0.has_code(t)) by {
                        if m0.has_code(t) {
                            let k = choose|k: int| 0 <= k < m0.codes.len() && (#[trigger] m0.codes[k]).0 == t;
                            assert(m1.codes[k].0 == t);
                        }
                        if m1.has_code(t) {
                            let k = choose|k: int| 0 <= k < m1.codes.len() && (#[trigger] m1.codes[k]).0 == t;
                            assert(m0.codes[k].0 == t);
                        }
                    }
                    assert(m1.errors =~= m0.errors);
                    assert(m1.ships =~= m0.ships);
                    assert(m1.bullets =~= m0.bullets);
                    assert(m1.wf());
                    assert(m1.codes[i as int] == (team, code@));
                    assert(forall|k: int| 0 <= k < i ==> (#[trigger] m1.codes[k]).0 != team);
                }
                return;
            }
            i = i + 1;
        }
        self.codes.push(TeamCode { team, code });
        proof {
            let m1 = self@;
            let n = m0.codes.len();
            assert(m1.codes =~= m0.codes.push((team, code@)));
            assert(m1.has_code(team)) by {
                assert(m1.codes[n as int].0 == team);
            }
            assert forall|t: i32| t != team implies (m1.has_code(t) <==> m0.has_code(t)) by {
                if m0.has_code(t) {
                    let k = choose|k: int| 0 <= k < m0.codes.len() && (#[trigger] m0.codes[k]).0 == t;
                    assert(m1.codes[k].0 == t);
                }
                if m1.has_code(t) {
                    let k = choose|k: int| 0 <= k < m1.codes.len() && (#[trigger] m1.codes[k]).0 == t;
                    assert(m0.codes[k].0 == t);
                }
            }
            assert(m1.errors =~= m0.errors);
            assert(m1.ships =~= m0.ships);
            assert(m1.bullets =~= m0.bullets);
            assert(m1.wf());
            assert(m1.codes[n as int] == (team, code@));
        }
    }

    /// Where bullet `b` stands in the store, or `None` when no live bullet has it.
    pub fn find_bullet(&self, b: BulletHandle) -> (r: Option<usize>)
        requires
            self@.wf(),
        ensures
            r.is_none() <==> !self@.has_bullet(b),
            r.is_some() ==> r.unwrap() < self.bullets@.len() && r.unwrap()
                == self@.bullet_index(b),
    {
        let mut i: usize = 0;
        while i < self.bullets.len()
            invariant
                self@.wf(),
                i <= self.bullets@.len(),
                forall|k: int| 0 <= k < i ==> self.bullets@[k].handle != b,
            decreases self.bullets@.len() - i,
        {
            if self.bullets[i].handle == b {
                proof {
                    lemma_bullet_index(self@, i as int);
                }
                return Some(i);
            }
            i = i + 1;
        }
        None
    }
}

} // verus!

verus! {

/// `a - b`, held at the bounds of `i64`.
pub open spec fn saturating_sub_spec(a: i64, b: i64) -> i64 {
    let v = a - b;
    if v < i64::MIN {
        i64::MIN
    } else if v > i64::MAX {
        i64::MAX
    } else {
        v as i64
    }
}

pub fn saturating_sub(a: i64, b: i64) -> (r: i64)
    ensures
        r == saturating_sub_spec(a, b),
{
    let v: i128 = a as i128 - b as i128;
    if v < i64::MIN as i128 {
        i64::MIN
    } else if v > i64::MAX as i128 {
        i64::MAX
    } else {
        v as i64
    }
}

/// The world after ship `h` takes a bullet of `damage`: its health drops, and it
/// is marked destroyed once its health is gone.
pub open spec fn damaged(m: SimModel, h: ShipHandle, damage: i64) -> SimModel {
    let d = m.ship(h).data;
    let health = saturating_sub_spec(d.health, damage);
    m.with_ship_data(h, ShipModel { health, destroyed: d.destroyed || health <= 0, ..d })
}

/// The world after one contact: a live bullet vanishes, and when it touched a live
/// ship, that ship takes its damage. A contact of a bullet already gone is ignored.
pub open spec fn apply_hit(m: SimModel, hit: Hit) -> SimModel {
    if m.has_bullet(hit.bullet) {
        let k = m.bullet_index(hit.bullet);
        let b = m.bullets[k];
        let m1 = SimModel {
            bullets: m.bullets.remove(k),
            effects: m.effects.push(Effect::RemoveBullet { bullet: hit.bullet }),
            ..m
        };
        match hit.ship {
            Some(h) => if m.has_ship(h) {
                damaged(m1, h, b.data.damage)
            } else {
                m1
            },
            None => m1,
        }
    } else {
        m
    }
}

/// The contacts resolved in order.
pub open spec fn apply_hits(m: SimModel, hits: Seq<Hit>) -> SimModel
    decreases hits.len(),
{
    if hits.len() == 0 {
        m
    } else {
        apply_hit(apply_hits(m, hits.drop_last()), hits.last())
    }
}

/// The bullets that outlive this tick, each one tick older.
pub open spec fn aged(bs: Seq<Bullet>) -> Seq<Bullet>
    decreases bs.len(),
{
    if bs.len() == 0 {
        bs
    } else {
        let r = aged(bs.drop_last());
        let b = bs.last();
        if b.ttl > PHYSICS_TICK_LENGTH {
            r.push(Bullet { ttl: (b.ttl - PHYSICS_TICK_LENGTH) as u64, ..b })
        } else {
            r
        }
    }
}

/// The removals queued for the bullets whose lifetime runs out this tick.
pub open spec fn expiries(bs: Seq<Bullet>) -> Seq<Effect>
    decreases bs.len(),
{
    if bs.len() == 0 {
        Seq::empty()
    } else {
        let r = expiries(bs.drop_last());
        let b = bs.last();
        if b.ttl > PHYSICS_TICK_LENGTH {
            r
        } else {
            r.push(Effect::RemoveBullet { bullet: b.handle })
        }
    }
}

/// Each ship of `hs` ticked in order (ships already gone are skipped).
pub open spec fn tick_all(m: SimModel, hs: Seq<ShipHandle>) -> SimModel
    decreases hs.len(),
{
    if hs.len() == 0 {
        m
    } else {
        let prev = tick_all(m, hs.drop_last());
        if prev.has_ship(hs.last()) {
            tick_spec(prev, hs.last())
        } else {
            prev
        }
    }
}

/// One physics tick of the world, between controller commands and the engine's
/// step: every ship ticks (destroyed ones leave), then the contacts of the last
/// engine step are resolved, then bullets age and expire, and the tick count grows.
pub open spec fn step_spec(m: SimModel, hits: Seq<Hit>) -> SimModel {
    let m1 = apply_hits(tick_all(m, m.ship_handles()), hits);
    SimModel {
        bullets: aged(m1.bullets),
        effects: m1.effects + expiries(m1.bullets),
        tick: if m1.tick < u64::MAX {
            (m1.tick + 1) as u64
        } else {
            m1.tick
        },
        ..m1
    }
}

} // verus!

verus! {

proof fn lemma_has_ship_index(m: SimModel, h: ShipHandle)
    requires
        m.wf(),
        m.has_ship(h),
    ensures
        0 <= m.ship_index(h) < m.ships.len(),
        m.ships[m.ship_index(h)].handle == h,
{
}

/// Ticking ship `h` leaves every other ship where it was, unchanged.
proof fn lemma_tick_others(m: SimModel, h: ShipHandle, h2: ShipHandle)
    requires
        m.wf(),
        m.has_ship(h),
        m.has_ship(h2),
        h != h2,
        tick_spec(m, h).wf(),
    ensures
        tick_spec(m, h).has_ship(h2),
        tick_spec(m, h).ship(h2) == m.ship(h2),
{
    let i = m.ship_index(h);
    let i2 = m.ship_index(h2);
    lemma_has_ship_index(m, h);
    lemma_has_ship_index(m, h2);
    let t = tick_spec(m, h);
    let j = if m.ships[i].data.destroyed && i2 > i {
        i2 - 1
    } else {
        i2
    };
    assert(t.ships[j] == m.ships[i2]);
    lemma_ship_index(t, j);
}

/// Ticking adds no ship, and a destroyed ship is gone after its tick.
proof fn lemma_tick_removes(m: SimModel, h: ShipHandle)
    requires
        m.wf(),
        m.has_ship(h),
        tick_spec(m, h).wf(),
    ensures
        m.ship(h).data.destroyed ==> !tick_spec(m, h).has_ship(h),
        forall|x: ShipHandle| tick_spec(m, h).has_ship(x) ==> m.has_ship(x),
{
    let i = m.ship_index(h);
    lemma_has_ship_index(m, h);
    let t = tick_spec(m, h);
    let destroyed = m.ships[i].data.destroyed;
    assert forall|x: ShipHandle| t.has_ship(x) implies m.has_ship(x) by {
        let j = choose|j: int| 0 <= j < t.ships.len() && (#[trigger] t.ships[j]).handle == x;
        let j0 = if destroyed && j >= i {
            j + 1
        } else {
            j
        };
        assert(m.ships[j0].handle == x);
    }
    if destroyed && t.has_ship(h) {
        let j = choose|j: int| 0 <= j < t.ships.len() && (#[trigger] t.ships[j]).handle == h;
        let j0 = if j >= i {
            j + 1
        } else {
            j
        };
        assert(m.ships[j0].handle == h);
        if j0 < i {
            assert(m.ships[j0].handle.0 < m.ships[i].handle.0);
        } else {
            assert(m.ships[i].handle.0 < m.ships[j0].handle.0);
        }
    }
}

impl Simulation {
    /// The handles of the live ships, in store order.
    pub fn ship_handles(&self) -> (r: Vec<ShipHandle>)
        ensures
            r@ == self@.ship_handles(),
    {
        let mut r: Vec<ShipHandle> = Vec::new();
        let mut i: usize = 0;
        while i < self.ships.len()
            invariant
                i <= self.ships@.len(),
                r@ == self@.ship_handles().take(i as int),
            decreases self.ships@.len() - i,
        {
            r.push(self.ships[i].handle);
            i = i + 1;
            assert(r@ =~= self@.ship_handles().take(i as int));
        }
        assert(r@ =~= self@.ship_handles());
        r
    }

    /// Ticks every ship, over a snapshot of the handles taken beforehand, so that
    /// removing a destroyed ship never disturbs the walk.
    pub(crate) fn tick_ships(&mut self)
        requires
            old(self)@.wf(),
        ensures
            final(self)@ == tick_all(old(self)@, old(self)@.ship_handles()),
            final(self)@.wf(),
            forall|h: ShipHandle|
                old(self)@.has_ship(h) && old(self)@.ship(h).data.destroyed
                    ==> !final(self)@.has_ship(h),
            forall|h: ShipHandle| final(self)@.has_ship(h) ==> old(self)@.has_ship(h),
    {
        let ghost m0 = self@;
        let hs = self.ship_handles();
        let mut k: usize = 0;
        proof {
            assert(hs@.take(0) =~= Seq::<ShipHandle>::empty());
            assert forall|j: int| 0 <= j < hs@.len() implies self@.has_ship(hs@[j]) && self@.ship(hs@[j])
                == m0.ship(hs@[j]) by {
                lemma_ship_index(m0, j);
            }
        }
        while k < hs.len()
            invariant
                m0 == old(self)@,
                m0.wf(),
                hs@ == m0.ship_handles(),
                k <= hs@.len(),
                self@.wf(),
                self@ == tick_all(m0, hs@.take(k as int)),
                forall|j: int|
                    k <= j < hs@.len() ==> self@.has_ship(#[trigger] hs@[j]) && self@.ship(hs@[j])
                        == m0.ship(hs@[j]),
                forall|j: int|
                    0 <= j < k ==> m0.ship(#[trigger] hs@[j]).data.destroyed ==> !self@.has_ship(
                        hs@[j],
                    ),
                forall|x: ShipHandle| self@.has_ship(x) ==> m0.has_ship(x),
            decreases hs@.len() - k,
        {
            let h = hs[k];
            let ghost prev = self@;
            proof {
                assert(hs@.take(k + 1).drop_last() =~= hs@.take(k as int));
            }
            self.tick_ship(h);
            proof {
                lemma_tick_removes(prev, h);
                assert forall|j: int| k + 1 <= j < hs@.len() implies self@.has_ship(
                    #[trigger] hs@[j],
                ) && self@.ship(hs@[j]) == m0.ship(hs@[j]) by {
                    assert(m0.ships[k as int].handle.0 < m0.ships[j].handle.0);
                    lemma_tick_others(prev, h, hs@[j]);
                }
            }
            k = k + 1;
        }
        proof {
            assert(hs@.take(hs@.len() as int) =~= hs@);
            assert forall|h: ShipHandle| m0.has_ship(h) && m0.ship(h).data.destroyed implies !self@.has_ship(h) by {
                let j = m0.ship_index(h);
                lemma_has_ship_index(m0, h);
                assert(hs@[j] == h);
            }
        }
    }
}

} // verus!

verus! {

/// After `aged`, every bullet has some time left, and at most `x` less one tick
/// when every bullet before had at most `x`.
pub proof fn lemma_aged_bounds(bs: Seq<Bullet>, x: int)
    requires
        forall|i: int| 0 <= i < bs.len() ==> (#[trigger] bs[i]).ttl <= x,
    ensures
        forall|i: int|
            0 <= i < aged(bs).len() ==> 0 < (#[trigger] aged(bs)[i]).ttl <= x
                - PHYSICS_TICK_LENGTH,
    decreases bs.len(),
{
    if bs.len() > 0 {
        let p = bs.drop_last();
        assert forall|i: int| 0 <= i < p.len() implies (#[trigger] p[i]).ttl <= x by {
            assert(p[i] == bs[i]);
        }
        lemma_aged_bounds(p, x);
        let r = aged(p);
        let b = bs.last();
        assert(b == bs[bs.len() - 1]);
        if b.ttl > PHYSICS_TICK_LENGTH {
            let nb = Bullet { ttl: (b.ttl - PHYSICS_TICK_LENGTH) as u64, ..b };
            assert(aged(bs) == r.push(nb));
            assert forall|i: int| 0 <= i < aged(bs).len() implies 0 < (#[trigger] aged(bs)[i]).ttl
                <= x - PHYSICS_TICK_LENGTH by {
                if i < r.len() {
                    assert(aged(bs)[i] == r[i]);
                }
            }
        } else {
            assert(aged(bs) == r);
        }
    }
}

impl Simulation {
    /// Resolves one contact reported by the physics engine (see `apply_hit`).
    pub(crate) fn resolve_hit(&mut self, hit: Hit)
        requires
            old(self)@.wf(),
        ensures
            final(self)@ == apply_hit(old(self)@, hit),
            final(self)@.wf(),
            forall|x: ShipHandle| final(self)@.has_ship(x) == old(self)@.has_ship(x),
    {
        let ghost m0 = self@;
        let k = match self.find_bullet(hit.bullet) {
            Some(k) => k,
            None => {
                return;
            },
        };
        let b = self.bullets[k];
        self.bullets.remove(k);
        self.effects.push(Effect::RemoveBullet { bullet: hit.bullet });
        let ghost m1 = self@;
        proof {
            assert(m1.ships =~= m0.ships);
            assert forall|x: ShipHandle| m1.has_ship(x) == m0.has_ship(x) by {}
            assert(m1.bullets =~= m0.bullets.remove(k as int));
            assert forall|a: int, c: int| 0 <= a < c < m1.bullets.len() implies (#[trigger] m1.bullets[a]).handle.0
                < (#[trigger] m1.bullets[c]).handle.0 by {
                let a0 = if a < k { a } else { a + 1 };
                let c0 = if c < k { c } else { c + 1 };
                assert(m1.bullets[a] == m0.bullets[a0]);
                assert(m1.bullets[c] == m0.bullets[c0]);
            }
            assert forall|a: int| 0 <= a < m1.bullets.len() implies (#[trigger] m1.bullets[a]).handle.0 < m1.next_bullet
                && m1.bullets[a].ttl <= BULLET_LIFETIME by {
                let a0 = if a < k { a } else { a + 1 };
                assert(m1.bullets[a] == m0.bullets[a0]);
            }
            assert(m1.wf());
        }
        if let Some(h) = hit.ship {
            if let Some(i) = self.find_ship(h) {
                assert(m1.ships[i as int].data.wf());
                let health = saturating_sub(self.ships[i].data.health, b.data.damage);
                self.ships[i].data.health = health;
                if health <= 0 {
                    self.ships[i].data.destroyed = true;
                }
                proof {
                    let d = m1.ship(h).data;
                    let nd = ShipModel { health, destroyed: d.destroyed || health <= 0, ..d };
                    assert(self@.ships =~= m1.with_ship_data(h, nd).ships);
                    lemma_with_ship_data_wf(m1, h, nd);
                    assert forall|x: ShipHandle| self@.has_ship(x) == m1.has_ship(x) by {
                        if m1.has_ship(x) {
                            let j = choose|j: int| 0 <= j < m1.ships.len() && (#[trigger] m1.ships[j]).handle == x;
                            assert(self@.ships[j].handle == x);
                        }
                        if self@.has_ship(x) {
                            let j = choose|j: int| 0 <= j < self@.ships.len() && (#[trigger] self@.ships[j]).handle == x;
                            assert(m1.ships[j].handle == x);
                        }
                    }
                }
            }
        }
    }

    /// Lets every bullet age by one tick, removing those whose lifetime ran out.
    pub(crate) fn age_bullets(&mut self)
        requires
            old(self)@.wf(),
        ensures
            final(self)@ == (SimModel {
                bullets: aged(old(self)@.bullets),
                effects: old(self)@.effects + expiries(old(self)@.bullets),
                ..old(self)@
            }),
            final(self)@.wf(),
    {
        let ghost m0 = self@;
        let ghost bs = m0.bullets;
        let mut kept: Vec<Bullet> = Vec::new();
        let mut i: usize = 0;
        assert(bs.take(0) =~= Seq::<Bullet>::empty());
        assert(self@.effects =~= m0.effects + expiries(bs.take(0)));
        while i < self.bullets.len()
            invariant
                m0 == old(self)@,
                m0.wf(),
                bs == m0.bullets,
                self.bullets@ == bs,
                self.ships == old(self).ships,
                self.errors == old(self).errors,
                self.codes == old(self).codes,
                self.next_ship == old(self).next_ship,
                self.next_bullet == old(self).next_bullet,
                self.tick == old(self).tick,
                i <= bs.len(),
                kept@ == aged(bs.take(i as int)),
                self@.effects == m0.effects + expiries(bs.take(i as int)),
                forall|a: int|
                    0 <= a < kept@.len() ==> exists|j: int|
                        0 <= j < i && (#[trigger] kept@[a]).handle == bs[j].handle,
                forall|a: int, c: int|
                    0 <= a < c < kept@.len() ==> (#[trigger] kept@[a]).handle.0
                        < (#[trigger] kept@[c]).handle.0,
                forall|a: int| 0 <= a < kept@.len() ==> (#[trigger] kept@[a]).ttl <= BULLET_LIFETIME,
            decreases bs.len() - i,
        {
            let b = self.bullets[i];
            proof {
                assert(bs.take(i + 1).drop_last() =~= bs.take(i as int));
                assert(bs.take(i + 1).last() == b);
            }
            if b.ttl > PHYSICS_TICK_LENGTH {
                let ghost before = kept@;
                kept.push(Bullet { ttl: b.ttl - PHYSICS_TICK_LENGTH, ..b });
                proof {
                    assert forall|a: int| 0 <= a < before.len() implies (#[trigger] kept@[a]).handle.0
                        < b.handle.0 by {
                        assert(kept@[a] == before[a]);
                        let j = choose|j: int| 0 <= j < i && (#[trigger] before[a]).handle == bs[j].handle;
                        assert(bs[j].handle.0 < bs[i as int].handle.0);
                    }
                    assert forall|a: int| 0 <= a < kept@.len() implies exists|j: int|
                        0 <= j < i + 1 && (#[trigger] kept@[a]).handle == bs[j].handle by {
                        if a < before.len() {
                            assert(kept@[a] == before[a]);
                            let j = choose|j: int| 0 <= j < i && (#[trigger] before[a]).handle == bs[j].handle;
                            assert(0 <= j < i + 1 && kept@[a].handle == bs[j].handle);
                        } else {
                            assert(kept@[a].handle == bs[i as int].handle);
                        }
                    }
                }
            } else {
                self.effects.push(Effect::RemoveBullet { bullet: b.handle });
                proof {
                    assert(self@.effects =~= m0.effects + expiries(bs.take(i + 1)));
                }
            }
            i = i + 1;
        }
        self.bullets = kept;
        proof {
            assert(bs.take(bs.len() as int) =~= bs);
            let m = self@;
            assert(m.ships =~= m0.ships);
            assert forall|a: int| 0 <= a < m.bullets.len() implies (#[trigger] m.bullets[a]).handle.0 < m.next_bullet by {
                let j = choose|j: int| 0 <= j < bs.len() && (#[trigger] m.bullets[a]).handle == bs[j].handle;
                assert(bs[j].handle.0 < m0.next_bullet);
            }
        }
    }

    /// One physics tick of the world, between the controllers' commands and the
    /// engine's step (see `step_spec`). `hits` are the contacts the engine reported
    /// in its last step.
    pub fn step(&mut self, hits: &Vec<Hit>)
        requires
            old(self)@.wf(),
        ensures
            final(self)@ == step_spec(old(self)@, hits@),
            final(self)@.wf(),
            forall|h: ShipHandle|
                old(self)@.has_ship(h) && old(self)@.ship(h).data.destroyed
                    ==> !final(self)@.has_ship(h),
    {
        let ghost m0 = self@;
        self.tick_ships();
        let ghost m1 = self@;
        let mut k: usize = 0;
        assert(hits@.take(0) =~= Seq::<Hit>::empty());
        while k < hits.len()
            invariant
                m0 == old(self)@,
                m1 == tick_all(m0, m0.ship_handles()),
                forall|h: ShipHandle| m0.has_ship(h) && m0.ship(h).data.destroyed ==> !m1.has_ship(h),
                k <= hits@.len(),
                self@.wf(),
                self@ == apply_hits(m1, hits@.take(k as int)),
                forall|x: ShipHandle| self@.has_ship(x) == m1.has_ship(x),
            decreases hits@.len() - k,
        {
            proof {
                assert(hits@.take(k + 1).drop_last() =~= hits@.take(k as int));
            }
            self.resolve_hit(hits[k]);
            k = k + 1;
        }
        proof {
            assert(hits@.take(hits@.len() as int) =~= hits@);
        }
        self.age_bullets();
        let ghost m2 = self@;
        if self.tick < u64::MAX {
            self.tick = self.tick + 1;
        }
        proof {
            let m = self@;
            assert(m.ships =~= m2.ships);
            assert(m.bullets =~= m2.bullets);
            assert(m.ships =~= step_spec(m0, hits@).ships);
            assert(m.bullets =~= step_spec(m0, hits@).bullets);
        }
    }
}

} // verus!

verus! {

impl Simulation {
    /// Records the motion the physics engine gave ship `h` in its step; a handle
    /// with no live ship is ignored.
    pub fn observe(
        &mut self,
        h: ShipHandle,
        position: Vec2,
        velocity: Vec2,
        heading: i64,
        angular_velocity: i64,
    )
        requires
            old(self)@.wf(),
        ensures
            final(self)@.wf(),
            old(self)@.has_ship(h) ==> final(self)@ == (SimModel {
                ships: old(self)@.ships.update(
                    old(self)@.ship_index(h),
                    ShipEntryModel {
                        position,
                        velocity,
                        heading,
                        angular_velocity,
                        ..old(self)@.ship(h)
                    },
                ),
                ..old(self)@
            }),
            !old(self)@.has_ship(h) ==> final(self)@ == old(self)@,
    {
        let ghost m0 = self@;
        if let Some(i) = self.find_ship(h) {
            self.ships[i].position = position;
            self.ships[i].velocity = velocity;
            self.ships[i].heading = heading;
            self.ships[i].angular_velocity = angular_velocity;
            proof {
                let t = SimModel {
                    ships: m0.ships.update(
                        i as int,
                        ShipEntryModel {
                            position,
                            velocity,
                            heading,
                            angular_velocity,
                            ..m0.ships[i as int]
                        },
                    ),
                    ..m0
                };
                assert(self@.ships =~= t.ships);
                assert forall|a: int| 0 <= a < t.ships.len() implies (#[trigger] t.ships[a]).handle == m0.ships[a].handle
                    && t.ships[a].data == m0.ships[a].data by {}
            }
        }
    }

    /// Records that the controller of ship `h` could not be built: the message joins
    /// the errors, and the ship goes on without a controller.
    pub fn controller_failed(&mut self, h: ShipHandle, message: String)
        requires
            old(self)@.wf(),
        ensures
            final(self)@.wf(),
            final(self)@.errors == old(self)@.errors.push(message@),
            old(self)@.has_ship(h) ==> final(self)@.ships == old(self)@.ships.update(
                old(self)@.ship_index(h),
                ShipEntryModel { controlled: false, ..old(self)@.ship(h) },
            ),
            !old(self)@.has_ship(h) ==> final(self)@.ships == old(self)@.ships,
            final(self)@.bullets == old(self)@.bullets,
            final(self)@.effects == old(self)@.effects,
            final(self)@.codes == old(self)@.codes,
            final(self)@.next_ship == old(self)@.next_ship,
            final(self)@.next_bullet == old(self)@.next_bullet,
            final(self)@.tick == old(self)@.tick,
    {
        let ghost m0 = self@;
        let ghost text = message@;
        self.errors.push(message);
        proof {
            assert(self@.errors =~= m0.errors.push(text));
            assert(self@.ships =~= m0.ships);
            assert(self@.bullets == m0.bullets);
            assert(self@.wf());
        }
        let ghost m1 = self@;
        if let Some(i) = self.find_ship(h) {
            self.ships[i].controlled = false;
            proof {
                let t = m1.ships.update(i as int, ShipEntryModel { controlled: false, ..m1.ships[i as int] });
                assert(self@.ships =~= t);
                assert forall|a: int| 0 <= a < t.len() implies (#[trigger] t[a]).handle == m1.ships[a].handle
                    && t[a].data == m1.ships[a].data by {}
                assert(self@.wf());
            }
        }
    }
}

} // verus!

verus! {

impl Simulation {
    /// Hands `target` to the controller of ship `h`, when that ship is live and has one.
    pub fn write_target(&mut self, h: ShipHandle, target: Vec2)
        requires
            old(self)@.wf(),
        ensures
            final(self)@ == if old(self)@.has_ship(h) && old(self)@.ship(h).controlled {
                old(self)@.with_effect(Effect::WriteTarget { handle: h, target })
            } else {
                old(self)@
            },
            final(self)@.wf(),
    {
        if let Some(i) = self.find_ship(h) {
            if self.ships[i].controlled {
                self.effects.push(Effect::WriteTarget { handle: h, target });
            }
        }
    }
}

} // verus!

verus! {

/// The world after one physics tick per entry of `contacts`, each entry being the
/// contacts the engine reported for that tick.
pub open spec fn run(m: SimModel, contacts: Seq<Seq<Hit>>) -> SimModel
    decreases contacts.len(),
{
    if contacts.len() == 0 {
        m
    } else {
        run(step_spec(m, contacts[0]), contacts.drop_first())
    }
}

/// Ticking ships leaves the bullets alone.
proof fn lemma_tick_all_bullets(m: SimModel, hs: Seq<ShipHandle>)
    ensures
        tick_all(m, hs).bullets == m.bullets,
    decreases hs.len(),
{
    if hs.len() > 0 {
        lemma_tick_all_bullets(m, hs.drop_last());
    }
}

/// Resolving contacts only removes bullets, so a bound on their lifetimes holds on.
proof fn lemma_apply_hits_ttl(m: SimModel, hits: Seq<Hit>, x: int)
    requires
        forall|i: int| 0 <= i < m.bullets.len() ==> (#[trigger] m.bullets[i]).ttl <= x,
    ensures
        forall|i: int|
            0 <= i < apply_hits(m, hits).bullets.len() ==> (#[trigger] apply_hits(
                m,
                hits,
            ).bullets[i]).ttl <= x,
    decreases hits.len(),
{
    if hits.len() > 0 {
        let p = apply_hits(m, hits.drop_last());
        lemma_apply_hits_ttl(m, hits.drop_last(), x);
        let hit = hits.last();
        if p.has_bullet(hit.bullet) {
            let k = p.bullet_index(hit.bullet);
            let r = apply_hits(m, hits);
            assert(r.bullets == p.bullets.remove(k));
            assert forall|i: int| 0 <= i < r.bullets.len() implies (#[trigger] r.bullets[i]).ttl <= x by {
                if i < k {
                    assert(r.bullets[i] == p.bullets[i]);
                } else {
                    assert(r.bullets[i] == p.bullets[i + 1]);
                }
            }
        }
    }
}

/// After one tick every bullet has time left, and one tick less than the bound
/// `x` that held before.
pub proof fn lemma_step_ages_bullets(m: SimModel, hits: Seq<Hit>, x: int)
    requires
        forall|i: int| 0 <= i < m.bullets.len() ==> (#[trigger] m.bullets[i]).ttl <= x,
    ensures
        forall|i: int|
            0 <= i < step_spec(m, hits).bullets.len() ==> 0 < (#[trigger] step_spec(
                m,
                hits,
            ).bullets[i]).ttl <= x - PHYSICS_TICK_LENGTH,
{
    let t = tick_all(m, m.ship_handles());
    lemma_tick_all_bullets(m, m.ship_handles());
    lemma_apply_hits_ttl(t, hits, x);
    lemma_aged_bounds(apply_hits(t, hits).bullets, x);
}

/// After `n >= 1` ticks with no new bullets, every bullet has time left, and at
/// most its lifetime less `n` ticks.
pub proof fn lemma_run_ages_bullets(m: SimModel, contacts: Seq<Seq<Hit>>, x: int)
    requires
        contacts.len() >= 1,
        forall|i: int| 0 <= i < m.bullets.len() ==> (#[trigger] m.bullets[i]).ttl <= x,
    ensures
        forall|i: int|
            0 <= i < run(m, contacts).bullets.len() ==> 0 < (#[trigger] run(
                m,
                contacts,
            ).bullets[i]).ttl <= x - contacts.len() * PHYSICS_TICK_LENGTH,
    decreases contacts.len(),
{
    let m1 = step_spec(m, contacts[0]);
    lemma_step_ages_bullets(m, contacts[0], x);
    assert(run(m, contacts) == run(m1, contacts.drop_first()));
    if contacts.len() > 1 {
        lemma_run_ages_bullets(m1, contacts.drop_first(), x - PHYSICS_TICK_LENGTH);
    } else {
        assert(contacts.drop_first().len() == 0);
        assert(run(m1, contacts.drop_first()) == m1);
    }
}

/// Once as many ticks as a bullet's lifetime have passed without new bullets, no
/// bullet is left, whatever the contacts were.
pub proof fn lemma_bullets_run_out(m: SimModel, contacts: Seq<Seq<Hit>>)
    requires
        m.wf(),
        contacts.len() >= BULLET_LIFETIME / PHYSICS_TICK_LENGTH,
    ensures
        run(m, contacts).bullets.len() == 0,
{
    lemma_run_ages_bullets(m, contacts, BULLET_LIFETIME as int);
    let r = run(m, contacts);
    if r.bullets.len() > 0 {
        assert(0 < r.bullets[0].ttl <= BULLET_LIFETIME - contacts.len() * PHYSICS_TICK_LENGTH);
        assert(contacts.len() * PHYSICS_TICK_LENGTH >= BULLET_LIFETIME) by (nonlinear_arith)
            requires
                contacts.len() >= 600,
        ;
    }
}

} // verus!

verus! {

/// Whether two worlds hold the same ships and the same bullets; their effect
/// queues, error logs, codes and counters may differ.
pub open spec fn same_core(a: SimModel, b: SimModel) -> bool {
    a.ships == b.ships && a.bullets == b.bullets
}

proof fn lemma_tick_all_core(a: SimModel, b: SimModel, hs: Seq<ShipHandle>)
    requires
        same_core(a, b),
    ensures
        same_core(tick_all(a, hs), tick_all(b, hs)),
    decreases hs.len(),
{
    if hs.len() > 0 {
        lemma_tick_all_core(a, b, hs.drop_last());
    }
}

proof fn lemma_apply_hits_core(a: SimModel, b: SimModel, hits: Seq<Hit>)
    requires
        same_core(a, b),
    ensures
        same_core(apply_hits(a, hits), apply_hits(b, hits)),
    decreases hits.len(),
{
    if hits.len() > 0 {
        lemma_apply_hits_core(a, b, hits.drop_last());
    }
}

/// The ships and bullets after a tick depend only on the ships and bullets before
/// it and on the contacts.
pub proof fn lemma_step_core(a: SimModel, b: SimModel, hits: Seq<Hit>)
    requires
        same_core(a, b),
    ensures
        same_core(step_spec(a, hits), step_spec(b, hits)),
{
    assert(a.ship_handles() == b.ship_handles());
    lemma_tick_all_core(a, b, a.ship_handles());
    lemma_apply_hits_core(tick_all(a, a.ship_handles()), tick_all(b, b.ship_handles()), hits);
}

/// Runs from worlds with the same ships and bullets, fed the same contacts, keep
/// the same ships and bullets.
pub proof fn lemma_run_core(a: SimModel, b: SimModel, contacts: Seq<Seq<Hit>>)
    requires
        same_core(a, b),
    ensures
        same_core(run(a, contacts), run(b, contacts)),
    decreases contacts.len(),
{
    if contacts.len() > 0 {
        lemma_step_core(a, b, contacts[0]);
        lemma_run_core(step_spec(a, contacts[0]), step_spec(b, contacts[0]), contacts.drop_first());
    }
}

} // verus!
