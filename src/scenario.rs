//! Scenarios: initial conditions, per-tick rules and the outcome of a match.

use vstd::prelude::*;

use rand::rngs::StdRng;

use crate::collision::{wall_groups_spec, wall_interaction_groups};
use crate::ship::{
    asteroid_model, fighter_model, target_model, ShipClass, ShipData, ShipHandle, ShipModel,
};
use crate::rng::{choose_item, gen_range, new_rng};
use crate::ship::{asteroid, fighter, target};
use crate::simulation::{
    lemma_bullets_run_out, lemma_run_core, run, same_core, Bullet, BulletData, BulletHandle, Effect, Hit, Placement, ShipEntryModel, SimModel,
    Simulation, BULLET_LIFETIME,
};
use crate::units::{
    FULL_TURN, HALF_TURN, HALF_WORLD_SIZE, PHYSICS_TICK_LENGTH, QUARTER_TURN, THREE_QUARTER_TURN, WORLD_SIZE,
};
use crate::vector::Vec2;

verus! {

#[derive(PartialEq, Eq, Structural, Clone, Copy, Debug, Hash)]
pub enum Status {
    Running,
    Victory { team: i32 },
    Failed,
    Draw,
}

/// Ships that count for victory: everything but missiles.
pub open spec fn contender(e: ShipEntryModel) -> bool {
    e.data.class != ShipClass::Missile
}

/// Whether some contender is among `ships` and every contender is of team `team`.
pub open spec fn sole_team(ships: Seq<ShipEntryModel>, team: i32) -> bool {
    &&& exists|i: int|
        0 <= i < ships.len() && contender(#[trigger] ships[i]) && ships[i].data.team == team
    &&& forall|i: int|
        0 <= i < ships.len() && contender(#[trigger] ships[i]) ==> ships[i].data.team == team
}

pub open spec fn no_contender(ships: Seq<ShipEntryModel>) -> bool {
    forall|i: int| 0 <= i < ships.len() ==> !contender(#[trigger] ships[i])
}

/// The shared victory rule: no contender left means victory of team 0, contenders
/// of a single team mean that team's victory, and anything else is still running.
pub open spec fn victory_spec(m: SimModel) -> Status {
    if no_contender(m.ships) {
        Status::Victory { team: 0 }
    } else if exists|t: i32| sole_team(m.ships, t) {
        Status::Victory { team: choose|t: i32| sole_team(m.ships, t) }
    } else {
        Status::Running
    }
}

/// A tutorial is won only by the player's team 0: any other victory fails it.
pub open spec fn tutorial_spec(s: Status) -> Status {
    match s {
        Status::Victory { team } => if team == 0 {
            s
        } else {
            Status::Failed
        },
        _ => s,
    }
}

pub fn check_victory(sim: &Simulation) -> (r: Status)
    ensures
        r == victory_spec(sim@),
{
    let ghost m = sim@;
    let mut first: Option<i32> = None;
    let mut mixed = false;
    let mut i: usize = 0;
    while i < sim.ships.len()
        invariant
            m == sim@,
            i <= m.ships.len(),
            first.is_none() ==> forall|j: int| 0 <= j < i ==> !contender(#[trigger] m.ships[j]),
            first.is_none() ==> !mixed,
            first.is_some() ==> exists|j: int|
                0 <= j < i && contender(#[trigger] m.ships[j]) && m.ships[j].data.team
                    == first.unwrap(),
            first.is_some() ==> (mixed <==> exists|j: int|
                0 <= j < i && contender(#[trigger] m.ships[j]) && m.ships[j].data.team
                    != first.unwrap()),
        decreases m.ships.len() - i,
    {
        assert(m.ships[i as int] == sim.ships@[i as int]@);
        let is_contender = match sim.ships[i].data.class {
            ShipClass::Missile => false,
            _ => true,
        };
        if is_contender {
            let team = sim.ships[i].data.team;
            match first {
                None => {
                    first = Some(team);
                    assert(contender(m.ships[i as int]));
                },
                Some(t) => {
                    if team != t {
                        mixed = true;
                    }
                },
            }
        }
        i = i + 1;
    }
    match first {
        None => Status::Victory { team: 0 },
        Some(t) => {
            if mixed {
                proof {
                    assert(!no_contender(m.ships));
                    if exists|t2: i32| sole_team(m.ships, t2) {
                        let t2 = choose|t2: i32| sole_team(m.ships, t2);
                        let a = choose|j: int|
                            0 <= j < m.ships.len() && contender(#[trigger] m.ships[j])
                                && m.ships[j].data.team == t;
                        let b = choose|j: int|
                            0 <= j < m.ships.len() && contender(#[trigger] m.ships[j])
                                && m.ships[j].data.team != t;
                        assert(m.ships[a].data.team == t2);
                        assert(m.ships[b].data.team == t2);
                    }
                }
                Status::Running
            } else {
                proof {
                    assert(sole_team(m.ships, t));
                    assert(!no_contender(m.ships));
                    let t2 = choose|t2: i32| sole_team(m.ships, t2);
                    let a = choose|j: int|
                        0 <= j < m.ships.len() && contender(#[trigger] m.ships[j])
                            && m.ships[j].data.team == t;
                    assert(m.ships[a].data.team == t2);
                }
                Status::Victory { team: t }
            }
        },
    }
}

pub fn check_tutorial_victory(sim: &Simulation) -> (r: Status)
    ensures
        r == tutorial_spec(victory_spec(sim@)),
{
    match check_victory(sim) {
        Status::Victory { team } => {
            if team == 0 {
                Status::Victory { team: 0 }
            } else {
                Status::Failed
            }
        },
        s => s,
    }
}

/// The victory rule case by case: no contender gives victory to team 0, contenders
/// of one team give that team victory, contenders of two teams keep it running.
pub proof fn lemma_victory_cases(m: SimModel)
    ensures
        no_contender(m.ships) ==> victory_spec(m) == (Status::Victory { team: 0 }),
        forall|t: i32| #[trigger] sole_team(m.ships, t) ==> victory_spec(m) == (Status::Victory { team: t }),
        (exists|a: int, b: int|
            0 <= a < m.ships.len() && 0 <= b < m.ships.len() && contender(#[trigger] m.ships[a])
                && contender(#[trigger] m.ships[b]) && m.ships[a].data.team != m.ships[b].data.team)
            ==> victory_spec(m) == Status::Running,
{
    assert forall|t: i32| #[trigger] sole_team(m.ships, t) implies victory_spec(m) == (Status::Victory { team: t }) by {
        let a = choose|j: int|
            0 <= j < m.ships.len() && contender(#[trigger] m.ships[j]) && m.ships[j].data.team == t;
        assert(!no_contender(m.ships));
        let t2 = choose|t2: i32| sole_team(m.ships, t2);
        assert(m.ships[a].data.team == t2);
    }
    if exists|a: int, b: int|
        0 <= a < m.ships.len() && 0 <= b < m.ships.len() && contender(#[trigger] m.ships[a])
            && contender(#[trigger] m.ships[b]) && m.ships[a].data.team != m.ships[b].data.team {
        let (a, b) = choose|a: int, b: int|
            0 <= a < m.ships.len() && 0 <= b < m.ships.len() && contender(#[trigger] m.ships[a])
                && contender(#[trigger] m.ships[b]) && m.ships[a].data.team != m.ships[b].data.team;
        assert(!no_contender(m.ships));
        if exists|t: i32| sole_team(m.ships, t) {
            let t = choose|t: i32| sole_team(m.ships, t);
            assert(m.ships[a].data.team == t);
            assert(m.ships[b].data.team == t);
        }
    }
}

/// The tutorial rule on each outcome: another team's victory fails the tutorial,
/// team 0's victory and a running game pass unchanged.
pub proof fn lemma_tutorial_outcomes(team: i32)
    ensures
        team != 0 ==> tutorial_spec(Status::Victory { team }) == Status::Failed,
        tutorial_spec(Status::Victory { team: 0 }) == (Status::Victory { team: 0 }),
        tutorial_spec(Status::Running) == Status::Running,
{
}

} // verus!

verus! {

/// A scenario: the initial conditions of a match and the rule that ends it. Each
/// variant carries the state its own rules need.
pub enum Scenario {
    Test,
    Basic,
    Gunnery,
    AsteroidStress,
    BulletStress,
    Welcome { rng: Option<StdRng> },
    Tutorial01,
    Tutorial02 { hit_target: bool },
    Tutorial03 { hit_target: bool, target: Option<Vec2> },
    Tutorial04,
    Tutorial05 { ship_handle: Option<ShipHandle>, target_handle: Option<ShipHandle> },
    Tutorial06,
    Tutorial07,
    Tutorial08,
    Tutorial09,
    Duel,
}

/// The names under which scenarios are registered.
pub open spec fn registered(name: Seq<char>) -> bool {
    ||| name == "test"@
    ||| name == "basic"@
    ||| name == "gunnery"@
    ||| name == "asteroid-stress"@
    ||| name == "bullet-stress"@
    ||| name == "welcome"@
    ||| name == "tutorial01"@
    ||| name == "tutorial02"@
    ||| name == "tutorial03"@
    ||| name == "tutorial04"@
    ||| name == "tutorial05"@
    ||| name == "tutorial06"@
    ||| name == "tutorial07"@
    ||| name == "tutorial08"@
    ||| name == "tutorial09"@
    ||| name == "duel"@
}

/// The scenarios offered to players, in menu order.
pub open spec fn list_spec() -> Seq<Seq<char>> {
    seq![
        "welcome"@,
        "tutorial01"@,
        "tutorial02"@,
        "tutorial03"@,
        "tutorial04"@,
        "tutorial05"@,
        "tutorial06"@,
        "tutorial07"@,
        "tutorial08"@,
        "tutorial09"@,
        "gunnery"@,
        "duel"@,
    ]
}

/// Whether `a` and `b` hold the same characters.
fn same_name(a: &str, b: &str) -> (r: bool)
    ensures
        r == (a@ == b@),
{
    a.to_owned() == b.to_owned()
}

impl Scenario {
    pub open spec fn name_spec(&self) -> Seq<char> {
        match self {
            Scenario::Test => "test"@,
            Scenario::Basic => "basic"@,
            Scenario::Gunnery => "gunnery"@,
            Scenario::AsteroidStress => "asteroid-stress"@,
            Scenario::BulletStress => "bullet-stress"@,
            Scenario::Welcome { .. } => "welcome"@,
            Scenario::Tutorial01 => "tutorial01"@,
            Scenario::Tutorial02 { .. } => "tutorial02"@,
            Scenario::Tutorial03 { .. } => "tutorial03"@,
            Scenario::Tutorial04 => "tutorial04"@,
            Scenario::Tutorial05 { .. } => "tutorial05"@,
            Scenario::Tutorial06 => "tutorial06"@,
            Scenario::Tutorial07 => "tutorial07"@,
            Scenario::Tutorial08 => "tutorial08"@,
            Scenario::Tutorial09 => "tutorial09"@,
            Scenario::Duel => "duel"@,
        }
    }

    /// The state a scenario starts in, before `init`.
    pub open spec fn is_fresh(&self) -> bool {
        match self {
            Scenario::Welcome { rng } => rng.is_none(),
            Scenario::Tutorial02 { hit_target } => !*hit_target,
            Scenario::Tutorial03 { hit_target, target } => !*hit_target && target.is_none(),
            Scenario::Tutorial05 { ship_handle, target_handle } => ship_handle.is_none()
                && target_handle.is_none(),
            _ => true,
        }
    }

    /// What the scenario reports for the world `m`.
    pub open spec fn status_spec(&self, m: SimModel) -> Status {
        match self {
            Scenario::Test => Status::Running,
            Scenario::Welcome { .. } => Status::Running,
            Scenario::Basic => victory_spec(m),
            Scenario::Duel => victory_spec(m),
            Scenario::BulletStress => if m.bullets.len() == 0 {
                Status::Victory { team: 0 }
            } else {
                Status::Running
            },
            Scenario::Tutorial02 { hit_target } => if *hit_target {
                Status::Victory { team: 0 }
            } else {
                Status::Running
            },
            Scenario::Tutorial03 { hit_target, .. } => if *hit_target {
                Status::Victory { team: 0 }
            } else {
                Status::Running
            },
            _ => tutorial_spec(victory_spec(m)),
        }
    }

    pub open spec fn next_spec(&self) -> Option<Seq<char>> {
        match self {
            Scenario::Tutorial01 => Some("tutorial02"@),
            Scenario::Tutorial02 { .. } => Some("tutorial03"@),
            Scenario::Tutorial03 { .. } => Some("tutorial04"@),
            Scenario::Tutorial04 => Some("tutorial05"@),
            Scenario::Tutorial05 { .. } => Some("tutorial06"@),
            Scenario::Tutorial06 => Some("tutorial07"@),
            Scenario::Tutorial07 => Some("tutorial08"@),
            Scenario::Tutorial08 => Some("tutorial09"@),
            _ => None,
        }
    }

    /// The stable name the scenario is registered under.
    pub fn name(&self) -> (r: String)
        ensures
            r@ == self.name_spec(),
    {
        match self {
            Scenario::Test => "test".to_owned(),
            Scenario::Basic => "basic".to_owned(),
            Scenario::Gunnery => "gunnery".to_owned(),
            Scenario::AsteroidStress => "asteroid-stress".to_owned(),
            Scenario::BulletStress => "bullet-stress".to_owned(),
            Scenario::Welcome { .. } => "welcome".to_owned(),
            Scenario::Tutorial01 => "tutorial01".to_owned(),
            Scenario::Tutorial02 { .. } => "tutorial02".to_owned(),
            Scenario::Tutorial03 { .. } => "tutorial03".to_owned(),
            Scenario::Tutorial04 => "tutorial04".to_owned(),
            Scenario::Tutorial05 { .. } => "tutorial05".to_owned(),
            Scenario::Tutorial06 => "tutorial06".to_owned(),
            Scenario::Tutorial07 => "tutorial07".to_owned(),
            Scenario::Tutorial08 => "tutorial08".to_owned(),
            Scenario::Tutorial09 => "tutorial09".to_owned(),
            Scenario::Duel => "duel".to_owned(),
        }
    }

    /// The outcome of the match in the world `sim`.
    pub fn status(&self, sim: &Simulation) -> (r: Status)
        ensures
            r == self.status_spec(sim@),
    {
        match self {
            Scenario::Test => Status::Running,
            Scenario::Welcome { .. } => Status::Running,
            Scenario::Basic => check_victory(sim),
            Scenario::Duel => check_victory(sim),
            Scenario::BulletStress => {
                if sim.bullets.len() == 0 {
                    Status::Victory { team: 0 }
                } else {
                    Status::Running
                }
            },
            Scenario::Tutorial02 { hit_target } => {
                if *hit_target {
                    Status::Victory { team: 0 }
                } else {
                    Status::Running
                }
            },
            Scenario::Tutorial03 { hit_target, .. } => {
                if *hit_target {
                    Status::Victory { team: 0 }
                } else {
                    Status::Running
                }
            },
            _ => check_tutorial_victory(sim),
        }
    }

    /// The tutorial that follows this one, if any.
    pub fn next_scenario(&self) -> (r: Option<String>)
        ensures
            r.is_some() == self.next_spec().is_some(),
            r.is_some() ==> r.unwrap()@ == self.next_spec().unwrap(),
    {
        match self {
            Scenario::Tutorial01 => Some("tutorial02".to_owned()),
            Scenario::Tutorial02 { .. } => Some("tutorial03".to_owned()),
            Scenario::Tutorial03 { .. } => Some("tutorial04".to_owned()),
            Scenario::Tutorial04 => Some("tutorial05".to_owned()),
            Scenario::Tutorial05 { .. } => Some("tutorial06".to_owned()),
            Scenario::Tutorial06 => Some("tutorial07".to_owned()),
            Scenario::Tutorial07 => Some("tutorial08".to_owned()),
            Scenario::Tutorial08 => Some("tutorial09".to_owned()),
            _ => None,
        }
    }

    /// The code shown to the player when the scenario opens.
    pub fn initial_code(&self) -> (r: String)
        ensures
            self is Welcome ==> r@ == WELCOME_CODE@,
            !(self is Welcome) ==> r@.len() == 0,
    {
        match self {
            Scenario::Welcome { .. } => WELCOME_CODE.to_owned(),
            _ => String::new(),
        }
    }

    /// A reference solution, when the scenario ships one.
    pub fn solution(&self) -> (r: String)
        ensures
            r@.len() == 0,
    {
        String::new()
    }

    /// The goal circle a tutorial asks the player to reach, with whether it was
    /// reached: its centre and radius in thousandths of a metre.
    pub fn target_marker(&self) -> (r: Option<(Vec2, i64, bool)>)
        ensures
            r == match self {
                Scenario::Tutorial02 { hit_target } => Some(
                    (Vec2 { x: 200_000, y: 0 }, TARGET_RADIUS, *hit_target),
                ),
                Scenario::Tutorial03 { hit_target, target } => match target {
                    Some(t) => Some((*t, TARGET_RADIUS, *hit_target)),
                    None => None,
                },
                _ => None,
            },
    {
        match self {
            Scenario::Tutorial02 { hit_target } => Some((Vec2 { x: 200_000, y: 0 }, TARGET_RADIUS, *hit_target)),
            Scenario::Tutorial03 { hit_target, target } => match target {
                Some(t) => Some((*t, TARGET_RADIUS, *hit_target)),
                None => None,
            },
            _ => None,
        }
    }
}

/// The code the welcome screen opens with.
pub const WELCOME_CODE: &'static str =
    "// Welcome to Oort.\n// Select a scenario from the list in the top-right of the page.\n// If you're new, start with \"tutorial01\".";

/// Radius of a tutorial's goal circle: 50 m.
pub const TARGET_RADIUS: i64 = 50_000;

/// The scenario registered under `name`; the name must be registered.
pub fn load(name: &str) -> (r: Scenario)
    requires
        registered(name@),
    ensures
        r.name_spec() == name@,
        r.is_fresh(),
{
    match load_safe(name) {
        Some(s) => s,
        None => {
            assert(false);
            Scenario::Test
        },
    }
}

/// The scenario registered under `name`, or `None` for an unknown name.
pub fn load_safe(name: &str) -> (r: Option<Scenario>)
    ensures
        r.is_some() == registered(name@),
        r.is_some() ==> r.unwrap().name_spec() == name@ && r.unwrap().is_fresh(),
{
    if same_name(name, "test") {
        Some(Scenario::Test)
    } else if same_name(name, "basic") {
        Some(Scenario::Basic)
    } else if same_name(name, "gunnery") {
        Some(Scenario::Gunnery)
    } else if same_name(name, "asteroid-stress") {
        Some(Scenario::AsteroidStress)
    } else if same_name(name, "bullet-stress") {
        Some(Scenario::BulletStress)
    } else if same_name(name, "welcome") {
        Some(Scenario::Welcome { rng: None })
    } else if same_name(name, "tutorial01") {
        Some(Scenario::Tutorial01)
    } else if same_name(name, "tutorial02") {
        Some(Scenario::Tutorial02 { hit_target: false })
    } else if same_name(name, "tutorial03") {
        Some(Scenario::Tutorial03 { hit_target: false, target: None })
    } else if same_name(name, "tutorial04") {
        Some(Scenario::Tutorial04)
    } else if same_name(name, "tutorial05") {
        Some(Scenario::Tutorial05 { ship_handle: None, target_handle: None })
    } else if same_name(name, "tutorial06") {
        Some(Scenario::Tutorial06)
    } else if same_name(name, "tutorial07") {
        Some(Scenario::Tutorial07)
    } else if same_name(name, "tutorial08") {
        Some(Scenario::Tutorial08)
    } else if same_name(name, "tutorial09") {
        Some(Scenario::Tutorial09)
    } else if same_name(name, "duel") {
        Some(Scenario::Duel)
    } else {
        None
    }
}

/// The scenarios offered to players, in menu order.
pub fn list() -> (r: Vec<String>)
    ensures
        r@.map_values(|s: String| s@) == list_spec(),
{
    let mut r: Vec<String> = Vec::new();
    r.push("welcome".to_owned());
    r.push("tutorial01".to_owned());
    r.push("tutorial02".to_owned());
    r.push("tutorial03".to_owned());
    r.push("tutorial04".to_owned());
    r.push("tutorial05".to_owned());
    r.push("tutorial06".to_owned());
    r.push("tutorial07".to_owned());
    r.push("tutorial08".to_owned());
    r.push("tutorial09".to_owned());
    r.push("gunnery".to_owned());
    r.push("duel".to_owned());
    assert(r@.map_values(|s: String| s@) =~= list_spec());
    r
}

/// Every scenario offered to players is registered.
pub proof fn lemma_listed_are_registered(i: int)
    requires
        0 <= i < list_spec().len(),
    ensures
        registered(list_spec()[i]),
{
}

} // verus!

verus! {

/// Handles that a scenario's set-up may hand out, of ships and of bullets alike.
pub const SETUP_HANDLES: u64 = 4096;

/// Thickness of the arena walls: 10 m.
pub const WALL_WIDTH: i64 = 10_000;

/// The four walls along the arena's edges, as queued for the physics engine.
pub open spec fn walls_spec() -> Seq<Effect> {
    let wall = |position: Vec2, angle: i64|
        Effect::InsertWall {
            position,
            angle,
            length: WORLD_SIZE,
            width: WALL_WIDTH,
            restitution: 1000,
            groups: wall_groups_spec(),
        };
    seq![
        wall(Vec2 { x: 0, y: HALF_WORLD_SIZE }, 0),
        wall(Vec2 { x: 0, y: (-HALF_WORLD_SIZE) as i64 }, HALF_TURN),
        wall(Vec2 { x: HALF_WORLD_SIZE, y: 0 }, QUARTER_TURN),
        wall(Vec2 { x: (-HALF_WORLD_SIZE) as i64, y: 0 }, THREE_QUARTER_TURN),
    ]
}

/// Places four static walls, one along each edge of the arena, that bounce
/// everything back.
pub fn add_walls(sim: &mut Simulation)
    requires
        old(sim)@.wf(),
    ensures
        final(sim)@ == (SimModel { effects: old(sim)@.effects + walls_spec(), ..old(sim)@ }),
        final(sim)@.wf(),
{
    let ghost m0 = sim@;
    let groups = wall_interaction_groups();
    sim.effects.push(
        Effect::InsertWall {
            position: Vec2 { x: 0, y: HALF_WORLD_SIZE },
            angle: 0,
            length: WORLD_SIZE,
            width: WALL_WIDTH,
            restitution: 1000,
            groups,
        },
    );
    sim.effects.push(
        Effect::InsertWall {
            position: Vec2 { x: 0, y: -HALF_WORLD_SIZE },
            angle: HALF_TURN,
            length: WORLD_SIZE,
            width: WALL_WIDTH,
            restitution: 1000,
            groups,
        },
    );
    sim.effects.push(
        Effect::InsertWall {
            position: Vec2 { x: HALF_WORLD_SIZE, y: 0 },
            angle: QUARTER_TURN,
            length: WORLD_SIZE,
            width: WALL_WIDTH,
            restitution: 1000,
            groups,
        },
    );
    sim.effects.push(
        Effect::InsertWall {
            position: Vec2 { x: -HALF_WORLD_SIZE, y: 0 },
            angle: THREE_QUARTER_TURN,
            length: WORLD_SIZE,
            width: WALL_WIDTH,
            restitution: 1000,
            groups,
        },
    );
    assert(sim@.effects =~= m0.effects + walls_spec());
    assert(sim@.ships =~= m0.ships);
}

/// `m1` keeps the ships of `m0` and appends `n` more, each fitting the roster of
/// `s` at its place and placed where `s` puts that ship.
pub open spec fn extends(m0: SimModel, m1: SimModel, s: Scenario, n: int) -> bool {
    &&& m1.wf()
    &&& 0 <= n
    &&& m1.ships.len() == m0.ships.len() + n
    &&& m1.next_ship == m0.next_ship + n
    &&& forall|j: int| 0 <= j < m0.ships.len() ==> m1.ships[j] == m0.ships[j]
    &&& forall|j: int|
        0 <= j < n ==> s.fits(j, (#[trigger] m1.ships[m0.ships.len() + j]).data) && s.placed(
            j,
            m1.ships[m0.ships.len() + j].spawn,
        )
}

/// A World placement at the origin, at rest, facing heading 0.
pub open spec fn at_origin(p: Placement) -> bool {
    p == (Placement::World {
        position: Vec2 { x: 0, y: 0 },
        velocity: Vec2 { x: 0, y: 0 },
        heading: 0,
    })
}

/// A World placement at `(x, y)`, at rest, facing `heading`.
pub open spec fn resting_at(p: Placement, x: int, y: int, heading: int) -> bool {
    match p {
        Placement::World { position, velocity, heading: h } => {
            &&& position.x == x
            &&& position.y == y
            &&& velocity == Vec2 { x: 0, y: 0 }
            &&& h == heading
        },
        _ => false,
    }
}

/// A World placement whose position, velocity and heading lie in the given
/// half-open boxes.
pub open spec fn world_within(
    p: Placement,
    x: (int, int),
    y: (int, int),
    vx: (int, int),
    vy: (int, int),
    heading: (int, int),
) -> bool {
    match p {
        Placement::World { position, velocity, heading: h } => {
            &&& x.0 <= position.x < x.1
            &&& y.0 <= position.y < y.1
            &&& vx.0 <= velocity.x < vx.1
            &&& vy.0 <= velocity.y < vy.1
            &&& heading.0 <= h < heading.1
        },
        _ => false,
    }
}

/// A Polar placement at a distance in `radius` from the origin, in any direction
/// of the turn, moving with a speed in `speed` along any course (a speed range of
/// `(0, 1)` means at rest), facing a heading in `heading`.
pub open spec fn polar_within(
    p: Placement,
    radius: (int, int),
    velocity: Vec2,
    speed: (int, int),
    heading: (int, int),
) -> bool {
    match p {
        Placement::Polar { radius: r, angle, velocity: v, speed: sp, course, heading: h } => {
            &&& radius.0 <= r < radius.1
            &&& 0 <= angle < FULL_TURN
            &&& v == velocity
            &&& speed.0 <= sp < speed.1
            &&& (speed == (0int, 1int) ==> course == 0)
            &&& (speed != (0int, 1int) ==> 0 <= course < FULL_TURN)
            &&& heading.0 <= h < heading.1
        },
        _ => false,
    }
}

/// Where an enemy fighter of tutorials 5 and 6 starts: within 500 m of the origin
/// on both axes, any heading, up to 400 m/s on each axis.
pub open spec fn skirmisher(p: Placement) -> bool {
    world_within(
        p,
        (-500_000, 500_000),
        (-500_000, 500_000),
        (-400_000, 400_000),
        (-400_000, 400_000),
        (0, FULL_TURN as int),
    )
}

/// Whether `e` queues bullet `b` of the bullet-stress field: inside the stress
/// square, moving at under 1000 m/s on each axis.
pub open spec fn stress_insert(e: Effect, b: BulletHandle) -> bool {
    match e {
        Effect::InsertBullet { bullet, placement, .. } => {
            &&& bullet == b
            &&& world_within(
                placement,
                (-STRESS_BOUND as int, STRESS_BOUND as int),
                (-STRESS_BOUND as int, STRESS_BOUND as int),
                (-1_000_000, 1_000_000),
                (-1_000_000, 1_000_000),
                (0, 1),
            )
        },
        _ => false,
    }
}

/// Whether `x` is bullet `b` of the bullet-stress field, of 10 hit points for
/// team 0, queued among `effects` with its placement.
pub open spec fn stress_bullet(x: Bullet, b: BulletHandle, effects: Seq<Effect>) -> bool {
    &&& x.handle == b
    &&& x.data == (BulletData { damage: 10_000, team: 0 })
    &&& exists|i: int| 0 <= i < effects.len() && stress_insert(#[trigger] effects[i], b)
}

/// A fighter of team 0 whose guns were taken away.
pub open spec fn unarmed_fighter() -> ShipModel {
    ShipModel { weapons: Seq::empty(), ..fighter_model(0) }
}

impl Scenario {
    /// How many ships the set-up creates.
    pub open spec fn roster_len(&self) -> int {
        match self {
            Scenario::Test => 0,
            Scenario::Basic => 2,
            Scenario::Gunnery => 5,
            Scenario::AsteroidStress => 1001,
            Scenario::BulletStress => 1,
            Scenario::Welcome { .. } => 1,
            Scenario::Tutorial01 => 2,
            Scenario::Tutorial02 { .. } => 1,
            Scenario::Tutorial03 { .. } => 1,
            Scenario::Tutorial04 => 2,
            Scenario::Tutorial05 { .. } => 2,
            Scenario::Tutorial06 => 4,
            Scenario::Tutorial07 => 20,
            Scenario::Tutorial08 => 6,
            Scenario::Tutorial09 => 4,
            Scenario::Duel => 2,
        }
    }

    /// Whether `d` is what the set-up creates as its `k`-th ship.
    pub open spec fn fits(&self, k: int, d: ShipModel) -> bool {
        match self {
            Scenario::Test => false,
            Scenario::Basic => d == fighter_model(k as i32),
            Scenario::Duel => d == fighter_model(k as i32),
            Scenario::Tutorial05 { .. } => d == fighter_model(k as i32),
            Scenario::Gunnery => if k == 0 {
                d == fighter_model(0)
            } else {
                d == target_model(1)
            },
            Scenario::AsteroidStress => if k == 0 {
                d == fighter_model(0)
            } else {
                exists|v: i32| 0 <= v < 30 && d == #[trigger] asteroid_model(v)
            },
            Scenario::Tutorial01 => if k == 0 {
                d == fighter_model(0)
            } else {
                d == asteroid_model(1)
            },
            Scenario::Tutorial04 => if k == 0 {
                d == fighter_model(0)
            } else {
                d == asteroid_model(1)
            },
            Scenario::Tutorial06 => if k == 0 {
                d == fighter_model(0)
            } else {
                d == fighter_model(1)
            },
            Scenario::Tutorial07 => if k < 10 {
                d == fighter_model(0)
            } else {
                d == fighter_model(1)
            },
            Scenario::Tutorial08 => if k < 3 {
                d == fighter_model(0)
            } else {
                d == fighter_model(1)
            },
            Scenario::Tutorial09 => if k == 0 {
                d == unarmed_fighter()
            } else {
                d == fighter_model(1)
            },
            _ => d == fighter_model(0),
        }
    }

    /// Whether `p` is where the set-up places its `k`-th ship.
    pub open spec fn placed(&self, k: int, p: Placement) -> bool {
        match self {
            Scenario::Test => false,
            Scenario::Basic => if k == 0 {
                resting_at(p, -100_000, 0, 0)
            } else {
                resting_at(p, 100_000, 0, HALF_TURN as int)
            },
            Scenario::Duel => if k == 0 {
                resting_at(p, -1_000_000, 0, 0)
            } else {
                resting_at(p, 1_000_000, 0, HALF_TURN as int)
            },
            Scenario::Gunnery => if k == 0 {
                at_origin(p)
            } else {
                world_within(
                    p,
                    (1_500_000, 2_500_000),
                    (-2_500_000, -1_500_000),
                    (-10_000, 10_000),
                    (400_000, 1_000_000),
                    (HALF_TURN as int, HALF_TURN + 1),
                )
            },
            Scenario::AsteroidStress => if k == 0 {
                at_origin(p)
            } else {
                world_within(
                    p,
                    (-STRESS_BOUND as int, STRESS_BOUND as int),
                    (-STRESS_BOUND as int, STRESS_BOUND as int),
                    (-30_000, 30_000),
                    (-30_000, 30_000),
                    (0, FULL_TURN as int),
                )
            },
            Scenario::Tutorial01 => if k == 0 {
                at_origin(p)
            } else {
                resting_at(p, 100_000, 0, 100)
            },
            Scenario::Tutorial04 => if k == 0 {
                at_origin(p)
            } else {
                world_within(p, (-500_000, 500_000), (-500_000, 500_000), (0, 1), (0, 1), (0, 1))
            },
            Scenario::Tutorial05 { .. } => if k == 0 {
                at_origin(p)
            } else {
                skirmisher(p)
            },
            Scenario::Tutorial06 => if k == 0 {
                at_origin(p)
            } else {
                skirmisher(p)
            },
            Scenario::Tutorial07 => if k < 10 {
                world_within(p, (-1_000_000, 0), (-500_000, 500_000), (0, 1), (0, 1), (0, 1))
            } else {
                world_within(
                    p,
                    (0, 1_000_000),
                    (-500_000, 500_000),
                    (0, 1),
                    (0, 1),
                    (HALF_TURN as int, HALF_TURN + 1),
                )
            },
            Scenario::Tutorial08 => if k < 3 {
                polar_within(p, (100_000, 500_000), Vec2 { x: 0, y: 0 }, (0, 1), (0, FULL_TURN as int))
            } else {
                polar_within(
                    p,
                    (3_500_000, 4_500_000),
                    Vec2 { x: 0, y: 0 },
                    (0, 1),
                    (0, FULL_TURN as int),
                )
            },
            Scenario::Tutorial09 => if k == 0 {
                at_origin(p)
            } else {
                polar_within(
                    p,
                    (1_000_000, 1_500_000),
                    Vec2 { x: 0, y: 0 },
                    (0, 300_000),
                    (HALF_TURN as int, HALF_TURN + 1),
                )
            },
            _ => at_origin(p),
        }
    }

    /// How many free bullets the set-up scatters.
    pub open spec fn bullet_count(&self) -> int {
        if self is BulletStress {
            1000
        } else {
            0
        }
    }

    /// Whether the set-up installs built-in code for team `team`.
    pub open spec fn uploads(&self, team: i32) -> bool {
        match self {
            Scenario::Welcome { .. } => team == 0,
            Scenario::Tutorial05 { .. } => team == 1,
            Scenario::Tutorial06 => team == 1,
            Scenario::Tutorial07 => team == 1,
            Scenario::Tutorial08 => team == 1,
            Scenario::Tutorial09 => team == 1,
            Scenario::Duel => team == 1,
            _ => false,
        }
    }

    /// Whether the set-up places the arena walls.
    pub open spec fn has_walls(&self) -> bool {
        !(self is Test)
    }
}

/// `m1` still starts with the effects of `m0` followed by the four walls.
pub open spec fn walled(m0: SimModel, m1: SimModel) -> bool {
    &&& m1.effects.len() >= m0.effects.len() + 4
    &&& m1.effects.subrange(0, m0.effects.len() + 4int) == m0.effects + walls_spec()
}

proof fn lemma_walled_kept(m0: SimModel, m1: SimModel, m2: SimModel)
    requires
        walled(m0, m1),
        m2.effects.len() >= m1.effects.len(),
        m2.effects.subrange(0, m1.effects.len() as int) == m1.effects,
    ensures
        walled(m0, m2),
{
    let n: int = m0.effects.len() + 4int;
    assert(m2.effects.subrange(0, n) =~= m1.effects.subrange(0, n)) by {
        assert forall|i: int| 0 <= i < n implies m2.effects.subrange(0, n)[i] == m1.effects.subrange(0, n)[i] by {
            assert(m2.effects[i] == m2.effects.subrange(0, m1.effects.len() as int)[i]);
        }
    }
}

proof fn lemma_with_ship_prefix(m: SimModel, p: Placement, d: ShipModel)
    ensures
        m.with_ship(p, d).effects.len() >= m.effects.len(),
        m.with_ship(p, d).effects.subrange(0, m.effects.len() as int) == m.effects,
{
    assert(m.with_ship(p, d).effects.subrange(0, m.effects.len() as int) =~= m.effects);
}

/// Creates the `n`-th ship of the roster of `s`.
fn enlist(
    sim: &mut Simulation,
    s: Ghost<Scenario>,
    m0: Ghost<SimModel>,
    n: Ghost<int>,
    placement: Placement,
    data: ShipData,
) -> (r: ShipHandle)
    requires
        extends(m0@, old(sim)@, s@, n@),
        s@.fits(n@, data@),
        s@.placed(n@, placement),
        data.wf(),
        old(sim).next_ship < u64::MAX,
    ensures
        r == ShipHandle(old(sim).next_ship),
        final(sim)@ == old(sim)@.with_ship(placement, data@),
        extends(m0@, final(sim)@, s@, n@ + 1),
        walled(m0@, old(sim)@) ==> walled(m0@, final(sim)@),
        final(sim)@.bullets == old(sim)@.bullets,
        final(sim)@.codes == old(sim)@.codes,
{
    let ghost before = sim@;
    let h = sim.create_ship(placement, data);
    proof {
        lemma_with_ship_prefix(before, placement, data@);
        if walled(m0@, before) {
            lemma_walled_kept(m0@, before, sim@);
        }
        let m1 = sim@;
        let base = m0@.ships.len();
        assert(m1.ships[base + n@].data == data@);
        assert(m1.ships[base + n@].spawn == placement);
        assert forall|j: int| 0 <= j < n@ + 1 implies s@.fits(j, (#[trigger] m1.ships[base + j]).data)
            && s@.placed(j, m1.ships[base + j].spawn) by {
            if j < n@ {
                assert(m1.ships[base + j] == old(sim)@.ships[base + j]);
            }
        }
        assert forall|j: int| 0 <= j < base implies m1.ships[j] == m0@.ships[j] by {
            assert(m1.ships[j] == old(sim)@.ships[j]);
        }
    }
    h
}

/// A World placement with the given coordinates.
fn at(x: i64, y: i64, vx: i64, vy: i64, heading: i64) -> (r: Placement)
    ensures
        r == (Placement::World {
            position: Vec2 { x, y },
            velocity: Vec2 { x: vx, y: vy },
            heading,
        }),
{
    Placement::World { position: Vec2 { x, y }, velocity: Vec2 { x: vx, y: vy }, heading }
}

/// Half the side of the square that stress scenarios fill: 90% of the arena.
pub const STRESS_BOUND: i64 = 4_500_000;

/// During a set-up, hands `target` to the controller of the first ship of the world.
fn aim_first_ship(sim: &mut Simulation, s: Ghost<Scenario>, m0: Ghost<SimModel>, n: Ghost<int>, target: Vec2)
    requires
        extends(m0@, old(sim)@, s@, n@),
    ensures
        extends(m0@, final(sim)@, s@, n@),
        walled(m0@, old(sim)@) ==> walled(m0@, final(sim)@),
        final(sim)@.bullets == old(sim)@.bullets,
        final(sim)@.codes == old(sim)@.codes,
        final(sim).next_bullet == old(sim).next_bullet,
{
    if sim.ships.len() > 0 {
        let h = sim.ships[0].handle;
        let ghost before = sim@;
        sim.write_target(h, target);
        proof {
            keep_after_effect(m0@, s@, n@, before, sim@);
        }
    }
}

/// Queuing an effect keeps a set-up's progress.
proof fn keep_after_effect(m0: SimModel, s: Scenario, n: int, m1: SimModel, m2: SimModel)
    requires
        extends(m0, m1, s, n),
        m2 == m1 || exists|e: Effect| m2 == m1.with_effect(e),
    ensures
        extends(m0, m2, s, n),
        walled(m0, m1) ==> walled(m0, m2),
        m2.bullets == m1.bullets,
        m2.codes == m1.codes,
        m2.next_bullet == m1.next_bullet,
{
    if m2 != m1 {
        let e = choose|e: Effect| m2 == m1.with_effect(e);
        assert(m2.effects.subrange(0, m1.effects.len() as int) =~= m1.effects);
        if walled(m0, m1) {
            lemma_walled_kept(m0, m1, m2);
        }
    }
}

/// Places the walls at the start of a set-up.
fn begin(sim: &mut Simulation, s: Ghost<Scenario>, m0: Ghost<SimModel>)
    requires
        old(sim)@ == m0@,
        m0@.wf(),
    ensures
        extends(m0@, final(sim)@, s@, 0),
        walled(m0@, final(sim)@),
        final(sim)@.bullets == m0@.bullets,
        final(sim)@.codes == m0@.codes,
        final(sim).next_bullet == m0@.next_bullet,
{
    add_walls(sim);
    assert(sim@.ships =~= m0@.ships);
    assert(sim@.effects.subrange(0, m0@.effects.len() + 4int) =~= m0@.effects + walls_spec());
}

/// Installs built-in code for `team` in the middle of a set-up.
fn upload(
    sim: &mut Simulation,
    s: Ghost<Scenario>,
    m0: Ghost<SimModel>,
    n: Ghost<int>,
    team: i32,
    code: &str,
)
    requires
        extends(m0@, old(sim)@, s@, n@),
    ensures
        extends(m0@, final(sim)@, s@, n@),
        walled(m0@, old(sim)@) ==> walled(m0@, final(sim)@),
        final(sim)@.bullets == old(sim)@.bullets,
        final(sim)@.has_code(team),
        forall|t: i32| old(sim)@.has_code(t) ==> final(sim)@.has_code(t),
        final(sim).next_bullet == old(sim).next_bullet,
{
    sim.upload_code(team, code.to_owned());
}

} // verus!

verus! {

impl Scenario {
    /// Populates the world for this scenario; all chance comes from one generator
    /// seeded with `seed`. The set-up creates exactly the roster (`roster_len`,
    /// `fits`), each ship placed where `placed` says, scatters `bullet_count`
    /// bullets of 10 hit points for team 0 inside the stress square,
    /// installs the built-in code of the teams it `uploads`, and starts with the
    /// arena walls where it `has_walls`.
    pub fn init(&mut self, sim: &mut Simulation, seed: u32)
        requires
            old(sim)@.wf(),
            old(sim).next_ship <= u64::MAX - SETUP_HANDLES,
            old(sim).next_bullet <= u64::MAX - SETUP_HANDLES,
        ensures
            final(sim)@.wf(),
            extends(old(sim)@, final(sim)@, *old(self), old(self).roster_len()),
            final(sim)@.bullets.len() == old(sim)@.bullets.len() + old(self).bullet_count(),
            forall|k: int|
                0 <= k < old(self).bullet_count() ==> stress_bullet(
                    #[trigger] final(sim)@.bullets[old(sim)@.bullets.len() + k],
                    BulletHandle((old(sim).next_bullet + k) as u64),
                    final(sim)@.effects,
                ),
            forall|t: i32| old(self).uploads(t) ==> final(sim)@.has_code(t),
            old(self).has_walls() ==> walled(old(sim)@, final(sim)@),
            final(self).name_spec() == old(self).name_spec(),
            (*old(self)) is Tutorial03 ==> ({
                let t = (*final(self))->Tutorial03_target;
                &&& (*final(self))->Tutorial03_hit_target == (*old(self))->Tutorial03_hit_target
                &&& t.is_some()
                &&& -500_000 <= t.unwrap().x < 500_000
                &&& -500_000 <= t.unwrap().y < 500_000
            }),
            (*old(self)) is Tutorial05 ==> (*final(self))->Tutorial05_ship_handle == Some(
                ShipHandle(old(sim).next_ship),
            ) && (*final(self))->Tutorial05_target_handle == Some(
                ShipHandle((old(sim).next_ship + 1) as u64),
            ),
            (*old(self)) is Welcome ==> (*final(self))->Welcome_rng.is_some(),
            !((*old(self)) is Tutorial03 || (*old(self)) is Tutorial05 || (*old(self)) is Welcome)
                ==> *final(self) == *old(self),
    {
        let ghost m0 = sim@;
        let ghost s0 = *self;
        match self {
            Scenario::Test => {
                assert(sim@.ships =~= m0.ships);
            },
            Scenario::Basic => {
                begin(sim, Ghost(s0), Ghost(m0));
                enlist(sim, Ghost(s0), Ghost(m0), Ghost(0), at(-100_000, 0, 0, 0, 0), fighter(0));
                enlist(sim, Ghost(s0), Ghost(m0), Ghost(1), at(100_000, 0, 0, 0, HALF_TURN), fighter(1));
            },
            Scenario::Duel => {
                begin(sim, Ghost(s0), Ghost(m0));
                upload(sim, Ghost(s0), Ghost(m0), Ghost(0), 1, "duel.reference");
                enlist(sim, Ghost(s0), Ghost(m0), Ghost(0), at(-1_000_000, 0, 0, 0, 0), fighter(0));
                enlist(sim, Ghost(s0), Ghost(m0), Ghost(1), at(1_000_000, 0, 0, 0, HALF_TURN), fighter(1));
            },
            Scenario::Gunnery => {
                begin(sim, Ghost(s0), Ghost(m0));
                enlist(sim, Ghost(s0), Ghost(m0), Ghost(0), at(0, 0, 0, 0, 0), fighter(0));
                let mut rng = new_rng(seed);
                let mut k: u64 = 0;
                while k < 4
                    invariant
                    s0 is Gunnery,
                    extends(m0, sim@, s0, 1 + k as int),
                    walled(m0, sim@),
                    sim@.bullets == m0.bullets,
                    sim.next_bullet == m0.next_bullet,
                    m0.next_ship <= u64::MAX - SETUP_HANDLES,
                    m0.wf(),
                    k <= 4,
                    decreases 4 - k,
                {
                    let x = gen_range(&mut rng, 1_500_000, 2_500_000);
                    let y = gen_range(&mut rng, -2_500_000, -1_500_000);
                    let vx = gen_range(&mut rng, -10_000, 10_000);
                    let vy = gen_range(&mut rng, 400_000, 1_000_000);
                    enlist(sim, Ghost(s0), Ghost(m0), Ghost(1 + k as int), at(x, y, vx, vy, HALF_TURN), target(1));
                    k = k + 1;
                }
            },
            Scenario::AsteroidStress => {
                let mut rng = new_rng(seed);
                begin(sim, Ghost(s0), Ghost(m0));
                enlist(sim, Ghost(s0), Ghost(m0), Ghost(0), at(0, 0, 0, 0, 0), fighter(0));
                let mut k: u64 = 0;
                while k < 1000
                    invariant
                    s0 is AsteroidStress,
                    extends(m0, sim@, s0, 1 + k as int),
                    walled(m0, sim@),
                    sim@.bullets == m0.bullets,
                    sim.next_bullet == m0.next_bullet,
                    m0.next_ship <= u64::MAX - SETUP_HANDLES,
                    m0.wf(),
                    k <= 1000,
                    decreases 1000 - k,
                {
                    let x = gen_range(&mut rng, -STRESS_BOUND, STRESS_BOUND);
                    let y = gen_range(&mut rng, -STRESS_BOUND, STRESS_BOUND);
                    let vx = gen_range(&mut rng, -30_000, 30_000);
                    let vy = gen_range(&mut rng, -30_000, 30_000);
                    let h = gen_range(&mut rng, 0, FULL_TURN);
                    let variant = gen_range(&mut rng, 0, 30) as i32;
                    let data = asteroid(variant);
                    assert(s0.fits(1 + k as int, data@));
                    enlist(sim, Ghost(s0), Ghost(m0), Ghost(1 + k as int), at(x, y, vx, vy, h), data);
                    k = k + 1;
                }
            },
            Scenario::BulletStress => {
                let mut rng = new_rng(seed);
                begin(sim, Ghost(s0), Ghost(m0));
                enlist(sim, Ghost(s0), Ghost(m0), Ghost(0), at(0, 0, 0, 0, 0), fighter(0));
                let ghost m1 = sim@;
                let mut k: u64 = 0;
                while k < 1000
                    invariant
                        s0 is BulletStress,
                        extends(m0, sim@, s0, 1),
                        walled(m0, sim@),
                        m0.wf(),
                        m1.bullets == m0.bullets,
                        m0.next_bullet <= u64::MAX - SETUP_HANDLES,
                        sim.next_bullet == m0.next_bullet + k,
                        sim@.bullets.len() == m0.bullets.len() + k,
                        forall|j: int|
                            0 <= j < k ==> stress_bullet(
                                #[trigger] sim@.bullets[m0.bullets.len() + j],
                                BulletHandle((m0.next_bullet + j) as u64),
                                sim@.effects,
                            ),
                        k <= 1000,
                    decreases 1000 - k,
                {
                    let x = gen_range(&mut rng, -STRESS_BOUND, STRESS_BOUND);
                    let y = gen_range(&mut rng, -STRESS_BOUND, STRESS_BOUND);
                    let vx = gen_range(&mut rng, -1_000_000, 1_000_000);
                    let vy = gen_range(&mut rng, -1_000_000, 1_000_000);
                    let ghost before = sim@;
                    sim.spawn_bullet(at(x, y, vx, vy, 0), BulletData { damage: 10_000, team: 0 });
                    proof {
                        assert(sim@.ships =~= before.ships);
                        let n = before.effects.len() as int;
                        assert(stress_insert(sim@.effects[n], BulletHandle((m0.next_bullet + k) as u64)));
                        assert forall|j: int| 0 <= j < k + 1 implies stress_bullet(
                            #[trigger] sim@.bullets[m0.bullets.len() + j],
                            BulletHandle((m0.next_bullet + j) as u64),
                            sim@.effects,
                        ) by {
                            if j < k {
                                assert(sim@.bullets[m0.bullets.len() + j] == before.bullets[m0.bullets.len() + j]);
                                let i = choose|i: int|
                                    0 <= i < before.effects.len() && stress_insert(
                                        #[trigger] before.effects[i],
                                        BulletHandle((m0.next_bullet + j) as u64),
                                    );
                                assert(sim@.effects[i] == before.effects[i]);
                            } else {
                                assert(stress_insert(sim@.effects[n], BulletHandle((m0.next_bullet + j) as u64)));
                            }
                        }
                        assert(sim@.effects.subrange(0, before.effects.len() as int) =~= before.effects);
                        lemma_walled_kept(m0, before, sim@);
                    }
                    k = k + 1;
                }
            },
            Scenario::Welcome { rng } => {
                *rng = Some(new_rng(seed));
                begin(sim, Ghost(s0), Ghost(m0));
                upload(sim, Ghost(s0), Ghost(m0), Ghost(0), 0, "welcome");
                enlist(sim, Ghost(s0), Ghost(m0), Ghost(0), at(0, 0, 0, 0, 0), fighter(0));
            },
            Scenario::Tutorial01 => {
                begin(sim, Ghost(s0), Ghost(m0));
                enlist(sim, Ghost(s0), Ghost(m0), Ghost(0), at(0, 0, 0, 0, 0), fighter(0));
                enlist(sim, Ghost(s0), Ghost(m0), Ghost(1), at(100_000, 0, 0, 0, 100), asteroid(1));
            },
            Scenario::Tutorial02 { .. } => {
                begin(sim, Ghost(s0), Ghost(m0));
                enlist(sim, Ghost(s0), Ghost(m0), Ghost(0), at(0, 0, 0, 0, 0), fighter(0));
                aim_first_ship(sim, Ghost(s0), Ghost(m0), Ghost(1), Vec2 { x: 200_000, y: 0 });
            },
            Scenario::Tutorial03 { hit_target, target } => {
                let mut rng = new_rng(seed);
                let tx = gen_range(&mut rng, -500_000, 500_000);
                let ty = gen_range(&mut rng, -500_000, 500_000);
                *target = Some(Vec2 { x: tx, y: ty });
                begin(sim, Ghost(s0), Ghost(m0));
                enlist(sim, Ghost(s0), Ghost(m0), Ghost(0), at(0, 0, 0, 0, 0), fighter(0));
                aim_first_ship(sim, Ghost(s0), Ghost(m0), Ghost(1), Vec2 { x: tx, y: ty });
            },
            Scenario::Tutorial04 => {
                begin(sim, Ghost(s0), Ghost(m0));
                let mut rng = new_rng(seed);
                let tx = gen_range(&mut rng, -500_000, 500_000);
                let ty = gen_range(&mut rng, -500_000, 500_000);
                enlist(sim, Ghost(s0), Ghost(m0), Ghost(0), at(0, 0, 0, 0, 0), fighter(0));
                aim_first_ship(sim, Ghost(s0), Ghost(m0), Ghost(1), Vec2 { x: tx, y: ty });
                enlist(sim, Ghost(s0), Ghost(m0), Ghost(1), at(tx, ty, 0, 0, 0), asteroid(1));
            },
            Scenario::Tutorial05 { ship_handle, target_handle } => {
                begin(sim, Ghost(s0), Ghost(m0));
                let own = enlist(sim, Ghost(s0), Ghost(m0), Ghost(0), at(0, 0, 0, 0, 0), fighter(0));
                *ship_handle = Some(own);
                let mut rng = new_rng(seed);
                let tx = gen_range(&mut rng, -500_000, 500_000);
                let ty = gen_range(&mut rng, -500_000, 500_000);
                let h = gen_range(&mut rng, 0, FULL_TURN);
                let vx = gen_range(&mut rng, -400_000, 400_000);
                let vy = gen_range(&mut rng, -400_000, 400_000);
                let enemy = enlist(sim, Ghost(s0), Ghost(m0), Ghost(1), at(tx, ty, vx, vy, h), fighter(1));
                *target_handle = Some(enemy);
                let ghost before = sim@;
                sim.write_target(own, Vec2 { x: tx, y: ty });
                proof { keep_after_effect(m0, s0, 2, before, sim@); }
                upload(sim, Ghost(s0), Ghost(m0), Ghost(2), 1, "tutorial05.enemy");
            },
            Scenario::Tutorial06 => {
                begin(sim, Ghost(s0), Ghost(m0));
                enlist(sim, Ghost(s0), Ghost(m0), Ghost(0), at(0, 0, 0, 0, 0), fighter(0));
                let mut rng = new_rng(seed);
                let mut k: u64 = 0;
                while k < 3
                    invariant
                    s0 is Tutorial06,
                    extends(m0, sim@, s0, 1 + k as int),
                    walled(m0, sim@),
                    sim@.bullets == m0.bullets,
                    sim.next_bullet == m0.next_bullet,
                    m0.next_ship <= u64::MAX - SETUP_HANDLES,
                    m0.wf(),
                    k <= 3,
                    decreases 3 - k,
                {
                    let tx = gen_range(&mut rng, -500_000, 500_000);
                    let ty = gen_range(&mut rng, -500_000, 500_000);
                    let h = gen_range(&mut rng, 0, FULL_TURN);
                    let vx = gen_range(&mut rng, -400_000, 400_000);
                    let vy = gen_range(&mut rng, -400_000, 400_000);
                    enlist(sim, Ghost(s0), Ghost(m0), Ghost(1 + k as int), at(tx, ty, vx, vy, h), fighter(1));
                    k = k + 1;
                }
                upload(sim, Ghost(s0), Ghost(m0), Ghost(4), 1, "tutorial06.enemy");
            },
            Scenario::Tutorial07 => {
                begin(sim, Ghost(s0), Ghost(m0));
                upload(sim, Ghost(s0), Ghost(m0), Ghost(0), 1, "tutorial07.enemy");
                let mut rng = new_rng(seed);
                let mut k: u64 = 0;
                while k < 20
                    invariant
                    s0 is Tutorial07,
                    extends(m0, sim@, s0, 0 + k as int),
                    walled(m0, sim@),
                    sim@.bullets == m0.bullets,
                    sim.next_bullet == m0.next_bullet,
                    m0.next_ship <= u64::MAX - SETUP_HANDLES,
                    m0.wf(),
                    k <= 20,
                    sim@.has_code(1),
                    decreases 20 - k,
                {
                    let team: i32 = if k < 10 { 0 } else { 1 };
                    let cx: i64 = if k < 10 { -500_000 } else { 500_000 };
                    let heading: i64 = if k < 10 { 0 } else { HALF_TURN };
                    let ox = gen_range(&mut rng, -500_000, 500_000);
                    let oy = gen_range(&mut rng, -500_000, 500_000);
                    enlist(sim, Ghost(s0), Ghost(m0), Ghost(k as int), at(cx + ox, oy, 0, 0, heading), fighter(team));
                    k = k + 1;
                }
            },
            Scenario::Tutorial08 => {
                begin(sim, Ghost(s0), Ghost(m0));
                upload(sim, Ghost(s0), Ghost(m0), Ghost(0), 1, "tutorial08.enemy");
                let mut rng = new_rng(seed);
                let mut k: u64 = 0;
                while k < 6
                    invariant
                    s0 is Tutorial08,
                    extends(m0, sim@, s0, 0 + k as int),
                    walled(m0, sim@),
                    sim@.bullets == m0.bullets,
                    sim.next_bullet == m0.next_bullet,
                    m0.next_ship <= u64::MAX - SETUP_HANDLES,
                    m0.wf(),
                    k <= 6,
                    sim@.has_code(1),
                    decreases 6 - k,
                {
                    let team: i32 = if k < 3 { 0 } else { 1 };
                    let angle = gen_range(&mut rng, 0, FULL_TURN);
                    let radius = if k < 3 {
                        gen_range(&mut rng, 100_000, 500_000)
                    } else {
                        gen_range(&mut rng, 3_500_000, 4_500_000)
                    };
                    let heading = gen_range(&mut rng, 0, FULL_TURN);
                    let p = Placement::Polar { radius, angle, velocity: Vec2 { x: 0, y: 0 }, speed: 0, course: 0, heading };
                    enlist(sim, Ghost(s0), Ghost(m0), Ghost(k as int), p, fighter(team));
                    k = k + 1;
                }
            },
            Scenario::Tutorial09 => {
                begin(sim, Ghost(s0), Ghost(m0));
                upload(sim, Ghost(s0), Ghost(m0), Ghost(0), 1, "tutorial09.enemy");
                let mut unarmed = fighter(0);
                unarmed.weapons = Vec::new();
                assert(unarmed@ =~= unarmed_fighter());
                enlist(sim, Ghost(s0), Ghost(m0), Ghost(0), at(0, 0, 0, 0, 0), unarmed);
                let mut rng = new_rng(seed);
                let mut k: u64 = 0;
                while k < 3
                    invariant
                    s0 is Tutorial09,
                    extends(m0, sim@, s0, 1 + k as int),
                    walled(m0, sim@),
                    sim@.bullets == m0.bullets,
                    sim.next_bullet == m0.next_bullet,
                    m0.next_ship <= u64::MAX - SETUP_HANDLES,
                    m0.wf(),
                    k <= 3,
                    sim@.has_code(1),
                    decreases 3 - k,
                {
                    let angle = gen_range(&mut rng, 0, FULL_TURN);
                    let radius = gen_range(&mut rng, 1_000_000, 1_500_000);
                    let course = gen_range(&mut rng, 0, FULL_TURN);
                    let speed = gen_range(&mut rng, 0, 300_000);
                    let p = Placement::Polar { radius, angle, velocity: Vec2 { x: 0, y: 0 }, speed, course, heading: HALF_TURN };
                    enlist(sim, Ghost(s0), Ghost(m0), Ghost(1 + k as int), p, fighter(1));
                    k = k + 1;
                }
            },
        }
    }
}

} // verus!

verus! {

/// Whether `p` lies strictly inside the circle of radius `r` around `c`.
pub open spec fn near_spec(p: Vec2, c: Vec2, r: i64) -> bool {
    (p.x - c.x) * (p.x - c.x) + (p.y - c.y) * (p.y - c.y) < r * r
}

pub fn within_radius(p: Vec2, c: Vec2, r: i64) -> (b: bool)
    requires
        r >= 0,
    ensures
        b == near_spec(p, c, r),
{
    let dx: i128 = p.x as i128 - c.x as i128;
    let dy: i128 = p.y as i128 - c.y as i128;
    let rr: i128 = r as i128;
    if dx >= rr || dx <= -rr || dy >= rr || dy <= -rr {
        proof {
            let (a, b, q) = (dx as int, dy as int, rr as int);
            assert(a * a >= q * q || b * b >= q * q) by (nonlinear_arith)
                requires
                    q >= 0,
                    a >= q || a <= -q || b >= q || b <= -q,
            ;
            assert(a * a >= 0 && b * b >= 0) by (nonlinear_arith);
        }
        return false;
    }
    proof {
        let (a, b, q) = (dx as int, dy as int, rr as int);
        assert(a * a < q * q && b * b < q * q && q * q <= 0x4000_0000_0000_0000_0000_0000_0000_0000)
            by (nonlinear_arith)
            requires
                -q < a < q,
                -q < b < q,
                0 <= q <= 0x8000_0000_0000_0000,
        ;
        assert(a * a >= 0 && b * b >= 0) by (nonlinear_arith);
    }
    dx * dx + dy * dy < rr * rr
}

/// Whether the first ship of `m` has reached the circle around `c`.
pub open spec fn first_ship_near(m: SimModel, c: Vec2) -> bool {
    m.ships.len() > 0 && near_spec(m.ships[0].position, c, TARGET_RADIUS)
}

/// The asteroid kinds the welcome screen scatters.
pub open spec fn welcome_variant(v: i32) -> bool {
    v == 1 || v == 6 || v == 14
}

/// Whether `d` is one of the asteroids the welcome screen scatters.
pub open spec fn is_welcome_asteroid(d: ShipModel) -> bool {
    exists|v: i32| welcome_variant(v) && d == #[trigger] asteroid_model(v)
}

/// Where the welcome screen places a new asteroid: 500 to 2000 m from the origin
/// in any direction, drifting at under 30 m/s on each axis, with any heading.
pub open spec fn welcome_spawn(p: Placement) -> bool {
    match p {
        Placement::Polar { radius, angle, velocity, speed, course, heading } => {
            &&& 500_000 <= radius < 2_000_000
            &&& 0 <= angle < FULL_TURN
            &&& -30_000 <= velocity.x < 30_000
            &&& -30_000 <= velocity.y < 30_000
            &&& speed == 0
            &&& course == 0
            &&& 0 <= heading < FULL_TURN
        },
        _ => false,
    }
}

/// Whether `e` is an asteroid the welcome screen added, placed on its ring.
pub open spec fn welcome_arrival(e: ShipEntryModel) -> bool {
    is_welcome_asteroid(e.data) && welcome_spawn(e.spawn)
}

/// Number of ships the welcome screen keeps on the field.
pub const WELCOME_SHIPS: usize = 20;

/// The scenario's own logic after each physics step, from scenario `s0` and world
/// `m0` to `s1` and `m1`: tutorials 2 and 3 record when the player's ship reaches
/// its goal, tutorial 5 steers the player's controller to the enemy, and the
/// welcome screen keeps 20 ships on the field; the others change nothing.
pub open spec fn ticked_by(s0: Scenario, s1: Scenario, m0: SimModel, m1: SimModel) -> bool {
    &&& s1.name_spec() == s0.name_spec()
    &&& s0 is Tutorial02 ==> m1 == m0
        && s1->Tutorial02_hit_target == (s0->Tutorial02_hit_target
        || first_ship_near(m0, Vec2 { x: 200_000, y: 0 }))
    &&& s0 is Tutorial03 ==> m1 == m0
        && s1->Tutorial03_target == s0->Tutorial03_target
        && s1->Tutorial03_hit_target == (s0->Tutorial03_hit_target
        || (s0->Tutorial03_target.is_some() && first_ship_near(m0, s0->Tutorial03_target.unwrap())))
    &&& s0 is Tutorial05 ==> s1 == s0 && ({
        let m = m0;
        let s = s0->Tutorial05_ship_handle;
        let t = s0->Tutorial05_target_handle;
        if m.ships.len() >= 2 && s.is_some() && t.is_some() && m.has_ship(t.unwrap())
            && m.has_ship(s.unwrap()) && m.ship(s.unwrap()).controlled {
            m1 == m.with_effect(
                Effect::WriteTarget {
                    handle: s.unwrap(),
                    target: m.ship(t.unwrap()).position,
                },
            )
        } else {
            m1 == m
        }
    })
    &&& s0 is Welcome ==> ({
        &&& m1.ships.len() >= m0.ships.len()
        &&& forall|j: int| 0 <= j < m0.ships.len() ==> m1.ships[j] == m0.ships[j]
        &&& forall|j: int|
            m0.ships.len() <= j < m1.ships.len() ==> welcome_arrival(
                #[trigger] m1.ships[j],
            )
        &&& m1.bullets == m0.bullets
        &&& (s0->Welcome_rng.is_some() && m0.next_ship <= u64::MAX
            - WELCOME_SHIPS) ==> m1.ships.len() == if m0.ships.len() < WELCOME_SHIPS {
            WELCOME_SHIPS as int
        } else {
            m0.ships.len() as int
        }
        &&& s0->Welcome_rng.is_none() ==> m1 == m0
    })
    &&& !(s0 is Tutorial02 || s0 is Tutorial03 || s0 is Tutorial05
        || s0 is Welcome) ==> m1 == m0 && s1 == s0
}

impl Scenario {
    /// The scenario's own logic after each physics step (see `ticked_by`).
    pub fn tick(&mut self, sim: &mut Simulation)
        requires
            old(sim)@.wf(),
        ensures
            final(sim)@.wf(),
            ticked_by(*old(self), *final(self), old(sim)@, final(sim)@),
    {
        match self {
            Scenario::Tutorial02 { hit_target } => {
                if sim.ships.len() > 0 {
                    assert(sim@.ships[0] == sim.ships@[0]@);
                    if within_radius(sim.ships[0].position, Vec2 { x: 200_000, y: 0 }, TARGET_RADIUS) {
                        *hit_target = true;
                    }
                }
            },
            Scenario::Tutorial03 { hit_target, target } => {
                if let Some(t) = target {
                    if sim.ships.len() > 0 {
                        assert(sim@.ships[0] == sim.ships@[0]@);
                        if within_radius(sim.ships[0].position, *t, TARGET_RADIUS) {
                            *hit_target = true;
                        }
                    }
                }
            },
            Scenario::Tutorial05 { ship_handle, target_handle } => {
                if sim.ships.len() >= 2 {
                    if let (Some(s), Some(t)) = (*ship_handle, *target_handle) {
                        if let Some(ti) = sim.find_ship(t) {
                            if sim.find_ship(s).is_some() {
                                let p = sim.ships[ti].position;
                                sim.write_target(s, p);
                            }
                        }
                    }
                }
            },
            Scenario::Welcome { rng } => {
                let ghost m0 = sim@;
                if let Some(r) = rng {
                    let mut variants: Vec<i32> = Vec::new();
                    variants.push(1);
                    variants.push(6);
                    variants.push(14);
                    while sim.ships.len() < WELCOME_SHIPS && sim.next_ship < u64::MAX
                        invariant
                            m0.wf(),
                            sim@.wf(),
                            variants@ == seq![1i32, 6, 14],
                            sim@.ships.len() >= m0.ships.len(),
                            forall|j: int| 0 <= j < m0.ships.len() ==> sim@.ships[j] == m0.ships[j],
                            forall|j: int|
                                m0.ships.len() <= j < sim@.ships.len() ==> welcome_arrival(
                                    #[trigger] sim@.ships[j],
                                ),
                            sim@.bullets == m0.bullets,
                            sim.next_ship >= m0.next_ship,
                            sim.next_ship - m0.next_ship == sim@.ships.len() - m0.ships.len(),
                            sim@.ships.len() <= if m0.ships.len() < WELCOME_SHIPS {
                                WELCOME_SHIPS as int
                            } else {
                                m0.ships.len() as int
                            },
                        decreases WELCOME_SHIPS - sim@.ships.len(),
                    {
                        let angle = gen_range(r, 0, FULL_TURN);
                        let radius = gen_range(r, 500_000, 2_000_000);
                        let vx = gen_range(r, -30_000, 30_000);
                        let vy = gen_range(r, -30_000, 30_000);
                        let heading = gen_range(r, 0, FULL_TURN);
                        let variant = choose_item(r, variants.as_slice()).unwrap();
                        let ghost before = sim@;
                        let p = Placement::Polar {
                            radius,
                            angle,
                            velocity: Vec2 { x: vx, y: vy },
                            speed: 0,
                            course: 0,
                            heading,
                        };
                        sim.create_ship(p, asteroid(variant));
                        proof {
                            assert(welcome_variant(variant));
                            assert forall|j: int|
                                m0.ships.len() <= j < sim@.ships.len() implies welcome_arrival(
                                    #[trigger] sim@.ships[j],
                                ) by {
                                if j < before.ships.len() {
                                    assert(sim@.ships[j] == before.ships[j]);
                                } else {
                                    assert(sim@.ships[j].data == asteroid_model(variant));
                                    assert(sim@.ships[j].spawn == p);
                                }
                            }
                            assert forall|j: int| 0 <= j < m0.ships.len() implies sim@.ships[j] == m0.ships[j] by {
                                assert(sim@.ships[j] == before.ships[j]);
                            }
                        }
                    }
                }
            },
            _ => {},
        }
    }
}

} // verus!

verus! {

/// The status a scenario reports after each tick of a run: entry `k` is the status
/// after the first `k` entries of `contacts`.
pub open spec fn statuses(s: Scenario, m: SimModel, contacts: Seq<Seq<Hit>>) -> Seq<Status> {
    Seq::new(contacts.len() + 1, |k: int| s.status_spec(run(m, contacts.take(k))))
}

/// Two runs of one scenario from worlds with the same ships and bullets, fed the
/// same contacts, report the same status at every tick: what the engine has yet to
/// carry out, the error log and the installed code never sway the outcome.
pub proof fn lemma_runs_agree(s: Scenario, a: SimModel, b: SimModel, contacts: Seq<Seq<Hit>>)
    requires
        same_core(a, b),
    ensures
        statuses(s, a, contacts) == statuses(s, b, contacts),
{
    assert forall|k: int| 0 <= k < contacts.len() + 1 implies #[trigger] statuses(s, a, contacts)[k]
        == statuses(s, b, contacts)[k] by {
        lemma_run_core(a, b, contacts.take(k));
    }
    assert(statuses(s, a, contacts) =~= statuses(s, b, contacts));
}

/// A bullet-stress match in which nothing fires any more ends in victory for team 0
/// once a bullet's lifetime has passed, whatever the contacts were.
pub proof fn lemma_bullet_stress_ends(m: SimModel, contacts: Seq<Seq<Hit>>)
    requires
        m.wf(),
        contacts.len() >= BULLET_LIFETIME / PHYSICS_TICK_LENGTH,
    ensures
        Scenario::BulletStress.status_spec(run(m, contacts)) == (Status::Victory { team: 0 }),
{
    lemma_bullets_run_out(m, contacts);
}

} // verus!

verus! {

/// Longest match a driver plays, in physics ticks.
pub const MAX_TICKS: u64 = 10_000;

/// Whether a match goes on: it is still running and the tick bound is not reached.
pub fn keeps_running(status: Status, sim: &Simulation) -> (r: bool)
    ensures
        r == (status == Status::Running && sim@.tick < MAX_TICKS),
{
    let running = match status {
        Status::Running => true,
        _ => false,
    };
    running && sim.tick < MAX_TICKS
}

/// The end of a physics tick, once the engine has stepped and its motion has been
/// observed: the scenario's own rule runs first, then the outcome is read from the
/// world that rule left.
pub fn finish_tick(scenario: &mut Scenario, sim: &mut Simulation) -> (r: Status)
    requires
        old(sim)@.wf(),
    ensures
        final(sim)@.wf(),
        ticked_by(*old(scenario), *final(scenario), old(sim)@, final(sim)@),
        r == final(scenario).status_spec(final(sim)@),
{
    scenario.tick(sim);
    scenario.status(sim)
}

} // verus!
