//! Which bodies may touch: collision groups derived from team and class.

use vstd::prelude::*;

use crate::ship::ShipClass;

verus! {

/// Collision filter of one collider, in the form the physics engine consumes: two
/// colliders `a` and `b` interact when `a.memberships & b.filter` and
/// `b.memberships & a.filter` are both non-zero.
#[derive(PartialEq, Eq, Structural, Clone, Copy, Debug)]
pub struct InteractionGroups {
    pub memberships: u32,
    pub filter: u32,
}

/// The engine's filtering rule, as stated above.
pub open spec fn interacts(a: InteractionGroups, b: InteractionGroups) -> bool {
    a.memberships & b.filter != 0 && b.memberships & a.filter != 0
}

/// Number of distinct team slots in the group bitmask.
pub const TEAM_SLOTS: u32 = 15;

/// The bit that walls are members of.
pub const WALL_GROUP: u32 = 1;

/// Teams 0 to 13 have a slot of their own; every other team shares the last slot.
pub open spec fn team_slot_spec(team: i32) -> u32 {
    if 0 <= team < 14 {
        team as u32
    } else {
        14
    }
}

pub fn team_slot(team: i32) -> (r: u32)
    ensures
        r == team_slot_spec(team),
        r < TEAM_SLOTS,
{
    if 0 <= team && team < 14 {
        team as u32
    } else {
        14
    }
}

/// Membership bit of the ships of a team slot.
pub open spec fn ship_bit(slot: u32) -> u32 {
    1u32 << (1u32 + 2u32 * slot)
}

/// Membership bit of the bullets of a team slot.
pub open spec fn bullet_bit(slot: u32) -> u32 {
    1u32 << (2u32 + 2u32 * slot)
}

pub open spec fn wall_groups_spec() -> InteractionGroups {
    InteractionGroups { memberships: WALL_GROUP, filter: u32::MAX }
}

/// Ships ignore their own team's bullets; missiles also ignore their own team's ships.
pub open spec fn ship_groups_spec(team: i32, class: ShipClass) -> InteractionGroups {
    let s = team_slot_spec(team);
    InteractionGroups {
        memberships: ship_bit(s),
        filter: if class == ShipClass::Missile {
            !bullet_bit(s) & !ship_bit(s)
        } else {
            !bullet_bit(s)
        },
    }
}

/// Bullets ignore their own team's ships and bullets.
pub open spec fn bullet_groups_spec(team: i32) -> InteractionGroups {
    let s = team_slot_spec(team);
    InteractionGroups { memberships: bullet_bit(s), filter: !bullet_bit(s) & !ship_bit(s) }
}

/// Walls belong to their own group and interact with everything.
pub fn wall_interaction_groups() -> (r: InteractionGroups)
    ensures
        r == wall_groups_spec(),
{
    InteractionGroups { memberships: WALL_GROUP, filter: u32::MAX }
}

pub fn ship_interaction_groups(team: i32, class: ShipClass) -> (r: InteractionGroups)
    ensures
        r == ship_groups_spec(team, class),
{
    let s = team_slot(team);
    let own_ships: u32 = 1u32 << (1u32 + 2u32 * s);
    let own_bullets: u32 = 1u32 << (2u32 + 2u32 * s);
    let filter = match class {
        ShipClass::Missile => !own_bullets & !own_ships,
        _ => !own_bullets,
    };
    InteractionGroups { memberships: own_ships, filter }
}

pub fn bullet_interaction_groups(team: i32) -> (r: InteractionGroups)
    ensures
        r == bullet_groups_spec(team),
{
    let s = team_slot(team);
    let own_ships: u32 = 1u32 << (1u32 + 2u32 * s);
    let own_bullets: u32 = 1u32 << (2u32 + 2u32 * s);
    InteractionGroups { memberships: own_bullets, filter: !own_bullets & !own_ships }
}

proof fn lemma_distinct_slot_bits(s: u32, t: u32)
    by (bit_vector)
    requires
        s < 15,
        t < 15,
        s != t,
    ensures
        (1u32 << (1u32 + 2u32 * s)) & !(1u32 << (2u32 + 2u32 * t)) != 0,
        (1u32 << (1u32 + 2u32 * s)) & (!(1u32 << (2u32 + 2u32 * t)) & !(1u32 << (1u32
            + 2u32 * t))) != 0,
        (1u32 << (2u32 + 2u32 * s)) & !(1u32 << (2u32 + 2u32 * t)) != 0,
        (1u32 << (2u32 + 2u32 * s)) & (!(1u32 << (2u32 + 2u32 * t)) & !(1u32 << (1u32
            + 2u32 * t))) != 0,
{
}

proof fn lemma_slot_bits(s: u32)
    by (bit_vector)
    requires
        s < 15,
    ensures
        1u32 & !(1u32 << (2u32 + 2u32 * s)) != 0,
        1u32 & (!(1u32 << (2u32 + 2u32 * s)) & !(1u32 << (1u32 + 2u32 * s))) != 0,
        (1u32 << (1u32 + 2u32 * s)) & u32::MAX != 0,
        (1u32 << (2u32 + 2u32 * s)) & u32::MAX != 0,
        (1u32 << (1u32 + 2u32 * s)) & (!(1u32 << (2u32 + 2u32 * s)) & !(1u32 << (1u32
            + 2u32 * s))) == 0,
        (1u32 << (1u32 + 2u32 * s)) & !(1u32 << (2u32 + 2u32 * s)) != 0,
{
}

/// Walls interact with every ship and every bullet, whatever their team and class.
pub proof fn lemma_walls_interact_with_everything(team: i32, class: ShipClass)
    ensures
        interacts(wall_groups_spec(), ship_groups_spec(team, class)),
        interacts(wall_groups_spec(), bullet_groups_spec(team)),
{
    lemma_slot_bits(team_slot_spec(team));
}

/// Entities of teams in distinct slots always interact: ship with ship, ship with
/// bullet, and bullet with bullet.
pub proof fn lemma_cross_team_interacts(
    team_a: i32,
    class_a: ShipClass,
    team_b: i32,
    class_b: ShipClass,
)
    requires
        team_slot_spec(team_a) != team_slot_spec(team_b),
    ensures
        interacts(ship_groups_spec(team_a, class_a), ship_groups_spec(team_b, class_b)),
        interacts(ship_groups_spec(team_a, class_a), bullet_groups_spec(team_b)),
        interacts(bullet_groups_spec(team_a), bullet_groups_spec(team_b)),
{
    lemma_distinct_slot_bits(team_slot_spec(team_a), team_slot_spec(team_b));
    lemma_distinct_slot_bits(team_slot_spec(team_b), team_slot_spec(team_a));
}

/// A ship never interacts with the bullets of its own team, so its own shots pass
/// through it; two non-missile ships of one team still collide.
pub proof fn lemma_same_team_exemptions(team: i32, class: ShipClass)
    ensures
        !interacts(ship_groups_spec(team, class), bullet_groups_spec(team)),
        class != ShipClass::Missile ==> interacts(
            ship_groups_spec(team, class),
            ship_groups_spec(team, class),
        ),
{
    lemma_slot_bits(team_slot_spec(team));
}

} // verus!
