//! What the world hands to the nodes, and what the nodes ask of the world.

use crate::hex::HexPos;
use crate::value::{Val, ValView, Vec2};
use vstd::prelude::*;

verus! {

/// Hit points that a lazor takes from its target.
pub const LAZOR_DAMAGE: u32 = 15;

/// Hit points that a tesla coil takes from each of its targets.
pub const SHOCK_DAMAGE: u32 = 5;

/// Hit points of the terrain that a projected tile stands for.
pub const TERRAIN_HEALTH: u32 = 10;

/// Largest distance, in cells, at which a node sees an entity.
pub const SIGHT: i32 = 8;

/// An entity that nodes can aim at, as the world describes it at the
/// moment a node runs.
#[derive(Clone, Copy, Debug, PartialEq, Eq, Structural)]
pub struct TargetableEntity {
    /// The name of the entity.
    pub id: u64,
    /// The cell the entity is over.
    pub cell: HexPos,
    /// Where the entity is, in fractional grid coordinates.
    pub pos: Vec2,
    /// The unit vector from the entity to the next waypoint of its path,
    /// or the zero vector when it is there.
    pub dir: Vec2,
}

/// Something a node asks the world to do.
#[derive(Debug, PartialEq)]
pub enum Effect {
    /// Take `damage` hit points from `target` and send a beam from `from`
    /// to it.
    Lazor { from: HexPos, target: u64, damage: u32 },
    /// Launch a rocket from `from` along `direction`, which is not yet
    /// normalized.
    Rocket { from: HexPos, direction: Vec2 },
    /// Schedule a strike at `aim`, whose cell is `cell`.
    Orbital { aim: Vec2, cell: HexPos },
    /// Release a zone of plasma of `charge` heartbeats at `aim`, whose
    /// cell is `cell`.
    Plasma { aim: Vec2, cell: HexPos, charge: u32 },
    /// Take `damage` hit points from each of `targets` and draw a link
    /// from `from` to it.
    Shock { from: HexPos, targets: Vec<u64>, damage: u32 },
    /// Give the entity `terrain`, which now occupies `cell`, its hit
    /// points and its looks.
    ProjectTile { cell: HexPos, terrain: u64, health: u32 },
    /// Show these values to whoever inspects the board.
    Log(Vec<Val>),
}

/// The content of an [`Effect`].
pub enum EffectView {
    Lazor { from: HexPos, target: u64, damage: u32 },
    Rocket { from: HexPos, direction: Vec2 },
    Orbital { aim: Vec2, cell: HexPos },
    Plasma { aim: Vec2, cell: HexPos, charge: u32 },
    Shock { from: HexPos, targets: Seq<u64>, damage: u32 },
    ProjectTile { cell: HexPos, terrain: u64, health: u32 },
    Log(Seq<ValView>),
}

impl View for Effect {
    type V = EffectView;

    open spec fn view(&self) -> EffectView {
        match self {
            Effect::Lazor { from, target, damage } => EffectView::Lazor {
                from: *from,
                target: *target,
                damage: *damage,
            },
            Effect::Rocket { from, direction } => EffectView::Rocket {
                from: *from,
                direction: *direction,
            },
            Effect::Orbital { aim, cell } => EffectView::Orbital { aim: *aim, cell: *cell },
            Effect::Plasma { aim, cell, charge } => EffectView::Plasma {
                aim: *aim,
                cell: *cell,
                charge: *charge,
            },
            Effect::Shock { from, targets, damage } => EffectView::Shock {
                from: *from,
                targets: targets@,
                damage: *damage,
            },
            Effect::ProjectTile { cell, terrain, health } => EffectView::ProjectTile {
                cell: *cell,
                terrain: *terrain,
                health: *health,
            },
            Effect::Log(vals) => EffectView::Log(crate::value::views_of(vals@)),
        }
    }
}

/// The view of an effect that may be absent.
pub open spec fn effect_view(fx: Option<Effect>) -> Option<EffectView> {
    match fx {
        Some(f) => Some(f@),
        None => None,
    }
}

/// The position in `targets` of the first entity called `id`, from `from`
/// on.
pub open spec fn target_index(targets: Seq<TargetableEntity>, id: u64, from: int) -> Option<int>
    decreases targets.len() - from,
{
    if from < 0 || from >= targets.len() {
        None
    } else if targets[from].id == id {
        Some(from)
    } else {
        target_index(targets, id, from + 1)
    }
}

/// The first entity called `id`, if there is one.
pub open spec fn target_named(targets: Seq<TargetableEntity>, id: u64) -> Option<
    TargetableEntity,
> {
    match target_index(targets, id, 0) {
        Some(k) => Some(targets[k]),
        None => None,
    }
}

/// The first entity called `id`, if there is one.
pub fn find_target(targets: &Vec<TargetableEntity>, id: u64) -> (t: Option<TargetableEntity>)
    ensures
        t == target_named(targets@, id),
{
    let mut k: usize = 0;
    while k < targets.len()
        invariant
            k <= targets.len(),
            target_index(targets@, id, 0) == target_index(targets@, id, k as int),
        decreases targets.len() - k,
    {
        if targets[k].id == id {
            return Some(targets[k]);
        }
        k += 1;
    }
    None
}

} // verus!
