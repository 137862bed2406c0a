use vstd::prelude::*;

verus! {

/// Identifier of an entity: an index into every component storage of the world.
#[derive(Clone, Copy, Debug, PartialEq, Eq, Structural)]
pub struct Entity {
    pub id: usize,
}

/// A map cell coordinate.
#[derive(Clone, Copy, Debug, PartialEq, Eq, Structural)]
pub struct Point {
    pub x: i32,
    pub y: i32,
}

impl Point {
    pub fn new(x: i32, y: i32) -> (r: Point)
        ensures
            r.x == x,
            r.y == y,
    {
        Point { x, y }
    }
}

#[derive(Clone, Copy, Debug, PartialEq, Eq, Structural)]
pub struct CombatStats {
    pub max_hp: i32,
    pub hp: i32,
    pub defense: i32,
    pub power: i32,
}

/// Field-of-view state of a viewer.
#[derive(Debug)]
pub struct Viewshed {
    pub visible_tiles: Vec<Point>,
    pub range: i32,
    pub dirty: bool,
}

/// Intent: use `item`, on the user itself or on the cell `target`.
#[derive(Clone, Copy, Debug, PartialEq, Eq, Structural)]
pub struct WantsToUseItem {
    pub item: Entity,
    pub target: Option<Point>,
}

/// Intent: drop `item`.
#[derive(Clone, Copy, Debug, PartialEq, Eq, Structural)]
pub struct WantsToDrop {
    pub item: Entity,
}

/// The effects an item carries, each one optional and independent of the others.
#[derive(Clone, Copy, Debug, PartialEq, Eq, Structural)]
pub struct Item {
    /// Destroyed once an effect has been applied with it.
    pub consumable: bool,
    /// Hit points restored to each target.
    pub healing: Option<i32>,
    /// Damage queued on each target.
    pub damage: Option<i32>,
    /// Turns of confusion given to each target.
    pub confusion: Option<i32>,
    /// Blast radius around the targeted cell.
    pub area_of_effect: Option<i32>,
    /// Range within which a cell must be picked before use.
    pub ranged: Option<i32>,
}

} // verus!
