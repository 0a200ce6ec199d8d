use vstd::prelude::*;

verus! {

/// The projectiles a weapon can fire.
#[derive(Debug, Clone, Copy, PartialEq, Eq, Hash, Structural)]
pub enum ProjectileType {
    Arrow,
}

/// The weapons a unit can carry.
#[derive(Debug, Clone, Copy, PartialEq, Eq, Hash, Structural)]
pub enum WeaponType {
    MagicBow,
}

} // verus!
