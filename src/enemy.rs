use vstd::prelude::*;

verus! {

/// A hostile unit with hit points.
pub struct Enemy {
    pub hp: i32,
    pub name: String,
}

impl Enemy {
    pub fn new(hp: i32, name: String) -> (r: Enemy)
        ensures
            r.hp == hp,
            r.name@ == name@,
    {
        Enemy { hp, name }
    }

    /// The enemy that the world generator seeds: 80 hit points.
    pub fn generic_enemy() -> (r: Enemy)
        ensures
            r.hp == 80,
            r.name@ == "generic enemy"@,
    {
        Enemy::new(80, "generic enemy".to_owned())
    }

    /// Subtracts `damage` from the hit points; they may go below zero.
    pub fn take_damage(&mut self, damage: i32)
        requires
            i32::MIN <= old(self).hp - damage <= i32::MAX,
        ensures
            final(self).hp == old(self).hp - damage,
            final(self).name == old(self).name,
    {
        self.hp = self.hp - damage;
    }
}

} // verus!
