use vstd::prelude::*;

verus! {

/// The kinds of item a player can carry.
#[derive(Debug, Clone, Copy, PartialEq, Eq, Hash, Structural)]
pub enum ItemType {
    Conveyor,
}

/// One slot of the player's inventory: empty, or some count of one item type.
#[derive(Debug, Clone, Copy, PartialEq, Eq, Structural)]
pub struct ItemSlot {
    pub item_type: Option<ItemType>,
    pub count: Option<u32>,
}

impl ItemSlot {
    pub fn new(item_type: ItemType, count: u32) -> (r: ItemSlot)
        ensures
            r.item_type == Some(item_type),
            r.count == Some(count),
    {
        ItemSlot { item_type: Some(item_type), count: Some(count) }
    }

    /// A slot holding `count` conveyors.
    pub fn conveyors(count: u32) -> (r: ItemSlot)
        ensures
            r.item_type == Some(ItemType::Conveyor),
            r.count == Some(count),
    {
        Self::new(ItemType::Conveyor, count)
    }

    pub fn empty() -> (r: ItemSlot)
        ensures
            r.item_type is None,
            r.count is None,
    {
        ItemSlot { item_type: None, count: None }
    }
}

/// The position of a slot in the hotbar.
pub struct HotbarIndex {
    index: usize,
}

impl View for HotbarIndex {
    type V = usize;

    closed spec fn view(&self) -> usize {
        self.index
    }
}

impl HotbarIndex {
    pub fn new(index: usize) -> (r: HotbarIndex)
        ensures
            r@ == index,
    {
        HotbarIndex { index }
    }

    pub fn index(&self) -> (r: usize)
        ensures
            r == self@,
    {
        self.index
    }
}

/// A hotbar slot: it points at an inventory slot, or at nothing.
#[derive(Debug, Clone, Copy)]
pub struct HotbarItemSlot {
    inventory_index: Option<usize>,
}

impl View for HotbarItemSlot {
    type V = Option<usize>;

    closed spec fn view(&self) -> Option<usize> {
        self.inventory_index
    }
}

impl HotbarItemSlot {
    pub fn new(inventory_index: Option<usize>) -> (r: HotbarItemSlot)
        ensures
            r@ == inventory_index,
    {
        HotbarItemSlot { inventory_index }
    }

    pub fn empty() -> (r: HotbarItemSlot)
        ensures
            r@ is None,
    {
        HotbarItemSlot::new(None)
    }

    pub fn index(&self) -> (r: Option<usize>)
        ensures
            r == self@,
    {
        self.inventory_index
    }
}

} // verus!
