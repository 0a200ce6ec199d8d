use vstd::prelude::*;

use crate::biome::Biome;
use crate::inventory::ItemType;

verus! {

/// Every sprite sheet the game loads.
#[derive(Debug, Clone, Copy, PartialEq, Eq, Hash, Structural)]
pub enum AssetType {
    Arrow,
    Builder,
    Enemy,
    Conveyor,
    Grassland,
    Desert,
    Rockland,
    Font,
}

/// Sprite sheets that are loaded together from one folder.
#[derive(Debug, Clone, Copy, PartialEq, Eq, Hash, Structural)]
pub enum AssetGroup {
    Biome,
    Projectile,
}

/// Where a sprite sheet lives and how it is cut: `tile_size` is the size of
/// one sprite in pixels, and the sheet holds `columns` by `rows` of them.
pub struct AssetInfo {
    pub sprite_file: String,
    pub tile_size: (u32, u32),
    pub columns: usize,
    pub rows: usize,
}

/// The folder of an asset group and the sheets it holds.
pub struct AssetGroupInfo {
    pub folder_path: String,
    pub assets_info: Vec<(AssetType, AssetInfo)>,
}

impl From<Biome> for AssetType {
    fn from(biome_type: Biome) -> (r: AssetType) {
        match biome_type {
            Biome::Grassland => AssetType::Grassland,
            Biome::Desert => AssetType::Desert,
            Biome::Rockland => AssetType::Rockland,
        }
    }
}

impl vstd::std_specs::convert::FromSpecImpl<Biome> for AssetType {
    open spec fn obeys_from_spec() -> bool {
        true
    }

    open spec fn from_spec(v: Biome) -> AssetType {
        match v {
            Biome::Grassland => AssetType::Grassland,
            Biome::Desert => AssetType::Desert,
            Biome::Rockland => AssetType::Rockland,
        }
    }
}

impl From<ItemType> for AssetType {
    fn from(item_type: ItemType) -> (r: AssetType) {
        match item_type {
            ItemType::Conveyor => AssetType::Conveyor,
        }
    }
}

impl vstd::std_specs::convert::FromSpecImpl<ItemType> for AssetType {
    open spec fn obeys_from_spec() -> bool {
        true
    }

    open spec fn from_spec(v: ItemType) -> AssetType {
        AssetType::Conveyor
    }
}

/// The path of the image or font file of an asset.
pub open spec fn sprite_path(asset_type: AssetType) -> Seq<char> {
    match asset_type {
        AssetType::Builder => "texture/wizard.png"@,
        AssetType::Enemy => "texture/enemy.png"@,
        AssetType::Arrow => "texture/projectile/arrow.png"@,
        AssetType::Conveyor => "texture/conveyor.png"@,
        AssetType::Grassland => "texture/biome/grass.png"@,
        AssetType::Desert => "texture/biome/desert.png"@,
        AssetType::Rockland => "texture/biome/rocklands.png"@,
        AssetType::Font => "font/square.ttf"@,
    }
}

/// How an asset's sheet is cut: sprite width and height, columns, rows.
pub open spec fn sprite_grid(asset_type: AssetType) -> (u32, u32, usize, usize) {
    match asset_type {
        AssetType::Builder | AssetType::Enemy => (16, 16, 7, 3),
        AssetType::Arrow => (8, 4, 1, 1),
        AssetType::Conveyor => (16, 16, 1, 1),
        AssetType::Grassland | AssetType::Desert | AssetType::Rockland => (16, 16, 4, 1),
        AssetType::Font => (16, 16, 0, 0),
    }
}

/// The folder an asset group is loaded from.
pub open spec fn group_folder(asset_group: AssetGroup) -> Seq<char> {
    match asset_group {
        AssetGroup::Biome => "texture/biome"@,
        AssetGroup::Projectile => "texture/projectile"@,
    }
}

/// The assets of a group, in load order.
pub open spec fn group_members(asset_group: AssetGroup) -> Seq<AssetType> {
    match asset_group {
        AssetGroup::Biome => seq![AssetType::Grassland, AssetType::Desert, AssetType::Rockland],
        AssetGroup::Projectile => seq![AssetType::Arrow],
    }
}

/// `info` describes the sheet of `asset_type`.
pub open spec fn describes(info: AssetInfo, asset_type: AssetType) -> bool {
    &&& info.sprite_file@ == sprite_path(asset_type)
    &&& (info.tile_size.0, info.tile_size.1, info.columns, info.rows) == sprite_grid(asset_type)
}

/// The size of one map tile's sprite, in pixels.
pub fn default_tile_size() -> (r: (u32, u32))
    ensures
        r == (16u32, 16u32),
{
    (16, 16)
}

pub fn all_asset_groups() -> (r: Vec<AssetGroup>)
    ensures
        r@ == seq![AssetGroup::Biome, AssetGroup::Projectile],
{
    let mut groups: Vec<AssetGroup> = Vec::new();
    groups.push(AssetGroup::Biome);
    groups.push(AssetGroup::Projectile);
    groups
}

/// The assets loaded one by one rather than by group.
pub fn all_base_assets() -> (r: Vec<AssetType>)
    ensures
        r@ == seq![AssetType::Builder, AssetType::Enemy, AssetType::Conveyor],
{
    let mut assets: Vec<AssetType> = Vec::new();
    assets.push(AssetType::Builder);
    assets.push(AssetType::Enemy);
    assets.push(AssetType::Conveyor);
    assets
}

fn sheet(path: &str, tile_size: (u32, u32), columns: usize, rows: usize) -> (r: AssetInfo)
    ensures
        r.sprite_file@ == path@,
        r.tile_size == tile_size,
        r.columns == columns,
        r.rows == rows,
{
    AssetInfo { sprite_file: path.to_owned(), tile_size, columns, rows }
}

pub fn get_asset_info(asset_type: AssetType) -> (r: AssetInfo)
    ensures
        describes(r, asset_type),
{
    let tile = default_tile_size();
    match asset_type {
        AssetType::Builder => sheet("texture/wizard.png", tile, 7, 3),
        AssetType::Enemy => sheet("texture/enemy.png", tile, 7, 3),
        AssetType::Arrow => sheet("texture/projectile/arrow.png", (8, 4), 1, 1),
        AssetType::Conveyor => sheet("texture/conveyor.png", tile, 1, 1),
        AssetType::Grassland => sheet("texture/biome/grass.png", tile, 4, 1),
        AssetType::Desert => sheet("texture/biome/desert.png", tile, 4, 1),
        AssetType::Rockland => sheet("texture/biome/rocklands.png", tile, 4, 1),
        AssetType::Font => sheet("font/square.ttf", tile, 0, 0),
    }
}

pub fn get_asset_group_info(asset_group: AssetGroup) -> (r: AssetGroupInfo)
    ensures
        r.folder_path@ == group_folder(asset_group),
        r.assets_info@.len() == group_members(asset_group).len(),
        forall|k: int|
            0 <= k < r.assets_info@.len() ==> {
                &&& (#[trigger] r.assets_info@[k]).0 == group_members(asset_group)[k]
                &&& describes(r.assets_info@[k].1, group_members(asset_group)[k])
            },
{
    let mut assets_info: Vec<(AssetType, AssetInfo)> = Vec::new();
    match asset_group {
        AssetGroup::Biome => {
            assets_info.push((AssetType::Grassland, get_asset_info(AssetType::Grassland)));
            assets_info.push((AssetType::Desert, get_asset_info(AssetType::Desert)));
            assets_info.push((AssetType::Rockland, get_asset_info(AssetType::Rockland)));
            AssetGroupInfo { folder_path: "texture/biome".to_owned(), assets_info }
        },
        AssetGroup::Projectile => {
            assets_info.push((AssetType::Arrow, get_asset_info(AssetType::Arrow)));
            AssetGroupInfo { folder_path: "texture/projectile".to_owned(), assets_info }
        },
    }
}

pub fn get_asset_sprite_path(asset_type: AssetType) -> (r: String)
    ensures
        r@ == sprite_path(asset_type),
{
    get_asset_info(asset_type).sprite_file
}

} // verus!
