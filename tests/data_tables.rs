use automagical::{
    all_asset_groups, all_base_assets, default_tile_size, get_asset_group_info, get_asset_info,
    get_asset_sprite_path, AssetGroup, AssetType, Biome, Enemy, HotbarIndex, HotbarItemSlot,
    ItemSlot, ItemType, Orientation,
};

#[test]
fn asset_groups_and_base_assets() {
    assert_eq!(vec![AssetGroup::Biome, AssetGroup::Projectile], all_asset_groups());
    assert_eq!(
        vec![AssetType::Builder, AssetType::Enemy, AssetType::Conveyor],
        all_base_assets()
    );
}

#[test]
fn sprite_paths() {
    assert_eq!("texture/wizard.png", get_asset_sprite_path(AssetType::Builder));
    assert_eq!("texture/biome/rocklands.png", get_asset_sprite_path(AssetType::Rockland));
    assert_eq!("font/square.ttf", get_asset_sprite_path(AssetType::Font));
}

#[test]
fn asset_info_sheets() {
    let arrow = get_asset_info(AssetType::Arrow);
    assert_eq!("texture/projectile/arrow.png", arrow.sprite_file);
    assert_eq!((8, 4), arrow.tile_size);
    assert_eq!((1, 1), (arrow.columns, arrow.rows));
    let enemy = get_asset_info(AssetType::Enemy);
    assert_eq!(default_tile_size(), enemy.tile_size);
    assert_eq!((16, 16), default_tile_size());
    assert_eq!((7, 3), (enemy.columns, enemy.rows));
}

#[test]
fn asset_group_info_members() {
    let biomes = get_asset_group_info(AssetGroup::Biome);
    assert_eq!("texture/biome", biomes.folder_path);
    let kinds: Vec<AssetType> = biomes.assets_info.iter().map(|(t, _)| *t).collect();
    assert_eq!(vec![AssetType::Grassland, AssetType::Desert, AssetType::Rockland], kinds);
    assert_eq!("texture/biome/desert.png", biomes.assets_info[1].1.sprite_file);
    let projectiles = get_asset_group_info(AssetGroup::Projectile);
    assert_eq!("texture/projectile", projectiles.folder_path);
    assert_eq!(1, projectiles.assets_info.len());
}

#[test]
fn asset_type_from_biome_and_item() {
    assert_eq!(AssetType::Desert, AssetType::from(Biome::Desert));
    assert_eq!(AssetType::Grassland, AssetType::from(Biome::Grassland));
    assert_eq!(AssetType::Rockland, AssetType::from(Biome::Rockland));
    assert_eq!(AssetType::Conveyor, AssetType::from(ItemType::Conveyor));
}

#[test]
fn item_slots() {
    let slot = ItemSlot::conveyors(9);
    assert_eq!(Some(ItemType::Conveyor), slot.item_type);
    assert_eq!(Some(9), slot.count);
    let empty = ItemSlot::empty();
    assert_eq!(None, empty.item_type);
    assert_eq!(None, empty.count);
    assert_eq!(slot, ItemSlot::new(ItemType::Conveyor, 9));
}

#[test]
fn hotbar_slots() {
    assert_eq!(3, HotbarIndex::new(3).index());
    assert_eq!(Some(0), HotbarItemSlot::new(Some(0)).index());
    assert_eq!(None, HotbarItemSlot::empty().index());
}

#[test]
fn orientation_positive_axes() {
    assert_eq!((false, false), Orientation::Left.positive_axes());
    assert_eq!((true, false), Orientation::Right.positive_axes());
    assert_eq!((false, true), Orientation::Up.positive_axes());
    assert_eq!((false, false), Orientation::Down.positive_axes());
    assert_eq!((false, true), Orientation::UpLeft.positive_axes());
    assert_eq!((true, true), Orientation::UpRight.positive_axes());
    assert_eq!((false, false), Orientation::DownLeft.positive_axes());
    assert_eq!((true, false), Orientation::DownRight.positive_axes());
    assert_eq!((false, false), Orientation::Stationary.positive_axes());
}

#[test]
fn enemy_takes_damage() {
    let mut enemy = Enemy::generic_enemy();
    assert_eq!(80, enemy.hp);
    assert_eq!("generic enemy", enemy.name);
    enemy.take_damage(30);
    assert_eq!(50, enemy.hp);
    enemy.take_damage(70);
    assert_eq!(-20, enemy.hp);
    let named = Enemy::new(5, String::from("slime"));
    assert_eq!(5, named.hp);
}
