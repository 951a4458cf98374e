use std::collections::HashMap;

use centripetal::asset::{track_asset_loading, AssetLoadError, AssetLoadingTracker, AssetStatus};
use centripetal::color::{HexColorError, Rgba8};
use centripetal::entity::Entity;
use centripetal::logic::ldtk::{
    convert_level, convert_project, LdtkError, LdtkLayerData, LdtkTiles, LdtkTile, Point2, RawEntityInstance,
    RawFieldData, RawFieldInstance, RawLayerData, RawLayerInstance, RawLevel, RawLevelPath, RawTileInstance,
    RawTileset,
};
use centripetal::logic::level::{
    collect_level_targets, handle_load_level_begin, level_load_status, level_progress, tilemap_plan, FieldError,
    Fields, LdtkEntityField, LevelEntities, LevelLayers, LevelLoadError, LevelSpawned, LoadState,
    RegisteredLevelEntities, RegisteredLevelIntCells, RegisteredLevels, SpawnedLayer, TilePlan,
};
use centripetal::logic::levels::in_level;

fn field(id: &str, data: RawFieldData) -> RawFieldInstance {
    RawFieldInstance { id: id.to_string(), data }
}

#[test]
fn fields_read_by_type() {
    let f = Fields(vec![
        ("n".to_string(), LdtkEntityField::Int(3)),
        ("b".to_string(), LdtkEntityField::Bool(true)),
        ("s".to_string(), LdtkEntityField::String("hi".to_string())),
        ("p".to_string(), LdtkEntityField::Point(1, 2)),
        ("n".to_string(), LdtkEntityField::Int(4)),
    ]);
    assert_eq!(f.integer("n"), Ok(4));
    assert_eq!(f.bool("b"), Ok(true));
    assert_eq!(f.string("s"), Ok("hi"));
    assert_eq!(f.point("p"), Ok((1, 2)));
    assert_eq!(f.integer("b"), Err(FieldError::WrongType));
    assert_eq!(f.float("zz"), Err(FieldError::NotFound));
}

#[test]
fn level_conversion_flips_rows_and_drops_unset_fields() {
    let raw = RawLevel {
        bg_color: "#102030".to_string(),
        width_px: 64,
        height_px: 32,
        field_instances: vec![field("a", RawFieldData::Int(Some(1))), field("b", RawFieldData::Int(None))],
        layer_instances: vec![
            RawLayerInstance {
                id: "entities".to_string(),
                width: 4,
                height: 2,
                grid_size: 16,
                data: RawLayerData::Entities(vec![RawEntityInstance {
                    id: "selene".to_string(),
                    iid: 42,
                    px: Point2 { x: 8, y: 4 },
                    field_instances: vec![field("ccw", RawFieldData::Bool(Some(true)))],
                }]),
            },
            RawLayerInstance {
                id: "grid".to_string(),
                width: 2,
                height: 2,
                grid_size: 16,
                data: RawLayerData::IntGrid {
                    int_grid_csv: vec![1, 0, 0, 2],
                    auto_layer_tiles: Some(vec![RawTileInstance {
                        alpha_bits: 0x3f80_0000,
                        px: Point2 { x: 16, y: 0 },
                        src: Point2 { x: 32, y: 16 },
                        t: 7,
                    }]),
                    tileset: Some(9),
                    tileset_image: "tiles.png".to_string(),
                },
            },
        ],
    };
    let level = convert_level(&raw).unwrap();
    assert_eq!(level.bg_color, Rgba8 { red: 0x10, green: 0x20, blue: 0x30, alpha: 255 });
    assert_eq!(level.fields, Fields(vec![("a".to_string(), LdtkEntityField::Int(1))]));
    match &level.layers[0].data {
        LdtkLayerData::Entities(es) => {
            assert_eq!(es[0].iid, 42);
            assert_eq!(es[0].grid_position_px, Point2 { x: 8, y: 28 });
            assert_eq!(es[0].fields.bool("ccw"), Ok(true));
        },
        _ => panic!("expected entities"),
    }
    match &level.layers[1].data {
        LdtkLayerData::IntGrid { grid, tiles } => {
            let cells: Vec<(u32, u32, u32)> = grid.iter().map(|c| (c.value, c.x, c.y)).collect();
            assert_eq!(cells, vec![(1, 0, 1), (0, 1, 1), (0, 0, 0), (2, 1, 0)]);
            let t = tiles.as_ref().unwrap();
            assert_eq!(t.tileset, 9);
            assert_eq!(t.tileset_image, "tiles.png");
            assert_eq!(t.tiles[0].grid_position_px, Point2 { x: 16, y: 32 });
        },
        _ => panic!("expected a grid"),
    }
    assert_eq!(level.dependencies(), vec!["tiles.png".to_string()]);
}

#[test]
fn level_with_bad_color_is_refused() {
    let raw = RawLevel {
        bg_color: "#12".to_string(),
        width_px: 1,
        height_px: 1,
        field_instances: vec![],
        layer_instances: vec![],
    };
    assert_eq!(convert_level(&raw).unwrap_err(), LdtkError::BgColor(HexColorError::Length));
}

#[test]
fn tiles_need_both_tiles_and_a_tileset() {
    let raw = RawLevel {
        bg_color: "000".to_string(),
        width_px: 1,
        height_px: 1,
        field_instances: vec![],
        layer_instances: vec![RawLayerInstance {
            id: "g".to_string(),
            width: 1,
            height: 1,
            grid_size: 8,
            data: RawLayerData::IntGrid {
                int_grid_csv: vec![],
                auto_layer_tiles: Some(vec![]),
                tileset: None,
                tileset_image: "x.png".to_string(),
            },
        }],
    };
    let level = convert_level(&raw).unwrap();
    match &level.layers[0].data {
        LdtkLayerData::IntGrid { tiles, .. } => assert!(tiles.is_none()),
        _ => panic!("expected a grid"),
    }
    assert!(level.dependencies().is_empty());
}

#[test]
fn projects_index_levels_and_tilesets() {
    let p = convert_project(
        &vec![RawLevelPath { identifier: "a".to_string(), external_rel_path: "a.ldtkl".to_string() }],
        &vec![
            RawTileset { uid: 1, tile_grid_size: 16, width: 4, height: 4 },
            RawTileset { uid: 1, tile_grid_size: 8, width: 2, height: 2 },
        ],
    );
    assert_eq!(p.level_path("a"), Some("a.ldtkl"));
    assert_eq!(p.level_path("b"), None);
    assert_eq!(p.tileset(1).unwrap().tile_size, 8);
    assert!(p.tileset(2).is_none());

    let tiles = LdtkTiles {
        tileset: 1,
        tileset_image: "t.png".to_string(),
        tiles: vec![LdtkTile {
            id: 3,
            grid_position_px: Point2 { x: 32, y: 48 },
            tileset_position_px: Point2 { x: 8, y: 16 },
            alpha_bits: 0,
        }],
    };
    let plan = tilemap_plan(&p, &tiles, 16).unwrap();
    // Texture index: (16 * 2 + 8) / 8.
    assert_eq!(plan, vec![TilePlan { id: 3, position: Point2 { x: 2, y: 3 }, texture_index: 5, alpha_bits: 0 }]);
    let missing = LdtkTiles { tileset: 5, tileset_image: String::new(), tiles: vec![] };
    assert_eq!(tilemap_plan(&p, &missing, 16), Err(5));
}

#[test]
fn loading_a_level_unloads_the_others() {
    let levels = vec![(Entity(1), "a".to_string()), (Entity(2), "b".to_string()), (Entity(3), "c".to_string())];
    assert_eq!(handle_load_level_begin("b", &levels), (vec![Entity(1), Entity(3)], false));
    assert_eq!(handle_load_level_begin("d", &levels), (vec![Entity(1), Entity(2), Entity(3)], true));
}

#[test]
fn level_load_states() {
    assert_eq!(level_load_status(LoadState::NotLoaded, LoadState::Loaded), Err(LevelLoadError::HandleDropped));
    assert_eq!(level_load_status(LoadState::Loading, LoadState::Failed), Ok(false));
    assert_eq!(level_load_status(LoadState::Loaded, LoadState::NotLoaded), Err(LevelLoadError::DependencyDropped));
    assert_eq!(level_load_status(LoadState::Loaded, LoadState::Loaded), Ok(true));
    assert_eq!(level_load_status(LoadState::Failed, LoadState::Loaded), Err(LevelLoadError::Failed));
    assert_eq!(level_load_status(LoadState::Loaded, LoadState::Failed), Err(LevelLoadError::Failed));
}

#[test]
fn a_level_is_spawned_once() {
    let mut spawned = LevelSpawned(false);
    assert_eq!(level_progress(&mut spawned, LoadState::Loading, LoadState::Loading), Ok((false, (0, 1))));
    assert_eq!(level_progress(&mut spawned, LoadState::Loaded, LoadState::Loaded), Ok((true, (1, 1))));
    assert_eq!(level_progress(&mut spawned, LoadState::Loaded, LoadState::Loaded), Ok((false, (1, 1))));
    assert_eq!(spawned, LevelSpawned(true));
}

#[test]
fn layers_and_entities_are_found_again() {
    let mut layers = LevelLayers::default();
    layers.insert("tiles_main".to_string(), Entity(1));
    layers.insert("entities".to_string(), Entity(2));
    layers.insert("tiles_main".to_string(), Entity(3));
    assert_eq!(layers.get("tiles_main"), Some(Entity(3)));
    assert_eq!(layers.get("entities"), Some(Entity(2)));
    assert_eq!(layers.get("nope"), None);

    let mut entities = LevelEntities(HashMap::new());
    entities.insert(0x1234, Entity(9));
    assert_eq!(entities.get(0x1234), Ok(Entity(9)));
    assert_eq!(entities.get(1), Err("Entity not found!"));
}

#[test]
fn set_ups_are_grouped_by_system() {
    let mut levels = RegisteredLevels::default();
    levels.register("penumbra_wing_l".to_string(), 10);
    let mut entities = RegisteredLevelEntities::default();
    entities.register("selene".to_string(), 20);
    entities.register("attractor".to_string(), 21);
    let mut cells = RegisteredLevelIntCells::default();
    cells.register("grid", 1, 30);
    cells.register("grid", 1, 31);
    assert_eq!(cells.get("grid", 1), Some(31));
    assert_eq!(cells.get("grid", 2), None);

    let layers = vec![
        SpawnedLayer {
            layer_id: "entities".to_string(),
            level_entity: Entity(100),
            level_id: Some("penumbra_wing_l".to_string()),
            entities: vec![(Entity(1), "selene".to_string()), (Entity(2), "attractor".to_string()), (Entity(3), "other".to_string())],
            int_cells: vec![],
        },
        SpawnedLayer {
            layer_id: "grid".to_string(),
            level_entity: Entity(100),
            level_id: Some("penumbra_wing_l".to_string()),
            entities: vec![(Entity(4), "attractor".to_string())],
            int_cells: vec![(Entity(5), 1), (Entity(6), 2), (Entity(7), 1)],
        },
    ];
    let t = collect_level_targets(&levels, &entities, &cells, &layers);
    assert_eq!(t.levels, vec![(10, Entity(100))]);
    assert_eq!(t.entities, vec![(20, vec![Entity(1)]), (21, vec![Entity(2), Entity(4)])]);
    assert_eq!(t.int_cells, vec![(31, vec![Entity(5), Entity(7)])]);
}

#[test]
fn in_level_needs_exactly_that_level() {
    assert!(in_level(&vec!["a".to_string()], "a"));
    assert!(!in_level(&vec!["b".to_string()], "a"));
    assert!(!in_level(&vec!["a".to_string(), "a".to_string()], "a"));
    assert!(!in_level(&vec![], "a"));
}

fn status(load: LoadState, dependencies: LoadState) -> AssetStatus {
    AssetStatus { load, dependencies }
}

#[test]
fn asset_loading_progress() {
    let mut t = AssetLoadingTracker::new();
    t.track(1);
    t.track(2);
    t.track(3);
    let r = track_asset_loading(&mut t, vec![status(LoadState::Loaded, LoadState::Loaded), status(LoadState::Loading, LoadState::Loading), status(LoadState::Loaded, LoadState::Loading)]);
    // Asset 1 is done (2); asset 3 moves into its place (1); asset 2 (0).
    assert_eq!(r, Ok((3, 6)));
    assert_eq!(t.loading(), &vec![3, 2]);
}

#[test]
fn asset_loading_errors() {
    let mut t = AssetLoadingTracker::new();
    t.track(1);
    t.track(2);
    assert_eq!(
        track_asset_loading(&mut t, vec![status(LoadState::Loaded, LoadState::Loaded), status(LoadState::NotLoaded, LoadState::Failed)]),
        Err(AssetLoadError::Failed)
    );
    assert_eq!(t.loading(), &vec![2]);
    let mut t = AssetLoadingTracker::new();
    t.track(1);
    assert_eq!(track_asset_loading(&mut t, vec![status(LoadState::Loading, LoadState::NotLoaded)]), Err(AssetLoadError::HandleDropped));
}

#[test]
fn later_level_registration_wins() {
    let mut levels = RegisteredLevels::default();
    levels.register("penumbra_wing_l".to_string(), 10);
    levels.register("other".to_string(), 11);
    levels.register("penumbra_wing_l".to_string(), 12);
    assert_eq!(levels.get("penumbra_wing_l"), Some(12));
    assert_eq!(levels.get("other"), Some(11));
    assert_eq!(levels.get("missing"), None);
}
