use vstd::prelude::*;
use std::collections::HashMap;

use crate::entity::Entity;
use crate::logic::ldtk::{tileset_map, Ldtk, LdtkTiles, Point2};
use crate::text::str_eq;

verus! {

broadcast use vstd::std_specs::hash::group_hash_axioms;

/// The level to load next, by identifier.
#[derive(Debug, Clone, PartialEq, Eq)]
pub struct LoadLevel(pub String);

/// A level's layers, by identifier.
#[derive(Debug, Clone, PartialEq, Eq, Default)]
pub struct LevelLayers(pub Vec<(String, Entity)>);

/// The entity of each identifier in the pairs, a later pair replacing an earlier one.
pub open spec fn pairs_map<T>(pairs: Seq<(String, T)>) -> Map<Seq<char>, T>
    decreases pairs.len(),
{
    if pairs.len() == 0 {
        Map::empty()
    } else {
        pairs_map(pairs.drop_last()).insert(pairs.last().0@, pairs.last().1)
    }
}

impl LevelLayers {
    /// The layers, as a map from identifier to entity.
    pub open spec fn spec_map(&self) -> Map<Seq<char>, Entity> {
        pairs_map(self.0@)
    }

    /// Records the layer `id` as `e`, replacing any earlier entity of that identifier.
    pub fn insert(&mut self, id: String, e: Entity)
        ensures
            final(self).spec_map() == old(self).spec_map().insert(id@, e),
    {
        let ghost prev = self.0@;
        self.0.push((id, e));
        proof {
            assert(self.0@.drop_last() =~= prev);
        }
    }

    /// The entity of the layer `id`.
    pub fn get(&self, id: &str) -> (r: Option<Entity>)
        ensures
            r == (if self.spec_map().contains_key(id@) {
                Some(self.spec_map()[id@])
            } else {
                None
            }),
    {
        let mut i: usize = self.0.len();
        proof {
            assert(self.0@.take(i as int) =~= self.0@);
        }
        while i > 0
            invariant
                i <= self.0.len(),
                pairs_map(self.0@).contains_key(id@) ==> pairs_map(self.0@.take(i as int)).contains_key(id@) && pairs_map(self.0@)[id@] == pairs_map(self.0@.take(i as int))[id@],
                !pairs_map(self.0@).contains_key(id@) ==> !pairs_map(self.0@.take(i as int)).contains_key(id@),
            decreases i,
        {
            let ghost pre = self.0@.take(i as int);
            proof {
                assert(pre.drop_last() =~= self.0@.take(i - 1));
                assert(pre.last() == self.0@[i - 1]);
            }
            if str_eq(self.0[i - 1].0.as_str(), id) {
                return Some(self.0[i - 1].1);
            }
            i = i - 1;
        }
        proof {
            assert(self.0@.take(0) =~= Seq::<(String, Entity)>::empty());
        }
        None
    }
}

/// A level's entities, by their unique identifier (a UUID as a number).
#[derive(Debug, Clone, Default)]
pub struct LevelEntities(pub HashMap<u128, Entity>);

impl LevelEntities {
    /// The entity with the unique identifier `uuid`; an error if the level has none.
    pub fn get(&self, uuid: u128) -> (r: Result<Entity, &'static str>)
        ensures
            self.0@.contains_key(uuid) ==> r == Ok::<Entity, &'static str>(self.0@[uuid]),
            !self.0@.contains_key(uuid) ==> (r matches Err(msg) && msg@ == "Entity not found!"@),
    {
        match self.0.get(&uuid) {
            Some(e) => Ok(*e),
            None => Err("Entity not found!"),
        }
    }

    /// Records the entity `e` as having the unique identifier `uuid`.
    pub fn insert(&mut self, uuid: u128, e: Entity)
        ensures
            final(self).0@ == old(self).0@.insert(uuid, e),
    {
        self.0.insert(uuid, e);
    }
}

/// Whether a level's entities were spawned.
#[derive(Debug, Clone, Copy, PartialEq, Eq, Structural, Default)]
pub struct LevelSpawned(pub bool);

/// Marks a level that is being unloaded.
#[derive(Debug, Clone, Copy, PartialEq, Eq, Structural, Default)]
pub struct LevelUnload;

/// A layer of a level.
#[derive(Debug, Clone, PartialEq, Eq)]
pub struct LevelLayer {
    pub id: String,
}

/// An entity placed in a level: its kind and its unique identifier.
#[derive(Debug, Clone, PartialEq, Eq)]
pub struct LevelEntity {
    pub id: String,
    pub iid: u128,
}

/// A tile of a level.
#[derive(Debug, Clone, Copy, PartialEq, Eq, Structural)]
pub struct LevelTile {
    pub id: u32,
}

/// A cell of a level's integer grid: its value and position.
#[derive(Debug, Clone, Copy, PartialEq, Eq, Structural)]
pub struct LevelIntCell {
    pub value: u32,
    pub x: u32,
    pub y: u32,
}

/// The value of a field of a level or of a placed entity.
#[derive(Debug, Clone, PartialEq, Eq)]
pub enum LdtkEntityField {
    Int(u32),
    /// A 32-bit floating-point number, by its bits.
    Float(u32),
    Bool(bool),
    String(String),
    /// A point of the grid.
    Point(u32, u32),
}

/// Why a field could not be read.
#[derive(Debug, Clone, Copy, PartialEq, Eq, Structural)]
pub enum FieldError {
    NotFound,
    WrongType,
}

/// The fields of a level or of a placed entity, by name; a later field replaces an earlier one
/// of the same name.
#[derive(Debug, Clone, PartialEq, Eq, Default)]
pub struct Fields(pub Vec<(String, LdtkEntityField)>);

impl Fields {
    pub open spec fn spec_map(&self) -> Map<Seq<char>, LdtkEntityField> {
        pairs_map(self.0@)
    }

    /// The field `name`.
    pub fn get(&self, name: &str) -> (r: Option<&LdtkEntityField>)
        ensures
            r matches Some(f) ==> self.spec_map().contains_key(name@) && self.spec_map()[name@]
                == *f,
            r is None ==> !self.spec_map().contains_key(name@),
    {
        let mut i: usize = self.0.len();
        proof {
            assert(self.0@.take(i as int) =~= self.0@);
        }
        while i > 0
            invariant
                i <= self.0.len(),
                pairs_map(self.0@).contains_key(name@) ==> pairs_map(self.0@.take(i as int)).contains_key(name@) && pairs_map(self.0@)[name@] == pairs_map(self.0@.take(i as int))[name@],
                !pairs_map(self.0@).contains_key(name@) ==> !pairs_map(self.0@.take(i as int)).contains_key(name@),
            decreases i,
        {
            let ghost pre = self.0@.take(i as int);
            proof {
                assert(pre.drop_last() =~= self.0@.take(i - 1));
                assert(pre.last() == self.0@[i - 1]);
            }
            if str_eq(self.0[i - 1].0.as_str(), name) {
                return Some(&self.0[i - 1].1);
            }
            i = i - 1;
        }
        proof {
            assert(self.0@.take(0) =~= Seq::<(String, LdtkEntityField)>::empty());
        }
        None
    }

    /// The integer field `name`.
    pub fn integer(&self, name: &str) -> (r: Result<u32, FieldError>)
        ensures
            !self.spec_map().contains_key(name@) ==> r == Err::<u32, FieldError>(FieldError::NotFound),
            self.spec_map().contains_key(name@) ==> r == match self.spec_map()[name@] {
                LdtkEntityField::Int(v) => Ok(v),
                _ => Err(FieldError::WrongType),
            },
    {
        match self.get(name) {
            Some(LdtkEntityField::Int(v)) => Ok(*v),
            Some(_) => Err(FieldError::WrongType),
            None => Err(FieldError::NotFound),
        }
    }

    /// The floating-point field `name`, by its bits.
    pub fn float(&self, name: &str) -> (r: Result<u32, FieldError>)
        ensures
            !self.spec_map().contains_key(name@) ==> r == Err::<u32, FieldError>(FieldError::NotFound),
            self.spec_map().contains_key(name@) ==> r == match self.spec_map()[name@] {
                LdtkEntityField::Float(v) => Ok(v),
                _ => Err(FieldError::WrongType),
            },
    {
        match self.get(name) {
            Some(LdtkEntityField::Float(v)) => Ok(*v),
            Some(_) => Err(FieldError::WrongType),
            None => Err(FieldError::NotFound),
        }
    }

    /// The boolean field `name`.
    pub fn bool(&self, name: &str) -> (r: Result<bool, FieldError>)
        ensures
            !self.spec_map().contains_key(name@) ==> r == Err::<bool, FieldError>(FieldError::NotFound),
            self.spec_map().contains_key(name@) ==> r == match self.spec_map()[name@] {
                LdtkEntityField::Bool(v) => Ok(v),
                _ => Err(FieldError::WrongType),
            },
    {
        match self.get(name) {
            Some(LdtkEntityField::Bool(v)) => Ok(*v),
            Some(_) => Err(FieldError::WrongType),
            None => Err(FieldError::NotFound),
        }
    }

    /// The string field `name`.
    pub fn string(&self, name: &str) -> (r: Result<&str, FieldError>)
        ensures
            !self.spec_map().contains_key(name@) ==> (r matches Err(FieldError::NotFound)),
            self.spec_map().contains_key(name@) ==> match self.spec_map()[name@] {
                LdtkEntityField::String(v) => (r matches Ok(s) && s@ == v@),
                _ => (r matches Err(FieldError::WrongType)),
            },
    {
        match self.get(name) {
            Some(LdtkEntityField::String(v)) => Ok(v.as_str()),
            Some(_) => Err(FieldError::WrongType),
            None => Err(FieldError::NotFound),
        }
    }

    /// The point field `name`.
    pub fn point(&self, name: &str) -> (r: Result<(u32, u32), FieldError>)
        ensures
            !self.spec_map().contains_key(name@) ==> r == Err::<(u32, u32), FieldError>(FieldError::NotFound),
            self.spec_map().contains_key(name@) ==> r == match self.spec_map()[name@] {
                LdtkEntityField::Point(x, y) => Ok((x, y)),
                _ => Err(FieldError::WrongType),
            },
    {
        match self.get(name) {
            Some(LdtkEntityField::Point(x, y)) => Ok((*x, *y)),
            Some(_) => Err(FieldError::WrongType),
            None => Err(FieldError::NotFound),
        }
    }
}

/// What loading the level `next` does to the levels present (each by entity and identifier):
/// every other level is to be unloaded; the new level is to be loaded unless it is already
/// present (reloading a level is ignored).
pub fn handle_load_level_begin(next: &str, levels: &Vec<(Entity, String)>) -> (r: (Vec<Entity>, bool))
    ensures
        r.0@ == levels@.filter(|l: (Entity, String)| l.1@ != next@).map_values(|l: (Entity, String)| l.0),
        r.1 == !(exists|i: int| 0 <= i < levels@.len() && (#[trigger] levels@[i]).1@ == next@),
{
    let ghost pred = |l: (Entity, String)| l.1@ != next@;
    let ghost first = |l: (Entity, String)| l.0;
    let mut unload: Vec<Entity> = Vec::new();
    let mut identity = false;
    let mut i: usize = 0;
    while i < levels.len()
        invariant
            i <= levels.len(),
            pred == (|l: (Entity, String)| l.1@ != next@),
            first == (|l: (Entity, String)| l.0),
            unload@ == levels@.take(i as int).filter(pred).map_values(first),
            identity == (exists|j: int| 0 <= j < i && (#[trigger] levels@[j]).1@ == next@),
        decreases levels.len() - i,
    {
        let ghost ti = levels@.take(i + 1);
        let ghost prev = unload@;
        proof {
            reveal_with_fuel(Seq::<_>::filter, 1);
            assert(ti.drop_last() =~= levels@.take(i as int));
            assert(ti.last() == levels@[i as int]);
        }
        if str_eq(levels[i].1.as_str(), next) {
            identity = true;
        } else {
            unload.push(levels[i].0);
            proof {
                assert(ti.drop_last().filter(pred).push(ti.last()).map_values(first) =~= prev.push(levels@[i as int].0));
            }
        }
        i = i + 1;
        proof {
            assert(unload@ =~= levels@.take(i as int).filter(pred).map_values(first));
        }
    }
    proof {
        assert(levels@.take(i as int) =~= levels@);
    }
    (unload, !identity)
}

/// The loading state of an asset.
#[derive(Debug, Clone, Copy, PartialEq, Eq, Structural)]
pub enum LoadState {
    NotLoaded,
    Loading,
    Loaded,
    Failed,
}

/// Why a level could not be loaded.
#[derive(Debug, Clone, Copy, PartialEq, Eq, Structural)]
pub enum LevelLoadError {
    /// The level's asset handle was dropped.
    HandleDropped,
    /// The handle of one of the level's dependencies was dropped.
    DependencyDropped,
    /// Loading the level, or one of its dependencies, failed.
    Failed,
}

/// Whether a level is ready, from the loading state of its asset and of the asset's
/// dependencies: the checks are made in this order: a dropped handle is an error, anything
/// still loading means not ready yet, a dropped dependency is an error, both loaded means ready,
/// and otherwise loading failed.
pub open spec fn spec_level_load_status(asset: LoadState, dependencies: LoadState) -> Result<bool, LevelLoadError> {
    if asset == LoadState::NotLoaded {
        Err(LevelLoadError::HandleDropped)
    } else if asset == LoadState::Loading || dependencies == LoadState::Loading {
        Ok(false)
    } else if asset == LoadState::Loaded && dependencies == LoadState::NotLoaded {
        Err(LevelLoadError::DependencyDropped)
    } else if asset == LoadState::Loaded && dependencies == LoadState::Loaded {
        Ok(true)
    } else {
        Err(LevelLoadError::Failed)
    }
}

pub fn level_load_status(asset: LoadState, dependencies: LoadState) -> (r: Result<bool, LevelLoadError>)
    ensures
        r == spec_level_load_status(asset, dependencies),
{
    match (asset, dependencies) {
        (LoadState::NotLoaded, _) => Err(LevelLoadError::HandleDropped),
        (LoadState::Loading, _) | (_, LoadState::Loading) => Ok(false),
        (LoadState::Loaded, LoadState::NotLoaded) => Err(LevelLoadError::DependencyDropped),
        (LoadState::Loaded, LoadState::Loaded) => Ok(true),
        _ => Err(LevelLoadError::Failed),
    }
}

/// One frame of loading the current level: whether its entities are to be spawned now (the
/// first frame in which it is ready), and the progress (done, total); the level is marked
/// spawned once ready. A dropped handle or a failed load is an error.
pub fn level_progress(spawned: &mut LevelSpawned, asset: LoadState, dependencies: LoadState) -> (r: Result<(bool, (u32, u32)), LevelLoadError>)
    ensures
        match spec_level_load_status(asset, dependencies) {
            Err(e) => r == Err::<(bool, (u32, u32)), LevelLoadError>(e) && *final(spawned) == *old(spawned),
            Ok(done) => r == Ok::<(bool, (u32, u32)), LevelLoadError>((done && !old(spawned).0, (if done { 1u32 } else { 0u32 }, 1u32)))
                && final(spawned).0 == (old(spawned).0 || done),
        },
{
    let done = match level_load_status(asset, dependencies) {
        Ok(d) => d,
        Err(e) => {
            return Err(e);
        },
    };
    let spawn_now = done && !spawned.0;
    if done {
        spawned.0 = true;
    }
    Ok((spawn_now, (if done { 1 } else { 0 }, 1)))
}

/// The size of a level in pixels.
#[derive(Debug, Clone, Copy, PartialEq, Eq, Structural)]
pub struct LevelBounds(pub u32, pub u32);

/// The grid position of a tile at pixel position (`x`, `y`) on a grid of `grid_size` pixels.
pub fn tile_grid_position(x: u32, y: u32, grid_size: u32) -> (r: (u32, u32))
    requires
        grid_size > 0,
    ensures
        r == ((x / grid_size) as u32, (y / grid_size) as u32),
{
    (x / grid_size, y / grid_size)
}

/// The index of the tile at pixel position (`x`, `y`) of a tileset `width` tiles wide, whose
/// tiles are `tile_size` pixels wide.
pub fn tile_texture_index(x: u32, y: u32, width: u32, tile_size: u32) -> (r: u32)
    requires
        tile_size > 0,
        y * width + x <= u32::MAX,
    ensures
        r == (y * width + x) / (tile_size as int),
{
    proof {
        assert(0 <= y * width) by (nonlinear_arith);
    }
    (y * width + x) / tile_size
}

/// A tile to spawn: its identifier, its grid position, its index in the tileset's texture and
/// its opacity (by the bits of a 32-bit float).
#[derive(Debug, Clone, Copy, PartialEq, Eq, Structural)]
pub struct TilePlan {
    pub id: u32,
    pub position: Point2,
    pub texture_index: u32,
    pub alpha_bits: u32,
}

/// What placing the tiles of a layer needs of their tileset, when the project has it: tiles of
/// at least a pixel, and texture positions whose index fits a `u32`.
pub open spec fn tiles_placeable(world: Ldtk, tiles: LdtkTiles) -> bool {
    let map = tileset_map(world.tilesets@);
    map.contains_key(tiles.tileset) ==> {
        let ts = map[tiles.tileset];
        &&& ts.tile_size > 0
        &&& forall|i: int|
            0 <= i < tiles.tiles@.len() ==> (#[trigger] tiles.tiles@[i]).tileset_position_px.y * ts.width
                + tiles.tiles@[i].tileset_position_px.x <= u32::MAX
    }
}

/// The tiles of a layer whose cells are `grid_size` pixels wide, placed on the grid and
/// indexed into their tileset's texture; an error naming the tileset when the project lacks it.
pub fn tilemap_plan(world: &Ldtk, tiles: &LdtkTiles, grid_size: u32) -> (r: Result<Vec<TilePlan>, u32>)
    requires
        grid_size > 0,
        tiles_placeable(*world, *tiles),
    ensures
        !tileset_map(world.tilesets@).contains_key(tiles.tileset) ==> r == Err::<Vec<TilePlan>, u32>(tiles.tileset),
        tileset_map(world.tilesets@).contains_key(tiles.tileset) ==> (r matches Ok(plan) && {
            let ts = tileset_map(world.tilesets@)[tiles.tileset];
            plan@ == tiles.tiles@.map_values(|t: crate::logic::ldtk::LdtkTile| TilePlan {
                id: t.id,
                position: Point2 { x: (t.grid_position_px.x / grid_size) as u32, y: (t.grid_position_px.y / grid_size) as u32 },
                texture_index: ((t.tileset_position_px.y * ts.width + t.tileset_position_px.x) / (ts.tile_size as int)) as u32,
                alpha_bits: t.alpha_bits,
            })
        }),
{
    let ts = match world.tileset(tiles.tileset) {
        Some(ts) => ts,
        None => {
            return Err(tiles.tileset);
        },
    };
    let mut plan: Vec<TilePlan> = Vec::new();
    let mut i: usize = 0;
    while i < tiles.tiles.len()
        invariant
            i <= tiles.tiles@.len(),
            grid_size > 0,
            ts.tile_size > 0,
            forall|k: int|
                0 <= k < tiles.tiles@.len() ==> (#[trigger] tiles.tiles@[k]).tileset_position_px.y * ts.width
                    + tiles.tiles@[k].tileset_position_px.x <= u32::MAX,
            plan@ == tiles.tiles@.take(i as int).map_values(|t: crate::logic::ldtk::LdtkTile| TilePlan {
                id: t.id,
                position: Point2 { x: (t.grid_position_px.x / grid_size) as u32, y: (t.grid_position_px.y / grid_size) as u32 },
                texture_index: ((t.tileset_position_px.y * ts.width + t.tileset_position_px.x) / (ts.tile_size as int)) as u32,
                alpha_bits: t.alpha_bits,
            }),
        decreases tiles.tiles.len() - i,
    {
        let t = tiles.tiles[i];
        assert(t.tileset_position_px.y * ts.width + t.tileset_position_px.x <= u32::MAX);
        let (x, y) = tile_grid_position(t.grid_position_px.x, t.grid_position_px.y, grid_size);
        let index = tile_texture_index(t.tileset_position_px.x, t.tileset_position_px.y, ts.width, ts.tile_size);
        plan.push(TilePlan { id: t.id, position: Point2 { x, y }, texture_index: index, alpha_bits: t.alpha_bits });
        proof {
            assert(tiles.tiles@.take(i + 1) =~= tiles.tiles@.take(i as int).push(tiles.tiles@[i as int]));
        }
        i = i + 1;
    }
    proof {
        assert(tiles.tiles@.take(i as int) =~= tiles.tiles@);
    }
    Ok(plan)
}

/// The position of the last pair with the key `key`, which holds the key's entry.
pub fn last_index_of<T>(pairs: &Vec<(String, T)>, key: &str) -> (r: Option<usize>)
    ensures
        match r {
            Some(i) => i < pairs@.len() && pairs@[i as int].0@ == key@ && pairs_map(pairs@).contains_key(key@)
                && pairs_map(pairs@)[key@] == pairs@[i as int].1,
            None => !pairs_map(pairs@).contains_key(key@),
        },
{
    let mut i: usize = pairs.len();
    proof {
        assert(pairs@.take(i as int) =~= pairs@);
    }
    while i > 0
        invariant
            i <= pairs@.len(),
            pairs_map(pairs@).contains_key(key@) ==> pairs_map(pairs@.take(i as int)).contains_key(key@)
                && pairs_map(pairs@)[key@] == pairs_map(pairs@.take(i as int))[key@],
            !pairs_map(pairs@).contains_key(key@) ==> !pairs_map(pairs@.take(i as int)).contains_key(key@),
        decreases i,
    {
        proof {
            assert(pairs@.take(i as int).drop_last() =~= pairs@.take(i - 1));
            assert(pairs@.take(i as int).last() == pairs@[i - 1]);
        }
        if str_eq(pairs[i - 1].0.as_str(), key) {
            return Some(i - 1);
        }
        i = i - 1;
    }
    proof {
        assert(pairs@.take(0) =~= Seq::<(String, T)>::empty());
    }
    None
}

/// The systems that set up levels, by level identifier (a later registration replaces an
/// earlier one).
#[derive(Debug, Clone, Default)]
pub struct RegisteredLevels(pub Vec<(String, u64)>);

/// The systems that set up placed entities, by entity identifier.
#[derive(Debug, Clone, Default)]
pub struct RegisteredLevelEntities(pub Vec<(String, u64)>);

/// The systems that set up integer-grid cells, by layer identifier and cell value.
#[derive(Debug, Clone, Default)]
pub struct RegisteredLevelIntCells(pub Vec<(String, u32, u64)>);

impl RegisteredLevels {
    pub open spec fn spec_map(&self) -> Map<Seq<char>, u64> {
        pairs_map(self.0@)
    }

    /// Registers `system` as the set-up of the level `level`.
    pub fn register(&mut self, level: String, system: u64)
        ensures
            final(self).spec_map() == old(self).spec_map().insert(level@, system),
    {
        let ghost prev = self.0@;
        self.0.push((level, system));
        proof {
            assert(self.0@.drop_last() =~= prev);
        }
    }

    /// The set-up of the level `level`.
    pub fn get(&self, level: &str) -> (r: Option<u64>)
        ensures
            r == (if self.spec_map().contains_key(level@) { Some(self.spec_map()[level@]) } else { None }),
    {
        match last_index_of(&self.0, level) {
            Some(i) => Some(self.0[i].1),
            None => None,
        }
    }
}

/// Registering a level again replaces its earlier system and leaves every other level as it
/// was: after `register(level, a)` and `register(level, b)`, `get(level)` gives `b`.
pub proof fn law_later_level_registration_wins(
    r0: RegisteredLevels,
    r1: RegisteredLevels,
    r2: RegisteredLevels,
    level: Seq<char>,
    a: u64,
    b: u64,
)
    requires
        r1.spec_map() == r0.spec_map().insert(level, a),
        r2.spec_map() == r1.spec_map().insert(level, b),
    ensures
        r2.spec_map().contains_key(level),
        r2.spec_map()[level] == b,
        forall|k: Seq<char>|
            k != level ==> (#[trigger] r2.spec_map().contains_key(k) == r0.spec_map().contains_key(k)) && (
            r0.spec_map().contains_key(k) ==> r2.spec_map()[k] == r0.spec_map()[k]),
{
}

impl RegisteredLevelEntities {
    pub open spec fn spec_map(&self) -> Map<Seq<char>, u64> {
        pairs_map(self.0@)
    }

    /// Registers `system` as the set-up of the entities `identifier`.
    pub fn register(&mut self, identifier: String, system: u64)
        ensures
            final(self).spec_map() == old(self).spec_map().insert(identifier@, system),
    {
        let ghost prev = self.0@;
        self.0.push((identifier, system));
        proof {
            assert(self.0@.drop_last() =~= prev);
        }
    }

    /// The set-up of the entities `identifier`.
    pub fn get(&self, identifier: &str) -> (r: Option<u64>)
        ensures
            r == (if self.spec_map().contains_key(identifier@) { Some(self.spec_map()[identifier@]) } else { None }),
    {
        match last_index_of(&self.0, identifier) {
            Some(i) => Some(self.0[i].1),
            None => None,
        }
    }
}

/// The system of each (layer, value), a later triple replacing an earlier one.
pub open spec fn triples_map(t: Seq<(String, u32, u64)>) -> Map<(Seq<char>, u32), u64>
    decreases t.len(),
{
    if t.len() == 0 {
        Map::empty()
    } else {
        triples_map(t.drop_last()).insert((t.last().0@, t.last().1), t.last().2)
    }
}

impl RegisteredLevelIntCells {
    pub open spec fn spec_map(&self) -> Map<(Seq<char>, u32), u64> {
        triples_map(self.0@)
    }

    /// Registers `system` as the set-up of the cells of value `value` in the layer `layer`.
    pub fn register(&mut self, layer: &str, value: u32, system: u64)
        ensures
            final(self).spec_map() == old(self).spec_map().insert((layer@, value), system),
    {
        let ghost prev = self.0@;
        self.0.push((layer.to_owned(), value, system));
        proof {
            assert(self.0@.drop_last() =~= prev);
        }
    }

    /// The set-up of the cells of value `value` in the layer `layer`.
    pub fn get(&self, layer: &str, value: u32) -> (r: Option<u64>)
        ensures
            r == (if self.spec_map().contains_key((layer@, value)) {
                Some(self.spec_map()[(layer@, value)])
            } else {
                None
            }),
    {
        let mut i: usize = self.0.len();
        proof {
            assert(self.0@.take(i as int) =~= self.0@);
        }
        while i > 0
            invariant
                i <= self.0@.len(),
                triples_map(self.0@).contains_key((layer@, value)) ==> triples_map(self.0@.take(i as int)).contains_key(
                    (layer@, value),
                ) && triples_map(self.0@)[(layer@, value)] == triples_map(self.0@.take(i as int))[(layer@, value)],
                !triples_map(self.0@).contains_key((layer@, value)) ==> !triples_map(self.0@.take(i as int)).contains_key(
                    (layer@, value),
                ),
            decreases i,
        {
            proof {
                assert(self.0@.take(i as int).drop_last() =~= self.0@.take(i - 1));
                assert(self.0@.take(i as int).last() == self.0@[i - 1]);
            }
            if self.0[i - 1].1 == value && str_eq(self.0[i - 1].0.as_str(), layer) {
                return Some(self.0[i - 1].2);
            }
            i = i - 1;
        }
        proof {
            assert(self.0@.take(0) =~= Seq::<(String, u32, u64)>::empty());
        }
        None
    }
}

/// A layer just spawned: its identifier, its level entity and the level's identifier (when
/// the parent is a level), and its children that are placed entities (with their identifiers)
/// and integer-grid cells (with their values).
#[derive(Debug, Clone)]
pub struct SpawnedLayer {
    pub layer_id: String,
    pub level_entity: Entity,
    pub level_id: Option<String>,
    pub entities: Vec<(Entity, String)>,
    pub int_cells: Vec<(Entity, u32)>,
}

/// The set-ups to run after layers were spawned: each level set-up with its level, and each
/// entity and cell set-up with the entities it sets up, in order.
#[derive(Debug, Clone)]
pub struct LevelTargets {
    pub levels: Vec<(u64, Entity)>,
    pub entities: Vec<(u64, Vec<Entity>)>,
    pub int_cells: Vec<(u64, Vec<Entity>)>,
}

pub open spec fn level_pairs(reg: Map<Seq<char>, u64>, layers: Seq<SpawnedLayer>) -> Seq<(u64, Entity)>
    decreases layers.len(),
{
    if layers.len() == 0 {
        Seq::empty()
    } else {
        let l = layers.last();
        level_pairs(reg, layers.drop_last()) + match l.level_id {
            Some(id) => if reg.contains_key(id@) { seq![(reg[id@], l.level_entity)] } else { Seq::empty() },
            None => Seq::empty(),
        }
    }
}

pub open spec fn entity_child_pairs(reg: Map<Seq<char>, u64>, es: Seq<(Entity, String)>) -> Seq<(u64, Entity)>
    decreases es.len(),
{
    if es.len() == 0 {
        Seq::empty()
    } else {
        entity_child_pairs(reg, es.drop_last()) + if reg.contains_key(es.last().1@) {
            seq![(reg[es.last().1@], es.last().0)]
        } else {
            Seq::empty()
        }
    }
}

/// Each placed entity of the layers, in order, with its set-up (entities without one left out).
pub open spec fn entity_pairs(reg: Map<Seq<char>, u64>, layers: Seq<SpawnedLayer>) -> Seq<(u64, Entity)>
    decreases layers.len(),
{
    if layers.len() == 0 {
        Seq::empty()
    } else {
        entity_pairs(reg, layers.drop_last()) + entity_child_pairs(reg, layers.last().entities@)
    }
}

pub open spec fn cell_child_pairs(reg: Map<(Seq<char>, u32), u64>, layer: Seq<char>, cs: Seq<(Entity, u32)>) -> Seq<(u64, Entity)>
    decreases cs.len(),
{
    if cs.len() == 0 {
        Seq::empty()
    } else {
        cell_child_pairs(reg, layer, cs.drop_last()) + if reg.contains_key((layer, cs.last().1)) {
            seq![(reg[(layer, cs.last().1)], cs.last().0)]
        } else {
            Seq::empty()
        }
    }
}

/// Each integer-grid cell of the layers, in order, with its set-up (cells without one left out).
pub open spec fn cell_pairs(reg: Map<(Seq<char>, u32), u64>, layers: Seq<SpawnedLayer>) -> Seq<(u64, Entity)>
    decreases layers.len(),
{
    if layers.len() == 0 {
        Seq::empty()
    } else {
        cell_pairs(reg, layers.drop_last()) + cell_child_pairs(reg, layers.last().layer_id@, layers.last().int_cells@)
    }
}

/// Whether a pair belongs to the system `k`.
pub open spec fn with_system(k: u64) -> spec_fn((u64, Entity)) -> bool {
    |p: (u64, Entity)| p.0 == k
}

/// The entities of pairs, in order.
pub open spec fn entities_of(s: Seq<(u64, Entity)>) -> Seq<Entity> {
    s.map_values(|p: (u64, Entity)| p.1)
}

/// Whether `g` groups `pairs` by system: one group per system that occurs, each holding the
/// entities of that system in order.
pub open spec fn grouped(g: Seq<(u64, Vec<Entity>)>, pairs: Seq<(u64, Entity)>) -> bool {
    &&& forall|i: int, j: int| 0 <= i < j < g.len() ==> (#[trigger] g[i]).0 != (#[trigger] g[j]).0
    &&& forall|i: int|
        0 <= i < g.len() ==> (#[trigger] g[i]).1@ == entities_of(pairs.filter(with_system(g[i].0)))
    &&& forall|k: int| 0 <= k < pairs.len() ==> exists|i: int| 0 <= i < g.len() && (#[trigger] g[i]).0 == (#[trigger] pairs[k]).0
}

proof fn lemma_group_push(s: Seq<(u64, Entity)>, x: (u64, Entity), key: u64)
    ensures
        entities_of(s.push(x).filter(with_system(key))) == (if x.0 == key {
            entities_of(s.filter(with_system(key))).push(x.1)
        } else {
            entities_of(s.filter(with_system(key)))
        }),
{
    reveal_with_fuel(Seq::<_>::filter, 1);
    assert(s.push(x).drop_last() =~= s);
    let f = s.filter(with_system(key));
    if x.0 == key {
        assert(s.push(x).filter(with_system(key)) == f.push(x));
        assert(entities_of(f.push(x)) =~= entities_of(f).push(x.1));
    } else {
        assert(s.push(x).filter(with_system(key)) == f);
    }
}

/// Groups system-entity pairs by system, in the order in which the systems first occur.
fn group_pairs(pairs: &Vec<(u64, Entity)>) -> (g: Vec<(u64, Vec<Entity>)>)
    ensures
        grouped(g@, pairs@),
{
    let mut groups: Vec<(u64, Vec<Entity>)> = Vec::new();
    let mut i: usize = 0;
    while i < pairs.len()
        invariant
            i <= pairs@.len(),
            grouped(groups@, pairs@.take(i as int)),
        decreases pairs.len() - i,
    {
        let (key, e) = pairs[i];
        let ghost prev = groups@;
        let ghost before = pairs@.take(i as int);
        proof {
            assert(pairs@.take(i + 1) =~= before.push((key, e)));
        }
        let mut j: usize = 0;
        while j < groups.len() && groups[j].0 != key
            invariant
                j <= groups@.len(),
                forall|k: int| 0 <= k < j ==> (#[trigger] groups@[k]).0 != key,
            decreases groups.len() - j,
        {
            j = j + 1;
        }
        if j < groups.len() {
            let (k, mut list) = groups.remove(j);
            let ghost old_list = list@;
            list.push(e);
            groups.insert(j, (k, list));
            proof {
                assert(k == key);
                assert(old_list == prev[j as int].1@);
                assert(groups@ =~= prev.update(j as int, (k, groups@[j as int].1)));
                assert(groups@[j as int].1@ == old_list.push(e));
                let after = pairs@.take(i + 1);
                assert forall|a: int| 0 <= a < groups@.len() implies (#[trigger] groups@[a]).1@ == entities_of(
                    after.filter(with_system(groups@[a].0)),
                ) by {
                    let ka = groups@[a].0;
                    lemma_group_push(before, (key, e), ka);
                    assert(ka == prev[a].0);
                    if a != j {
                        assert(groups@[a] == prev[a]);
                        assert(prev[a].0 != prev[j as int].0);
                    }
                }
                assert forall|a: int, b: int| 0 <= a < b < groups@.len() implies (#[trigger] groups@[a]).0
                    != (#[trigger] groups@[b]).0 by {
                    assert(groups@[a].0 == prev[a].0 && groups@[b].0 == prev[b].0);
                }
                assert forall|k: int| 0 <= k < after.len() implies exists|a: int|
                    0 <= a < groups@.len() && (#[trigger] groups@[a]).0 == (#[trigger] after[k]).0 by {
                    if k < before.len() {
                        assert(after[k] == before[k]);
                        let a = choose|a: int| 0 <= a < prev.len() && (#[trigger] prev[a]).0 == before[k].0;
                        assert(groups@[a].0 == prev[a].0);
                    } else {
                        assert(groups@[j as int].0 == key);
                    }
                }
            }
        } else {
            let mut list: Vec<Entity> = Vec::new();
            list.push(e);
            groups.push((key, list));
            proof {
                let after = pairs@.take(i + 1);
                assert forall|a: int| 0 <= a < groups@.len() implies (#[trigger] groups@[a]).1@ == entities_of(
                    after.filter(with_system(groups@[a].0)),
                ) by {
                    let ka = groups@[a].0;
                    lemma_group_push(before, (key, e), ka);
                    if a == prev.len() {
                        assert(before.filter(with_system(key)) =~= Seq::<(u64, Entity)>::empty()) by {
                            assert forall|m: int| 0 <= m < before.len() implies !(with_system(key)(
                                #[trigger] before[m],
                            )) by {
                                let a2 = choose|a2: int| 0 <= a2 < prev.len() && (#[trigger] prev[a2]).0 == before[m].0;
                                assert(prev[a2].0 != key);
                            }
                            before.lemma_all_neg_filter_empty(with_system(key));
                        }
                        assert(groups@[a].1@ =~= seq![e]);
                        assert(ka == key);
                        assert(entities_of(before.filter(with_system(key))) =~= Seq::<Entity>::empty());
                        assert(Seq::<Entity>::empty().push(e) =~= seq![e]);
                    } else {
                        assert(groups@[a] == prev[a]);
                        assert(prev[a].0 != key);
                    }
                }
                assert forall|a: int, b: int| 0 <= a < b < groups@.len() implies (#[trigger] groups@[a]).0
                    != (#[trigger] groups@[b]).0 by {
                    if b == prev.len() {
                        assert(groups@[a] == prev[a]);
                    } else {
                        assert(groups@[a] == prev[a] && groups@[b] == prev[b]);
                    }
                }
                assert forall|k: int| 0 <= k < after.len() implies exists|a: int|
                    0 <= a < groups@.len() && (#[trigger] groups@[a]).0 == (#[trigger] after[k]).0 by {
                    if k < before.len() {
                        assert(after[k] == before[k]);
                        let a = choose|a: int| 0 <= a < prev.len() && (#[trigger] prev[a]).0 == before[k].0;
                        assert(groups@[a] == prev[a]);
                    } else {
                        assert(groups@[prev.len() as int].0 == key);
                    }
                }
            }
        }
        i = i + 1;
    }
    proof {
        assert(pairs@.take(i as int) =~= pairs@);
    }
    groups
}

/// The set-ups to run for layers just spawned: each level whose level has a set-up (once per
/// set-up and level), and each placed entity and cell that has a set-up, grouped by set-up.
pub fn collect_level_targets(
    levels: &RegisteredLevels,
    entities: &RegisteredLevelEntities,
    int_cells: &RegisteredLevelIntCells,
    layers: &Vec<SpawnedLayer>,
) -> (t: LevelTargets)
    ensures
        t.levels@.no_duplicates(),
        t.levels@.to_set() == level_pairs(levels.spec_map(), layers@).to_set(),
        grouped(t.entities@, entity_pairs(entities.spec_map(), layers@)),
        grouped(t.int_cells@, cell_pairs(int_cells.spec_map(), layers@)),
{
    let mut level_list: Vec<(u64, Entity)> = Vec::new();
    let mut entity_list: Vec<(u64, Entity)> = Vec::new();
    let mut cell_list: Vec<(u64, Entity)> = Vec::new();
    let mut i: usize = 0;
    while i < layers.len()
        invariant
            i <= layers@.len(),
            level_list@.no_duplicates(),
            level_list@.to_set() == level_pairs(levels.spec_map(), layers@.take(i as int)).to_set(),
            entity_list@ == entity_pairs(entities.spec_map(), layers@.take(i as int)),
            cell_list@ == cell_pairs(int_cells.spec_map(), layers@.take(i as int)),
        decreases layers.len() - i,
    {
        let layer = &layers[i];
        proof {
            assert(layers@.take(i + 1).drop_last() =~= layers@.take(i as int));
            assert(layers@.take(i + 1).last() == layers@[i as int]);
        }
        let ghost prev_levels = level_list@;
        match &layer.level_id {
            Some(id) => {
                match levels.get(id.as_str()) {
                    Some(sys) => {
                        let pair = (sys, layer.level_entity);
                        let mut seen = false;
                        let mut k: usize = 0;
                        while k < level_list.len()
                            invariant
                                k <= level_list@.len(),
                                seen == (exists|m: int| 0 <= m < k && level_list@[m] == pair),
                            decreases level_list.len() - k,
                        {
                            if level_list[k].0 == pair.0 && level_list[k].1.0 == pair.1.0 {
                                seen = true;
                            }
                            k = k + 1;
                        }
                        if !seen {
                            level_list.push(pair);
                            proof {
                                prev_levels.lemma_push_to_set_commute(pair);
                                assert(level_list@ == prev_levels.push(pair));
                                assert forall|a: int, b: int| 0 <= a < b < level_list@.len() implies level_list@[a]
                                    != level_list@[b] by {
                                    if b == prev_levels.len() {
                                        assert(level_list@[a] == prev_levels[a]);
                                    }
                                }
                            }
                        } else {
                            proof {
                                let m = choose|m: int| 0 <= m < prev_levels.len() && prev_levels[m] == pair;
                                assert(prev_levels.contains(pair));
                                assert(prev_levels.to_set().contains(pair));
                                assert(prev_levels.to_set().insert(pair) =~= prev_levels.to_set());
                            }
                        }
                        proof {
                            assert(level_pairs(levels.spec_map(), layers@.take(i + 1)) == level_pairs(
                                levels.spec_map(),
                                layers@.take(i as int),
                            ) + seq![pair]);
                            Seq::lemma_to_set_insert_commutes(level_pairs(levels.spec_map(), layers@.take(i as int)), pair);
                        }
                    },
                    None => {
                        proof {
                            assert(level_pairs(levels.spec_map(), layers@.take(i + 1)) =~= level_pairs(
                                levels.spec_map(),
                                layers@.take(i as int),
                            ));
                        }
                    },
                }
            },
            None => {
                proof {
                    assert(level_pairs(levels.spec_map(), layers@.take(i + 1)) =~= level_pairs(
                        levels.spec_map(),
                        layers@.take(i as int),
                    ));
                }
            },
        }
        let ghost prev_entities = entity_list@;
        let mut j: usize = 0;
        while j < layer.entities.len()
            invariant
                j <= layer.entities@.len(),
                entity_list@ == prev_entities + entity_child_pairs(entities.spec_map(), layer.entities@.take(j as int)),
            decreases layer.entities.len() - j,
        {
            let (e, id) = (layer.entities[j].0, &layer.entities[j].1);
            proof {
                assert(layer.entities@.take(j + 1).drop_last() =~= layer.entities@.take(j as int));
                assert(layer.entities@.take(j + 1).last() == layer.entities@[j as int]);
            }
            match entities.get(id.as_str()) {
                Some(sys) => {
                    entity_list.push((sys, e));
                    proof {
                        assert(entity_list@ =~= prev_entities + entity_child_pairs(entities.spec_map(), layer.entities@.take(j + 1)));
                    }
                },
                None => {
                    proof {
                        assert(entity_child_pairs(entities.spec_map(), layer.entities@.take(j + 1)) =~= entity_child_pairs(
                            entities.spec_map(),
                            layer.entities@.take(j as int),
                        ));
                    }
                },
            }
            j = j + 1;
        }
        proof {
            assert(layer.entities@.take(j as int) =~= layer.entities@);
        }
        let ghost prev_cells = cell_list@;
        let mut c: usize = 0;
        while c < layer.int_cells.len()
            invariant
                c <= layer.int_cells@.len(),
                cell_list@ == prev_cells + cell_child_pairs(int_cells.spec_map(), layer.layer_id@, layer.int_cells@.take(c as int)),
            decreases layer.int_cells.len() - c,
        {
            let (e, value) = layer.int_cells[c];
            proof {
                assert(layer.int_cells@.take(c + 1).drop_last() =~= layer.int_cells@.take(c as int));
                assert(layer.int_cells@.take(c + 1).last() == layer.int_cells@[c as int]);
            }
            match int_cells.get(layer.layer_id.as_str(), value) {
                Some(sys) => {
                    cell_list.push((sys, e));
                    proof {
                        assert(cell_list@ =~= prev_cells + cell_child_pairs(int_cells.spec_map(), layer.layer_id@, layer.int_cells@.take(c + 1)));
                    }
                },
                None => {
                    proof {
                        assert(cell_child_pairs(int_cells.spec_map(), layer.layer_id@, layer.int_cells@.take(c + 1)) =~= cell_child_pairs(
                            int_cells.spec_map(),
                            layer.layer_id@,
                            layer.int_cells@.take(c as int),
                        ));
                    }
                },
            }
            c = c + 1;
        }
        proof {
            assert(layer.int_cells@.take(c as int) =~= layer.int_cells@);
        }
        i = i + 1;
    }
    proof {
        assert(layers@.take(i as int) =~= layers@);
    }
    LevelTargets { levels: level_list, entities: group_pairs(&entity_list), int_cells: group_pairs(&cell_list) }
}

} // verus!
