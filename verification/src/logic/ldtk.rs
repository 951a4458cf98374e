use vstd::prelude::*;

use crate::color::{spec_srgba_hex, srgba_hex, HexColorError, Rgba8};
use crate::logic::level::{pairs_map, Fields, LdtkEntityField};
use crate::text::str_eq;

verus! {

/// The value of a field instance as a level file gives it: its type and, when set, its value.
#[derive(Debug, Clone, PartialEq, Eq)]
pub enum RawFieldData {
    Int(Option<u32>),
    /// A 32-bit floating-point number, by its bits.
    Float(Option<u32>),
    Bool(Option<bool>),
    String(Option<String>),
    /// A grid point (`cx`, `cy`).
    Point(Option<(u32, u32)>),
}

/// A field instance as a level file gives it.
#[derive(Debug, Clone, PartialEq, Eq)]
pub struct RawFieldInstance {
    pub id: String,
    pub data: RawFieldData,
}

/// An entity instance as a level file gives it: its identifier, unique identifier, pixel
/// position (y growing downwards) and fields.
#[derive(Debug, Clone, PartialEq, Eq)]
pub struct RawEntityInstance {
    pub id: String,
    pub iid: u128,
    pub px: Point2,
    pub field_instances: Vec<RawFieldInstance>,
}

/// A point in pixels or cells.
#[derive(Debug, Clone, Copy, PartialEq, Eq, Structural)]
pub struct Point2 {
    pub x: u32,
    pub y: u32,
}

/// A tile instance as a level file gives it: its opacity (by the bits of a 32-bit float), pixel
/// position (y growing downwards), position in the tileset, and tile identifier.
#[derive(Debug, Clone, Copy, PartialEq, Eq, Structural)]
pub struct RawTileInstance {
    pub alpha_bits: u32,
    pub px: Point2,
    pub src: Point2,
    pub t: u32,
}

/// The content of a layer instance as a level file gives it.
#[derive(Debug, Clone, PartialEq, Eq)]
pub enum RawLayerData {
    Entities(Vec<RawEntityInstance>),
    IntGrid {
        int_grid_csv: Vec<u32>,
        auto_layer_tiles: Option<Vec<RawTileInstance>>,
        tileset: Option<u32>,
        tileset_image: String,
    },
}

/// A layer instance as a level file gives it: identifier, size in cells, cell size in pixels
/// and content.
#[derive(Debug, Clone, PartialEq, Eq)]
pub struct RawLayerInstance {
    pub id: String,
    pub width: u32,
    pub height: u32,
    pub grid_size: u32,
    pub data: RawLayerData,
}

/// A level as a level file gives it.
#[derive(Debug, Clone, PartialEq, Eq)]
pub struct RawLevel {
    /// The background color, in hexadecimal.
    pub bg_color: String,
    pub width_px: u32,
    pub height_px: u32,
    pub layer_instances: Vec<RawLayerInstance>,
    pub field_instances: Vec<RawFieldInstance>,
}

/// A cell of an integer grid: its value and position (y growing upwards).
#[derive(Debug, Clone, Copy, PartialEq, Eq, Structural)]
pub struct LdtkIntCell {
    pub value: u32,
    pub x: u32,
    pub y: u32,
}

/// A tile: its identifier, pixel position (y growing upwards), position in the tileset and
/// opacity (by the bits of a 32-bit float).
#[derive(Debug, Clone, Copy, PartialEq, Eq, Structural)]
pub struct LdtkTile {
    pub id: u32,
    pub grid_position_px: Point2,
    pub tileset_position_px: Point2,
    pub alpha_bits: u32,
}

/// The tiles of an integer-grid layer, drawn from a tileset whose image lies at a path relative
/// to the level.
#[derive(Debug, Clone, PartialEq, Eq)]
pub struct LdtkTiles {
    pub tileset: u32,
    pub tileset_image: String,
    pub tiles: Vec<LdtkTile>,
}

/// A placed entity: its identifier, unique identifier, pixel position (y growing upwards) and
/// fields.
#[derive(Debug, Clone, PartialEq, Eq)]
pub struct LdtkEntity {
    pub id: String,
    pub iid: u128,
    pub grid_position_px: Point2,
    pub fields: Fields,
}

/// The content of a layer.
#[derive(Debug, Clone, PartialEq, Eq)]
pub enum LdtkLayerData {
    Entities(Vec<LdtkEntity>),
    IntGrid { grid: Vec<LdtkIntCell>, tiles: Option<LdtkTiles> },
}

/// A layer: its identifier, size in cells, cell size in pixels and content.
#[derive(Debug, Clone, PartialEq, Eq)]
pub struct LdtkLayer {
    pub id: String,
    pub width: u32,
    pub height: u32,
    pub grid_size: u32,
    pub data: LdtkLayerData,
}

/// A level: its background color, size in pixels, fields and layers.
#[derive(Debug, Clone, PartialEq, Eq)]
pub struct LdtkLevel {
    pub bg_color: Rgba8,
    pub width_px: u32,
    pub height_px: u32,
    pub fields: Fields,
    pub layers: Vec<LdtkLayer>,
}

/// A tileset: its tile size in pixels and its size in tiles.
#[derive(Debug, Clone, Copy, PartialEq, Eq, Structural)]
pub struct LdtkTileset {
    pub tile_size: u32,
    pub width: u32,
    pub height: u32,
}

/// A tileset definition as a project file gives it.
#[derive(Debug, Clone, Copy, PartialEq, Eq, Structural)]
pub struct RawTileset {
    pub uid: u32,
    pub tile_grid_size: u32,
    pub width: u32,
    pub height: u32,
}

/// A level of a project as its file gives it: identifier and path relative to the project.
#[derive(Debug, Clone, PartialEq, Eq)]
pub struct RawLevelPath {
    pub identifier: String,
    pub external_rel_path: String,
}

/// A project: its levels (identifier and path) and its tilesets (by unique identifier); a later
/// entry replaces an earlier one of the same key.
#[derive(Debug, Clone, PartialEq, Eq)]
pub struct Ldtk {
    pub levels: Vec<(String, String)>,
    pub tilesets: Vec<(u32, LdtkTileset)>,
}

/// Why a level could not be read.
#[derive(Debug, Clone, Copy, PartialEq, Eq, Structural)]
pub enum LdtkError {
    /// The background color is no hexadecimal color.
    BgColor(HexColorError),
}

// ---------------------------------------------------------------------------------------------
// Fields
// ---------------------------------------------------------------------------------------------

/// A field's value, with text as characters.
pub enum FieldValue {
    Int(u32),
    Float(u32),
    Bool(bool),
    Str(Seq<char>),
    Point(u32, u32),
}

pub open spec fn field_value(f: LdtkEntityField) -> FieldValue {
    match f {
        LdtkEntityField::Int(v) => FieldValue::Int(v),
        LdtkEntityField::Float(v) => FieldValue::Float(v),
        LdtkEntityField::Bool(v) => FieldValue::Bool(v),
        LdtkEntityField::String(v) => FieldValue::Str(v@),
        LdtkEntityField::Point(x, y) => FieldValue::Point(x, y),
    }
}

/// The value of a raw field, when it is set.
pub open spec fn raw_field_value(d: RawFieldData) -> Option<FieldValue> {
    match d {
        RawFieldData::Int(Some(v)) => Some(FieldValue::Int(v)),
        RawFieldData::Float(Some(v)) => Some(FieldValue::Float(v)),
        RawFieldData::Bool(Some(v)) => Some(FieldValue::Bool(v)),
        RawFieldData::String(Some(v)) => Some(FieldValue::Str(v@)),
        RawFieldData::Point(Some(p)) => Some(FieldValue::Point(p.0, p.1)),
        _ => None,
    }
}

/// The fields that raw field instances give: those that are set, in order.
pub open spec fn spec_fields(raw: Seq<RawFieldInstance>) -> Seq<(Seq<char>, FieldValue)>
    decreases raw.len(),
{
    if raw.len() == 0 {
        Seq::empty()
    } else {
        let rest = spec_fields(raw.drop_last());
        match raw_field_value(raw.last().data) {
            Some(v) => rest.push((raw.last().id@, v)),
            None => rest,
        }
    }
}

pub open spec fn fields_view(f: Seq<(String, LdtkEntityField)>) -> Seq<(Seq<char>, FieldValue)> {
    f.map_values(|p: (String, LdtkEntityField)| (p.0@, field_value(p.1)))
}

/// The fields of raw field instances: each one that is set, in order (unset ones are left out).
pub fn convert_fields(raw: &Vec<RawFieldInstance>) -> (f: Fields)
    ensures
        fields_view(f.0@) == spec_fields(raw@),
{
    let mut out: Vec<(String, LdtkEntityField)> = Vec::new();
    let mut i: usize = 0;
    while i < raw.len()
        invariant
            i <= raw@.len(),
            fields_view(out@) == spec_fields(raw@.take(i as int)),
        decreases raw.len() - i,
    {
        let r = &raw[i];
        let ghost prev = out@;
        let value: Option<LdtkEntityField> = match &r.data {
            RawFieldData::Int(Some(v)) => Some(LdtkEntityField::Int(*v)),
            RawFieldData::Float(Some(v)) => Some(LdtkEntityField::Float(*v)),
            RawFieldData::Bool(Some(v)) => Some(LdtkEntityField::Bool(*v)),
            RawFieldData::String(Some(v)) => Some(LdtkEntityField::String(v.clone())),
            RawFieldData::Point(Some(p)) => Some(LdtkEntityField::Point(p.0, p.1)),
            _ => None,
        };
        proof {
            assert(raw@.take(i + 1).drop_last() =~= raw@.take(i as int));
            assert(raw@.take(i + 1).last() == raw@[i as int]);
        }
        match value {
            Some(v) => {
                out.push((r.id.clone(), v));
                proof {
                    assert(fields_view(out@) =~= fields_view(prev).push((r.id@, field_value(v))));
                }
            },
            None => {},
        }
        i = i + 1;
    }
    proof {
        assert(raw@.take(i as int) =~= raw@);
    }
    Fields(out)
}

// ---------------------------------------------------------------------------------------------
// Layers
// ---------------------------------------------------------------------------------------------

/// The pixel row, counted upwards, of a row `y` counted downwards in a layer `top_px` high.
pub open spec fn flip_y(top_px: u32, y: u32) -> u32 {
    (top_px - y) as u32
}

/// The height of a layer in pixels.
pub open spec fn layer_top_px(l: RawLayerInstance) -> int {
    l.height * l.grid_size
}

/// What reading a layer needs: at least one row; a pixel height that fits a `u32`; every
/// entity and tile inside that height; and, for an integer grid, no more cells than its rows
/// hold.
pub open spec fn layer_readable(l: RawLayerInstance) -> bool {
    &&& l.height >= 1
    &&& layer_top_px(l) <= u32::MAX
    &&& match l.data {
        RawLayerData::Entities(es) => forall|i: int|
            0 <= i < es@.len() ==> (#[trigger] es@[i]).px.y <= layer_top_px(l),
        RawLayerData::IntGrid { int_grid_csv, auto_layer_tiles, .. } => {
            &&& (int_grid_csv@.len() > 0 ==> l.width > 0)
            &&& forall|i: int|
                0 <= i < int_grid_csv@.len() ==> #[trigger] ((i as u32) / l.width) <= l.height - 1
            &&& match auto_layer_tiles {
                Some(ts) => forall|i: int| 0 <= i < ts@.len() ==> (#[trigger] ts@[i]).px.y <= layer_top_px(l),
                None => true,
            }
        },
    }
}

/// The cell `i` of an integer grid `width` cells wide and `height` high: rows counted upwards.
pub open spec fn spec_int_cell(csv: Seq<u32>, width: u32, height: u32, i: int) -> LdtkIntCell {
    LdtkIntCell {
        value: csv[i],
        x: ((i as u32) % width) as u32,
        y: ((height - 1) - (i as u32) / width) as u32,
    }
}

pub open spec fn spec_tile(t: RawTileInstance, top_px: u32) -> LdtkTile {
    LdtkTile {
        id: t.t,
        grid_position_px: Point2 { x: t.px.x, y: flip_y(top_px, t.px.y) },
        tileset_position_px: t.src,
        alpha_bits: t.alpha_bits,
    }
}

/// Whether a placed entity is the one that a raw entity instance gives.
pub open spec fn entity_from(e: LdtkEntity, r: RawEntityInstance, top_px: u32) -> bool {
    &&& e.id@ == r.id@
    &&& e.iid == r.iid
    &&& e.grid_position_px == Point2 { x: r.px.x, y: flip_y(top_px, r.px.y) }
    &&& fields_view(e.fields.0@) == spec_fields(r.field_instances@)
}

/// Whether a layer is the one that a raw layer instance gives: its cells with rows counted
/// upwards, and its tiles when both the tiles and the tileset are given.
pub open spec fn layer_from(l: LdtkLayer, r: RawLayerInstance) -> bool {
    let top_px = layer_top_px(r) as u32;
    &&& l.id@ == r.id@
    &&& l.width == r.width
    &&& l.height == r.height
    &&& l.grid_size == r.grid_size
    &&& match (l.data, r.data) {
        (LdtkLayerData::Entities(es), RawLayerData::Entities(rs)) => {
            &&& es@.len() == rs@.len()
            &&& forall|i: int| 0 <= i < es@.len() ==> entity_from(#[trigger] es@[i], rs@[i], top_px)
        },
        (
            LdtkLayerData::IntGrid { grid, tiles },
            RawLayerData::IntGrid { int_grid_csv, auto_layer_tiles, tileset, tileset_image },
        ) => {
            &&& grid@ == Seq::new(int_grid_csv@.len(), |i: int| spec_int_cell(int_grid_csv@, r.width, r.height, i))
            &&& match (auto_layer_tiles, tileset) {
                (Some(ts), Some(uid)) => tiles matches Some(t) && t.tileset == uid && t.tileset_image@
                    == tileset_image@ && t.tiles@ == ts@.map_values(|x: RawTileInstance| spec_tile(x, top_px)),
                _ => tiles is None,
            }
        },
        _ => false,
    }
}

/// Whether every tile stands at most `top_px` pixels down.
fn tiles_within(ts: &Vec<RawTileInstance>, top_px: u32) -> (b: bool)
    ensures
        b == (forall|k: int| 0 <= k < ts@.len() ==> (#[trigger] ts@[k]).px.y <= top_px),
{
    let mut j: usize = 0;
    while j < ts.len()
        invariant
            j <= ts@.len(),
            forall|k: int| 0 <= k < j ==> (#[trigger] ts@[k]).px.y <= top_px,
        decreases ts.len() - j,
    {
        if ts[j].px.y > top_px {
            return false;
        }
        j = j + 1;
    }
    true
}

/// Whether a layer can be read (see [`layer_readable`]).
pub fn check_layer_readable(l: &RawLayerInstance) -> (b: bool)
    ensures
        b == layer_readable(*l),
{
    if l.height < 1 {
        return false;
    }
    assert((l.height as u64) * (l.grid_size as u64) <= 0xFFFF_FFFF_FFFF_FFFF) by (nonlinear_arith)
        requires
            l.height <= 0xFFFF_FFFF,
            l.grid_size <= 0xFFFF_FFFF,
    ;
    let top: u64 = l.height as u64 * l.grid_size as u64;
    if top > 0xFFFF_FFFF {
        return false;
    }
    let top_px = top as u32;
    match &l.data {
        RawLayerData::Entities(es) => {
            let mut i: usize = 0;
            while i < es.len()
                invariant
                    i <= es@.len(),
                    l.data == RawLayerData::Entities(*es),
                    l.height >= 1,
                    top_px == layer_top_px(*l),
                    forall|k: int| 0 <= k < i ==> (#[trigger] es@[k]).px.y <= layer_top_px(*l),
                decreases es.len() - i,
            {
                if es[i].px.y > top_px {
                    proof {
                        let bad = es@[i as int];
                        assert(!(bad.px.y <= layer_top_px(*l)));
                        assert(!(forall|k: int| 0 <= k < es@.len() ==> (#[trigger] es@[k]).px.y <= layer_top_px(*l)));
                        assert(l.data->Entities_0 == *es);
                        assert(!layer_readable(*l));
                    }
                    return false;
                }
                i = i + 1;
            }
            true
        },
        RawLayerData::IntGrid { int_grid_csv, auto_layer_tiles, tileset, tileset_image } => {
            if int_grid_csv.len() > 0 && l.width == 0 {
                return false;
            }
            let mut i: usize = 0;
            while i < int_grid_csv.len()
                invariant
                    i <= int_grid_csv@.len(),
                    l.data == (RawLayerData::IntGrid {
                        int_grid_csv: *int_grid_csv,
                        auto_layer_tiles: *auto_layer_tiles,
                        tileset: *tileset,
                        tileset_image: *tileset_image,
                    }),
                    l.height >= 1,
                    int_grid_csv@.len() > 0 ==> l.width > 0,
                    forall|k: int| 0 <= k < i ==> #[trigger] ((k as u32) / l.width) <= l.height - 1,
                decreases int_grid_csv.len() - i,
            {
                let n = #[verifier::truncate] (i as u32);
                assert(n == ((i as int) as u32));
                if n / l.width > l.height - 1 {
                    proof {
                        let k = i as int;
                        assert(!(((k as u32) / l.width) <= l.height - 1));
                        assert(!(forall|k: int| 0 <= k < int_grid_csv@.len() ==> #[trigger] ((k as u32) / l.width) <= l.height - 1));
                    }
                    return false;
                }
                i = i + 1;
            }
            match auto_layer_tiles {
                Some(ts) => {
                    let ok = tiles_within(ts, top_px);
                    proof {
                        assert(l.data->auto_layer_tiles == Some(*ts));
                        if !ok {
                            let k = choose|k: int| 0 <= k < ts@.len() && !((#[trigger] ts@[k]).px.y <= top_px);
                            assert(!(ts@[k].px.y <= layer_top_px(*l)));
                        }
                    }
                    ok
                },
                None => true,
            }
        },
    }
}

/// Whether a level can be read: every layer can (see [`layer_readable`]).
pub fn check_level_readable(raw: &RawLevel) -> (b: bool)
    ensures
        b == (forall|i: int| 0 <= i < raw.layer_instances@.len() ==> layer_readable(#[trigger] raw.layer_instances@[i])),
{
    let mut i: usize = 0;
    while i < raw.layer_instances.len()
        invariant
            i <= raw.layer_instances@.len(),
            forall|k: int| 0 <= k < i ==> layer_readable(#[trigger] raw.layer_instances@[k]),
        decreases raw.layer_instances.len() - i,
    {
        if !check_layer_readable(&raw.layer_instances[i]) {
            return false;
        }
        i = i + 1;
    }
    true
}

fn convert_entity(r: &RawEntityInstance, top_px: u32) -> (e: LdtkEntity)
    requires
        r.px.y <= top_px,
    ensures
        entity_from(e, *r, top_px),
{
    LdtkEntity {
        id: r.id.clone(),
        iid: r.iid,
        grid_position_px: Point2 { x: r.px.x, y: top_px - r.px.y },
        fields: convert_fields(&r.field_instances),
    }
}

fn convert_layer(r: &RawLayerInstance) -> (l: LdtkLayer)
    requires
        layer_readable(*r),
    ensures
        layer_from(l, *r),
{
    let top_grid = r.height - 1;
    let top_px = r.height * r.grid_size;
    let data = match &r.data {
        RawLayerData::Entities(rs) => {
            let mut es: Vec<LdtkEntity> = Vec::new();
            let mut i: usize = 0;
            assert(forall|k: int| 0 <= k < rs@.len() ==> (#[trigger] rs@[k]).px.y <= layer_top_px(*r));
            while i < rs.len()
                invariant
                    i <= rs@.len(),
                    es@.len() == i,
                    top_px == layer_top_px(*r),
                    forall|k: int| 0 <= k < rs@.len() ==> (#[trigger] rs@[k]).px.y <= layer_top_px(*r),
                    forall|k: int| 0 <= k < i ==> entity_from(#[trigger] es@[k], rs@[k], top_px),
                decreases rs.len() - i,
            {
                assert(rs@[i as int].px.y <= layer_top_px(*r));
                es.push(convert_entity(&rs[i], top_px));
                i = i + 1;
            }
            LdtkLayerData::Entities(es)
        },
        RawLayerData::IntGrid { int_grid_csv, auto_layer_tiles, tileset, tileset_image } => {
            let mut grid: Vec<LdtkIntCell> = Vec::new();
            let mut i: usize = 0;
            while i < int_grid_csv.len()
                invariant
                    i <= int_grid_csv@.len(),
                    top_grid == r.height - 1,
                    layer_readable(*r),
                    r.data == (RawLayerData::IntGrid {
                        int_grid_csv: *int_grid_csv,
                        auto_layer_tiles: *auto_layer_tiles,
                        tileset: *tileset,
                        tileset_image: *tileset_image,
                    }),
                    grid@ == Seq::new(i as nat, |k: int| spec_int_cell(int_grid_csv@, r.width, r.height, k)),
                decreases int_grid_csv.len() - i,
            {
                let n = #[verifier::truncate] (i as u32);
                assert(((i as int) as u32) / r.width <= r.height - 1);
                let cell = LdtkIntCell { value: int_grid_csv[i], x: n % r.width, y: top_grid - n / r.width };
                grid.push(cell);
                i = i + 1;
                proof {
                    assert(grid@ =~= Seq::new(i as nat, |k: int| spec_int_cell(int_grid_csv@, r.width, r.height, k)));
                }
            }
            let tiles = match (auto_layer_tiles, tileset) {
                (Some(ts), Some(uid)) => {
                    let mut out: Vec<LdtkTile> = Vec::new();
                    let mut j: usize = 0;
                    while j < ts.len()
                        invariant
                            j <= ts@.len(),
                            top_px == layer_top_px(*r),
                            forall|k: int| 0 <= k < ts@.len() ==> (#[trigger] ts@[k]).px.y <= layer_top_px(*r),
                            out@ == ts@.take(j as int).map_values(|x: RawTileInstance| spec_tile(x, top_px)),
                        decreases ts.len() - j,
                    {
                        let t = ts[j];
                        assert(ts@[j as int].px.y <= layer_top_px(*r));
                        out.push(LdtkTile {
                            id: t.t,
                            grid_position_px: Point2 { x: t.px.x, y: top_px - t.px.y },
                            tileset_position_px: t.src,
                            alpha_bits: t.alpha_bits,
                        });
                        proof {
                            assert(ts@.take(j + 1) =~= ts@.take(j as int).push(ts@[j as int]));
                        }
                        j = j + 1;
                    }
                    proof {
                        assert(ts@.take(j as int) =~= ts@);
                    }
                    Some(LdtkTiles { tileset: *uid, tileset_image: tileset_image.clone(), tiles: out })
                },
                _ => None,
            };
            LdtkLayerData::IntGrid { grid, tiles }
        },
    };
    LdtkLayer { id: r.id.clone(), width: r.width, height: r.height, grid_size: r.grid_size, data }
}

/// Reads a level: its background color from hexadecimal, its size, its set fields, and each
/// layer with rows counted upwards (entities and tiles placed within the layer's pixel height).
pub fn convert_level(raw: &RawLevel) -> (r: Result<LdtkLevel, LdtkError>)
    requires
        forall|i: int| 0 <= i < raw.layer_instances@.len() ==> layer_readable(#[trigger] raw.layer_instances@[i]),
    ensures
        match spec_srgba_hex(raw.bg_color@) {
            Err(e) => r == Err::<LdtkLevel, LdtkError>(LdtkError::BgColor(e)),
            Ok(c) => r matches Ok(level) && {
                &&& level.bg_color == c
                &&& level.width_px == raw.width_px
                &&& level.height_px == raw.height_px
                &&& fields_view(level.fields.0@) == spec_fields(raw.field_instances@)
                &&& level.layers@.len() == raw.layer_instances@.len()
                &&& forall|i: int| 0 <= i < level.layers@.len() ==> layer_from(#[trigger] level.layers@[i], raw.layer_instances@[i])
            },
        },
{
    let bg_color = match srgba_hex(raw.bg_color.as_str()) {
        Ok(c) => c,
        Err(e) => {
            return Err(LdtkError::BgColor(e));
        },
    };
    let fields = convert_fields(&raw.field_instances);
    let mut layers: Vec<LdtkLayer> = Vec::new();
    let mut i: usize = 0;
    while i < raw.layer_instances.len()
        invariant
            i <= raw.layer_instances@.len(),
            layers@.len() == i,
            forall|k: int| 0 <= k < raw.layer_instances@.len() ==> layer_readable(#[trigger] raw.layer_instances@[k]),
            forall|k: int| 0 <= k < i ==> layer_from(#[trigger] layers@[k], raw.layer_instances@[k]),
        decreases raw.layer_instances.len() - i,
    {
        layers.push(convert_layer(&raw.layer_instances[i]));
        i = i + 1;
    }
    Ok(LdtkLevel { bg_color, width_px: raw.width_px, height_px: raw.height_px, fields, layers })
}

impl LdtkLevel {
    /// The images the level depends on: the tileset image of each integer-grid layer that has
    /// tiles, in layer order.
    pub fn dependencies(&self) -> (d: Vec<String>)
        ensures
            d@.map_values(|s: String| s@) == self.layers@.filter(|l: LdtkLayer| l.data matches LdtkLayerData::IntGrid { tiles: Some(_), .. }).map_values(
                |l: LdtkLayer| match l.data {
                    LdtkLayerData::IntGrid { tiles: Some(t), .. } => t.tileset_image@,
                    _ => Seq::<char>::empty(),
                },
            ),
    {
        let ghost pred = |l: LdtkLayer| l.data matches LdtkLayerData::IntGrid { tiles: Some(_), .. };
        let ghost image = |l: LdtkLayer| match l.data {
            LdtkLayerData::IntGrid { tiles: Some(t), .. } => t.tileset_image@,
            _ => Seq::<char>::empty(),
        };
        let mut out: Vec<String> = Vec::new();
        let mut i: usize = 0;
        while i < self.layers.len()
            invariant
                i <= self.layers@.len(),
                pred == (|l: LdtkLayer| l.data matches LdtkLayerData::IntGrid { tiles: Some(_), .. }),
                image == (|l: LdtkLayer| match l.data {
                    LdtkLayerData::IntGrid { tiles: Some(t), .. } => t.tileset_image@,
                    _ => Seq::<char>::empty(),
                }),
                out@.map_values(|s: String| s@) == self.layers@.take(i as int).filter(pred).map_values(image),
            decreases self.layers.len() - i,
        {
            let ghost prev = out@;
            proof {
                reveal_with_fuel(Seq::<_>::filter, 1);
                assert(self.layers@.take(i + 1).drop_last() =~= self.layers@.take(i as int));
                assert(self.layers@.take(i + 1).last() == self.layers@[i as int]);
            }
            match &self.layers[i].data {
                LdtkLayerData::IntGrid { tiles: Some(t), .. } => {
                    out.push(t.tileset_image.clone());
                    proof {
                        assert(out@.map_values(|s: String| s@) =~= prev.map_values(|s: String| s@).push(
                            image(self.layers@[i as int]),
                        ));
                    }
                },
                _ => {},
            }
            i = i + 1;
        }
        proof {
            assert(self.layers@.take(i as int) =~= self.layers@);
        }
        out
    }
}

// ---------------------------------------------------------------------------------------------
// Projects
// ---------------------------------------------------------------------------------------------

/// Reads a project: each level by identifier and path, each tileset by unique identifier.
pub fn convert_project(levels: &Vec<RawLevelPath>, tilesets: &Vec<RawTileset>) -> (p: Ldtk)
    ensures
        p.levels@.len() == levels@.len(),
        forall|i: int| 0 <= i < levels@.len() ==> (#[trigger] p.levels@[i]).0@ == levels@[i].identifier@
            && p.levels@[i].1@ == levels@[i].external_rel_path@,
        p.tilesets@ == tilesets@.map_values(|t: RawTileset| (t.uid, LdtkTileset {
            tile_size: t.tile_grid_size,
            width: t.width,
            height: t.height,
        })),
{
    let mut out_levels: Vec<(String, String)> = Vec::new();
    let mut i: usize = 0;
    while i < levels.len()
        invariant
            i <= levels@.len(),
            out_levels@.len() == i,
            forall|k: int| 0 <= k < i ==> (#[trigger] out_levels@[k]).0@ == levels@[k].identifier@
                && out_levels@[k].1@ == levels@[k].external_rel_path@,
        decreases levels.len() - i,
    {
        out_levels.push((levels[i].identifier.clone(), levels[i].external_rel_path.clone()));
        i = i + 1;
    }
    let mut out_tilesets: Vec<(u32, LdtkTileset)> = Vec::new();
    let mut j: usize = 0;
    while j < tilesets.len()
        invariant
            j <= tilesets@.len(),
            out_tilesets@ == tilesets@.take(j as int).map_values(|t: RawTileset| (t.uid, LdtkTileset {
                tile_size: t.tile_grid_size,
                width: t.width,
                height: t.height,
            })),
        decreases tilesets.len() - j,
    {
        let t = tilesets[j];
        out_tilesets.push((t.uid, LdtkTileset { tile_size: t.tile_grid_size, width: t.width, height: t.height }));
        proof {
            assert(tilesets@.take(j + 1) =~= tilesets@.take(j as int).push(tilesets@[j as int]));
        }
        j = j + 1;
    }
    proof {
        assert(tilesets@.take(j as int) =~= tilesets@);
    }
    Ldtk { levels: out_levels, tilesets: out_tilesets }
}

/// The tileset of each unique identifier, a later definition replacing an earlier one.
pub open spec fn tileset_map(t: Seq<(u32, LdtkTileset)>) -> Map<u32, LdtkTileset>
    decreases t.len(),
{
    if t.len() == 0 {
        Map::empty()
    } else {
        tileset_map(t.drop_last()).insert(t.last().0, t.last().1)
    }
}

impl Ldtk {
    /// The tileset `uid`.
    pub fn tileset(&self, uid: u32) -> (r: Option<LdtkTileset>)
        ensures
            r == (if tileset_map(self.tilesets@).contains_key(uid) {
                Some(tileset_map(self.tilesets@)[uid])
            } else {
                None
            }),
    {
        let mut i: usize = self.tilesets.len();
        proof {
            assert(self.tilesets@.take(i as int) =~= self.tilesets@);
        }
        while i > 0
            invariant
                i <= self.tilesets@.len(),
                tileset_map(self.tilesets@).contains_key(uid) ==> tileset_map(self.tilesets@.take(i as int)).contains_key(uid)
                    && tileset_map(self.tilesets@)[uid] == tileset_map(self.tilesets@.take(i as int))[uid],
                !tileset_map(self.tilesets@).contains_key(uid) ==> !tileset_map(self.tilesets@.take(i as int)).contains_key(uid),
            decreases i,
        {
            proof {
                assert(self.tilesets@.take(i as int).drop_last() =~= self.tilesets@.take(i - 1));
            }
            if self.tilesets[i - 1].0 == uid {
                return Some(self.tilesets[i - 1].1);
            }
            i = i - 1;
        }
        proof {
            assert(self.tilesets@.take(0) =~= Seq::<(u32, LdtkTileset)>::empty());
        }
        None
    }

    /// The path of the level `id`.
    pub fn level_path(&self, id: &str) -> (r: Option<&str>)
        ensures
            match r {
                Some(p) => pairs_map(self.levels@).contains_key(id@) && pairs_map(self.levels@)[id@]@ == p@,
                None => !pairs_map(self.levels@).contains_key(id@),
            },
    {
        let mut i: usize = self.levels.len();
        proof {
            assert(self.levels@.take(i as int) =~= self.levels@);
        }
        while i > 0
            invariant
                i <= self.levels@.len(),
                pairs_map(self.levels@).contains_key(id@) ==> pairs_map(self.levels@.take(i as int)).contains_key(id@)
                    && pairs_map(self.levels@)[id@] == pairs_map(self.levels@.take(i as int))[id@],
                !pairs_map(self.levels@).contains_key(id@) ==> !pairs_map(self.levels@.take(i as int)).contains_key(id@),
            decreases i,
        {
            proof {
                assert(self.levels@.take(i as int).drop_last() =~= self.levels@.take(i - 1));
            }
            if str_eq(self.levels[i - 1].0.as_str(), id) {
                return Some(self.levels[i - 1].1.as_str());
            }
            i = i - 1;
        }
        proof {
            assert(self.levels@.take(0) =~= Seq::<(String, String)>::empty());
        }
        None
    }
}

} // verus!
