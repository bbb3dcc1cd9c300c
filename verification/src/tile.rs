//! The tile data model: per-tile render attributes, animation records, and
//! the builder used to place tiles into a grid.

use vstd::prelude::*;

verus! {

use crate::MAX_LAYER_COUNT;

/// The geometric shape of a map's tiles.
#[derive(Clone, Copy, Debug, PartialEq, Eq, Structural, Default, Hash)]
pub enum TileType {
    /// The most basic shape.
    #[default]
    Square,
    /// A diamond shape: a square rotated 45 degrees counterclockwise around
    /// the origin, addressed with the same coordinate system as `Square`.
    IsometricDiamond,
}

/// Mirror flags for a tile's texture, packed into the two low bits of a
/// per-tile GPU word.
#[derive(Clone, Copy, Debug, PartialEq, Eq, Structural)]
pub enum TileFlip {
    Horizontal,
    Vertical,
    Both,
}

impl TileFlip {
    /// The bit pattern uploaded to the GPU: bit 0 flips horizontally,
    /// bit 1 vertically.
    pub fn bits(&self) -> (r: u32)
        ensures
            r == self.spec_bits(),
    {
        match self {
            TileFlip::Horizontal => 1,
            TileFlip::Vertical => 2,
            TileFlip::Both => 3,
        }
    }

    pub open spec fn spec_bits(&self) -> u32 {
        match self {
            TileFlip::Horizontal => 1,
            TileFlip::Vertical => 2,
            TileFlip::Both => 3,
        }
    }
}

/// A 4-component tint color, stored as the raw bit patterns of its
/// red, green, blue and alpha components so that persistence round-trips
/// exactly. The embedding application converts to and from its float type.
#[derive(Clone, Copy, Debug, PartialEq, Eq, Structural)]
pub struct Color4 {
    pub r: u32,
    pub g: u32,
    pub b: u32,
    pub a: u32,
}

/// The bit pattern of the component value one: each channel of the default
/// opaque white tint.
pub const COLOR_COMPONENT_ONE: u32 = 0x3F80_0000;

impl Color4 {
    /// The default tint: opaque white.
    pub fn opaque_white() -> (r: Color4)
        ensures
            r == Color4::spec_opaque_white(),
    {
        Color4 {
            r: COLOR_COMPONENT_ONE,
            g: COLOR_COMPONENT_ONE,
            b: COLOR_COMPONENT_ONE,
            a: COLOR_COMPONENT_ONE,
        }
    }

    pub open spec fn spec_opaque_white() -> Color4 {
        Color4 {
            r: COLOR_COMPONENT_ONE,
            g: COLOR_COMPONENT_ONE,
            b: COLOR_COMPONENT_ONE,
            a: COLOR_COMPONENT_ONE,
        }
    }
}

/// An animation attached to one texture layer of a tile. While attached, the
/// targeted layer's content is driven by the animation, never by a static
/// texture index.
#[derive(Clone, Copy, Debug, PartialEq, Eq, Structural)]
pub struct AnimatedTile {
    /// The texture layer the animation drives; always a valid layer slot.
    pub layer: usize,
    /// Start offset into the shared animation-frame table.
    pub sequence_start: u32,
    /// Number of frames addressed from `sequence_start`.
    pub sequence_length: u32,
    /// Playback rate in frames per second, stored as the raw bits of the
    /// embedding application's float value.
    pub fps_bits: u32,
    /// Whether playback wraps around at the end of the sequence.
    pub is_loop: bool,
}

/// Well-formedness of an animation record: it targets an existing layer.
pub open spec fn anim_wf(a: AnimatedTile) -> bool {
    a.layer < MAX_LAYER_COUNT
}

/// Well-formedness of a texture-layer array: every slot holds either the
/// unused sentinel `-1` or a non-negative texture index.
pub open spec fn layers_wf(t: [i32; MAX_LAYER_COUNT]) -> bool {
    forall|i: int| 0 <= i < MAX_LAYER_COUNT ==> t[i] >= -1
}

/// One tile's render-relevant attributes, owned by the grid's arena.
#[derive(Clone, Copy, Debug)]
pub struct Tile {
    /// Identifier of the owning tilemap (a back-reference, not ownership).
    pub tilemap_id: u32,
    /// Cached linear render-chunk id; always equal to a recomputation from
    /// the grid coordinate and the map's chunk size.
    pub render_chunk_index: usize,
    /// Column of the tile within the grid.
    pub index_x: u32,
    /// Row of the tile within the grid.
    pub index_y: u32,
    /// Per-layer texture indices; `-1` marks an unused layer.
    pub texture_indices: [i32; MAX_LAYER_COUNT],
    /// Index of the topmost populated layer.
    pub top_layer: usize,
    pub color: Color4,
    pub anim: Option<AnimatedTile>,
}

/// Well-formedness of a tile record's layer data.
pub open spec fn tile_layers_wf(
    texture_indices: [i32; MAX_LAYER_COUNT],
    top_layer: usize,
    anim: Option<AnimatedTile>,
) -> bool {
    &&& layers_wf(texture_indices)
    &&& top_layer < MAX_LAYER_COUNT
    &&& (anim is Some ==> anim_wf(anim->0))
}

/// The persisted form of one tile: exactly the attributes that survive a
/// save/load cycle. Coordinates and chunk ids are reconstructed on load.
#[derive(Clone, Copy, Debug)]
pub struct SerializedTile {
    pub texture_indices: [i32; MAX_LAYER_COUNT],
    pub top_layer: usize,
    pub color: Color4,
    pub anim: Option<AnimatedTile>,
}

pub open spec fn serialized_tile_wf(t: SerializedTile) -> bool {
    tile_layers_wf(t.texture_indices, t.top_layer, t.anim)
}

impl Tile {
    /// The attributes of this tile that persistence stores.
    pub fn to_serialized(&self) -> (r: SerializedTile)
        ensures
            r == self.spec_serialized(),
    {
        SerializedTile {
            texture_indices: self.texture_indices,
            top_layer: self.top_layer,
            color: self.color,
            anim: self.anim,
        }
    }

    pub open spec fn spec_serialized(&self) -> SerializedTile {
        SerializedTile {
            texture_indices: self.texture_indices,
            top_layer: self.top_layer,
            color: self.color,
            anim: self.anim,
        }
    }
}

/// Builds the attribute set of one tile before it is placed into a grid.
#[derive(Clone, Copy, Debug)]
pub struct TileBuilder {
    pub texture_indices: [i32; MAX_LAYER_COUNT],
    pub top_layer: usize,
    pub anim: Option<AnimatedTile>,
    pub color: Color4,
}

/// Well-formedness of a builder's layer data.
pub open spec fn builder_wf(b: TileBuilder) -> bool {
    tile_layers_wf(b.texture_indices, b.top_layer, b.anim)
}

impl TileBuilder {
    /// Create a new tile builder with the given texture index on layer 0,
    /// no animation, and the default opaque-white tint.
    pub fn new(texture_index: u32) -> (r: TileBuilder)
        requires
            texture_index <= i32::MAX as u32,
        ensures
            builder_wf(r),
            r.texture_indices[0] == texture_index as i32,
            forall|i: int| 1 <= i < MAX_LAYER_COUNT ==> r.texture_indices[i] == -1,
            r.top_layer == 0,
            r.anim is None,
            r.color == Color4::spec_opaque_white(),
    {
        let mut texture_indices: [i32; MAX_LAYER_COUNT] = [-1; MAX_LAYER_COUNT];
        texture_indices[0] = texture_index as i32;
        TileBuilder {
            texture_indices,
            top_layer: 0,
            anim: None,
            color: Color4::opaque_white(),
        }
    }

    /// Rebuild a tile's attributes from its persisted form, as the load path
    /// does for every non-empty cell.
    pub fn from_serialized_tile(serialized_tile: &SerializedTile) -> (r: TileBuilder)
        ensures
            r.texture_indices == serialized_tile.texture_indices,
            r.top_layer == serialized_tile.top_layer,
            r.anim == serialized_tile.anim,
            r.color == serialized_tile.color,
            serialized_tile_wf(*serialized_tile) ==> builder_wf(r),
    {
        TileBuilder {
            texture_indices: serialized_tile.texture_indices,
            top_layer: serialized_tile.top_layer,
            anim: serialized_tile.anim,
            color: serialized_tile.color,
        }
    }

    /// Replace the tint.
    pub fn with_color(self, color: Color4) -> (r: TileBuilder)
        ensures
            r == (TileBuilder { color, ..self }),
    {
        TileBuilder { color, ..self }
    }

    /// Attach an animation. The animation's target layer is then owned by the
    /// animation: `with_layer` on that slot becomes a no-op.
    pub fn with_animation(self, anim: AnimatedTile) -> (r: TileBuilder)
        requires
            anim_wf(anim),
        ensures
            r == (TileBuilder { anim: Some(anim), ..self }),
    {
        TileBuilder { anim: Some(anim), ..self }
    }

    /// Set the static texture index of one layer, raising the topmost
    /// populated layer if needed. A no-op when the slot is out of range or an
    /// attached animation owns it.
    pub fn with_layer(self, layer: usize, texture_index: u32) -> (r: TileBuilder)
        requires
            texture_index <= i32::MAX as u32,
        ensures
            r == self.spec_with_layer(layer, texture_index),
            builder_wf(self) ==> builder_wf(r),
    {
        if layer >= MAX_LAYER_COUNT {
            self
        } else if self.anim.is_some() && self.anim.as_ref().unwrap().layer == layer {
            self
        } else {
            let mut texture_indices = self.texture_indices;
            texture_indices[layer] = texture_index as i32;
            let top_layer: usize = if layer > self.top_layer {
                layer
            } else {
                self.top_layer
            };
            TileBuilder { texture_indices, top_layer, ..self }
        }
    }

    /// What `with_layer` returns: unchanged on an out-of-range slot or one
    /// owned by the animation, else the slot set and `top_layer` raised.
    pub open spec fn spec_with_layer(self, layer: usize, texture_index: u32) -> TileBuilder {
        if layer >= MAX_LAYER_COUNT {
            self
        } else if self.anim is Some && self.anim->0.layer == layer {
            self
        } else {
            TileBuilder {
                texture_indices: vstd::array::spec_array_update(
                    self.texture_indices,
                    layer as int,
                    texture_index as i32,
                ),
                top_layer: if layer > self.top_layer {
                    layer
                } else {
                    self.top_layer
                },
                ..self
            }
        }
    }
}

} // verus!
