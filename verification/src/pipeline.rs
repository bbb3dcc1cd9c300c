//! The render-pipeline specializer: builds a complete pipeline description —
//! shader defines, vertex layout, bind-group layout list and fixed-function
//! state — from a compact specialization key. Handles to GPU objects are
//! opaque tokens resolved by the embedding renderer.

use vstd::prelude::*;

verus! {

/// The geometry variant of a map, which selects the shader's coordinate
/// transform.
#[derive(Clone, Copy, Debug, PartialEq, Eq, Structural, Hash)]
pub enum TilemapType {
    Square,
    Isometric,
    /// Hexagonal maps carry the edge length of their axial layout.
    Hexagonal(u32),
}

/// An opaque token for a reusable bind-group layout owned by the renderer.
#[derive(Clone, Copy, Debug, PartialEq, Eq, Structural, Hash)]
pub struct BindGroupLayoutHandle {
    pub id: u64,
}

/// An opaque token for a compiled shader asset.
#[derive(Clone, Copy, Debug, PartialEq, Eq, Structural, Hash)]
pub struct ShaderHandle {
    pub id: u64,
}

/// A compile-time define injected into the shader source.
#[derive(Clone, Copy, Debug, PartialEq, Eq, Structural)]
pub enum ShaderDef {
    Square,
    Isometric,
    Hexagonal,
    WithoutTexture,
}

/// The format of one vertex attribute, in buffer order.
#[derive(Clone, Copy, Debug, PartialEq, Eq, Structural)]
pub enum VertexFormat {
    Float32x3,
    Sint32x4,
    Float32x4,
    Uint32x4,
}

#[derive(Clone, Copy, Debug, PartialEq, Eq, Structural)]
pub enum FrontFace {
    Clockwise,
    CounterClockwise,
}

#[derive(Clone, Copy, Debug, PartialEq, Eq, Structural)]
pub enum Face {
    Front,
    Back,
}

#[derive(Clone, Copy, Debug, PartialEq, Eq, Structural)]
pub enum PrimitiveTopology {
    TriangleList,
    TriangleStrip,
}

#[derive(Clone, Copy, Debug, PartialEq, Eq, Structural)]
pub enum BlendMode {
    AlphaBlending,
    Replace,
}

/// The material attached to the pipeline: the built-in default, or a custom
/// material that brings one extra bind group of its own.
#[derive(Clone, Copy, Debug, PartialEq, Eq, Structural)]
pub enum MaterialKind {
    Standard,
    Custom,
}

/// The cache key of one pipeline variant. Equality is structural: a
/// render-pipeline cache reuses the descriptor built for an equal key.
#[derive(Clone, Copy, Debug, PartialEq, Eq, Structural, Hash)]
pub struct EntiTilesPipelineKey {
    pub msaa: u32,
    pub map_type: TilemapType,
    pub without_texture: bool,
}

/// A complete, GPU-consumable pipeline description.
#[derive(Clone, Debug)]
pub struct RenderPipelineDescriptor {
    /// Bind-group layouts in group-index order.
    pub layout: Vec<BindGroupLayoutHandle>,
    pub vertex_shader: ShaderHandle,
    pub fragment_shader: ShaderHandle,
    /// Defines compiled into both shader stages.
    pub shader_defs: Vec<ShaderDef>,
    /// Per-vertex attribute formats, in buffer order.
    pub vertex_formats: Vec<VertexFormat>,
    pub front_face: FrontFace,
    pub cull_mode: Option<Face>,
    pub topology: PrimitiveTopology,
    pub blend: BlendMode,
    /// Tilemaps draw without depth testing; no pipeline variant attaches a
    /// depth/stencil target.
    pub depth_stencil: bool,
    pub multisample_count: u32,
}

/// The specializer: the shared bind-group layouts and shader handles a
/// renderer resolves once, from which every pipeline variant is derived.
pub struct EntiTilesPipeline {
    /// Group 0: per-view data.
    pub view_layout: BindGroupLayoutHandle,
    /// Group 1: per-tilemap uniform buffers.
    pub uniform_buffers_layout: BindGroupLayoutHandle,
    /// Group 3 (textured only): per-tile storage buffers.
    pub storage_buffers_layout: BindGroupLayoutHandle,
    /// Group 2 (textured only): color texture and sampler.
    pub color_texture_layout: BindGroupLayoutHandle,
    /// Group 4 (custom materials only): the material's own bind group.
    pub add_material_layout: BindGroupLayoutHandle,
    pub vertex_shader: ShaderHandle,
    pub fragment_shader: ShaderHandle,
    pub material: MaterialKind,
}

/// The shader define selected by the map geometry.
pub open spec fn spec_geometry_def(t: TilemapType) -> ShaderDef {
    match t {
        TilemapType::Square => ShaderDef::Square,
        TilemapType::Isometric => ShaderDef::Isometric,
        TilemapType::Hexagonal(_) => ShaderDef::Hexagonal,
    }
}

/// The defines of one variant: the geometry define, then `WithoutTexture`
/// exactly for untextured variants.
pub open spec fn spec_shader_defs(key: EntiTilesPipelineKey) -> Seq<ShaderDef> {
    if key.without_texture {
        seq![spec_geometry_def(key.map_type), ShaderDef::WithoutTexture]
    } else {
        seq![spec_geometry_def(key.map_type)]
    }
}

/// The vertex attributes of one variant: position, the packed
/// index/animation word and the color for every tile; textured variants
/// append the texture-layer indices and the per-layer flip flags.
pub open spec fn spec_vertex_formats(key: EntiTilesPipelineKey) -> Seq<VertexFormat> {
    if key.without_texture {
        seq![VertexFormat::Float32x3, VertexFormat::Sint32x4, VertexFormat::Float32x4]
    } else {
        seq![
            VertexFormat::Float32x3,
            VertexFormat::Sint32x4,
            VertexFormat::Float32x4,
            VertexFormat::Sint32x4,
            VertexFormat::Uint32x4,
        ]
    }
}

/// The bind-group layouts of one variant, in group-index order: view data
/// and tilemap uniforms always; texture and storage groups only when
/// textured; the material's extra group only for custom materials.
pub open spec fn spec_layouts(p: EntiTilesPipeline, key: EntiTilesPipelineKey) -> Seq<
    BindGroupLayoutHandle,
> {
    let base = seq![p.view_layout, p.uniform_buffers_layout];
    let with_tex = if key.without_texture {
        base
    } else {
        base + seq![p.color_texture_layout, p.storage_buffers_layout]
    };
    if p.material is Custom {
        with_tex + seq![p.add_material_layout]
    } else {
        with_tex
    }
}

impl EntiTilesPipeline {
    /// Build the pipeline descriptor for one specialization key.
    ///
    /// Deterministic and pure: the result is pinned, field for field, by the
    /// specializer's shared handles and the key. Fixed-function state is
    /// constant across keys except the multisample count: clockwise front
    /// face, back-face culling, triangle-list topology, alpha blending, and
    /// no depth/stencil attachment.
    pub fn specialize(&self, key: EntiTilesPipelineKey) -> (r: RenderPipelineDescriptor)
        ensures
            r.layout@ == spec_layouts(*self, key),
            r.shader_defs@ == spec_shader_defs(key),
            r.vertex_formats@ == spec_vertex_formats(key),
            r.vertex_shader == self.vertex_shader,
            r.fragment_shader == self.fragment_shader,
            r.front_face == FrontFace::Clockwise,
            r.cull_mode == Some(Face::Back),
            r.topology == PrimitiveTopology::TriangleList,
            r.blend == BlendMode::AlphaBlending,
            !r.depth_stencil,
            r.multisample_count == key.msaa,
    {
        let mut shader_defs: Vec<ShaderDef> = Vec::new();
        shader_defs.push(
            match key.map_type {
                TilemapType::Square => ShaderDef::Square,
                TilemapType::Isometric => ShaderDef::Isometric,
                TilemapType::Hexagonal(_) => ShaderDef::Hexagonal,
            },
        );
        let mut vertex_formats: Vec<VertexFormat> = Vec::new();
        vertex_formats.push(VertexFormat::Float32x3);
        vertex_formats.push(VertexFormat::Sint32x4);
        vertex_formats.push(VertexFormat::Float32x4);
        if key.without_texture {
            shader_defs.push(ShaderDef::WithoutTexture);
        } else {
            vertex_formats.push(VertexFormat::Sint32x4);
            vertex_formats.push(VertexFormat::Uint32x4);
        }
        let mut layout: Vec<BindGroupLayoutHandle> = Vec::new();
        layout.push(self.view_layout);
        layout.push(self.uniform_buffers_layout);
        if !key.without_texture {
            layout.push(self.color_texture_layout);
            layout.push(self.storage_buffers_layout);
        }
        match self.material {
            MaterialKind::Custom => layout.push(self.add_material_layout),
            MaterialKind::Standard => {},
        }
        proof {
            assert(layout@ =~= spec_layouts(*self, key));
            assert(shader_defs@ =~= spec_shader_defs(key));
            assert(vertex_formats@ =~= spec_vertex_formats(key));
        }
        RenderPipelineDescriptor {
            layout,
            vertex_shader: self.vertex_shader,
            fragment_shader: self.fragment_shader,
            shader_defs,
            vertex_formats,
            front_face: FrontFace::Clockwise,
            cull_mode: Some(Face::Back),
            topology: PrimitiveTopology::TriangleList,
            blend: BlendMode::AlphaBlending,
            depth_stencil: false,
            multisample_count: key.msaa,
        }
    }
}

/// Toggling `without_texture` from false to true removes exactly the
/// texture-index and flip vertex attributes and the texture and storage bind
/// groups, and adds exactly the `WithoutTexture` define; everything else the
/// key selects is unchanged.
pub proof fn lemma_specialize_texture_toggle(p: EntiTilesPipeline, key: EntiTilesPipelineKey)
    requires
        !key.without_texture,
    ensures
        ({
            let plain = EntiTilesPipelineKey { without_texture: true, ..key };
            &&& spec_shader_defs(plain) == spec_shader_defs(key) + seq![ShaderDef::WithoutTexture]
            &&& spec_vertex_formats(key) == spec_vertex_formats(plain) + seq![
                VertexFormat::Sint32x4,
                VertexFormat::Uint32x4,
            ]
            &&& spec_layouts(p, plain) == if p.material is Custom {
                seq![p.view_layout, p.uniform_buffers_layout, p.add_material_layout]
            } else {
                seq![p.view_layout, p.uniform_buffers_layout]
            }
            &&& spec_layouts(p, key) == spec_layouts(p, plain).take(2) + seq![
                p.color_texture_layout,
                p.storage_buffers_layout,
            ] + spec_layouts(p, plain).skip(2)
        }),
{
    let plain = EntiTilesPipelineKey { without_texture: true, ..key };
    assert(spec_shader_defs(plain) =~= spec_shader_defs(key) + seq![ShaderDef::WithoutTexture]);
    assert(spec_vertex_formats(key) =~= spec_vertex_formats(plain) + seq![
        VertexFormat::Sint32x4,
        VertexFormat::Uint32x4,
    ]);
    if p.material is Custom {
        assert(spec_layouts(p, plain) =~= seq![
            p.view_layout,
            p.uniform_buffers_layout,
            p.add_material_layout,
        ]);
    } else {
        assert(spec_layouts(p, plain) =~= seq![p.view_layout, p.uniform_buffers_layout]);
    }
    assert(spec_layouts(p, key) =~= spec_layouts(p, plain).take(2) + seq![
        p.color_texture_layout,
        p.storage_buffers_layout,
    ] + spec_layouts(p, plain).skip(2));
}

} // verus!
