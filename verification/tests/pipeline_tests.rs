use entitiles::pipeline::{
    BindGroupLayoutHandle, BlendMode, EntiTilesPipeline, EntiTilesPipelineKey, Face, FrontFace,
    MaterialKind, PrimitiveTopology, ShaderDef, ShaderHandle, TilemapType, VertexFormat,
};

fn pipeline_base(material: MaterialKind) -> EntiTilesPipeline {
    EntiTilesPipeline {
        view_layout: BindGroupLayoutHandle { id: 10 },
        uniform_buffers_layout: BindGroupLayoutHandle { id: 11 },
        storage_buffers_layout: BindGroupLayoutHandle { id: 12 },
        color_texture_layout: BindGroupLayoutHandle { id: 13 },
        add_material_layout: BindGroupLayoutHandle { id: 14 },
        vertex_shader: ShaderHandle { id: 20 },
        fragment_shader: ShaderHandle { id: 21 },
        material,
    }
}

#[test]
fn specialize_is_deterministic_for_equal_keys() {
    let p = pipeline_base(MaterialKind::Standard);
    let key = EntiTilesPipelineKey {
        msaa: 4,
        map_type: TilemapType::Isometric,
        without_texture: false,
    };
    let a = p.specialize(key);
    let b = p.specialize(key);
    assert_eq!(a.layout, b.layout);
    assert_eq!(a.shader_defs, b.shader_defs);
    assert_eq!(a.vertex_formats, b.vertex_formats);
    assert_eq!(a.multisample_count, b.multisample_count);
    assert_eq!(a.vertex_shader, b.vertex_shader);
    assert_eq!(a.fragment_shader, b.fragment_shader);
}

#[test]
fn textured_descriptor_exact_contents() {
    let p = pipeline_base(MaterialKind::Standard);
    let key = EntiTilesPipelineKey {
        msaa: 1,
        map_type: TilemapType::Square,
        without_texture: false,
    };
    let d = p.specialize(key);
    assert_eq!(d.shader_defs, vec![ShaderDef::Square]);
    assert_eq!(
        d.vertex_formats,
        vec![
            VertexFormat::Float32x3,
            VertexFormat::Sint32x4,
            VertexFormat::Float32x4,
            VertexFormat::Sint32x4,
            VertexFormat::Uint32x4,
        ]
    );
    assert_eq!(
        d.layout,
        vec![
            BindGroupLayoutHandle { id: 10 },
            BindGroupLayoutHandle { id: 11 },
            BindGroupLayoutHandle { id: 13 },
            BindGroupLayoutHandle { id: 12 },
        ]
    );
    assert_eq!(d.front_face, FrontFace::Clockwise);
    assert_eq!(d.cull_mode, Some(Face::Back));
    assert_eq!(d.topology, PrimitiveTopology::TriangleList);
    assert_eq!(d.blend, BlendMode::AlphaBlending);
    assert!(!d.depth_stencil);
    assert_eq!(d.multisample_count, 1);
}

#[test]
fn dropping_texture_removes_two_attributes_two_groups_adds_define() {
    let p = pipeline_base(MaterialKind::Standard);
    let with_tex = p.specialize(EntiTilesPipelineKey {
        msaa: 4,
        map_type: TilemapType::Hexagonal(1),
        without_texture: false,
    });
    let without = p.specialize(EntiTilesPipelineKey {
        msaa: 4,
        map_type: TilemapType::Hexagonal(1),
        without_texture: true,
    });
    // Exactly the texture-index and flip attributes are removed.
    assert_eq!(with_tex.vertex_formats.len(), without.vertex_formats.len() + 2);
    assert_eq!(&with_tex.vertex_formats[..3], &without.vertex_formats[..]);
    // Exactly the color/texture and storage bind groups are removed.
    assert_eq!(with_tex.layout.len(), without.layout.len() + 2);
    assert_eq!(&with_tex.layout[..2], &without.layout[..]);
    // Exactly the define is added.
    assert_eq!(without.shader_defs, vec![ShaderDef::Hexagonal, ShaderDef::WithoutTexture]);
    assert_eq!(with_tex.shader_defs, vec![ShaderDef::Hexagonal]);
}

#[test]
fn custom_material_appends_one_extra_group() {
    let standard = pipeline_base(MaterialKind::Standard);
    let custom = pipeline_base(MaterialKind::Custom);
    let key = EntiTilesPipelineKey {
        msaa: 1,
        map_type: TilemapType::Square,
        without_texture: false,
    };
    let ds = standard.specialize(key);
    let dc = custom.specialize(key);
    assert_eq!(dc.layout.len(), ds.layout.len() + 1);
    assert_eq!(dc.layout[4], BindGroupLayoutHandle { id: 14 });
}

#[test]
fn msaa_flows_into_multisample_count() {
    let p = pipeline_base(MaterialKind::Standard);
    for msaa in [1u32, 2, 4, 8] {
        let d = p.specialize(EntiTilesPipelineKey {
            msaa,
            map_type: TilemapType::Square,
            without_texture: true,
        });
        assert_eq!(d.multisample_count, msaa);
    }
}
