use render::command_encoder::IndexType;
use render::render_context::BufferError;
use render::resource::buffer::{BufferRange, MemoryType};
use render::resource::glue::{find_part, Descriptor, GlueBottle, MixturePart, PartIndex, PartType};
use render::resource::pipeline::{
    AttributeDescriptor, CullFace, PipelineState, PolygonMode, Rasterizer, ShaderType,
    VertexAttributeFormat, VertexBufferDescriptor, VertexInputRate, Winding,
};
use render::resource::render_pass::{
    Attachment, AttachmentLoadOp, AttachmentStoreOp, RenderPassDescriptor, SubpassDescriptor,
};
use render::util::format::{choose_surface_format, TextureFormat, TextureLayout};

#[test]
fn build_render_pass() {}

#[test]
fn render_pass_descriptor_holds_its_parts() {
    let color = Attachment {
        format: TextureFormat::Bgra8Srgb,
        load_op: AttachmentLoadOp::Clear,
        store_op: AttachmentStoreOp::Store,
        layouts: TextureLayout::Undefined..TextureLayout::Present,
    };
    let subpass = SubpassDescriptor {
        colors: vec![(0, TextureLayout::ColorAttachmentOptimal)],
        ..SubpassDescriptor::default()
    };
    let desc = RenderPassDescriptor {
        attachments: vec![color],
        subpasses: vec![subpass],
        pass_dependencies: vec![],
    };
    let copy = desc.clone();
    assert_eq!(copy.attachments[0].format, TextureFormat::Bgra8Srgb);
    assert_eq!(copy.subpasses[0].colors.len(), 1);
    assert!(copy.subpasses[0].depth_stencil.is_none());
}

#[test]
fn index_sizes() {
    assert_eq!(IndexType::U16.get_size(), 2);
    assert_eq!(IndexType::U32.get_size(), 4);
}

#[test]
fn buffer_ranges() {
    assert_eq!(BufferRange::whole(), BufferRange { offset: 0, size: None });
    assert_eq!(BufferRange::from(16..48), BufferRange { offset: 16, size: Some(32) });
    assert_ne!(MemoryType::DeviceLocal, MemoryType::HostVisible);
}

#[test]
fn pipeline_constructors() {
    let v = VertexBufferDescriptor::new(1, 16, VertexInputRate::Instance);
    assert_eq!((v.binding, v.stride, v.rate), (1, 16, VertexInputRate::Instance));
    let a = AttributeDescriptor::new(2, 1, 8, VertexAttributeFormat::Vec3);
    assert_eq!((a.location, a.binding, a.offset), (2, 1, 8));
    assert_eq!(a.format, VertexAttributeFormat::Vec3);
    let r = Rasterizer::fill();
    assert_eq!(r.polygon_mode, PolygonMode::Fill);
    assert_eq!(r.culling.winding, Winding::Clockwise);
    assert_eq!(r.culling.cull_face, CullFace::Disabled);
}

#[test]
fn pipeline_state_to_option() {
    assert_eq!(PipelineState::Baked(7u32).to_option(), Some(7));
    assert_eq!(PipelineState::<u32>::Dynamic.to_option(), None);
}

fn parts() -> Vec<MixturePart> {
    vec![
        MixturePart {
            binding: 0,
            name: "camera".to_string(),
            shader_type: ShaderType::Vertex,
            is_dynamic: false,
            array_size: 1,
            type_info: PartType::Uniform(64),
        },
        MixturePart {
            binding: 1,
            name: "lights".to_string(),
            shader_type: ShaderType::Fragment,
            is_dynamic: false,
            array_size: 20,
            type_info: PartType::Uniform(32),
        },
        MixturePart {
            binding: 2,
            name: "albedo".to_string(),
            shader_type: ShaderType::Fragment,
            is_dynamic: false,
            array_size: 1,
            type_info: PartType::Sampler,
        },
    ]
}

#[test]
fn find_part_by_name_and_binding() {
    let parts = parts();
    assert_eq!(find_part(&parts, &PartIndex::Name("lights".to_string())), Some(1));
    assert_eq!(find_part(&parts, &PartIndex::Binding(2)), Some(2));
    assert_eq!(find_part(&parts, &PartIndex::Name("normal".to_string())), None);
}

#[test]
fn glue_bottle_collects_writes() {
    let buffer = 42u32;
    let mut bottle: GlueBottle<u32, &str> = GlueBottle::new("set", parts());
    bottle.write_buffer(PartIndex::Name("camera".to_string()), &buffer, Some(128));
    bottle.write_array(PartIndex::Binding(1), 2..5, &buffer, None);
    let (handle, parts, writes) = bottle.into_parts();
    assert_eq!(handle, "set");
    assert_eq!(parts.len(), 3);
    assert_eq!(writes.len(), 2);
    assert_eq!((writes[0].binding, writes[0].array_offset), (0, 0));
    let Descriptor::Buffer(b, range) = &writes[0].descriptor;
    assert_eq!(**b, 42);
    assert_eq!(*range, BufferRange { offset: 128, size: Some(64) });
    assert_eq!((writes[1].binding, writes[1].array_offset), (1, 2));
    let Descriptor::Buffer(_, range) = &writes[1].descriptor;
    assert_eq!(*range, BufferRange { offset: 0, size: Some(96) });
}

#[test]
fn buffer_error_from_anyhow() {
    let e: BufferError = anyhow::Error::msg("device lost").into();
    assert!(matches!(e, BufferError::Other(_)));
    assert!(matches!(BufferError::OutOfMemory, BufferError::OutOfMemory));
}

#[test]
fn surface_format_prefers_srgb() {
    assert_eq!(choose_surface_format(&vec![false, true, true]), Some(1));
    assert_eq!(choose_surface_format(&vec![false, false]), Some(0));
    assert_eq!(choose_surface_format(&vec![]), None);
}
