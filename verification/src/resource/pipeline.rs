//! Descriptions of the fixed-function state and the inputs of a graphics pipeline.

use std::fmt::Debug;
use std::path::PathBuf;
use vstd::prelude::*;

verus! {

/// `std::path::PathBuf`, carried by `ShaderSource::GlslFile`; nothing inside it is read here.
#[verifier::external_type_specification]
#[verifier::external_body]
pub struct ExPathBuf(PathBuf);

/// Where the code of a shader comes from.
#[derive(Debug)]
pub enum ShaderSource {
    GlslFile(PathBuf),
    GlslSource((&'static str, ShaderType, Option<&'static str>)),
    /// When used in compile shader this is a noop
    Spirv(Vec<u32>),
}

/// The stage a shader runs in.
#[derive(Debug, Clone, Copy, PartialEq, Eq, Structural)]
pub enum ShaderType {
    Vertex,
    Fragment,
    Compute,
    Geometry,
}

/// How polygons are rasterized.
#[derive(Debug, Clone, Copy, PartialEq, Eq, Structural)]
pub enum PolygonMode {
    Point,
    Line,
    Fill,
}

/// The vertex order of front-facing polygons.
#[derive(Debug, Clone, Copy, PartialEq, Eq, Structural)]
pub enum Winding {
    Clockwise,
    CounterClockwise,
}

/// Which faces are culled.
#[derive(Debug, Clone, Copy, PartialEq, Eq, Structural)]
pub enum CullFace {
    Disabled,
    Front,
    Back,
}

/// Face culling settings.
#[derive(Debug, Clone, Copy, PartialEq, Eq, Structural)]
pub struct Culling {
    pub winding: Winding,
    pub cull_face: CullFace,
}

/// Rasterizer settings of a pipeline.
#[derive(Debug, Clone, Copy, PartialEq, Eq, Structural)]
pub struct Rasterizer {
    pub polygon_mode: PolygonMode,
    pub culling: Culling,  // We might add fields later but for now this should be sufficient
}

impl Rasterizer {
    /// Filled polygons, clockwise front faces, no culling.
    pub fn fill() -> (r: Rasterizer)
        ensures
            r == (Rasterizer {
                polygon_mode: PolygonMode::Fill,
                culling: Culling { winding: Winding::Clockwise, cull_face: CullFace::Disabled },
            }),
    {
        Rasterizer {
            polygon_mode: PolygonMode::Fill,
            culling: Culling { winding: Winding::Clockwise, cull_face: CullFace::Disabled },
        }
    }
}

/// Whether a vertex buffer advances per vertex or per instance.
#[derive(Debug, Clone, Copy, PartialEq, Eq, Structural)]
pub enum VertexInputRate {
    Vertex,
    Instance,
}

/// A vertex buffer that a pipeline expects to be bound.
#[derive(Debug, Clone, Copy, PartialEq, Eq, Structural)]
pub struct VertexBufferDescriptor {
    pub binding: u32,
    pub stride: u32,
    pub rate: VertexInputRate,
}

impl VertexBufferDescriptor {
    pub fn new(binding: u32, stride: u32, rate: VertexInputRate) -> (r: Self)
        ensures
            r == (VertexBufferDescriptor { binding, stride, rate }),
    {
        Self { binding, stride, rate }
    }
}

/// The format of a vertex attribute.
#[derive(Debug, Clone, Copy, PartialEq, Eq, Structural)]
pub enum VertexAttributeFormat {
    Vec2,
    Vec3,
    Vec4,
}

/// A vertex attribute and where it is read from.
#[derive(Debug, Clone, Copy, PartialEq, Eq, Structural)]
pub struct AttributeDescriptor {
    pub location: u32,
    /// index of the vertex buffer that fills this attribute
    pub binding: u32,
    pub offset: u32,
    pub format: VertexAttributeFormat,
}

impl AttributeDescriptor {
    pub fn new(location: u32, binding: u32, offset: u32, format: VertexAttributeFormat) -> (r:
        Self)
        ensures
            r == (AttributeDescriptor { location, binding, offset, format }),
    {
        Self { location, binding, offset, format }
    }
}

/// The kind of primitives that are assembled from the vertices.
#[derive(Debug, Clone, Copy, PartialEq, Eq, Structural)]
pub enum Primitive {
    PointList,
    LineList,
    LineStrip,
    TriangleList,
    TriangleStrip,
}

/// Comparison used by the depth test.
#[derive(Debug, Clone, Copy, PartialEq, Eq, Structural)]
pub enum ComparisonFunction {
    Never,
    Less,
    Equal,
    LessEqual,
    Greater,
    NotEqual,
    GreaterEqual,
    Always,
}

/// Depth test settings.
#[derive(Debug, Clone, Copy, PartialEq, Eq, Structural)]
pub struct DepthDescriptor {
    pub function: ComparisonFunction,
    pub write: bool,
}

/// A piece of pipeline state that is either baked into the pipeline or set while recording.
#[derive(Debug, Clone)]
pub enum PipelineState<T: Debug> {
    Baked(T),
    Dynamic,
}

impl<T: Debug + Clone> PipelineState<T> {
    /// The baked value, or `None` for dynamic state.
    pub fn to_option(&self) -> (r: Option<T>)
        ensures
            match self {
                PipelineState::Baked(t) => r is Some && cloned::<T>(*t, r->0),
                PipelineState::Dynamic => r is None,
            },
    {
        match self {
            PipelineState::Baked(t) => Some(t.clone()),
            PipelineState::Dynamic => None,
        }
    }
}

/// A rectangle in framebuffer coordinates.
#[derive(Debug, Clone, Copy, PartialEq, Eq, Structural)]
pub struct Rect {
    pub x: i16,
    pub y: i16,
    pub width: i16,
    pub height: i16,
}

/// The stages of the graphics pipeline.
#[derive(Debug, Clone, Copy, PartialEq, Eq, Structural)]
pub enum PipelineStage {
    TopOfPipe,
    DrawIndirect,
    VertexInput,
    VertexShader,
    HullShader,
    DomainShader,
    GeometryShader,
    FragmentShader,
    EarlyFragmentTests,
    LateFragmentTests,
    ColorAttachmentOutput,
    ComputeShader,
    Transfer,
    BottomOfPipe,
    Host,
    TaskShader,
    MeshShader,
}

} // verus!
