//! Texture formats, layouts and accesses used to describe images and attachments.

use vstd::prelude::*;

verus! {

/// The pixel formats a texture or attachment can have.
#[derive(Debug, Clone, Copy, PartialEq, Eq, Structural)]
pub enum TextureFormat {
    R8Unorm,
    R8Snorm,
    R8Uint,
    R8Sint,
    R16Uint,
    R16Sint,
    R16Sfloat,
    Rg8Unorm,
    Rg8Snorm,
    Rg8Uint,
    Rg8Sint,
    R32Uint,
    R32Sint,
    R32Sfloat,
    Rg16Uint,
    Rg16Sint,
    Rg16Sfloat,
    Rgba8Unorm,
    Rgba8Srgb,
    Rgba8Snorm,
    Rgba8Uint,
    Rgba8Sint,
    Bgra8Unorm,
    Bgra8Srgb,
    Rg32Uint,
    Rg32Sint,
    Rg32Sfloat,
    Rgba16Uint,
    Rgba16Sint,
    Rgba16Sfloat,
    Rgba32Uint,
    Rgba32Sint,
    Rgba32Sfloat,
    Depth32Sfloat,
    Depth24PlusStencil8,
}

/// The layout an image is kept in while it is used in a certain way.
#[derive(Debug, Clone, PartialEq, Eq, Structural)]
pub enum TextureLayout {
    /// General purpose, no restrictions on usage.
    General,
    /// Must only be used as a color attachment in a framebuffer.
    ColorAttachmentOptimal,
    /// Must only be used as a depth attachment in a framebuffer.
    DepthStencilAttachmentOptimal,
    /// Must only be used as a depth attachment in a framebuffer,
    /// or as a read-only depth or stencil buffer in a shader.
    DepthStencilReadOnlyOptimal,
    /// Must only be used as a read-only image in a shader.
    ShaderReadOnlyOptimal,
    /// Must only be used as the source for a transfer command.
    TransferSrcOptimal,
    /// Must only be used as the destination for a transfer command.
    TransferDstOptimal,
    /// No layout, does not support device access.  Only valid as a
    /// source layout when transforming data to a specific destination
    /// layout or initializing data.  Does NOT guarantee that the contents
    /// of the source buffer are preserved.
    Undefined,
    /// Like `Undefined`, but does guarantee that the contents of the source
    /// buffer are preserved.
    Preinitialized,
    /// The layout that an image must be in to be presented to the display.
    Present,
}

/// The kinds of access an image can be the target of.
#[derive(Debug, Clone, PartialEq, Eq, Structural)]
pub enum ImageAccess {
    InputAttachmentRead,
    ShaderRead,
    ShaderWrite,
    ColorAttachmentRead,
    ColorAttachmentWrite,
    DepthStencilAttachmentRead,
    DepthStencilAttachmentWrite,
    TransferRead,
    TransferWrite,
    HostRead,
    HostWrite,
    MemoryRead,
    MemoryWrite,
}

/// How the texels of an image are arranged in memory.
#[derive(Debug, Clone, Copy, PartialEq, Eq, Structural)]
pub enum ImageTiling {
    Linear,
    Optimal,
}

/// Which of a surface's supported formats to render to, given whether each has sRGB
/// channels: the first sRGB format, else the first format; `None` when the surface lists no
/// format at all.
pub fn choose_surface_format(is_srgb: &Vec<bool>) -> (r: Option<usize>)
    ensures
        match r {
            Some(i) => i < is_srgb@.len() && (if exists|j: int| 0 <= j < is_srgb@.len() && #[trigger] is_srgb@[j] {
                is_srgb@[i as int] && forall|j: int| 0 <= j < i ==> !#[trigger] is_srgb@[j]
            } else {
                i == 0
            }),
            None => is_srgb@.len() == 0,
        },
{
    let mut i: usize = 0;
    while i < is_srgb.len()
        invariant
            0 <= i <= is_srgb@.len(),
            forall|j: int| 0 <= j < i ==> !#[trigger] is_srgb@[j],
        decreases is_srgb@.len() - i,
    {
        if is_srgb[i] {
            return Some(i);
        }
        i = i + 1;
    }
    if is_srgb.len() > 0 {
        Some(0)
    } else {
        None
    }
}

} // verus!
