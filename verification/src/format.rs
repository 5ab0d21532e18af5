//! Data formats of vertex attributes and the bytes one value occupies.

use vstd::prelude::*;

verus! {

/// The format of one value as a shader or a vertex member declares it.
#[derive(Clone, Copy, Debug, PartialEq, Eq, Structural)]
pub enum Format {
    R8Unorm,
    R8Snorm,
    R8Uint,
    R8Sint,
    R8G8Unorm,
    R8G8Snorm,
    R8G8Uint,
    R8G8Sint,
    R8G8B8Unorm,
    R8G8B8Snorm,
    R8G8B8Uint,
    R8G8B8Sint,
    R8G8B8A8Unorm,
    R8G8B8A8Snorm,
    R8G8B8A8Uint,
    R8G8B8A8Sint,
    R16Unorm,
    R16Snorm,
    R16Uint,
    R16Sint,
    R16Sfloat,
    R16G16Unorm,
    R16G16Snorm,
    R16G16Uint,
    R16G16Sint,
    R16G16Sfloat,
    R16G16B16Unorm,
    R16G16B16Snorm,
    R16G16B16Uint,
    R16G16B16Sint,
    R16G16B16Sfloat,
    R16G16B16A16Unorm,
    R16G16B16A16Snorm,
    R16G16B16A16Uint,
    R16G16B16A16Sint,
    R16G16B16A16Sfloat,
    R32Uint,
    R32Sint,
    R32Sfloat,
    R32G32Uint,
    R32G32Sint,
    R32G32Sfloat,
    R32G32B32Uint,
    R32G32B32Sint,
    R32G32B32Sfloat,
    R32G32B32A32Uint,
    R32G32B32A32Sint,
    R32G32B32A32Sfloat,
    R64Uint,
    R64Sint,
    R64Sfloat,
    R64G64Uint,
    R64G64Sint,
    R64G64Sfloat,
    R64G64B64Uint,
    R64G64B64Sint,
    R64G64B64Sfloat,
    R64G64B64A64Uint,
    R64G64B64A64Sint,
    R64G64B64A64Sfloat,
    D16Unorm,
    D32Sfloat,
    S8Uint,
    D16UnormS8Uint,
    D24UnormS8Uint,
    D32SfloatS8Uint,
    Bc1RgbUnormBlock,
    Bc1RgbSrgbBlock,
    Bc7UnormBlock,
    Bc7SrgbBlock,
}

impl Format {
    /// How one value is laid out: the number of its channels and the bytes
    /// of each, where the format has channels of one width.
    pub open spec fn layout(self) -> Option<(nat, nat)> {
        match self {
            Format::R8Unorm | Format::R8Snorm | Format::R8Uint | Format::R8Sint
            | Format::S8Uint => Some((1, 1)),
            Format::R8G8Unorm | Format::R8G8Snorm | Format::R8G8Uint | Format::R8G8Sint => {
                Some((2, 1))
            },
            Format::R8G8B8Unorm | Format::R8G8B8Snorm | Format::R8G8B8Uint | Format::R8G8B8Sint => {
                Some((3, 1))
            },
            Format::R8G8B8A8Unorm | Format::R8G8B8A8Snorm | Format::R8G8B8A8Uint
            | Format::R8G8B8A8Sint => Some((4, 1)),
            Format::R16Unorm | Format::R16Snorm | Format::R16Uint | Format::R16Sint
            | Format::R16Sfloat | Format::D16Unorm => Some((1, 2)),
            Format::R16G16Unorm | Format::R16G16Snorm | Format::R16G16Uint | Format::R16G16Sint
            | Format::R16G16Sfloat => Some((2, 2)),
            Format::R16G16B16Unorm | Format::R16G16B16Snorm | Format::R16G16B16Uint
            | Format::R16G16B16Sint | Format::R16G16B16Sfloat => Some((3, 2)),
            Format::R16G16B16A16Unorm | Format::R16G16B16A16Snorm | Format::R16G16B16A16Uint
            | Format::R16G16B16A16Sint | Format::R16G16B16A16Sfloat => Some((4, 2)),
            Format::R32Uint | Format::R32Sint | Format::R32Sfloat | Format::D32Sfloat => {
                Some((1, 4))
            },
            Format::R32G32Uint | Format::R32G32Sint | Format::R32G32Sfloat => Some((2, 4)),
            Format::R32G32B32Uint | Format::R32G32B32Sint | Format::R32G32B32Sfloat => Some((3, 4)),
            Format::R32G32B32A32Uint | Format::R32G32B32A32Sint | Format::R32G32B32A32Sfloat => {
                Some((4, 4))
            },
            Format::R64Uint | Format::R64Sint | Format::R64Sfloat => Some((1, 8)),
            Format::R64G64Uint | Format::R64G64Sint | Format::R64G64Sfloat => Some((2, 8)),
            Format::R64G64B64Uint | Format::R64G64B64Sint | Format::R64G64B64Sfloat => Some((3, 8)),
            Format::R64G64B64A64Uint | Format::R64G64B64A64Sint | Format::R64G64B64A64Sfloat => {
                Some((4, 8))
            },
            Format::D16UnormS8Uint | Format::D24UnormS8Uint | Format::D32SfloatS8Uint
            | Format::Bc1RgbUnormBlock | Format::Bc1RgbSrgbBlock | Format::Bc7UnormBlock
            | Format::Bc7SrgbBlock => None,
        }
    }

    /// Bytes that one value of the format occupies. Formats that pack depth
    /// with stencil, and block-compressed formats, have no such size.
    pub open spec fn size_spec(self) -> Option<usize> {
        match self {
            Format::R8Unorm | Format::R8Snorm | Format::R8Uint | Format::R8Sint
            | Format::S8Uint => Some(1),
            Format::R8G8Unorm | Format::R8G8Snorm | Format::R8G8Uint | Format::R8G8Sint => Some(2),
            Format::R8G8B8Unorm | Format::R8G8B8Snorm | Format::R8G8B8Uint | Format::R8G8B8Sint => {
                Some(3)
            },
            Format::R8G8B8A8Unorm | Format::R8G8B8A8Snorm | Format::R8G8B8A8Uint
            | Format::R8G8B8A8Sint => Some(4),
            Format::R16Unorm | Format::R16Snorm | Format::R16Uint | Format::R16Sint
            | Format::R16Sfloat | Format::D16Unorm => Some(2),
            Format::R16G16Unorm | Format::R16G16Snorm | Format::R16G16Uint | Format::R16G16Sint
            | Format::R16G16Sfloat => Some(4),
            Format::R16G16B16Unorm | Format::R16G16B16Snorm | Format::R16G16B16Uint
            | Format::R16G16B16Sint | Format::R16G16B16Sfloat => Some(6),
            Format::R16G16B16A16Unorm | Format::R16G16B16A16Snorm | Format::R16G16B16A16Uint
            | Format::R16G16B16A16Sint | Format::R16G16B16A16Sfloat => Some(8),
            Format::R32Uint | Format::R32Sint | Format::R32Sfloat | Format::D32Sfloat => Some(4),
            Format::R32G32Uint | Format::R32G32Sint | Format::R32G32Sfloat => Some(8),
            Format::R32G32B32Uint | Format::R32G32B32Sint | Format::R32G32B32Sfloat => Some(12),
            Format::R32G32B32A32Uint | Format::R32G32B32A32Sint | Format::R32G32B32A32Sfloat => {
                Some(16)
            },
            Format::R64Uint | Format::R64Sint | Format::R64Sfloat => Some(8),
            Format::R64G64Uint | Format::R64G64Sint | Format::R64G64Sfloat => Some(16),
            Format::R64G64B64Uint | Format::R64G64B64Sint | Format::R64G64B64Sfloat => Some(24),
            Format::R64G64B64A64Uint | Format::R64G64B64A64Sint | Format::R64G64B64A64Sfloat => {
                Some(32)
            },
            Format::D16UnormS8Uint | Format::D24UnormS8Uint | Format::D32SfloatS8Uint
            | Format::Bc1RgbUnormBlock | Format::Bc1RgbSrgbBlock | Format::Bc7UnormBlock
            | Format::Bc7SrgbBlock => None,
        }
    }

    /// The size in bytes of one value, where the format defines one.
    pub fn size(&self) -> (bytes: Option<usize>)
        ensures
            bytes == self.size_spec(),
    {
        match *self {
            Format::R8Unorm | Format::R8Snorm | Format::R8Uint | Format::R8Sint
            | Format::S8Uint => Some(1),
            Format::R8G8Unorm | Format::R8G8Snorm | Format::R8G8Uint | Format::R8G8Sint => Some(2),
            Format::R8G8B8Unorm | Format::R8G8B8Snorm | Format::R8G8B8Uint | Format::R8G8B8Sint => {
                Some(3)
            },
            Format::R8G8B8A8Unorm | Format::R8G8B8A8Snorm | Format::R8G8B8A8Uint
            | Format::R8G8B8A8Sint => Some(4),
            Format::R16Unorm | Format::R16Snorm | Format::R16Uint | Format::R16Sint
            | Format::R16Sfloat | Format::D16Unorm => Some(2),
            Format::R16G16Unorm | Format::R16G16Snorm | Format::R16G16Uint | Format::R16G16Sint
            | Format::R16G16Sfloat => Some(4),
            Format::R16G16B16Unorm | Format::R16G16B16Snorm | Format::R16G16B16Uint
            | Format::R16G16B16Sint | Format::R16G16B16Sfloat => Some(6),
            Format::R16G16B16A16Unorm | Format::R16G16B16A16Snorm | Format::R16G16B16A16Uint
            | Format::R16G16B16A16Sint | Format::R16G16B16A16Sfloat => Some(8),
            Format::R32Uint | Format::R32Sint | Format::R32Sfloat | Format::D32Sfloat => Some(4),
            Format::R32G32Uint | Format::R32G32Sint | Format::R32G32Sfloat => Some(8),
            Format::R32G32B32Uint | Format::R32G32B32Sint | Format::R32G32B32Sfloat => Some(12),
            Format::R32G32B32A32Uint | Format::R32G32B32A32Sint | Format::R32G32B32A32Sfloat => {
                Some(16)
            },
            Format::R64Uint | Format::R64Sint | Format::R64Sfloat => Some(8),
            Format::R64G64Uint | Format::R64G64Sint | Format::R64G64Sfloat => Some(16),
            Format::R64G64B64Uint | Format::R64G64B64Sint | Format::R64G64B64Sfloat => Some(24),
            Format::R64G64B64A64Uint | Format::R64G64B64A64Sint | Format::R64G64B64A64Sfloat => {
                Some(32)
            },
            Format::D16UnormS8Uint | Format::D24UnormS8Uint | Format::D32SfloatS8Uint
            | Format::Bc1RgbUnormBlock | Format::Bc1RgbSrgbBlock | Format::Bc7UnormBlock
            | Format::Bc7SrgbBlock => None,
        }
    }

    /// The size of a value is that of its channels together, and a format
    /// has a size exactly when it has a layout.
    pub proof fn lemma_size_is_layout(self)
        ensures
            match self.layout() {
                Some((channels, bytes)) => self.size_spec() == Some((channels * bytes) as usize),
                None => self.size_spec() is None,
            },
    {
        match self.layout() {
            Some((channels, bytes)) => {
                assert(1 <= channels <= 4 && 1 <= bytes <= 8);
                assert(channels * bytes == if channels == 1 {
                    bytes
                } else if channels == 2 {
                    bytes + bytes
                } else if channels == 3 {
                    bytes + bytes + bytes
                } else {
                    bytes + bytes + bytes + bytes
                }) by (nonlinear_arith)
                    requires
                        1 <= channels <= 4,
                ;
            },
            None => {},
        }
    }

    /// Every defined size lies between one byte and thirty-two.
    pub proof fn lemma_size_bounds(self)
        ensures
            match self.size_spec() {
                Some(bytes) => 1 <= bytes <= 32,
                None => true,
            },
    {
    }
}

} // verus!
