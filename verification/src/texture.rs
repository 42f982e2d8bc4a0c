use vstd::prelude::*;
use crate::text::{decimal, push_decimal};

verus! {

/// The filterable formats that sampled textures use.
#[derive(Clone, Copy, PartialEq, Eq, Structural)]
pub enum FilterableFloatFormat {
    R8Unorm,
    Rgba8Unorm,
}

impl FilterableFloatFormat {
    pub open spec fn texel_bytes(self) -> u32 {
        match self {
            FilterableFloatFormat::R8Unorm => 1,
            FilterableFloatFormat::Rgba8Unorm => 4,
        }
    }

    /// Bytes in one texel: one channel or four.
    pub fn bytes_per_texel(self) -> (bytes: u32)
        ensures
            bytes == self.texel_bytes(),
    {
        match self {
            FilterableFloatFormat::R8Unorm => 1,
            FilterableFloatFormat::Rgba8Unorm => 4,
        }
    }
}

/// Why a texture write was refused.
#[derive(Clone, Copy, Debug, PartialEq, Eq, Structural)]
pub enum TextureWriteError {
    EmptyRegion,
    OutOfBounds,
    InvalidDataLength { expected: usize, actual: usize },
}

impl TextureWriteError {
    /// The error's message.
    pub open spec fn text(self) -> Seq<char> {
        match self {
            TextureWriteError::EmptyRegion => "texture write region is empty"@,
            TextureWriteError::OutOfBounds => "texture write region is out of bounds"@,
            TextureWriteError::InvalidDataLength { expected, actual } => "texture write needs "@ + decimal(
                expected as nat,
            ) + " bytes, received "@ + decimal(actual as nat),
        }
    }

    /// The error's message, as `Display` would write it.
    pub fn message(&self) -> (message: String)
        ensures
            message@ == self.text(),
    {
        match self {
            TextureWriteError::EmptyRegion => "texture write region is empty".to_string(),
            TextureWriteError::OutOfBounds => "texture write region is out of bounds".to_string(),
            TextureWriteError::InvalidDataLength { expected, actual } => {
                let mut message = "texture write needs ".to_string();
                push_decimal(&mut message, *expected as u64);
                message.append(" bytes, received ");
                push_decimal(&mut message, *actual as u64);
                message
            },
        }
    }
}

/// The copy that a validated texture write performs.
#[derive(Clone, Copy)]
pub struct TextureCopy {
    pub origin: [u32; 3],
    pub extent: [u32; 2],
    pub bytes_per_row: u32,
    pub rows_per_image: u32,
}

/// The texture dimensions and texel size of a writable sampled texture.
#[derive(Clone, Copy)]
pub struct SampledTexture {
    pub width: u32,
    pub height: u32,
    pub layers: u32,
    pub bytes_per_texel: u32,
}

/// The outcome of writing `data_len` bytes to the region at `origin` of size
/// `extent` in a texture of the given size: the region must be non-empty, lie
/// inside the texture, and the data must hold exactly one texel per position.
pub open spec fn write_outcome(
    texture: SampledTexture,
    origin: [u32; 3],
    extent: [u32; 2],
    data_len: int,
) -> Result<TextureCopy, TextureWriteError> {
    let expected = extent[0] * extent[1] * texture.bytes_per_texel;
    if extent[0] == 0 || extent[1] == 0 {
        Err(TextureWriteError::EmptyRegion)
    } else if origin[0] + extent[0] > texture.width || origin[1] + extent[1] > texture.height
        || origin[2] >= texture.layers || extent[0] * extent[1] > u32::MAX || expected > u32::MAX {
        Err(TextureWriteError::OutOfBounds)
    } else if data_len != expected {
        Err(TextureWriteError::InvalidDataLength { expected: expected as usize, actual: data_len as usize })
    } else {
        Ok(
            TextureCopy {
                origin,
                extent,
                bytes_per_row: (extent[0] * texture.bytes_per_texel) as u32,
                rows_per_image: extent[1],
            },
        )
    }
}

impl SampledTexture {
    /// A texture of `[width, height, layers]` texels in `format`.
    pub fn new(size: [u32; 3], format: FilterableFloatFormat) -> (texture: Self)
        ensures
            texture.width == size[0],
            texture.height == size[1],
            texture.layers == size[2],
            texture.bytes_per_texel == format.texel_bytes(),
    {
        SampledTexture {
            width: size[0],
            height: size[1],
            layers: size[2],
            bytes_per_texel: format.bytes_per_texel(),
        }
    }

    /// Validates one texture region write and returns the copy to perform.
    pub fn write(&self, origin: [u32; 3], extent: [u32; 2], data: &[u8]) -> (result: Result<
        TextureCopy,
        TextureWriteError,
    >)
        ensures
            result == write_outcome(*self, origin, extent, data@.len() as int),
    {
        let (x, y, layer) = (origin[0], origin[1], origin[2]);
        let (width, height) = (extent[0], extent[1]);
        if width == 0 || height == 0 {
            return Err(TextureWriteError::EmptyRegion);
        }
        let x_fits = match x.checked_add(width) {
            Some(end) => end <= self.width,
            None => false,
        };
        let y_fits = match y.checked_add(height) {
            Some(end) => end <= self.height,
            None => false,
        };
        if !x_fits || !y_fits || layer >= self.layers {
            return Err(TextureWriteError::OutOfBounds);
        }
        let expected = match width.checked_mul(height) {
            Some(texels) => texels.checked_mul(self.bytes_per_texel),
            None => None,
        };
        let expected = match expected {
            Some(bytes) => bytes,
            None => {
                proof {
                    if width * height <= u32::MAX {
                        assert(width * height * self.bytes_per_texel > u32::MAX);
                    }
                }
                return Err(TextureWriteError::OutOfBounds);
            },
        };
        assert(width * self.bytes_per_texel <= expected) by (nonlinear_arith)
            requires
                expected == width * height * self.bytes_per_texel,
                height >= 1,
        ;
        let expected = expected as usize;
        if data.len() != expected {
            return Err(TextureWriteError::InvalidDataLength { expected, actual: data.len() });
        }
        Ok(TextureCopy {
            origin,
            extent,
            bytes_per_row: width * self.bytes_per_texel,
            rows_per_image: height,
        })
    }
}

} // verus!
