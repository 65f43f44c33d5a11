use vstd::prelude::*;

use crate::image::ImageError;

verus! {

/// How a decoded file stores its pixels.
#[derive(Debug, Clone, Copy, PartialEq, Eq, Structural)]
pub enum ColorLayout {
    L8,
    La8,
    Rgb8,
    Rgba8,
    L16,
    La16,
    Rgb16,
    Rgba16,
    Rgb32F,
    Rgba32F,
    Other,
}

/// The channel count that a decoded layout is read into, if any.
pub open spec fn channels_of(layout: ColorLayout) -> Option<nat> {
    match layout {
        ColorLayout::L8 | ColorLayout::L16 => Some(1),
        ColorLayout::Rgb8 | ColorLayout::Rgb16 | ColorLayout::Rgb32F => Some(3),
        ColorLayout::Rgba8 | ColorLayout::Rgba16 | ColorLayout::Rgba32F => Some(4),
        _ => None,
    }
}

/// Gray layouts become one channel, RGB three, RGBA four; a gray layout
/// with alpha, or any other, is refused.
pub fn decoded_channels(layout: ColorLayout) -> (r: Result<u32, ImageError>)
    ensures
        match channels_of(layout) {
            Some(n) => r == Ok::<u32, ImageError>(n as u32),
            None => r == Err::<u32, ImageError>(ImageError::UnsupportedFormat),
        },
{
    match layout {
        ColorLayout::L8 | ColorLayout::L16 => Ok(1),
        ColorLayout::Rgb8 | ColorLayout::Rgb16 | ColorLayout::Rgb32F => Ok(3),
        ColorLayout::Rgba8 | ColorLayout::Rgba16 | ColorLayout::Rgba32F => Ok(4),
        _ => Err(ImageError::UnsupportedFormat),
    }
}

/// The 8-bit layout that an image is encoded in.
#[derive(Debug, Clone, Copy, PartialEq, Eq, Structural)]
pub enum EncodeLayout {
    Gray,
    Rgb,
}

/// One channel is encoded as gray, three as RGB; other counts are refused.
pub fn encode_layout(channels: u32) -> (r: Result<EncodeLayout, ImageError>)
    ensures
        channels == 1 ==> r == Ok::<EncodeLayout, ImageError>(EncodeLayout::Gray),
        channels == 3 ==> r == Ok::<EncodeLayout, ImageError>(EncodeLayout::Rgb),
        channels != 1 && channels != 3 ==> r == Err::<EncodeLayout, ImageError>(
            ImageError::UnsupportedChannelCount,
        ),
{
    if channels == 3 {
        Ok(EncodeLayout::Rgb)
    } else if channels == 1 {
        Ok(EncodeLayout::Gray)
    } else {
        Err(ImageError::UnsupportedChannelCount)
    }
}

} // verus!
