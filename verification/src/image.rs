use std::ops::{Deref, DerefMut};
use vstd::prelude::*;

verus! {

/// A picture in memory: `height` rows of `width` pixels, four bytes a pixel
/// (red, green, blue, alpha), row after row.
pub struct Image {
    pub pixels: Vec<u8>,
    pub width: i32,
    pub height: i32,
}

/// Number of bytes that a picture of these dimensions takes.
pub open spec fn rgba_len(width: int, height: int) -> int {
    4 * width * height
}

impl Image {
    /// The dimensions are not negative and there are as many bytes as they
    /// ask for.
    pub open spec fn wf(&self) -> bool {
        &&& 0 <= self.width
        &&& 0 <= self.height
        &&& self.pixels@.len() == rgba_len(self.width as int, self.height as int)
    }

    /// Number of bytes that a picture of these dimensions takes, where the
    /// dimensions are not negative and the number fits.
    pub fn byte_len(width: i32, height: i32) -> (n: Option<usize>)
        ensures
            n is Some <==> 0 <= width && 0 <= height && rgba_len(width as int, height as int)
                <= usize::MAX,
            n matches Some(len) ==> len == rgba_len(width as int, height as int),
    {
        if width < 0 || height < 0 {
            return None;
        }
        let w = width as u64;
        let h = height as u64;
        assert(4 * w * h <= u64::MAX) by (nonlinear_arith)
            requires
                w <= 0x7fff_ffff,
                h <= 0x7fff_ffff,
        ;
        let len = 4 * w * h;
        if len <= usize::MAX as u64 {
            Some(len as usize)
        } else {
            None
        }
    }

    /// The picture of these dimensions whose bytes are `pixels`, where they
    /// are as many as the dimensions ask for.
    pub fn from_rgba(pixels: Vec<u8>, width: i32, height: i32) -> (image: Option<Image>)
        ensures
            image is Some <==> 0 <= width && 0 <= height && pixels@.len() == rgba_len(
                width as int,
                height as int,
            ),
            image matches Some(i) ==> i.wf() && i.pixels == pixels && i.width == width && i.height
                == height,
    {
        let count = pixels.len();
        match Image::byte_len(width, height) {
            Some(len) => if len == count {
                Some(Image { pixels, width, height })
            } else {
                None
            },
            None => None,
        }
    }
}

impl Deref for Image {
    type Target = Vec<u8>;

    fn deref(&self) -> (pixels: &Vec<u8>)
        ensures
            *pixels == self.pixels,
    {
        &self.pixels
    }
}

impl DerefMut for Image {
    fn deref_mut(&mut self) -> (pixels: &mut Vec<u8>)
        ensures
            *pixels == old(self).pixels,
            final(self).pixels == *final(pixels),
            final(self).width == old(self).width,
            final(self).height == old(self).height,
    {
        &mut self.pixels
    }
}

} // verus!
