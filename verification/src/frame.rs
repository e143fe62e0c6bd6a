//! Frame codec: wraps a run of raw bytes into a structured frame buffer.
//!
//! A frame is exactly `width * height * 4` bytes, four bytes per pixel
//! (three color channels and one alpha/unused channel), row-major,
//! top-to-bottom. Construction validates only the byte count; the bytes
//! themselves are carried through unchanged.

use vstd::prelude::*;

verus! {

/// One decoded picture: raw pixel bytes plus the dimensions they were
/// decoded at. Well-formed by construction: the byte count always equals
/// `width * height * 4`.
#[derive(Debug)]
pub struct FrameBuffer {
    data: Vec<u8>,
    width: u32,
    height: u32,
}

impl FrameBuffer {
    /// The raw bytes this buffer holds.
    pub closed spec fn spec_data(self) -> Seq<u8> {
        self.data@
    }

    /// The width, in pixels, this buffer was built with.
    pub closed spec fn spec_width(self) -> u32 {
        self.width
    }

    /// The height, in pixels, this buffer was built with.
    pub closed spec fn spec_height(self) -> u32 {
        self.height
    }

    /// The byte count a frame of the given dimensions must have.
    pub open spec fn expected_len(width: u32, height: u32) -> int {
        width * height * 4
    }

    /// Every frame buffer holds exactly `width * height * 4` bytes.
    pub open spec fn wf(self) -> bool {
        self.spec_data().len() == Self::expected_len(self.spec_width(), self.spec_height())
    }

    /// Wraps `data` as a frame of `width` by `height` pixels. Succeeds
    /// exactly when the byte count matches the dimensions, and then
    /// preserves every byte unchanged.
    pub fn from_raw(width: u32, height: u32, data: Vec<u8>) -> (r: Option<FrameBuffer>)
        ensures
            match r {
                Some(fb) => {
                    &&& data@.len() == Self::expected_len(width, height)
                    &&& fb.spec_data() == data@
                    &&& fb.spec_width() == width
                    &&& fb.spec_height() == height
                    &&& fb.wf()
                },
                None => data@.len() != Self::expected_len(width, height),
            },
    {
        let w: u128 = width as u128;
        let h: u128 = height as u128;
        proof {
            assert(w * h <= 0xffff_ffff * 0xffff_ffff) by (nonlinear_arith)
                requires
                    w <= 0xffff_ffff,
                    h <= 0xffff_ffff,
            ;
        }
        let expected: u128 = w * h * 4;
        if (data.len() as u128) == expected {
            Some(FrameBuffer { data, width, height })
        } else {
            None
        }
    }

    /// Byte count of the buffer.
    pub fn len(&self) -> (r: usize)
        ensures
            r == self.spec_data().len(),
    {
        self.data.len()
    }

    /// Width in pixels.
    pub fn width(&self) -> (r: u32)
        ensures
            r == self.spec_width(),
    {
        self.width
    }

    /// Height in pixels.
    pub fn height(&self) -> (r: u32)
        ensures
            r == self.spec_height(),
    {
        self.height
    }

    /// Borrows the raw bytes.
    pub fn data(&self) -> (r: &Vec<u8>)
        ensures
            r@ == self.spec_data(),
    {
        &self.data
    }

    /// Gives the raw bytes up, consuming the buffer.
    pub fn into_raw(self) -> (r: Vec<u8>)
        ensures
            r@ == self.spec_data(),
    {
        self.data
    }
}

} // verus!
