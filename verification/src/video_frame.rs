use vstd::prelude::*;

verus! {

/// One decoded image: packed 8-bit RGB rows without padding, together with
/// the dimensions the picture had before it was scaled.
#[derive(Debug)]
pub struct VideoFrame {
    pub width: u32,
    pub height: u32,
    pub source_width: u32,
    pub source_height: u32,
    pub data: Vec<u8>,
}

/// Number of bytes a packed RGB image of the given size occupies.
pub open spec fn rgb_len(width: u32, height: u32) -> nat {
    (width as nat) * (height as nat) * 3
}

/// The product of two 32-bit numbers fits in 64 bits.
pub(crate) proof fn lemma_product_fits(a: u32, b: u32)
    ensures
        0 <= (a as int) * (b as int) <= 0xFFFF_FFFE_0000_0001,
{
    assert(0 <= (a as int) * (b as int) <= 0xFFFF_FFFF * 0xFFFF_FFFF) by (nonlinear_arith)
        requires
            0 <= a <= 0xFFFF_FFFF,
            0 <= b <= 0xFFFF_FFFF,
    ;
}

impl Default for VideoFrame {
    /// The frame a run starts from: no pixels, all dimensions zero.
    fn default() -> (frame: VideoFrame)
        ensures
            frame.wf(),
            frame.width == 0,
            frame.height == 0,
            frame.source_width == 0,
            frame.source_height == 0,
            frame.data@ == Seq::<u8>::empty(),
    {
        VideoFrame { width: 0, height: 0, source_width: 0, source_height: 0, data: Vec::new() }
    }
}

impl VideoFrame {
    /// The buffer holds exactly `width * height` pixels.
    pub open spec fn wf(&self) -> bool {
        self.data@.len() == rgb_len(self.width, self.height)
    }

    /// The frame holds at least one pixel.
    pub open spec fn populated(&self) -> bool {
        self.wf() && self.width > 0 && self.height > 0
    }

    /// Tells whether the buffer length agrees with the stated dimensions.
    pub fn is_well_formed(&self) -> (ok: bool)
        ensures
            ok == self.wf(),
    {
        proof {
            lemma_product_fits(self.width, self.height);
        }
        let pixels: u64 = (self.width as u64) * (self.height as u64);
        let expected: u128 = (pixels as u128) * 3;
        (self.data.len() as u128) == expected
    }
}

} // verus!
