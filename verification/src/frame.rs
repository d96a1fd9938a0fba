//! The in-memory raw frame and its acquisition geometry.

use vstd::prelude::*;

use crate::raster::Raster;

verus! {

/// The region of the full sensor grid actually returned for a frame,
/// 1-indexed as received from the metadata record.
#[derive(Clone, Copy, Debug, PartialEq, Eq, Structural)]
pub struct SubframeRect {
    pub x: usize,
    pub y: usize,
    pub width: usize,
    pub height: usize,
}

/// A raw image together with its acquisition metadata: one pixel plane if
/// grayscale or Bayer-mosaiced, three if already color-separated.
#[derive(Debug)]
pub struct RawFrame {
    pub planes: Vec<Raster>,
    pub subframe_rect: Option<SubframeRect>,
    /// Integer downsampling factor applied on-instrument; greater than one
    /// means the frame was returned at reduced resolution.
    pub scale_factor: u32,
}

impl RawFrame {
    /// The structural invariant: one or three well-formed planes of equal,
    /// non-empty dimensions, and a positive scale factor.
    pub open spec fn wf(&self) -> bool {
        &&& (self.planes@.len() == 1 || self.planes@.len() == 3)
        &&& (forall|i: int| 0 <= i < self.planes@.len() ==> (#[trigger] self.planes@[i]).wf())
        &&& (forall|i: int|
            0 <= i < self.planes@.len() ==> (#[trigger] self.planes@[i]).width
                == self.planes@[0].width && self.planes@[i].height == self.planes@[0].height)
        &&& self.planes@[0].width >= 1
        &&& self.planes@[0].height >= 1
        &&& self.scale_factor >= 1
    }

    /// Every sample of every plane fits the 16-bit container.
    pub open spec fn is_16bit(&self) -> bool {
        forall|i: int, j: int|
            0 <= i < self.planes@.len() && 0 <= j < self.planes@[i].samples@.len()
                ==> #[trigger] self.planes@[i].samples@[j] <= 65535
    }

    pub open spec fn width_spec(&self) -> int {
        self.planes@[0].width as int
    }

    pub open spec fn height_spec(&self) -> int {
        self.planes@[0].height as int
    }

    /// The frame's pixel width.
    pub fn width(&self) -> (r: usize)
        requires
            self.wf(),
        ensures
            r == self.width_spec(),
    {
        self.planes[0].width
    }

    /// The frame's pixel height.
    pub fn height(&self) -> (r: usize)
        requires
            self.wf(),
        ensures
            r == self.height_spec(),
    {
        self.planes[0].height
    }

    /// True while the frame still holds a single (gray or Bayer-mosaiced)
    /// plane.
    pub fn is_grayscale(&self) -> (r: bool)
        ensures
            r == (self.planes@.len() == 1),
    {
        self.planes.len() == 1
    }
}

} // verus!
