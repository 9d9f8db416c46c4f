//! Pictures as pixels, for display.
//!
//! The picture chunks of a container hold whole PNG or JPEG files, and this
//! library decodes neither: whoever shows a picture has its chunk decoded
//! elsewhere and hands the outcome to [`Picture::from_rgba`], which accepts it
//! only where the samples are as many as the size asks for.

use vstd::prelude::*;

verus! {

/// A picture as a mathematical value.
pub struct PictureView {
    pub width: u32,
    pub height: u32,
    /// Four samples for each pixel, row by row.
    pub rgba: Seq<u8>,
}

/// A picture of `width` by `height` pixels with four 8-bit samples, red,
/// green, blue and alpha, for each pixel.
#[derive(Debug, PartialEq, Eq)]
pub struct Picture {
    width: u32,
    height: u32,
    rgba: Vec<u8>,
}

impl View for Picture {
    type V = PictureView;

    closed spec fn view(&self) -> PictureView {
        PictureView { width: self.width, height: self.height, rgba: self.rgba@ }
    }
}

/// The picture with the given size and samples: there is one where the
/// samples are four for each pixel.
pub open spec fn picture_of(width: u32, height: u32, rgba: Seq<u8>) -> Option<PictureView> {
    if rgba.len() == 4 * (width * height) {
        Some(PictureView { width, height, rgba })
    } else {
        None
    }
}

/// The picture `picture`, if there is one, replaced by its view.
pub open spec fn picture_view(picture: Option<Picture>) -> Option<PictureView> {
    match picture {
        Some(picture) => Some(picture@),
        None => None,
    }
}

impl Picture {
    /// A picture has four samples for each of its pixels.
    #[verifier::type_invariant]
    pub open spec fn wf(&self) -> bool {
        self@.rgba.len() == 4 * (self@.width * self@.height)
    }

    /// Makes a picture of its size and samples, where the samples are four
    /// for each pixel.
    pub fn from_rgba(width: u32, height: u32, rgba: Vec<u8>) -> (r: Option<Picture>)
        ensures
            picture_view(r) == picture_of(width, height, rgba@),
    {
        assert(width * height <= 0xFFFF_FFFF * 0xFFFF_FFFF) by (nonlinear_arith)
            requires
                width <= 0xFFFF_FFFF,
                height <= 0xFFFF_FFFF,
        ;
        let pixels: u64 = (width as u64) * (height as u64);
        let len = rgba.len();
        match pixels.checked_mul(4) {
            Some(samples) => if len as u64 == samples {
                Some(Picture { width, height, rgba })
            } else {
                None
            },
            None => None,
        }
    }

    /// The number of pixels in a row.
    pub fn width(&self) -> (width: u32)
        ensures
            width == self@.width,
    {
        self.width
    }

    /// The number of rows.
    pub fn height(&self) -> (height: u32)
        ensures
            height == self@.height,
    {
        self.height
    }

    /// The samples, four for each pixel, row by row.
    pub fn rgba(&self) -> (rgba: &[u8])
        ensures
            rgba@ == self@.rgba,
            rgba@.len() == 4 * (self@.width * self@.height),
    {
        proof {
            use_type_invariant(self);
        }
        self.rgba.as_slice()
    }
}

} // verus!
