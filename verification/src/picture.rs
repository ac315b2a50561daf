//! Pictures as image files decode to them (grey or colour, with or without alpha, eight
//! bits a channel), and their conversion to the panel's 8-bit grey: resized to cover
//! the panel and cropped to it, with the image crate's Lanczos filter.
use image::imageops::FilterType;
use image::{DynamicImage, ImageBuffer};
use vstd::prelude::*;

verus! {

/// How the channels of one pixel follow each other, one byte each.
#[derive(PartialEq, Eq, Structural, Debug, Clone, Copy)]
pub enum PixelLayout {
    /// One grey byte.
    Grey,
    /// Grey, then alpha.
    GreyAlpha,
    /// Red, green, blue.
    Rgb,
    /// Red, green, blue, alpha.
    Rgba,
}

/// The number of bytes of one pixel in `layout`.
pub open spec fn layout_channels(layout: PixelLayout) -> u8 {
    match layout {
        PixelLayout::Grey => 1,
        PixelLayout::GreyAlpha => 2,
        PixelLayout::Rgb => 3,
        PixelLayout::Rgba => 4,
    }
}

impl PixelLayout {
    /// The number of bytes of one pixel.
    pub fn channels(self) -> (n: u8)
        ensures
            n == layout_channels(self),
    {
        match self {
            PixelLayout::Grey => 1,
            PixelLayout::GreyAlpha => 2,
            PixelLayout::Rgb => 3,
            PixelLayout::Rgba => 4,
        }
    }
}

/// What a picture is: its size, its layout and its bytes, row by row.
pub struct PictureView {
    pub width: u32,
    pub height: u32,
    pub layout: PixelLayout,
    pub pixels: Seq<u8>,
}

/// A `width` by `height` picture whose pixels, row by row, each take as many bytes as
/// `layout` says.
pub struct Picture {
    width: u32,
    height: u32,
    layout: PixelLayout,
    pixels: Vec<u8>,
}

impl View for Picture {
    type V = PictureView;

    closed spec fn view(&self) -> PictureView {
        PictureView {
            width: self.width,
            height: self.height,
            layout: self.layout,
            pixels: self.pixels@,
        }
    }
}

/// `pixels` are exactly the bytes of a `width` by `height` picture in `layout`.
pub open spec fn sized(width: u32, height: u32, layout: PixelLayout, pixels: Seq<u8>) -> bool {
    pixels.len() == width * height * layout_channels(layout)
}

impl Picture {
    #[verifier::type_invariant]
    spec fn well_formed(self) -> bool {
        sized(self.width, self.height, self.layout, self.pixels@)
    }

    /// The picture of `width` by `height` pixels in `layout` that `pixels` hold, or
    /// `None` when their number of bytes is not that of such a picture.
    pub fn new(width: u32, height: u32, layout: PixelLayout, pixels: Vec<u8>) -> (r: Option<
        Picture,
    >)
        ensures
            r is Some <==> sized(width, height, layout, pixels@),
            r matches Some(p) ==> (p@ == PictureView {
                width,
                height,
                layout,
                pixels: pixels@,
            }),
    {
        let plen = pixels.len();
        let needed = (width as usize).checked_mul(height as usize);
        let n = match needed {
            Some(n) => n,
            None => {
                assert(width * height * layout_channels(layout) > usize::MAX) by (nonlinear_arith)
                    requires
                        width * height > usize::MAX,
                        layout_channels(layout) >= 1,
                ;
                return None;
            },
        };
        let total = n.checked_mul(layout.channels() as usize);
        match total {
            Some(t) => {
                assert(t == width * height * layout_channels(layout));
                if t == plen {
                    Some(Picture { width, height, layout, pixels })
                } else {
                    None
                }
            },
            None => {
                assert(width * height * layout_channels(layout) > usize::MAX) by (nonlinear_arith)
                    requires
                        n == width * height,
                        n * layout_channels(layout) > usize::MAX,
                ;
                None
            },
        }
    }

    /// The picture's width in pixels.
    pub fn width(&self) -> (w: u32)
        ensures
            w == self@.width,
    {
        self.width
    }

    /// The picture's height in pixels.
    pub fn height(&self) -> (h: u32)
        ensures
            h == self@.height,
    {
        self.height
    }

    /// How the bytes of one pixel are laid out.
    pub fn layout(&self) -> (l: PixelLayout)
        ensures
            l == self@.layout,
    {
        self.layout
    }

    /// The picture's bytes, row by row.
    pub fn pixels(&self) -> (p: &[u8])
        ensures
            p@ == self@.pixels,
    {
        self.pixels.as_slice()
    }
}

/// `image::DynamicImage::resize_to_fill` with `FilterType::Lanczos3`, then `to_luma8`,
/// on the picture `p`: its grey bytes, row by row. The crate is not asked for an empty
/// picture, on which its resizing does not promise to return. Its crop keeps within the
/// `w` by `h` it is asked for, so at most that many bytes come out. Which bytes is left
/// unsaid: the filter's weights are computed with `f32::sin`, whose precision std leaves
/// open, so the same picture need not give the same bytes everywhere.
#[verifier::external_body]
fn resize_to_fill_grey(p: &Picture, w: u32, h: u32) -> (g: Vec<u8>)
    requires
        p@.width > 0,
        p@.height > 0,
        sized(p@.width, p@.height, p@.layout, p@.pixels),
    ensures
        g@.len() <= w * h,
{
    let (pw, ph, px) = (p.width, p.height, p.pixels.clone());
    let img = match p.layout {
        PixelLayout::Grey => DynamicImage::ImageLuma8(ImageBuffer::from_raw(pw, ph, px).unwrap()),
        PixelLayout::GreyAlpha => DynamicImage::ImageLumaA8(ImageBuffer::from_raw(pw, ph, px).unwrap()),
        PixelLayout::Rgb => DynamicImage::ImageRgb8(ImageBuffer::from_raw(pw, ph, px).unwrap()),
        PixelLayout::Rgba => DynamicImage::ImageRgba8(ImageBuffer::from_raw(pw, ph, px).unwrap()),
    };
    img.resize_to_fill(w, h, FilterType::Lanczos3).to_luma8().into_raw()
}

/// The picture in 8-bit grey, resized to cover `w` by `h` pixels and cropped to them;
/// never more than `w` times `h` bytes.
pub fn fill_to_grey(p: &Picture, w: u32, h: u32) -> (g: Vec<u8>)
    requires
        p@.width > 0,
        p@.height > 0,
    ensures
        g@.len() <= w * h,
{
    proof {
        use_type_invariant(p);
    }
    resize_to_fill_grey(p, w, h)
}

} // verus!
