use vstd::prelude::*;

verus! {

/// Height, in pixels, of the recognizer's input; taller crops are scaled
/// down to it.
pub const REC_INPUT_HEIGHT: u32 = 48;

/// An 8-bit RGBA image, rows top to bottom, four bytes per pixel.
pub struct RgbaPixels {
    pub width: u32,
    pub height: u32,
    pub data: Vec<u8>,
}

impl RgbaPixels {
    /// The buffer holds exactly one RGBA quadruple per pixel.
    pub open spec fn wf(&self) -> bool {
        self.data@.len() == 4 * (self.width as int) * (self.height as int)
    }
}

/// The recognizer's input: three planes (red, green, blue) of
/// `width * height` bytes each, every plane in row-major order.
pub struct RecInput {
    pub width: u32,
    pub height: u32,
    pub planes: Vec<u8>,
}

/// Size of the recognizer's input for a crop of `w` by `h` pixels: crops up to
/// the input height are kept as they are; taller ones are scaled to that
/// height and their width scaled by the same factor, rounded down.
pub open spec fn input_size_for(w: u32, h: u32) -> (u32, u32) {
    if h <= REC_INPUT_HEIGHT {
        (w, h)
    } else {
        (((w as int) * (REC_INPUT_HEIGHT as int) / (h as int)) as u32, REC_INPUT_HEIGHT)
    }
}

/// Computes `input_size_for`.
pub fn rec_input_size(w: u32, h: u32) -> (r: (u32, u32))
    requires
        h <= REC_INPUT_HEIGHT || w * REC_INPUT_HEIGHT <= u32::MAX,
    ensures
        r == input_size_for(w, h),
{
    if h <= REC_INPUT_HEIGHT {
        (w, h)
    } else {
        (w * REC_INPUT_HEIGHT / h, REC_INPUT_HEIGHT)
    }
}

/// Channel `c` of the first `n` pixels of an RGBA buffer.
pub open spec fn channel(data: Seq<u8>, n: int, c: int) -> Seq<u8> {
    Seq::new(n as nat, |p: int| data[4 * p + c])
}

/// The red, green and blue planes of the first `n` pixels, one after another.
pub open spec fn rgb_planes(data: Seq<u8>, n: int) -> Seq<u8> {
    channel(data, n, 0) + channel(data, n, 1) + channel(data, n, 2)
}

fn push_channel(data: &Vec<u8>, n: usize, c: usize, planes: &mut Vec<u8>)
    requires
        data@.len() == 4 * n,
        c < 3,
    ensures
        final(planes)@ == old(planes)@ + channel(data@, n as int, c as int),
{
    let ghost start = planes@;
    let mut p: usize = 0;
    while p < n
        invariant
            p <= n,
            c < 3,
            data.len() == 4 * n,
            planes@ == start + channel(data@, n as int, c as int).take(p as int),
        decreases n - p,
    {
        proof {
            assert(channel(data@, n as int, c as int).take(p + 1) =~= channel(
                data@,
                n as int,
                c as int,
            ).take(p as int).push(data@[4 * p + c]));
        }
        planes.push(data[4 * p + c]);
        p += 1;
    }
    proof {
        assert(channel(data@, n as int, c as int).take(n as int) =~= channel(
            data@,
            n as int,
            c as int,
        ));
    }
}

/// Splits a `width` by `height` RGBA buffer into the recognizer's planar
/// input, dropping alpha.
pub fn planar_rgb(width: u32, height: u32, data: &Vec<u8>) -> (r: RecInput)
    requires
        data@.len() == 4 * (width as int) * (height as int),
    ensures
        r.width == width,
        r.height == height,
        r.planes@ == rgb_planes(data@, width as int * height as int),
        r.planes@.len() == 3 * (width as int * height as int),
{
    assert(4 * (width as int) * (height as int) == 4 * ((width as int) * (height as int)))
        by (nonlinear_arith);
    assert(data@.len() == data.len());
    let n: usize = width as usize * height as usize;
    let mut planes: Vec<u8> = Vec::new();
    push_channel(data, n, 0, &mut planes);
    push_channel(data, n, 1, &mut planes);
    push_channel(data, n, 2, &mut planes);
    assert(planes@ =~= rgb_planes(data@, width as int * height as int));
    RecInput { width, height, planes }
}

/// The RGBA buffer that `image::imageops::resize` with the Catmull-Rom filter
/// makes of a `width` by `height` RGBA buffer when asked for
/// `new_width` by `new_height` pixels.
pub uninterp spec fn catmull_rom_resize(
    width: u32,
    height: u32,
    data: Seq<u8>,
    new_width: u32,
    new_height: u32,
) -> Seq<u8>;

/// `image::imageops::resize(.., FilterType::CatmullRom)` on an RGBA8 image:
/// the result is the named resampling of the arguments and holds one RGBA
/// quadruple per pixel of the requested size.
#[verifier::external_body]
fn resize_catmull_rom(img: &RgbaPixels, new_width: u32, new_height: u32) -> (r: Vec<u8>)
    requires
        img.wf(),
        4 * (img.width as int) * (new_height as int) <= usize::MAX,
        4 * (new_width as int) * (new_height as int) <= usize::MAX,
    ensures
        r@ == catmull_rom_resize(img.width, img.height, img.data@, new_width, new_height),
        r@.len() == 4 * (new_width as int) * (new_height as int),
{
    let buffer = image::RgbaImage::from_raw(img.width, img.height, img.data.clone()).unwrap();
    image::imageops::resize(&buffer, new_width, new_height, image::imageops::FilterType::CatmullRom)
        .into_raw()
}

/// The pixels that the recognizer reads for an image: the image itself when it
/// is no taller than the input height, else its Catmull-Rom resampling to
/// `input_size_for`.
pub open spec fn scaled_pixels(img: RgbaPixels) -> Seq<u8> {
    let (w, h) = input_size_for(img.width, img.height);
    if img.height <= REC_INPUT_HEIGHT {
        img.data@
    } else {
        catmull_rom_resize(img.width, img.height, img.data@, w, h)
    }
}

/// Prepares a text crop for the recognizer: scales it to the input height when
/// it is taller, then lays out its red, green and blue planes.
pub fn prepare_rec_input(img: &RgbaPixels) -> (r: RecInput)
    requires
        img.wf(),
        img.height <= REC_INPUT_HEIGHT || img.width * REC_INPUT_HEIGHT <= u32::MAX,
    ensures
        (r.width, r.height) == input_size_for(img.width, img.height),
        r.planes@ == rgb_planes(scaled_pixels(*img), r.width as int * r.height as int),
{
    let (w, h) = rec_input_size(img.width, img.height);
    assert(img.data@.len() == img.data.len());
    if img.height <= REC_INPUT_HEIGHT {
        planar_rgb(w, h, &img.data)
    } else {
        assert(w as int <= img.width as int) by (nonlinear_arith)
            requires
                w as int == (img.width as int) * (REC_INPUT_HEIGHT as int) / (img.height as int),
                img.height > REC_INPUT_HEIGHT,
        ;
        assert(4 * (img.width as int) * (REC_INPUT_HEIGHT as int) <= 4 * (img.width as int) * (
        img.height as int)) by (nonlinear_arith)
            requires
                img.height > REC_INPUT_HEIGHT,
        ;
        assert(4 * (w as int) * (REC_INPUT_HEIGHT as int) <= 4 * (img.width as int) * (
        REC_INPUT_HEIGHT as int)) by (nonlinear_arith)
            requires
                w as int <= img.width as int,
        ;
        let data = resize_catmull_rom(img, w, h);
        planar_rgb(w, h, &data)
    }
}

/// The recognizer's input is never taller than the input height nor wider
/// than the crop, and a crop that already fits keeps its size.
pub proof fn lemma_input_size_bounds(w: u32, h: u32)
    ensures
        input_size_for(w, h).1 <= REC_INPUT_HEIGHT,
        input_size_for(w, h).0 <= w,
        h <= REC_INPUT_HEIGHT ==> input_size_for(w, h) == (w, h),
{
    if h > REC_INPUT_HEIGHT {
        assert((w as int) * (REC_INPUT_HEIGHT as int) / (h as int) <= w as int) by (nonlinear_arith)
            requires
                h > REC_INPUT_HEIGHT,
        ;
    }
}

} // verus!
