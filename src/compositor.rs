use vstd::prelude::*;

use vstd::arithmetic::div_mod::lemma_fundamental_div_mod;

verus! {

/// Errors of the `image` crate, carried through decoding without being read.
#[verifier::external_type_specification]
#[verifier::external_body]
pub struct ExImageError(image::ImageError);

/// An RGBA image held by the `image` crate. `image::ImageBuffer` is bounded
/// by the crate's `Pixel` trait, so the buffer is kept behind this struct and
/// described by `rgba_width`, `rgba_height` and `rgba_pixels`.
#[verifier::external_body]
pub struct Canvas {
    img: image::RgbaImage,
}

/// An RGBA pixel as (red, green, blue, alpha).
pub type Px = (u8, u8, u8, u8);

/// The mathematical content of an image: its dimensions and its pixels, row by row.
pub struct Raster {
    pub width: nat,
    pub height: nat,
    pub pixels: Seq<Px>,
}

/// Width of a canvas.
pub uninterp spec fn rgba_width(img: Canvas) -> nat;

/// Height of a canvas.
pub uninterp spec fn rgba_height(img: Canvas) -> nat;

/// The `width * height` pixels of a canvas, row by row.
pub uninterp spec fn rgba_pixels(img: Canvas) -> Seq<Px>;

/// What `image::Rgba::blend` makes of a partly transparent `top` over `bottom`.
pub uninterp spec fn blend_of(bottom: Px, top: Px) -> Px;

/// The RGBA image that `image::load_from_memory` decodes from `bytes`, if any.
pub uninterp spec fn decoded_rgba(bytes: Seq<u8>) -> Option<Raster>;

/// The pixels that a Gaussian resampling of a `width` x `height` image to
/// `size` x `size` produces.
pub uninterp spec fn gaussian_resized(pixels: Seq<Px>, width: nat, height: nat, size: nat) -> Seq<Px>;

pub open spec fn raster_of(img: Canvas) -> Raster {
    Raster { width: rgba_width(img), height: rgba_height(img), pixels: rgba_pixels(img) }
}

/// The fully transparent white pixel the canvas starts from.
pub open spec fn background() -> Px {
    (255u8, 255u8, 255u8, 0u8)
}

/// Whether pixel `i` of `bottom` lies under `top` when both origins are at (0, 0).
pub open spec fn in_region(bottom: Raster, top: Raster, i: int) -> bool {
    i % (bottom.width as int) < top.width && i / (bottom.width as int) < top.height
}

/// The pixel of `top` that lies over pixel `i` of `bottom`.
pub open spec fn top_px_at(bottom: Raster, top: Raster, i: int) -> Px {
    top.pixels[(i / (bottom.width as int)) * top.width + i % (bottom.width as int)]
}

/// Source-over result at pixel `i`: outside `top` the bottom stays; a
/// transparent top pixel leaves the bottom, an opaque one replaces it, and
/// any other is `blended`.
pub open spec fn overlay_px(bottom: Raster, top: Raster, i: int, blended: Px) -> Px {
    if in_region(bottom, top, i) {
        let t = top_px_at(bottom, top, i);
        if t.3 == 0 {
            bottom.pixels[i]
        } else if t.3 == 255 {
            t
        } else {
            blended
        }
    } else {
        bottom.pixels[i]
    }
}

/// `top` blended onto `bottom` with both origins at (0, 0); pixels of `top`
/// outside `bottom` are dropped.
pub open spec fn overlay_spec(bottom: Raster, top: Raster) -> Raster {
    Raster {
        width: bottom.width,
        height: bottom.height,
        pixels: Seq::new(
            bottom.pixels.len(),
            |i: int| overlay_px(bottom, top, i, blend_of(bottom.pixels[i], top_px_at(bottom, top, i))),
        ),
    }
}

pub open spec fn blank_spec(size: nat) -> Raster {
    Raster { width: size, height: size, pixels: Seq::new(size * size, |i: int| background()) }
}

/// A layer is resampled when resizing is on and its width differs from the
/// canvas; an empty layer has nothing to resample.
pub open spec fn needs_resize(resize: bool, layer: Raster, size: nat) -> bool {
    resize && layer.width != size && layer.width > 0 && layer.height > 0
}

pub open spec fn prepared(layer: Raster, size: nat, resize: bool) -> Raster {
    if needs_resize(resize, layer, size) {
        Raster {
            width: size,
            height: size,
            pixels: gaussian_resized(layer.pixels, layer.width, layer.height, size),
        }
    } else {
        layer
    }
}

/// The canvas after the layers, in order, have been drawn onto a blank one.
pub open spec fn composite_spec(size: nat, resize: bool, layers: Seq<Raster>) -> Raster
    decreases layers.len(),
{
    if layers.len() == 0 {
        blank_spec(size)
    } else {
        overlay_spec(
            composite_spec(size, resize, layers.drop_last()),
            prepared(layers.last(), size, resize),
        )
    }
}

pub open spec fn canvas_fits(size: u32) -> bool {
    (size as int) * (size as int) * 4 <= usize::MAX
}

/// The channels of `pixels`, four bytes per pixel in RGBA order.
pub open spec fn rgba_bytes(pixels: Seq<Px>) -> Seq<u8> {
    Seq::new(
        pixels.len() * 4,
        |k: int|
            {
                let p = pixels[k / 4];
                if k % 4 == 0 {
                    p.0
                } else if k % 4 == 1 {
                    p.1
                } else if k % 4 == 2 {
                    p.2
                } else {
                    p.3
                }
            },
    )
}

/// The first `n` pixels held by `bytes`, four bytes per pixel in RGBA order.
pub open spec fn pixels_of_bytes(bytes: Seq<u8>, n: nat) -> Seq<Px> {
    Seq::new(n, |i: int| (bytes[4 * i], bytes[4 * i + 1], bytes[4 * i + 2], bytes[4 * i + 3]))
}

/// Relies on `image::ImageBuffer::width`.
#[verifier::external_body]
fn image_width(img: &Canvas) -> (r: u32)
    ensures
        r == rgba_width(*img),
{
    img.img.width()
}

/// Relies on `image::ImageBuffer::height`.
#[verifier::external_body]
fn image_height(img: &Canvas) -> (r: u32)
    ensures
        r == rgba_height(*img),
{
    img.img.height()
}

/// Relies on `image::ImageBuffer::from_pixel`: every pixel is the given one.
/// It panics when the buffer length overflows `usize`.
#[verifier::external_body]
fn blank_canvas(size: u32) -> (r: Canvas)
    requires
        canvas_fits(size),
    ensures
        raster_of(r) == blank_spec(size as nat),
{
    Canvas { img: image::ImageBuffer::from_pixel(size, size, image::Rgba([255u8, 255u8, 255u8, 0u8])) }
}

/// Relies on `image::imageops::overlay` at (0, 0): each pixel of the
/// overlapping region is blended with `image::Rgba::blend`, which returns
/// early for a fully transparent or a fully opaque top pixel.
#[verifier::external_body]
fn overlay_at_origin(bottom: &mut Canvas, top: &Canvas)
    ensures
        rgba_width(*final(bottom)) == rgba_width(*old(bottom)),
        rgba_height(*final(bottom)) == rgba_height(*old(bottom)),
        rgba_pixels(*final(bottom)).len() == rgba_pixels(*old(bottom)).len(),
        forall|i: int|
            0 <= i < rgba_pixels(*old(bottom)).len() ==> #[trigger] rgba_pixels(*final(bottom))[i]
                == overlay_px(
                raster_of(*old(bottom)),
                raster_of(*top),
                i,
                blend_of(
                    rgba_pixels(*old(bottom))[i],
                    top_px_at(raster_of(*old(bottom)), raster_of(*top), i),
                ),
            ),
{
    image::imageops::overlay(&mut bottom.img, &top.img, 0, 0)
}

/// Relies on `image::imageops::resize` with `FilterType::Gaussian`, which
/// returns a `size` x `size` buffer.
#[verifier::external_body]
fn resize_gaussian(img: &Canvas, size: u32) -> (r: Canvas)
    requires
        rgba_width(*img) > 0,
        rgba_height(*img) > 0,
        canvas_fits(size),
    ensures
        raster_of(r) == (Raster {
            width: size as nat,
            height: size as nat,
            pixels: gaussian_resized(
                rgba_pixels(*img),
                rgba_width(*img),
                rgba_height(*img),
                size as nat,
            ),
        }),
{
    Canvas { img: image::imageops::resize(&img.img, size, size, image::imageops::FilterType::Gaussian) }
}

/// Relies on `image::load_from_memory` followed by
/// `image::DynamicImage::into_rgba8`.
#[verifier::external_body]
fn decode_rgba(bytes: &[u8]) -> (r: Result<Canvas, image::ImageError>)
    ensures
        match r {
            Ok(img) => decoded_rgba(bytes@) == Some(raster_of(img)),
            Err(_) => decoded_rgba(bytes@) is None,
        },
{
    image::load_from_memory(bytes).map(|d| Canvas { img: d.into_rgba8() })
}

/// Relies on `image::ImageBuffer::into_raw` of a copy: the channels of all
/// pixels, row by row, in RGBA order.
#[verifier::external_body]
fn raw_bytes(img: &Canvas) -> (r: Vec<u8>)
    ensures
        r@ == rgba_bytes(rgba_pixels(*img)),
{
    img.img.clone().into_raw()
}

/// Relies on `image::ImageBuffer::from_raw`, which accepts a buffer that holds
/// `width * height` pixels and reads them row by row.
#[verifier::external_body]
fn canvas_from_raw(width: u32, height: u32, bytes: Vec<u8>) -> (r: Option<Canvas>)
    requires
        (width as int) * (height as int) * 4 == bytes@.len(),
    ensures
        r is Some,
        r matches Some(c) ==> raster_of(c) == (Raster {
            width: width as nat,
            height: height as nat,
            pixels: pixels_of_bytes(bytes@, (width as nat) * (height as nat)),
        }),
{
    image::ImageBuffer::from_raw(width, height, bytes).map(|img| Canvas { img })
}

impl Canvas {
    /// A canvas of `width` x `height` pixels read row by row from `bytes`,
    /// four RGBA bytes each; `None` unless `bytes` holds exactly that many.
    pub fn from_rgba(width: u32, height: u32, bytes: Vec<u8>) -> (r: Option<Canvas>)
        ensures
            r is Some <==> (width as int) * (height as int) * 4 == bytes@.len(),
            r matches Some(c) ==> raster_of(c) == (Raster {
                width: width as nat,
                height: height as nat,
                pixels: pixels_of_bytes(bytes@, (width as nat) * (height as nat)),
            }),
    {
        let w: u128 = width as u128;
        let h: u128 = height as u128;
        assert(w * h <= 0xffff_ffff_ffff_ffff_ffff_ffff) by (nonlinear_arith)
            requires
                w <= 0xffff_ffff,
                h <= 0xffff_ffff,
        ;
        let expected: u128 = w * h * 4;
        if expected != bytes.len() as u128 {
            return None;
        }
        canvas_from_raw(width, height, bytes)
    }

    /// Width and height in pixels.
    pub fn dimensions(&self) -> (r: (u32, u32))
        ensures
            r.0 == rgba_width(*self),
            r.1 == rgba_height(*self),
    {
        (image_width(self), image_height(self))
    }

    /// The channels of all pixels, row by row, four RGBA bytes each.
    pub fn to_rgba_bytes(&self) -> (r: Vec<u8>)
        ensures
            r@ == rgba_bytes(rgba_pixels(*self)),
    {
        raw_bytes(self)
    }
}

/// Why compositing failed.
#[derive(Debug, Clone, Copy, PartialEq, Eq, Structural)]
pub enum CompositeError {
    /// The source at this position is not a decodable image.
    Decode(usize),
}

/// Draws `layer` onto `canvas`, resampling it first when `resize` is on and
/// its width differs from `size`.
pub fn draw_layer(canvas: &mut Canvas, layer: &Canvas, size: u32, resize: bool)
    requires
        canvas_fits(size),
    ensures
        raster_of(*final(canvas)) == overlay_spec(
            raster_of(*old(canvas)),
            prepared(raster_of(*layer), size as nat, resize),
        ),
{
    let w = image_width(layer);
    let h = image_height(layer);
    if resize && w != size && w > 0 && h > 0 {
        let resized = resize_gaussian(layer, size);
        overlay_at_origin(canvas, &resized);
    } else {
        overlay_at_origin(canvas, layer);
    }
    assert(raster_of(*canvas).pixels =~= overlay_spec(
        raster_of(*old(canvas)),
        prepared(raster_of(*layer), size as nat, resize),
    ).pixels);
}

/// Composites decoded layers, in order, onto a transparent `size` x `size`
/// canvas: later layers draw over earlier ones.
pub fn overlay_layers(size: u32, resize: bool, layers: &Vec<Canvas>) -> (r: Canvas)
    requires
        canvas_fits(size),
    ensures
        raster_of(r) == composite_spec(size as nat, resize, layers@.map_values(|l| raster_of(l))),
{
    let ghost rasters = layers@.map_values(|l: Canvas| raster_of(l));
    let mut canvas = blank_canvas(size);
    let mut i: usize = 0;
    while i < layers.len()
        invariant
            i <= layers.len(),
            canvas_fits(size),
            rasters == layers@.map_values(|l: Canvas| raster_of(l)),
            raster_of(canvas) == composite_spec(size as nat, resize, rasters.take(i as int)),
        decreases layers.len() - i,
    {
        draw_layer(&mut canvas, &layers[i], size, resize);
        assert(rasters.take(i + 1).drop_last() == rasters.take(i as int));
        i = i + 1;
    }
    assert(rasters.take(layers.len() as int) == rasters);
    canvas
}

/// The decoded images of `sources`, as long as every one decodes.
pub open spec fn all_decoded(sources: Seq<Seq<u8>>) -> Seq<Raster> {
    sources.map_values(|s: Seq<u8>| decoded_rgba(s).unwrap())
}

/// Decodes each source image and composites them in order onto a
/// transparent `size` x `size` canvas. The first source that does not decode
/// fails the whole composite.
pub fn overlay_images(size: u32, resize: bool, sources: &Vec<Vec<u8>>) -> (r: Result<Canvas, CompositeError>)
    requires
        canvas_fits(size),
    ensures
        match r {
            Ok(img) => {
                &&& forall|i: int| 0 <= i < sources@.len() ==> (#[trigger] decoded_rgba(sources@[i]@)) is Some
                &&& raster_of(img) == composite_spec(
                    size as nat,
                    resize,
                    all_decoded(sources@.map_values(|s: Vec<u8>| s@)),
                )
            },
            Err(CompositeError::Decode(k)) => {
                &&& k < sources@.len()
                &&& decoded_rgba(sources@[k as int]@) is None
                &&& forall|i: int| 0 <= i < k ==> (#[trigger] decoded_rgba(sources@[i]@)) is Some
            },
        },
{
    let ghost bytes = sources@.map_values(|s: Vec<u8>| s@);
    let mut layers: Vec<Canvas> = Vec::new();
    let mut i: usize = 0;
    while i < sources.len()
        invariant
            i <= sources.len(),
            layers.len() == i,
            bytes == sources@.map_values(|s: Vec<u8>| s@),
            forall|j: int| 0 <= j < i ==> (#[trigger] decoded_rgba(sources@[j]@)) is Some,
            forall|j: int| 0 <= j < i ==> raster_of(#[trigger] layers@[j]) == decoded_rgba(sources@[j]@).unwrap(),
        decreases sources.len() - i,
    {
        match decode_rgba(sources[i].as_slice()) {
            Ok(img) => {
                layers.push(img);
            },
            Err(_) => {
                return Err(CompositeError::Decode(i));
            },
        }
        i = i + 1;
    }
    let img = overlay_layers(size, resize, &layers);
    assert(layers@.map_values(|l: Canvas| raster_of(l)) == all_decoded(bytes));
    Ok(img)
}

/// The canvas keeps its size through every layer.
pub proof fn lemma_composite_dims(size: nat, resize: bool, layers: Seq<Raster>)
    ensures
        composite_spec(size, resize, layers).width == size,
        composite_spec(size, resize, layers).height == size,
        composite_spec(size, resize, layers).pixels.len() == size * size,
    decreases layers.len(),
{
    if layers.len() > 0 {
        lemma_composite_dims(size, resize, layers.drop_last());
    }
}

/// Later layers win: when the last layer is opaque everywhere and covers the
/// whole canvas, the composite shows exactly that layer, whatever lies below.
pub proof fn lemma_opaque_last_layer_wins(size: nat, resize: bool, layers: Seq<Raster>)
    requires
        layers.len() > 0,
        layers.last().width == size,
        layers.last().height == size,
        layers.last().pixels.len() == size * size,
        forall|i: int| 0 <= i < size * size ==> (#[trigger] layers.last().pixels[i]).3 == 255,
    ensures
        composite_spec(size, resize, layers).pixels == layers.last().pixels,
{
    let below = composite_spec(size, resize, layers.drop_last());
    let top = layers.last();
    lemma_composite_dims(size, resize, layers.drop_last());
    assert(prepared(top, size, resize) == top);
    let r = composite_spec(size, resize, layers);
    assert forall|i: int| 0 <= i < size * size implies r.pixels[i] == top.pixels[i] by {
        let s = size as int;
        assert(s > 0) by (nonlinear_arith)
            requires
                0 <= i < s * s,
                s >= 0,
        ;
        lemma_fundamental_div_mod(i, s);
        let y = i / s;
        let x = i % s;
        assert(0 <= x < s);
        assert(0 <= y < s) by (nonlinear_arith)
            requires
                i == s * y + x,
                0 <= x < s,
                0 <= i < s * s,
        ;
        assert(y * s + x == i) by (nonlinear_arith)
            requires
                i == s * y + x,
        ;
        assert(in_region(below, top, i));
        assert(top_px_at(below, top, i) == top.pixels[i]);
    }
    assert(r.pixels =~= top.pixels);
}

} // verus!
