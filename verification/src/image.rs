//! Images that the host hands to the renderer.
//!
//! The GPU texture of the host is not exposed. Only decoded RGBA8 bytes cross
//! the boundary, where the renderer places them in its atlas.

use vstd::arithmetic::div_mod::{
    lemma_div_by_multiple, lemma_div_pos_is_pos, lemma_fundamental_div_mod,
    lemma_fundamental_div_mod_converse, lemma_mod_bound, lemma_multiply_divide_lt,
};
use vstd::prelude::*;
use vstd::string::*;

verus! {

broadcast use vstd::string::group_string_axioms;

/// The longest edge of an image that is handed over at its own resolution. It
/// is the width of the renderer's atlas less the padding.
pub const EXTERNAL_UI_IMAGE_MAX_EDGE: u32 = 2046;

/// The texel formats that matter here.
#[derive(Clone, Copy, Debug, PartialEq, Eq, Structural)]
pub enum ImageFormat {
    Rgba8Unorm,
    Rgba8UnormSrgb,
    /// Any other format.
    Other,
}

/// How many dimensions the texels of an image have.
#[derive(Clone, Copy, Debug, PartialEq, Eq, Structural)]
pub enum ImageDimension {
    D1,
    D2,
    D3,
}

/// An image of the host.
#[derive(Clone, Copy, Debug)]
pub struct SourceImage<'a> {
    pub dimension: ImageDimension,
    pub width: u32,
    pub height: u32,
    pub depth_or_array_layers: u32,
    pub mip_level_count: u32,
    pub format: ImageFormat,
    /// The texels, where they are in main memory.
    pub data: Option<&'a [u8]>,
}

/// An image as the protocol carries it.
#[derive(Clone, Debug, PartialEq, Eq)]
pub struct UiImageSource {
    pub image_id: String,
    pub media_type: String,
    pub width: u32,
    pub height: u32,
    pub bytes: Vec<u8>,
}

/// What an image of the protocol holds.
pub struct ImageSourceView {
    pub image_id: Seq<char>,
    pub media_type: Seq<char>,
    pub width: u32,
    pub height: u32,
    pub bytes: Seq<u8>,
}

impl View for UiImageSource {
    type V = ImageSourceView;

    open spec fn view(&self) -> ImageSourceView {
        ImageSourceView {
            image_id: self.image_id@,
            media_type: self.media_type@,
            width: self.width,
            height: self.height,
            bytes: self.bytes@,
        }
    }
}

/// A rectangle of texels.
pub struct Region {
    pub x: int,
    pub y: int,
    pub width: int,
    pub height: int,
}

/// Whether an image is a single level of two-dimensional RGBA8 texels that are
/// all in main memory.
pub open spec fn is_readable(image: SourceImage) -> bool {
    &&& image.dimension == ImageDimension::D2
    &&& image.depth_or_array_layers == 1
    &&& image.mip_level_count == 1
    &&& image.format == ImageFormat::Rgba8Unorm || image.format == ImageFormat::Rgba8UnormSrgb
    &&& image.data is Some
    &&& image.data->0@.len() == image.width * image.height * 4
    &&& image.width > 0
    &&& image.height > 0
}

/// The part of the image that is asked for: x, y, width and height, or all of it.
pub open spec fn region_of(image: SourceImage, source_region: Option<[u32; 4]>) -> Region {
    match source_region {
        Some(r) => Region {
            x: r[0] as int,
            y: r[1] as int,
            width: r[2] as int,
            height: r[3] as int,
        },
        None => Region { x: 0, y: 0, width: image.width as int, height: image.height as int },
    }
}

/// Whether a part is not empty and lies within the image.
pub open spec fn lies_within(image: SourceImage, r: Region) -> bool {
    &&& r.width > 0
    &&& r.height > 0
    &&& 0 <= r.x && r.x + r.width <= image.width
    &&& 0 <= r.y && r.y + r.height <= image.height
}

/// An edge of the output: that of the part, or, where the longer one is beyond
/// the limit, scaled down in proportion and at least one texel.
pub open spec fn fitted_edge(edge: int, longest: int) -> int {
    if longest > EXTERNAL_UI_IMAGE_MAX_EDGE {
        let scaled = edge * EXTERNAL_UI_IMAGE_MAX_EDGE / longest;
        if scaled < 1 {
            1
        } else {
            scaled
        }
    } else {
        edge
    }
}

/// The longer edge of a part.
pub open spec fn longest_edge(r: Region) -> int {
    if r.width > r.height {
        r.width
    } else {
        r.height
    }
}

/// Where in the image the byte `k` of the output comes from: the output texel
/// maps to the texel at the same proportion of the part.
pub open spec fn source_index(row: int, r: Region, width: int, height: int, k: int) -> int {
    let texel = k / 4;
    let x = r.x + texel % width * r.width / width;
    let y = r.y + texel / width * r.height / height;
    (y * row + x) * 4 + k % 4
}

/// The bytes of the output.
pub open spec fn scaled_bytes(image: SourceImage, r: Region, width: int, height: int) -> Seq<u8> {
    Seq::new(
        (width * height * 4) as nat,
        |k: int| image.data->0@[source_index(image.width as int, r, width, height, k)],
    )
}

/// The image that is handed over.
pub open spec fn image_source(
    image_id: Seq<char>,
    image: SourceImage,
    source_region: Option<[u32; 4]>,
) -> Option<ImageSourceView> {
    let r = region_of(image, source_region);
    if is_readable(image) && lies_within(image, r) {
        let width = fitted_edge(r.width, longest_edge(r));
        let height = fitted_edge(r.height, longest_edge(r));
        Some(
            ImageSourceView {
                image_id,
                media_type: "application/x-neon-rgba8"@,
                width: width as u32,
                height: height as u32,
                bytes: scaled_bytes(image, r, width, height),
            },
        )
    } else {
        None
    }
}

/// Scaling an edge leaves at least one texel and never makes it longer.
proof fn lemma_fitted_edge(edge: int, longest: int)
    requires
        0 < edge <= longest,
    ensures
        1 <= fitted_edge(edge, longest) <= edge,
        fitted_edge(edge, longest) <= EXTERNAL_UI_IMAGE_MAX_EDGE,
{
    if longest > EXTERNAL_UI_IMAGE_MAX_EDGE {
        assert(edge * 2046 / longest <= edge) by (nonlinear_arith)
            requires
                0 < edge,
                longest > 2046,
        ;
        assert(edge * 2046 / longest <= 2046) by (nonlinear_arith)
            requires
                0 < edge <= longest,
                longest > 2046,
        ;
        assert(0 <= edge * 2046 / longest) by (nonlinear_arith)
            requires
                0 < edge,
                longest > 2046,
        ;
    }
}

fn fit_edge(edge: u32, longest: u32) -> (r: u32)
    requires
        0 < edge <= longest,
    ensures
        r == fitted_edge(edge as int, longest as int),
        1 <= r <= edge,
        r <= EXTERNAL_UI_IMAGE_MAX_EDGE,
{
    proof {
        lemma_fitted_edge(edge as int, longest as int);
    }
    if longest > EXTERNAL_UI_IMAGE_MAX_EDGE {
        let scaled: u64 = edge as u64 * EXTERNAL_UI_IMAGE_MAX_EDGE as u64 / longest as u64;
        if scaled < 1 {
            1
        } else {
            scaled as u32
        }
    } else {
        edge
    }
}

/// A proportional position lies within the part.
proof fn lemma_proportion(at: int, part: int, whole: int)
    requires
        0 <= at < whole,
        0 < part,
    ensures
        0 <= at * part / whole < part,
{
    assert(0 <= at * part < whole * part) by (nonlinear_arith)
        requires
            0 <= at < whole,
            0 < part,
    ;
    lemma_div_pos_is_pos(at * part, whole);
    lemma_multiply_divide_lt(at * part, whole, part);
}

/// Where the byte `c` of the output texel in column `x` of row `y` comes from.
proof fn lemma_source_index(row: int, r: Region, width: int, height: int, x: int, y: int, c: int)
    requires
        0 <= x < width,
        0 <= y < height,
        0 <= c < 4,
    ensures
        source_index(row, r, width, height, (y * width + x) * 4 + c) == ((r.y + y * r.height
            / height) * row + (r.x + x * r.width / width)) * 4 + c,
{
    let texel = y * width + x;
    lemma_fundamental_div_mod_converse(texel * 4 + c, 4, texel, c);
    lemma_fundamental_div_mod_converse(texel, width, y, x);
}

/// A texel of the image starts within its bytes.
proof fn lemma_texel_in_image(row: int, rows: int, x: int, y: int)
    requires
        0 <= x < row,
        0 <= y < rows,
    ensures
        0 <= y * row + x,
        y * row + x < row * rows,
        (y * row + x) * 4 + 4 <= row * rows * 4,
        y * row <= row * rows,
{
    assert(0 <= y * row && y * row + row <= row * rows) by (nonlinear_arith)
        requires
            0 <= x < row,
            0 <= y < rows,
    ;
}

/// The output of the whole image at its own size is the image.
proof fn lemma_whole_image(image: SourceImage)
    requires
        is_readable(image),
    ensures
        scaled_bytes(
            image,
            region_of(image, None),
            image.width as int,
            image.height as int,
        ) == image.data->0@,
{
    let (w, h) = (image.width as int, image.height as int);
    let r = region_of(image, None);
    let out = scaled_bytes(image, r, w, h);
    assert(w * h * 4 >= 0) by (nonlinear_arith)
        requires
            w > 0,
            h > 0,
    ;
    assert forall|k: int| 0 <= k < out.len() implies out[k] == image.data->0@[k] by {
        let texel = k / 4;
        let (x, y) = (texel % w, texel / w);
        assert(0 <= texel < w * h) by (nonlinear_arith)
            requires
                0 <= k < w * h * 4,
                texel == k / 4,
        ;
        lemma_fundamental_div_mod(texel, w);
        lemma_mod_bound(texel, w);
        lemma_div_pos_is_pos(texel, w);
        assert(w * y == y * w) by (nonlinear_arith);
        assert(y < h) by (nonlinear_arith)
            requires
                texel == y * w + x,
                texel < w * h,
                0 <= x,
                w > 0,
        ;
        lemma_div_by_multiple(x, w);
        lemma_div_by_multiple(y, h);
    }
    assert(out =~= image.data->0@);
}

fn take_texel(data: &[u8], at: usize, output: &mut Vec<u8>)
    requires
        at + 4 <= data@.len(),
    ensures
        final(output)@ == old(output)@ + seq![
            data@[at as int],
            data@[at + 1],
            data@[at + 2],
            data@[at + 3],
        ],
{
    output.push(data[at]);
    output.push(data[at + 1]);
    output.push(data[at + 2]);
    output.push(data[at + 3]);
    assert(output@ =~= old(output)@ + seq![
        data@[at as int],
        data@[at + 1],
        data@[at + 2],
        data@[at + 3],
    ]);
}

fn proportion(at: u32, part: u32, whole: u32) -> (r: u32)
    requires
        at < whole,
        0 < part,
    ensures
        r == at * part / whole as int,
        r < part,
{
    proof {
        lemma_proportion(at as int, part as int, whole as int);
        assert(at * part <= u32::MAX * u32::MAX) by (nonlinear_arith)
            requires
                0 <= at <= u32::MAX,
                0 <= part <= u32::MAX,
        ;
    }
    (at as u64 * part as u64 / whole as u64) as u32
}

/// Samples a part of a readable image.
fn scale_part(image: &SourceImage, data: &[u8], part: [u32; 4], width: u32, height: u32) -> (output:
    Vec<u8>)
    requires
        is_readable(*image),
        image.data == Some(data),
        lies_within(*image, region_of(*image, Some(part))),
        0 < width <= part[2],
        0 < height <= part[3],
    ensures
        output@ == scaled_bytes(
            *image,
            region_of(*image, Some(part)),
            width as int,
            height as int,
        ),
{
    let ghost (w, h, row) = (width as int, height as int, image.width as int);
    let ghost r = region_of(*image, Some(part));
    let ghost expected = scaled_bytes(*image, r, w, h);
    proof {
        assert(0 <= w * h * 4) by (nonlinear_arith)
            requires
                0 < w,
                0 < h,
        ;
    }
    let total: usize = data.len();
    let mut output: Vec<u8> = Vec::new();
    let mut y: u32 = 0;
    assert(expected.take(0) =~= output@);
    while y < height
        invariant
            is_readable(*image),
            image.data == Some(data),
            total == data@.len(),
            r == region_of(*image, Some(part)),
            lies_within(*image, r),
            0 < width <= part[2],
            0 < height <= part[3],
            y <= height,
            w == width,
            h == height,
            row == image.width,
            expected == scaled_bytes(*image, r, w, h),
            expected.len() == w * h * 4,
            output@ == expected.take(y * w * 4),
        decreases height - y,
    {
        let source_y: u32 = part[1] + proportion(y, part[3], height);
        let mut x: u32 = 0;
        assert(y * w * 4 == (y * w + 0) * 4);
        while x < width
            invariant
                is_readable(*image),
                image.data == Some(data),
                total == data@.len(),
                r == region_of(*image, Some(part)),
                lies_within(*image, r),
                0 < width <= part[2],
                x <= width,
                y < height,
                w == width,
                h == height,
                row == image.width,
                source_y == r.y + y * r.height / h,
                source_y < image.height,
                expected == scaled_bytes(*image, r, w, h),
                expected.len() == w * h * 4,
                output@ == expected.take((y * w + x) * 4),
            decreases width - x,
        {
            let source_x: u32 = part[0] + proportion(x, part[2], width);
            proof {
                lemma_texel_in_image(row, image.height as int, source_x as int, source_y as int);
                lemma_texel_in_image(w, h, x as int, y as int);
                lemma_source_index(row, r, w, h, x as int, y as int, 0);
                lemma_source_index(row, r, w, h, x as int, y as int, 1);
                lemma_source_index(row, r, w, h, x as int, y as int, 2);
                lemma_source_index(row, r, w, h, x as int, y as int, 3);
            }
            let offset: usize = (source_y as usize * image.width as usize + source_x as usize) * 4;
            let ghost k = (y * w + x) * 4;
            let ghost before = output@;
            take_texel(data, offset, &mut output);
            proof {
                assert(expected[k] == data@[offset as int]);
                assert(expected[k + 1] == data@[offset + 1]);
                assert(expected[k + 2] == data@[offset + 2]);
                assert(expected[k + 3] == data@[offset + 3]);
                assert((y * w + (x + 1)) * 4 == k + 4);
                assert(output@ =~= expected.take(k + 4));
            }
            x += 1;
        }
        y += 1;
        assert((y - 1) * w + w == y * w) by (nonlinear_arith);
    }
    assert(expected.take(h * w * 4) =~= expected) by {
        assert(h * w == w * h) by (nonlinear_arith);
    }
    output
}

/// An optional image of the protocol by what it holds.
pub open spec fn image_source_view(source: Option<UiImageSource>) -> Option<ImageSourceView> {
    match source {
        Some(s) => Some(s@),
        None => None,
    }
}

/// Whether all texels of an image are there to be read.
fn check_readable(image: &SourceImage) -> (r: bool)
    ensures
        r == is_readable(*image),
{
    if image.dimension != ImageDimension::D2 || image.depth_or_array_layers != 1
        || image.mip_level_count != 1 {
        return false;
    }
    if image.format != ImageFormat::Rgba8Unorm && image.format != ImageFormat::Rgba8UnormSrgb {
        return false;
    }
    let data = match image.data {
        Some(data) => data,
        None => {
            return false;
        },
    };
    let total: usize = data.len();
    proof {
        assert(image.width * image.height * 4 >= image.width * image.height) by (nonlinear_arith)
            requires
                image.width >= 0,
                image.height >= 0,
        ;
    }
    let texels: usize = match (image.width as usize).checked_mul(image.height as usize) {
        Some(texels) => texels,
        None => {
            return false;
        },
    };
    let expected: usize = match texels.checked_mul(4) {
        Some(expected) => expected,
        None => {
            return false;
        },
    };
    total == expected && image.width > 0 && image.height > 0
}

/// Converts a part of an image in main memory into the protocol's form.
pub fn neon3_image_source_with_region(
    image_id: String,
    image: &SourceImage,
    source_region: Option<[u32; 4]>,
) -> (r: Option<UiImageSource>)
    ensures
        image_source_view(r) == image_source(image_id@, *image, source_region),
{
    if !check_readable(image) {
        return None;
    }
    let data = match image.data {
        Some(data) => data,
        None => {
            return None;
        },
    };
    let part: [u32; 4] = match source_region {
        Some(part) => {
            if part[2] == 0 || part[3] == 0 || part[2] > image.width || part[0] > image.width
                - part[2] || part[3] > image.height || part[1] > image.height - part[3] {
                return None;
            }
            part
        },
        None => [0, 0, image.width, image.height],
    };
    let longest: u32 = if part[2] > part[3] {
        part[2]
    } else {
        part[3]
    };
    let width: u32 = fit_edge(part[2], longest);
    let height: u32 = fit_edge(part[3], longest);
    let bytes = if source_region.is_none() && width == image.width && height == image.height {
        proof {
            lemma_whole_image(*image);
        }
        let mut copy: Vec<u8> = Vec::new();
        copy.extend_from_slice(data);
        assert(copy@ =~= data@);
        copy
    } else {
        scale_part(image, data, part, width, height)
    };
    Some(
        UiImageSource {
            image_id,
            media_type: "application/x-neon-rgba8".to_owned(),
            width,
            height,
            bytes,
        },
    )
}

/// Converts an image in main memory into the protocol's form.
pub fn neon3_image_source(image_id: String, image: &SourceImage) -> (r: Option<UiImageSource>)
    ensures
        image_source_view(r) == image_source(image_id@, *image, None),
{
    neon3_image_source_with_region(image_id, image, None)
}

/// An image whose edges are within the limit is handed over texel by texel.
pub proof fn law_small_image_is_unscaled(image_id: Seq<char>, image: SourceImage)
    requires
        is_readable(image),
        image.width <= EXTERNAL_UI_IMAGE_MAX_EDGE,
        image.height <= EXTERNAL_UI_IMAGE_MAX_EDGE,
    ensures
        image_source(image_id, image, None) == Some(
            ImageSourceView {
                image_id,
                media_type: "application/x-neon-rgba8"@,
                width: image.width,
                height: image.height,
                bytes: image.data->0@,
            },
        ),
{
    lemma_whole_image(image);
}

/// Only two-dimensional images of one level are handed over.
pub proof fn law_only_flat_images_are_handed_over(
    image_id: Seq<char>,
    image: SourceImage,
    source_region: Option<[u32; 4]>,
)
    requires
        image.dimension != ImageDimension::D2 || image.depth_or_array_layers != 1
            || image.mip_level_count != 1,
    ensures
        image_source(image_id, image, source_region) is None,
{
}

/// Whatever is handed over fits the limit and holds four bytes for each texel.
pub proof fn law_image_source_fits(
    image_id: Seq<char>,
    image: SourceImage,
    source_region: Option<[u32; 4]>,
)
    ensures
        image_source(image_id, image, source_region) matches Some(s) ==> {
            &&& 1 <= s.width <= EXTERNAL_UI_IMAGE_MAX_EDGE
            &&& 1 <= s.height <= EXTERNAL_UI_IMAGE_MAX_EDGE
            &&& s.bytes.len() == s.width * s.height * 4
        },
{
    let r = region_of(image, source_region);
    if is_readable(image) && lies_within(image, r) {
        lemma_fitted_edge(r.width, longest_edge(r));
        lemma_fitted_edge(r.height, longest_edge(r));
        let width = fitted_edge(r.width, longest_edge(r));
        let height = fitted_edge(r.height, longest_edge(r));
        assert(width * height * 4 >= 0) by (nonlinear_arith)
            requires
                width >= 1,
                height >= 1,
        ;
    }
}

/// The alpha values of RGBA8 texels.
pub open spec fn alphas(bytes: Seq<u8>) -> Seq<u8> {
    Seq::new((bytes.len() / 4) as nat, |i: int| bytes[4 * i + 3])
}

/// How many of the values are not zero.
pub open spec fn count_nonzero(values: Seq<u8>) -> nat
    decreases values.len(),
{
    if values.len() == 0 {
        0
    } else {
        count_nonzero(values.drop_last()) + if values.last() > 0 {
            1nat
        } else {
            0nat
        }
    }
}

/// The greatest of the values, or zero.
pub open spec fn greatest(values: Seq<u8>) -> u8
    decreases values.len(),
{
    if values.len() == 0 {
        0
    } else if values.last() > greatest(values.drop_last()) {
        values.last()
    } else {
        greatest(values.drop_last())
    }
}

/// How visible an image is: the number of texels that are not fully
/// transparent, and the greatest alpha value.
pub fn alpha_summary(bytes: &[u8]) -> (r: (usize, u8))
    ensures
        r.0 == count_nonzero(alphas(bytes@)),
        r.1 == greatest(alphas(bytes@)),
{
    let ghost all = alphas(bytes@);
    let texels: usize = bytes.len() / 4;
    let mut nonzero: usize = 0;
    let mut max: u8 = 0;
    let mut i: usize = 0;
    assert(all.take(0) =~= Seq::<u8>::empty());
    while i < texels
        invariant
            i <= texels,
            texels == bytes@.len() / 4,
            bytes@.len() <= usize::MAX,
            all == alphas(bytes@),
            nonzero == count_nonzero(all.take(i as int)),
            nonzero <= i,
            max == greatest(all.take(i as int)),
        decreases texels - i,
    {
        let alpha: u8 = bytes[4 * i + 3];
        assert(all.take(i + 1).drop_last() =~= all.take(i as int));
        assert(all.take(i + 1).last() == alpha);
        if alpha > 0 {
            nonzero += 1;
        }
        if alpha > max {
            max = alpha;
        }
        i += 1;
    }
    assert(all.take(i as int) =~= all);
    (nonzero, max)
}

/// An image is handed over exactly where it is one flat level of RGBA8 texels, all
/// of them in main memory, and the region asked for is not empty and lies within
/// it.
pub proof fn law_readable_region_is_handed_over(
    image_id: Seq<char>,
    image: SourceImage,
    x: u32,
    y: u32,
    w: u32,
    h: u32,
)
    ensures
        ({
            let readable = {
                &&& image.dimension == ImageDimension::D2
                &&& image.depth_or_array_layers == 1
                &&& image.mip_level_count == 1
                &&& image.format != ImageFormat::Other
                &&& image.data is Some
                &&& image.data->0@.len() == image.width * image.height * 4
                &&& image.width > 0 && image.height > 0
            };
            let source = image_source(image_id, image, Some([x, y, w, h]));
            let whole = image_source(image_id, image, None);
            &&& source is Some <==> readable && 0 < w && 0 < h && x + w <= image.width && y + h
                <= image.height
            &&& whole is Some <==> readable
            &&& source is Some ==> source->0.image_id == image_id
            &&& whole is Some ==> whole->0.image_id == image_id
        }),
{
}

/// A region within the size limit keeps its size. Of a greater one the longest
/// edge becomes the limit, and the other is shortened in proportion, rounded down,
/// to one texel at least.
pub proof fn law_region_is_fitted_in_proportion(
    image_id: Seq<char>,
    image: SourceImage,
    x: u32,
    y: u32,
    w: u32,
    h: u32,
)
    requires
        image_source(image_id, image, Some([x, y, w, h])) is Some,
    ensures
        ({
            let s = image_source(image_id, image, Some([x, y, w, h]))->0;
            &&& w <= 2046 && h <= 2046 ==> s.width == w && s.height == h
            &&& w > 2046 && w >= h ==> {
                &&& s.width == 2046
                &&& s.height >= 1
                &&& h * 2046 < (s.height + 1) * w
                &&& s.height * w <= h * 2046 || s.height == 1
            }
            &&& h > 2046 && h >= w ==> {
                &&& s.height == 2046
                &&& s.width >= 1
                &&& w * 2046 < (s.width + 1) * h
                &&& s.width * h <= w * 2046 || s.width == 1
            }
        }),
{
    let r = Region { x: x as int, y: y as int, width: w as int, height: h as int };
    assert(region_of(image, Some([x, y, w, h])) == r);
    let longest = longest_edge(r);
    lemma_fitted_edge(r.width, longest);
    lemma_fitted_edge(r.height, longest);
    if longest > 2046 {
        lemma_fitted_proportion(r.width, longest);
        lemma_fitted_proportion(r.height, longest);
        assert(longest * 2046 / longest == 2046) by (nonlinear_arith)
            requires
                longest > 2046,
        ;
    }
}

proof fn lemma_fitted_proportion(edge: int, longest: int)
    requires
        0 < edge <= longest,
        longest > EXTERNAL_UI_IMAGE_MAX_EDGE,
    ensures
        edge * 2046 < (fitted_edge(edge, longest) + 1) * longest,
        fitted_edge(edge, longest) * longest <= edge * 2046 || fitted_edge(edge, longest) == 1,
{
    let q = edge * 2046 / longest;
    assert(q * longest <= edge * 2046 < (q + 1) * longest) by (nonlinear_arith)
        requires
            longest > 0,
            q == edge * 2046 / longest,
    ;
    if q < 1 {
        assert((q + 1) * longest <= 2 * longest) by (nonlinear_arith)
            requires
                longest > 0,
                q < 1,
        ;
    }
}

/// Each output texel is the image texel at the same proportion of the region: the
/// output texel in column `i` of row `j` is the one that stands `u` columns and `v`
/// rows into the region, where `u` over the width of the region is the greatest
/// such proportion not above `i` over the width of the output, and `v` likewise.
/// All four bytes are taken over in their order.
pub proof fn law_texel_comes_from_its_proportion(
    image_id: Seq<char>,
    image: SourceImage,
    x: u32,
    y: u32,
    w: u32,
    h: u32,
    i: int,
    j: int,
    u: int,
    v: int,
    c: int,
)
    requires
        image_source(image_id, image, Some([x, y, w, h])) is Some,
        0 <= i < image_source(image_id, image, Some([x, y, w, h]))->0.width,
        0 <= j < image_source(image_id, image, Some([x, y, w, h]))->0.height,
        0 <= c < 4,
        u * image_source(image_id, image, Some([x, y, w, h]))->0.width <= i * w < (u + 1)
            * image_source(image_id, image, Some([x, y, w, h]))->0.width,
        v * image_source(image_id, image, Some([x, y, w, h]))->0.height <= j * h < (v + 1)
            * image_source(image_id, image, Some([x, y, w, h]))->0.height,
    ensures
        ({
            let s = image_source(image_id, image, Some([x, y, w, h]))->0;
            s.bytes[(j * s.width + i) * 4 + c] == image.data->0@[((y + v) * image.width + (x + u))
                * 4 + c]
        }),
{
    let s = image_source(image_id, image, Some([x, y, w, h]))->0;
    let r = Region { x: x as int, y: y as int, width: w as int, height: h as int };
    assert(region_of(image, Some([x, y, w, h])) == r);
    let (width, height) = (s.width as int, s.height as int);
    lemma_fitted_edge(r.width, longest_edge(r));
    lemma_fitted_edge(r.height, longest_edge(r));
    assert((u + 1) * width == u * width + width) by (nonlinear_arith);
    assert((v + 1) * height == v * height + height) by (nonlinear_arith);
    lemma_fundamental_div_mod_converse(i * w, width, u, i * w - u * width);
    lemma_fundamental_div_mod_converse(j * h, height, v, j * h - v * height);
    lemma_source_index(image.width as int, r, width, height, i, j, c);
    lemma_texel_in_image(width, height, i, j);
    assert(0 <= (j * width + i) * 4 + c < width * height * 4);
}

/// A region within the size limit is copied texel by texel: byte `c` of the output
/// texel in column `i` of row `j` is byte `c` of the image texel in column `x + i`
/// of row `y + j`.
pub proof fn law_region_is_copied(
    image_id: Seq<char>,
    image: SourceImage,
    x: u32,
    y: u32,
    w: u32,
    h: u32,
    i: int,
    j: int,
    c: int,
)
    requires
        is_readable(image),
        0 < w <= 2046,
        0 < h <= 2046,
        x + w <= image.width,
        y + h <= image.height,
        0 <= i < w,
        0 <= j < h,
        0 <= c < 4,
    ensures
        ({
            let source = image_source(image_id, image, Some([x, y, w, h]));
            &&& source is Some
            &&& source->0.width == w
            &&& source->0.height == h
            &&& source->0.bytes.len() == w * h * 4
            &&& source->0.bytes[(j * w + i) * 4 + c] == image.data->0@[((y + j) * image.width + (x
                + i)) * 4 + c]
        }),
{
    law_readable_region_is_handed_over(image_id, image, x, y, w, h);
    law_region_is_fitted_in_proportion(image_id, image, x, y, w, h);
    law_image_source_fits(image_id, image, Some([x, y, w, h]));
    assert(i * w < (i + 1) * w) by (nonlinear_arith)
        requires
            0 < w,
    ;
    assert(j * h < (j + 1) * h) by (nonlinear_arith)
        requires
            0 < h,
    ;
    law_texel_comes_from_its_proportion(image_id, image, x, y, w, h, i, j, i, j, c);
}

/// Without a region the whole image is handed over.
pub proof fn law_whole_image_is_its_own_region(image_id: Seq<char>, image: SourceImage)
    ensures
        image_source(image_id, image, None) == image_source(
            image_id,
            image,
            Some([0u32, 0u32, image.width, image.height]),
        ),
{
    let r = [0u32, 0u32, image.width, image.height];
    assert(region_of(image, Some(r)) == region_of(image, None));
}

/// The alpha values are the last bytes of the texels. As many of them count as
/// are not zero, and the greatest is one of them, above which there is none (zero
/// where there are no texels).
pub proof fn law_alpha_summary_is_over_all_texels(
    bytes: Seq<u8>,
    values: Seq<u8>,
    keep: spec_fn(u8) -> bool,
)
    requires
        forall|v: u8| #[trigger] keep(v) <==> v != 0,
    ensures
        alphas(bytes).len() == bytes.len() / 4,
        forall|i: int| 0 <= i < bytes.len() / 4 ==> #[trigger] alphas(bytes)[i] == bytes[4 * i + 3],
        count_nonzero(values) == values.filter(keep).len(),
        forall|i: int| 0 <= i < values.len() ==> #[trigger] values[i] <= greatest(values),
        values.len() > 0 ==> values.contains(greatest(values)),
        values.len() == 0 ==> greatest(values) == 0,
    decreases values.len(),
{
    reveal(Seq::filter);
    if values.len() > 0 {
        let rest = values.drop_last();
        law_alpha_summary_is_over_all_texels(bytes, rest, keep);
        assert forall|i: int| 0 <= i < values.len() implies #[trigger] values[i] <= greatest(
            values,
        ) by {
            if i < rest.len() {
                assert(rest[i] == values[i]);
            }
        }
        if values.last() > greatest(rest) {
            assert(values[values.len() - 1] == greatest(values));
        } else if rest.len() > 0 {
            let i = choose|i: int| 0 <= i < rest.len() && rest[i] == greatest(rest);
            assert(values[i] == greatest(values));
        } else {
            assert(values[values.len() - 1] == greatest(values));
        }
    }
}

} // verus!
