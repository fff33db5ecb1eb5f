//! Requests to the Gemini image model and the reading of its answers:
//! prompts, generation settings, inline image parts, the API URLs, and the
//! extraction of the generated image.

use vstd::prelude::*;

use base64::Engine as _;

use crate::config::{views, Config};
use crate::error::Error;
use crate::models::{
    display_name_of, GeminiCandidate, GeminiContent, GeminiGenerateRequest,
    GeminiGenerationConfig, GeminiInlineData, GeminiPart, GeminiResponse, ItemCategory,
};
use crate::text::{is_prefix, join2, join3, owned};
use crate::validation::{jpeg_magic, png_magic, riff_magic, webp_marker};

verus! {

broadcast use vstd::string::group_string_axioms;

// ---------------------------------------------------------------------------
// MIME type detection
// ---------------------------------------------------------------------------

/// The JPEG start-of-image marker followed by the start of a segment marker.
pub open spec fn jpeg_signature() -> Seq<u8> {
    seq![0xFFu8, 0xD8u8, 0xFFu8]
}

/// The MIME type that the leading bytes of an image show, for images of at
/// least 12 bytes: JPEG, PNG or WebP.
pub open spec fn detected_mime(data: Seq<u8>) -> Option<Seq<char>> {
    if data.len() < 12 {
        None
    } else if is_prefix(jpeg_signature(), data) {
        Some("image/jpeg"@)
    } else if is_prefix(png_magic(), data) {
        Some("image/png"@)
    } else if is_prefix(riff_magic(), data) && data.subrange(8, 12) == webp_marker() {
        Some("image/webp"@)
    } else {
        None
    }
}

/// The MIME type of image data, from its leading bytes.
pub fn detect_image_mime_type(data: &[u8]) -> (r: Option<String>)
    ensures
        match r {
            Some(m) => detected_mime(data@) == Some(m@),
            None => detected_mime(data@) is None,
        },
{
    if data.len() < 12 {
        return None;
    }
    proof {
        assert(data@.subrange(0, 3)[0] == data@[0]);
        assert(data@.subrange(0, 3)[1] == data@[1]);
        assert(data@.subrange(0, 3)[2] == data@[2]);
        assert(data@.subrange(0, 4)[0] == data@[0]);
        assert(data@.subrange(0, 4)[1] == data@[1]);
        assert(data@.subrange(0, 4)[2] == data@[2]);
        assert(data@.subrange(0, 4)[3] == data@[3]);
        assert(data@.subrange(8, 12)[0] == data@[8]);
        assert(data@.subrange(8, 12)[1] == data@[9]);
        assert(data@.subrange(8, 12)[2] == data@[10]);
        assert(data@.subrange(8, 12)[3] == data@[11]);
        let p = data@.subrange(0, 8);
        assert(p[0] == data@[0] && p[1] == data@[1] && p[2] == data@[2] && p[3] == data@[3]);
        assert(p[4] == data@[4] && p[5] == data@[5] && p[6] == data@[6] && p[7] == data@[7]);
    }
    if data[0] == 0xFF && data[1] == 0xD8 && data[2] == 0xFF {
        assert(data@.subrange(0, 3) =~= jpeg_signature());
        return Some(owned("image/jpeg"));
    }
    if data[0] == 0x89 && data[1] == 0x50 && data[2] == 0x4E && data[3] == 0x47 && data[4] == 0x0D
        && data[5] == 0x0A && data[6] == 0x1A && data[7] == 0x0A {
        assert(data@.subrange(0, 8) =~= png_magic());
        return Some(owned("image/png"));
    }
    if data[0] == 0x52 && data[1] == 0x49 && data[2] == 0x46 && data[3] == 0x46 && data[8] == 0x57
        && data[9] == 0x45 && data[10] == 0x42 && data[11] == 0x50 {
        assert(data@.subrange(0, 4) =~= riff_magic());
        assert(data@.subrange(8, 12) =~= webp_marker());
        return Some(owned("image/webp"));
    }
    None
}

// ---------------------------------------------------------------------------
// Base64
// ---------------------------------------------------------------------------

/// The character of the standard Base64 alphabet (RFC 4648) for the 6-bit
/// value `v`: `A`-`Z`, `a`-`z`, `0`-`9`, `+`, `/`.
pub open spec fn base64_char(v: int) -> char {
    if v < 26 {
        (65 + v) as char
    } else if v < 52 {
        (97 + v - 26) as char
    } else if v < 62 {
        (48 + v - 52) as char
    } else if v == 62 {
        '+'
    } else {
        '/'
    }
}

/// Standard Base64 (RFC 4648 alphabet, with padding) of `data`: each group
/// of three bytes as four characters of six bits each, and a last group of
/// one or two bytes padded with `=` to four characters.
pub open spec fn base64_encoding(data: Seq<u8>) -> Seq<char>
    decreases data.len(),
{
    if data.len() == 0 {
        Seq::empty()
    } else if data.len() == 1 {
        seq![base64_char((data[0] as int) / 4), base64_char(((data[0] as int) % 4) * 16), '=', '=']
    } else if data.len() == 2 {
        seq![
            base64_char((data[0] as int) / 4),
            base64_char(((data[0] as int) % 4) * 16 + (data[1] as int) / 16),
            base64_char(((data[1] as int) % 16) * 4),
            '=',
        ]
    } else {
        seq![
            base64_char((data[0] as int) / 4),
            base64_char(((data[0] as int) % 4) * 16 + (data[1] as int) / 16),
            base64_char(((data[1] as int) % 16) * 4 + (data[2] as int) / 64),
            base64_char((data[2] as int) % 64),
        ] + base64_encoding(data.subrange(3, data.len() as int))
    }
}

/// What `base64`'s standard engine decodes the UTF-8 bytes of `text` to, or
/// `None` when they are not valid padded Base64.
pub uninterp spec fn base64_decoding(text: Seq<char>) -> Option<Seq<u8>>;

/// The encoded length of `n` bytes fits in memory, which
/// `base64::Engine::encode` checks before it allocates.
pub open spec fn base64_length_fits(n: nat) -> bool {
    (n / 3) * 4 + 4 <= usize::MAX
}

/// Whether `n` bytes can be Base64-encoded: whether their encoded length
/// fits in memory (see `base64_length_fits`).
pub fn encoded_length_fits(n: usize) -> (b: bool)
    ensures
        b == base64_length_fits(n as nat),
{
    let groups = n / 3;
    groups <= (usize::MAX - 4) / 4
}

/// `base64::engine::general_purpose::STANDARD.encode`: standard Base64 with
/// padding, as `base64_encoding` states it. The call panics when the encoded
/// length overflows `usize`, which `requires` rules out.
#[verifier::external_body]
fn base64_encode(data: &[u8]) -> (s: String)
    requires
        base64_length_fits(data@.len()),
    ensures
        s@ == base64_encoding(data@),
{
    base64::engine::general_purpose::STANDARD.encode(data)
}

/// `base64::engine::general_purpose::STANDARD.decode` of the bytes of
/// `text`: the result is named `base64_decoding` of the input, with the
/// decode error dropped. Standard Base64 of some bytes decodes to those
/// bytes; what else it accepts or refuses (it requires canonical padding
/// and zero trailing bits) is not stated.
#[verifier::external_body]
fn base64_decode(text: &str) -> (r: Option<Vec<u8>>)
    ensures
        match r {
            Some(v) => base64_decoding(text@) == Some(v@) && forall|d: Seq<u8>|
                #[trigger] base64_encoding(d) == text@ ==> v@ == d,
            None => base64_decoding(text@) is None && forall|d: Seq<u8>|
                #[trigger] base64_encoding(d) != text@,
        },
{
    base64::engine::general_purpose::STANDARD.decode(text).ok()
}

// ---------------------------------------------------------------------------
// The fallback image
// ---------------------------------------------------------------------------

/// The JPEG file that `image` writes for a `width` x `height` image of a
/// single RGB colour (an `ImageBuffer::from_pixel` written with
/// `DynamicImage::write_to` in `ImageFormat::Jpeg`), or `None` when encoding
/// fails.
pub uninterp spec fn solid_rgb_jpeg(width: u32, height: u32, red: u8, green: u8, blue: u8) -> Option<
    Seq<u8>,
>;

/// Encode an image of one RGB colour as JPEG with the `image` crate. The
/// result is named `solid_rgb_jpeg` of the arguments (the encoder's error is
/// dropped); the JPEG encoder writes the start-of-image marker FF D8 first,
/// into the empty buffer. `ImageBuffer::from_pixel` panics when the pixel
/// buffer does not fit in a vector; `requires` keeps it small.
#[verifier::external_body]
fn encode_solid_rgb_jpeg(width: u32, height: u32, red: u8, green: u8, blue: u8) -> (r: Option<
    Vec<u8>,
>)
    requires
        width as int * height as int * 3 <= 0x7fff_ffff,
    ensures
        match r {
            Some(v) => solid_rgb_jpeg(width, height, red, green, blue) == Some(v@) && v@.len() >= 2
                && v@[0] == 0xFFu8 && v@[1] == 0xD8u8,
            None => solid_rgb_jpeg(width, height, red, green, blue) is None,
        },
{
    let img = image::ImageBuffer::from_pixel(width, height, image::Rgb([red, green, blue]));
    let dynamic_img = image::DynamicImage::ImageRgb8(img);
    let mut cursor = std::io::Cursor::new(Vec::new());
    match dynamic_img.write_to(&mut cursor, image::ImageFormat::Jpeg) {
        Ok(_) => Some(cursor.into_inner()),
        Err(_) => None,
    }
}

/// A complete 1x1 JPEG file, used when the encoder fails.
pub open spec fn fallback_jpeg() -> Seq<u8> {
    seq![
        0xFFu8, 0xD8, 0xFF, 0xE0, 0x00, 0x10, 0x4A, 0x46, 0x49, 0x46, 0x00, 0x01, 0x01,
        0x00, 0x00, 0x01, 0x00, 0x01, 0x00, 0x00, 0xFF, 0xDB, 0x00, 0x43, 0x00, 0x08,
        0x06, 0x06, 0x07, 0x06, 0x05, 0x08, 0x07, 0x07, 0x07, 0x09, 0x09, 0x08, 0x0A,
        0x0C, 0x14, 0x0D, 0x0C, 0x0B, 0x0B, 0x0C, 0x19, 0x12, 0x13, 0x0F, 0x14, 0x1D,
        0x1A, 0x1F, 0x1E, 0x1D, 0x1A, 0x1C, 0x1C, 0x20, 0x24, 0x2E, 0x27, 0x20, 0x22,
        0x2C, 0x23, 0x1C, 0x1C, 0x28, 0x37, 0x29, 0x2C, 0x30, 0x31, 0x34, 0x34, 0x34,
        0x1F, 0x27, 0x39, 0x3D, 0x38, 0x32, 0x3C, 0x2E, 0x33, 0x34, 0x32, 0xFF, 0xC0,
        0x00, 0x11, 0x08, 0x00, 0x01, 0x00, 0x01, 0x01, 0x01, 0x11, 0x00, 0x02, 0x11,
        0x01, 0x03, 0x11, 0x01, 0xFF, 0xC4, 0x00, 0x14, 0x00, 0x01, 0x00, 0x00, 0x00,
        0x00, 0x00, 0x00, 0x00, 0x00, 0x00, 0x00, 0x00, 0x00, 0x00, 0x00, 0x00, 0x08,
        0xFF, 0xC4, 0x00, 0x14, 0x10, 0x01, 0x00, 0x00, 0x00, 0x00, 0x00, 0x00, 0x00,
        0x00, 0x00, 0x00, 0x00, 0x00, 0x00, 0x00, 0x00, 0x00, 0xFF, 0xDA, 0x00, 0x0C,
        0x03, 0x01, 0x00, 0x02, 0x11, 0x03, 0x11, 0x00, 0x3F, 0x00, 0x9F, 0xFF, 0xD9,
    ]
}

/// The image returned when the model answered without an image: a white
/// 1x1 JPEG.
pub open spec fn placeholder_image() -> Seq<u8> {
    match solid_rgb_jpeg(1, 1, 255, 255, 255) {
        Some(v) => v,
        None => fallback_jpeg(),
    }
}

/// A white 1x1 JPEG image, encoded with `image`, or a fixed one when
/// encoding fails; either starts with the JPEG start-of-image marker.
pub fn create_placeholder_image() -> (v: Vec<u8>)
    ensures
        v@ == placeholder_image(),
        v@.len() >= 2 && v@[0] == 0xFFu8 && v@[1] == 0xD8u8,
{
    match encode_solid_rgb_jpeg(1, 1, 255, 255, 255) {
        Some(v) => v,
        None => {
            let v = vec![
                0xFFu8, 0xD8, 0xFF, 0xE0, 0x00, 0x10, 0x4A, 0x46, 0x49, 0x46, 0x00, 0x01, 0x01,
                0x00, 0x00, 0x01, 0x00, 0x01, 0x00, 0x00, 0xFF, 0xDB, 0x00, 0x43, 0x00, 0x08,
                0x06, 0x06, 0x07, 0x06, 0x05, 0x08, 0x07, 0x07, 0x07, 0x09, 0x09, 0x08, 0x0A,
                0x0C, 0x14, 0x0D, 0x0C, 0x0B, 0x0B, 0x0C, 0x19, 0x12, 0x13, 0x0F, 0x14, 0x1D,
                0x1A, 0x1F, 0x1E, 0x1D, 0x1A, 0x1C, 0x1C, 0x20, 0x24, 0x2E, 0x27, 0x20, 0x22,
                0x2C, 0x23, 0x1C, 0x1C, 0x28, 0x37, 0x29, 0x2C, 0x30, 0x31, 0x34, 0x34, 0x34,
                0x1F, 0x27, 0x39, 0x3D, 0x38, 0x32, 0x3C, 0x2E, 0x33, 0x34, 0x32, 0xFF, 0xC0,
                0x00, 0x11, 0x08, 0x00, 0x01, 0x00, 0x01, 0x01, 0x01, 0x11, 0x00, 0x02, 0x11,
                0x01, 0x03, 0x11, 0x01, 0xFF, 0xC4, 0x00, 0x14, 0x00, 0x01, 0x00, 0x00, 0x00,
                0x00, 0x00, 0x00, 0x00, 0x00, 0x00, 0x00, 0x00, 0x00, 0x00, 0x00, 0x00, 0x08,
                0xFF, 0xC4, 0x00, 0x14, 0x10, 0x01, 0x00, 0x00, 0x00, 0x00, 0x00, 0x00, 0x00,
                0x00, 0x00, 0x00, 0x00, 0x00, 0x00, 0x00, 0x00, 0x00, 0xFF, 0xDA, 0x00, 0x0C,
                0x03, 0x01, 0x00, 0x02, 0x11, 0x03, 0x11, 0x00, 0x3F, 0x00, 0x9F, 0xFF, 0xD9,
            ];
            assert(v@ =~= fallback_jpeg());
            v
        },
    }
}

// ---------------------------------------------------------------------------
// Prompts
// ---------------------------------------------------------------------------

/// The sentence that describes the expected look of an item of a category.
pub open spec fn category_guidance(c: ItemCategory) -> Seq<char> {
    match c {
        ItemCategory::Hat => "The hat should be stylish and modern, suitable for fashion photography."@,
        ItemCategory::Glasses => "The glasses should be trendy and well-designed, showing clear lenses."@,
        ItemCategory::Shoes => "The shoes should be clean and attractive, showing both style and craftsmanship."@,
        ItemCategory::Top => "The top should be well-fitted and stylish, suitable for fashion display."@,
        ItemCategory::BottomSkirt => "The bottom/skirt should be well-tailored and fashionable."@,
        ItemCategory::Socks => "The socks should be clean and attractive, showing texture and pattern if any."@,
        ItemCategory::Gloves => "The gloves should be well-formed and stylish."@,
        ItemCategory::Scarf => "The scarf should show texture and drape beautifully."@,
        ItemCategory::Bag => "The bag should be stylish and practical, showing good craftsmanship."@,
        ItemCategory::Accessory => "The accessory should be elegant and well-designed."@,
        ItemCategory::Other => "The item should be attractive and well-presented."@,
    }
}

/// Text added for an optional value: `before + value + after`, or nothing.
pub open spec fn optional_clause(
    value: Option<Seq<char>>,
    before: Seq<char>,
    after: Seq<char>,
) -> Seq<char> {
    match value {
        Some(v) => before + v + after,
        None => Seq::empty(),
    }
}

/// The view of an optional string.
pub open spec fn opt_view(s: Option<&str>) -> Option<Seq<char>> {
    match s {
        Some(v) => Some(v@),
        None => None,
    }
}

/// The prompt that asks for a product image of an item of a category, with
/// the optional style, colour and extra requirements.
pub open spec fn item_prompt(
    c: ItemCategory,
    custom: Option<Seq<char>>,
    style: Option<Seq<char>>,
    color: Option<Seq<char>>,
) -> Seq<char> {
    "Generate a high-quality, professional product image of a "@ + display_name_of(c) + " ("@
        + display_name_of(c) + ") on a clean white background. "@ + category_guidance(c)
        + optional_clause(style, " Style: "@, "."@) + optional_clause(
        color,
        " Preferred color: "@,
        "."@,
    ) + optional_clause(custom, " Additional requirements: "@, Seq::empty())
        + " The image should be photorealistic, well-lit, and suitable for e-commerce or fashion applications."@
}

fn category_guidance_text(c: &ItemCategory) -> (s: &'static str)
    ensures
        s@ == category_guidance(*c),
{
    match c {
        ItemCategory::Hat => "The hat should be stylish and modern, suitable for fashion photography.",
        ItemCategory::Glasses => "The glasses should be trendy and well-designed, showing clear lenses.",
        ItemCategory::Shoes => "The shoes should be clean and attractive, showing both style and craftsmanship.",
        ItemCategory::Top => "The top should be well-fitted and stylish, suitable for fashion display.",
        ItemCategory::BottomSkirt => "The bottom/skirt should be well-tailored and fashionable.",
        ItemCategory::Socks => "The socks should be clean and attractive, showing texture and pattern if any.",
        ItemCategory::Gloves => "The gloves should be well-formed and stylish.",
        ItemCategory::Scarf => "The scarf should show texture and drape beautifully.",
        ItemCategory::Bag => "The bag should be stylish and practical, showing good craftsmanship.",
        ItemCategory::Accessory => "The accessory should be elegant and well-designed.",
        ItemCategory::Other => "The item should be attractive and well-presented.",
    }
}

fn append_optional(prompt: &mut String, value: Option<&str>, before: &str, after: &str)
    ensures
        final(prompt)@ == old(prompt)@ + optional_clause(opt_view(value), before@, after@),
{
    match value {
        Some(v) => {
            prompt.append(before);
            prompt.append(v);
            prompt.append(after);
        },
        None => {},
    }
}

/// The prompt for generating an item of `category`.
pub fn build_item_prompt(
    category: &ItemCategory,
    custom_prompt: Option<&str>,
    style: Option<&str>,
    color: Option<&str>,
) -> (p: String)
    ensures
        p@ == item_prompt(*category, opt_view(custom_prompt), opt_view(style), opt_view(color)),
{
    let name = category.display_name();
    let mut prompt = join3(
        "Generate a high-quality, professional product image of a ",
        name,
        " (",
    );
    prompt.append(name);
    prompt.append(") on a clean white background. ");
    prompt.append(category_guidance_text(category));
    append_optional(&mut prompt, style, " Style: ", ".");
    append_optional(&mut prompt, color, " Preferred color: ", ".");
    append_optional(&mut prompt, custom_prompt, " Additional requirements: ", "");
    prompt.append(
        " The image should be photorealistic, well-lit, and suitable for e-commerce or fashion applications.",
    );
    proof {
        reveal_strlit("");
        assert(""@ =~= Seq::<char>::empty());
    }
    prompt
}

/// The display names of categories, separated by ", ".
pub open spec fn names_joined(cs: Seq<ItemCategory>) -> Seq<char>
    decreases cs.len(),
{
    if cs.len() == 0 {
        Seq::empty()
    } else if cs.len() == 1 {
        display_name_of(cs[0])
    } else {
        names_joined(cs.drop_last()) + ", "@ + display_name_of(cs.last())
    }
}

/// The sentence that asks for a quality level (8 when none is given).
pub open spec fn quality_guidance(quality: Option<u8>) -> Seq<char> {
    let q = match quality {
        Some(q) => q,
        None => 8u8,
    };
    if 1 <= q && q <= 3 {
        "Focus on speed over quality. "@
    } else if 4 <= q && q <= 6 {
        "Balance quality and processing time. "@
    } else if 7 <= q && q <= 10 {
        "Prioritize highest quality and realism. "@
    } else {
        "Use standard quality settings. "@
    }
}

/// The prompt that asks to dress the person of the first image in the
/// items of the given categories.
pub open spec fn remix_prompt(
    categories: Seq<ItemCategory>,
    style: Option<Seq<char>>,
    quality: Option<u8>,
) -> Seq<char> {
    "Create a photorealistic fashion remix image. Take the person from the first image and apply the following items to them: "@
        + names_joined(categories)
        + ". The result should look natural and realistic, as if the person is actually wearing these items. "@
        + "Maintain the original pose and background while seamlessly integrating the new items. "@
        + "The lighting and shadows should be consistent. "@ + optional_clause(
        style,
        "Style direction: "@,
        ". "@,
    ) + quality_guidance(quality)
        + "The final image should be high-resolution and suitable for fashion or e-commerce use."@
}

/// The categories of a list of item images.
pub open spec fn item_categories(items: Seq<(ItemCategory, Vec<u8>, String)>) -> Seq<ItemCategory> {
    items.map_values(|it: (ItemCategory, Vec<u8>, String)| it.0)
}

/// Append the display names of `categories`, separated by ", ".
pub fn append_names(prompt: &mut String, categories: &Vec<ItemCategory>)
    ensures
        final(prompt)@ == old(prompt)@ + names_joined(categories@),
{
    let mut i: usize = 0;
    while i < categories.len()
        invariant
            i <= categories@.len(),
            prompt@ == old(prompt)@ + names_joined(categories@.take(i as int)),
        decreases categories@.len() - i,
    {
        proof {
            let t = categories@.take(i + 1);
            assert(t.drop_last() =~= categories@.take(i as int));
            assert(t.last() == categories@[i as int]);
            if i == 0 {
                assert(categories@.take(0) =~= Seq::<ItemCategory>::empty());
            }
        }
        if i > 0 {
            prompt.append(", ");
        }
        prompt.append(categories[i].display_name());
        i = i + 1;
    }
    assert(categories@.take(i as int) =~= categories@);
}

fn quality_guidance_text(quality: Option<u8>) -> (s: &'static str)
    ensures
        s@ == quality_guidance(quality),
{
    let q = match quality {
        Some(q) => q,
        None => 8,
    };
    if 1 <= q && q <= 3 {
        "Focus on speed over quality. "
    } else if 4 <= q && q <= 6 {
        "Balance quality and processing time. "
    } else if 7 <= q && q <= 10 {
        "Prioritize highest quality and realism. "
    } else {
        "Use standard quality settings. "
    }
}

/// The prompt for remixing a photo with item images.
pub fn build_remix_prompt(
    item_images: &Vec<(ItemCategory, Vec<u8>, String)>,
    style_prompt: Option<&str>,
    quality: Option<u8>,
) -> (p: String)
    ensures
        p@ == remix_prompt(item_categories(item_images@), opt_view(style_prompt), quality),
{
    let mut categories: Vec<ItemCategory> = Vec::new();
    let mut i: usize = 0;
    while i < item_images.len()
        invariant
            i <= item_images@.len(),
            categories@ == item_categories(item_images@).take(i as int),
        decreases item_images@.len() - i,
    {
        categories.push(item_images[i].0);
        proof {
            assert(item_categories(item_images@).take(i + 1) =~= item_categories(
                item_images@,
            ).take(i as int).push(item_images@[i as int].0));
        }
        i = i + 1;
    }
    assert(item_categories(item_images@).take(i as int) =~= item_categories(item_images@));
    let mut prompt = owned(
        "Create a photorealistic fashion remix image. Take the person from the first image and apply the following items to them: ",
    );
    append_names(&mut prompt, &categories);
    prompt.append(
        ". The result should look natural and realistic, as if the person is actually wearing these items. ",
    );
    prompt.append(
        "Maintain the original pose and background while seamlessly integrating the new items. ",
    );
    prompt.append("The lighting and shadows should be consistent. ");
    append_optional(&mut prompt, style_prompt, "Style direction: ", ". ");
    prompt.append(quality_guidance_text(quality));
    prompt.append(
        "The final image should be high-resolution and suitable for fashion or e-commerce use.",
    );
    prompt
}

// ---------------------------------------------------------------------------
// Generation settings
// ---------------------------------------------------------------------------

/// `c` holds the given settings and asks for image output.
pub open spec fn is_generation_config(
    c: GeminiGenerationConfig,
    temperature_hundredths: u32,
    top_k: u32,
    max_output_tokens: u32,
) -> bool {
    &&& c.temperature_hundredths == temperature_hundredths
    &&& c.top_k == top_k
    &&& c.top_p_hundredths == 100
    &&& c.max_output_tokens == max_output_tokens
    &&& c.response_modalities is Some
    &&& views(c.response_modalities->0@) == seq!["IMAGE"@]
}

/// The temperature (in hundredths) and `top_k` for a remix quality (8 when
/// none is given): lower quality samples more freely.
pub open spec fn remix_sampling(quality: Option<u8>) -> (u32, u32) {
    let q = match quality {
        Some(q) => q,
        None => 8u8,
    };
    if 1 <= q && q <= 3 {
        (80, 20)
    } else if 4 <= q && q <= 6 {
        (60, 25)
    } else if 7 <= q && q <= 10 {
        (30, 40)
    } else {
        (40, 32)
    }
}

fn image_modalities() -> (m: Option<Vec<String>>)
    ensures
        m is Some,
        views(m->0@) == seq!["IMAGE"@],
{
    let v = vec![owned("IMAGE")];
    assert(views(v@) =~= seq!["IMAGE"@]);
    Some(v)
}

/// Settings for generating an image: temperature 0.4, `top_k` 32, `top_p`
/// 1.0, 1024 output tokens.
pub fn image_generation_config() -> (c: GeminiGenerationConfig)
    ensures
        is_generation_config(c, 40, 32, 1024),
{
    GeminiGenerationConfig {
        temperature_hundredths: 40,
        top_k: 32,
        top_p_hundredths: 100,
        max_output_tokens: 1024,
        response_modalities: image_modalities(),
    }
}

/// Settings for a remix, tuned to the requested quality, with 8192 output
/// tokens.
pub fn remix_generation_config(quality: Option<u8>) -> (c: GeminiGenerationConfig)
    ensures
        is_generation_config(c, remix_sampling(quality).0, remix_sampling(quality).1, 8192),
{
    let q = match quality {
        Some(q) => q,
        None => 8,
    };
    let (temperature, top_k): (u32, u32) = if 1 <= q && q <= 3 {
        (80, 20)
    } else if 4 <= q && q <= 6 {
        (60, 25)
    } else if 7 <= q && q <= 10 {
        (30, 40)
    } else {
        (40, 32)
    };
    GeminiGenerationConfig {
        temperature_hundredths: temperature,
        top_k,
        top_p_hundredths: 100,
        max_output_tokens: 8192,
        response_modalities: image_modalities(),
    }
}

// ---------------------------------------------------------------------------
// Requests
// ---------------------------------------------------------------------------

/// A request part, by its views.
pub enum PartView {
    Text(Seq<char>),
    Inline(Seq<char>, Seq<char>),
}

/// The view of a request part.
pub open spec fn part_view(p: GeminiPart) -> PartView {
    match p {
        GeminiPart::Text { text } => PartView::Text(text@),
        GeminiPart::InlineData { inline_data } => PartView::Inline(
            inline_data.mime_type@,
            inline_data.data@,
        ),
    }
}

/// The views of the parts of a content.
pub open spec fn parts_view(parts: Seq<GeminiPart>) -> Seq<PartView> {
    parts.map_values(|p: GeminiPart| part_view(p))
}

/// The request holds one content, with the given parts.
pub open spec fn single_content(r: GeminiGenerateRequest, parts: Seq<PartView>) -> bool {
    r.contents@.len() == 1 && parts_view(r.contents@[0].parts@) == parts
}

/// The MIME type an image is sent with: the detected one, else JPEG.
pub open spec fn sent_mime(data: Seq<u8>) -> Seq<char> {
    match detected_mime(data) {
        Some(m) => m,
        None => "image/jpeg"@,
    }
}

/// The inline parts of a list of images.
pub open spec fn image_parts(images: Seq<Vec<u8>>) -> Seq<PartView> {
    images.map_values(|d: Vec<u8>| PartView::Inline(sent_mime(d@), base64_encoding(d@)))
}

/// The request for generating an item of a category.
pub fn item_generation_request(
    category: &ItemCategory,
    custom_prompt: Option<&str>,
    style: Option<&str>,
    color: Option<&str>,
) -> (r: GeminiGenerateRequest)
    ensures
        single_content(
            r,
            seq![
                PartView::Text(
                    item_prompt(*category, opt_view(custom_prompt), opt_view(style), opt_view(color)),
                ),
            ],
        ),
        is_generation_config(r.generation_config, 40, 32, 1024),
{
    let prompt = build_item_prompt(category, custom_prompt, style, color);
    let parts = vec![GeminiPart::Text { text: prompt }];
    let contents = vec![GeminiContent { parts }];
    let r = GeminiGenerateRequest { contents, generation_config: image_generation_config() };
    assert(parts_view(r.contents@[0].parts@) =~= seq![
        PartView::Text(
            item_prompt(*category, opt_view(custom_prompt), opt_view(style), opt_view(color)),
        ),
    ]);
    r
}

fn inline_image(data: &[u8]) -> (p: GeminiPart)
    requires
        base64_length_fits(data@.len()),
    ensures
        part_view(p) == PartView::Inline(sent_mime(data@), base64_encoding(data@)),
{
    let encoded = base64_encode(data);
    let mime_type = match detect_image_mime_type(data) {
        Some(m) => m,
        None => owned("image/jpeg"),
    };
    GeminiPart::InlineData { inline_data: GeminiInlineData { mime_type, data: encoded } }
}

/// The request for a remix from a prompt and images (the person first, then
/// the items), each sent with its detected MIME type.
pub fn remix_request(prompt: &str, images: &Vec<Vec<u8>>) -> (r: GeminiGenerateRequest)
    requires
        forall|i: int| 0 <= i < images@.len() ==> base64_length_fits(#[trigger] images@[i]@.len()),
    ensures
        single_content(r, seq![PartView::Text(prompt@)] + image_parts(images@)),
        is_generation_config(r.generation_config, 40, 32, 1024),
{
    let mut parts: Vec<GeminiPart> = vec![GeminiPart::Text { text: owned(prompt) }];
    let mut i: usize = 0;
    while i < images.len()
        invariant
            i <= images@.len(),
            forall|j: int| 0 <= j < images@.len() ==> base64_length_fits(#[trigger] images@[j]@.len()),
            parts_view(parts@) == seq![PartView::Text(prompt@)] + image_parts(images@.take(i as int)),
        decreases images@.len() - i,
    {
        let part = inline_image(images[i].as_slice());
        let ghost before = parts_view(parts@);
        parts.push(part);
        proof {
            assert(parts_view(parts@) =~= before.push(part_view(part)));
            assert(image_parts(images@.take(i + 1)) =~= image_parts(images@.take(i as int)).push(
                PartView::Inline(sent_mime(images@[i as int]@), base64_encoding(images@[i as int]@)),
            ));
        }
        i = i + 1;
    }
    assert(images@.take(i as int) =~= images@);
    let contents = vec![GeminiContent { parts }];
    GeminiGenerateRequest { contents, generation_config: image_generation_config() }
}

/// The parts sent for each item image of a remix: the image, then a text
/// that names its category.
pub open spec fn item_image_parts(items: Seq<(ItemCategory, Vec<u8>, String)>) -> Seq<PartView>
    decreases items.len(),
{
    if items.len() == 0 {
        Seq::empty()
    } else {
        item_image_parts(items.drop_last()) + seq![
            PartView::Inline(items.last().2@, base64_encoding(items.last().1@)),
            PartView::Text(
                "This is a "@ + display_name_of(items.last().0) + " ("@ + display_name_of(
                    items.last().0,
                ) + ")"@,
            ),
        ]
    }
}

/// The label sent after the image of an item of category `c`.
pub open spec fn item_label(c: ItemCategory) -> Seq<char> {
    "This is a "@ + display_name_of(c) + " ("@ + display_name_of(c) + ")"@
}

/// Each item of a remix is sent as its own image, with its own MIME type,
/// followed by a label naming its own category: the k-th item gives parts
/// 2k (its image) and 2k + 1 (its label), and there are no other parts.
pub proof fn law_item_parts_label_each_item(items: Seq<(ItemCategory, Vec<u8>, String)>)
    ensures
        item_image_parts(items).len() == 2 * items.len(),
        forall|k: int|
            0 <= k < items.len() ==> item_image_parts(items)[2 * k] == PartView::Inline(
                (#[trigger] items[k]).2@,
                base64_encoding(items[k].1@),
            ) && item_image_parts(items)[2 * k + 1] == PartView::Text(item_label(items[k].0)),
    decreases items.len(),
{
    if items.len() > 0 {
        let init = items.drop_last();
        law_item_parts_label_each_item(init);
        assert forall|k: int| 0 <= k < items.len() implies item_image_parts(items)[2 * k]
            == PartView::Inline((#[trigger] items[k]).2@, base64_encoding(items[k].1@))
            && item_image_parts(items)[2 * k + 1] == PartView::Text(item_label(items[k].0)) by {
            if k < init.len() {
                assert(init[k] == items[k]);
            }
        }
    }
}

/// The categories named in a remix prompt are those of the items, in
/// order, each item's own.
pub proof fn law_item_categories_in_order(items: Seq<(ItemCategory, Vec<u8>, String)>)
    ensures
        item_categories(items).len() == items.len(),
        forall|k: int| 0 <= k < items.len() ==> item_categories(items)[k] == (#[trigger] items[k]).0,
{
}

/// The categories are listed by display name, separated by ", ": one
/// category is its name, and one more category adds ", " and its name.
pub proof fn law_names_joined_lists_in_order(cs: Seq<ItemCategory>, c: ItemCategory)
    ensures
        names_joined(seq![c]) == display_name_of(c),
        cs.len() > 0 ==> names_joined(cs.push(c)) == names_joined(cs) + ", "@ + display_name_of(c),
        names_joined(Seq::<ItemCategory>::empty()).len() == 0,
{
    assert(cs.push(c).drop_last() =~= cs);
}

/// The request for a remix from a base photo and item images that carry
/// their MIME types, with the prompt built from their categories, the style
/// and the quality.
pub fn remix_images_request(
    base_image: &[u8],
    base_mime_type: &str,
    item_images: &Vec<(ItemCategory, Vec<u8>, String)>,
    style_prompt: Option<&str>,
    quality: Option<u8>,
) -> (r: GeminiGenerateRequest)
    requires
        base64_length_fits(base_image@.len()),
        forall|i: int|
            0 <= i < item_images@.len() ==> base64_length_fits(#[trigger] item_images@[i].1@.len()),
    ensures
        single_content(
            r,
            seq![
                PartView::Text(
                    remix_prompt(item_categories(item_images@), opt_view(style_prompt), quality),
                ),
                PartView::Inline(base_mime_type@, base64_encoding(base_image@)),
            ] + item_image_parts(item_images@),
        ),
        r.contents@.len() == 1,
        r.contents@[0].parts@.len() == 2 + 2 * item_images@.len(),
        forall|k: int|
            0 <= k < item_images@.len() ==> part_view(r.contents@[0].parts@[2 + 2 * k])
                == PartView::Inline((#[trigger] item_images@[k]).2@, base64_encoding(item_images@[k].1@))
                && part_view(r.contents@[0].parts@[3 + 2 * k]) == PartView::Text(
                item_label(item_images@[k].0),
            ),
        is_generation_config(
            r.generation_config,
            remix_sampling(quality).0,
            remix_sampling(quality).1,
            8192,
        ),
{
    let prompt = build_remix_prompt(item_images, style_prompt, quality);
    let base_data = base64_encode(base_image);
    let mut parts: Vec<GeminiPart> = vec![
        GeminiPart::Text { text: prompt },
        GeminiPart::InlineData {
            inline_data: GeminiInlineData { mime_type: owned(base_mime_type), data: base_data },
        },
    ];
    let ghost head = seq![
        PartView::Text(remix_prompt(item_categories(item_images@), opt_view(style_prompt), quality)),
        PartView::Inline(base_mime_type@, base64_encoding(base_image@)),
    ];
    assert(parts_view(parts@) =~= head + item_image_parts(item_images@.take(0)));
    let mut i: usize = 0;
    while i < item_images.len()
        invariant
            i <= item_images@.len(),
            forall|j: int|
                0 <= j < item_images@.len() ==> base64_length_fits(
                    #[trigger] item_images@[j].1@.len(),
                ),
            parts_view(parts@) == head + item_image_parts(item_images@.take(i as int)),
        decreases item_images@.len() - i,
    {
        let item = &item_images[i];
        let encoded = base64_encode(item.1.as_slice());
        let name = item.0.display_name();
        let mut label = join3("This is a ", name, " (");
        label.append(name);
        label.append(")");
        let ghost before = parts_view(parts@);
        let image_part = GeminiPart::InlineData {
            inline_data: GeminiInlineData { mime_type: item.2.clone(), data: encoded },
        };
        let text_part = GeminiPart::Text { text: label };
        parts.push(image_part);
        parts.push(text_part);
        proof {
            let t = item_images@.take(i + 1);
            assert(t.drop_last() =~= item_images@.take(i as int));
            assert(parts_view(parts@) =~= before + seq![part_view(image_part), part_view(text_part)]);
        }
        i = i + 1;
    }
    assert(item_images@.take(i as int) =~= item_images@);
    proof {
        law_item_parts_label_each_item(item_images@);
        let pv = parts_view(parts@);
        assert forall|k: int| 0 <= k < item_images@.len() implies part_view(parts@[2 + 2 * k])
            == PartView::Inline((#[trigger] item_images@[k]).2@, base64_encoding(item_images@[k].1@))
            && part_view(parts@[3 + 2 * k]) == PartView::Text(item_label(item_images@[k].0)) by {
            assert(pv[2 + 2 * k] == item_image_parts(item_images@)[2 * k]);
            assert(pv[3 + 2 * k] == item_image_parts(item_images@)[2 * k + 1]);
        }
    }
    let contents = vec![GeminiContent { parts }];
    GeminiGenerateRequest { contents, generation_config: remix_generation_config(quality) }
}

// ---------------------------------------------------------------------------
// URLs and answers
// ---------------------------------------------------------------------------

/// The URL a generation request is posted to: the model's generate URL
/// with the API key as query parameter.
pub fn generate_content_url(config: &Config) -> (u: String)
    ensures
        u@ == config.gemini.base_url@ + "/"@ + ("models/"@ + config.gemini.model@
            + ":generateContent"@) + "?key="@ + config.gemini.api_key@,
{
    let base = config.gemini_generate_url();
    join3(base.as_str(), "?key=", config.gemini.api_key.as_str())
}

/// The URL the health check reads: the model list.
pub fn models_url(config: &Config) -> (u: String)
    ensures
        u@ == config.gemini.base_url@ + "/models"@,
{
    join2(config.gemini.base_url.as_str(), "/models")
}

/// The Authorization header value of the health check.
pub fn bearer_authorization(config: &Config) -> (h: String)
    ensures
        h@ == "Bearer "@ + config.gemini.api_key@,
{
    join2("Bearer ", config.gemini.api_key.as_str())
}

/// The error for an API answer whose status is not a success (2xx):
/// `status_text` is how the status prints (such as "404 Not Found") and
/// `body` the answer's text.
pub fn api_status_error(status: u16, status_text: &str, body: &str) -> (r: Option<Error>)
    ensures
        (200 <= status < 300) ==> r is None,
        !(200 <= status < 300) ==> (r matches Some(Error::GeminiApi { message, status: s })
            && s == Some(status) && message@ == "API request failed with status "@ + status_text@
            + ": "@ + body@),
{
    if 200 <= status && status < 300 {
        return None;
    }
    let mut message = join3("API request failed with status ", status_text, ": ");
    message.append(body);
    Some(Error::GeminiApi { message, status: Some(status) })
}

/// The image the first candidate's parts hold, from part `i` on: the
/// first inline part that decodes.
pub open spec fn first_decodable_from(parts: Seq<PartView>, i: int) -> Option<Seq<u8>>
    decreases parts.len() - i,
{
    if i < 0 || i >= parts.len() {
        None
    } else {
        match parts[i] {
            PartView::Inline(_, data) => match base64_decoding(data) {
                Some(bytes) => Some(bytes),
                None => first_decodable_from(parts, i + 1),
            },
            PartView::Text(_) => first_decodable_from(parts, i + 1),
        }
    }
}

/// Part `k` is an inline image whose data decodes.
pub open spec fn decodes_at(parts: Seq<PartView>, k: int) -> bool {
    parts[k] is Inline && base64_decoding(parts[k]->Inline_1) is Some
}

/// The image taken from a list of parts is the first image that decodes:
/// when some part from `i` on is an inline image whose data decodes, the
/// result is the decoding of the first such part; when none does, there is
/// no image.
pub proof fn law_first_decodable_image(parts: Seq<PartView>, i: int)
    requires
        0 <= i,
    ensures
        match first_decodable_from(parts, i) {
            Some(bytes) => exists|k: int|
                i <= k < parts.len() && decodes_at(parts, k) && base64_decoding(parts[k]->Inline_1)
                    == Some(bytes) && forall|j: int| i <= j < k ==> !#[trigger] decodes_at(parts, j),
            None => forall|j: int| i <= j < parts.len() ==> !#[trigger] decodes_at(parts, j),
        },
    decreases parts.len() - i,
{
    if i < parts.len() {
        law_first_decodable_image(parts, i + 1);
        if !decodes_at(parts, i) {
            match first_decodable_from(parts, i + 1) {
                Some(bytes) => {
                    let k = choose|k: int|
                        i + 1 <= k < parts.len() && decodes_at(parts, k) && base64_decoding(
                            parts[k]->Inline_1,
                        ) == Some(bytes) && forall|j: int|
                            i + 1 <= j < k ==> !#[trigger] decodes_at(parts, j);
                    assert forall|j: int| i <= j < k implies !#[trigger] decodes_at(parts, j) by {
                        if j > i {
                            assert(i + 1 <= j < k);
                        }
                    }
                },
                None => {},
            }
        } else {
            assert(forall|j: int| i <= j < i ==> !#[trigger] decodes_at(parts, j));
        }
    }
}

/// What a model answer yields: the first candidate's first decodable
/// inline image, or the placeholder image when it holds none; an error when
/// there is no candidate or generation stopped for another reason than
/// "STOP".
pub open spec fn extracted_image(response: GeminiResponse) -> Result<Seq<u8>, Seq<char>> {
    if response.candidates@.len() == 0 {
        Err("No candidates in response"@)
    } else {
        let c = response.candidates@[0];
        if c.finish_reason is Some && c.finish_reason->0@ != "STOP"@ {
            Err("Generation finished with reason: "@ + c.finish_reason->0@)
        } else {
            match first_decodable_from(parts_view(c.content.parts@), 0) {
                Some(bytes) => Ok(bytes),
                None => Ok(placeholder_image()),
            }
        }
    }
}

/// A model answer gives an image only when generation stopped normally:
/// with no candidate the answer is refused; when the first candidate
/// finished for any reason other than "STOP" (such as "SAFETY" or
/// "IMAGE_SAFETY") the answer is refused with that reason; otherwise it
/// gives an image (the first that decodes, else the placeholder).
pub proof fn law_image_only_after_normal_stop(response: GeminiResponse)
    ensures
        response.candidates@.len() == 0 ==> extracted_image(response) == Err::<Seq<u8>, Seq<char>>(
            "No candidates in response"@,
        ),
        response.candidates@.len() > 0 && response.candidates@[0].finish_reason is Some
            && response.candidates@[0].finish_reason->0@ != "STOP"@ ==> extracted_image(response)
            == Err::<Seq<u8>, Seq<char>>(
            "Generation finished with reason: "@ + response.candidates@[0].finish_reason->0@,
        ),
        extracted_image(response) is Ok <==> (response.candidates@.len() > 0 && match response.candidates@[
            0
        ].finish_reason {
            Some(reason) => reason@ == "STOP"@,
            None => true,
        }),
{
}

/// The image of a model answer (see `extracted_image`); errors are Gemini
/// API errors without status.
pub fn extract_image_from_response(response: GeminiResponse) -> (r: Result<Vec<u8>, Error>)
    ensures
        match extracted_image(response) {
            Ok(bytes) => r matches Ok(v) && v@ == bytes,
            Err(m) => r matches Err(Error::GeminiApi { message, status: None }) && message@ == m,
        },
        response.candidates@.len() > 0 && response.candidates@[0].finish_reason is Some
            && response.candidates@[0].finish_reason->0@ != "STOP"@ ==> (r matches Err(
            Error::GeminiApi { message, status: None },
        ) && message@ == "Generation finished with reason: "@
            + response.candidates@[0].finish_reason->0@),
        r is Ok ==> response.candidates@.len() > 0 && match response.candidates@[0].finish_reason {
            Some(reason) => reason@ == "STOP"@,
            None => true,
        },
        r matches Ok(v) ==> ({
            let pv = parts_view(response.candidates@[0].content.parts@);
            ||| exists|k: int|
                0 <= k < pv.len() && decodes_at(pv, k) && base64_decoding(pv[k]->Inline_1) == Some(
                    v@,
                ) && forall|j: int| 0 <= j < k ==> !#[trigger] decodes_at(pv, j)
            ||| v@ == placeholder_image() && forall|j: int|
                0 <= j < pv.len() ==> !#[trigger] decodes_at(pv, j)
        }),
{
    let ghost original = response;
    let mut candidates = response.candidates;
    if candidates.len() == 0 {
        return Err(Error::gemini_api("No candidates in response", None));
    }
    let candidate: GeminiCandidate = candidates.remove(0);
    assert(candidate == original.candidates@[0]);
    match &candidate.finish_reason {
        Some(reason) => {
            if !crate::text::str_eq(reason.as_str(), "STOP") {
                let message = join2("Generation finished with reason: ", reason.as_str());
                return Err(Error::GeminiApi { message, status: None });
            }
        },
        None => {},
    }
    let parts = &candidate.content.parts;
    let ghost pv = parts_view(parts@);
    let mut i: usize = 0;
    while i < parts.len()
        invariant
            i <= parts@.len(),
            pv == parts_view(parts@),
            original == response,
            original.candidates@.len() > 0,
            parts@ == original.candidates@[0].content.parts@,
            !(original.candidates@[0].finish_reason is Some
                && original.candidates@[0].finish_reason->0@ != "STOP"@),
            first_decodable_from(pv, 0) == first_decodable_from(pv, i as int),
        decreases parts@.len() - i,
    {
        match &parts[i] {
            GeminiPart::InlineData { inline_data } => {
                match base64_decode(inline_data.data.as_str()) {
                    Some(image_data) => {
                        assert(pv[i as int] == part_view(parts@[i as int]));
                        assert(first_decodable_from(pv, i as int) == Some(image_data@));
                        proof {
                            law_first_decodable_image(pv, 0);
                        }
                        return Ok(image_data);
                    },
                    None => {
                        assert(pv[i as int] == part_view(parts@[i as int]));
                    },
                }
            },
            GeminiPart::Text { .. } => {
                assert(pv[i as int] == part_view(parts@[i as int]));
            },
        }
        i = i + 1;
    }
    proof {
        law_first_decodable_image(pv, 0);
    }
    Ok(create_placeholder_image())
}

/// An upload that validation accepts is recognized by its leading bytes as
/// a JPEG, PNG or WebP image, which the standard configuration supports and
/// has a file extension for.
pub proof fn law_accepted_upload_has_supported_type(data: Seq<u8>, filename: Option<Seq<char>>)
    requires
        crate::validation::upload_verdict(data, filename) is None,
    ensures
        detected_mime(data) is Some,
        detected_mime(data) == Some("image/jpeg"@) || detected_mime(data) == Some("image/png"@)
            || detected_mime(data) == Some("image/webp"@),
        crate::config::extension_for(detected_mime(data)->0) is Some,
{
    assert(crate::validation::format_verdict(data) is None);
    if is_prefix(jpeg_magic(), data) {
        assert(data.subrange(0, 2)[0] == data[0]);
        assert(data.subrange(0, 2)[1] == data[1]);
        assert(data.subrange(0, 3) =~= jpeg_signature());
    }
}

} // verus!
