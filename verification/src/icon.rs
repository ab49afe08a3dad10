//! Icon containers: choosing the largest variant and turning its image into
//! an embeddable `data:` text.

use vstd::prelude::*;
use vstd::string::StringExecFns;
use base64::Engine;

verus! {

/// The icons of one container file, as `icns` holds them.
#[verifier::external_type_specification]
#[verifier::external_body]
pub struct ExIconFamily(icns::IconFamily);

/// A decoded image, as `icns` holds it.
#[verifier::external_type_specification]
#[verifier::external_body]
pub struct ExImage(icns::Image);

/// The pixel sizes, width then height, of the complete icons that a family
/// holds, in the order in which the family lists them.
pub uninterp spec fn family_variants(family: icns::IconFamily) -> Seq<(u32, u32)>;

/// The PNG file of the icon at `index` of that list: the icon decoded and
/// then written as PNG; `None` where there is no such icon or either step
/// fails.
pub uninterp spec fn family_png(family: icns::IconFamily, index: int) -> Option<Seq<u8>>;

/// The PNG file that writing an image gives; `None` where the encoder fails.
pub uninterp spec fn image_png_file(image: icns::Image) -> Option<Seq<u8>>;

/// The sizes of the icons in the container that the bytes encode; `None`
/// where the bytes are not a readable container.
pub uninterp spec fn container_variants(bytes: Seq<u8>) -> Option<Seq<(u32, u32)>>;

/// The PNG file of the icon at `index` of the container that the bytes
/// encode; `None` where `family_png` is, and where the bytes are not a
/// readable container.
pub uninterp spec fn container_png(bytes: Seq<u8>, index: int) -> Option<Seq<u8>>;

/// The base64 text, standard alphabet with padding, of a run of bytes.
pub uninterp spec fn base64_text(bytes: Seq<u8>) -> Seq<char>;

/// `icns::IconFamily::read` on the bytes: an error where they are not a
/// readable container, else the family. What the container of these bytes
/// holds is what the family holds.
#[verifier::external_body]
fn read_family(bytes: &[u8]) -> (r: Option<icns::IconFamily>)
    ensures
        match r {
            Some(family) => container_variants(bytes@) == Some(family_variants(family)) && forall|
                index: int,
            | #[trigger]
                container_png(bytes@, index) == family_png(family, index),
            None => container_variants(bytes@) is None,
        },
{
    icns::IconFamily::read(std::io::Cursor::new(bytes)).ok()
}

/// `icns::IconFamily::available_icons`, each icon type given by its
/// `pixel_width` and `pixel_height`.
#[verifier::external_body]
fn variant_sizes(family: &icns::IconFamily) -> (r: Vec<(u32, u32)>)
    ensures
        r@ == family_variants(*family),
{
    family.available_icons().iter().map(|t| (t.pixel_width(), t.pixel_height())).collect()
}

/// `icns::IconFamily::get_icon_with_type` for the icon type at `index` of
/// `available_icons`: the decoded image, or `None` where there is no such
/// type or decoding fails. The PNG file of the family's icon at `index` is
/// the one that writing this image gives.
#[verifier::external_body]
fn variant_image(family: &icns::IconFamily, index: usize) -> (r: Option<icns::Image>)
    ensures
        match r {
            Some(image) => family_png(*family, index as int) == image_png_file(image),
            None => family_png(*family, index as int) is None,
        },
{
    family.available_icons().get(index).and_then(|t| family.get_icon_with_type(*t).ok())
}

/// `icns::Image::write_png` into a buffer: the PNG file, or `None` where the
/// encoder fails.
#[verifier::external_body]
fn image_png(image: &icns::Image) -> (r: Option<Vec<u8>>)
    ensures
        match r {
            Some(png) => image_png_file(*image) == Some(png@),
            None => image_png_file(*image) is None,
        },
{
    let mut buffer = Vec::new();
    image.write_png(&mut buffer).ok().map(|_| buffer)
}

/// `encode` of `base64::engine::general_purpose::STANDARD`: the base64 text
/// of the bytes, which depends on the bytes alone.
#[verifier::external_body]
fn base64_standard(bytes: &[u8]) -> (r: String)
    ensures
        r@ == base64_text(bytes@),
{
    base64::engine::general_purpose::STANDARD.encode(bytes)
}

/// The number of pixels of a variant.
pub open spec fn area(size: (u32, u32)) -> int {
    size.0 as int * size.1 as int
}

/// `i` is the variant to take: none has more pixels, and every one before it
/// has fewer.
pub open spec fn is_best(sizes: Seq<(u32, u32)>, i: int) -> bool {
    &&& 0 <= i < sizes.len()
    &&& forall|j: int| 0 <= j < sizes.len() ==> area(#[trigger] sizes[j]) <= area(sizes[i])
    &&& forall|j: int| 0 <= j < i ==> area(#[trigger] sizes[j]) < area(sizes[i])
}

/// Only one variant is the one to take.
pub proof fn lemma_best_is_unique(sizes: Seq<(u32, u32)>, i: int, j: int)
    requires
        is_best(sizes, i),
        is_best(sizes, j),
    ensures
        i == j,
{
    if i < j {
        assert(area(sizes[i]) < area(sizes[j]));
    } else if j < i {
        assert(area(sizes[j]) < area(sizes[i]));
    }
}

/// The index of the variant to take from a list that is not empty.
pub open spec fn best_index(sizes: Seq<(u32, u32)>) -> int {
    choose|i: int| is_best(sizes, i)
}

/// The three sizes 16×16, 32×32 and 128×128 in one of their six orders.
pub open spec fn is_small_medium_large(sizes: Seq<(u32, u32)>) -> bool {
    let s = (16u32, 16u32);
    let m = (32u32, 32u32);
    let l = (128u32, 128u32);
    sizes == seq![s, m, l] || sizes == seq![s, l, m] || sizes == seq![m, s, l] || sizes == seq![m, l, s]
        || sizes == seq![l, s, m] || sizes == seq![l, m, s]
}

/// In whatever order variants of 16×16, 32×32 and 128×128 are listed, the
/// one to take is 128×128.
pub proof fn lemma_largest_of_three(sizes: Seq<(u32, u32)>, i: int)
    requires
        is_small_medium_large(sizes),
        is_best(sizes, i),
    ensures
        sizes[i] == (128u32, 128u32),
{
    assert(area(sizes[0]) <= area(sizes[i]));
    assert(area(sizes[1]) <= area(sizes[i]));
    assert(area(sizes[2]) <= area(sizes[i]));
}

/// The number of pixels of a variant, which fits 64 bits.
fn pixel_area(size: (u32, u32)) -> (r: u64)
    ensures
        r == area(size),
{
    let width: u64 = size.0 as u64;
    let height: u64 = size.1 as u64;
    assert(width * height <= u64::MAX) by (nonlinear_arith)
        requires
            width <= 0xffff_ffff,
            height <= 0xffff_ffff,
    ;
    width * height
}

/// The index of the variant with the most pixels, the first of them where
/// several have as many; `None` only for an empty list.
pub fn select_best(sizes: &Vec<(u32, u32)>) -> (r: Option<usize>)
    ensures
        r is None <==> sizes.len() == 0,
        r matches Some(i) ==> is_best(sizes@, i as int) && i == best_index(sizes@),
{
    if sizes.len() == 0 {
        return None;
    }
    let mut best: usize = 0;
    let mut best_area: u64 = pixel_area(sizes[0]);
    let mut i: usize = 1;
    while i < sizes.len()
        invariant
            1 <= i <= sizes.len(),
            best < i,
            best_area == area(sizes[best as int]),
            forall|j: int| 0 <= j < i ==> area(#[trigger] sizes[j]) <= area(sizes[best as int]),
            forall|j: int| 0 <= j < best ==> area(#[trigger] sizes[j]) < area(sizes[best as int]),
        decreases sizes.len() - i,
    {
        let here = pixel_area(sizes[i]);
        if here > best_area {
            best = i;
            best_area = here;
        }
        i += 1;
    }
    proof {
        lemma_best_is_unique(sizes@, best as int, best_index(sizes@));
    }
    Some(best)
}

/// The text that every icon payload starts with.
pub open spec fn data_prefix() -> Seq<char> {
    "data:image/png;base64,"@
}

/// The payload for a PNG file: the prefix, then the file in base64.
pub open spec fn payload_text(png: Seq<u8>) -> Seq<char> {
    data_prefix() + base64_text(png)
}

/// Wraps a PNG file as an embeddable image text.
pub fn icon_payload(png: &[u8]) -> (r: String)
    ensures
        r@ == payload_text(png@),
{
    let encoded = base64_standard(png);
    String::from_str("data:image/png;base64,").concat(encoded.as_str())
}

/// The icon that a container file gives: its largest variant as a payload.
/// Nothing where the bytes are no container, where the container holds no
/// icon, and where that variant cannot be decoded or written as PNG.
pub open spec fn icon_of(bytes: Seq<u8>) -> Option<Seq<char>> {
    match container_variants(bytes) {
        Some(sizes) => if sizes.len() == 0 {
            None
        } else {
            match container_png(bytes, best_index(sizes)) {
                Some(png) => Some(payload_text(png)),
                None => None,
            }
        },
        None => None,
    }
}

/// The icon of a container file: its largest variant, decoded, written as
/// PNG and wrapped as a payload.
pub fn extract_and_encode_icon(bytes: &[u8]) -> (r: Option<String>)
    ensures
        match r {
            Some(text) => icon_of(bytes@) == Some(text@),
            None => icon_of(bytes@) is None,
        },
{
    let family = match read_family(bytes) {
        Some(family) => family,
        None => {
            return None;
        },
    };
    let sizes = variant_sizes(&family);
    let best = match select_best(&sizes) {
        Some(best) => best,
        None => {
            return None;
        },
    };
    assert(container_png(bytes@, best as int) == family_png(family, best as int));
    let image = match variant_image(&family, best) {
        Some(image) => image,
        None => {
            return None;
        },
    };
    match image_png(&image) {
        Some(png) => Some(icon_payload(png.as_slice())),
        None => None,
    }
}

} // verus!
