//! The sizes in which an uploaded image is kept, and the region of an image
//! that a square variant shows.

use vstd::prelude::*;
use vstd::string::*;

verus! {

/// One output size of the image pipeline.
#[derive(Debug, Clone, PartialEq, Eq)]
pub struct ImageVariant {
    /// The stem of the variant's file name.
    pub suffix: String,
    /// Largest width in pixels.
    pub max_width: u32,
    /// Largest height in pixels.
    pub max_height: u32,
    /// Whether the image is cropped to a centred square before scaling.
    pub crop_square: bool,
}

/// View of an [`ImageVariant`].
pub ghost struct ImageVariantView {
    pub suffix: Seq<char>,
    pub max_width: u32,
    pub max_height: u32,
    pub crop_square: bool,
}

impl View for ImageVariant {
    type V = ImageVariantView;

    open spec fn view(&self) -> ImageVariantView {
        ImageVariantView {
            suffix: self.suffix@,
            max_width: self.max_width,
            max_height: self.max_height,
            crop_square: self.crop_square,
        }
    }
}

/// The three sizes of an article or page image.
pub open spec fn standard_variants() -> Seq<ImageVariantView> {
    seq![
        ImageVariantView {
            suffix: "thumbnail"@,
            max_width: 200,
            max_height: 200,
            crop_square: true,
        },
        ImageVariantView { suffix: "medium"@, max_width: 800, max_height: 800, crop_square: false },
        ImageVariantView {
            suffix: "large"@,
            max_width: 1600,
            max_height: 1600,
            crop_square: false,
        },
    ]
}

/// The sizes of an app icon: the standard ones and a square icon.
pub open spec fn icon_variants() -> Seq<ImageVariantView> {
    standard_variants().push(
        ImageVariantView { suffix: "icon"@, max_width: 128, max_height: 128, crop_square: true },
    )
}

/// Views of a list of variants.
pub open spec fn variant_views(variants: Seq<ImageVariant>) -> Seq<ImageVariantView> {
    Seq::new(variants.len(), |i: int| variants[i]@)
}

/// The standard set of three variants for article and page images.
pub fn get_standard_variants() -> (variants: Vec<ImageVariant>)
    ensures
        variant_views(variants@) == standard_variants(),
{
    let mut variants: Vec<ImageVariant> = Vec::new();
    variants.push(
        ImageVariant {
            suffix: String::from_str("thumbnail"),
            max_width: 200,
            max_height: 200,
            crop_square: true,
        },
    );
    variants.push(
        ImageVariant {
            suffix: String::from_str("medium"),
            max_width: 800,
            max_height: 800,
            crop_square: false,
        },
    );
    variants.push(
        ImageVariant {
            suffix: String::from_str("large"),
            max_width: 1600,
            max_height: 1600,
            crop_square: false,
        },
    );
    assert(variant_views(variants@) =~= standard_variants());
    variants
}

/// The set of variants for app icons: the standard three and a square icon.
pub fn get_icon_variants() -> (variants: Vec<ImageVariant>)
    ensures
        variant_views(variants@) == icon_variants(),
{
    let mut variants = get_standard_variants();
    variants.push(
        ImageVariant {
            suffix: String::from_str("icon"),
            max_width: 128,
            max_height: 128,
            crop_square: true,
        },
    );
    assert(variant_views(variants@) =~= icon_variants());
    variants
}

/// The variants for an upload: those of an icon or the standard ones.
pub fn variants_for(is_icon: bool) -> (variants: Vec<ImageVariant>)
    ensures
        variant_views(variants@) == if is_icon {
            icon_variants()
        } else {
            standard_variants()
        },
{
    if is_icon {
        get_icon_variants()
    } else {
        get_standard_variants()
    }
}

/// A region of an image: its left and top edge and its width and height.
#[derive(Debug, Clone, Copy, PartialEq, Eq)]
pub struct CropRegion {
    pub x: u32,
    pub y: u32,
    pub width: u32,
    pub height: u32,
}

/// The largest centred square of an image.
pub open spec fn centred_square(width: u32, height: u32) -> CropRegion {
    let size = if width < height {
        width
    } else {
        height
    };
    CropRegion {
        x: ((width - size) / 2) as u32,
        y: ((height - size) / 2) as u32,
        width: size,
        height: size,
    }
}

/// The region of an image of the given size that a variant shows before it
/// is scaled: the largest centred square for a square variant, else the
/// whole image.
pub fn crop_region(width: u32, height: u32, crop_square: bool) -> (region: CropRegion)
    ensures
        region == if crop_square {
            centred_square(width, height)
        } else {
            CropRegion { x: 0, y: 0, width, height }
        },
        region.x + region.width <= width,
        region.y + region.height <= height,
{
    if crop_square {
        let size = if width < height {
            width
        } else {
            height
        };
        CropRegion { x: (width - size) / 2, y: (height - size) / 2, width: size, height: size }
    } else {
        CropRegion { x: 0, y: 0, width, height }
    }
}

/// Extension of a variant's file where the upload has none.
pub open spec fn default_extension() -> Seq<char> {
    "png"@
}

/// The file names of a variant: one in the format of the upload, under
/// the upload's extension, and one in WebP.
pub fn variant_file_names(suffix: &str, extension: Option<&str>) -> (names: (String, String))
    ensures
        names.0@ == suffix@ + "."@ + match extension {
            Some(e) => e@,
            None => default_extension(),
        },
        names.1@ == suffix@ + ".webp"@,
{
    let ext = match extension {
        Some(e) => e,
        None => "png",
    };
    let native = suffix.to_owned().concat(".").concat(ext);
    let webp = suffix.to_owned().concat(".webp");
    (native, webp)
}

/// Quality of the WebP encoding, in percent.
pub const WEBP_QUALITY: u8 = 80;

} // verus!
