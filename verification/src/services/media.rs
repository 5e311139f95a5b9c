//! Uploaded media: which files are images, and the name under which an
//! upload is stored.

use vstd::prelude::*;
use crate::error::{AppError, AppErrorView, AppResult};
use crate::media::processing::{
    ImageVariant, icon_variants, standard_variants, variant_views, variants_for,
};
use crate::text::{
    ascii_lower, char_ascii_lower, char_is_letter_or_number, chars_of, letter_or_number,
    push_char, str_eq,
};

verus! {

/// Whether `mime_type` names an image format that the image pipeline
/// handles.
pub open spec fn image_mime(mime_type: Seq<char>) -> bool {
    ||| mime_type == "image/jpeg"@
    ||| mime_type == "image/jpg"@
    ||| mime_type == "image/png"@
    ||| mime_type == "image/gif"@
    ||| mime_type == "image/webp"@
    ||| mime_type == "image/bmp"@
    ||| mime_type == "image/tiff"@
}

/// Whether `mime_type` names an image format that the image pipeline
/// handles.
pub fn is_image_mime(mime_type: &str) -> (r: bool)
    ensures
        r == image_mime(mime_type@),
{
    str_eq(mime_type, "image/jpeg") || str_eq(mime_type, "image/jpg") || str_eq(
        mime_type,
        "image/png",
    ) || str_eq(mime_type, "image/gif") || str_eq(mime_type, "image/webp") || str_eq(
        mime_type,
        "image/bmp",
    ) || str_eq(mime_type, "image/tiff")
}

/// Whether `c` separates the components of a path.
pub open spec fn is_path_separator(c: char) -> bool {
    c == '/' || c == '\\'
}

/// The last component of a path: what follows its last separator, or all
/// of it where it has none.
pub open spec fn last_component(name: Seq<char>) -> Seq<char>
    decreases name.len(),
{
    if name.len() == 0 {
        Seq::empty()
    } else if is_path_separator(name.last()) {
        Seq::empty()
    } else {
        last_component(name.drop_last()).push(name.last())
    }
}

/// What stands for `c` in a stored file name: letters and numbers in ASCII
/// lower case where they have one, the dot, the hyphen and the underscore
/// as they are, and an underscore for anything else.
pub open spec fn safe_char(c: char) -> char {
    if letter_or_number(c) || c == '.' || c == '-' || c == '_' {
        ascii_lower(c)
    } else {
        '_'
    }
}

/// The name under which an upload called `name` is stored.
pub open spec fn sanitized(name: Seq<char>) -> Seq<char> {
    last_component(name).map_values(|c: char| safe_char(c))
}

/// The name under which an upload is stored: the last component of the
/// name that the client sent, so that no path leads out of the upload
/// directory, with every unsafe character replaced.
pub fn sanitize_filename(name: &str) -> (safe: String)
    ensures
        safe@ == sanitized(name@),
        safe@.len() <= name@.len(),
        forall|i: int| 0 <= i < safe@.len() ==> !is_path_separator(#[trigger] safe@[i]),
{
    let chars = chars_of(name);
    let mut safe = String::new();
    let mut i: usize = 0;
    assert(chars@.subrange(0, 0) =~= Seq::<char>::empty());
    assert(sanitized(Seq::<char>::empty()) =~= Seq::<char>::empty());
    while i < chars.len()
        invariant
            i <= chars.len(),
            chars@ == name@,
            safe@ == sanitized(chars@.subrange(0, i as int)),
            safe@.len() <= i,
            forall|k: int| 0 <= k < safe@.len() ==> !is_path_separator(#[trigger] safe@[k]),
        decreases chars.len() - i,
    {
        let c = chars[i];
        proof {
            let next = chars@.subrange(0, i as int + 1);
            assert(next.drop_last() =~= chars@.subrange(0, i as int));
            assert(next.last() == c);
        }
        if c == '/' || c == '\\' {
            safe = String::new();
            assert(sanitized(chars@.subrange(0, i as int + 1)) =~= Seq::<char>::empty());
        } else {
            let kept = if char_is_letter_or_number(c) || c == '.' || c == '-' || c == '_' {
                char_ascii_lower(c)
            } else {
                '_'
            };
            proof {
                let base = last_component(chars@.subrange(0, i as int));
                assert(base.push(c).map_values(|c: char| safe_char(c)) =~= base.map_values(
                    |c: char| safe_char(c),
                ).push(safe_char(c)));
            }
            push_char(&mut safe, kept);
        }
        i += 1;
    }
    assert(chars@.subrange(0, i as int) =~= chars@);
    safe
}

/// What is known of an upload before it is stored.
#[derive(Debug, Clone, PartialEq, Eq)]
pub struct UploadPlan {
    /// The name under which the file is stored.
    pub filename: String,
    /// The variants to produce; none for a file that is no image.
    pub variants: Vec<ImageVariant>,
}

/// The reason given when an upload's name leaves nothing to store it under.
pub open spec fn invalid_filename_message() -> Seq<char> {
    "Invalid filename"@
}

/// Plans the storage of an upload: the name under which it is stored, and
/// the variants to produce of it if it is an image. `BadRequest` where the
/// name that the client sent has an empty last component.
pub fn plan_upload(original_filename: &str, mime_type: &str, is_icon: bool) -> (r: AppResult<
    UploadPlan,
>)
    ensures
        match r {
            Ok(plan) => {
                &&& sanitized(original_filename@).len() > 0
                &&& plan.filename@ == sanitized(original_filename@)
                &&& variant_views(plan.variants@) == if !image_mime(mime_type@) {
                    Seq::empty()
                } else if is_icon {
                    icon_variants()
                } else {
                    standard_variants()
                }
            },
            Err(e) => sanitized(original_filename@).len() == 0 && e@ == AppErrorView::BadRequest(
                invalid_filename_message(),
            ),
        },
{
    let filename = sanitize_filename(original_filename);
    if filename.as_str().unicode_len() == 0 {
        return Err(AppError::BadRequest("Invalid filename".to_owned()));
    }
    let variants = if is_image_mime(mime_type) {
        variants_for(is_icon)
    } else {
        let none: Vec<ImageVariant> = Vec::new();
        assert(variant_views(none@) =~= Seq::empty());
        none
    };
    Ok(UploadPlan { filename, variants })
}

} // verus!
