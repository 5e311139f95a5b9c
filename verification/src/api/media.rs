//! The query parameters of the media endpoints.

use vstd::prelude::*;
use vstd::string::*;
use crate::error::{AppError, AppErrorView, AppResult};
use crate::policy::opt_str_view;
use crate::text::str_eq;

verus! {

/// The optional filter of the media list: `icons` or `images`.
#[derive(Debug, Clone, PartialEq, Eq)]
pub struct MediaFilter {
    pub filter: Option<String>,
}

/// Which media a list shows.
#[derive(Debug, Clone, Copy, PartialEq, Eq)]
pub enum MediaSelection {
    /// Icons only.
    Icons,
    /// Images that are no icons.
    Images,
    /// Everything.
    All,
}

/// Which media a list with the given filter shows: `icons` and `images`
/// select those, any other filter and none select everything.
pub fn media_selection(filter: Option<&str>) -> (r: MediaSelection)
    ensures
        r == match opt_str_view(filter) {
            Some(f) => if f == "icons"@ {
                MediaSelection::Icons
            } else if f == "images"@ {
                MediaSelection::Images
            } else {
                MediaSelection::All
            },
            None => MediaSelection::All,
        },
{
    match filter {
        Some(f) => if str_eq(f, "icons") {
            MediaSelection::Icons
        } else if str_eq(f, "images") {
            MediaSelection::Images
        } else {
            MediaSelection::All
        },
        None => MediaSelection::All,
    }
}

/// Whether the form field `is_icon` marks an upload as an icon: it does
/// with the values `true` and `1`.
pub fn marks_icon(value: &str) -> (r: bool)
    ensures
        r == (value@ == "true"@ || value@ == "1"@),
{
    str_eq(value, "true") || str_eq(value, "1")
}

/// An upload as the form carried it.
#[derive(Debug, Clone, PartialEq, Eq)]
pub struct Upload {
    pub data: Vec<u8>,
    pub original_filename: String,
    pub mime_type: String,
}

/// Content type of an upload that names none.
pub open spec fn default_mime_type() -> Seq<char> {
    "application/octet-stream"@
}

/// Why a form is no upload, if it is none: the file is missing, its name
/// is missing, or it is empty.
pub open spec fn upload_rejection(
    file_data: Option<Vec<u8>>,
    filename: Option<String>,
) -> Option<AppErrorView> {
    if file_data is None {
        Some(AppErrorView::BadRequest("Missing 'file' field"@))
    } else if filename is None {
        Some(AppErrorView::BadRequest("Missing filename in upload"@))
    } else if file_data->Some_0@.len() == 0 {
        Some(AppErrorView::BadRequest("Uploaded file is empty"@))
    } else {
        None
    }
}

/// Makes an upload of the fields of a form. `BadRequest` where the file or
/// its name is missing and where the file is empty. An upload without a
/// content type counts as a stream of bytes.
pub fn admin_upload(
    file_data: Option<Vec<u8>>,
    filename: Option<String>,
    content_type: Option<String>,
) -> (r: AppResult<Upload>)
    ensures
        match r {
            Ok(upload) => {
                &&& upload_rejection(file_data, filename) is None
                &&& upload.data@ == file_data->Some_0@
                &&& upload.original_filename@ == filename->Some_0@
                &&& upload.mime_type@ == match content_type {
                    Some(t) => t@,
                    None => default_mime_type(),
                }
            },
            Err(e) => upload_rejection(file_data, filename) == Some(e@),
        },
{
    let data = match file_data {
        Some(d) => d,
        None => {
            return Err(AppError::BadRequest(String::from_str("Missing 'file' field")));
        },
    };
    let original_filename = match filename {
        Some(n) => n,
        None => {
            return Err(AppError::BadRequest(String::from_str("Missing filename in upload")));
        },
    };
    let mime_type = match content_type {
        Some(t) => t,
        None => String::from_str("application/octet-stream"),
    };
    if data.len() == 0 {
        return Err(AppError::BadRequest(String::from_str("Uploaded file is empty")));
    }
    Ok(Upload { data, original_filename, mime_type })
}

} // verus!
