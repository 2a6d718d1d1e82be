//! Catalog image uploads: format sniffing, size limits and storage keys.

use vstd::prelude::*;
use vstd::string::*;

verus! {

/// Largest accepted upload: 5 MB.
pub const MAX_IMAGE_BYTES: usize = 5 * 1024 * 1024;

/// Where an image is stored.
#[derive(Debug)]
pub enum MediaStore {
    /// Files under this directory on local disk, served at `/media/...`.
    Local { dir: String },
}

/// The accepted image formats.
#[derive(Clone, Copy, PartialEq, Eq, Structural, Debug)]
pub enum ImageKind {
    Jpeg,
    Png,
    Webp,
}

/// The format announced by the first bytes of a file, if any.
pub open spec fn sniffed(b: Seq<u8>) -> Option<ImageKind> {
    if b.len() >= 3 && b[0] == 0xFF && b[1] == 0xD8 && b[2] == 0xFF {
        Some(ImageKind::Jpeg)
    } else if b.len() >= 8 && b[0] == 0x89 && b[1] == 0x50 && b[2] == 0x4E && b[3] == 0x47 && b[4]
        == 0x0D && b[5] == 0x0A && b[6] == 0x1A && b[7] == 0x0A {
        Some(ImageKind::Png)
    } else if b.len() >= 12 && b[0] == 0x52 && b[1] == 0x49 && b[2] == 0x46 && b[3] == 0x46 && b[8]
        == 0x57 && b[9] == 0x45 && b[10] == 0x42 && b[11] == 0x50 {
        Some(ImageKind::Webp)
    } else {
        None
    }
}

pub open spec fn extension_text(k: ImageKind) -> Seq<char> {
    match k {
        ImageKind::Jpeg => "jpg"@,
        ImageKind::Png => "png"@,
        ImageKind::Webp => "webp"@,
    }
}

impl ImageKind {
    /// Detects the format from magic bytes; the client's filename and
    /// Content-Type are not trusted.
    pub fn sniff(bytes: &[u8]) -> (k: Option<ImageKind>)
        ensures
            k == sniffed(bytes@),
    {
        let n = bytes.len();
        if n >= 3 && bytes[0] == 0xFF && bytes[1] == 0xD8 && bytes[2] == 0xFF {
            Some(ImageKind::Jpeg)
        } else if n >= 8 && bytes[0] == 0x89 && bytes[1] == 0x50 && bytes[2] == 0x4E && bytes[3]
            == 0x47 && bytes[4] == 0x0D && bytes[5] == 0x0A && bytes[6] == 0x1A && bytes[7] == 0x0A {
            Some(ImageKind::Png)
        } else if n >= 12 && bytes[0] == 0x52 && bytes[1] == 0x49 && bytes[2] == 0x46 && bytes[3]
            == 0x46 && bytes[8] == 0x57 && bytes[9] == 0x45 && bytes[10] == 0x42 && bytes[11]
            == 0x50 {
            Some(ImageKind::Webp)
        } else {
            None
        }
    }

    /// The file extension images of this format are stored with.
    pub fn extension(self) -> (e: &'static str)
        ensures
            e@ == extension_text(self),
    {
        match self {
            ImageKind::Jpeg => "jpg",
            ImageKind::Png => "png",
            ImageKind::Webp => "webp",
        }
    }
}

/// Why an upload is refused (validation failures, 400).
#[derive(Clone, Copy, PartialEq, Eq, Structural, Debug)]
pub enum UploadError {
    /// "file is empty"
    Empty,
    /// "image must be 5 MB or smaller"
    TooLarge,
    /// "only JPEG, PNG or WebP images are allowed"
    UnsupportedFormat,
}

/// The message shown for a refused upload.
pub open spec fn upload_message(e: UploadError) -> Seq<char> {
    match e {
        UploadError::Empty => "file is empty"@,
        UploadError::TooLarge => "image must be 5 MB or smaller"@,
        UploadError::UnsupportedFormat => "only JPEG, PNG or WebP images are allowed"@,
    }
}

impl UploadError {
    /// The message shown for this error.
    pub fn message(&self) -> (m: &'static str)
        ensures
            m@ == upload_message(*self),
    {
        match self {
            UploadError::Empty => "file is empty",
            UploadError::TooLarge => "image must be 5 MB or smaller",
            UploadError::UnsupportedFormat => "only JPEG, PNG or WebP images are allowed",
        }
    }
}

/// Checks an upload: not empty, at most 5 MB, and a JPEG, PNG or WebP by
/// content. Returns its format.
pub fn check_upload(bytes: &[u8]) -> (r: Result<ImageKind, UploadError>)
    ensures
        bytes@.len() == 0 ==> r == Err::<ImageKind, UploadError>(UploadError::Empty),
        0 < bytes@.len() <= MAX_IMAGE_BYTES ==> match sniffed(bytes@) {
            Some(k) => r == Ok::<ImageKind, UploadError>(k),
            None => r == Err::<ImageKind, UploadError>(UploadError::UnsupportedFormat),
        },
        bytes@.len() > MAX_IMAGE_BYTES ==> r == Err::<ImageKind, UploadError>(
            UploadError::TooLarge,
        ),
{
    if bytes.len() == 0 {
        return Err(UploadError::Empty);
    }
    if bytes.len() > MAX_IMAGE_BYTES {
        return Err(UploadError::TooLarge);
    }
    match ImageKind::sniff(bytes) {
        Some(k) => Ok(k),
        None => Err(UploadError::UnsupportedFormat),
    }
}

/// Storage key of an upload: `{month}/{id}.{extension}` (month as `YYYY/MM`).
pub fn object_key(month: &str, id: &str, kind: ImageKind) -> (key: String)
    ensures
        key@ == month@ + "/"@ + id@ + "."@ + extension_text(kind),
{
    let mut key = String::from_str(month);
    key.append("/");
    key.append(id);
    key.append(".");
    key.append(kind.extension());
    key
}

/// Public URL of a locally stored object: `/media/{key}`.
pub fn public_url(key: &str) -> (url: String)
    ensures
        url@ == "/media/"@ + key@,
{
    let mut url = String::from_str("/media/");
    url.append(key);
    url
}

} // verus!
