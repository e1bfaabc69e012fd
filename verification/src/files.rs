//! File-format selection by path extension.
//!
//! Loading and saving pick their codec from the path's extension,
//! written without a leading dot and case-sensitively.  An extension
//! outside the table below has no format; the caller treats that as
//! a fatal error.

use vstd::prelude::*;

verus! {

/// The image file formats the engine accepts.
#[derive(Clone, Copy, PartialEq, Eq, Structural, Debug)]
pub enum FileFormat {
    Png,
    Jpeg,
    Gif,
    WebP,
    Pnm,
    Tiff,
    Tga,
    Bmp,
    Ico,
    Hdr,
}

/// The format an extension selects, over the extension's bytes:
/// `png`, `jpg`, `jpeg`, `gif`, `webp`, `pnm`, `tiff`, `tga`, `bmp`,
/// `ico` and `hdr`, exactly and case-sensitively.
pub open spec fn format_of(ext: Seq<u8>) -> Option<FileFormat> {
    if ext.len() == 3 {
        if ext[0] == 112 && ext[1] == 110 && ext[2] == 103 {  // png
            Some(FileFormat::Png)
        } else if ext[0] == 106 && ext[1] == 112 && ext[2] == 103 {  // jpg
            Some(FileFormat::Jpeg)
        } else if ext[0] == 103 && ext[1] == 105 && ext[2] == 102 {  // gif
            Some(FileFormat::Gif)
        } else if ext[0] == 112 && ext[1] == 110 && ext[2] == 109 {  // pnm
            Some(FileFormat::Pnm)
        } else if ext[0] == 116 && ext[1] == 103 && ext[2] == 97 {  // tga
            Some(FileFormat::Tga)
        } else if ext[0] == 98 && ext[1] == 109 && ext[2] == 112 {  // bmp
            Some(FileFormat::Bmp)
        } else if ext[0] == 105 && ext[1] == 99 && ext[2] == 111 {  // ico
            Some(FileFormat::Ico)
        } else if ext[0] == 104 && ext[1] == 100 && ext[2] == 114 {  // hdr
            Some(FileFormat::Hdr)
        } else {
            None
        }
    } else if ext.len() == 4 {
        if ext[0] == 106 && ext[1] == 112 && ext[2] == 101 && ext[3] == 103 {  // jpeg
            Some(FileFormat::Jpeg)
        } else if ext[0] == 119 && ext[1] == 101 && ext[2] == 98 && ext[3] == 112 {  // webp
            Some(FileFormat::WebP)
        } else if ext[0] == 116 && ext[1] == 105 && ext[2] == 102 && ext[3] == 102 {  // tiff
            Some(FileFormat::Tiff)
        } else {
            None
        }
    } else {
        None
    }
}

/// Selects the decoder or encoder a path extension names; `None`
/// exactly when the extension is unknown.
pub fn format_for_extension(ext: &[u8]) -> (r: Option<FileFormat>)
    ensures
        r == format_of(ext@),
{
    let n = ext.len();
    if n == 3 {
        let a = ext[0];
        let b = ext[1];
        let c = ext[2];
        if a == 112 && b == 110 && c == 103 {
            Some(FileFormat::Png)
        } else if a == 106 && b == 112 && c == 103 {
            Some(FileFormat::Jpeg)
        } else if a == 103 && b == 105 && c == 102 {
            Some(FileFormat::Gif)
        } else if a == 112 && b == 110 && c == 109 {
            Some(FileFormat::Pnm)
        } else if a == 116 && b == 103 && c == 97 {
            Some(FileFormat::Tga)
        } else if a == 98 && b == 109 && c == 112 {
            Some(FileFormat::Bmp)
        } else if a == 105 && b == 99 && c == 111 {
            Some(FileFormat::Ico)
        } else if a == 104 && b == 100 && c == 114 {
            Some(FileFormat::Hdr)
        } else {
            None
        }
    } else if n == 4 {
        let a = ext[0];
        let b = ext[1];
        let c = ext[2];
        let d = ext[3];
        if a == 106 && b == 112 && c == 101 && d == 103 {
            Some(FileFormat::Jpeg)
        } else if a == 119 && b == 101 && c == 98 && d == 112 {
            Some(FileFormat::WebP)
        } else if a == 116 && b == 105 && c == 102 && d == 102 {
            Some(FileFormat::Tiff)
        } else {
            None
        }
    } else {
        None
    }
}

} // verus!
