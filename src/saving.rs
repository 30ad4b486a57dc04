//! Naming the file a screenshot is saved to.
use vstd::prelude::*;
use vstd::string::StringExecFns;
use crate::screenshot::ScreenShotError;

verus! {

/// Image formats a screenshot may be asked to be saved in.
#[derive(Clone, Copy, Debug, PartialEq, Eq, Structural)]
pub enum SaveFormat {
    Png,
    Jpeg,
    Gif,
    Bmp,
    Tiff,
    WebP,
    /// Any other format.
    Other,
}

/// The file extension of a format screenshots are saved in; the others have none.
pub open spec fn extension_spec(format: SaveFormat) -> Option<Seq<char>> {
    match format {
        SaveFormat::Png => Some("png"@),
        SaveFormat::Jpeg => Some("jpg"@),
        SaveFormat::Gif => Some("gif"@),
        _ => None,
    }
}

/// The file extension for `format`, if screenshots are saved in it.
pub fn extension(format: SaveFormat) -> (r: Option<&'static str>)
    ensures
        r.is_some() == extension_spec(format).is_some(),
        r matches Some(e) ==> Some(e@) == extension_spec(format),
{
    match format {
        SaveFormat::Png => Some("png"),
        SaveFormat::Jpeg => Some("jpg"),
        SaveFormat::Gif => Some("gif"),
        _ => None,
    }
}

/// The name of the file a screenshot is saved to: `screenshot-` followed by the time
/// stamp `stamp` and the format's extension, so that two saves never share a name. The
/// folder must be a directory (the caller says whether it is), else `PathError`; a
/// format other than PNG, JPEG and GIF is an `ExtensionError`.
pub fn save_file_name(path_is_dir: bool, stamp: &str, format: SaveFormat) -> (r: Result<String, ScreenShotError>)
    ensures
        !path_is_dir ==> (r matches Err(e) && e == ScreenShotError::PathError),
        path_is_dir && extension_spec(format).is_none() ==> (r matches Err(e) && e == ScreenShotError::ExtensionError),
        path_is_dir && extension_spec(format).is_some() ==> (r matches Ok(name) && name@ == "screenshot-"@ + stamp@ + "."@
            + extension_spec(format).unwrap()),
{
    if !path_is_dir {
        return Err(ScreenShotError::PathError);
    }
    match extension(format) {
        Some(ext) => {
            let name = String::from_str("screenshot-").concat(stamp).concat(".").concat(ext);
            Ok(name)
        },
        None => Err(ScreenShotError::ExtensionError),
    }
}

} // verus!
