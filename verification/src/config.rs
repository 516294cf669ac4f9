//! Settings of a capture session and their defaults.

use vstd::prelude::*;
use vstd::string::*;

verus! {

/// Style defaults for the annotation tools.
///
/// Stroke widths and font sizes are whole units; the colour is a hex string
/// such as `#ff0000`.
#[derive(Debug, Clone)]
pub struct AnnotationConfig {
    pub default_color: String,
    pub line_width: u32,
    pub font_size: u32,
    pub blur_block_size: u32,
    pub jpeg_quality: u8,
}

/// What happens around a capture.
#[derive(Debug, Clone)]
pub struct BehaviorConfig {
    pub open_editor: bool,
    pub copy_to_clipboard: bool,
    pub show_notification: bool,
    pub default_action: String,
}

/// The whole configuration.
#[derive(Debug, Clone)]
pub struct Config {
    pub save_dir: String,
    pub filename_template: String,
    pub export_format: String,
    pub annotation: AnnotationConfig,
    pub behavior: BehaviorConfig,
}

/// The export format used when a configuration names none.
pub fn default_export_format() -> (format: String)
    ensures
        format@ == "png"@,
{
    "png".to_owned()
}

/// The JPEG quality used when a configuration names none.
pub fn default_jpeg_quality() -> (quality: u8)
    ensures
        quality == 90,
{
    90
}

impl Config {
    /// Whether `self` holds exactly the built-in defaults.
    pub open spec fn is_default(&self) -> bool {
        &&& self.save_dir@ == "~/Pictures/Screenshots"@
        &&& self.filename_template@ == "Screenshot_%Y-%m-%d_%H-%M-%S"@
        &&& self.export_format@ == "png"@
        &&& self.annotation.default_color@ == "#ff0000"@
        &&& self.annotation.line_width == 3
        &&& self.annotation.font_size == 16
        &&& self.annotation.blur_block_size == 10
        &&& self.annotation.jpeg_quality == 90
        &&& self.behavior.open_editor
        &&& self.behavior.copy_to_clipboard
        &&& self.behavior.show_notification
        &&& self.behavior.default_action@ == "tray"@
    }
}

impl Default for Config {
    fn default() -> (config: Self)
        ensures
            config.is_default(),
    {
        Config {
            save_dir: "~/Pictures/Screenshots".to_owned(),
            filename_template: "Screenshot_%Y-%m-%d_%H-%M-%S".to_owned(),
            export_format: default_export_format(),
            annotation: AnnotationConfig {
                default_color: "#ff0000".to_owned(),
                line_width: 3,
                font_size: 16,
                blur_block_size: 10,
                jpeg_quality: default_jpeg_quality(),
            },
            behavior: BehaviorConfig {
                open_editor: true,
                copy_to_clipboard: true,
                show_notification: true,
                default_action: "tray".to_owned(),
            },
        }
    }
}

/// The lower-case form of a text.
pub uninterp spec fn lowercased(text: Seq<char>) -> Seq<char>;

/// The lower-case form of `text`.
///
/// Stands for `str::to_lowercase` of the standard library. Its result
/// follows the Unicode tables and depends on the text alone; the contract
/// only gives it a name.
#[verifier::external_body]
fn to_lowercase(text: &str) -> (lower: String)
    ensures
        lower@ == lowercased(text@),
{
    text.to_lowercase()
}

/// The file extension for an export format written in lower case: `jpg`
/// for `jpg` and `jpeg`, `png` for anything else.
pub open spec fn extension_of(lowered: Seq<char>) -> Seq<char> {
    if lowered == "jpg"@ || lowered == "jpeg"@ {
        "jpg"@
    } else {
        "png"@
    }
}

/// The file extension for an export format that is already in lower case.
pub fn extension_for(lowered: &str) -> (extension: &'static str)
    ensures
        extension@ == extension_of(lowered@),
{
    let given: String = lowered.to_owned();
    if given == "jpg".to_owned() || given == "jpeg".to_owned() {
        "jpg"
    } else {
        "png"
    }
}

impl Config {
    /// The file extension to export with, whatever the case the format is
    /// written in.
    pub fn export_extension(&self) -> (extension: &'static str)
        ensures
            extension@ == extension_of(lowercased(self.export_format@)),
    {
        let lowered = to_lowercase(self.export_format.as_str());
        extension_for(lowered.as_str())
    }

    /// The part of the save directory that is to be taken below the home
    /// directory: what follows a leading `~/`, if the directory starts so.
    pub fn save_dir_below_home(&self) -> (rest: Option<&str>)
        ensures
            rest is Some <==> self.save_dir@.len() >= 2 && self.save_dir@[0] == '~'
                && self.save_dir@[1] == '/',
            rest matches Some(r) ==> r@ == self.save_dir@.skip(2),
    {
        let dir = self.save_dir.as_str();
        let len: usize = dir.unicode_len();
        if len >= 2 && dir.get_char(0) == '~' && dir.get_char(1) == '/' {
            Some(dir.substring_char(2, len))
        } else {
            None
        }
    }
}

} // verus!
