//! The resolved configuration a sort run receives: the two library roots,
//! the source root, and the naming template. Loading and saving it is the
//! surrounding application's business.

use vstd::prelude::*;

verus! {

/// A fully-resolved configuration. Immutable for the duration of a run.
#[derive(Debug, Clone, PartialEq, Eq)]
pub struct Config {
    pub library_path: String,
    pub audiobook_library_path: String,
    pub input_path: String,
    pub format_template: String,
}

impl Default for Config {
    /// The built-in defaults used when no configuration file is readable.
    fn default() -> (c: Self)
        ensures
            c.library_path@ == "/tmp/library"@,
            c.input_path@ == "/tmp/input"@,
            c.format_template@ == "{author}/{title}.{ext}"@,
            c.audiobook_library_path@ == "/tmp/audiobook_library"@,
    {
        Config {
            library_path: "/tmp/library".to_owned(),
            input_path: "/tmp/input".to_owned(),
            format_template: "{author}/{title}.{ext}".to_owned(),
            audiobook_library_path: "/tmp/audiobook_library".to_owned(),
        }
    }
}

/// Copy mode is refused when the input path is the library path itself:
/// every copy would land on its own source.
pub fn copy_conflict(config: &Config, copy_mode: bool) -> (b: bool)
    ensures
        b == (copy_mode && config.input_path@ == config.library_path@),
{
    copy_mode && config.input_path == config.library_path
}

} // verus!
