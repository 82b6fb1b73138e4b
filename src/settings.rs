use vstd::prelude::*;
use vstd::string::StringExecFns;

verus! {

/// The user's conversion settings.
pub struct Settings {
    /// `normal`, `lossless` or `hwaccel`.
    pub conversion_mode: String,
    pub open_when_finished: bool,
}

impl Default for Settings {
    /// Normal mode, opening the converted file when done.
    fn default() -> (r: Self)
        ensures
            r.conversion_mode@ == "normal"@,
            r.open_when_finished,
    {
        Settings { conversion_mode: String::from_str("normal"), open_when_finished: true }
    }
}

} // verus!
