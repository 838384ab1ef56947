use vstd::prelude::*;

verus! {

/// Settings shared by all widgets.
pub struct GlobalConfig {
    pub version: Option<String>,
    pub progress_full_character: String,
    pub progress_empty_character: String,
    pub progress_prefix: String,
    pub progress_suffix: String,
    pub progress_width: usize,
    pub time_format: String,
    pub show_legacy_warning: bool,
}

pub fn default_progress_character() -> (r: String)
    ensures
        r@ == "="@,
{
    String::from_str("=")
}

pub fn default_progress_prefix() -> (r: String)
    ensures
        r@ == "["@,
{
    String::from_str("[")
}

pub fn default_progress_suffix() -> (r: String)
    ensures
        r@ == "]"@,
{
    String::from_str("]")
}

pub fn default_progress_width() -> (r: usize)
    ensures
        r == 80,
{
    80
}

pub fn default_time_format() -> (r: String)
    ensures
        r@ == "%Y-%m-%d %H:%M:%S %Z"@,
{
    String::from_str("%Y-%m-%d %H:%M:%S %Z")
}

pub fn default_show_legacy_warning() -> (r: bool)
    ensures
        r,
{
    true
}

impl Default for GlobalConfig {
    fn default() -> (r: GlobalConfig)
        ensures
            r.version is None,
            r.progress_full_character@ == "="@,
            r.progress_empty_character@ == "="@,
            r.progress_prefix@ == "["@,
            r.progress_suffix@ == "]"@,
            r.progress_width == 80,
            r.time_format@ == "%Y-%m-%d %H:%M:%S %Z"@,
            r.show_legacy_warning,
    {
        GlobalConfig {
            version: None,
            progress_full_character: default_progress_character(),
            progress_empty_character: default_progress_character(),
            progress_prefix: default_progress_prefix(),
            progress_suffix: default_progress_suffix(),
            progress_width: default_progress_width(),
            time_format: default_time_format(),
            show_legacy_warning: default_show_legacy_warning(),
        }
    }
}

} // verus!
