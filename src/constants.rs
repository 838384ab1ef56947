use vstd::prelude::*;

verus! {

/// Columns by which nested lines are indented.
pub const INDENT_WIDTH: usize = 2;

/// How progress bars are drawn.
pub struct GlobalSettings {
    pub progress_full_character: char,
    pub progress_empty_character: char,
    pub progress_prefix: String,
    pub progress_suffix: String,
}

pub fn default_progress_character() -> (r: char)
    ensures
        r == '=',
{
    '='
}

pub fn default_progress_prefix() -> (r: String)
    ensures
        r@ == "["@,
{
    String::from_str("[")
}

pub fn default_progress_suffix() -> (r: String)
    ensures
        r@ == "]"@,
{
    String::from_str("]")
}

impl Default for GlobalSettings {
    fn default() -> (r: GlobalSettings)
        ensures
            r.progress_full_character == '=',
            r.progress_empty_character == '=',
            r.progress_prefix@ == "["@,
            r.progress_suffix@ == "]"@,
    {
        GlobalSettings {
            progress_full_character: default_progress_character(),
            progress_empty_character: default_progress_character(),
            progress_prefix: default_progress_prefix(),
            progress_suffix: default_progress_suffix(),
        }
    }
}

} // verus!
