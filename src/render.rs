use vstd::prelude::*;

use crate::constants::INDENT_WIDTH;
use crate::delta::{round_elapsed_secs, shown_secs, PreparedCgStats};

verus! {

/// The text that humantime gives for a duration of `secs` seconds.
pub uninterp spec fn duration_text(secs: u64) -> Seq<char>;

/// Relies on `humantime::format_duration` and its `Display`: the text
/// depends on the duration alone, and a zero duration reads `0s`.
#[verifier::external_body]
fn format_secs(secs: u64) -> (r: String)
    ensures
        r@ == duration_text(secs),
        secs == 0 ==> r@ == "0s"@,
{
    humantime::format_duration(std::time::Duration::from_secs(secs)).to_string()
}

/// Columns that a listing with names of up to `max_name_width` characters
/// needs: indent, name, percentage (`100%`), bar (`[=========]`) and two
/// spaces.
pub open spec fn min_width_for(max_name_width: nat) -> nat {
    (INDENT_WIDTH + max_name_width + 4 + 11 + 2) as nat
}

/// `min_width_for`, or the largest `usize` where that does not fit.
pub open spec fn min_width_of(max_name_width: usize) -> usize {
    if min_width_for(max_name_width as nat) <= usize::MAX {
        min_width_for(max_name_width as nat) as usize
    } else {
        usize::MAX
    }
}

/// See `min_width_of`.
pub fn min_width(max_name_width: usize) -> (r: usize)
    ensures
        r == min_width_of(max_name_width),
{
    if max_name_width > usize::MAX - 19 {
        usize::MAX
    } else {
        INDENT_WIDTH + max_name_width + 4 + 11 + 2
    }
}

impl PreparedCgStats {
    /// Whole seconds elapsed between the two snapshots.
    pub fn elapsed_secs(&self) -> (r: u64)
        ensures
            r == self.elapsed_usec / 1_000_000,
    {
        self.elapsed_usec / 1_000_000
    }

    /// The elapsed time as shown: rounded (see `shown_secs`), in humantime's
    /// words.
    pub fn elapsed_text(&self) -> (r: String)
        ensures
            r@ == duration_text(shown_secs((self.elapsed_usec / 1_000_000) as nat) as u64),
    {
        format_secs(round_elapsed_secs(self.elapsed_secs()))
    }

    /// Whether nothing is listed.
    pub fn is_idle(&self) -> (r: bool)
        ensures
            r == (self.users@.len() == 0 && self.services@.len() == 0),
    {
        self.users.len() == 0 && self.services.len() == 0
    }

    /// Columns left for the bars in a listing `width` columns wide (else
    /// `progress_width` less the indent), after indent, name, one space and
    /// the percentage; none where nothing is left.
    pub fn bar_width(&self, width: Option<usize>, progress_width: usize) -> (r: Option<usize>)
        ensures
            ({
                let w: int = match width {
                    Some(w) => w as int,
                    None => progress_width - INDENT_WIDTH,
                };
                let b: int = w - INDENT_WIDTH - self.max_name_width - 1 - 5;
                &&& (width is None && progress_width < INDENT_WIDTH) || b < 0 ==> r is None
                &&& !((width is None && progress_width < INDENT_WIDTH) || b < 0) ==> r == Some(
                    b as usize,
                )
            }),
    {
        let w = match width {
            Some(w) => w,
            None => {
                if progress_width < INDENT_WIDTH {
                    return None;
                }
                progress_width - INDENT_WIDTH
            },
        };
        if w < INDENT_WIDTH {
            return None;
        }
        let w = w - INDENT_WIDTH;
        if w < self.max_name_width {
            return None;
        }
        let w = w - self.max_name_width;
        if w < 6 {
            return None;
        }
        Some(w - 6)
    }
}

} // verus!
