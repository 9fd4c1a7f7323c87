//! Admission rule for analysing an audio file: a decoded clip must last at
//! least two seconds (fewer beats are not worth measuring) and at most ten
//! minutes (so a misclicked multi-hour file does not stall the app).

use vstd::prelude::*;

verus! {

/// Shortest clip accepted, in seconds.
pub const MIN_DURATION_S: u64 = 2;

/// Longest clip accepted, in seconds.
pub const MAX_DURATION_S: u64 = 600;

/// How a decoded clip's length compares with the accepted range.
#[derive(Debug, Clone, Copy, PartialEq, Eq, Structural)]
pub enum ClipLength {
    TooShort,
    TooLong,
    Acceptable,
}

/// The verdict for `n_samples` samples at `sample_rate` (a rate of 0 is
/// counted as 1): the duration `n_samples / rate` is compared exactly with
/// 2 s and 600 s.
pub open spec fn clip_length_spec(n_samples: nat, sample_rate: nat) -> ClipLength {
    let rate: nat = if sample_rate == 0 {
        1
    } else {
        sample_rate
    };
    if n_samples < MIN_DURATION_S * rate {
        ClipLength::TooShort
    } else if n_samples > MAX_DURATION_S * rate {
        ClipLength::TooLong
    } else {
        ClipLength::Acceptable
    }
}

/// Judge whether a decoded clip is long enough, and short enough, to analyse.
pub fn check_clip_length(n_samples: usize, sample_rate: u32) -> (r: ClipLength)
    ensures
        r == clip_length_spec(n_samples as nat, sample_rate as nat),
{
    let rate: u64 = if sample_rate == 0 {
        1
    } else {
        sample_rate as u64
    };
    let n: u64 = n_samples as u64;
    if n < MIN_DURATION_S * rate {
        ClipLength::TooShort
    } else if n > MAX_DURATION_S * rate {
        ClipLength::TooLong
    } else {
        ClipLength::Acceptable
    }
}

} // verus!
