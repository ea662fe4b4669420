//! The duration probe: turns what the platform layer read from the selected
//! video's structural header into its total playback length, to size the
//! progress range. Opening the file and parsing the container are the
//! platform layer's job — a container parser is free to reject hostile bytes
//! however it pleases — so it hands its outcome in as plain values, and the
//! scaling of the movie-header timing to milliseconds is verified here.

use vstd::prelude::*;

verus! {

/// A non-negative playback length, at millisecond granularity.
#[derive(Clone, Copy, Debug, PartialEq, Eq, Structural)]
pub struct MediaDuration {
    millis: u64,
}

impl MediaDuration {
    /// The length in milliseconds.
    pub closed spec fn spec_millis(&self) -> u64 {
        self.millis
    }

    pub fn from_millis(ms: u64) -> (d: MediaDuration)
        ensures
            d.spec_millis() == ms,
    {
        MediaDuration { millis: ms }
    }

    pub fn as_millis(&self) -> (ms: u64)
        ensures
            ms == self.spec_millis(),
    {
        self.millis
    }
}

/// Why a probe failed: the file could not be read at all, its header could
/// not be parsed, or it parsed but carries no usable duration metadata.
#[derive(Clone, Copy, Debug, PartialEq, Eq, Structural)]
pub enum ProbeError {
    NotFound,
    MalformedContainer,
    Unsupported,
}

/// What the platform layer's header read produced: the file was unreadable,
/// the header did not parse, a required box was missing, or the movie
/// header's timing — its duration in movie-timescale units, and the
/// timescale itself.
#[derive(Clone, Copy, Debug, PartialEq, Eq, Structural)]
pub enum HeaderRead {
    Unreadable,
    Malformed,
    MissingBox,
    Timing(u64, u32),
}

/// The total length in milliseconds that a movie-header timing denotes:
/// duration scaled from timescale units, by truncating division. Nothing
/// when the timescale is zero or the result does not fit.
pub open spec fn duration_millis(dur: u64, ts: u32) -> Option<u64> {
    if ts == 0 {
        None
    } else if (dur as int) * 1000 / (ts as int) <= u64::MAX {
        Some(((dur as int) * 1000 / (ts as int)) as u64)
    } else {
        None
    }
}

/// Probes the selected video, given what the platform layer read from its
/// structural header. An unreadable file is `NotFound`, a header that did
/// not parse is `MalformedContainer`, a missing required box is
/// `Unsupported`, and a parsed timing yields the exact duration it encodes —
/// or `Unsupported` when that timing is unusable. A failed probe is not
/// fatal to the workflow: the caller may still render, merely without a
/// progress bound.
pub fn probe_duration(header: HeaderRead) -> (r: Result<MediaDuration, ProbeError>)
    ensures
        header is Unreadable ==> r == Err::<MediaDuration, ProbeError>(ProbeError::NotFound),
        header is Malformed ==> r == Err::<MediaDuration, ProbeError>(
            ProbeError::MalformedContainer,
        ),
        header is MissingBox ==> r == Err::<MediaDuration, ProbeError>(ProbeError::Unsupported),
        header matches HeaderRead::Timing(dur, ts) ==> match duration_millis(dur, ts) {
            Some(ms) => r matches Ok(d) && d.spec_millis() == ms,
            None => r == Err::<MediaDuration, ProbeError>(ProbeError::Unsupported),
        },
{
    match header {
        HeaderRead::Unreadable => Err(ProbeError::NotFound),
        HeaderRead::Malformed => Err(ProbeError::MalformedContainer),
        HeaderRead::MissingBox => Err(ProbeError::Unsupported),
        HeaderRead::Timing(dur, ts) => {
            if ts == 0 {
                Err(ProbeError::Unsupported)
            } else {
                let wide: u128 = (dur as u128) * 1000 / (ts as u128);
                if wide > u64::MAX as u128 {
                    Err(ProbeError::Unsupported)
                } else {
                    Ok(MediaDuration::from_millis(wide as u64))
                }
            }
        },
    }
}

} // verus!
