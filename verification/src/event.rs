//! Structured log events produced by the log-line parser.
//!
//! A `LogEvent` is immutable once constructed and carries an optional
//! progress percentage and transfer speed.  Progress is held exactly, as an
//! integer part plus the fractional digits that were read from the tool's
//! output, so that thresholds and display values are defined without
//! floating point.

use vstd::prelude::*;
use crate::text::{
    all_digits, dec_rep, digit_val, push_dec_u64, extend_chars, extend_str, string_from_chars,
};

verus! {

/// Severity of a log event.
#[derive(Clone, Copy, Debug, PartialEq, Eq, Structural)]
pub enum LogLevel {
    Info,
    Warn,
    Error,
}

/// An exact decimal percentage: integer part plus fractional digits.
///
/// `units` saturates at `u64::MAX` when a line carries an absurdly large
/// number; `frac` holds the digits after the decimal point, possibly empty,
/// exactly as they were read.
#[derive(Clone, Debug)]
pub struct Progress {
    pub units: u64,
    pub frac: Vec<char>,
}

/// One structured event: severity, display message, optional progress and
/// speed, and the timestamp at which the line was read.
#[derive(Clone, Debug)]
pub struct LogEvent {
    pub level: LogLevel,
    pub message: String,
    pub progress: Option<Progress>,
    pub speed: Option<String>,
    pub timestamp: String,
}

/// Mathematical image of a `Progress`.
pub struct ProgressModel {
    pub units: u64,
    pub frac: Seq<char>,
}

/// Mathematical image of a `LogEvent`, without the timestamp: the tuple
/// that de-duplication and the wire codec care about.
pub struct EventModel {
    pub level: LogLevel,
    pub message: Seq<char>,
    pub progress: Option<ProgressModel>,
    pub speed: Option<Seq<char>>,
}

impl Progress {
    pub open spec fn model(&self) -> ProgressModel {
        ProgressModel { units: self.units, frac: self.frac@ }
    }

    /// The fractional part holds decimal digits only.
    pub open spec fn wf(&self) -> bool {
        all_digits(self.frac@)
    }
}

pub open spec fn progress_model_wf(p: ProgressModel) -> bool {
    all_digits(p.frac)
}

pub open spec fn event_model_wf(m: EventModel) -> bool {
    match m.progress {
        Some(p) => progress_model_wf(p),
        None => true,
    }
}

impl LogEvent {
    pub open spec fn model(&self) -> EventModel {
        EventModel {
            level: self.level,
            message: self.message@,
            progress: match self.progress {
                Some(p) => Some(p.model()),
                None => None,
            },
            speed: match self.speed {
                Some(s) => Some(s@),
                None => None,
            },
        }
    }

    pub open spec fn wf(&self) -> bool {
        event_model_wf(self.model())
    }
}

/// Text form of a progress value: the integer part, then `.` and the
/// fractional digits when there are any.
pub open spec fn progress_chars(p: ProgressModel) -> Seq<char> {
    if p.frac.len() == 0 {
        dec_rep(p.units as nat)
    } else {
        dec_rep(p.units as nat) + seq!['.'] + p.frac
    }
}

/// Appends the text form of `p` to `out`.
pub fn push_progress(out: &mut Vec<char>, p: &Progress)
    ensures
        final(out)@ == old(out)@ + progress_chars(p.model()),
{
    push_dec_u64(out, p.units);
    if p.frac.len() > 0 {
        out.push('.');
        extend_chars(out, &p.frac);
        assert(out@ =~= old(out)@ + progress_chars(p.model()));
    }
}

/// The de-duplication key of an event: its message, a colon, and the text
/// form of its progress (`-` when it has none).  Two successive events with
/// the same key are the same signal and the second is suppressed.
pub open spec fn dedup_key(m: EventModel) -> Seq<char> {
    m.message + seq![':'] + (match m.progress {
        Some(p) => progress_chars(p),
        None => seq!['-'],
    })
}

/// Computes the de-duplication key of an event.
pub fn event_key(e: &LogEvent) -> (r: String)
    ensures
        r@ == dedup_key(e.model()),
{
    let mut out: Vec<char> = Vec::new();
    extend_str(&mut out, e.message.as_str());
    out.push(':');
    match &e.progress {
        Some(p) => {
            push_progress(&mut out, p);
        },
        None => {
            out.push('-');
        },
    }
    assert(out@ =~= dedup_key(e.model()));
    string_from_chars(&out)
}

/// Compares the fractional part `0.frac` against one half:
/// negative result below, zero at exactly one half, positive above.
pub open spec fn frac_half_cmp(frac: Seq<char>) -> int {
    if frac.len() == 0 {
        -1
    } else if digit_val(frac[0]) > 5 {
        1
    } else if digit_val(frac[0]) < 5 {
        -1
    } else if exists|i: int| 1 <= i < frac.len() && frac[i] != '0' {
        1
    } else {
        0
    }
}

/// Whether rounding `p` to a whole number goes up, under round-half-to-even.
pub open spec fn rounds_up(p: ProgressModel) -> bool {
    frac_half_cmp(p.frac) == 1 || (frac_half_cmp(p.frac) == 0 && p.units % 2 == 1)
}

/// `p` rounded to a whole number, half to even, saturating at `u64::MAX`.
pub open spec fn rounded_units(p: ProgressModel) -> u64 {
    if rounds_up(p) {
        if p.units == u64::MAX {
            u64::MAX
        } else {
            (p.units + 1) as u64
        }
    } else {
        p.units
    }
}

/// Rounds a progress value to a whole number, half to even.
pub fn round_progress(p: &Progress) -> (r: u64)
    requires
        p.wf(),
    ensures
        r == rounded_units(p.model()),
{
    let up: bool;
    if p.frac.len() == 0 {
        up = false;
    } else {
        let d0 = p.frac[0];
        if d0 > '5' {
            up = true;
        } else if '5' > d0 {
            up = false;
        } else {
            let mut rest_nonzero: bool = false;
            let mut i: usize = 1;
            while i < p.frac.len()
                invariant
                    1 <= i <= p.frac@.len(),
                    rest_nonzero == exists|j: int| 1 <= j < i && p.frac@[j] != '0',
                decreases p.frac@.len() - i,
            {
                if p.frac[i] != '0' {
                    rest_nonzero = true;
                }
                i = i + 1;
            }
            if rest_nonzero {
                up = true;
            } else {
                up = p.units % 2 == 1;
            }
        }
        proof {
            if d0 > '5' {
                assert(digit_val(p.frac@[0]) > 5);
            }
            if '5' > d0 {
                assert(digit_val(p.frac@[0]) < 5);
            }
        }
    }
    if up {
        if p.units == u64::MAX {
            u64::MAX
        } else {
            p.units + 1
        }
    } else {
        p.units
    }
}

} // verus!
