//! The wire form of a log event, used to hand structured events across
//! the boundary to the event sink.
//!
//! One event becomes one line: the level tag, the progress value, and
//! length-prefixed speed, timestamp and message fields, separated by
//! bars.  Decoding is exact, and decoding an encoded event returns the
//! identical `(level, message, progress, speed)` tuple (and timestamp).

use vstd::prelude::*;
use crate::text::{
    all_digits, chars_vec, dec_rep, digits_val, extend_str, is_digit_char, lemma_dec_rep_digits,
    matches_at, push_dec_u64, slice_chars, starts_with_seq, string_from_chars,
};
use crate::event::{
    progress_chars, push_progress, EventModel, LogEvent, LogLevel, Progress, ProgressModel,
};

verus! {

/// The level tag of the wire form.
pub open spec fn level_chars(l: LogLevel) -> Seq<char> {
    match l {
        LogLevel::Info => "INFO"@,
        LogLevel::Warn => "WARN"@,
        LogLevel::Error => "ERROR"@,
    }
}

/// A length-prefixed field: the length in decimal, a colon, the text.
pub open spec fn enc_lp(s: Seq<char>) -> Seq<char> {
    dec_rep(s.len()) + seq![':'] + s
}

/// An optional length-prefixed field; `-` stands for absent.
pub open spec fn enc_opt_lp(s: Option<Seq<char>>) -> Seq<char> {
    match s {
        None => seq!['-'],
        Some(x) => enc_lp(x),
    }
}

/// The progress field: `-` for absent, else the exact decimal value.
pub open spec fn enc_prog(p: Option<ProgressModel>) -> Seq<char> {
    match p {
        None => seq!['-'],
        Some(pm) => progress_chars(pm),
    }
}

/// The whole wire line of an event.
pub open spec fn encode_event_model(m: EventModel, ts: Seq<char>) -> Seq<char> {
    level_chars(m.level) + seq!['|'] + enc_prog(m.progress) + seq!['|'] + enc_opt_lp(m.speed)
        + seq!['|'] + enc_lp(ts) + seq!['|'] + enc_lp(m.message)
}

/// First position at or after `i` that is past the run of decimal digits
/// starting at `i`.
pub open spec fn digit_run_end(s: Seq<char>, i: int) -> int
    decreases s.len() - i,
{
    if 0 <= i < s.len() && is_digit_char(s[i]) {
        digit_run_end(s, i + 1)
    } else {
        i
    }
}

/// Parses the level tag and its bar.
pub open spec fn p_level(s: Seq<char>) -> Option<(LogLevel, int)> {
    if starts_with_seq(s, "INFO|"@) {
        Some((LogLevel::Info, 5))
    } else if starts_with_seq(s, "WARN|"@) {
        Some((LogLevel::Warn, 5))
    } else if starts_with_seq(s, "ERROR|"@) {
        Some((LogLevel::Error, 6))
    } else {
        None
    }
}

/// Parses a bar separator.
pub open spec fn p_bar(s: Seq<char>, i: int) -> Option<int> {
    if 0 <= i < s.len() && s[i] == '|' {
        Some(i + 1)
    } else {
        None
    }
}

/// Parses a length-prefixed field.
pub open spec fn p_lp(s: Seq<char>, i: int) -> Option<(Seq<char>, int)> {
    let j = digit_run_end(s, i);
    if j == i {
        None
    } else {
        let n = digits_val(s.subrange(i, j));
        if j < s.len() && s[j] == ':' && j + 1 + n <= s.len() {
            Some((s.subrange(j + 1, j + 1 + n), j + 1 + n))
        } else {
            None
        }
    }
}

/// Parses an optional length-prefixed field.
pub open spec fn p_opt_lp(s: Seq<char>, i: int) -> Option<(Option<Seq<char>>, int)> {
    if 0 <= i < s.len() && s[i] == '-' {
        Some((None, i + 1))
    } else {
        match p_lp(s, i) {
            Some((x, j)) => Some((Some(x), j)),
            None => None,
        }
    }
}

/// Parses the progress field.
pub open spec fn p_prog(s: Seq<char>, i: int) -> Option<(Option<ProgressModel>, int)> {
    if 0 <= i < s.len() && s[i] == '-' {
        Some((None, i + 1))
    } else {
        let j = digit_run_end(s, i);
        if j == i {
            None
        } else {
            let units = digits_val(s.subrange(i, j));
            if units > u64::MAX {
                None
            } else if j < s.len() && s[j] == '.' {
                let k = digit_run_end(s, j + 1);
                if k == j + 1 {
                    None
                } else {
                    Some(
                        (
                            Some(
                                ProgressModel {
                                    units: units as u64,
                                    frac: s.subrange(j + 1, k),
                                },
                            ),
                            k,
                        ),
                    )
                }
            } else {
                Some((Some(ProgressModel { units: units as u64, frac: Seq::empty() }), j))
            }
        }
    }
}

/// The event and timestamp a wire line denotes, when it is well formed
/// and nothing trails it.
pub open spec fn decode_event_model(s: Seq<char>) -> Option<(EventModel, Seq<char>)> {
    match p_level(s) {
        None => None,
        Some((level, i1)) => match p_prog(s, i1) {
            None => None,
            Some((progress, i2)) => match p_bar(s, i2) {
                None => None,
                Some(i3) => match p_opt_lp(s, i3) {
                    None => None,
                    Some((speed, i4)) => match p_bar(s, i4) {
                        None => None,
                        Some(i5) => match p_lp(s, i5) {
                            None => None,
                            Some((ts, i6)) => match p_bar(s, i6) {
                                None => None,
                                Some(i7) => match p_lp(s, i7) {
                                    None => None,
                                    Some((msg, i8)) => {
                                        if i8 == s.len() {
                                            Some(
                                                (
                                                    EventModel {
                                                        level,
                                                        message: msg,
                                                        progress,
                                                        speed,
                                                    },
                                                    ts,
                                                ),
                                            )
                                        } else {
                                            None
                                        }
                                    },
                                },
                            },
                        },
                    },
                },
            },
        },
    }
}

/// Renders an event onto the wire.
pub fn encode_event(e: &LogEvent) -> (r: String)
    ensures
        r@ == encode_event_model(e.model(), e.timestamp@),
{
    let mut v: Vec<char> = Vec::new();
    match e.level {
        LogLevel::Info => extend_str(&mut v, "INFO"),
        LogLevel::Warn => extend_str(&mut v, "WARN"),
        LogLevel::Error => extend_str(&mut v, "ERROR"),
    }
    v.push('|');
    match &e.progress {
        None => v.push('-'),
        Some(p) => push_progress(&mut v, p),
    }
    v.push('|');
    match &e.speed {
        None => v.push('-'),
        Some(s) => push_lp(&mut v, s.as_str()),
    }
    v.push('|');
    push_lp(&mut v, e.timestamp.as_str());
    v.push('|');
    push_lp(&mut v, e.message.as_str());
    assert(v@ =~= encode_event_model(e.model(), e.timestamp@));
    string_from_chars(&v)
}

fn push_lp(out: &mut Vec<char>, s: &str)
    ensures
        final(out)@ == old(out)@ + enc_lp(s@),
{
    let n = s.unicode_len();
    push_dec_u64(out, n as u64);
    out.push(':');
    extend_str(out, s);
    assert(out@ =~= old(out)@ + enc_lp(s@));
}

proof fn lemma_digit_run_end_is(s: Seq<char>, i: int, j: int)
    requires
        0 <= i <= j <= s.len(),
        forall|k: int| i <= k < j ==> is_digit_char(s[k]),
        j < s.len() ==> !is_digit_char(s[j]),
    ensures
        digit_run_end(s, i) == j,
    decreases j - i,
{
    if i < j {
        lemma_digit_run_end_is(s, i + 1, j);
    }
}

fn digit_run(v: &Vec<char>, i: usize) -> (j: usize)
    requires
        i <= v@.len(),
    ensures
        i <= j <= v@.len(),
        forall|k: int| i <= k < j ==> is_digit_char(v@[k]),
        digit_run_end(v@, i as int) == j,
{
    let mut j: usize = i;
    while j < v.len() && crate::text::is_digit(v[j])
        invariant
            i <= j <= v@.len(),
            forall|k: int| i <= k < j ==> is_digit_char(v@[k]),
        decreases v@.len() - j,
    {
        j = j + 1;
    }
    proof {
        lemma_digit_run_end_is(v@, i as int, j as int);
    }
    j
}

fn p_lp_exec(v: &Vec<char>, i: usize) -> (r: Option<(Vec<char>, usize)>)
    requires
        i <= v@.len(),
    ensures
        match (r, p_lp(v@, i as int)) {
            (Some((x, j)), Some((sx, sj))) => x@ == sx && j == sj && i <= j <= v@.len(),
            (None, None) => true,
            _ => false,
        },
{
    let j = digit_run(v, i);
    if j == i {
        return None;
    }
    if !(j < v.len()) {
        return None;
    }
    if v[j] != ':' {
        return None;
    }
    match crate::text::parse_digits_checked(v, i, j) {
        None => {
            // A length above `u64::MAX` cannot fit in the line either.
            assert(digits_val(v@.subrange(i as int, j as int)) + j + 1 > v@.len());
            None
        },
        Some(n) => {
            let rem = (v.len() - j - 1) as u64;
            if n <= rem {
                let x = slice_chars(v, j + 1, j + 1 + (n as usize));
                Some((x, j + 1 + (n as usize)))
            } else {
                None
            }
        },
    }
}

fn p_prog_exec(v: &Vec<char>, i: usize) -> (r: Option<(Option<Progress>, usize)>)
    requires
        i <= v@.len(),
    ensures
        match (r, p_prog(v@, i as int)) {
            (Some((p, j)), Some((sp, sj))) => j == sj && i <= j <= v@.len() && (match (p, sp) {
                (Some(pv), Some(pm)) => pv.model() == pm && pv.wf(),
                (None, None) => true,
                _ => false,
            }),
            (None, None) => true,
            _ => false,
        },
{
    if i < v.len() && v[i] == '-' {
        return Some((None, i + 1));
    }
    let j = digit_run(v, i);
    if j == i {
        return None;
    }
    let units = match crate::text::parse_digits_checked(v, i, j) {
        None => {
            return None;
        },
        Some(u) => u,
    };
    if j < v.len() && v[j] == '.' {
        let k = digit_run(v, j + 1);
        if k == j + 1 {
            None
        } else {
            let frac = slice_chars(v, j + 1, k);
            Some((Some(Progress { units, frac }), k))
        }
    } else {
        Some((Some(Progress { units, frac: Vec::new() }), j))
    }
}

/// Reads an event (and its timestamp) back off the wire; `None` for any
/// line the encoder cannot have produced.
pub fn decode_event(line: &str) -> (r: Option<LogEvent>)
    ensures
        match (r, decode_event_model(line@)) {
            (Some(e), Some((m, ts))) => e.model() == m && e.timestamp@ == ts && e.wf(),
            (None, None) => true,
            _ => false,
        },
{
    let v = chars_vec(line);
    let (level, i1): (LogLevel, usize) = if matches_at(&v, "INFO|", 0) {
        (LogLevel::Info, 5)
    } else if matches_at(&v, "WARN|", 0) {
        (LogLevel::Warn, 5)
    } else if matches_at(&v, "ERROR|", 0) {
        (LogLevel::Error, 6)
    } else {
        return None;
    };
    proof {
        reveal_strlit("INFO|");
        reveal_strlit("WARN|");
        reveal_strlit("ERROR|");
    }
    let (progress, i2) = match p_prog_exec(&v, i1) {
        Some(pj) => pj,
        None => {
            return None;
        },
    };
    if !(i2 < v.len()) {
        return None;
    }
    if v[i2] != '|' {
        return None;
    }
    let i3 = i2 + 1;
    let (speed, i4): (Option<Vec<char>>, usize) = if i3 < v.len() && v[i3] == '-' {
        (None, i3 + 1)
    } else {
        match p_lp_exec(&v, i3) {
            Some((x, j)) => (Some(x), j),
            None => {
                return None;
            },
        }
    };
    if !(i4 < v.len()) {
        return None;
    }
    if v[i4] != '|' {
        return None;
    }
    let i5 = i4 + 1;
    let (ts, i6) = match p_lp_exec(&v, i5) {
        Some(xj) => xj,
        None => {
            return None;
        },
    };
    if !(i6 < v.len()) {
        return None;
    }
    if v[i6] != '|' {
        return None;
    }
    let i7 = i6 + 1;
    let (msg, i8) = match p_lp_exec(&v, i7) {
        Some(xj) => xj,
        None => {
            return None;
        },
    };
    if i8 != v.len() {
        return None;
    }
    Some(
        LogEvent {
            level,
            message: string_from_chars(&msg),
            progress,
            speed: match speed {
                Some(x) => Some(string_from_chars(&x)),
                None => None,
            },
            timestamp: string_from_chars(&ts),
        },
    )
}

proof fn lemma_p_lp_at(s: Seq<char>, pre: Seq<char>, x: Seq<char>, rest: Seq<char>)
    requires
        s == pre + enc_lp(x) + rest,
    ensures
        p_lp(s, pre.len() as int) == Some((x, pre.len() + enc_lp(x).len() as int)),
{
    let i = pre.len() as int;
    let dl = dec_rep(x.len());
    lemma_dec_rep_digits(x.len());
    let j = i + dl.len();
    assert(s.len() == pre.len() + dl.len() + 1 + x.len() + rest.len());
    assert forall|k: int| i <= k < j implies is_digit_char(#[trigger] s[k]) by {
        assert(s[k] == dl[k - i]);
    }
    assert(s[j] == ':');
    lemma_digit_run_end_is(s, i, j);
    assert(s.subrange(i, j) =~= dl);
    assert(digits_val(s.subrange(i, j)) == x.len() as int);
    assert(s.subrange(j + 1, j + 1 + x.len()) =~= x);
}

proof fn lemma_p_prog_at(s: Seq<char>, pre: Seq<char>, p: Option<ProgressModel>, rest: Seq<char>)
    requires
        s == pre + enc_prog(p) + rest,
        rest.len() > 0,
        rest[0] == '|',
        match p {
            Some(pm) => all_digits(pm.frac),
            None => true,
        },
    ensures
        p_prog(s, pre.len() as int) == Some((p, pre.len() + enc_prog(p).len() as int)),
{
    let i = pre.len() as int;
    match p {
        None => {
            assert(s[i] == '-');
        },
        Some(pm) => {
            let dl = dec_rep(pm.units as nat);
            lemma_dec_rep_digits(pm.units as nat);
            let j = i + dl.len();
            if pm.frac.len() == 0 {
                assert(enc_prog(p) == dl);
                assert(s.len() == pre.len() + dl.len() + rest.len());
                assert forall|k: int| i <= k < j implies is_digit_char(#[trigger] s[k]) by {
                    assert(s[k] == dl[k - i]);
                }
                assert(s[j] == rest[0]);
                assert(!is_digit_char('|'));
                lemma_digit_run_end_is(s, i, j);
                assert(s.subrange(i, j) =~= dl);
                assert(digits_val(s.subrange(i, j)) == pm.units as int);
                assert(s[i] == dl[0]);
                assert(is_digit_char(s[i]));
                assert(s[i] != '-');
                assert(pm.frac =~= Seq::<char>::empty());
                assert(p_prog(s, i) == Some((p, i + dl.len())));
            } else {
                assert(enc_prog(p) == dl + seq!['.'] + pm.frac);
                assert(s.len() == pre.len() + dl.len() + 1 + pm.frac.len() + rest.len());
                assert forall|k: int| i <= k < j implies is_digit_char(#[trigger] s[k]) by {
                    assert(s[k] == dl[k - i]);
                }
                assert(s[j] == '.');
                assert(!is_digit_char('.'));
                lemma_digit_run_end_is(s, i, j);
                assert(s.subrange(i, j) =~= dl);
                assert(digits_val(s.subrange(i, j)) == pm.units as int);
                assert(s[i] == dl[0]);
                assert(s[i] != '-');
                let k2 = j + 1 + pm.frac.len();
                assert forall|k: int| j + 1 <= k < k2 implies is_digit_char(#[trigger] s[k]) by {
                    assert(s[k] == pm.frac[k - (j + 1)]);
                }
                assert(s[k2] == rest[0]);
                assert(!is_digit_char('|'));
                lemma_digit_run_end_is(s, j + 1, k2);
                assert(s.subrange(j + 1, k2) =~= pm.frac);
                assert(p_prog(s, i) == Some((p, i + enc_prog(p).len())));
            }
        },
    }
}

/// The round trip of the wire codec: an encoded event decodes back to the
/// identical `(level, message, progress, speed)` tuple, and to the same
/// timestamp.
#[verifier::rlimit(80)]
#[verifier::spinoff_prover]
pub proof fn lemma_event_round_trip(m: EventModel, ts: Seq<char>)
    requires
        crate::event::event_model_wf(m),
    ensures
        decode_event_model(encode_event_model(m, ts)) == Some((m, ts)),
{
    reveal_strlit("INFO");
    reveal_strlit("WARN");
    reveal_strlit("ERROR");
    reveal_strlit("INFO|");
    reveal_strlit("WARN|");
    reveal_strlit("ERROR|");
    let s = encode_event_model(m, ts);
    let lvl = level_chars(m.level);
    let pre1 = lvl + seq!['|'];
    let e_prog = enc_prog(m.progress);
    let pre2 = pre1 + e_prog;
    let pre3 = pre2 + seq!['|'];
    let e_speed = enc_opt_lp(m.speed);
    let pre4 = pre3 + e_speed;
    let pre5 = pre4 + seq!['|'];
    let e_ts = enc_lp(ts);
    let pre6 = pre5 + e_ts;
    let pre7 = pre6 + seq!['|'];
    let e_msg = enc_lp(m.message);
    // The level tag.
    match m.level {
        LogLevel::Info => {
            assert("INFO|"@ =~= lvl + seq!['|']);
            assert(starts_with_seq(s, "INFO|"@)) by {
                assert forall|k: int| 0 <= k < 5 implies s[k] == "INFO|"@[k] by {
                    assert(s[k] == pre1[k]);
                }
            }
            assert(p_level(s) == Some((LogLevel::Info, 5int)));
        },
        LogLevel::Warn => {
            assert("WARN|"@ =~= lvl + seq!['|']);
            assert(starts_with_seq(s, "WARN|"@)) by {
                assert forall|k: int| 0 <= k < 5 implies s[k] == "WARN|"@[k] by {
                    assert(s[k] == pre1[k]);
                }
            }
            assert(s[0] == 'W');
            assert(!starts_with_seq(s, "INFO|"@)) by {
                if starts_with_seq(s, "INFO|"@) {
                    assert(s[0int + 0int] == "INFO|"@[0int]);
                }
            }
            assert(p_level(s) == Some((LogLevel::Warn, 5int)));
        },
        LogLevel::Error => {
            assert("ERROR|"@ =~= lvl + seq!['|']);
            assert(starts_with_seq(s, "ERROR|"@)) by {
                assert forall|k: int| 0 <= k < 6 implies s[k] == "ERROR|"@[k] by {
                    assert(s[k] == pre1[k]);
                }
            }
            assert(s[0] == 'E');
            assert(!starts_with_seq(s, "INFO|"@)) by {
                if starts_with_seq(s, "INFO|"@) {
                    assert(s[0int + 0int] == "INFO|"@[0int]);
                }
            }
            assert(!starts_with_seq(s, "WARN|"@)) by {
                if starts_with_seq(s, "WARN|"@) {
                    assert(s[0int + 0int] == "WARN|"@[0int]);
                }
            }
            assert(p_level(s) == Some((LogLevel::Error, 6int)));
        },
    }
    assert(p_level(s) == Some((m.level, pre1.len() as int)));
    // The progress field, ended by a bar.
    assert(s =~= pre1 + e_prog + (seq!['|'] + e_speed + seq!['|'] + e_ts + seq!['|'] + e_msg));
    lemma_p_prog_at(
        s,
        pre1,
        m.progress,
        seq!['|'] + e_speed + seq!['|'] + e_ts + seq!['|'] + e_msg,
    );
    let i2 = pre2.len() as int;
    assert(s[i2] == '|');
    let i3 = pre3.len() as int;
    // The speed field.
    match m.speed {
        None => {
            assert(e_speed == seq!['-']);
            assert(s[i3] == '-');
            assert(p_opt_lp(s, i3) == Some((None::<Seq<char>>, pre4.len() as int)));
        },
        Some(x) => {
            assert(s =~= pre3 + enc_lp(x) + (seq!['|'] + e_ts + seq!['|'] + e_msg));
            lemma_p_lp_at(s, pre3, x, seq!['|'] + e_ts + seq!['|'] + e_msg);
            lemma_dec_rep_digits(x.len());
            assert(s[i3] == dec_rep(x.len())[0]);
            assert(is_digit_char(s[i3]));
            assert(s[i3] != '-');
            assert(p_opt_lp(s, i3) == Some((Some(x), pre4.len() as int)));
        },
    }
    let i4 = pre4.len() as int;
    assert(s[i4] == '|');
    let i5 = pre5.len() as int;
    // The timestamp.
    assert(s =~= pre5 + e_ts + (seq!['|'] + e_msg));
    lemma_p_lp_at(s, pre5, ts, seq!['|'] + e_msg);
    let i6 = pre6.len() as int;
    assert(s[i6] == '|');
    let i7 = pre7.len() as int;
    // The message, ending the line.
    assert(s =~= pre7 + e_msg + Seq::<char>::empty());
    lemma_p_lp_at(s, pre7, m.message, Seq::empty());
    assert(pre7.len() + e_msg.len() == s.len());
}

} // verus!
