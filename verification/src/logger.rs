//! The persistent logger's pure core: the durable line format, the dated
//! log file name, and the decisions behind tail-reading and old-log
//! cleanup.  Opening, appending and deleting files stays with the
//! embedding application; everything it decides with is computed here.

use vstd::prelude::*;
use crate::text::{
    all_digits, chars_vec, dec_rep, digits_val, ends_with_seq, ends_with_str, extend_str,
    find_char_from, is_digit, is_digit_char, join_with_from, join_with_suffix, push_dec_u64,
    slice_chars, starts_with_seq, starts_with_str, string_from_chars,
};
use crate::parser::{find_char_spec, lemma_find_char_spec_absent, lemma_find_char_spec_found};

verus! {

/// The durable log line: `[timestamp] [LEVEL] [tool] message`, the tool
/// tag only for tool-tagged entries, with a trailing newline.
pub open spec fn spec_log_line(
    ts: Seq<char>,
    level: Seq<char>,
    tool: Option<Seq<char>>,
    msg: Seq<char>,
) -> Seq<char> {
    "["@ + ts + "] ["@ + level + "] "@ + (match tool {
        Some(t) => "["@ + t + "] "@,
        None => Seq::empty(),
    }) + msg + "\n"@
}

/// Renders one durable log line.
pub fn format_log_line(timestamp: &str, level: &str, tool: Option<&str>, message: &str) -> (r:
    String)
    ensures
        r@ == spec_log_line(
            timestamp@,
            level@,
            match tool {
                Some(t) => Some(t@),
                None => None,
            },
            message@,
        ),
{
    let mut v: Vec<char> = Vec::new();
    extend_str(&mut v, "[");
    extend_str(&mut v, timestamp);
    extend_str(&mut v, "] [");
    extend_str(&mut v, level);
    extend_str(&mut v, "] ");
    match tool {
        Some(t) => {
            extend_str(&mut v, "[");
            extend_str(&mut v, t);
            extend_str(&mut v, "] ");
        },
        None => {},
    }
    extend_str(&mut v, message);
    extend_str(&mut v, "\n");
    assert(v@ =~= spec_log_line(
        timestamp@,
        level@,
        match tool {
            Some(t) => Some(t@),
            None => None,
        },
        message@,
    ));
    string_from_chars(&v)
}

/// Renders the durable line of a tool-tagged log entry.
pub fn write_tool_log(tool_name: &str, level: &str, message: &str, timestamp: &str) -> (r: String)
    ensures
        r@ == spec_log_line(timestamp@, level@, Some(tool_name@), message@),
{
    format_log_line(timestamp, level, Some(tool_name), message)
}

/// Renders the durable line of a tool-tagged log entry, stamped with the
/// clock's current local timestamp.
pub fn tool_log_line_now(tool_name: &str, level: &str, message: &str) -> (r: String)
    ensures
        exists|ts: Seq<char>| r@ == spec_log_line(ts, level@, Some(tool_name@), message@),
{
    let ts = crate::clock::now_local_stamp();
    let r = write_tool_log(tool_name, level, message, ts.as_str());
    proof {
        assert(r@ == spec_log_line(ts@, level@, Some(tool_name@), message@));
    }
    r
}

/// A calendar date, as carried in log file names.
#[derive(Clone, Copy, Debug, PartialEq, Eq, Structural)]
pub struct Date {
    pub year: u32,
    pub month: u32,
    pub day: u32,
}

pub open spec fn is_leap_year(y: int) -> bool {
    y % 4 == 0 && (y % 100 != 0 || y % 400 == 0)
}

pub open spec fn days_in_month(y: int, m: int) -> int {
    if m == 2 {
        if is_leap_year(y) {
            29
        } else {
            28
        }
    } else if m == 4 || m == 6 || m == 9 || m == 11 {
        30
    } else {
        31
    }
}

impl Date {
    /// A real calendar date with a four-digit year.
    pub open spec fn wf(&self) -> bool {
        &&& self.year <= 9999
        &&& 1 <= self.month <= 12
        &&& 1 <= self.day <= days_in_month(self.year as int, self.month as int)
    }
}

/// Strict calendar order.
pub open spec fn spec_date_lt(a: Date, b: Date) -> bool {
    ||| a.year < b.year
    ||| (a.year == b.year && a.month < b.month)
    ||| (a.year == b.year && a.month == b.month && a.day < b.day)
}

pub fn date_lt(a: Date, b: Date) -> (r: bool)
    ensures
        r == spec_date_lt(a, b),
{
    if a.year != b.year {
        a.year < b.year
    } else if a.month != b.month {
        a.month < b.month
    } else {
        a.day < b.day
    }
}

/// A number rendered with at least two digits.
pub open spec fn pad2(n: nat) -> Seq<char> {
    if n < 10 {
        seq!['0'] + dec_rep(n)
    } else {
        dec_rep(n)
    }
}

/// A number rendered with at least four digits.
pub open spec fn pad4(n: nat) -> Seq<char> {
    if n < 10 {
        seq!['0', '0', '0'] + dec_rep(n)
    } else if n < 100 {
        seq!['0', '0'] + dec_rep(n)
    } else if n < 1000 {
        seq!['0'] + dec_rep(n)
    } else {
        dec_rep(n)
    }
}

fn push_pad2(out: &mut Vec<char>, n: u32)
    ensures
        final(out)@ == old(out)@ + pad2(n as nat),
{
    if n < 10 {
        out.push('0');
    }
    push_dec_u64(out, n as u64);
    assert(out@ =~= old(out)@ + pad2(n as nat));
}

fn push_pad4(out: &mut Vec<char>, n: u32)
    ensures
        final(out)@ == old(out)@ + pad4(n as nat),
{
    if n < 10 {
        out.push('0');
        out.push('0');
        out.push('0');
    } else if n < 100 {
        out.push('0');
        out.push('0');
    } else if n < 1000 {
        out.push('0');
    }
    push_dec_u64(out, n as u64);
    assert(out@ =~= old(out)@ + pad4(n as nat));
}

/// The name of the dated log file.
pub open spec fn spec_log_file_name(d: Date) -> Seq<char> {
    "gaga-client_"@ + pad4(d.year as nat) + seq!['-'] + pad2(d.month as nat) + seq!['-'] + pad2(
        d.day as nat,
    ) + ".log"@
}

/// Renders the name of the log file for one calendar day.
pub fn log_file_name(d: Date) -> (r: String)
    ensures
        r@ == spec_log_file_name(d),
{
    let mut v: Vec<char> = Vec::new();
    extend_str(&mut v, "gaga-client_");
    push_pad4(&mut v, d.year);
    v.push('-');
    push_pad2(&mut v, d.month);
    v.push('-');
    push_pad2(&mut v, d.day);
    extend_str(&mut v, ".log");
    assert(v@ =~= spec_log_file_name(d));
    string_from_chars(&v)
}

/// The date carried by a log file name of the dated shape
/// `gaga-client_YYYY-MM-DD.log`, when the digits name a real calendar
/// date.
pub open spec fn spec_parse_log_date(n: Seq<char>) -> Option<Date> {
    if n.len() == 26 && starts_with_seq(n, "gaga-client_"@) && ends_with_seq(n, ".log"@)
        && all_digits(n.subrange(12, 16)) && n[16] == '-' && all_digits(n.subrange(17, 19))
        && n[19] == '-' && all_digits(n.subrange(20, 22)) {
        let y = digits_val(n.subrange(12, 16));
        let m = digits_val(n.subrange(17, 19));
        let d = digits_val(n.subrange(20, 22));
        if 1 <= m <= 12 && 1 <= d <= days_in_month(y, m) {
            Some(Date { year: y as u32, month: m as u32, day: d as u32 })
        } else {
            None
        }
    } else {
        None
    }
}

spec fn pow10(k: nat) -> int
    decreases k,
{
    if k == 0 {
        1
    } else {
        10 * pow10((k - 1) as nat)
    }
}

proof fn lemma_digits_val_bound(s: Seq<char>)
    requires
        all_digits(s),
    ensures
        0 <= digits_val(s) < pow10(s.len()),
    decreases s.len(),
{
    if s.len() > 0 {
        let t = s.drop_last();
        assert(forall|k: int| 0 <= k < t.len() ==> t[k] == s[k]);
        lemma_digits_val_bound(t);
        assert(is_digit_char(s.last()));
    }
}

fn check_digits(v: &Vec<char>, from: usize, to: usize) -> (r: bool)
    requires
        from <= to <= v@.len(),
    ensures
        r == all_digits(v@.subrange(from as int, to as int)),
{
    let mut i: usize = from;
    while i < to
        invariant
            from <= i <= to <= v@.len(),
            forall|k: int| from <= k < i ==> is_digit_char(v@[k]),
        decreases to - i,
    {
        if !is_digit(v[i]) {
            assert(!is_digit_char(v@.subrange(from as int, to as int)[i - from]));
            return false;
        }
        i = i + 1;
    }
    assert forall|k: int| 0 <= k < to - from implies is_digit_char(
        #[trigger] v@.subrange(from as int, to as int)[k],
    ) by {
        assert(is_digit_char(v@[from + k]));
    }
    true
}

fn parse_small(v: &Vec<char>, from: usize, to: usize) -> (r: u64)
    requires
        from <= to <= v@.len(),
        to - from <= 4,
        all_digits(v@.subrange(from as int, to as int)),
    ensures
        r == digits_val(v@.subrange(from as int, to as int)),
        r <= 9999,
{
    proof {
        lemma_digits_val_bound(v@.subrange(from as int, to as int));
        reveal_with_fuel(pow10, 5);
        assert(pow10(v@.subrange(from as int, to as int).len()) <= 10000);
        assert forall|k: int| from <= k < to implies is_digit_char(#[trigger] v@[k]) by {
            assert(is_digit_char(v@.subrange(from as int, to as int)[k - from]));
        }
    }
    crate::text::parse_digits_saturating(v, from, to)
}

/// Reads the date out of a log file name, when it has the dated shape.
pub fn parse_log_date(name: &str) -> (r: Option<Date>)
    ensures
        r == spec_parse_log_date(name@),
        match r {
            Some(d) => d.wf() && 1 <= d.month,
            None => true,
        },
{
    let v = chars_vec(name);
    if v.len() != 26 {
        return None;
    }
    if !starts_with_str(&v, "gaga-client_") {
        return None;
    }
    if !ends_with_str(&v, ".log") {
        return None;
    }
    if !check_digits(&v, 12, 16) {
        return None;
    }
    if v[16] != '-' {
        return None;
    }
    if !check_digits(&v, 17, 19) {
        return None;
    }
    if v[19] != '-' {
        return None;
    }
    if !check_digits(&v, 20, 22) {
        return None;
    }
    let y = parse_small(&v, 12, 16);
    let m = parse_small(&v, 17, 19);
    let d = parse_small(&v, 20, 22);
    let leap = (y % 4 == 0) && (y % 100 != 0 || y % 400 == 0);
    let dim: u64 = if m == 2 {
        if leap {
            29
        } else {
            28
        }
    } else if m == 4 || m == 6 || m == 9 || m == 11 {
        30
    } else {
        31
    };
    if 1 <= m && m <= 12 && 1 <= d && d <= dim {
        Some(Date { year: y as u32, month: m as u32, day: d as u32 })
    } else {
        None
    }
}

proof fn lemma_digits_val_zeros(s: Seq<char>)
    requires
        forall|k: int| 0 <= k < s.len() ==> s[k] == '0',
    ensures
        digits_val(s) == 0,
    decreases s.len(),
{
    if s.len() > 0 {
        let t = s.drop_last();
        assert(forall|k: int| 0 <= k < t.len() ==> t[k] == s[k]);
        lemma_digits_val_zeros(t);
        assert(s.last() == '0');
    }
}

proof fn lemma_dec_rep_len_small(n: nat)
    requires
        n < 10000,
    ensures
        dec_rep(n).len() == (if n < 10 {
            1int
        } else if n < 100 {
            2int
        } else if n < 1000 {
            3int
        } else {
            4int
        }),
    decreases n,
{
    if n >= 10 {
        lemma_dec_rep_len_small(n / 10);
    }
}

proof fn lemma_digits_val_concat(a: Seq<char>, b: Seq<char>)
    ensures
        digits_val(a + b) == digits_val(a) * pow10(b.len()) + digits_val(b),
    decreases b.len(),
{
    if b.len() == 0 {
        assert(a + b =~= a);
    } else {
        lemma_digits_val_concat(a, b.drop_last());
        assert((a + b).drop_last() =~= a + b.drop_last());
        assert((a + b).last() == b.last());
        let x = digits_val(a);
        let p = pow10((b.len() - 1) as nat);
        let y = digits_val(b.drop_last());
        let d = crate::text::digit_val(b.last());
        assert(digits_val(a + b) == (x * p + y) * 10 + d);
        assert(pow10(b.len()) == 10 * p);
        assert((x * p + y) * 10 + d == x * (10 * p) + (y * 10 + d)) by (nonlinear_arith);
    }
}

/// The value a padded rendering denotes is the number itself.
proof fn lemma_pad_val(n: nat)
    requires
        n < 10000,
    ensures
        digits_val(pad4(n)) == n,
        n < 100 ==> digits_val(pad2(n)) == n,
        all_digits(pad4(n)),
        pad4(n).len() == 4,
        n < 100 ==> all_digits(pad2(n)) && pad2(n).len() == 2,
{
    lemma_dec_rep_len_small(n);
    crate::text::lemma_dec_rep_digits(n);
    let r = dec_rep(n);
    if n < 10 {
        lemma_digits_val_concat(seq!['0', '0', '0'], r);
        lemma_digits_val_concat(seq!['0'], r);
        lemma_digits_val_zeros(seq!['0', '0', '0']);
        lemma_digits_val_zeros(seq!['0']);
        assert(pow10(r.len()) == 10) by {
            reveal_with_fuel(pow10, 2);
        }
        assert(digits_val(pad4(n)) == n);
        assert forall|k: int| 0 <= k < pad4(n).len() implies is_digit_char(
            #[trigger] pad4(n)[k],
        ) by {
            if k >= 3 {
                assert(pad4(n)[k] == r[k - 3]);
            }
        }
        assert forall|k: int| 0 <= k < pad2(n).len() implies is_digit_char(
            #[trigger] pad2(n)[k],
        ) by {
            if k >= 1 {
                assert(pad2(n)[k] == r[k - 1]);
            }
        }
    } else if n < 100 {
        lemma_digits_val_concat(seq!['0', '0'], r);
        lemma_digits_val_zeros(seq!['0', '0']);
        assert(pow10(r.len()) == 100) by {
            reveal_with_fuel(pow10, 3);
        }
        assert forall|k: int| 0 <= k < pad4(n).len() implies is_digit_char(
            #[trigger] pad4(n)[k],
        ) by {
            if k >= 2 {
                assert(pad4(n)[k] == r[k - 2]);
            }
        }
    } else if n < 1000 {
        lemma_digits_val_concat(seq!['0'], r);
        lemma_digits_val_zeros(seq!['0']);
        assert(pow10(r.len()) == 1000) by {
            reveal_with_fuel(pow10, 4);
        }
        assert forall|k: int| 0 <= k < pad4(n).len() implies is_digit_char(
            #[trigger] pad4(n)[k],
        ) by {
            if k >= 1 {
                assert(pad4(n)[k] == r[k - 1]);
            }
        }
    }
}

/// The dated file name round trip: cleanup reads back exactly the date
/// the logger wrote into the name.
pub proof fn lemma_log_file_name_round_trip(d: Date)
    requires
        d.wf(),
    ensures
        spec_parse_log_date(spec_log_file_name(d)) == Some(d),
{
    reveal_strlit("gaga-client_");
    reveal_strlit(".log");
    let n = spec_log_file_name(d);
    lemma_pad_val(d.year as nat);
    lemma_pad_val(d.month as nat);
    lemma_pad_val(d.day as nat);
    assert(n.len() == 26);
    assert(starts_with_seq(n, "gaga-client_"@)) by {
        assert forall|k: int| 0 <= k < 12 implies n[k] == "gaga-client_"@[k] by {}
    }
    assert(ends_with_seq(n, ".log"@)) by {
        assert forall|k: int| 0 <= k < 4 implies n[22 + k] == ".log"@[k] by {}
    }
    assert(n.subrange(12, 16) =~= pad4(d.year as nat));
    assert(n.subrange(17, 19) =~= pad2(d.month as nat));
    assert(n.subrange(20, 22) =~= pad2(d.day as nat));
    assert(n[16] == '-');
    assert(n[19] == '-');
}

/// Whether cleanup deletes this file: it carries a dated log name whose
/// date lies strictly before the cutoff.
pub fn should_delete_log(name: &str, cutoff: Date) -> (r: bool)
    ensures
        r == match spec_parse_log_date(name@) {
            Some(d) => spec_date_lt(d, cutoff),
            None => false,
        },
{
    match parse_log_date(name) {
        Some(d) => date_lt(d, cutoff),
        None => false,
    }
}

/// `s` without a single trailing carriage return.
pub open spec fn strip_cr(s: Seq<char>) -> Seq<char> {
    if s.len() > 0 && s.last() == '\r' {
        s.drop_last()
    } else {
        s
    }
}

proof fn lemma_find_char_in_range(s: Seq<char>, c: char, p: int)
    ensures
        find_char_spec(s, c, p) >= 0 ==> p <= find_char_spec(s, c, p) < s.len(),
    decreases s.len() - p,
{
    if 0 <= p < s.len() && s[p] != c {
        lemma_find_char_in_range(s, c, p + 1);
    }
}

/// The lines of `s` from position `p` on: separated by `\n`, each without
/// a trailing `\r`, with no final empty line after a trailing `\n`.
pub open spec fn split_lines_from(s: Seq<char>, p: int) -> Seq<Seq<char>>
    decreases s.len() - p,
        when true
        via split_lines_from_decreases
{
    if p < 0 || p >= s.len() {
        Seq::empty()
    } else {
        let e = find_char_spec(s, '\n', p);
        if e < 0 {
            seq![strip_cr(s.subrange(p, s.len() as int))]
        } else {
            seq![strip_cr(s.subrange(p, e))] + split_lines_from(s, e + 1)
        }
    }
}

#[via_fn]
proof fn split_lines_from_decreases(s: Seq<char>, p: int) {
    lemma_find_char_in_range(s, '\n', p);
}

/// The lines of `s`.
pub open spec fn split_lines(s: Seq<char>) -> Seq<Seq<char>> {
    split_lines_from(s, 0)
}

/// Splits a text into its lines.
pub fn split_lines_exec(v: &Vec<char>) -> (r: Vec<Vec<char>>)
    ensures
        r.deep_view() == split_lines(v@),
{
    let mut r: Vec<Vec<char>> = Vec::new();
    let mut p: usize = 0;
    while p < v.len()
        invariant
            p <= v@.len(),
            split_lines(v@) =~~= r.deep_view() + split_lines_from(v@, p as int),
        decreases v@.len() - p,
    {
        match find_char_from(v, '\n', p) {
            Some(e) => {
                proof {
                    lemma_find_char_spec_found(v@, '\n', p as int, e as int);
                }
                let line = if e > p && v[e - 1] == '\r' {
                    slice_chars(v, p, e - 1)
                } else {
                    slice_chars(v, p, e)
                };
                proof {
                    if e > p && v@[e as int - 1] == '\r' {
                        assert(v@.subrange(p as int, e as int).last() == '\r');
                        assert(v@.subrange(p as int, e as int).drop_last() =~= v@.subrange(
                            p as int,
                            e as int - 1,
                        ));
                    } else if e > p {
                        assert(v@.subrange(p as int, e as int).last() != '\r');
                    }
                    assert(line@ == strip_cr(v@.subrange(p as int, e as int)));
                }
                r.push(line);
                proof {
                    assert(split_lines(v@) =~~= r.deep_view() + split_lines_from(
                        v@,
                        e as int + 1,
                    ));
                }
                p = e + 1;
            },
            None => {
                proof {
                    lemma_find_char_spec_absent(v@, '\n', p as int);
                }
                let n = v.len();
                let line = if n > p && v[n - 1] == '\r' {
                    slice_chars(v, p, n - 1)
                } else {
                    slice_chars(v, p, n)
                };
                proof {
                    if n > p && v@[n as int - 1] == '\r' {
                        assert(v@.subrange(p as int, n as int).last() == '\r');
                        assert(v@.subrange(p as int, n as int).drop_last() =~= v@.subrange(
                            p as int,
                            n as int - 1,
                        ));
                    } else if n > p {
                        assert(v@.subrange(p as int, n as int).last() != '\r');
                    }
                    assert(line@ == strip_cr(v@.subrange(p as int, n as int)));
                }
                r.push(line);
                proof {
                    assert(split_lines(v@) =~~= r.deep_view() + split_lines_from(v@, n as int));
                }
                p = n;
            },
        }
    }
    proof {
        assert(split_lines(v@) =~~= r.deep_view());
    }
    r
}

/// The content a capped log read returns: unchanged when uncapped, else
/// the last `max` lines re-joined with newlines.
pub open spec fn spec_tail_lines(s: Seq<char>, max: Option<int>) -> Seq<char> {
    match max {
        None => s,
        Some(m) => {
            let ls = split_lines(s);
            let start: int = if ls.len() > m {
                ls.len() - m
            } else {
                0
            };
            join_with_from(ls, "\n"@, start)
        },
    }
}

/// Caps a log file's content at its last `max_lines` lines.  With no cap
/// the content is returned unchanged; with one, the kept lines are
/// re-joined with plain newlines.
pub fn tail_lines(content: &str, max_lines: Option<usize>) -> (r: String)
    ensures
        r@ == spec_tail_lines(
            content@,
            match max_lines {
                Some(m) => Some(m as int),
                None => None,
            },
        ),
{
    match max_lines {
        None => String::from_str(content),
        Some(m) => {
            let v = chars_vec(content);
            let lines = split_lines_exec(&v);
            let start: usize = if lines.len() > m {
                lines.len() - m
            } else {
                0
            };
            proof {
                assert(lines.deep_view().len() == lines@.len());
            }
            let joined = join_with_suffix(&lines, "\n", start);
            string_from_chars(&joined)
        },
    }
}

} // verus!
