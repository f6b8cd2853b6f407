//! Progress reporting of a download job: parsing the extractor's diagnostic
//! lines for a percentage, forwarding only changed values, and rendering a
//! text progress bar.
//!
//! A line carries a progress update when it contains a `%` and the substring
//! immediately before the `%` — restricted to digits and a decimal point —
//! parses as a decimal number. The value is rounded (half up on the decimal
//! digits) and clamped to `[0, 100]`.

use vstd::prelude::*;

use crate::text::{digit_val, digits_value, is_dec_digit};

verus! {

/// One progress event of a running download.
#[derive(Clone, Copy, Debug, PartialEq, Eq, Structural)]
pub struct DownloadProgress {
    pub percent: u8,
}

pub open spec fn is_pct_char(c: char) -> bool {
    is_dec_digit(c) || c == '.'
}

/// The position of the first occurrence of `c` in `s`.
pub open spec fn first_char_pos(s: Seq<char>, c: char) -> Option<int>
    decreases s.len(),
{
    if s.len() == 0 {
        None
    } else if s.first() == c {
        Some(0)
    } else {
        match first_char_pos(s.drop_first(), c) {
            Some(i) => Some(i + 1),
            None => None,
        }
    }
}

/// How many characters at the end of `p` are digits or dots.
pub open spec fn num_suffix_len(p: Seq<char>) -> int
    decreases p.len(),
{
    if p.len() == 0 {
        0
    } else if is_pct_char(p.last()) {
        1 + num_suffix_len(p.drop_last())
    } else {
        0
    }
}

pub open spec fn dot_count(s: Seq<char>) -> nat
    decreases s.len(),
{
    if s.len() == 0 {
        0
    } else {
        dot_count(s.drop_last()) + if s.last() == '.' {
            1nat
        } else {
            0nat
        }
    }
}

pub open spec fn digit_count(s: Seq<char>) -> nat
    decreases s.len(),
{
    if s.len() == 0 {
        0
    } else {
        digit_count(s.drop_last()) + if is_dec_digit(s.last()) {
            1nat
        } else {
            0nat
        }
    }
}

/// The number a valid numeric field stands for, rounded half-up on its
/// fractional digits.
pub open spec fn rounded_num_value(num: Seq<char>) -> nat {
    match first_char_pos(num, '.') {
        Some(d) => digits_value(num.take(d)) + if d + 1 < num.len() && digit_val(
            num[d + 1],
        ) >= 5 {
            1nat
        } else {
            0nat
        },
        None => digits_value(num),
    }
}

/// What a diagnostic line reports, if anything: the first `%` is located,
/// the digits-and-dot run immediately before it is taken — it may reach the
/// start of the line — and, when that run parses as a decimal number (at
/// least one digit, at most one dot), its rounded value clamped to 100.
pub open spec fn spec_parse_percent(s: Seq<char>) -> Option<u8> {
    match first_char_pos(s, '%') {
        None => None,
        Some(idx) => {
            let p = s.take(idx);
            let k = num_suffix_len(p);
            let num = p.skip(p.len() - k);
            if digit_count(num) >= 1 && dot_count(num) <= 1 {
                let v = rounded_num_value(num);
                if v > 100 {
                    Some(100u8)
                } else {
                    Some(v as u8)
                }
            } else {
                None
            }
        },
    }
}

proof fn lemma_first_char_pos_from(s: Seq<char>, c: char, k: int)
    requires
        0 <= k <= s.len(),
        forall|j: int| 0 <= j < k ==> s[j] != c,
    ensures
        first_char_pos(s, c) == match first_char_pos(s.skip(k), c) {
            Some(i) => Some(i + k),
            None => None::<int>,
        },
    decreases k,
{
    if k == 0 {
        assert(s.skip(0) =~= s);
    } else {
        assert(s.first() != c);
        lemma_first_char_pos_from(s.drop_first(), c, k - 1);
        assert(s.drop_first().skip(k - 1) =~= s.skip(k));
    }
}

proof fn lemma_num_suffix_len(p: Seq<char>, m: int)
    requires
        0 <= m <= p.len(),
        forall|j: int| m <= j < p.len() ==> is_pct_char(#[trigger] p[j]),
        m > 0 ==> !is_pct_char(p[m - 1]),
    ensures
        num_suffix_len(p) == p.len() - m,
    decreases p.len() - m,
{
    if m == p.len() {
        if p.len() > 0 {
            assert(!is_pct_char(p.last()));
        }
    } else {
        assert(is_pct_char(p.last()));
        lemma_num_suffix_len(p.drop_last(), m);
    }
}

fn pct_char(c: char) -> (r: bool)
    ensures
        r == is_pct_char(c),
{
    (c >= '0' && c <= '9') || c == '.'
}

/// Extracts the progress percentage a diagnostic line reports, if any.
pub fn parse_percent(line: &str) -> (r: Option<u8>)
    ensures
        r == spec_parse_percent(line@),
{
    let n = line.unicode_len();
    // Find the first '%'.
    let mut idx: usize = 0;
    while idx < n && line.get_char(idx) != '%'
        invariant
            0 <= idx <= n,
            n == line@.len(),
            forall|j: int| 0 <= j < idx ==> line@[j] != '%',
        decreases n - idx,
    {
        idx = idx + 1;
    }
    if idx == n {
        proof {
            lemma_first_char_pos_from(line@, '%', n as int);
            assert(line@.skip(n as int) =~= Seq::<char>::empty());
        }
        return None;
    }
    proof {
        lemma_first_char_pos_from(line@, '%', idx as int);
        assert(line@.skip(idx as int).first() == line@[idx as int]);
        assert(first_char_pos(line@, '%') == Some(idx as int));
    }
    let ghost p = line@.take(idx as int);
    // Scan backward over digits and dots.
    let mut start: usize = idx;
    while start > 0 && pct_char(line.get_char(start - 1))
        invariant
            0 <= start <= idx,
            idx < n,
            n == line@.len(),
            forall|j: int| start <= j < idx ==> is_pct_char(#[trigger] line@[j]),
        decreases start,
    {
        start = start - 1;
    }
    proof {
        assert(forall|j: int| start <= j < idx ==> is_pct_char(#[trigger] p[j]));
        lemma_num_suffix_len(p, start as int);
    }
    let num = line.substring_char(start, idx);
    let ghost numv = p.skip(p.len() - (idx - start));
    proof {
        assert(num@ =~= numv);
    }
    let m = idx - start;
    // Count digits and dots.
    let mut digits: usize = 0;
    let mut dots: usize = 0;
    let mut i: usize = 0;
    while i < m
        invariant
            0 <= i <= m,
            m == num@.len(),
            digits == digit_count(num@.take(i as int)),
            dots == dot_count(num@.take(i as int)),
            digits <= i,
            dots <= i,
        decreases m - i,
    {
        proof {
            assert(num@.take(i + 1 as int).drop_last() =~= num@.take(i as int));
            assert(num@.take(i + 1 as int).last() == num@[i as int]);
        }
        let c = num.get_char(i);
        if c >= '0' && c <= '9' {
            digits = digits + 1;
        } else if c == '.' {
            dots = dots + 1;
        }
        i = i + 1;
    }
    proof {
        assert(num@.take(m as int) =~= num@);
    }
    if digits == 0 || dots > 1 {
        return None;
    }
    // Locate the dot, if one exists.
    let mut dpos: usize = 0;
    while dpos < m && num.get_char(dpos) != '.'
        invariant
            0 <= dpos <= m,
            m == num@.len(),
            forall|j: int| 0 <= j < dpos ==> num@[j] != '.',
        decreases m - dpos,
    {
        dpos = dpos + 1;
    }
    proof {
        lemma_first_char_pos_from(num@, '.', dpos as int);
        if dpos < m {
            assert(num@.skip(dpos as int).first() == num@[dpos as int]);
        } else {
            assert(num@.skip(m as int) =~= Seq::<char>::empty());
        }
    }
    let ghost ip = if dpos < m {
        num@.take(dpos as int)
    } else {
        num@
    };
    // Accumulate the integer part, capped well above the clamp bound.
    let mut acc: u32 = 0;
    let mut j: usize = 0;
    while j < dpos
        invariant
            0 <= j <= dpos <= m,
            m == num@.len(),
            ip == if dpos < m {
                num@.take(dpos as int)
            } else {
                num@
            },
            ip.len() == if dpos < m {
                dpos as int
            } else {
                m as int
            },
            forall|t: int| 0 <= t < ip.len() ==> ip[t] == num@[t],
            forall|t: int| 0 <= t < m ==> is_pct_char(#[trigger] num@[t]),
            forall|t: int| 0 <= t < dpos ==> num@[t] != '.',
            acc == if digits_value(ip.take(j as int)) > 200 {
                200nat
            } else {
                digits_value(ip.take(j as int))
            },
        decreases dpos - j,
    {
        let c = num.get_char(j);
        proof {
            assert(is_pct_char(num@[j as int]) && num@[j as int] != '.');
            assert(is_dec_digit(num@[j as int]));
            assert(ip.take(j + 1 as int).drop_last() =~= ip.take(j as int));
            assert(ip.take(j + 1 as int).last() == ip[j as int]);
        }
        let d: u32 = (c as u32) - ('0' as u32);
        let x = acc * 10 + d;
        acc = if x > 200 {
            200
        } else {
            x
        };
        j = j + 1;
    }
    proof {
        assert(ip.take(dpos as int) =~= ip);
        if dpos >= m {
            assert(ip.take(m as int) =~= ip);
        }
    }
    // Round half-up on the first fractional digit.
    let round_up: u32 = if dpos < m && dpos + 1 < m {
        let f = num.get_char(dpos + 1);
        proof {
            assert(is_pct_char(num@[dpos + 1 as int]));
            if num@[dpos + 1 as int] == '.' {
                assert(num@.take(dpos + 1 as int).drop_last() =~= num@.take(dpos as int));
                assert(num@.take(dpos + 1 as int).last() == num@[dpos as int]);
                assert(num@.take(dpos + 2 as int).drop_last() =~= num@.take(dpos + 1 as int));
                assert(num@.take(dpos + 2 as int).last() == num@[dpos + 1 as int]);
                assert(dot_count(num@.take(dpos + 1 as int)) == dot_count(
                    num@.take(dpos as int),
                ) + 1);
                assert(dot_count(num@.take(dpos + 2 as int)) == dot_count(
                    num@.take(dpos + 1 as int),
                ) + 1);
                lemma_dot_count_monotonic(num@, dpos + 2, m as int);
                assert(num@.take(m as int) =~= num@);
                assert(false);
            }
        }
        if f >= '5' && f <= '9' {
            1
        } else {
            0
        }
    } else {
        0
    };
    let v = acc + round_up;
    let out: u8 = if v > 100 {
        100
    } else {
        v as u8
    };
    proof {
        assert(numv == num@);
        let spec_v = rounded_num_value(num@);
        assert(out == if spec_v > 100 {
            100u8
        } else {
            spec_v as u8
        });
    }
    Some(out)
}

/// `dot_count` only grows along prefixes.
proof fn lemma_dot_count_monotonic(s: Seq<char>, a: int, b: int)
    requires
        0 <= a <= b <= s.len(),
    ensures
        dot_count(s.take(a)) <= dot_count(s.take(b)),
    decreases b - a,
{
    if a < b {
        lemma_dot_count_monotonic(s, a, b - 1);
        assert(s.take(b).drop_last() =~= s.take(b - 1));
    }
}

/// Deduplication of the progress stream: an update is forwarded only
/// when it differs from the last forwarded value. The initial `last_sent` is
/// 255, a value no parsed percentage can take, so the first update always
/// passes.
pub struct ProgressFilter {
    pub last_sent: u8,
}

impl ProgressFilter {
    pub fn new() -> (r: ProgressFilter)
        ensures
            r.last_sent == 255,
    {
        ProgressFilter { last_sent: 255 }
    }

    /// Feeds one diagnostic line through the deduplication step.
    pub fn observe(&mut self, line: &str) -> (r: Option<DownloadProgress>)
        ensures
            spec_parse_percent(line@) is None ==> r is None && *final(self) == *old(self),
            spec_parse_percent(line@) matches Some(p) ==> {
                &&& p == old(self).last_sent ==> r is None && *final(self) == *old(self)
                &&& p != old(self).last_sent ==> r == Some((DownloadProgress { percent: p }))
                    && final(self).last_sent == p
            },
    {
        match parse_percent(line) {
            Some(p) => {
                if p != self.last_sent {
                    self.last_sent = p;
                    Some(DownloadProgress { percent: p })
                } else {
                    None
                }
            },
            None => None,
        }
    }
}

/// The percentages forwarded for a sequence of diagnostic lines, given the
/// last value already sent.
pub open spec fn forwarded_events(lines: Seq<Seq<char>>, last: u8) -> Seq<u8>
    decreases lines.len(),
{
    if lines.len() == 0 {
        Seq::empty()
    } else {
        match spec_parse_percent(lines.first()) {
            Some(p) => if p != last {
                seq![p] + forwarded_events(lines.drop_first(), p)
            } else {
                forwarded_events(lines.drop_first(), last)
            },
            None => forwarded_events(lines.drop_first(), last),
        }
    }
}

/// Runs a whole diagnostic transcript through a fresh filter and collects the
/// forwarded percentages in order.
pub fn filter_progress(lines: &Vec<String>) -> (r: Vec<u8>)
    ensures
        r@ == forwarded_events(lines@.map_values(|s: String| s@), 255),
{
    let ghost all = lines@.map_values(|s: String| s@);
    let n = lines.len();
    let mut filter = ProgressFilter::new();
    let mut out: Vec<u8> = Vec::new();
    let mut i: usize = 0;
    proof {
        assert(all.skip(0) =~= all);
    }
    while i < n
        invariant
            0 <= i <= n,
            n == lines@.len(),
            all == lines@.map_values(|s: String| s@),
            all.len() == n,
            forwarded_events(all, 255) == out@ + forwarded_events(
                all.skip(i as int),
                filter.last_sent,
            ),
        decreases n - i,
    {
        proof {
            assert(all.skip(i as int).first() == all[i as int]);
            assert(all[i as int] == lines@[i as int]@);
            assert(all.skip(i as int).drop_first() =~= all.skip(i + 1 as int));
        }
        let ev = filter.observe(lines[i].as_str());
        match ev {
            Some(p) => {
                out.push(p.percent);
                proof {
                    assert(out@ =~= out@.drop_last().push(p.percent));
                    assert(out@.drop_last() + (seq![p.percent] + forwarded_events(
                        all.skip(i + 1 as int),
                        filter.last_sent,
                    )) =~= out@ + forwarded_events(all.skip(i + 1 as int), filter.last_sent));
                }
            },
            None => {},
        }
        i = i + 1;
    }
    proof {
        assert(all.skip(n as int) =~= Seq::<Seq<char>>::empty());
        assert(out@ + Seq::<u8>::empty() =~= out@);
    }
    out
}

proof fn lemma_forwarded_no_repeat(lines: Seq<Seq<char>>, last: u8)
    ensures
        forwarded_events(lines, last).len() > 0 ==> forwarded_events(lines, last)[0] != last,
        forall|k: int|
            0 <= k < forwarded_events(lines, last).len() - 1 ==> #[trigger] forwarded_events(
                lines,
                last,
            )[k] != forwarded_events(lines, last)[k + 1],
    decreases lines.len(),
{
    if lines.len() > 0 {
        let out = forwarded_events(lines, last);
        match spec_parse_percent(lines.first()) {
            Some(p) => {
                if p != last {
                    let rest = forwarded_events(lines.drop_first(), p);
                    lemma_forwarded_no_repeat(lines.drop_first(), p);
                    assert(out == seq![p] + rest);
                    assert forall|k: int| 0 <= k < out.len() - 1 implies #[trigger] out[k]
                        != out[k + 1] by {
                        if k == 0 {
                            if rest.len() > 0 {
                                assert(out[1] == rest[0]);
                            }
                        } else {
                            assert(out[k] == rest[k - 1] && out[k + 1] == rest[k]);
                        }
                    }
                } else {
                    lemma_forwarded_no_repeat(lines.drop_first(), last);
                }
            },
            None => {
                lemma_forwarded_no_repeat(lines.drop_first(), last);
            },
        }
    }
}

/// No two consecutive forwarded progress events carry the same value,
/// whatever the diagnostic lines were.
pub proof fn lemma_no_repeated_progress(lines: Seq<Seq<char>>)
    ensures
        forall|k: int|
            0 <= k < forwarded_events(lines, 255).len() - 1 ==> #[trigger] forwarded_events(
                lines,
                255,
            )[k] != forwarded_events(lines, 255)[k + 1],
{
    lemma_forwarded_no_repeat(lines, 255);
}

/// How many cells of a 20-cell bar are filled at `percent`.
pub open spec fn filled_cells(percent: u8) -> int {
    (percent * 20) / 100
}

/// Renders a 20-cell progress bar between brackets, as shown while a
/// download runs.
pub fn text_bar(percent: u8) -> (r: String)
    ensures
        r@.len() == 22,
        r@[0] == '[',
        r@[21] == ']',
        forall|i: int| 1 <= i <= 20 ==> r@[i] == (if i - 1 < filled_cells(percent) {
            '\u{2588}'
        } else {
            ' '
        }),
{
    proof {
        reveal_strlit("[");
        reveal_strlit("]");
        reveal_strlit("\u{2588}");
        reveal_strlit(" ");
    }
    let filled: u16 = (percent as u16 * 20) / 100;
    let mut s = String::new();
    s.append("[");
    let mut i: u16 = 0;
    while i < 20
        invariant
            0 <= i <= 20,
            filled == filled_cells(percent),
            s@.len() == i + 1,
            s@[0] == '[',
            forall|t: int| 1 <= t <= i ==> s@[t] == (if t - 1 < filled_cells(percent) {
                '\u{2588}'
            } else {
                ' '
            }),
            "\u{2588}"@ =~= seq!['\u{2588}'],
            " "@ =~= seq![' '],
        decreases 20 - i,
    {
        if i < filled {
            s.append("\u{2588}");
        } else {
            s.append(" ");
        }
        i = i + 1;
    }
    s.append("]");
    s
}

} // verus!
