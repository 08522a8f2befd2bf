use vstd::prelude::*;
use chrono::Timelike;
use crate::config::Config;
use crate::db::Data;
use crate::errors::Error;

verus! {

/// The fixed interval between scheduled scans: one day.
pub const SCAN_INTERVAL_SECONDS: i64 = 86400;

/// The longest single sleep a robust sleep will issue before re-reading
/// the clock.
pub const MAX_SLEEP_STEP_SECONDS: i64 = 600;

/// What `chrono` parses a time-of-day string to, as seconds since midnight.
/// Parsing accepts `%H:%M:%S%.f` with the seconds optional, and depends on
/// the text alone.
pub uninterp spec fn time_of_day_parse(s: Seq<char>) -> Option<u32>;

/// Relies on chrono's `FromStr for NaiveTime` (format `%H:%M:%S%.f`, seconds
/// optional) and `Timelike::num_seconds_from_midnight`, whose result is
/// `hour * 3600 + minute * 60 + second`, always below 86400. Fractional
/// seconds are dropped.
#[verifier::external_body]
fn parse_time_of_day(s: &str) -> (r: Option<u32>)
    ensures
        r == time_of_day_parse(s@),
        r matches Some(t) ==> t < 86400,
{
    match s.parse::<chrono::NaiveTime>() {
        Ok(t) => Some(t.num_seconds_from_midnight()),
        Err(_) => None,
    }
}

/// Relies on `rand::random_range` over `0..bound`: the draw is uniform over
/// that range, so the result is always below `bound`. Nothing more can be
/// promised of a random value.
#[verifier::external_body]
fn random_jitter(bound: u64) -> (r: u64)
    requires
        bound > 0,
    ensures
        r < bound,
{
    rand::random_range(0..bound)
}

/// The number of `'-'` characters in `s`.
pub open spec fn dash_count(s: Seq<char>) -> int
    decreases s.len(),
{
    if s.len() == 0 {
        0
    } else {
        dash_count(s.drop_last()) + if s.last() == '-' { 1int } else { 0int }
    }
}

proof fn lemma_dash_count_nonneg(s: Seq<char>)
    ensures
        dash_count(s) >= 0,
    decreases s.len(),
{
    if s.len() > 0 {
        lemma_dash_count_nonneg(s.drop_last());
    }
}

proof fn lemma_dash_count_concat(a: Seq<char>, b: Seq<char>)
    ensures
        dash_count(a + b) == dash_count(a) + dash_count(b),
    decreases b.len(),
{
    if b.len() == 0 {
        assert(a + b =~= a);
    } else {
        lemma_dash_count_concat(a, b.drop_last());
        assert((a + b).drop_last() =~= a + b.drop_last());
    }
}

/// The digit character for `d`.
pub open spec fn digit_char(d: int) -> char {
    if d == 0 {
        '0'
    } else if d == 1 {
        '1'
    } else if d == 2 {
        '2'
    } else if d == 3 {
        '3'
    } else if d == 4 {
        '4'
    } else if d == 5 {
        '5'
    } else if d == 6 {
        '6'
    } else if d == 7 {
        '7'
    } else if d == 8 {
        '8'
    } else {
        '9'
    }
}

/// A value below 100 written as two zero-padded digits.
pub open spec fn two_digit_text(v: int) -> Seq<char> {
    seq![digit_char(v / 10), digit_char(v % 10)]
}

/// A time of day `t`, in seconds since midnight, written as `HH:MM:SS`.
pub open spec fn time_text(t: int) -> Seq<char> {
    two_digit_text(t / 3600) + seq![':'] + two_digit_text((t / 60) % 60) + seq![':']
        + two_digit_text(t % 60)
}

fn push_two_digits(out: &mut String, v: u32)
    requires
        v < 100,
    ensures
        final(out)@ == old(out)@ + two_digit_text(v as int),
{
    let digits = "0123456789";
    proof {
        reveal_strlit("0123456789");
    }
    let ghost out0 = out@;
    let tens = (v / 10) as usize;
    let ones = (v % 10) as usize;
    out.append(digits.substring_char(tens, tens + 1));
    out.append(digits.substring_char(ones, ones + 1));
    proof {
        assert(digits@[tens as int] == digit_char(v as int / 10));
        assert(digits@[ones as int] == digit_char(v as int % 10));
        assert(out@ =~= out0 + two_digit_text(v as int));
    }
}

fn push_time_text(out: &mut String, t: u32)
    requires
        t < 86400,
    ensures
        final(out)@ == old(out)@ + time_text(t as int),
{
    proof {
        reveal_strlit(":");
    }
    let ghost out0 = out@;
    push_two_digits(out, t / 3600);
    out.append(":");
    push_two_digits(out, (t / 60) % 60);
    out.append(":");
    push_two_digits(out, t % 60);
    proof {
        assert(out@ =~= out0 + time_text(t as int));
    }
}

/// A daily local-time window during which scheduled scans may start.
/// Both bounds are seconds since local midnight; `end <= start` denotes an
/// overnight window that wraps past midnight.
#[derive(Clone, Copy, Debug, PartialEq, Eq, Structural)]
pub struct PreferedHours {
    pub start: u32,
    pub end: u32,
}

impl PreferedHours {
    pub open spec fn wf(&self) -> bool {
        self.start < 86400 && self.end < 86400
    }

    /// Window membership for second-of-day `t`: `start <= t < end` for a
    /// same-day window, `t >= start || t < end` for an overnight one.
    pub open spec fn spec_contains(&self, t: int) -> bool {
        if self.start < self.end {
            self.start <= t < self.end
        } else {
            t >= self.start || t < self.end
        }
    }

    /// Seconds until `t` next lies inside the window; zero if it already does.
    pub open spec fn spec_until_next_start(&self, t: int) -> int {
        if self.spec_contains(t) {
            0
        } else if t < self.start {
            self.start - t
        } else {
            self.start + 86400 - t
        }
    }

    /// Seconds until the window's next end instant.
    pub open spec fn spec_until_next_end(&self, t: int) -> int {
        if t < self.end {
            self.end - t
        } else {
            self.end + 86400 - t
        }
    }

    /// Builds a window from two times of day given as hour, minute, second.
    pub fn from_hms(
        start_h: u32, start_m: u32, start_s: u32,
        end_h: u32, end_m: u32, end_s: u32,
    ) -> (r: PreferedHours)
        requires
            start_h < 24 && start_m < 60 && start_s < 60,
            end_h < 24 && end_m < 60 && end_s < 60,
        ensures
            r.wf(),
            r.start == start_h * 3600 + start_m * 60 + start_s,
            r.end == end_h * 3600 + end_m * 60 + end_s,
    {
        PreferedHours {
            start: start_h * 3600 + start_m * 60 + start_s,
            end: end_h * 3600 + end_m * 60 + end_s,
        }
    }

    /// Parses `start-end`, two chrono time-of-day values separated by exactly
    /// one dash.
    pub fn from_str(s: &str) -> (r: Result<PreferedHours, Error>)
        ensures
            r matches Ok(ph) ==> {
                &&& ph.wf()
                &&& exists|i: int|
                    0 <= i < s@.len() && s@[i] == '-'
                        && time_of_day_parse(#[trigger] s@.subrange(0, i)) == Some(ph.start)
                        && time_of_day_parse(s@.subrange(i + 1, s@.len() as int)) == Some(ph.end)
            },
            r matches Ok(ph) ==> dash_count(s@) == 1,
            r is Err ==> (dash_count(s@) != 1 || forall|i: int|
                0 <= i < s@.len() && s@[i] == '-'
                    ==> time_of_day_parse(#[trigger] s@.subrange(0, i)) is None
                        || time_of_day_parse(s@.subrange(i + 1, s@.len() as int)) is None),
            r matches Err(e) ==> (e == Error::InvalidPreferredHours || e == Error::InvalidTimeOfDay),
    {
        let n = s.unicode_len();
        let mut i: usize = 0;
        let mut dash: Option<usize> = None;
        while i < n
            invariant
                n == s@.len(),
                i <= n,
                match dash {
                    None => dash_count(s@.take(i as int)) == 0,
                    Some(d) => d < i && s@[d as int] == '-' && dash_count(s@.take(i as int)) == 1,
                },
            decreases n - i,
        {
            let c = s.get_char(i);
            proof {
                assert(s@.take(i as int + 1).drop_last() =~= s@.take(i as int));
            }
            if c == '-' {
                match dash {
                    None => {
                        dash = Some(i);
                    },
                    Some(_) => {
                        proof {
                            let pre = s@.take(i as int + 1);
                            lemma_dash_count_concat(pre, s@.skip(i as int + 1));
                            lemma_dash_count_nonneg(s@.skip(i as int + 1));
                            assert(pre + s@.skip(i as int + 1) =~= s@);
                        }
                        return Err(Error::InvalidPreferredHours);
                    },
                }
            }
            i += 1;
        }
        proof {
            assert(s@.take(n as int) =~= s@);
        }
        match dash {
            None => Err(Error::InvalidPreferredHours),
            Some(d) => {
                let start_text = s.substring_char(0, d);
                let end_text = s.substring_char(d + 1, n);
                proof {
                    assert(start_text@ =~= s@.subrange(0, d as int));
                    assert(end_text@ =~= s@.subrange(d as int + 1, s@.len() as int));
                }
                let start = parse_time_of_day(start_text);
                let end = parse_time_of_day(end_text);
                match (start, end) {
                    (Some(start), Some(end)) => Ok(PreferedHours { start, end }),
                    _ => {
                        proof {
                            lemma_unique_dash(s@, d as int);
                        }
                        Err(Error::InvalidTimeOfDay)
                    },
                }
            },
        }
    }

    /// Writes the window as the configuration file holds it: two zero-padded
    /// `HH:MM:SS` times of day separated by one dash.
    pub fn to_text(&self) -> (r: String)
        requires
            self.wf(),
        ensures
            r@ == time_text(self.start as int) + seq!['-'] + time_text(self.end as int),
    {
        proof {
            reveal_strlit("-");
        }
        let mut out = String::new();
        push_time_text(&mut out, self.start);
        out.append("-");
        push_time_text(&mut out, self.end);
        proof {
            assert(out@ =~= time_text(self.start as int) + seq!['-'] + time_text(
                self.end as int,
            ));
        }
        out
    }

    /// Seconds until `t` next lies inside the window; zero if it already does.
    pub fn until_next_start(&self, t: u32) -> (r: u32)
        requires
            self.wf(),
            t < 86400,
        ensures
            r == self.spec_until_next_start(t as int),
    {
        let inside = if self.start < self.end {
            self.start <= t && t < self.end
        } else {
            t >= self.start || t < self.end
        };
        if inside {
            0
        } else if t < self.start {
            self.start - t
        } else {
            self.start + 86400 - t
        }
    }

    /// Seconds until the window's next end instant; always positive.
    pub fn until_next_end(&self, t: u32) -> (r: u32)
        requires
            self.wf(),
            t < 86400,
        ensures
            r == self.spec_until_next_end(t as int),
            r > 0,
    {
        if t < self.end {
            self.end - t
        } else {
            self.end + 86400 - t
        }
    }
}

/// In a well-formed window whose bounds differ, the span between the next
/// start and the next end is always positive: a delay can be drawn from it.
pub proof fn lemma_window_span_positive(ph: PreferedHours, t: int)
    requires
        ph.wf(),
        ph.start != ph.end,
        0 <= t < 86400,
    ensures
        ph.spec_until_next_start(t) < ph.spec_until_next_end(t),
{
}

/// Waiting out `until_next_start` lands exactly at a moment inside the
/// window (time of day wraps at midnight).
pub proof fn lemma_until_next_start_lands_inside(ph: PreferedHours, t: int)
    requires
        ph.wf(),
        ph.start != ph.end,
        0 <= t < 86400,
    ensures
        ph.spec_contains((t + ph.spec_until_next_start(t)) % 86400),
{
}

proof fn lemma_unique_dash(s: Seq<char>, d: int)
    requires
        0 <= d < s.len(),
        s[d] == '-',
        dash_count(s) == 1,
    ensures
        forall|i: int| 0 <= i < s.len() && s[i] == '-' ==> i == d,
{
    assert forall|i: int| 0 <= i < s.len() && s[i] == '-' implies i == d by {
        if i != d {
            let a = if i < d { i } else { d };
            let b = if i < d { d } else { i };
            lemma_dash_count_two(s, a, b);
        }
    }
}

proof fn lemma_dash_count_at_least_one(s: Seq<char>, a: int)
    requires
        0 <= a < s.len(),
        s[a] == '-',
    ensures
        dash_count(s) >= 1,
    decreases s.len(),
{
    if a == s.len() - 1 {
        lemma_dash_count_nonneg(s.drop_last());
    } else {
        lemma_dash_count_at_least_one(s.drop_last(), a);
    }
}

proof fn lemma_dash_count_two(s: Seq<char>, a: int, b: int)
    requires
        0 <= a < b < s.len(),
        s[a] == '-',
        s[b] == '-',
    ensures
        dash_count(s) >= 2,
    decreases s.len(),
{
    if b == s.len() - 1 {
        lemma_dash_count_at_least_one(s.drop_last(), a);
    } else {
        lemma_dash_count_two(s.drop_last(), a, b);
    }
}

/// One step of a robust sleep: given the whole time remaining until the
/// target instant, the next bounded sleep to issue, or `None` once the
/// target has been reached.
pub fn sleep_chunk(remaining: i64) -> (r: Option<u64>)
    ensures
        (r is None) <==> remaining <= 0,
        remaining > 0 ==> r == Some(
            (if remaining < MAX_SLEEP_STEP_SECONDS { remaining } else { MAX_SLEEP_STEP_SECONDS })
                as u64,
        ),
{
    if remaining <= 0 {
        None
    } else if remaining < MAX_SLEEP_STEP_SECONDS {
        Some(remaining as u64)
    } else {
        Some(MAX_SLEEP_STEP_SECONDS as u64)
    }
}

/// How long to sleep before the next scheduled scan may start.
///
/// With no prior scan, or a scan more than one interval ago, the scan is due
/// now. Otherwise, inside preferred hours the delay is drawn uniformly from
/// the span between the window's next start and next end; a window whose
/// bounds coincide admits no draw and is reported as a configuration error.
/// With no preferred hours the delay is what remains of the fixed interval.
pub fn compute_sleep(
    last_scan: Option<i64>,
    now_epoch: i64,
    now_tod: u32,
    preferred: Option<&PreferedHours>,
) -> (r: Result<u64, Error>)
    requires
        now_tod < 86400,
        -0x2000_0000_0000 < now_epoch < 0x2000_0000_0000,
        last_scan matches Some(t) ==> -0x2000_0000_0000 < t < 0x2000_0000_0000,
        preferred matches Some(ph) ==> ph.wf(),
    ensures
        last_scan is None ==> r == Ok::<u64, Error>(0),
        last_scan matches Some(t) ==> (now_epoch - t > SCAN_INTERVAL_SECONDS ==> r == Ok::<
            u64,
            Error,
        >(0)),
        last_scan matches Some(t) ==> (now_epoch - t <= SCAN_INTERVAL_SECONDS ==> match preferred {
            None => r == Ok::<u64, Error>((SCAN_INTERVAL_SECONDS - (now_epoch - t)) as u64),
            Some(ph) => {
                if ph.start == ph.end {
                    r == Err::<u64, Error>(Error::EmptyPreferredWindow)
                } else {
                    r matches Ok(d) && ph.spec_until_next_start(now_tod as int) <= d
                        < ph.spec_until_next_end(now_tod as int)
                }
            },
        }),
{
    match last_scan {
        None => Ok(0),
        Some(t) => {
            let elapsed = now_epoch - t;
            if elapsed > SCAN_INTERVAL_SECONDS {
                Ok(0)
            } else {
                match preferred {
                    None => Ok((SCAN_INTERVAL_SECONDS - elapsed) as u64),
                    Some(ph) => {
                        if ph.start == ph.end {
                            Err(Error::EmptyPreferredWindow)
                        } else {
                            let until_start = ph.until_next_start(now_tod);
                            let until_end = ph.until_next_end(now_tod);
                            proof {
                                lemma_window_span_positive(*ph, now_tod as int);
                            }
                            let span = (until_end - until_start) as u64;
                            let jitter = random_jitter(span);
                            Ok(until_start as u64 + jitter)
                        }
                    },
                }
            }
        },
    }
}

/// Whether two strings hold the same characters.
fn str_eq(a: &str, b: &str) -> (r: bool)
    ensures
        r <==> a@ == b@,
{
    let n = a.unicode_len();
    let m = b.unicode_len();
    if n != m {
        return false;
    }
    let mut i: usize = 0;
    while i < n
        invariant
            n == a@.len(),
            n == b@.len(),
            i <= n,
            forall|j: int| 0 <= j < i ==> a@[j] == b@[j],
        decreases n - i,
    {
        if a.get_char(i) != b.get_char(i) {
            return false;
        }
        i += 1;
    }
    proof {
        assert(a@ =~= b@);
    }
    true
}

/// Whether the configured automatic-scans policy allows scheduled scans:
/// unset or `"daily"` allows them; `"off"` and anything unrecognized does not.
pub open spec fn policy_allows(value: Option<Seq<char>>) -> bool {
    value is None || value == Some("daily"@)
}

/// Evaluates the automatic-scans policy value.
pub fn policy_allows_scans(value: &Option<String>) -> (r: bool)
    ensures
        r == policy_allows(value.deep_view()),
{
    match value {
        None => true,
        Some(s) => str_eq(s.as_str(), "daily"),
    }
}

/// Whether any of the given power sources reports it is discharging.
pub open spec fn some_discharging(states: Seq<bool>) -> bool {
    exists|i: int| 0 <= i < states.len() && states[i]
}

/// Whether any power source reports the system is discharging.
pub fn any_discharging(states: &Vec<bool>) -> (r: bool)
    ensures
        r == some_discharging(states@),
{
    let n = states.len();
    let mut i: usize = 0;
    while i < n
        invariant
            n == states@.len(),
            i <= n,
            forall|j: int| 0 <= j < i ==> !states@[j],
        decreases n - i,
    {
        if states[i] {
            return true;
        }
        i += 1;
    }
    proof {
        assert(!some_discharging(states@));
    }
    false
}

/// The discharging flags as a sequence, where they could be read at all.
pub open spec fn discharging_view(discharging: Option<&Vec<bool>>) -> Option<Seq<bool>> {
    match discharging {
        None => None,
        Some(states) => Some(states@),
    }
}

/// Whether the battery gate blocks this cycle: it is consulted only when
/// configured, and blocks when the power sources could not be read or when
/// any of them is discharging. A system without power sources never blocks.
pub open spec fn battery_blocks(skip_on_battery: bool, discharging: Option<Seq<bool>>) -> bool {
    skip_on_battery && match discharging {
        None => true,
        Some(d) => some_discharging(d),
    }
}

/// What one scheduler cycle should do.
pub enum CyclePlan {
    /// Sleep one fixed interval, then come back for the next cycle without
    /// scanning.
    Skip,
    /// Sleep `delay_seconds`, then run a scan.
    Scan { delay_seconds: u64 },
}

impl CyclePlan {
    pub fn is_scan(&self) -> (r: bool)
        ensures
            r == (self is Scan),
    {
        match self {
            CyclePlan::Scan { .. } => true,
            CyclePlan::Skip => false,
        }
    }

    pub fn delay(&self) -> (r: Option<u64>)
        ensures
            self matches CyclePlan::Scan { delay_seconds } ==> r == Some(*delay_seconds),
            self is Skip ==> r is None,
    {
        match self {
            CyclePlan::Scan { delay_seconds } => Some(*delay_seconds),
            CyclePlan::Skip => None,
        }
    }
}

/// Decides one scheduler cycle from what the edges could gather: the
/// configuration (`None` where loading failed), each power source's
/// discharging state (`None` where they could not be read; consulted only
/// when the configuration asks), the persistent state (`None` where loading
/// failed), and the clock. Every failure skips the cycle; nothing ends the
/// scheduler loop.
pub fn plan_cycle(
    config: Option<&Config>,
    discharging: Option<&Vec<bool>>,
    data: Option<&Data>,
    now_epoch: i64,
    now_tod: u32,
) -> (r: CyclePlan)
    requires
        now_tod < 86400,
        -0x2000_0000_0000 < now_epoch < 0x2000_0000_0000,
        config matches Some(c) ==> c.wf(),
        data matches Some(d) ==> (d.last_scan matches Some(t) ==> -0x2000_0000_0000 < t
            < 0x2000_0000_0000),
    ensures
        config is None ==> r is Skip,
        config matches Some(c) ==> {
            let blocked = battery_blocks(c.schedule.skip_on_battery, discharging_view(discharging));
            let allowed = policy_allows(c.schedule.automatic_scans.deep_view());
            &&& blocked ==> r is Skip
            &&& !blocked && !allowed ==> r is Skip
            &&& !blocked && allowed ==> match data {
                None => r is Skip,
                Some(d) => match d.last_scan {
                None => r == (CyclePlan::Scan { delay_seconds: 0u64 }),
                Some(t) => {
                    if now_epoch - t > SCAN_INTERVAL_SECONDS {
                        r == (CyclePlan::Scan { delay_seconds: 0u64 })
                    } else {
                        match c.schedule.preferred_hours {
                            None => r == (CyclePlan::Scan {
                                delay_seconds: (SCAN_INTERVAL_SECONDS - (now_epoch - t)) as u64,
                            }),
                            Some(ph) => {
                                if ph.start == ph.end {
                                    r is Skip
                                } else {
                                    r matches CyclePlan::Scan { delay_seconds }
                                        && ph.spec_until_next_start(now_tod as int)
                                        <= delay_seconds < ph.spec_until_next_end(now_tod as int)
                                }
                            },
                        }
                    }
                },
            },
            }
        },
{
    let config = match config {
        Some(c) => c,
        None => {
            return CyclePlan::Skip;
        },
    };
    if config.schedule.skip_on_battery {
        match discharging {
            None => {
                return CyclePlan::Skip;
            },
            Some(states) => {
                if any_discharging(states) {
                    return CyclePlan::Skip;
                }
            },
        }
    }
    if !policy_allows_scans(&config.schedule.automatic_scans) {
        return CyclePlan::Skip;
    }
    let data = match data {
        Some(d) => d,
        None => {
            return CyclePlan::Skip;
        },
    };
    match compute_sleep(
        data.last_scan,
        now_epoch,
        now_tod,
        config.schedule.preferred_hours.as_ref(),
    ) {
        Ok(delay_seconds) => CyclePlan::Scan { delay_seconds },
        Err(_) => CyclePlan::Skip,
    }
}

} // verus!
