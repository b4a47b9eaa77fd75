//! The text handling of the `pp` command-line client: TTL arguments, plan
//! references (bare IDs or plan URLs), the server base URL and the input
//! check. Reading files, talking HTTP and printing are left to the caller.

use vstd::prelude::*;
use vstd::string::*;
use crate::id::{is_id_shaped, is_valid_id};
use crate::client::Client;
use crate::types::PlanCreated;
use crate::text::{chars_of, decimal, decimal_string, digit_value, hex_char, is_digit, opt_view, owned};

verus! {

// ---------------------------------------------------------------------------
// Plain seconds
// ---------------------------------------------------------------------------

/// Whether every character of `s` is a decimal digit.
pub open spec fn all_digits(s: Seq<char>) -> bool {
    forall|i: int| 0 <= i < s.len() ==> is_digit(#[trigger] s[i])
}

/// The value of a string of decimal digits, read most significant first.
pub open spec fn digits_value(s: Seq<char>) -> nat
    decreases s.len(),
{
    if s.len() == 0 {
        0
    } else {
        digits_value(s.drop_last()) * 10 + digit_value(s.last())
    }
}

/// The digits of an unsigned number: one leading `+` is allowed.
pub open spec fn unsigned_digits(s: Seq<char>) -> Seq<char> {
    if s.len() > 0 && s[0] == '+' {
        s.drop_first()
    } else {
        s
    }
}

/// The `u64` that `s` spells in decimal, as std's `u64::from_str` reads
/// it: an optional `+`, then at least one digit, and a value that fits.
pub open spec fn u64_from_decimal(s: Seq<char>) -> Option<u64> {
    let t = unsigned_digits(s);
    if t.len() > 0 && all_digits(t) && digits_value(t) <= u64::MAX {
        Some(digits_value(t) as u64)
    } else {
        None
    }
}

/// A longer run of digits is worth at least as much as its prefix.
pub proof fn lemma_digits_value_grows(s: Seq<char>, k: int)
    requires
        0 <= k <= s.len(),
        all_digits(s),
    ensures
        digits_value(s.subrange(0, k)) <= digits_value(s),
    decreases s.len(),
{
    if k < s.len() {
        assert(s.drop_last() =~= s.subrange(0, s.len() - 1));
        assert(all_digits(s.drop_last()));
        lemma_digits_value_grows(s.drop_last(), k);
        assert(s.drop_last().subrange(0, k) =~= s.subrange(0, k));
    } else {
        assert(s.subrange(0, k) =~= s);
    }
}

/// Reads a `u64` written in decimal (see [`u64_from_decimal`]).
pub fn parse_seconds(raw: &str) -> (r: Option<u64>)
    ensures
        r == u64_from_decimal(raw@),
{
    let cs = chars_of(raw);
    let n = cs.len();
    let start: usize = if n > 0 && cs[0] == '+' { 1 } else { 0 };
    let ghost t = unsigned_digits(raw@);
    assert(t =~= raw@.subrange(start as int, n as int));
    if start == n {
        return None;
    }
    let mut acc: u64 = 0;
    let mut i: usize = start;
    while i < n
        invariant
            cs@ == raw@,
            n == raw@.len(),
            start <= i <= n,
            t == raw@.subrange(start as int, n as int),
            t == unsigned_digits(raw@),
            t.len() > 0,
            all_digits(t.subrange(0, i - start)),
            acc == digits_value(t.subrange(0, i - start)),
        decreases n - i,
    {
        let c = cs[i];
        if !('0' <= c && c <= '9') {
            assert(t[i - start] == c);
            assert(!all_digits(t));
            return None;
        }
        let ghost prefix = t.subrange(0, i - start + 1);
        assert(prefix.drop_last() =~= t.subrange(0, i - start));
        assert(prefix.last() == c);
        assert(all_digits(prefix)) by {
            assert forall|j: int| 0 <= j < prefix.len() implies is_digit(#[trigger] prefix[j]) by {
                if j < prefix.len() - 1 {
                    assert(prefix[j] == t.subrange(0, i - start)[j]);
                }
            }
        }
        let d = (c as u32 - 48) as u64;
        let next = match acc.checked_mul(10) {
            Some(tens) => tens.checked_add(d),
            None => None,
        };
        match next {
            Some(v) => {
                acc = v;
            },
            None => {
                proof {
                    if all_digits(t) {
                        lemma_digits_value_grows(t, i - start + 1);
                        assert(t.subrange(0, i - start + 1) =~= prefix);
                    }
                }
                return None;
            },
        }
        i = i + 1;
    }
    assert(t.subrange(0, n - start) =~= t);
    Some(acc)
}

// ---------------------------------------------------------------------------
// TTL arguments
// ---------------------------------------------------------------------------

/// What `humantime::parse_duration` makes of `text`: the whole seconds and
/// the sub-second nanoseconds of the duration, or `None` when it refuses it.
pub uninterp spec fn humantime_duration(text: Seq<char>) -> Option<(u64, u32)>;

/// Whether `c` belongs to the unit of a duration term.
pub open spec fn is_unit_letter(c: char) -> bool {
    ('a' <= c <= 'z') || ('A' <= c <= 'Z') || c == 'µ'
}

/// Unit names of nanoseconds.
pub open spec fn is_nanos_unit(u: Seq<char>) -> bool {
    u == "nanos"@ || u == "nsec"@ || u == "ns"@
}

/// Unit names of microseconds.
pub open spec fn is_micros_unit(u: Seq<char>) -> bool {
    u == "usec"@ || u == "us"@ || u == "µs"@
}

/// Unit names of milliseconds.
pub open spec fn is_millis_unit(u: Seq<char>) -> bool {
    u == "millis"@ || u == "msec"@ || u == "ms"@
}

/// The seconds in one of a whole-second unit: seconds, minutes, hours,
/// days, weeks, months of 30.44 days, and years of 365.25 days. Any other
/// unit text counts as a year, the longest unit.
pub open spec fn unit_seconds(u: Seq<char>) -> nat {
    if u == "seconds"@ || u == "second"@ || u == "secs"@ || u == "sec"@ || u == "s"@ {
        1
    } else if u == "minutes"@ || u == "minute"@ || u == "min"@ || u == "mins"@ || u == "m"@ {
        60
    } else if u == "hours"@ || u == "hour"@ || u == "hr"@ || u == "hrs"@ || u == "h"@ {
        3600
    } else if u == "days"@ || u == "day"@ || u == "d"@ {
        86400
    } else if u == "weeks"@ || u == "week"@ || u == "wk"@ || u == "wks"@ || u == "w"@ {
        604800
    } else if u == "months"@ || u == "month"@ || u == "M"@ {
        2_630_016
    } else {
        31_557_600
    }
}

/// A whole number of seconds longer than any term with whole number `n`,
/// a fraction below one and unit `u`.
pub open spec fn term_weight(n: nat, u: Seq<char>) -> nat {
    if is_nanos_unit(u) {
        n / 1_000_000_000 + 1
    } else if is_micros_unit(u) {
        n / 1_000_000 + 1
    } else if is_millis_unit(u) {
        n / 1000 + 1
    } else {
        (n + 1) * unit_seconds(u)
    }
}

/// The largest whole number a term is read with; a longer number is
/// refused by the duration parser before its term counts.
pub open spec fn capped(n: nat) -> nat {
    if n > u64::MAX {
        u64::MAX as nat
    } else {
        n
    }
}

/// The scan of a duration text, one character at a time. The state is
/// `(total, number, mode, unit)`: `total` sums the weights of the terms
/// ended so far, `number` is the whole number of the current term, `unit`
/// its unit text, and `mode` is 1 in a whole number, 2 in a fraction, 3 in
/// a unit and 0 between terms. Digits build numbers, `.` starts a fraction,
/// unit letters build the unit, and a digit or any other character after a
/// unit ends the term (white space among them).
pub open spec fn scan_step(state: (nat, nat, int, Seq<char>), c: char) -> (nat, nat, int, Seq<char>) {
    let (total, number, mode, unit) = state;
    if is_digit(c) {
        if mode == 1 {
            (total, capped(number * 10 + digit_value(c)), 1, unit)
        } else if mode == 2 {
            state
        } else if mode == 3 {
            (total + term_weight(number, unit), digit_value(c), 1, Seq::empty())
        } else {
            (total, digit_value(c), 1, Seq::empty())
        }
    } else if c == '.' {
        if mode == 1 {
            (total, number, 2, unit)
        } else {
            state
        }
    } else if is_unit_letter(c) {
        if mode == 1 || mode == 2 {
            (total, number, 3, seq![c])
        } else if mode == 3 {
            (total, number, 3, unit.push(c))
        } else {
            state
        }
    } else if mode == 3 {
        (total + term_weight(number, unit), 0, 0, Seq::empty())
    } else {
        state
    }
}

/// The scan of all of `s` (see [`scan_step`]).
pub open spec fn duration_scan(s: Seq<char>) -> (nat, nat, int, Seq<char>)
    decreases s.len(),
{
    if s.len() == 0 {
        (0, 0, 0, Seq::empty())
    } else {
        scan_step(duration_scan(s.drop_last()), s.last())
    }
}

/// A bound on the seconds of any duration read from `s`: the weights of its
/// terms (see [`term_weight`]), the last one included.
pub open spec fn duration_weight(s: Seq<char>) -> nat {
    let (total, number, mode, unit) = duration_scan(s);
    if mode == 0 {
        total
    } else {
        total + term_weight(number, unit)
    }
}

proof fn lemma_scan_state(s: Seq<char>)
    ensures
        0 <= duration_scan(s).2 <= 3,
        duration_scan(s).1 <= u64::MAX,
    decreases s.len(),
{
    if s.len() > 0 {
        lemma_scan_state(s.drop_last());
    }
}

proof fn lemma_scan_total_grows(s: Seq<char>, k: int)
    requires
        0 <= k <= s.len(),
    ensures
        duration_scan(s.subrange(0, k)).0 <= duration_weight(s),
    decreases s.len() - k,
{
    if k < s.len() {
        assert(s.subrange(0, k + 1).drop_last() =~= s.subrange(0, k));
        lemma_scan_total_grows(s, k + 1);
    } else {
        assert(s.subrange(0, k) =~= s);
    }
}

/// Whether `unit` spells `name`.
fn unit_is(unit: &Vec<char>, name: &str) -> (r: bool)
    ensures
        r == (unit@ == name@),
{
    let cs = chars_of(name);
    if unit.len() != cs.len() {
        return false;
    }
    let mut i: usize = 0;
    while i < cs.len()
        invariant
            cs@ == name@,
            unit@.len() == cs@.len(),
            i <= cs.len(),
            forall|j: int| 0 <= j < i ==> unit@[j] == cs@[j],
        decreases cs.len() - i,
    {
        if unit[i] != cs[i] {
            return false;
        }
        i = i + 1;
    }
    assert(unit@ =~= name@);
    true
}

/// [`unit_seconds`] of `unit`.
fn unit_seconds_of(unit: &Vec<char>) -> (r: u64)
    ensures
        r == unit_seconds(unit@),
{
    if unit_is(unit, "seconds") || unit_is(unit, "second") || unit_is(unit, "secs")
        || unit_is(unit, "sec") || unit_is(unit, "s") {
        1
    } else if unit_is(unit, "minutes") || unit_is(unit, "minute") || unit_is(unit, "min")
        || unit_is(unit, "mins") || unit_is(unit, "m") {
        60
    } else if unit_is(unit, "hours") || unit_is(unit, "hour") || unit_is(unit, "hr")
        || unit_is(unit, "hrs") || unit_is(unit, "h") {
        3600
    } else if unit_is(unit, "days") || unit_is(unit, "day") || unit_is(unit, "d") {
        86400
    } else if unit_is(unit, "weeks") || unit_is(unit, "week") || unit_is(unit, "wk")
        || unit_is(unit, "wks") || unit_is(unit, "w") {
        604800
    } else if unit_is(unit, "months") || unit_is(unit, "month") || unit_is(unit, "M") {
        2_630_016
    } else {
        31_557_600
    }
}

/// [`term_weight`] of a term with whole number `n` and unit `unit`.
fn term_weight_of(n: u64, unit: &Vec<char>) -> (r: u128)
    ensures
        r == term_weight(n as nat, unit@),
        r <= 18_446_744_073_709_551_616 * 31_557_600,
{
    if unit_is(unit, "nanos") || unit_is(unit, "nsec") || unit_is(unit, "ns") {
        (n / 1_000_000_000 + 1) as u128
    } else if unit_is(unit, "usec") || unit_is(unit, "us") || unit_is(unit, "µs") {
        (n / 1_000_000 + 1) as u128
    } else if unit_is(unit, "millis") || unit_is(unit, "msec") || unit_is(unit, "ms") {
        (n / 1000 + 1) as u128
    } else {
        let w = unit_seconds_of(unit);
        assert((n + 1) * w <= 18_446_744_073_709_551_616 * 31_557_600) by (nonlinear_arith)
            requires
                n <= u64::MAX,
                w <= 31_557_600,
        ;
        (n as u128 + 1) * (w as u128)
    }
}

/// Whether the duration weight of `text` is at most `u64::MAX` seconds.
pub fn duration_fits(text: &str) -> (r: bool)
    ensures
        r == (duration_weight(text@) <= u64::MAX),
{
    let cs = chars_of(text);
    let n = cs.len();
    let mut total: u128 = 0;
    let mut number: u64 = 0;
    let mut mode: u8 = 0;
    let mut unit: Vec<char> = Vec::new();
    let mut i: usize = 0;
    while i < n
        invariant
            n == text@.len(),
            cs@ == text@,
            i <= n,
            duration_scan(text@.subrange(0, i as int)) == (total as nat, number as nat, mode as int, unit@),
            total <= u64::MAX,
        decreases n - i,
    {
        let c = cs[i];
        proof {
            assert(text@.subrange(0, i + 1).drop_last() =~= text@.subrange(0, i as int));
            assert(text@.subrange(0, i + 1).last() == c);
            lemma_scan_state(text@.subrange(0, i as int));
        }
        if '0' <= c && c <= '9' {
            let d = (c as u32 - 48) as u64;
            if mode == 1 {
                let next = number as u128 * 10 + d as u128;
                number = if next > u64::MAX as u128 { u64::MAX } else { next as u64 };
            } else if mode == 3 {
                total = total + term_weight_of(number, &unit);
                number = d;
                mode = 1;
                unit = Vec::new();
            } else if mode == 0 {
                number = d;
                mode = 1;
                unit = Vec::new();
            }
        } else if c == '.' {
            if mode == 1 {
                mode = 2;
            }
        } else if ('a' <= c && c <= 'z') || ('A' <= c && c <= 'Z') || c == 'µ' {
            if mode == 1 || mode == 2 {
                unit = Vec::new();
                unit.push(c);
                mode = 3;
            } else if mode == 3 {
                unit.push(c);
            }
        } else if mode == 3 {
            total = total + term_weight_of(number, &unit);
            number = 0;
            mode = 0;
            unit = Vec::new();
        }
        i = i + 1;
        if total > u64::MAX as u128 {
            proof {
                lemma_scan_total_grows(text@, i as int);
                assert(text@.subrange(0, n as int) =~= text@);
            }
            return false;
        }
    }
    assert(text@.subrange(0, n as int) =~= text@);
    if mode == 0 {
        true
    } else {
        total + term_weight_of(number, &unit) <= u64::MAX as u128
    }
}

/// Parses a human-friendly duration such as `1h`, `7days` or `1h 30m`.
///
/// Calls `humantime::parse_duration` (humantime 2.4) and hands back the
/// duration as its whole seconds and sub-second nanoseconds. The contract
/// names the result and claims no more of it.
///
/// The parser adds up the terms of the text with checked arithmetic, which
/// turns an overflow into an error, and builds each partial sum with
/// `Duration::new`, which panics when its seconds and nanoseconds together
/// go past `u64::MAX` seconds. Each term adds less than its weight (see
/// [`term_weight`]; a term whose number passes `u64::MAX` or whose unit is
/// unknown is an error before it adds anything), so a text whose
/// [`duration_weight`] is at most `u64::MAX` never reaches that panic.
#[verifier::external_body]
fn parse_duration(text: &str) -> (r: Option<(u64, u32)>)
    requires
        duration_weight(text@) <= u64::MAX,
    ensures
        r == humantime_duration(text@),
{
    match humantime::parse_duration(text) {
        Ok(d) => Some((d.as_secs(), d.subsec_nanos())),
        Err(_) => None,
    }
}

/// The message for a TTL argument that is neither seconds nor a duration.
pub open spec fn ttl_error(raw: Seq<char>) -> Seq<char> {
    "`"@ + raw + "` is not seconds or a humantime duration (try \"1h\", \"7days\")"@
}

/// Finishes reading a TTL argument that is not plain seconds, from what the
/// duration parser made of it: its whole seconds, or the error message.
pub fn ttl_from_duration(raw: &str, duration: Option<(u64, u32)>) -> (r: Result<u64, String>)
    ensures
        match duration {
            Some((secs, _)) => r == Ok::<u64, String>(secs),
            None => r matches Err(e) && e@ == ttl_error(raw@),
        },
{
    match duration {
        Some((secs, _)) => Ok(secs),
        None => {
            let mut e = owned("`");
            e.append(raw);
            e.append("` is not seconds or a humantime duration (try \"1h\", \"7days\")");
            Err(e)
        },
    }
}

/// Accepts plain seconds (`"3600"`) or a humantime string (`"1h"`,
/// `"7days"`). A duration text that may come to more than `u64::MAX`
/// seconds (see [`duration_weight`]) is refused rather than read.
pub fn parse_ttl(raw: &str) -> (r: Result<u64, String>)
    ensures
        match u64_from_decimal(raw@) {
            Some(secs) => r == Ok::<u64, String>(secs),
            None => if duration_weight(raw@) > u64::MAX {
                r matches Err(e) && e@ == ttl_error(raw@)
            } else {
                match humantime_duration(raw@) {
                    Some((secs, _)) => r == Ok::<u64, String>(secs),
                    None => r matches Err(e) && e@ == ttl_error(raw@),
                }
            },
        },
{
    match parse_seconds(raw) {
        Some(secs) => Ok(secs),
        None => if !duration_fits(raw) {
            ttl_from_duration(raw, None)
        } else {
            ttl_from_duration(raw, parse_duration(raw))
        },
    }
}

// ---------------------------------------------------------------------------
// Plan references
// ---------------------------------------------------------------------------

/// `s` without its trailing `/` characters.
pub open spec fn trim_trailing_slashes(s: Seq<char>) -> Seq<char>
    decreases s.len(),
{
    if s.len() > 0 && s.last() == '/' {
        trim_trailing_slashes(s.drop_last())
    } else {
        s
    }
}

/// The part of `s` after its last `/` (all of `s` when it has none).
pub open spec fn last_segment(s: Seq<char>) -> Seq<char>
    decreases s.len(),
{
    if s.len() == 0 {
        s
    } else if s.last() == '/' {
        Seq::empty()
    } else {
        last_segment(s.drop_last()).push(s.last())
    }
}

/// Whether `c` starts the query or the fragment of a URL.
pub open spec fn is_query_start(c: char) -> bool {
    c == '?' || c == '#'
}

/// The part of `s` before its first `?` or `#` (all of `s` when it has neither).
pub open spec fn before_query(s: Seq<char>) -> Seq<char>
    decreases s.len(),
{
    if s.len() == 0 {
        s
    } else if is_query_start(s[0]) {
        Seq::empty()
    } else {
        seq![s[0]] + before_query(s.drop_first())
    }
}

/// The plan ID candidate in a plan reference: the last path segment, with
/// trailing slashes, query and fragment taken off.
pub open spec fn id_candidate(input: Seq<char>) -> Seq<char> {
    before_query(last_segment(trim_trailing_slashes(input)))
}

/// The path before a plan's ID in a plan URL.
pub open spec fn plans_path() -> Seq<char> {
    "/plans/"@
}

/// Whether a plan reference names a plan: its ID candidate is a plan ID, and
/// it is either a bare ID (no `/` before the candidate) or a URL whose path
/// ends in `/plans/` followed by the ID.
pub open spec fn refers_to_plan(input: Seq<char>) -> bool {
    let t = trim_trailing_slashes(input);
    let seg = last_segment(t);
    &&& is_valid_id(before_query(seg))
    &&& (seg.len() == t.len() || plans_path().is_suffix_of(t.subrange(0, t.len() - seg.len())))
}

/// The message for a reference that names no plan.
pub open spec fn not_a_plan_error(input: Seq<char>) -> Seq<char> {
    "`"@ + input + "` is not a plan ID or plan URL"@
}

/// Whether `s` is a plan ID (32 lower-case hex characters).
pub fn is_plan_id(s: &str) -> (r: bool)
    ensures
        r == is_valid_id(s@),
{
    is_id_shaped(s)
}

proof fn lemma_trim_prefix(s: Seq<char>, end: int)
    requires
        0 <= end <= s.len(),
        forall|j: int| end <= j < s.len() ==> s[j] == '/',
    ensures
        trim_trailing_slashes(s) == trim_trailing_slashes(s.subrange(0, end)),
    decreases s.len() - end,
{
    if end < s.len() {
        assert(s.drop_last() =~= s.subrange(0, s.len() - 1));
        lemma_trim_prefix(s.drop_last(), end);
        assert(s.drop_last().subrange(0, end) =~= s.subrange(0, end));
    } else {
        assert(s.subrange(0, end) =~= s);
    }
}

proof fn lemma_last_segment_split(s: Seq<char>, start: int)
    requires
        0 <= start <= s.len(),
        forall|j: int| start <= j < s.len() ==> s[j] != '/',
    ensures
        last_segment(s) == last_segment(s.subrange(0, start)) + s.subrange(start, s.len() as int),
    decreases s.len() - start,
{
    if start < s.len() {
        assert(s.drop_last() =~= s.subrange(0, s.len() - 1));
        lemma_last_segment_split(s.drop_last(), start);
        assert(s.drop_last().subrange(0, start) =~= s.subrange(0, start));
        assert(s.subrange(start, s.len() as int) =~= s.drop_last().subrange(
            start,
            s.len() - 1,
        ).push(s.last()));
    } else {
        assert(s.subrange(0, start) =~= s);
        assert(s.subrange(start, s.len() as int) =~= Seq::<char>::empty());
    }
}

proof fn lemma_before_query_split(s: Seq<char>, stop: int)
    requires
        0 <= stop <= s.len(),
        forall|j: int| 0 <= j < stop ==> !is_query_start(#[trigger] s[j]),
    ensures
        before_query(s) == s.subrange(0, stop) + before_query(s.subrange(stop, s.len() as int)),
    decreases stop,
{
    if stop > 0 {
        let rest = s.drop_first();
        assert forall|j: int| 0 <= j < stop - 1 implies !is_query_start(#[trigger] rest[j]) by {
            assert(rest[j] == s[j + 1]);
        }
        lemma_before_query_split(rest, stop - 1);
        assert(rest.subrange(stop - 1, rest.len() as int) =~= s.subrange(stop, s.len() as int));
        assert(s.subrange(0, stop) =~= seq![s[0]] + rest.subrange(0, stop - 1));
    } else {
        assert(s.subrange(0, 0) =~= Seq::<char>::empty());
        assert(s.subrange(0, s.len() as int) =~= s);
    }
}

/// Extracts a plan ID from a bare ID or any URL ending in `/plans/{id}`
/// (trailing slashes, a query and a fragment are allowed).
pub fn extract_id(input: &str) -> (r: Result<String, String>)
    ensures
        match r {
            Ok(id) => refers_to_plan(input@) && id@ == id_candidate(input@),
            Err(e) => !refers_to_plan(input@) && e@ == not_a_plan_error(input@),
        },
{
    let ghost s = input@;
    let cs = chars_of(input);
    let n = cs.len();
    let mut end: usize = n;
    while end > 0 && cs[end - 1] == '/'
        invariant
            n == s.len(),
            s == input@,
            cs@ == s,
            end <= n,
            forall|j: int| end <= j < n ==> s[j] == '/',
        decreases end,
    {
        end = end - 1;
    }
    proof {
        lemma_trim_prefix(s, end as int);
        let p = s.subrange(0, end as int);
        if end > 0 {
            assert(p.last() == s[end - 1]);
        }
        assert(trim_trailing_slashes(p) == p);
    }
    let ghost trimmed = s.subrange(0, end as int);
    let mut start: usize = end;
    while start > 0 && cs[start - 1] != '/'
        invariant
            n == s.len(),
            s == input@,
            cs@ == s,
            start <= end <= n,
            trimmed == s.subrange(0, end as int),
            forall|j: int| start <= j < end ==> s[j] != '/',
        decreases start,
    {
        start = start - 1;
    }
    proof {
        lemma_last_segment_split(trimmed, start as int);
        let p = trimmed.subrange(0, start as int);
        if start > 0 {
            assert(p.last() == s[start - 1]);
            assert(p =~= p.drop_last().push(p.last()));
        }
        assert(last_segment(p) =~= Seq::<char>::empty());
        assert(trimmed.subrange(start as int, end as int) =~= s.subrange(start as int, end as int));
    }
    let ghost segment = s.subrange(start as int, end as int);
    let mut stop: usize = start;
    while stop < end && cs[stop] != '?' && cs[stop] != '#'
        invariant
            n == s.len(),
            s == input@,
            cs@ == s,
            start <= stop <= end <= n,
            segment == s.subrange(start as int, end as int),
            forall|j: int| start <= j < stop ==> !is_query_start(#[trigger] s[j]),
        decreases end - stop,
    {
        stop = stop + 1;
    }
    proof {
        let k = stop - start;
        assert forall|j: int| 0 <= j < k implies !is_query_start(#[trigger] segment[j]) by {
            assert(segment[j] == s[start + j]);
        }
        lemma_before_query_split(segment, k);
        let rest = segment.subrange(k, segment.len() as int);
        if stop < end {
            assert(rest[0] == s[stop as int]);
            assert(before_query(rest) =~= Seq::<char>::empty());
        } else {
            assert(rest.len() == 0);
        }
        assert(segment.subrange(0, k) =~= s.subrange(start as int, stop as int));
        assert(id_candidate(s) =~= s.subrange(start as int, stop as int));
        assert(trimmed.subrange(0, trimmed.len() - segment.len()) =~= s.subrange(0, start as int));
    }
    let candidate = input.substring_char(start, stop);
    let named = is_plan_id(candidate) && (start == 0 || ends_with(
        input.substring_char(0, start),
        "/plans/",
    ));
    if named {
        Ok(owned(candidate))
    } else {
        let mut e = owned("`");
        e.append(input);
        e.append("` is not a plan ID or plan URL");
        Err(e)
    }
}


/// Plan references of the forms that `pp` prints and the server hands out
/// are taken back to their ID: a bare ID, or anything ending in `/plans/`
/// followed by the ID, then either nothing but slashes, or a query or fragment
/// (without further `/`).
pub proof fn law_extract_id_recovers(prefix: Seq<char>, id: Seq<char>, suffix: Seq<char>)
    requires
        is_valid_id(id),
        prefix.len() == 0 || plans_path().is_suffix_of(prefix),
        (forall|j: int| 0 <= j < suffix.len() ==> suffix[j] == '/') || (suffix.len() > 0
            && is_query_start(suffix[0]) && forall|j: int| 0 <= j < suffix.len() ==> suffix[j] != '/'),
    ensures
        id_candidate(prefix + id + suffix) == id,
        refers_to_plan(prefix + id + suffix),
{
    reveal_strlit("/plans/");
    if prefix.len() > 0 {
        assert(prefix.last() == prefix.subrange(prefix.len() - 7, prefix.len() as int)[6]);
    }
    let pi = prefix + id;
    let x = pi + suffix;
    assert(id.last() != '/') by {
        assert(crate::id::is_hex_lower(id[31]));
    }
    assert forall|j: int| 0 <= j < id.len() implies !is_query_start(#[trigger] id[j]) && id[j] != '/' by {
        assert(crate::id::is_hex_lower(id[j]));
    }
    if forall|j: int| 0 <= j < suffix.len() ==> suffix[j] == '/' {
        lemma_trim_prefix(x, pi.len() as int);
        assert(x.subrange(0, pi.len() as int) =~= pi);
        assert(pi.last() == id.last());
        assert(trim_trailing_slashes(pi) == pi);
        lemma_last_segment_split(pi, prefix.len() as int);
        assert(pi.subrange(0, prefix.len() as int) =~= prefix);
        assert(pi.subrange(prefix.len() as int, pi.len() as int) =~= id);
        if prefix.len() > 0 {
            assert(prefix =~= prefix.drop_last().push(prefix.last()));
        }
        assert(last_segment(prefix) =~= Seq::<char>::empty());
        assert(last_segment(pi) =~= id);
        lemma_before_query_split(id, id.len() as int);
        assert(id.subrange(0, id.len() as int) =~= id);
        assert(id.subrange(id.len() as int, id.len() as int) =~= Seq::<char>::empty());
        assert(before_query(id) =~= id);
        assert(pi.subrange(0, pi.len() - id.len()) =~= prefix);
    } else {
        assert(x.last() == suffix.last());
        assert(suffix.last() != '/');
        assert(trim_trailing_slashes(x) == x);
        let is = id + suffix;
        assert(x =~= prefix + is);
        assert forall|j: int| prefix.len() <= j < x.len() implies x[j] != '/' by {
            if j < pi.len() {
                assert(x[j] == id[j - prefix.len()]);
            } else {
                assert(x[j] == suffix[j - pi.len()]);
            }
        }
        lemma_last_segment_split(x, prefix.len() as int);
        assert(x.subrange(0, prefix.len() as int) =~= prefix);
        assert(x.subrange(prefix.len() as int, x.len() as int) =~= is);
        if prefix.len() > 0 {
            assert(prefix =~= prefix.drop_last().push(prefix.last()));
        }
        assert(last_segment(prefix) =~= Seq::<char>::empty());
        assert(last_segment(x) =~= is);
        assert forall|j: int| 0 <= j < id.len() implies !is_query_start(#[trigger] is[j]) by {
            assert(is[j] == id[j]);
        }
        lemma_before_query_split(is, id.len() as int);
        assert(is.subrange(0, id.len() as int) =~= id);
        let rest = is.subrange(id.len() as int, is.len() as int);
        assert(rest =~= suffix);
        assert(before_query(rest) =~= Seq::<char>::empty());
        assert(before_query(is) =~= id);
        assert(x.subrange(0, x.len() - is.len()) =~= prefix);
    }
}

/// Trimming trailing slashes leaves none behind, and trimming again
/// changes nothing: a configured base URL is normalised once and for all.
pub proof fn law_trimming_is_idempotent(s: Seq<char>)
    ensures
        trim_trailing_slashes(s).len() == 0 || trim_trailing_slashes(s).last() != '/',
        trim_trailing_slashes(trim_trailing_slashes(s)) == trim_trailing_slashes(s),
        trim_trailing_slashes(s).is_prefix_of(s),
    decreases s.len(),
{
    if s.len() > 0 && s.last() == '/' {
        law_trimming_is_idempotent(s.drop_last());
        let t = trim_trailing_slashes(s.drop_last());
        assert forall|j: int| 0 <= j < t.len() implies t[j] == s[j] by {
            assert(t[j] == s.drop_last()[j]);
        }
    }
}

/// Takes the trailing slashes off `s`.
pub fn trim_slashes(s: &str) -> (r: String)
    ensures
        r@ == trim_trailing_slashes(s@),
{
    let cs = chars_of(s);
    let n = cs.len();
    let mut end: usize = n;
    while end > 0 && cs[end - 1] == '/'
        invariant
            cs@ == s@,
            n == s@.len(),
            end <= n,
            forall|j: int| end <= j < n ==> s@[j] == '/',
        decreases end,
    {
        end = end - 1;
    }
    proof {
        lemma_trim_prefix(s@, end as int);
        let p = s@.subrange(0, end as int);
        if end > 0 {
            assert(p.last() == s@[end - 1]);
        }
        assert(trim_trailing_slashes(p) == p);
    }
    owned(s.substring_char(0, end))
}

// ---------------------------------------------------------------------------
// Server URL and `open` targets
// ---------------------------------------------------------------------------

/// The message when no server URL is configured.
pub open spec fn no_url_error() -> Seq<char> {
    "no server URL: set PLANPOOL_URL or pass --url"@
}

/// The server base URL: the `--url` flag, else `PLANPOOL_URL`, without
/// trailing slashes.
pub open spec fn chosen_base_url(flag: Option<Seq<char>>, env_url: Option<Seq<char>>) -> Option<Seq<char>> {
    match flag {
        Some(f) => Some(trim_trailing_slashes(f)),
        None => match env_url {
            Some(e) => Some(trim_trailing_slashes(e)),
            None => None,
        },
    }
}

/// The server base URL from the `--url` flag, falling back to the
/// `PLANPOOL_URL` setting, with trailing slashes removed.
pub fn base_url(flag: &Option<String>, env_url: &Option<String>) -> (r: Result<String, String>)
    ensures
        match chosen_base_url(opt_view(*flag), opt_view(*env_url)) {
            Some(b) => r matches Ok(u) && u@ == b,
            None => r matches Err(e) && e@ == no_url_error(),
        },
{
    match flag {
        Some(f) => Ok(trim_slashes(f.as_str())),
        None => match env_url {
            Some(e) => Ok(trim_slashes(e.as_str())),
            None => Err(owned("no server URL: set PLANPOOL_URL or pass --url")),
        },
    }
}

/// The `--url` flag overrides `PLANPOOL_URL`: when the flag is given, the
/// server is the flag without its trailing slashes, whatever the setting
/// holds (set or not); without the flag it is the setting, likewise
/// trimmed; with neither there is no server.
pub proof fn law_url_flag_overrides_setting(flag: Seq<char>, env_url: Option<Seq<char>>, setting: Seq<char>)
    ensures
        chosen_base_url(Some(flag), env_url) == Some(trim_trailing_slashes(flag)),
        chosen_base_url(Some(flag), env_url)->0.is_prefix_of(flag),
        chosen_base_url(None, Some(setting)) == Some(trim_trailing_slashes(setting)),
        chosen_base_url(None, Some(setting))->0.is_prefix_of(setting),
        chosen_base_url(None, None) is None,
{
    law_trimming_is_idempotent(flag);
    law_trimming_is_idempotent(setting);
}

/// Whether `s` ends with `p`.
pub fn ends_with(s: &str, p: &str) -> (r: bool)
    ensures
        r == p@.is_suffix_of(s@),
{
    let cs = chars_of(s);
    let ps = chars_of(p);
    let n = cs.len();
    let m = ps.len();
    if m > n {
        return false;
    }
    let off = n - m;
    let mut i: usize = 0;
    while i < m
        invariant
            cs@ == s@,
            ps@ == p@,
            n == s@.len(),
            m == p@.len(),
            off == n - m,
            i <= m,
            forall|j: int| 0 <= j < i ==> p@[j] == s@[off + j],
        decreases m - i,
    {
        if cs[off + i] != ps[i] {
            assert(p@[i as int] != s@.subrange(off as int, n as int)[i as int]);
            return false;
        }
        i = i + 1;
    }
    assert(p@ =~= s@.subrange(off as int, n as int));
    true
}

/// Whether `s` begins with `p`.
pub fn starts_with(s: &str, p: &str) -> (r: bool)
    ensures
        r == p@.is_prefix_of(s@),
{
    let cs = chars_of(s);
    let ps = chars_of(p);
    let n = cs.len();
    let m = ps.len();
    if m > n {
        return false;
    }
    let mut i: usize = 0;
    while i < m
        invariant
            cs@ == s@,
            ps@ == p@,
            n == s@.len(),
            m == p@.len(),
            m <= n,
            i <= m,
            forall|j: int| 0 <= j < i ==> p@[j] == s@[j],
        decreases m - i,
    {
        if cs[i] != ps[i] {
            return false;
        }
        i = i + 1;
    }
    true
}

/// Whether a plan reference is a web URL rather than a bare ID.
pub open spec fn is_web_url(s: Seq<char>) -> bool {
    "http://"@.is_prefix_of(s) || "https://"@.is_prefix_of(s)
}

/// What `pp open` opens for a plan reference: the URL itself when one is
/// given (after checking that it points at a plan), otherwise the plan's
/// URL on the configured server.
pub fn open_target(plan: &str, flag: &Option<String>, env_url: &Option<String>) -> (r: Result<
    String,
    String,
>)
    ensures
        if !refers_to_plan(plan@) {
            r matches Err(e) && e@ == not_a_plan_error(plan@)
        } else if is_web_url(plan@) {
            r matches Ok(t) && t@ == plan@
        } else {
            match chosen_base_url(opt_view(*flag), opt_view(*env_url)) {
                Some(b) => r matches Ok(t) && t@ == b + "/plans/"@ + id_candidate(plan@),
                None => r matches Err(e) && e@ == no_url_error(),
            }
        },
{
    if starts_with(plan, "http://") || starts_with(plan, "https://") {
        match extract_id(plan) {
            Ok(_) => Ok(owned(plan)),
            Err(e) => Err(e),
        }
    } else {
        let id = match extract_id(plan) {
            Ok(id) => id,
            Err(e) => return Err(e),
        };
        let mut target = match base_url(flag, env_url) {
            Ok(b) => b,
            Err(e) => return Err(e),
        };
        target.append("/plans/");
        target.append(id.as_str());
        Ok(target)
    }
}

/// Plan references that start with `http://` are web URLs just as those
/// that start with `https://` are, and [`open_target`] opens either as
/// given; any other reference is looked up on the configured server.
pub proof fn law_web_plan_urls_open_as_given(p: Seq<char>)
    ensures
        "http://"@.is_prefix_of(p) ==> is_web_url(p),
        "https://"@.is_prefix_of(p) ==> is_web_url(p),
        !"http://"@.is_prefix_of(p) && !"https://"@.is_prefix_of(p) ==> !is_web_url(p),
{
}

/// The message for empty input.
pub open spec fn empty_input_error() -> Seq<char> {
    "input is empty"@
}

/// Refuses an empty plan document.
pub fn check_input(html: Vec<u8>) -> (r: Result<Vec<u8>, String>)
    ensures
        html@.len() == 0 ==> (r matches Err(e) && e@ == empty_input_error()),
        html@.len() > 0 ==> (r matches Ok(h) && h@ == html@),
{
    if html.len() == 0 {
        Err(owned("input is empty"))
    } else {
        Ok(html)
    }
}

// ---------------------------------------------------------------------------
// Decimal round trip
// ---------------------------------------------------------------------------

proof fn lemma_decimal_digits(n: nat)
    ensures
        decimal(n).len() > 0,
        all_digits(decimal(n)),
        digits_value(decimal(n)) == n,
    decreases n,
{
    crate::text::lemma_digit_char((n % 10) as int);
    if n < 10 {
        assert(n % 10 == n);
        assert(decimal(n).drop_last() =~= Seq::<char>::empty());
        assert(digits_value(decimal(n)) == digits_value(Seq::<char>::empty()) * 10 + digit_value(decimal(n).last()));
    } else {
        lemma_decimal_digits(n / 10);
        let d = decimal(n);
        assert(d.drop_last() =~= decimal(n / 10));
        assert(d.last() == hex_char((n % 10) as int));
        assert(all_digits(d)) by {
            assert forall|j: int| 0 <= j < d.len() implies is_digit(#[trigger] d[j]) by {
                if j < d.len() - 1 {
                    assert(d[j] == decimal(n / 10)[j]);
                }
            }
        }
        assert(n == (n / 10) * 10 + n % 10);
        assert(digits_value(d) == digits_value(d.drop_last()) * 10 + digit_value(d.last()));
    }
}

/// Seconds written out in decimal read back as the same number: what the
/// client sends as `?ttl=` is what a decimal reader takes it to be.
pub proof fn law_seconds_round_trip(n: u64)
    ensures
        u64_from_decimal(decimal(n as nat)) == Some(n),
{
    lemma_decimal_digits(n as nat);
    let d = decimal(n as nat);
    assert(is_digit(d[0]));
    assert(unsigned_digits(d) == d);
}


/// A client of the configured server: the base URL from the `--url` flag
/// or `PLANPOOL_URL` (see [`base_url`]), authenticating with `token`.
pub fn make_client(flag: &Option<String>, env_url: &Option<String>, token: Option<String>) -> (r: Result<
    Client,
    String,
>)
    ensures
        match chosen_base_url(opt_view(*flag), opt_view(*env_url)) {
            Some(b) => r matches Ok(c) && c.base() == b && c.credential() == opt_view(token),
            None => r matches Err(e) && e@ == no_url_error(),
        },
{
    match base_url(flag, env_url) {
        Ok(url) => Ok(Client::new(url, token)),
        Err(e) => Err(e),
    }
}

// ---------------------------------------------------------------------------
// Status notes
// ---------------------------------------------------------------------------

/// One part of a spelled lifetime: `value` followed by `name`, with a
/// trailing `s` for a `plural` name whose value is above one.
pub open spec fn lifetime_part(value: nat, name: Seq<char>, plural: bool) -> Seq<char> {
    decimal(value) + name + if plural && value > 1 {
        "s"@
    } else {
        Seq::empty()
    }
}

/// `text` followed by one more part, a space between them; a part of
/// value zero is left out.
pub open spec fn add_part(text: Seq<char>, value: nat, name: Seq<char>, plural: bool) -> Seq<char> {
    if value == 0 {
        text
    } else if text.len() == 0 {
        lifetime_part(value, name, plural)
    } else {
        text + " "@ + lifetime_part(value, name, plural)
    }
}

/// How a lifetime of `secs` whole seconds is spelled: years of 365.25 days,
/// months of 30.44 days, days, hours, minutes and seconds, largest first,
/// each left out when zero, and `0s` for no time at all. So 90061 seconds
/// are `1day 1h 1m 1s` and two weeks are `14days`.
pub open spec fn lifetime_text(secs: nat) -> Seq<char> {
    if secs == 0 {
        "0s"@
    } else {
        let years = secs / 31_557_600;
        let ydays = secs % 31_557_600;
        let months = ydays / 2_630_016;
        let mdays = ydays % 2_630_016;
        let days = mdays / 86400;
        let day_secs = mdays % 86400;
        let t = add_part(Seq::empty(), years, "year"@, true);
        let t = add_part(t, months, "month"@, true);
        let t = add_part(t, days, "day"@, true);
        let t = add_part(t, day_secs / 3600, "h"@, false);
        let t = add_part(t, day_secs % 3600 / 60, "m"@, false);
        add_part(t, day_secs % 60, "s"@, false)
    }
}

/// Spells a lifetime the way people read it, such as `2h` or `7days`.
///
/// Calls `humantime::format_duration` (humantime 2.4) on `secs` whole
/// seconds and renders it with its `Display`, which writes the parts that
/// [`lifetime_text`] lists (its millisecond, microsecond and nanosecond
/// parts are zero for whole seconds) and cannot fail.
#[verifier::external_body]
fn format_lifetime(secs: u64) -> (r: String)
    ensures
        r@ == lifetime_text(secs as nat),
{
    humantime::format_duration(std::time::Duration::from_secs(secs)).to_string()
}

/// The note `pp push` prints about a stored plan: its ID, how many bytes
/// were sent, and how long it lives, spelled as `lifetime`.
pub fn push_note_with(created: &PlanCreated, size: usize, lifetime: &str) -> (r: String)
    ensures
        r@ == "pushed "@ + created.id@ + " ("@ + decimal(size as nat) + " bytes), expires in "@
            + lifetime@,
{
    let mut note = owned("pushed ");
    note.append(created.id.as_str());
    note.append(" (");
    let digits = decimal_string(size as u64);
    note.append(digits.as_str());
    note.append(" bytes), expires in ");
    note.append(lifetime);
    note
}

/// The note `pp push` prints about a stored plan, with its lifetime spelled
/// by humantime.
pub fn push_note(created: &PlanCreated, size: usize) -> (r: String)
    ensures
        r@ == "pushed "@ + created.id@ + " ("@ + decimal(size as nat) + " bytes), expires in "@
            + lifetime_text(
            if created.expires_at >= created.created_at {
                (created.expires_at - created.created_at) as nat
            } else {
                0
            },
        ),
{
    let lifetime = format_lifetime(created.lifetime_secs());
    push_note_with(created, size, lifetime.as_str())
}

/// What `pp health` does once the server has answered: `None` when a token
/// is set and is to be probed, else the note that says why it is not.
pub fn token_note(has_token: bool) -> (r: Option<String>)
    ensures
        has_token ==> r is None,
        !has_token ==> (r matches Some(n) && n@ == "token not set (PLANPOOL_TOKEN) — push/delete unavailable"@),
{
    if has_token {
        None
    } else {
        Some(owned("token not set (PLANPOOL_TOKEN) — push/delete unavailable"))
    }
}

} // verus!
