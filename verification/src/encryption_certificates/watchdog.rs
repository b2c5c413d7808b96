//! The certificate watchdog's time arithmetic: the `YYYY-MM-DD HH:MM:SS`
//! issue-date format, conversion to and from epoch seconds, and the renewal
//! rule (a certificate is due ten days before its configured duration runs
//! out).

use vstd::prelude::*;

use crate::textutil::lemma_digit_char_val;
use crate::textutil::pad2;
use crate::textutil::pad4;
use crate::textutil::spec_digit_val;
use crate::textutil::spec_is_digit;
use crate::textutil::spec_pad2;
use crate::textutil::spec_pad4;
use crate::settings::structs::CertificateSettings;
use crate::settings::structs::CertificateSettingsView;

verus! {

/// A calendar timestamp, naive (no zone), second precision.
#[derive(Clone, Copy, Debug, PartialEq, Eq, Structural)]
pub struct DateTime {
    pub year: i64,
    pub month: i64,
    pub day: i64,
    pub hour: i64,
    pub minute: i64,
    pub second: i64,
}

/// Leap years of the Gregorian calendar.
pub open spec fn spec_is_leap_year(y: int) -> bool {
    y % 4 == 0 && (y % 100 != 0 || y % 400 == 0)
}

/// Days in a month of a given year.
pub open spec fn spec_days_in_month(y: int, m: int) -> int {
    if m == 2 {
        if spec_is_leap_year(y) {
            29
        } else {
            28
        }
    } else if m == 4 || m == 6 || m == 9 || m == 11 {
        30
    } else {
        31
    }
}

/// A representable timestamp: a real calendar date with a four-digit year
/// after year zero, and a time of day.
pub open spec fn spec_datetime_valid(dt: DateTime) -> bool {
    &&& 1 <= dt.year <= 9999
    &&& 1 <= dt.month <= 12
    &&& 1 <= dt.day <= spec_days_in_month(dt.year as int, dt.month as int)
    &&& 0 <= dt.hour <= 23
    &&& 0 <= dt.minute <= 59
    &&& 0 <= dt.second <= 59
}

/// Days since 1970-01-01 of a calendar date (negative before it).
pub open spec fn spec_days_from_civil(y: int, m: int, d: int) -> int {
    let yy = if m <= 2 {
        y - 1
    } else {
        y
    };
    let era = yy / 400;
    let yoe = yy - era * 400;
    let mp = if m > 2 {
        m - 3
    } else {
        m + 9
    };
    let doy = (153 * mp + 2) / 5 + d - 1;
    let doe = yoe * 365 + yoe / 4 - yoe / 100 + doy;
    era * 146097 + doe - 719468
}

/// Seconds since the epoch of a timestamp.
pub open spec fn spec_datetime_to_secs(dt: DateTime) -> int {
    spec_days_from_civil(dt.year as int, dt.month as int, dt.day as int) * 86400 + (dt.hour as int)
        * 3600 + (dt.minute as int) * 60 + (dt.second as int)
}

fn is_leap_year(y: i64) -> (r: bool)
    requires
        0 <= y,
    ensures
        r == spec_is_leap_year(y as int),
{
    y % 4 == 0 && (y % 100 != 0 || y % 400 == 0)
}

fn days_in_month(y: i64, m: i64) -> (r: i64)
    requires
        0 <= y,
    ensures
        r == spec_days_in_month(y as int, m as int),
{
    if m == 2 {
        if is_leap_year(y) {
            29
        } else {
            28
        }
    } else if m == 4 || m == 6 || m == 9 || m == 11 {
        30
    } else {
        31
    }
}

/// Whether the timestamp is a real calendar date and time of day.
pub fn datetime_valid(dt: &DateTime) -> (r: bool)
    ensures
        r == spec_datetime_valid(*dt),
{
    1 <= dt.year && dt.year <= 9999 && 1 <= dt.month && dt.month <= 12 && 1 <= dt.day && dt.day
        <= days_in_month(dt.year, dt.month) && 0 <= dt.hour && dt.hour <= 23 && 0 <= dt.minute
        && dt.minute <= 59 && 0 <= dt.second && dt.second <= 59
}

/// Seconds since the epoch of a representable timestamp.
pub fn datetime_to_secs(dt: &DateTime) -> (r: i64)
    requires
        spec_datetime_valid(*dt),
    ensures
        r as int == spec_datetime_to_secs(*dt),
{
    let yy: u64 = if dt.month <= 2 {
        (dt.year - 1) as u64
    } else {
        dt.year as u64
    };
    let era: u64 = yy / 400;
    let yoe: u64 = yy - era * 400;
    let mp: u64 = if dt.month > 2 {
        (dt.month - 3) as u64
    } else {
        (dt.month + 9) as u64
    };
    let doy: u64 = (153 * mp + 2) / 5 + (dt.day as u64) - 1;
    let doe: u64 = yoe * 365 + yoe / 4 - yoe / 100 + doy;
    let days: i64 = ((era * 146097 + doe) as i64) - 719468;
    days * 86400 + dt.hour * 3600 + dt.minute * 60 + dt.second
}

/// The shape of an issue-date string: nineteen characters, digits and the
/// fixed separators in their places.
pub open spec fn spec_datetime_shape(s: Seq<char>) -> bool {
    &&& s.len() == 19
    &&& s[4] == '-' && s[7] == '-' && s[10] == ' ' && s[13] == ':' && s[16] == ':'
    &&& spec_is_digit(s[0]) && spec_is_digit(s[1]) && spec_is_digit(s[2]) && spec_is_digit(s[3])
    &&& spec_is_digit(s[5]) && spec_is_digit(s[6])
    &&& spec_is_digit(s[8]) && spec_is_digit(s[9])
    &&& spec_is_digit(s[11]) && spec_is_digit(s[12])
    &&& spec_is_digit(s[14]) && spec_is_digit(s[15])
    &&& spec_is_digit(s[17]) && spec_is_digit(s[18])
}

/// The value of two digit characters at an offset.
pub open spec fn spec_num2(s: Seq<char>, i: int) -> int {
    spec_digit_val(s[i]) * 10 + spec_digit_val(s[i + 1])
}

/// The value of four digit characters at an offset.
pub open spec fn spec_num4(s: Seq<char>, i: int) -> int {
    spec_digit_val(s[i]) * 1000 + spec_digit_val(s[i + 1]) * 100 + spec_digit_val(s[i + 2]) * 10
        + spec_digit_val(s[i + 3])
}

/// The timestamp an issue-date string denotes, when it has the right shape
/// and denotes a real date.
pub open spec fn spec_parse_datetime(s: Seq<char>) -> Option<DateTime> {
    if spec_datetime_shape(s) {
        let dt = DateTime {
            year: spec_num4(s, 0) as i64,
            month: spec_num2(s, 5) as i64,
            day: spec_num2(s, 8) as i64,
            hour: spec_num2(s, 11) as i64,
            minute: spec_num2(s, 14) as i64,
            second: spec_num2(s, 17) as i64,
        };
        if spec_datetime_valid(dt) {
            Some(dt)
        } else {
            None
        }
    } else {
        None
    }
}

fn is_digit(c: char) -> (r: bool)
    ensures
        r == spec_is_digit(c),
{
    let v = c as u32;
    48 <= v && v <= 57
}

fn digit_val(c: char) -> (r: i64)
    requires
        spec_is_digit(c),
    ensures
        r == spec_digit_val(c),
        0 <= r <= 9,
{
    ((c as u32) - 48) as i64
}

/// Parses an issue date in the `YYYY-MM-DD HH:MM:SS` format; nothing is
/// returned for a malformed string or an impossible date.
pub fn parse_datetime(s: &str) -> (r: Option<DateTime>)
    ensures
        r == spec_parse_datetime(s@),
{
    if s.unicode_len() != 19 {
        return None;
    }
    let mut i: usize = 0;
    while i < 19
        invariant
            i <= 19,
            s@.len() == 19,
            forall|j: int|
                0 <= j < i ==> (if j == 4 || j == 7 {
                    s@[j] == '-'
                } else if j == 10 {
                    s@[j] == ' '
                } else if j == 13 || j == 16 {
                    s@[j] == ':'
                } else {
                    spec_is_digit(#[trigger] s@[j])
                }),
        decreases 19 - i,
    {
        let c = s.get_char(i);
        let ok = if i == 4 || i == 7 {
            c == '-'
        } else if i == 10 {
            c == ' '
        } else if i == 13 || i == 16 {
            c == ':'
        } else {
            is_digit(c)
        };
        if !ok {
            return None;
        }
        i = i + 1;
    }
    let year = digit_val(s.get_char(0)) * 1000 + digit_val(s.get_char(1)) * 100 + digit_val(
        s.get_char(2),
    ) * 10 + digit_val(s.get_char(3));
    let month = digit_val(s.get_char(5)) * 10 + digit_val(s.get_char(6));
    let day = digit_val(s.get_char(8)) * 10 + digit_val(s.get_char(9));
    let hour = digit_val(s.get_char(11)) * 10 + digit_val(s.get_char(12));
    let minute = digit_val(s.get_char(14)) * 10 + digit_val(s.get_char(15));
    let second = digit_val(s.get_char(17)) * 10 + digit_val(s.get_char(18));
    let dt = DateTime { year, month, day, hour, minute, second };
    if datetime_valid(&dt) {
        Some(dt)
    } else {
        None
    }
}

proof fn lemma_pad2_parses(n: int)
    requires
        0 <= n < 100,
    ensures
        spec_is_digit(spec_pad2(n)[0]),
        spec_is_digit(spec_pad2(n)[1]),
        spec_digit_val(spec_pad2(n)[0]) * 10 + spec_digit_val(spec_pad2(n)[1]) == n,
{
    lemma_digit_char_val(((n / 10) % 10) as nat);
    lemma_digit_char_val((n % 10) as nat);
    assert((n / 10) % 10 * 10 + n % 10 == n) by {
        assert(n / 10 < 10);
        assert((n / 10) % 10 == n / 10);
        assert(n / 10 * 10 + n % 10 == n) by (nonlinear_arith)
            requires
                0 <= n,
        ;
    }
}

proof fn lemma_pad4_parses(n: int)
    requires
        0 <= n < 10000,
    ensures
        spec_is_digit(spec_pad4(n)[0]),
        spec_is_digit(spec_pad4(n)[1]),
        spec_is_digit(spec_pad4(n)[2]),
        spec_is_digit(spec_pad4(n)[3]),
        spec_digit_val(spec_pad4(n)[0]) * 1000 + spec_digit_val(spec_pad4(n)[1]) * 100
            + spec_digit_val(spec_pad4(n)[2]) * 10 + spec_digit_val(spec_pad4(n)[3]) == n,
{
    lemma_digit_char_val(((n / 1000) % 10) as nat);
    lemma_digit_char_val(((n / 100) % 10) as nat);
    lemma_digit_char_val(((n / 10) % 10) as nat);
    lemma_digit_char_val((n % 10) as nat);
    assert((n / 1000) % 10 * 1000 + (n / 100) % 10 * 100 + (n / 10) % 10 * 10 + n % 10 == n) by {
        assert(n / 1000 < 10);
        assert((n / 1000) % 10 == n / 1000);
        assert(n / 1000 * 1000 + (n / 100) % 10 * 100 + (n / 10) % 10 * 10 + n % 10 == n)
            by (nonlinear_arith)
            requires
                0 <= n < 10000,
        ;
    }
}

/// Renders a representable timestamp in the `YYYY-MM-DD HH:MM:SS` format;
/// the result always parses back to the same timestamp.
pub fn format_datetime(dt: &DateTime) -> (r: String)
    requires
        spec_datetime_valid(*dt),
    ensures
        spec_parse_datetime(r@) == Some(*dt),
{
    let s = pad4(dt.year).concat("-").concat(pad2(dt.month).as_str()).concat("-").concat(
        pad2(dt.day).as_str(),
    ).concat(" ").concat(pad2(dt.hour).as_str()).concat(":").concat(
        pad2(dt.minute).as_str(),
    ).concat(":").concat(pad2(dt.second).as_str());
    proof {
        let v = s@;
        assert(v =~= spec_pad4(dt.year as int) + "-"@ + spec_pad2(dt.month as int) + "-"@
            + spec_pad2(dt.day as int) + " "@ + spec_pad2(dt.hour as int) + ":"@ + spec_pad2(
            dt.minute as int,
        ) + ":"@ + spec_pad2(dt.second as int));
        reveal_strlit("-");
        reveal_strlit(" ");
        reveal_strlit(":");
        assert(v.len() == 19);
        lemma_pad4_parses(dt.year as int);
        lemma_pad2_parses(dt.month as int);
        lemma_pad2_parses(dt.day as int);
        lemma_pad2_parses(dt.hour as int);
        lemma_pad2_parses(dt.minute as int);
        lemma_pad2_parses(dt.second as int);
        assert(v[0] == spec_pad4(dt.year as int)[0]);
        assert(v[1] == spec_pad4(dt.year as int)[1]);
        assert(v[2] == spec_pad4(dt.year as int)[2]);
        assert(v[3] == spec_pad4(dt.year as int)[3]);
        assert(v[4] == '-');
        assert(v[5] == spec_pad2(dt.month as int)[0]);
        assert(v[6] == spec_pad2(dt.month as int)[1]);
        assert(v[7] == '-');
        assert(v[8] == spec_pad2(dt.day as int)[0]);
        assert(v[9] == spec_pad2(dt.day as int)[1]);
        assert(v[10] == ' ');
        assert(v[11] == spec_pad2(dt.hour as int)[0]);
        assert(v[12] == spec_pad2(dt.hour as int)[1]);
        assert(v[13] == ':');
        assert(v[14] == spec_pad2(dt.minute as int)[0]);
        assert(v[15] == spec_pad2(dt.minute as int)[1]);
        assert(v[16] == ':');
        assert(v[17] == spec_pad2(dt.second as int)[0]);
        assert(v[18] == spec_pad2(dt.second as int)[1]);
        assert(spec_datetime_shape(v));
        assert(spec_num4(v, 0) == dt.year as int);
        assert(spec_num2(v, 5) == dt.month as int);
        assert(spec_num2(v, 8) == dt.day as int);
        assert(spec_num2(v, 11) == dt.hour as int);
        assert(spec_num2(v, 14) == dt.minute as int);
        assert(spec_num2(v, 17) == dt.second as int);
        assert(spec_parse_datetime(v) == Some(*dt));
    }
    s
}

/// Whole days between two instants, rounded towards zero (negative when
/// `now` lies before `issued`).
pub open spec fn spec_days_between(now: int, issued: int) -> int {
    if now >= issued {
        (now - issued) / 86400
    } else {
        -((issued - now) / 86400)
    }
}

/// Whole days between two instants, rounded towards zero.
pub fn days_between(now: i64, issued: i64) -> (r: i64)
    requires
        -0x2000_0000_0000_0000 < now < 0x2000_0000_0000_0000,
        -0x2000_0000_0000_0000 < issued < 0x2000_0000_0000_0000,
    ensures
        r as int == spec_days_between(now as int, issued as int),
{
    if now >= issued {
        let d: i64 = now - issued;
        ((d as u64) / 86400) as i64
    } else {
        let d: i64 = issued - now;
        -(((d as u64) / 86400) as i64)
    }
}

/// The renewal rule: with the issue date parsed from `date_issued`, a
/// certificate of the given duration (in days) is due for renewal once at
/// least `duration - 10` whole days have passed — nothing is returned when
/// the recorded issue date does not parse.
pub fn renewal_due(date_issued: &str, now_secs: i64, duration: i64) -> (r: Option<bool>)
    requires
        -0x2000_0000_0000_0000 < now_secs < 0x2000_0000_0000_0000,
        duration > i64::MIN + 10,
    ensures
        match r {
            Some(due) => spec_parse_datetime(date_issued@) matches Some(dt) && due == (
            spec_days_between(now_secs as int, spec_datetime_to_secs(dt)) >= duration - 10),
            None => spec_parse_datetime(date_issued@) is None,
        },
{
    match parse_datetime(date_issued) {
        Some(dt) => {
            let issued = datetime_to_secs(&dt);
            proof {
                assert(spec_datetime_valid(dt));
            }
            let elapsed = days_between(now_secs, issued);
            Some(elapsed >= duration - 10)
        },
        None => None,
    }
}

/// The startup decision for one whole certificate entry, over the
/// existence of its files: what to do for the CA pair (when one is
/// configured) and for the leaf pair.  A missing CA pair regenerates both
/// the CA and the leaf, whatever leaf files exist — a fresh CA must
/// re-sign the leaf; otherwise the leaf is decided by its own files.
pub fn startup_materialization(
    ca_present: bool,
    ca_key_exists: bool,
    ca_cert_exists: bool,
    ca_aux_missing: bool,
    leaf_key_exists: bool,
    leaf_cert_exists: bool,
    leaf_aux_missing: bool,
) -> (r: (MaterializeAction, MaterializeAction))
    ensures
        !ca_present ==> r.0 == MaterializeAction::Nothing,
        ca_present && !(ca_key_exists && ca_cert_exists) ==> r.0 == MaterializeAction::GenerateFull
            && r.1 == MaterializeAction::GenerateFull,
        ca_present && ca_key_exists && ca_cert_exists && ca_aux_missing ==> r.0
            == MaterializeAction::PopulateAux,
        ca_present && ca_key_exists && ca_cert_exists && !ca_aux_missing ==> r.0
            == MaterializeAction::Nothing,
        !(ca_present && !(ca_key_exists && ca_cert_exists)) ==> {
            &&& !(leaf_key_exists && leaf_cert_exists) ==> r.1 == MaterializeAction::GenerateFull
            &&& leaf_key_exists && leaf_cert_exists && leaf_aux_missing ==> r.1
                == MaterializeAction::PopulateAux
            &&& leaf_key_exists && leaf_cert_exists && !leaf_aux_missing ==> r.1
                == MaterializeAction::Nothing
        },
{
    let ca_action = if !ca_present {
        MaterializeAction::Nothing
    } else {
        materialization_action(ca_key_exists, ca_cert_exists, ca_aux_missing)
    };
    let leaf_action = if ca_present && !(ca_key_exists && ca_cert_exists) {
        MaterializeAction::GenerateFull
    } else {
        materialization_action(leaf_key_exists, leaf_cert_exists, leaf_aux_missing)
    };
    (ca_action, leaf_action)
}

/// Seconds the watchdog sleeps between renewal passes: one day.
pub fn watchdog_timeout_secs() -> (r: u64)
    ensures
        r == 86400,
{
    86400
}

/// The calendar form of a non-negative epoch timestamp, walked out year by
/// year and checked against the exact arithmetic: when a timestamp is
/// returned it is a real calendar date that converts back to the given
/// seconds.  Nothing is returned for instants before the epoch or beyond
/// the representable years.
pub fn secs_to_datetime(secs: i64) -> (r: Option<DateTime>)
    ensures
        r matches Some(dt) ==> spec_datetime_valid(dt) && spec_datetime_to_secs(dt) == secs as int,
{
    if secs < 0 {
        return None;
    }
    let days: i64 = ((secs as u64) / 86400) as i64;
    let rem: i64 = ((secs as u64) % 86400) as i64;
    let mut year: i64 = 1970;
    let mut remaining: i64 = days;
    loop
        invariant
            0 <= remaining <= days,
            0 <= days,
            1970 <= year <= 9999,
        ensures
            0 <= remaining < 366,
            1970 <= year <= 9999,
        decreases remaining,
    {
        let len: i64 = if is_leap_year(year) {
            366
        } else {
            365
        };
        if remaining < len {
            break;
        }
        remaining = remaining - len;
        if year == 9999 {
            return None;
        }
        year = year + 1;
    }
    let mut month: i64 = 1;
    while month < 12
        invariant
            1 <= month <= 12,
            0 <= remaining < 366,
            1970 <= year <= 9999,
        decreases 12 - month,
    {
        let len = days_in_month(year, month);
        if remaining < len {
            break;
        }
        remaining = remaining - len;
        month = month + 1;
    }
    let dt = DateTime {
        year,
        month,
        day: remaining + 1,
        hour: rem / 3600,
        minute: (rem % 3600) / 60,
        second: rem % 60,
    };
    if datetime_valid(&dt) {
        if datetime_to_secs(&dt) == secs {
            Some(dt)
        } else {
            None
        }
    } else {
        None
    }
}

/// The invariant of the watchdog's working set: the main certificate (and
/// the CA, when one is configured) carries a recorded issue date that
/// parses under the `YYYY-MM-DD HH:MM:SS` format.
pub open spec fn spec_watchdog_retains(cert: CertificateSettingsView) -> bool {
    &&& cert.main_certificate.date_issued matches Some(d) && spec_parse_datetime(d) is Some
    &&& (cert.cert_authority matches Some(ca) ==> ca.date_issued matches Some(d)
        && spec_parse_datetime(d) is Some)
}

/// Whether the watchdog may retain this certificate: every recorded issue
/// date is present and parses, so each renewal check can evaluate it.
pub fn watchdog_retains(cert: &CertificateSettings) -> (r: bool)
    ensures
        r == spec_watchdog_retains(cert@),
{
    let main_ok = match &cert.main_certificate.date_issued {
        Some(d) => parse_datetime(d.as_str()).is_some(),
        None => false,
    };
    let ca_ok = match &cert.cert_authority {
        Some(ca) => match &ca.date_issued {
            Some(d) => parse_datetime(d.as_str()).is_some(),
            None => false,
        },
        None => true,
    };
    main_ok && ca_ok
}

/// What the startup materialization does for one key/certificate pair:
/// generate it from scratch when either main file is missing, mirror it to
/// the auxiliary paths when only an auxiliary file is missing, and nothing
/// otherwise.
#[derive(Clone, Copy, Debug, PartialEq, Eq, Structural)]
pub enum MaterializeAction {
    GenerateFull,
    PopulateAux,
    Nothing,
}

/// The startup-materialization decision for one key/certificate pair.
pub fn materialization_action(
    main_key_exists: bool,
    main_cert_exists: bool,
    any_aux_missing: bool,
) -> (r: MaterializeAction)
    ensures
        !(main_key_exists && main_cert_exists) ==> r == MaterializeAction::GenerateFull,
        main_key_exists && main_cert_exists && any_aux_missing ==> r
            == MaterializeAction::PopulateAux,
        main_key_exists && main_cert_exists && !any_aux_missing ==> r
            == MaterializeAction::Nothing,
{
    if !(main_key_exists && main_cert_exists) {
        MaterializeAction::GenerateFull
    } else if any_aux_missing {
        MaterializeAction::PopulateAux
    } else {
        MaterializeAction::Nothing
    }
}

} // verus!
