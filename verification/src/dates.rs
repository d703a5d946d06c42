use vstd::prelude::*;
use vstd::string::StringExecFns;

verus! {

/// Number of milliseconds in one calendar day.
pub const MILLIS_PER_DAY: u64 = 86_400_000;

/// Number of seconds in one calendar day.
pub const SECONDS_PER_DAY: u64 = 86_400;

/// Largest epoch day (days since 1970-01-01) for which a calendar label is
/// computed. Days beyond it lie outside the calendar library's supported
/// range and yield no date separator.
pub const MAX_LABEL_DAY: u64 = 92_000_000;

/// The epoch day containing the given millisecond timestamp, when it is
/// within labelling range.
pub open spec fn spec_ts_to_day(ts_millis: u64) -> Option<u64> {
    let day = ts_millis as int / MILLIS_PER_DAY as int;
    if day <= MAX_LABEL_DAY as int {
        Some(day as u64)
    } else {
        None
    }
}

/// Compute the epoch day of a millisecond timestamp; `None` when the day
/// lies outside labelling range.
pub fn ts_to_day(ts_millis: u64) -> (r: Option<u64>)
    ensures
        r == spec_ts_to_day(ts_millis),
{
    let day = ts_millis / MILLIS_PER_DAY;
    if day <= MAX_LABEL_DAY {
        Some(day)
    } else {
        None
    }
}

/// The full-date label ("month day, year" in English) that the calendar
/// library renders for the day containing the given second-of-epoch value.
pub uninterp spec fn full_date_label(secs: int) -> Seq<char>;

/// Relies on chrono's `DateTime::<Utc>::from_timestamp` and its
/// `"%B %d, %Y"` formatting: the rendered label depends on the seconds
/// value alone. Within the required range the timestamp maps to a date far
/// inside chrono's documented limits, so the conversion succeeds.
#[verifier::external_body]
fn chrono_date_label(secs: i64) -> (r: String)
    requires
        0 <= secs <= 8_000_000_000_000,
    ensures
        r@ == full_date_label(secs as int),
{
    let dt = chrono::DateTime::<chrono::Utc>::from_timestamp(secs, 0).unwrap();
    dt.format("%B %d, %Y").to_string()
}

/// Relies on chrono's `Local::now` and `Datelike::num_days_from_ce`: the
/// current date in the viewer's local time zone, counted in days from the
/// common era (1970-01-01 is day 719163). The result depends on the clock
/// and the machine's time zone, so nothing more is promised of it.
#[verifier::external_body]
fn chrono_local_days_from_ce() -> i32 {
    chrono::Datelike::num_days_from_ce(&chrono::Local::now().date_naive())
}

/// Days from the common era to 1970-01-01, tying epoch day numbers to the
/// calendar library's day count.
pub const DAYS_FROM_CE_TO_EPOCH: u64 = 719_163;

/// The current date in the viewer's local time zone, as an epoch day
/// number (clamped to zero for clocks set before 1970).
pub fn today_local_day() -> u64 {
    let ce = chrono_local_days_from_ce();
    if ce <= 0 {
        return 0;
    }
    let ce64 = ce as u64;
    if ce64 < DAYS_FROM_CE_TO_EPOCH {
        0
    } else {
        ce64 - DAYS_FROM_CE_TO_EPOCH
    }
}

/// The date-separator label for `day`, as seen from `today`: "Today",
/// "Yesterday", or the full date.
pub open spec fn spec_date_label(day: u64, today: u64) -> Seq<char> {
    if day == today {
        "Today"@
    } else if day + 1 == today {
        "Yesterday"@
    } else {
        full_date_label(day as int * SECONDS_PER_DAY as int)
    }
}

/// Render the date-separator label for `day` relative to `today`.
pub fn format_date_label(day: u64, today: u64) -> (r: String)
    requires
        day <= MAX_LABEL_DAY,
    ensures
        r@ == spec_date_label(day, today),
{
    if day == today {
        "Today".to_owned()
    } else if day + 1 == today {
        "Yesterday".to_owned()
    } else {
        chrono_date_label((day * SECONDS_PER_DAY) as i64)
    }
}

/// The decimal digit character for `d`.
pub open spec fn spec_digit_char(d: int) -> char {
    if d == 0 {
        '0'
    } else if d == 1 {
        '1'
    } else if d == 2 {
        '2'
    } else if d == 3 {
        '3'
    } else if d == 4 {
        '4'
    } else if d == 5 {
        '5'
    } else if d == 6 {
        '6'
    } else if d == 7 {
        '7'
    } else if d == 8 {
        '8'
    } else {
        '9'
    }
}

fn digit_str(d: u64) -> (r: &'static str)
    requires
        d < 10,
    ensures
        r@ =~= seq![spec_digit_char(d as int)],
{
    proof {
        reveal_strlit("0");
        reveal_strlit("1");
        reveal_strlit("2");
        reveal_strlit("3");
        reveal_strlit("4");
        reveal_strlit("5");
        reveal_strlit("6");
        reveal_strlit("7");
        reveal_strlit("8");
        reveal_strlit("9");
    }
    match d {
        0 => "0",
        1 => "1",
        2 => "2",
        3 => "3",
        4 => "4",
        5 => "5",
        6 => "6",
        7 => "7",
        8 => "8",
        _ => "9",
    }
}

/// The 24-hour "HH:MM" label of the time of day containing the given
/// millisecond timestamp.
pub open spec fn spec_time_label(ts_millis: u64) -> Seq<char> {
    let h = (ts_millis as int / 3_600_000) % 24;
    let m = (ts_millis as int / 60_000) % 60;
    seq![
        spec_digit_char(h / 10),
        spec_digit_char(h % 10),
        ':',
        spec_digit_char(m / 10),
        spec_digit_char(m % 10),
    ]
}

/// Render the "HH:MM" timestamp label of a millisecond timestamp.
pub fn format_time_label(ts_millis: u64) -> (r: String)
    ensures
        r@ == spec_time_label(ts_millis),
{
    proof {
        reveal_strlit(":");
    }
    let h = (ts_millis / 3_600_000) % 24;
    let m = (ts_millis / 60_000) % 60;
    let out = digit_str(h / 10).to_owned()
        .concat(digit_str(h % 10))
        .concat(":")
        .concat(digit_str(m / 10))
        .concat(digit_str(m % 10));
    proof {
        assert(out@ =~= spec_time_label(ts_millis));
    }
    out
}

} // verus!
