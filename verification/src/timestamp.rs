//! Run identifiers: a UTC timestamp of the start of the run, to the
//! millisecond, followed by the run's label.
use vstd::prelude::*;

use crate::text::{digit, digit_char, is_ascii_digit, three_digits};

verus! {

/// Why a run's timestamp could not be written.
#[derive(Debug, Clone, Copy, PartialEq, Eq, Structural)]
pub enum TimestampError {
    /// The start time, in whole seconds, does not fit in an `i64`.
    SecondsOverflow,
    /// The `time` crate holds no date for that many seconds.
    OutOfRange,
    /// The `time` crate refused the format description.
    InvalidDescription,
    /// The `time` crate could not format the date.
    Format,
}

/// The earliest Unix time, in seconds, that the `time` crate turns into a
/// date (the start of the year -9999).
pub const MIN_UNIX_SECONDS: i64 = -377_705_116_800;

/// The latest Unix time, in seconds, that the `time` crate turns into a date
/// (the last second of the year 9999).
pub const MAX_UNIX_SECONDS: i64 = 253_402_300_799;

/// The text that the `time` crate writes for the UTC date and time that lies
/// `seconds` after the Unix epoch, following the format `description`.
pub uninterp spec fn formatted_unix_timestamp(seconds: i64, description: Seq<char>) -> Seq<char>;

/// `seconds` after the Unix epoch lies within the dates of the `time` crate.
pub open spec fn in_time_range(seconds: i64) -> bool {
    MIN_UNIX_SECONDS <= seconds <= MAX_UNIX_SECONDS
}

/// The compact date layout of run ids: `YYYYMMDDTHHMMSS`.
pub open spec fn compact_description() -> Seq<char> {
    "[year][month][day]T[hour][minute][second]"@
}

/// Text in the compact date layout: eight digits, `T`, six digits.
pub open spec fn is_compact_datetime(text: Seq<char>) -> bool {
    &&& text.len() == 15
    &&& text[8] == 'T'
    &&& forall|i: int| 0 <= i < 15 && i != 8 ==> is_ascii_digit(#[trigger] text[i])
}

/// Builds the UTC date of `seconds` with `time::OffsetDateTime::from_unix_timestamp`,
/// parses `description` with `time::format_description::parse` and formats the
/// date with `time::OffsetDateTime::format`. The contract claims: the date
/// exists exactly when `seconds` lies within the `time` crate's range (the
/// first call fails otherwise, before anything else is tried); on success the
/// text is the named formatting of `seconds` under `description`; for the
/// compact layout all three calls succeed within that range (the layout is a
/// valid version-1 description and formatting its date and time fields has no
/// failure path), and from the epoch on (years 1970 to 9999, four-digit years
/// without sign, every field zero-padded) the text is eight digits, `T` and
/// six digits. It does not say for which other descriptions the last two calls
/// succeed, nor which date the digits spell. The range bounds are those of the
/// `time` crate built without its `large-dates` feature, as this crate's
/// manifest asks for it; with that feature on the range clause would not hold.
#[verifier::external_body]
fn format_unix_timestamp(seconds: i64, description: &str) -> (r: Result<String, TimestampError>)
    ensures
        r matches Ok(text) ==> text@ == formatted_unix_timestamp(seconds, description@),
        (r matches Err(TimestampError::OutOfRange)) == !in_time_range(seconds),
        !(r matches Err(TimestampError::SecondsOverflow)),
        in_time_range(seconds) && description@ == compact_description() ==> r is Ok,
        0 <= seconds && r is Ok && description@ == compact_description() ==> is_compact_datetime(
            r->Ok_0@,
        ),
{
    let datetime = match time::OffsetDateTime::from_unix_timestamp(seconds) {
        Ok(datetime) => datetime,
        Err(_) => return Err(TimestampError::OutOfRange),
    };
    #[allow(deprecated)]
    let items = match time::format_description::parse(description) {
        Ok(items) => items,
        Err(_) => return Err(TimestampError::InvalidDescription),
    };
    match datetime.format(&items) {
        Ok(text) => Ok(text),
        Err(_) => Err(TimestampError::Format),
    }
}

/// A formatted date followed by `.`, the milliseconds within the second as
/// three digits, and `Z`.
pub open spec fn with_millis(datetime: Seq<char>, unix_ms: nat) -> Seq<char> {
    datetime + seq!['.'] + three_digits(unix_ms % 1000) + seq!['Z']
}

/// The whole seconds of a millisecond Unix time fit in an `i64`.
pub open spec fn seconds_fit(unix_ms: u128) -> bool {
    unix_ms / 1000 <= i64::MAX
}

/// The start time's seconds lie on or before the last second of the year
/// 9999, where the `time` crate's dates end.
pub open spec fn within_calendar(unix_ms: u128) -> bool {
    seconds_fit(unix_ms) && unix_ms / 1000 <= MAX_UNIX_SECONDS
}

/// The run timestamp of a millisecond Unix time: its UTC date in the compact
/// layout, then the milliseconds and `Z`.
pub open spec fn run_stamp(unix_ms: u128) -> Seq<char> {
    with_millis(
        formatted_unix_timestamp((unix_ms / 1000) as i64, compact_description()),
        unix_ms as nat,
    )
}

/// `datetime` followed by `.`, the milliseconds of `unix_ms` within its
/// second (zero-padded to three digits) and `Z`.
pub fn stamp_with_millis(datetime: &str, unix_ms: u128) -> (r: String)
    ensures
        r@ == with_millis(datetime@, unix_ms as nat),
{
    let ms = (unix_ms % 1000) as u32;
    let mut r = datetime.to_owned();
    r.push('.');
    r.push(digit((ms / 100) % 10));
    r.push(digit((ms / 10) % 10));
    r.push(digit(ms % 10));
    r.push('Z');
    assert(r@ =~= with_millis(datetime@, unix_ms as nat));
    r
}

/// The UTC timestamp of a start time in Unix milliseconds, such as
/// `20260622T022115.254Z`.
pub fn utc_run_timestamp(started_unix_ms: u128) -> (r: Result<String, TimestampError>)
    ensures
        (r matches Err(TimestampError::SecondsOverflow)) == !seconds_fit(started_unix_ms),
        (r matches Err(TimestampError::OutOfRange)) == (seconds_fit(started_unix_ms)
            && started_unix_ms / 1000 > MAX_UNIX_SECONDS),
        r matches Ok(text) ==> text@ == run_stamp(started_unix_ms),
        within_calendar(started_unix_ms) ==> r is Ok,
        r matches Ok(text) ==> is_compact_datetime(text@.take(15)) && text@.len() == 20,
{
    let whole = started_unix_ms / 1000;
    if whole > i64::MAX as u128 {
        return Err(TimestampError::SecondsOverflow);
    }
    let seconds = whole as i64;
    let datetime = format_unix_timestamp(seconds, "[year][month][day]T[hour][minute][second]")?;
    let text = stamp_with_millis(datetime.as_str(), started_unix_ms);
    assert(text@.take(15) =~= datetime@);
    Ok(text)
}

/// The run id for a run that started at `started_unix_ms` with `label`:
/// the UTC timestamp, a dash, then the label.
pub fn run_id(started_unix_ms: u128, label: &str) -> (r: Result<String, TimestampError>)
    ensures
        (r matches Err(TimestampError::SecondsOverflow)) == !seconds_fit(started_unix_ms),
        (r matches Err(TimestampError::OutOfRange)) == (seconds_fit(started_unix_ms)
            && started_unix_ms / 1000 > MAX_UNIX_SECONDS),
        r matches Ok(id) ==> id@ == run_stamp(started_unix_ms) + seq!['-'] + label@,
        within_calendar(started_unix_ms) ==> r is Ok,
{
    let mut id = utc_run_timestamp(started_unix_ms)?;
    id.push('-');
    id.append(label);
    Ok(id)
}

/// `a` sorts strictly before `b`, character by character.
pub open spec fn sorts_before(a: Seq<char>, b: Seq<char>) -> bool {
    exists|i: int|
        0 <= i <= a.len() && i <= b.len() && #[trigger] a.take(i) == b.take(i) && ((i == a.len()
            && i < b.len()) || (i < a.len() && i < b.len() && a[i] < b[i]))
}

/// A number below a thousand is its three decimal digits.
proof fn lemma_three_digit_value(x: nat)
    requires
        x < 1000,
    ensures
        x == 100 * ((x / 100) % 10) + 10 * ((x / 10) % 10) + x % 10,
        (x / 100) % 10 < 10,
        (x / 10) % 10 < 10,
        x % 10 < 10,
{
    assert(x == 100 * ((x / 100) % 10) + 10 * ((x / 10) % 10) + x % 10) by (nonlinear_arith)
        requires
            x < 1000,
    ;
}

/// Of two numbers below a thousand, the smaller has the smaller three-digit
/// numeral.
#[verifier::rlimit(20)]
proof fn lemma_three_digits_sorted(x: nat, y: nat)
    requires
        x < y < 1000,
    ensures
        sorts_before(three_digits(x), three_digits(y)),
{
    lemma_three_digit_value(x);
    lemma_three_digit_value(y);
    let (hx, dx, ux) = ((x / 100) % 10, (x / 10) % 10, x % 10);
    let (hy, dy, uy) = ((y / 100) % 10, (y / 10) % 10, y % 10);
    let tx = three_digits(x);
    let ty = three_digits(y);
    assert(tx == seq![digit_char(hx as int), digit_char(dx as int), digit_char(ux as int)]);
    assert(ty == seq![digit_char(hy as int), digit_char(dy as int), digit_char(uy as int)]);
    if hx != hy {
        assert(hx < hy);
        assert(tx.take(0) =~= ty.take(0));
        assert(tx[0] < ty[0]);
    } else if dx != dy {
        assert(dx < dy);
        assert(tx.take(1) =~= ty.take(1));
        assert(tx[1] < ty[1]);
    } else {
        assert(ux < uy);
        assert(tx.take(2) =~= ty.take(2));
        assert(tx[2] < ty[2]);
    }
}

/// Putting the same text before and after two equally long texts keeps
/// their order.
proof fn lemma_sorted_in_context(pre: Seq<char>, a: Seq<char>, b: Seq<char>, post: Seq<char>)
    requires
        sorts_before(a, b),
        a.len() == b.len(),
    ensures
        sorts_before(pre + a + post, pre + b + post),
{
    let i = choose|i: int|
        0 <= i <= a.len() && i <= b.len() && #[trigger] a.take(i) == b.take(i) && ((i == a.len()
            && i < b.len()) || (i < a.len() && i < b.len() && a[i] < b[i]));
    let sa = pre + a + post;
    let sb = pre + b + post;
    let j = pre.len() + i;
    assert(sa.take(j) =~= pre + a.take(i));
    assert(sb.take(j) =~= pre + b.take(i));
    assert(sa[j] == a[i] && sb[j] == b[i]);
}

/// Two runs that start within the same second get timestamps, and so run
/// ids with the same label, in the order of their start times.
pub proof fn lemma_same_second_stamps_sorted(a: u128, b: u128)
    requires
        a < b,
        a / 1000 == b / 1000,
    ensures
        sorts_before(run_stamp(a), run_stamp(b)),
{
    let d = formatted_unix_timestamp((a / 1000) as i64, compact_description());
    let ma = (a % 1000) as nat;
    let mb = (b % 1000) as nat;
    assert(ma < mb);
    lemma_three_digits_sorted(ma, mb);
    lemma_sorted_in_context(d + seq!['.'], three_digits(ma), three_digits(mb), seq!['Z']);
}

/// A run id is its timestamp and its label with a dash between them, so the
/// id ends with `-` and the label, and two runs that start in the same
/// millisecond get different ids exactly when their labels differ.
pub proof fn lemma_run_id_layout(started_unix_ms: u128, label: Seq<char>, other: Seq<char>)
    ensures
        ({
            let id = run_stamp(started_unix_ms) + seq!['-'] + label;
            &&& id.subrange(id.len() - label.len() - 1, id.len() as int) == seq!['-'] + label
            &&& id.take(run_stamp(started_unix_ms).len() as int) == run_stamp(started_unix_ms)
        }),
        (run_stamp(started_unix_ms) + seq!['-'] + label == run_stamp(started_unix_ms) + seq!['-']
            + other) <==> label == other,
{
    let stamp = run_stamp(started_unix_ms);
    let id = stamp + seq!['-'] + label;
    assert(id.subrange(id.len() - label.len() - 1, id.len() as int) =~= seq!['-'] + label);
    assert(id.take(stamp.len() as int) =~= stamp);
    let id2 = stamp + seq!['-'] + other;
    if id == id2 {
        assert(id.len() == id2.len());
        assert(label =~= id.subrange(stamp.len() as int + 1, id.len() as int));
        assert(other =~= id2.subrange(stamp.len() as int + 1, id2.len() as int));
    }
}

} // verus!
