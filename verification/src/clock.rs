use vstd::prelude::*;
use vstd::string::*;
use time_tz::OffsetDateTimeExt;
use crate::book_type::{NANOS_PER_SECOND, NANOS_PER_MINUTE, NANOS_PER_HOUR};
use crate::table::BookingTable;
use crate::text::{decimal, digit_char, to_decimal};
use crate::protocol::{Action, ActionView, Event, EventView, Step, StepView, act, act_with_note, quiet};

verus! {

pub const NANOS_PER_DAY: i128 = 86_400_000_000_000i128;
/// One millisecond: how far past the opening time the booking starts.
pub const NANOS_PER_MILLI: i128 = 1_000_000i128;

/// The time zone of the booking site.
pub const BOOKING_ZONE: &'static str = "Europe/Dublin";
/// The format of the times of day that the site shows and that the user gives.
pub const HOUR_MINUTE_FORMAT: &'static str = "[hour]:[minute]";

/// The instants, in whole seconds since 1970, whose local date stays within the
/// years -9999 to 9999 in any offset.
pub const MIN_UNIX_SECONDS: i64 = -377_705_016_800i64;
pub const MAX_UNIX_SECONDS: i64 = 253_402_200_799i64;

/// Division rounding toward zero, as Rust's `/` on integers does.
pub open spec fn trunc_div(a: int, b: int) -> int {
    if a >= 0 {
        a / b
    } else {
        -((-a) / b)
    }
}

/// The remainder that goes with `trunc_div`, as Rust's `%` on integers.
pub open spec fn trunc_rem(a: int, b: int) -> int {
    a - b * trunc_div(a, b)
}

/// What `format!("{:02}", n)` writes: at least two characters, zero-padded.
pub open spec fn two_digits(n: int) -> Seq<char> {
    if n < 0 {
        seq!['-'] + decimal((-n) as nat)
    } else if n < 10 {
        seq!['0', digit_char(n as nat)]
    } else {
        decimal(n as nat)
    }
}

/// How `format_duration` writes a duration of `nanos` nanoseconds.
pub open spec fn duration_text(nanos: int) -> Seq<char> {
    let total = trunc_div(nanos, NANOS_PER_SECOND as int);
    two_digits(trunc_div(total, 3600)) + " hrs "@ + two_digits(trunc_div(trunc_rem(total, 3600), 60))
        + " mins "@ + two_digits(trunc_rem(total, 60)) + " secs"@
}

/// Writes `value` as `format!("{:02}", value)` does.
pub fn pad2(value: i64) -> (s: String)
    ensures
        s@ == two_digits(value as int),
{
    if value < 0 {
        let magnitude: u64 = if value == i64::MIN {
            9_223_372_036_854_775_808u64
        } else {
            (-value) as u64
        };
        let mut s = String::from_str("-");
        let digits = to_decimal(magnitude);
        s.append(digits.as_str());
        proof {
            reveal_strlit("-");
        }
        assert(s@ =~= seq!['-'] + decimal((-value) as nat));
        s
    } else if value < 10 {
        let mut s = String::from_str("0");
        let digits = to_decimal(value as u64);
        s.append(digits.as_str());
        proof {
            reveal_strlit("0");
        }
        assert(s@ =~= seq!['0', digit_char(value as nat)]);
        s
    } else {
        to_decimal(value as u64)
    }
}

/// The length of a duration as hours, minutes and seconds, each at least two
/// digits wide, counted toward zero from the whole seconds.
pub fn format_duration(nanos: i128) -> (text: String)
    requires
        (i64::MIN as int) * NANOS_PER_SECOND <= nanos < (i64::MAX as int + 1) * NANOS_PER_SECOND,
    ensures
        text@ == duration_text(nanos as int),
{
    let negative = nanos < 0;
    let magnitude: u128 = if negative {
        (0 - nanos) as u128
    } else {
        nanos as u128
    };
    let secs: u128 = magnitude / 1_000_000_000u128;
    let h: u128 = secs / 3600;
    let m: u128 = (secs % 3600) / 60;
    let s: u128 = secs % 60;
    proof {
        assert(secs <= 9_223_372_036_854_775_808u128);
    }
    let (hours, minutes, seconds): (i64, i64, i64) = if negative {
        (0 - (h as i64), 0 - (m as i64), 0 - (s as i64))
    } else {
        (h as i64, m as i64, s as i64)
    };
    proof {
        let total = trunc_div(nanos as int, NANOS_PER_SECOND as int);
        if negative {
            assert(total == -(secs as int));
            assert(trunc_div(total, 3600) == hours);
            assert(trunc_rem(total, 3600) == -((secs % 3600) as int));
            assert(trunc_div(trunc_rem(total, 3600), 60) == minutes);
            assert(trunc_rem(total, 60) == seconds);
        } else {
            assert(total == secs as int);
        }
    }
    let mut text = pad2(hours);
    text.append(" hrs ");
    let mp = pad2(minutes);
    text.append(mp.as_str());
    text.append(" mins ");
    let sp = pad2(seconds);
    text.append(sp.as_str());
    text.append(" secs");
    text
}

pub open spec fn is_ascii_digit(c: char) -> bool {
    '0' <= c && c <= '9'
}

pub open spec fn digit_value(c: char) -> int {
    (c as int) - 48
}

/// The hour and minute written as `HH:MM` (two ASCII digits each, hour at most 23,
/// minute at most 59), the only texts that `[hour]:[minute]` accepts.
pub open spec fn hour_minute_of(s: Seq<char>) -> Option<(int, int)> {
    if s.len() == 5 && is_ascii_digit(s[0]) && is_ascii_digit(s[1]) && s[2] == ':'
        && is_ascii_digit(s[3]) && is_ascii_digit(s[4]) {
        let h = 10 * digit_value(s[0]) + digit_value(s[1]);
        let m = 10 * digit_value(s[3]) + digit_value(s[4]);
        if h < 24 && m < 60 {
            Some((h, m))
        } else {
            None
        }
    } else {
        None
    }
}

/// Parses `text` with time's `Time::parse` in the format description `format`
/// (read with `format_description::parse`). For `[hour]:[minute]` time's parser takes
/// exactly two ASCII digits, a colon and two ASCII digits, nothing after them,
/// and refuses an hour over 23 or a minute over 59; the contract states that.
#[verifier::external_body]
pub(crate) fn parse_hour_minute(text: &str, format: &str) -> (res: Option<(u8, u8)>)
    requires
        format@ == HOUR_MINUTE_FORMAT@,
    ensures
        match res {
            Some((h, m)) => hour_minute_of(text@) == Some((h as int, m as int)),
            None => hour_minute_of(text@) is None,
        },
{
    let items = time::format_description::parse(format).ok()?;
    let t = time::Time::parse(text, &items).ok()?;
    Some((t.hour(), t.minute()))
}

/// Writes the time of day `hour:minute` with time's `Time::format` in the format
/// description `format` (read with `format_description::parse`); for
/// `[hour]:[minute]` both fields are written as two zero-padded digits.
#[verifier::external_body]
fn format_hour_minute(hour: u8, minute: u8, format: &str) -> (text: String)
    requires
        hour < 24,
        minute < 60,
        format@ == HOUR_MINUTE_FORMAT@,
    ensures
        text@ == two_digits(hour as int) + ":"@ + two_digits(minute as int),
{
    let items = time::format_description::parse(format).unwrap();
    time::Time::from_hms(hour, minute, 0).unwrap().format(&items).unwrap()
}

/// The offset from UTC, in seconds, of the time zone named `zone` at the instant
/// `unix_seconds`; `None` when time-tz knows no zone of that name.
pub uninterp spec fn zone_offset(zone: Seq<char>, unix_seconds: int) -> Option<int>;

/// Looks the zone up with time-tz's `timezones::get_by_name` and reads the offset
/// that `to_timezone` gives the instant (made with time's
/// `OffsetDateTime::from_unix_timestamp`). The contract names the result, and
/// states the bound that time's `UtcOffset` keeps (under 26 hours either way).
#[verifier::external_body]
fn zone_offset_seconds(zone: &str, unix_seconds: i64) -> (offset: Option<i32>)
    requires
        MIN_UNIX_SECONDS <= unix_seconds <= MAX_UNIX_SECONDS,
    ensures
        match offset {
            Some(o) => zone_offset(zone@, unix_seconds as int) == Some(o as int) && -93600 < o
                < 93600,
            None => zone_offset(zone@, unix_seconds as int) is None,
        },
{
    let tz = time_tz::timezones::get_by_name(zone)?;
    let utc = time::OffsetDateTime::from_unix_timestamp(unix_seconds).ok()?;
    Some(utc.to_timezone(tz).offset().whole_seconds())
}

/// The time of day `hour:minute`, in nanoseconds since midnight.
pub open spec fn time_of_day(hour: int, minute: int) -> int {
    hour * NANOS_PER_HOUR + minute * NANOS_PER_MINUTE
}

/// The instants that `unix_nanos` may be: those the time zone lookup takes.
pub open spec fn instant_in_range(unix_nanos: int) -> bool {
    (MIN_UNIX_SECONDS as int) * NANOS_PER_SECOND <= unix_nanos < (MAX_UNIX_SECONDS as int + 1)
        * NANOS_PER_SECOND
}

/// The local time of day, in nanoseconds since midnight, at the instant
/// `unix_nanos` in the booking site's zone; `None` when the zone is unknown.
pub open spec fn local_time_of_day(unix_nanos: int) -> Option<int> {
    match zone_offset(BOOKING_ZONE@, unix_nanos / (NANOS_PER_SECOND as int)) {
        Some(o) => Some((unix_nanos + o * NANOS_PER_SECOND) % (NANOS_PER_DAY as int)),
        None => None,
    }
}

/// The local time of day, in nanoseconds since midnight, of the instant `unix_nanos`
/// (nanoseconds since 1970 in UTC) in the booking site's time zone.
pub fn booking_time_of_day(unix_nanos: i128) -> (tod: Option<i128>)
    requires
        instant_in_range(unix_nanos as int),
    ensures
        match tod {
            Some(t) => local_time_of_day(unix_nanos as int) == Some(t as int),
            None => local_time_of_day(unix_nanos as int) is None,
        },
{
    let secs: i128 = if unix_nanos >= 0 {
        ((unix_nanos as u128) / 1_000_000_000u128) as i128
    } else {
        let m: u128 = (0 - unix_nanos) as u128;
        0 - (((m + 999_999_999u128) / 1_000_000_000u128) as i128)
    };
    assert(secs == (unix_nanos as int) / (NANOS_PER_SECOND as int)) by (nonlinear_arith)
        requires
            unix_nanos >= 0 ==> secs == (unix_nanos as int) / 1_000_000_000int,
            unix_nanos < 0 ==> secs == -(((-unix_nanos) + 999_999_999int) / 1_000_000_000int),
    ;
    let offset = match zone_offset_seconds(BOOKING_ZONE, secs as i64) {
        Some(o) => o,
        None => return None,
    };
    let local: i128 = unix_nanos + (offset as i128) * NANOS_PER_SECOND;
    let r: i128 = if local >= 0 {
        ((local as u128) % 86_400_000_000_000u128) as i128
    } else {
        let m: u128 = ((0 - local) as u128) % 86_400_000_000_000u128;
        if m == 0 {
            0
        } else {
            NANOS_PER_DAY - (m as i128)
        }
    };
    assert(r == (local as int) % (NANOS_PER_DAY as int)) by (nonlinear_arith)
        requires
            local >= 0 ==> r == (local as int) % 86_400_000_000_000int,
            local < 0 ==> r == (if (-local) % 86_400_000_000_000int == 0 {
                0
            } else {
                86_400_000_000_000int - (-local) % 86_400_000_000_000int
            }),
    ;
    Some(r)
}

/// Which clock reading the waiting loop waits for.
#[derive(Debug, Clone, Copy, PartialEq, Eq, Structural)]
pub enum WaitPhase {
    /// Has the target been reached?
    Check,
    /// How long is left?
    Measure,
    /// How long is left, when it is ten minutes or less?
    Fine,
}

/// What the waiting loop does after a clock reading.
#[derive(Debug, Clone, Copy, PartialEq, Eq, Structural)]
pub enum WaitStep {
    /// Read the clock again, for this phase.
    ReadClock(WaitPhase),
    /// Sleep this many nanoseconds, then start over with a check.
    Sleep(i128),
    /// The target has been reached.
    Done,
}

/// The waiting loop: once the target is reached it stops; with more than half an
/// hour left it sleeps five minutes, with more than ten minutes one minute, and
/// otherwise for what is left as a new reading shows, at most a millisecond.
pub open spec fn wait_step_spec(target: int, phase: WaitPhase, now: int) -> WaitStep {
    match phase {
        WaitPhase::Check => if now >= target {
            WaitStep::Done
        } else {
            WaitStep::ReadClock(WaitPhase::Measure)
        },
        WaitPhase::Measure => if target - now > 30 * NANOS_PER_MINUTE {
            WaitStep::Sleep((5 * NANOS_PER_MINUTE) as i128)
        } else if target - now > 10 * NANOS_PER_MINUTE {
            WaitStep::Sleep(NANOS_PER_MINUTE as i128)
        } else {
            WaitStep::ReadClock(WaitPhase::Fine)
        },
        WaitPhase::Fine => WaitStep::Sleep(
            if target - now < NANOS_PER_MILLI {
                (target - now) as i128
            } else {
                NANOS_PER_MILLI
            },
        ),
    }
}

/// One turn of the waiting loop, for the clock reading `now`.
pub fn wait_step(target: i128, phase: WaitPhase, now: i128) -> (step: WaitStep)
    requires
        i128::MIN / 4 <= target <= i128::MAX / 4,
        i128::MIN / 4 <= now <= i128::MAX / 4,
    ensures
        step == wait_step_spec(target as int, phase, now as int),
{
    match phase {
        WaitPhase::Check => if now >= target {
            WaitStep::Done
        } else {
            WaitStep::ReadClock(WaitPhase::Measure)
        },
        WaitPhase::Measure => {
            let remaining = target - now;
            if remaining > 30 * NANOS_PER_MINUTE {
                WaitStep::Sleep(5 * NANOS_PER_MINUTE)
            } else if remaining > 10 * NANOS_PER_MINUTE {
                WaitStep::Sleep(NANOS_PER_MINUTE)
            } else {
                WaitStep::ReadClock(WaitPhase::Fine)
            }
        },
        WaitPhase::Fine => {
            let remaining = target - now;
            WaitStep::Sleep(
                if remaining < NANOS_PER_MILLI {
                    remaining
                } else {
                    NANOS_PER_MILLI
                },
            )
        },
    }
}

/// The waiting loop never sleeps past the target, as the reading that the sleep
/// was decided on shows it, and stops only once the target is reached.
pub proof fn lemma_wait_never_oversleeps(target: int, phase: WaitPhase, now: int)
    requires
        i128::MIN <= target - now <= i128::MAX,
    ensures
        wait_step_spec(target, phase, now) matches WaitStep::Sleep(d) ==> d <= target - now,
        wait_step_spec(target, phase, now) == WaitStep::Done ==> now >= target,
        phase == WaitPhase::Measure ==> (wait_step_spec(target, phase, now) matches WaitStep::Sleep(
            d,
        ) ==> d > 0),
{
}

/// Where waiting for the booking time stands.
#[derive(Debug, Clone, Copy, PartialEq, Eq, Structural)]
pub enum WaitStage {
    /// A reading to tell how long is left.
    ClockForWait,
    /// A reading for the time shown in the message; how long is left.
    ClockForMessage(i128),
    /// A reading to place the target.
    ClockForTarget,
    /// A reading for the waiting loop; the target.
    Waiting(i128, WaitPhase),
    /// A sleep of the waiting loop; the target.
    Sleeping(i128),
    /// Waiting is over.
    Done,
}

/// Waiting until the slot at `timeslot` (nanoseconds since midnight, local time)
/// opens for booking, `open` nanoseconds before it, plus a millisecond.
pub struct BookWait {
    pub timeslot: i128,
    pub open: i128,
    pub stage: WaitStage,
}

/// The message shown before a long wait: the local time `tod` as `HH:MM` and how
/// long the wait `dt` is.
pub open spec fn wait_note(tod: int, dt: int) -> Seq<char> {
    "Current time is "@ + two_digits(tod / NANOS_PER_HOUR as int) + ":"@ + two_digits(
        (tod % NANOS_PER_HOUR as int) / NANOS_PER_MINUTE as int,
    ) + ". Sleeping for "@ + duration_text(dt) + ". Do not close this window."@
}

/// How the run stops when the site's time zone is unknown.
pub open spec fn zone_abort() -> ActionView {
    quiet(StepView::Abort("Failed to find Dublin timezone"@, None))
}

/// What waiting does with the event `e` in the stage `stage`: the next stage, and
/// the action, or `None` when waiting is over.
pub open spec fn wait_next(stage: WaitStage, timeslot: int, open: int, e: EventView) -> (
    WaitStage,
    Option<ActionView>,
) {
    match (stage, e) {
        (WaitStage::ClockForWait, EventView::Clock(now)) => match local_time_of_day(now) {
            None => (WaitStage::Done, Some(zone_abort())),
            Some(t) => {
                let dt = timeslot - t - open + NANOS_PER_MILLI;
                if dt > 0 {
                    (WaitStage::ClockForMessage(dt as i128), Some(quiet(StepView::ReadClock)))
                } else {
                    (WaitStage::Done, None)
                }
            },
        },
        (WaitStage::ClockForMessage(dt), EventView::Clock(now)) => match local_time_of_day(now) {
            None => (WaitStage::Done, Some(zone_abort())),
            Some(t) => (
                WaitStage::ClockForTarget,
                Some(ActionView { notes: seq![wait_note(t, dt as int)], step: StepView::ReadClock }),
            ),
        },
        (WaitStage::ClockForTarget, EventView::Clock(now)) => match local_time_of_day(now) {
            None => (WaitStage::Done, Some(zone_abort())),
            Some(t) => (
                WaitStage::Waiting((now - t + timeslot - open + NANOS_PER_MILLI) as i128, WaitPhase::Check),
                Some(quiet(StepView::ReadClock)),
            ),
        },
        (WaitStage::Waiting(target, phase), EventView::Clock(now)) => match wait_step_spec(
            target as int,
            phase,
            now,
        ) {
            WaitStep::Done => (WaitStage::Done, None),
            WaitStep::ReadClock(p) => (WaitStage::Waiting(target, p), Some(quiet(StepView::ReadClock))),
            WaitStep::Sleep(d) => (WaitStage::Sleeping(target), Some(quiet(StepView::Sleep(d as int)))),
        },
        (WaitStage::Sleeping(target), EventView::Slept) => (
            WaitStage::Waiting(target, WaitPhase::Check),
            Some(quiet(StepView::ReadClock)),
        ),
        _ => (WaitStage::Done, None),
    }
}

/// The events that waiting in the stage `stage` takes.
pub open spec fn wait_accepts(stage: WaitStage, e: EventView) -> bool {
    match (stage, e) {
        (WaitStage::Sleeping(_), EventView::Slept) => true,
        (WaitStage::Sleeping(_), _) => false,
        (WaitStage::Done, _) => false,
        (_, EventView::Clock(now)) => instant_in_range(now),
        _ => false,
    }
}

pub open spec fn target_in_range(target: int) -> bool {
    (MIN_UNIX_SECONDS as int - 200_000) * NANOS_PER_SECOND <= target <= (MAX_UNIX_SECONDS as int
        + 200_000) * NANOS_PER_SECOND
}

impl BookWait {
    /// The bounds that keep the arithmetic of waiting exact.
    pub open spec fn well_formed(&self) -> bool {
        &&& 0 <= self.timeslot < NANOS_PER_DAY
        &&& 0 <= self.open <= NANOS_PER_DAY
        &&& match self.stage {
            WaitStage::ClockForMessage(dt) => -3 * NANOS_PER_DAY <= dt <= 3 * NANOS_PER_DAY,
            WaitStage::Waiting(target, _) => target_in_range(target as int),
            WaitStage::Sleeping(target) => target_in_range(target as int),
            _ => true,
        }
    }

    /// The local time of day in the site's zone, or the action that stops the run.
    fn local_now(now: i128) -> (res: Result<i128, Action>)
        requires
            instant_in_range(now as int),
        ensures
            match (res, local_time_of_day(now as int)) {
                (Ok(t), Some(u)) => t == u && 0 <= t < NANOS_PER_DAY,
                (Err(a), None) => a.deep_view() == zone_abort(),
                _ => false,
            },
    {
        match booking_time_of_day(now) {
            Some(t) => {
                assert(0 <= t < NANOS_PER_DAY);
                Ok(t)
            },
            None => Err(act(Step::Abort(String::from_str("Failed to find Dublin timezone"), None))),
        }
    }

    /// Takes in the event that the last action brought and says what to do next:
    /// `None` when waiting is over.
    pub fn step(&mut self, e: Event) -> (a: Option<Action>)
        requires
            old(self).well_formed(),
            wait_accepts(old(self).stage, e.deep_view()),
        ensures
            final(self).well_formed(),
            final(self).timeslot == old(self).timeslot,
            final(self).open == old(self).open,
            (final(self).stage, match a {
                Some(x) => Some(x.deep_view()),
                None => None,
            }) == wait_next(old(self).stage, old(self).timeslot as int, old(self).open as int, e.deep_view()),
    {
        match (self.stage, e) {
            (WaitStage::ClockForWait, Event::Clock(now)) => match BookWait::local_now(now) {
                Err(a) => {
                    self.stage = WaitStage::Done;
                    Some(a)
                },
                Ok(t) => {
                    let dt = self.timeslot - t - self.open + NANOS_PER_MILLI;
                    if dt > 0 {
                        self.stage = WaitStage::ClockForMessage(dt);
                        Some(act(Step::ReadClock))
                    } else {
                        self.stage = WaitStage::Done;
                        None
                    }
                },
            },
            (WaitStage::ClockForMessage(dt), Event::Clock(now)) => match BookWait::local_now(now) {
                Err(a) => {
                    self.stage = WaitStage::Done;
                    Some(a)
                },
                Ok(t) => {
                    assert(t / NANOS_PER_HOUR < 24 && (t % NANOS_PER_HOUR) / NANOS_PER_MINUTE < 60)
                        by (nonlinear_arith)
                        requires
                            0 <= t < 86_400_000_000_000i128,
                    ;
                    let hour = (t / NANOS_PER_HOUR) as u8;
                    let minute = ((t % NANOS_PER_HOUR) / NANOS_PER_MINUTE) as u8;
                    let mut note = String::from_str("Current time is ");
                    let hm = format_hour_minute(hour, minute, HOUR_MINUTE_FORMAT);
                    note.append(hm.as_str());
                    note.append(". Sleeping for ");
                    let d = format_duration(dt);
                    note.append(d.as_str());
                    note.append(". Do not close this window.");
                    assert(note@ =~= wait_note(t as int, dt as int));
                    self.stage = WaitStage::ClockForTarget;
                    Some(act_with_note(note, Step::ReadClock))
                },
            },
            (WaitStage::ClockForTarget, Event::Clock(now)) => match BookWait::local_now(now) {
                Err(a) => {
                    self.stage = WaitStage::Done;
                    Some(a)
                },
                Ok(t) => {
                    let target = now - t + self.timeslot - self.open + NANOS_PER_MILLI;
                    self.stage = WaitStage::Waiting(target, WaitPhase::Check);
                    Some(act(Step::ReadClock))
                },
            },
            (WaitStage::Waiting(target, phase), Event::Clock(now)) => match wait_step(target, phase, now) {
                WaitStep::Done => {
                    self.stage = WaitStage::Done;
                    None
                },
                WaitStep::ReadClock(p) => {
                    self.stage = WaitStage::Waiting(target, p);
                    Some(act(Step::ReadClock))
                },
                WaitStep::Sleep(d) => {
                    self.stage = WaitStage::Sleeping(target);
                    Some(act(Step::Sleep(d)))
                },
            },
            (WaitStage::Sleeping(target), Event::Slept) => {
                self.stage = WaitStage::Waiting(target, WaitPhase::Check);
                Some(act(Step::ReadClock))
            },
            _ => {
                self.stage = WaitStage::Done;
                None
            },
        }
    }
}

/// Starts waiting until the slot at `timeslot` (nanoseconds since midnight, local
/// time) of `book_table` opens: the first thing is to read the clock.
pub fn sleep_until_book_time(book_table: &BookingTable, timeslot: i128) -> (res: (BookWait, Action))
    requires
        0 <= timeslot < NANOS_PER_DAY,
    ensures
        res.0.well_formed(),
        res.0.timeslot == timeslot,
        res.0.open == book_table.book_type.spec_open_time(),
        res.0.stage == WaitStage::ClockForWait,
        res.1.deep_view() == quiet(StepView::ReadClock),
{
    let wait = BookWait {
        timeslot,
        open: book_table.book_type.open_time(),
        stage: WaitStage::ClockForWait,
    };
    (wait, act(Step::ReadClock))
}

/// The hours, minutes and seconds that `format_duration` writes add back up to the
/// whole seconds of the duration, minutes and seconds stay under sixty, and all three
/// have the duration's sign.
pub proof fn lemma_duration_parts(total: int)
    ensures
        trunc_div(total, 3600) * 3600 + trunc_div(trunc_rem(total, 3600), 60) * 60 + trunc_rem(
            total,
            60,
        ) == total,
        -60 < trunc_div(trunc_rem(total, 3600), 60) < 60,
        -60 < trunc_rem(total, 60) < 60,
        total >= 0 ==> trunc_div(total, 3600) >= 0 && trunc_div(trunc_rem(total, 3600), 60) >= 0
            && trunc_rem(total, 60) >= 0,
        total <= 0 ==> trunc_div(total, 3600) <= 0 && trunc_div(trunc_rem(total, 3600), 60) <= 0
            && trunc_rem(total, 60) <= 0,
{
    let m = if total >= 0 { total } else { -total };
    assert(m == (m / 3600) * 3600 + ((m % 3600) / 60) * 60 + m % 60) by (nonlinear_arith)
        requires
            m >= 0,
    ;
    assert(0 <= (m % 3600) / 60 < 60 && 0 <= m % 60 < 60 && m / 3600 >= 0) by (nonlinear_arith)
        requires
            m >= 0,
    ;
    assert((m % 3600) % 60 == m % 60) by (nonlinear_arith)
        requires
            m >= 0,
    ;
}

} // verus!
