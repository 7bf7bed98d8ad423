//! Memento mori: a person's age, the days lived and left of an expected life
//! span, and the days to the next birthday, counted by chrono's calendar.

use vstd::prelude::*;
use std::fmt::Write;
use crate::diary::{push_signed_i64, signed_dec, DiaryDate};
use crate::text::{owned, push_dec, push_str, dec};

verus! {

// ── The calendar ────────────────────────────────────────────

/// `chrono::NaiveDate::parse_from_str(text, format)` as year, month and day;
/// `None` when the text does not parse.
pub uninterp spec fn chrono_parse_date(text: Seq<char>, format: Seq<char>) -> Option<(i32, u32, u32)>;

/// Whether `chrono::NaiveDate::from_ymd_opt(year, month, day)` gives a date.
pub uninterp spec fn chrono_date_exists(year: i32, month: u32, day: u32) -> bool;

/// `(later - earlier).num_days()` of two chrono dates; `None` when either is
/// not a date.
pub uninterp spec fn chrono_days_between(
    later: (i32, u32, u32),
    earlier: (i32, u32, u32),
) -> Option<i64>;

/// A chrono date written by a `strftime` format; `None` when it is not a date,
/// the format does not parse, or it asks for what a date does not have.
pub uninterp spec fn chrono_format_date(date: (i32, u32, u32), format: Seq<char>) -> Option<Seq<char>>;

/// Parses a date by `chrono::NaiveDate::parse_from_str`.
#[verifier::external_body]
fn parse_date(text: &str, format: &str) -> (r: Option<(i32, u32, u32)>)
    ensures
        r == chrono_parse_date(text@, format@),
{
    match chrono::NaiveDate::parse_from_str(text, format) {
        Ok(d) => Some((chrono::Datelike::year(&d), chrono::Datelike::month(&d), chrono::Datelike::day(&d))),
        Err(_) => None,
    }
}

/// Whether a date exists, by `chrono::NaiveDate::from_ymd_opt`.
#[verifier::external_body]
fn date_exists(year: i32, month: u32, day: u32) -> (r: bool)
    ensures
        r == chrono_date_exists(year, month, day),
{
    chrono::NaiveDate::from_ymd_opt(year, month, day).is_some()
}

/// The days from `earlier` to `later`, by chrono's `NaiveDate` subtraction.
/// Chrono's dates lie between the years `MIN_YEAR` and `MAX_YEAR`
/// (`(i32::MIN >> 13) + 1` and `(i32::MAX >> 13) - 1`, naive/date/mod.rs), so
/// two of them are less than 200 000 000 days apart.
#[verifier::external_body]
fn days_between(later: (i32, u32, u32), earlier: (i32, u32, u32)) -> (r: Option<i64>)
    ensures
        r == chrono_days_between(later, earlier),
        r matches Some(n) ==> -200_000_000 < n < 200_000_000,
{
    match (
        chrono::NaiveDate::from_ymd_opt(later.0, later.1, later.2),
        chrono::NaiveDate::from_ymd_opt(earlier.0, earlier.1, earlier.2),
    ) {
        (Some(a), Some(b)) => Some((a - b).num_days()),
        _ => None,
    }
}

/// Writes a date by chrono's `format_with_items`, the format parsed by
/// `StrftimeItems::parse`.
#[verifier::external_body]
fn format_date(date: (i32, u32, u32), format: &str) -> (r: Option<String>)
    ensures
        r matches Some(s) ==> chrono_format_date(date, format@) == Some(s@),
        r is None ==> chrono_format_date(date, format@) is None,
{
    let d = chrono::NaiveDate::from_ymd_opt(date.0, date.1, date.2)?;
    let items = chrono::format::StrftimeItems::new(format).parse().ok()?;
    let mut s = String::new();
    match write!(s, "{}", d.format_with_items(items.iter())) {
        Ok(()) => Some(s),
        Err(_) => None,
    }
}

// ── Life statistics ─────────────────────────────────────────

/// Division that rounds toward zero, as Rust's `/` on integers.
pub open spec fn tdiv(a: int, b: int) -> int {
    if a >= 0 { a / b } else { -((-a) / b) }
}

/// The remainder that goes with `tdiv`, as Rust's `%` on integers.
pub open spec fn trem(a: int, b: int) -> int {
    a - b * tdiv(a, b)
}

/// The date a birth-date text names, or 24 January 2009 when it does not parse.
pub open spec fn birth_of(text: Seq<char>) -> (i32, u32, u32) {
    match chrono_parse_date(text, "%Y-%m-%d"@) {
        Some(d) => d,
        None => (2009, 1, 24),
    }
}

/// The figures of a life so far.
pub struct LifeStats {
    pub birth: (i32, u32, u32),
    /// Days from the birth date to today.
    pub days_lived: i64,
    /// The expected life span in days, 365 to the year.
    pub total_days: i64,
    /// The days still expected, never below 0.
    pub days_remaining: i64,
    /// Whole years of 365 days lived.
    pub age_years: i64,
    /// Whole months of 30 days in what is left of the last year.
    pub age_months: i64,
    pub next_birthday: (i32, u32, u32),
    pub days_to_birthday: i64,
}

/// Whether date `a` comes on or after date `b`.
pub open spec fn on_or_after(a: (i32, u32, u32), b: (i32, u32, u32)) -> bool {
    a.0 > b.0 || (a.0 == b.0 && (a.1 > b.1 || (a.1 == b.1 && a.2 >= b.2)))
}

/// This year's birthday when it has not passed yet, else next year's; a
/// birthday that does not exist in its year (29 February) is today.
pub open spec fn next_birthday_spec(birth: (i32, u32, u32), today: (i32, u32, u32)) -> (i32, u32, u32) {
    let this_year = if chrono_date_exists(today.0, birth.1, birth.2) {
        (today.0, birth.1, birth.2)
    } else {
        today
    };
    if on_or_after(this_year, today) {
        this_year
    } else if today.0 < i32::MAX && chrono_date_exists((today.0 + 1) as i32, birth.1, birth.2) {
        ((today.0 + 1) as i32, birth.1, birth.2)
    } else {
        today
    }
}

/// The life figures for a birth-date text, an expected span in years and
/// today's date; `None` when today is not a date chrono knows.
pub open spec fn life_stats_spec(birth_text: Seq<char>, years: u32, today: (i32, u32, u32)) -> Option<LifeStats> {
    let birth = birth_of(birth_text);
    let next = next_birthday_spec(birth, today);
    match (chrono_days_between(today, birth), chrono_days_between(next, today)) {
        (Some(lived), Some(to_next)) => {
            let total = years * 365;
            Some(LifeStats {
                birth,
                days_lived: lived,
                total_days: total as i64,
                days_remaining: (if total - lived > 0 { total - lived } else { 0 }) as i64,
                age_years: tdiv(lived as int, 365) as i64,
                age_months: tdiv(trem(lived as int, 365), 30) as i64,
                next_birthday: next,
                days_to_birthday: to_next,
            })
        },
        _ => None,
    }
}

fn tdiv_exec(a: i64, b: i64) -> (r: i64)
    requires
        b > 0,
    ensures
        r == tdiv(a as int, b as int),
{
    if a >= 0 {
        a / b
    } else {
        let p: i128 = -(a as i128);
        let q: i128 = p / (b as i128);
        assert(q <= p);
        (-q) as i64
    }
}

/// The life figures for a birth-date text (`YYYY-MM-DD`, else 24 January 2009),
/// an expected span in years and today's date.
pub fn life_stats(birth_text: &str, life_expectancy_years: u32, today: &DiaryDate) -> (r: Option<LifeStats>)
    ensures
        r == life_stats_spec(birth_text@, life_expectancy_years, (today.year, today.month, today.day)),
{
    let t = (today.year, today.month, today.day);
    let birth = match parse_date(birth_text, "%Y-%m-%d") {
        Some(d) => d,
        None => (2009, 1, 24),
    };
    let this_year = if date_exists(t.0, birth.1, birth.2) {
        (t.0, birth.1, birth.2)
    } else {
        t
    };
    let after = this_year.0 > t.0 || (this_year.0 == t.0 && (this_year.1 > t.1 || (this_year.1 == t.1
        && this_year.2 >= t.2)));
    let next = if after {
        this_year
    } else if t.0 < i32::MAX && date_exists(t.0 + 1, birth.1, birth.2) {
        (t.0 + 1, birth.1, birth.2)
    } else {
        t
    };
    let lived = match days_between(t, birth) {
        Some(n) => n,
        None => return None,
    };
    let to_next = match days_between(next, t) {
        Some(n) => n,
        None => return None,
    };
    let total: i64 = (life_expectancy_years as i64) * 365;
    let remaining: i64 = if total - lived > 0 { total - lived } else { 0 };
    let age_years = tdiv_exec(lived, 365);
    let rest = lived - 365 * age_years;
    let age_months = tdiv_exec(rest, 30);
    Some(LifeStats {
        birth,
        days_lived: lived,
        total_days: total,
        days_remaining: remaining,
        age_years,
        age_months,
        next_birthday: next,
        days_to_birthday: to_next,
    })
}

/// The memento mori report, with the share of life lived and the years left
/// already written out (to one decimal) as `lived_percent` and `years_left`.
pub open spec fn life_stats_text(
    s: LifeStats,
    years: u32,
    birth_text: Seq<char>,
    next_text: Seq<char>,
    lived_percent: Seq<char>,
    years_left: Seq<char>,
) -> Seq<char> {
    "⌛ <b>Сухая статистика жизни (Memento Mori)</b>\n\n🎂 <b>Дата рождения:</b> "@ + birth_text
        + "\n👤 <b>Возраст:</b> "@ + signed_dec(s.age_years as int) + " лет, "@ + signed_dec(
        s.age_months as int,
    ) + " мес. (прожито "@ + signed_dec(s.days_lived as int) + " дней)\n📊 <b>Прожито жизни:</b> "@
        + lived_percent + "% (от "@ + dec(years as nat) + " лет / "@ + signed_dec(s.total_days as int)
        + " дней)\n⏳ <b>Осталось до "@ + dec(years as nat) + " лет:</b> "@ + signed_dec(
        s.days_remaining as int,
    ) + " дней (~"@ + years_left + " лет)\n\n🎉 <b>До следующего Дня Рождения:</b> "@ + signed_dec(
        s.days_to_birthday as int,
    ) + " дней ("@ + next_text + ")"@
}

/// The memento mori report (see `life_stats_text`), the dates written
/// `DD.MM.YYYY` by chrono; `None` when chrono cannot write one of them.
pub fn life_stats_message(s: &LifeStats, years: u32, lived_percent: &str, years_left: &str) -> (r: Option<String>)
    ensures
        r matches Some(m) ==> chrono_format_date(s.birth, "%d.%m.%Y"@) matches Some(b)
            && chrono_format_date(s.next_birthday, "%d.%m.%Y"@) matches Some(n)
            && m@ == life_stats_text(*s, years, b, n, lived_percent@, years_left@),
        r is None <==> chrono_format_date(s.birth, "%d.%m.%Y"@) is None
            || chrono_format_date(s.next_birthday, "%d.%m.%Y"@) is None,
{
    let b = match format_date(s.birth, "%d.%m.%Y") {
        Some(x) => x,
        None => return None,
    };
    let n = match format_date(s.next_birthday, "%d.%m.%Y") {
        Some(x) => x,
        None => return None,
    };
    let mut m = owned("⌛ <b>Сухая статистика жизни (Memento Mori)</b>\n\n🎂 <b>Дата рождения:</b> ");
    push_str(&mut m, b.as_str());
    push_str(&mut m, "\n👤 <b>Возраст:</b> ");
    push_signed_i64(&mut m, s.age_years);
    push_str(&mut m, " лет, ");
    push_signed_i64(&mut m, s.age_months);
    push_str(&mut m, " мес. (прожито ");
    push_signed_i64(&mut m, s.days_lived);
    push_str(&mut m, " дней)\n📊 <b>Прожито жизни:</b> ");
    push_str(&mut m, lived_percent);
    push_str(&mut m, "% (от ");
    push_dec(&mut m, years as u64);
    push_str(&mut m, " лет / ");
    push_signed_i64(&mut m, s.total_days);
    push_str(&mut m, " дней)\n⏳ <b>Осталось до ");
    push_dec(&mut m, years as u64);
    push_str(&mut m, " лет:</b> ");
    push_signed_i64(&mut m, s.days_remaining);
    push_str(&mut m, " дней (~");
    push_str(&mut m, years_left);
    push_str(&mut m, " лет)\n\n🎉 <b>До следующего Дня Рождения:</b> ");
    push_signed_i64(&mut m, s.days_to_birthday);
    push_str(&mut m, " дней (");
    push_str(&mut m, n.as_str());
    push_str(&mut m, ")");
    Some(m)
}

} // verus!
