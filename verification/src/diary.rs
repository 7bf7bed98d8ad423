//! The evening diary: when the reminder fires, the weather lines of the
//! greeting, what the review asks next, and the day's figures as the closing
//! message and as the daily note of the vault.

use vstd::prelude::*;
use chrono::Datelike;
use crate::bot::{city_urlencode, needs_scale_keyboard, needs_scale_spec, russian_weekday, ReviewState, Weekday};
use crate::text::{
    all_digits, dec, digits_value, fmt_dec, has_infix, owned, parse_u64, parse_u64_spec, push_dec, push_str,
    push_zero_padded, replace_spec, split, split_spec, str_contains, str_eq, to_lowercase, unicode_lowercase,
    views, zero_pad,
};

verus! {

// ── The evening reminder ────────────────────────────────────

/// The hours a time zone is ahead of UTC, guessed from words in its name
/// (lower-cased): Kazakhstan, Tashkent and Ekaterinburg +5, the Caucasus +4,
/// Moscow +3, London and UTC 0, anything else +5.
pub open spec fn tz_offset_spec(lower: Seq<char>) -> i32 {
    if has_infix(lower, "almaty"@) || has_infix(lower, "qyzylorda"@) || has_infix(lower, "astana"@)
        || has_infix(lower, "kazakhstan"@) || has_infix(lower, "tashkent"@) || has_infix(lower, "ekaterinburg"@)
        || has_infix(lower, "+5"@) || has_infix(lower, "+05"@) {
        5
    } else if has_infix(lower, "yerevan"@)
        || has_infix(lower, "baku"@) || has_infix(lower, "tbilisi"@) || has_infix(lower, "+4"@)
        || has_infix(lower, "+04"@) {
        4
    } else if has_infix(lower, "moscow"@) || has_infix(lower, "istanbul"@) || has_infix(lower, "minsk"@)
        || has_infix(lower, "+3"@) || has_infix(lower, "+03"@) {
        3
    } else if has_infix(lower, "london"@) || has_infix(lower, "utc"@) || has_infix(lower, "gmt"@) {
        0
    } else {
        5
    }
}

/// The hours a time zone is ahead of UTC (see `tz_offset_spec`).
pub fn timezone_offset_hours(tz_name: &str) -> (r: i32)
    ensures
        r == tz_offset_spec(unicode_lowercase(tz_name@)),
{
    let l = to_lowercase(tz_name);
    let t = l.as_str();
    if str_contains(t, "almaty") || str_contains(t, "qyzylorda") || str_contains(t, "astana")
        || str_contains(t, "kazakhstan") || str_contains(t, "tashkent") || str_contains(t, "ekaterinburg")
        || str_contains(t, "+5") || str_contains(t, "+05") {
        5
    } else if str_contains(t, "yerevan")
        || str_contains(t, "baku") || str_contains(t, "tbilisi") || str_contains(t, "+4") || str_contains(t, "+04") {
        4
    } else if str_contains(t, "moscow") || str_contains(t, "istanbul") || str_contains(t, "minsk")
        || str_contains(t, "+3") || str_contains(t, "+03") {
        3
    } else if str_contains(t, "london") || str_contains(t, "utc") || str_contains(t, "gmt") {
        0
    } else {
        5
    }
}

/// What `str::parse::<i32>` gives: an optional sign, then at least one digit,
/// denoting a number that fits in an `i32`.
pub open spec fn parse_i32_spec(s: Seq<char>) -> Option<int> {
    if s.len() > 0 && s[0] == '-' {
        let d = s.drop_first();
        if d.len() > 0 && all_digits(d) && digits_value(d) <= 2147483648 {
            Some(-(digits_value(d) as int))
        } else {
            None
        }
    } else {
        let d = if s.len() > 0 && s[0] == '+' {
            s.drop_first()
        } else {
            s
        };
        if d.len() > 0 && all_digits(d) && digits_value(d) <= 2147483647 {
            Some(digits_value(d) as int)
        } else {
            None
        }
    }
}

/// Parse a signed 32-bit number (see `parse_i32_spec`).
pub fn parse_i32(s: &str) -> (r: Option<i32>)
    ensures
        match r {
            Some(n) => parse_i32_spec(s@) == Some(n as int),
            None => parse_i32_spec(s@) is None,
        },
{
    let v = crate::text::chars_of(s);
    if v.len() > 0 && v[0] == '-' {
        let rest = crate::text::string_from_range(v.as_slice(), 1, v.len());
        assert(rest@ =~= s@.drop_first());
        let rv = crate::text::chars_of(rest.as_str());
        if rv.len() > 0 && rv[0] == '+' {
            return None;
        }
        match parse_u64(rest.as_str()) {
            Some(n) => {
                if n <= 2147483648 {
                    if n == 2147483648 {
                        Some(-2147483648i32)
                    } else {
                        let k = n as i32;
                        Some(-k)
                    }
                } else {
                    None
                }
            },
            None => None,
        }
    } else {
        match parse_u64(s) {
            Some(n) => {
                if n <= 2147483647 {
                    Some(n as i32)
                } else {
                    None
                }
            },
            None => None,
        }
    }
}

/// The hour of a review time `HH:MM` in local time: its first `:` piece as a
/// number, or 22 when that is no number.
pub open spec fn review_hour(review_time: Seq<char>) -> int {
    match parse_i32_spec(split_spec(review_time, ':')[0]) {
        Some(h) => h,
        None => 22,
    }
}

/// The minute part of a review time as written, or `00` when there is none.
pub open spec fn review_minute(review_time: Seq<char>) -> Seq<char> {
    let parts = split_spec(review_time, ':');
    if parts.len() > 1 {
        parts[1]
    } else {
        "00"@
    }
}

/// The daily schedule of the evening review, as a cron expression in UTC:
/// second 0, the review's minute, and its hour moved back by the offset.
pub open spec fn evening_cron_spec(review_time: Seq<char>, offset: int) -> Seq<char> {
    "0 "@ + review_minute(review_time) + " "@ + dec(((review_hour(review_time) - offset) % 24) as nat)
        + " * * *"@
}

proof fn lemma_split_has_first(s: Seq<char>, c: char)
    ensures
        split_spec(s, c).len() > 0,
    decreases s.len(),
{
    if s.len() > 0 {
        lemma_split_has_first(s.drop_last(), c);
    }
}

/// The cron expression of the evening review (see `evening_cron_spec`); the
/// local hour less the offset must fit in an `i32`.
pub fn evening_review_cron(review_time: &str, offset: i32) -> (r: String)
    requires
        i32::MIN <= review_hour(review_time@) - offset <= i32::MAX,
    ensures
        r@ == evening_cron_spec(review_time@, offset as int),
{
    let parts = split(review_time, ':');
    proof {
        lemma_split_has_first(review_time@, ':');
    }
    let hour: i32 = match parse_i32(parts[0].as_str()) {
        Some(h) => h,
        None => 22,
    };
    let x: i64 = hour as i64 - offset as i64;
    let shifted: u64 = (x + 2147483664i64) as u64;
    let utc: u64 = shifted % 24;
    assert(utc as int == (x as int) % 24) by (nonlinear_arith)
        requires
            shifted as int == x + 2147483664,
            utc as int == (shifted as int) % 24,
            2147483664 == 24 * 89478486,
    {
    }
    let mut s = owned("0 ");
    if parts.len() > 1 {
        push_str(&mut s, parts[1].as_str());
    } else {
        push_str(&mut s, "00");
    }
    push_str(&mut s, " ");
    push_dec(&mut s, utc);
    push_str(&mut s, " * * *");
    s
}

// ── The weather of the greeting ─────────────────────────────

/// The city whose weather is shown: the configured one, or else the last part
/// of the time zone's name.
pub open spec fn weather_city_spec(city: Seq<char>, timezone: Seq<char>) -> Seq<char> {
    if city.len() == 0 {
        split_spec(timezone, '/').last()
    } else {
        city
    }
}

/// The city whose weather is shown (see `weather_city_spec`).
pub fn weather_city(city: &str, timezone: &str) -> (r: String)
    ensures
        r@ == weather_city_spec(city@, timezone@),
{
    if crate::text::chars_of(city).len() == 0 {
        let parts = split(timezone, '/');
        proof {
            lemma_split_has_first(timezone@, '/');
        }
        parts[parts.len() - 1].clone()
    } else {
        owned(city)
    }
}

/// The weather service's address for a city.
pub fn weather_url(city: &str) -> (r: String)
    ensures
        r@ == "https://wttr.in/"@ + replace_spec(replace_spec(city@, " "@, "+"@), "/"@, "%2F"@)
            + "?format=j1&lang=ru"@,
{
    let mut s = owned("https://wttr.in/");
    push_str(&mut s, city_urlencode(city).as_str());
    push_str(&mut s, "?format=j1&lang=ru");
    s
}

/// A field of the weather report, or `?` when it is missing.
pub open spec fn or_unknown(v: Option<Seq<char>>) -> Seq<char> {
    match v {
        Some(s) => s,
        None => "?"@,
    }
}

pub open spec fn opt_str(v: Option<&str>) -> Option<Seq<char>> {
    match v {
        Some(s) => Some(s@),
        None => None,
    }
}

fn push_or_unknown(s: &mut String, v: Option<&str>)
    ensures
        final(s)@ == old(s)@ + or_unknown(opt_str(v)),
{
    match v {
        Some(t) => push_str(s, t),
        None => push_str(s, "?"),
    }
}

/// Today's weather: temperature, felt temperature, the description (in
/// Russian when the service gives one), humidity and wind.
pub open spec fn weather_today_spec(
    temp: Option<Seq<char>>,
    feels: Option<Seq<char>>,
    desc_ru: Option<Seq<char>>,
    desc: Option<Seq<char>>,
    humidity: Option<Seq<char>>,
    wind: Option<Seq<char>>,
) -> Seq<char> {
    let d = match desc_ru {
        Some(x) => x,
        None => or_unknown(desc),
    };
    or_unknown(temp) + "°C (ощущ. "@ + or_unknown(feels) + "°C), "@ + d + ", 💧"@ + or_unknown(humidity) + "%, 💨"@
        + or_unknown(wind) + " км/ч"@
}

/// Today's weather line (see `weather_today_spec`).
pub fn weather_today_text(
    temp: Option<&str>,
    feels: Option<&str>,
    desc_ru: Option<&str>,
    desc: Option<&str>,
    humidity: Option<&str>,
    wind: Option<&str>,
) -> (r: String)
    ensures
        r@ == weather_today_spec(
            opt_str(temp),
            opt_str(feels),
            opt_str(desc_ru),
            opt_str(desc),
            opt_str(humidity),
            opt_str(wind),
        ),
{
    let mut s = String::new();
    push_or_unknown(&mut s, temp);
    push_str(&mut s, "°C (ощущ. ");
    push_or_unknown(&mut s, feels);
    push_str(&mut s, "°C), ");
    match desc_ru {
        Some(x) => push_str(&mut s, x),
        None => push_or_unknown(&mut s, desc),
    }
    push_str(&mut s, ", 💧");
    push_or_unknown(&mut s, humidity);
    push_str(&mut s, "%, 💨");
    push_or_unknown(&mut s, wind);
    push_str(&mut s, " км/ч");
    s
}

/// Tomorrow's weather: lowest and highest temperature and the midday
/// description, or a note that the service gave no forecast.
pub open spec fn weather_tomorrow_spec(day: Option<(Option<Seq<char>>, Option<Seq<char>>, Option<Seq<char>>)>) -> Seq<char> {
    match day {
        Some((max, min, desc)) => or_unknown(min) + ".."@ + or_unknown(max) + "°C, "@ + or_unknown(desc),
        None => "нет данных"@,
    }
}

/// Today's and tomorrow's weather when the weather service cannot be read.
pub fn weather_unavailable() -> (r: (String, String))
    ensures
        r.0@ == "не удалось получить"@,
        r.1@ == "не удалось получить"@,
{
    (owned("не удалось получить"), owned("не удалось получить"))
}

/// Tomorrow's weather line (see `weather_tomorrow_spec`); `day` holds the
/// highest and lowest temperature and the description.
pub fn weather_tomorrow_text(day: Option<(Option<&str>, Option<&str>, Option<&str>)>) -> (r: String)
    ensures
        r@ == weather_tomorrow_spec(
            match day {
                Some((a, b, c)) => Some((opt_str(a), opt_str(b), opt_str(c))),
                None => None,
            },
        ),
{
    match day {
        Some((max, min, desc)) => {
            let mut s = String::new();
            push_or_unknown(&mut s, min);
            push_str(&mut s, "..");
            push_or_unknown(&mut s, max);
            push_str(&mut s, "°C, ");
            push_or_unknown(&mut s, desc);
            s
        },
        None => owned("нет данных"),
    }
}

// ── The questions of the review ─────────────────────────────

/// How the review goes on after an answer.
#[derive(PartialEq, Eq, Structural, Clone, Copy, Debug)]
pub enum DiaryStep {
    /// Put the next question, with the 1..10 buttons, in place of the answered one.
    EditWithScale,
    /// Put the next question, with yes and no buttons, in place of the answered one.
    EditWithYesNo,
    /// Remove the answered question and ask the next one as a new message.
    AskAnew,
    /// Send the next question with the 1..10 buttons.
    SendWithScale,
    /// Send the next question with yes and no buttons.
    SendWithYesNo,
    /// Send the next question, answered in words.
    SendText,
    /// The review is over: save it and show the summary.
    Finish,
    /// Nothing to ask.
    Wait,
}

/// The questions answered in words after the exercise question.
pub open spec fn asks_events(s: ReviewState) -> bool {
    s == ReviewState::AskingGoodEvents || s == ReviewState::AskingBadEvents || s == ReviewState::AskingFreeThoughts
}

fn asks_events_exec(s: ReviewState) -> (b: bool)
    ensures
        b == asks_events(s),
{
    s == ReviewState::AskingGoodEvents || s == ReviewState::AskingBadEvents || s == ReviewState::AskingFreeThoughts
}

/// After a 1..10 button: the next scale question in place; sleep and the
/// event questions as new messages; exercise with yes and no; or the end.
pub open spec fn metric_step_spec(next: ReviewState, complete: bool) -> DiaryStep {
    if needs_scale_spec(next) {
        DiaryStep::EditWithScale
    } else if next == ReviewState::AskingSleep {
        DiaryStep::AskAnew
    } else if next == ReviewState::AskingExercise {
        DiaryStep::EditWithYesNo
    } else if asks_events(next) {
        DiaryStep::AskAnew
    } else if complete {
        DiaryStep::Finish
    } else {
        DiaryStep::Wait
    }
}

/// How the review goes on after a 1..10 button (see `metric_step_spec`);
/// `next` is the state after the answer and `complete` whether the review is done.
pub fn metric_step(next: ReviewState, complete: bool) -> (r: DiaryStep)
    ensures
        r == metric_step_spec(next, complete),
{
    if needs_scale_keyboard(next) {
        DiaryStep::EditWithScale
    } else if next == ReviewState::AskingSleep {
        DiaryStep::AskAnew
    } else if next == ReviewState::AskingExercise {
        DiaryStep::EditWithYesNo
    } else if asks_events_exec(next) {
        DiaryStep::AskAnew
    } else if complete {
        DiaryStep::Finish
    } else {
        DiaryStep::Wait
    }
}

/// After the yes or no of the exercise question: the event questions as new
/// messages, or the end.
pub open spec fn exercise_step_spec(next: ReviewState, complete: bool) -> DiaryStep {
    if asks_events(next) {
        DiaryStep::AskAnew
    } else if complete {
        DiaryStep::Finish
    } else {
        DiaryStep::Wait
    }
}

/// How the review goes on after the exercise answer (see `exercise_step_spec`).
pub fn exercise_step(next: ReviewState, complete: bool) -> (r: DiaryStep)
    ensures
        r == exercise_step_spec(next, complete),
{
    if asks_events_exec(next) {
        DiaryStep::AskAnew
    } else if complete {
        DiaryStep::Finish
    } else {
        DiaryStep::Wait
    }
}

/// After an answer in words: the end, or the next question sent with the
/// buttons it needs.
pub open spec fn text_step_spec(next: ReviewState, complete: bool) -> DiaryStep {
    if complete {
        DiaryStep::Finish
    } else if needs_scale_spec(next) {
        DiaryStep::SendWithScale
    } else if next == ReviewState::AskingExercise {
        DiaryStep::SendWithYesNo
    } else {
        DiaryStep::SendText
    }
}

/// How the review goes on after an answer in words (see `text_step_spec`).
pub fn text_step(next: ReviewState, complete: bool) -> (r: DiaryStep)
    ensures
        r == text_step_spec(next, complete),
{
    if complete {
        DiaryStep::Finish
    } else if needs_scale_keyboard(next) {
        DiaryStep::SendWithScale
    } else if next == ReviewState::AskingExercise {
        DiaryStep::SendWithYesNo
    } else {
        DiaryStep::SendText
    }
}

/// The words an exercise button answers with: "да" for yes, "нет" otherwise.
pub fn exercise_answer(value: &str) -> (r: &'static str)
    ensures
        r@ == (if value@ == "yes"@ { "да"@ } else { "нет"@ }),
{
    if str_eq(value, "yes") {
        "да"
    } else {
        "нет"
    }
}

// ── Dates ───────────────────────────────────────────────────

/// A calendar date.
#[derive(PartialEq, Eq, Structural, Clone, Copy, Debug)]
pub struct DiaryDate {
    pub year: i32,
    pub month: u32,
    pub day: u32,
}

/// A number in decimal, with a minus sign when negative.
pub open spec fn signed_dec(n: int) -> Seq<char> {
    if n < 0 {
        "-"@ + dec((-n) as nat)
    } else {
        dec(n as nat)
    }
}

/// A year as dates write it: four digits for years 0 to 9999, else a sign and
/// at least four digits.
pub open spec fn iso_year(y: int) -> Seq<char> {
    if 0 <= y <= 9999 {
        zero_pad(dec(y as nat), 4)
    } else if y < 0 {
        "-"@ + zero_pad(dec((-y) as nat), 4)
    } else {
        "+"@ + zero_pad(dec(y as nat), 4)
    }
}

/// A date as `YYYY-MM-DD`.
pub open spec fn iso_date(d: DiaryDate) -> Seq<char> {
    iso_year(d.year as int) + "-"@ + zero_pad(dec(d.month as nat), 2) + "-"@ + zero_pad(dec(d.day as nat), 2)
}

fn push_signed(s: &mut String, n: i32)
    ensures
        final(s)@ == old(s)@ + signed_dec(n as int),
{
    if n < 0 {
        push_str(s, "-");
        let a: i64 = -(n as i64);
        push_dec(s, a as u64);
    } else {
        push_dec(s, n as u64);
    }
}

fn push_padded_dec(s: &mut String, n: u64, width: usize)
    ensures
        final(s)@ == old(s)@ + zero_pad(dec(n as nat), width as nat),
{
    let t = fmt_dec(n);
    push_zero_padded(s, t.as_str(), width);
}

fn push_iso_date(s: &mut String, d: &DiaryDate)
    ensures
        final(s)@ == old(s)@ + iso_date(*d),
{
    let ghost start = s@;
    let y = d.year as i64;
    if 0 <= y && y <= 9999 {
        push_padded_dec(s, y as u64, 4);
    } else if y < 0 {
        push_str(s, "-");
        push_padded_dec(s, (-y) as u64, 4);
    } else {
        push_str(s, "+");
        push_padded_dec(s, y as u64, 4);
    }
    assert(s@ =~= start + iso_year(d.year as int));
    push_str(s, "-");
    push_padded_dec(s, d.month as u64, 2);
    push_str(s, "-");
    push_padded_dec(s, d.day as u64, 2);
    assert(s@ =~= start + iso_date(*d));
}

/// A date as `YYYY-MM-DD` (see `iso_date`).
pub fn iso_date_text(d: &DiaryDate) -> (r: String)
    ensures
        r@ == iso_date(*d),
{
    let mut s = String::new();
    push_iso_date(&mut s, d);
    assert(s@ =~= iso_date(*d));
    s
}

// ── The day's figures ───────────────────────────────────────

/// What the evening review recorded for a day: scores from 1 to 10, the hours
/// slept (as the number is written), whether there was exercise, and the
/// good events, bad events and free thoughts in words.
pub struct DiaryMetrics {
    pub date: DiaryDate,
    pub day_rating: Option<u8>,
    pub mood: Option<u8>,
    pub energy: Option<u8>,
    pub stress: Option<u8>,
    pub motivation: Option<u8>,
    pub productivity: Option<u8>,
    pub sleep_hours: Option<String>,
    pub exercise: Option<bool>,
    pub good_events: Option<String>,
    pub bad_events: Option<String>,
    pub free_thoughts: Option<String>,
}

impl DiaryMetrics {
    /// A day with nothing recorded yet.
    pub fn new(date: DiaryDate) -> (r: Self)
        ensures
            r.date == date,
            r.day_rating is None,
            r.mood is None,
            r.energy is None,
            r.stress is None,
            r.motivation is None,
            r.productivity is None,
            r.sleep_hours is None,
            r.exercise is None,
            r.good_events is None,
            r.bad_events is None,
            r.free_thoughts is None,
    {
        DiaryMetrics {
            date,
            day_rating: None,
            mood: None,
            energy: None,
            stress: None,
            motivation: None,
            productivity: None,
            sleep_hours: None,
            exercise: None,
            good_events: None,
            bad_events: None,
            free_thoughts: None,
        }
    }
}

pub open spec fn opt_text(v: Option<String>) -> Option<Seq<char>> {
    match v {
        Some(s) => Some(s@),
        None => None,
    }
}

/// The non-blank lines of a text, trimmed, each after `bullet` and ending a line.
pub open spec fn bullet_lines(ls: Seq<Seq<char>>, bullet: Seq<char>) -> Seq<char>
    decreases ls.len(),
{
    if ls.len() == 0 {
        Seq::empty()
    } else {
        let t = crate::text::trim_spec(ls.last());
        bullet_lines(ls.drop_last(), bullet) + (if t.len() > 0 {
            bullet + t + "\n"@
        } else {
            Seq::empty()
        })
    }
}

/// The events of a text, one per non-blank line.
pub open spec fn event_list(text: Seq<char>, bullet: Seq<char>) -> Seq<char> {
    bullet_lines(split_spec(text, '\n'), bullet)
}

fn push_events(s: &mut String, text: &str, bullet: &str)
    ensures
        final(s)@ == old(s)@ + event_list(text@, bullet@),
{
    let ls = split(text, '\n');
    let ghost start = s@;
    let ghost lv = views(ls@);
    let mut i: usize = 0;
    while i < ls.len()
        invariant
            i <= ls.len(),
            lv == views(ls@),
            lv == split_spec(text@, '\n'),
            s@ == start + bullet_lines(lv.take(i as int), bullet@),
        decreases ls.len() - i,
    {
        assert(lv.take(i + 1).drop_last() =~= lv.take(i as int));
        assert(lv.take(i + 1).last() == ls@[i as int]@);
        let t = crate::text::trim(ls[i].as_str());
        if crate::text::chars_of(t.as_str()).len() > 0 {
            push_str(s, bullet);
            push_str(s, t.as_str());
            push_str(s, "\n");
        }
        assert(s@ =~= start + bullet_lines(lv.take(i + 1), bullet@));
        i = i + 1;
    }
    assert(lv.take(ls.len() as int) =~= lv);
}

/// A 1..10 score as the summary shows it, or `-` when not given.
pub open spec fn score_text(v: Option<u8>) -> Seq<char> {
    match v {
        Some(x) => dec(x as nat) + "/10"@,
        None => "-"@,
    }
}

/// A line of the summary with two scores.
pub open spec fn score_row(l1: Seq<char>, v1: Option<u8>, l2: Seq<char>, v2: Option<u8>) -> Seq<char> {
    "   "@ + l1 + ": "@ + score_text(v1) + "  │  "@ + l2 + ": "@ + score_text(v2) + "\n"@
}

fn push_score(s: &mut String, v: Option<u8>)
    ensures
        final(s)@ == old(s)@ + score_text(v),
{
    match v {
        Some(x) => {
            push_dec(s, x as u64);
            push_str(s, "/10");
        },
        None => push_str(s, "-"),
    }
}

fn push_score_row(s: &mut String, l1: &str, v1: Option<u8>, l2: &str, v2: Option<u8>)
    ensures
        final(s)@ == old(s)@ + score_row(l1@, v1, l2@, v2),
{
    let ghost start = s@;
    push_str(s, "   ");
    push_str(s, l1);
    push_str(s, ": ");
    push_score(s, v1);
    push_str(s, "  │  ");
    push_str(s, l2);
    push_str(s, ": ");
    push_score(s, v2);
    push_str(s, "\n");
    assert(s@ =~= start + score_row(l1@, v1, l2@, v2));
}

pub open spec fn yes_no(b: bool) -> Seq<char> {
    if b {
        "Да"@
    } else {
        "Нет"@
    }
}

/// The rule that frames the summary.
pub open spec fn rule() -> Seq<char> {
    "━━━━━━━━━━━━━━━━━━━━━━━━━━━"@
}

/// The summary's heading: the date in words.
pub open spec fn summary_head(m: DiaryMetrics) -> Seq<char> {
    rule() + "\n\n📋 ИТОГИ ДНЯ — "@ + dec(m.date.day as nat) + " "@ + crate::bot::russian_month_spec(m.date.month) + " "@
        + signed_dec(m.date.year as int) + "\n\n📊 Метрики:\n"@
}

/// The summary's scores, two to a line.
pub open spec fn summary_scores(m: DiaryMetrics) -> Seq<char> {
    score_row("📊 День"@, m.day_rating, "😊 Настроение"@, m.mood) + score_row(
        "⚡ Энергия"@,
        m.energy,
        "🎯 Продуктивность"@,
        m.productivity,
    ) + score_row("😰 Стресс"@, m.stress, "🔥 Мотивация"@, m.motivation)
}

/// The summary's line of sleep and exercise, and the average of the scores.
pub open spec fn summary_body(m: DiaryMetrics, average: Seq<char>) -> Seq<char> {
    (match opt_text(m.sleep_hours) {
        Some(h) => "   😴 Сон: "@ + h + " ч"@,
        None => Seq::empty(),
    }) + (match m.exercise {
        Some(e) => "  │  🏃 Тренировка: "@ + yes_no(e) + "\n"@,
        None => "\n"@,
    }) + "\n   📈 Среднее: "@ + average + "/10\n"@
}

/// The summary's events: the good ones, the bad ones unless the answer was
/// "нет", and the thoughts unless they were skipped.
pub open spec fn summary_events(m: DiaryMetrics) -> Seq<char> {
    (match opt_text(m.good_events) {
        Some(g) => "\n🌟 Хорошее:\n"@ + event_list(g, "   • "@),
        None => Seq::empty(),
    }) + (match opt_text(m.bad_events) {
        Some(b) => if unicode_lowercase(b) != "нет"@ {
            "\n😔 Плохое:\n"@ + event_list(b, "   • "@)
        } else {
            Seq::empty()
        },
        None => Seq::empty(),
    }) + (match opt_text(m.free_thoughts) {
        Some(t) => if unicode_lowercase(t) != "skip"@ {
            "\n💭 Мысли:\n"@ + t + "\n"@
        } else {
            Seq::empty()
        },
        None => Seq::empty(),
    })
}

/// The summary's close: where the note was saved, and good night.
pub open spec fn summary_tail(m: DiaryMetrics) -> Seq<char> {
    "\n"@ + rule() + "\n\n"@ + "✅ Запись сохранена в Obsidian\n📁 Daily/"@ + iso_date(m.date) + ".md\n\n"@
        + "Спокойной ночи! 🌙"@
}

/// The message that closes the review; `average` is the mean of the given
/// scores as it is shown, with one decimal.
pub open spec fn diary_summary_spec(m: DiaryMetrics, average: Seq<char>) -> Seq<char> {
    summary_head(m) + summary_scores(m) + summary_body(m, average) + summary_events(m) + summary_tail(m)
}

fn push_summary_events(s: &mut String, m: &DiaryMetrics)
    ensures
        final(s)@ == old(s)@ + summary_events(*m),
{
    let ghost start = s@;
    match &m.good_events {
        Some(g) => {
            push_str(s, "\n🌟 Хорошее:\n");
            push_events(s, g.as_str(), "   • ");
        },
        None => {},
    }
    let ghost a = s@;
    match &m.bad_events {
        Some(b) => {
            if !str_eq(to_lowercase(b.as_str()).as_str(), "нет") {
                push_str(s, "\n😔 Плохое:\n");
                push_events(s, b.as_str(), "   • ");
            }
        },
        None => {},
    }
    let ghost c = s@;
    match &m.free_thoughts {
        Some(t) => {
            if !str_eq(to_lowercase(t.as_str()).as_str(), "skip") {
                push_str(s, "\n💭 Мысли:\n");
                push_str(s, t.as_str());
                push_str(s, "\n");
            }
        },
        None => {},
    }
    assert(s@ =~= start + summary_events(*m));
}

fn push_summary_head(s: &mut String, m: &DiaryMetrics)
    ensures
        final(s)@ == old(s)@ + summary_head(*m),
{
    let ghost start = s@;
    push_str(s, "━━━━━━━━━━━━━━━━━━━━━━━━━━━");
    push_str(s, "\n\n📋 ИТОГИ ДНЯ — ");
    push_dec(s, m.date.day as u64);
    push_str(s, " ");
    push_str(s, crate::bot::russian_month(m.date.month));
    push_str(s, " ");
    push_signed(s, m.date.year);
    push_str(s, "\n\n📊 Метрики:\n");
    assert(s@ =~= start + summary_head(*m));
}

fn push_summary_scores(s: &mut String, m: &DiaryMetrics)
    ensures
        final(s)@ == old(s)@ + summary_scores(*m),
{
    let ghost start = s@;
    push_score_row(s, "📊 День", m.day_rating, "😊 Настроение", m.mood);
    push_score_row(s, "⚡ Энергия", m.energy, "🎯 Продуктивность", m.productivity);
    push_score_row(s, "😰 Стресс", m.stress, "🔥 Мотивация", m.motivation);
    assert(s@ =~= start + summary_scores(*m));
}

fn push_summary_body(s: &mut String, m: &DiaryMetrics, average: &str)
    ensures
        final(s)@ == old(s)@ + summary_body(*m, average@),
{
    let ghost start = s@;
    match &m.sleep_hours {
        Some(x) => {
            push_str(s, "   😴 Сон: ");
            push_str(s, x.as_str());
            push_str(s, " ч");
        },
        None => {},
    }
    match m.exercise {
        Some(e) => {
            push_str(s, "  │  🏃 Тренировка: ");
            push_str(s, if e { "Да" } else { "Нет" });
            push_str(s, "\n");
        },
        None => push_str(s, "\n"),
    }
    push_str(s, "\n   📈 Среднее: ");
    push_str(s, average);
    push_str(s, "/10\n");
    assert(s@ =~= start + summary_body(*m, average@));
}

fn push_summary_tail(s: &mut String, m: &DiaryMetrics)
    ensures
        final(s)@ == old(s)@ + summary_tail(*m),
{
    let ghost start = s@;
    push_str(s, "\n");
    push_str(s, "━━━━━━━━━━━━━━━━━━━━━━━━━━━");
    push_str(s, "\n\n");
    push_str(s, "✅ Запись сохранена в Obsidian\n📁 Daily/");
    push_iso_date(s, &m.date);
    push_str(s, ".md\n\n");
    push_str(s, "Спокойной ночи! 🌙");
    assert(s@ =~= start + summary_tail(*m));
}

/// The message that closes the review (see `diary_summary_spec`).
pub fn diary_summary(m: &DiaryMetrics, average: &str) -> (r: String)
    ensures
        r@ == diary_summary_spec(*m, average@),
{
    let mut s = String::new();
    push_summary_head(&mut s, m);
    push_summary_scores(&mut s, m);
    push_summary_body(&mut s, m, average);
    push_summary_events(&mut s, m);
    push_summary_tail(&mut s, m);
    assert(s@ =~= diary_summary_spec(*m, average@));
    s
}

// ── The daily note ──────────────────────────────────────────

/// `NaiveDate::from_ymd_opt(year, month, day)` followed by `pred_opt()`: the
/// day before by chrono's calendar, or `None` when there is no such date or it
/// is the first one chrono represents.
pub uninterp spec fn chrono_day_before(year: i32, month: u32, day: u32) -> Option<(i32, u32, u32)>;

/// `NaiveDate::from_ymd_opt(year, month, day)` followed by `succ_opt()`: the
/// day after by chrono's calendar, or `None` when there is no such date or it
/// is the last one chrono represents.
pub uninterp spec fn chrono_day_after(year: i32, month: u32, day: u32) -> Option<(i32, u32, u32)>;

/// `NaiveDate::from_ymd_opt(year, month, day)` followed by
/// `weekday().num_days_from_monday()`: the day of the week counted from
/// Monday as 0, or `None` when there is no such date.
pub uninterp spec fn chrono_weekday(year: i32, month: u32, day: u32) -> Option<u32>;

/// The day before a date, by `chrono::NaiveDate::pred_opt`; nothing is
/// stated of the calendar itself.
#[verifier::external_body]
fn day_before(d: &DiaryDate) -> (r: Option<(i32, u32, u32)>)
    ensures
        r == chrono_day_before(d.year, d.month, d.day),
{
    match chrono::NaiveDate::from_ymd_opt(d.year, d.month, d.day) {
        Some(x) => match x.pred_opt() {
            Some(p) => Some((p.year(), p.month(), p.day())),
            None => None,
        },
        None => None,
    }
}

/// The day after a date, by `chrono::NaiveDate::succ_opt`; nothing is
/// stated of the calendar itself.
#[verifier::external_body]
fn day_after(d: &DiaryDate) -> (r: Option<(i32, u32, u32)>)
    ensures
        r == chrono_day_after(d.year, d.month, d.day),
{
    match chrono::NaiveDate::from_ymd_opt(d.year, d.month, d.day) {
        Some(x) => match x.succ_opt() {
            Some(p) => Some((p.year(), p.month(), p.day())),
            None => None,
        },
        None => None,
    }
}

/// The day of the week of a date, by `chrono::Datelike::weekday`; nothing is
/// stated of the calendar itself.
#[verifier::external_body]
fn weekday_number(d: &DiaryDate) -> (r: Option<u32>)
    ensures
        r == chrono_weekday(d.year, d.month, d.day),
{
    match chrono::NaiveDate::from_ymd_opt(d.year, d.month, d.day) {
        Some(x) => Some(x.weekday().num_days_from_monday()),
        None => None,
    }
}

/// A neighbouring date, or the date itself when there is none.
pub open spec fn or_same(d: DiaryDate, n: Option<(i32, u32, u32)>) -> DiaryDate {
    match n {
        Some((y, m, dd)) => DiaryDate { year: y, month: m, day: dd },
        None => d,
    }
}

/// The Russian name of a day of the week counted from Monday as 0.
pub open spec fn weekday_name(w: Option<u32>) -> Seq<char> {
    match w {
        Some(k) => if k == 0 {
            "Понедельник"@
        } else if k == 1 {
            "Вторник"@
        } else if k == 2 {
            "Среда"@
        } else if k == 3 {
            "Четверг"@
        } else if k == 4 {
            "Пятница"@
        } else if k == 5 {
            "Суббота"@
        } else if k == 6 {
            "Воскресенье"@
        } else {
            Seq::empty()
        },
        None => Seq::empty(),
    }
}

fn push_weekday(s: &mut String, w: Option<u32>)
    ensures
        final(s)@ == old(s)@ + weekday_name(w),
{
    proof {
        reveal_strlit("");
    }
    match w {
        Some(0) => push_str(s, russian_weekday(Weekday::Mon)),
        Some(1) => push_str(s, russian_weekday(Weekday::Tue)),
        Some(2) => push_str(s, russian_weekday(Weekday::Wed)),
        Some(3) => push_str(s, russian_weekday(Weekday::Thu)),
        Some(4) => push_str(s, russian_weekday(Weekday::Fri)),
        Some(5) => push_str(s, russian_weekday(Weekday::Sat)),
        Some(6) => push_str(s, russian_weekday(Weekday::Sun)),
        _ => {
            assert(s@ =~= s@ + weekday_name(w));
        },
    }
}

pub open spec fn or_zero(v: Option<u8>) -> nat {
    match v {
        Some(x) => x as nat,
        None => 0,
    }
}

/// A score of the front matter: its name, then the score or 0 when not given.
pub open spec fn front_field(name: Seq<char>, v: Option<u8>) -> Seq<char> {
    name + dec(or_zero(v))
}

/// The note's front matter: the date, every score (0 when not given), the
/// sleep, exercise, the average, and the note's type, tags and author.
pub open spec fn md_front(m: DiaryMetrics, average: Seq<char>) -> Seq<char> {
    "---\ndate: "@ + iso_date(m.date) + front_field("\nday_rating: "@, m.day_rating) + front_field("\nmood: "@, m.mood)
        + front_field("\nenergy: "@, m.energy) + front_field("\nproductivity: "@, m.productivity) + front_field(
        "\nstress: "@,
        m.stress,
    ) + front_field("\nmotivation: "@, m.motivation) + md_front_rest(m, average)
}

/// The end of the front matter, after the scores.
pub open spec fn md_front_rest(m: DiaryMetrics, average: Seq<char>) -> Seq<char> {
    "\nsleep_hours: "@ + (match opt_text(m.sleep_hours) {
        Some(h) => h,
        None => "0"@,
    }) + "\nexercise: "@ + (if m.exercise == Some(true) {
        "true"@
    } else {
        "false"@
    }) + "\naverage: "@ + average + "\ntype: daily\ntags: [дневник, daily, итоги]\ncreated_by: brain-bot\n---\n\n"@
}

/// The note's heading and the links to the days before and after.
pub open spec fn md_title(m: DiaryMetrics, weekday: Option<u32>, yesterday: DiaryDate, tomorrow: DiaryDate) -> Seq<char> {
    "# 📅 "@ + dec(m.date.day as nat) + " "@ + crate::bot::russian_month_spec(m.date.month) + " "@ + signed_dec(
        m.date.year as int,
    ) + " — "@ + weekday_name(weekday) + "\n\n"@ + "[["@ + iso_date(yesterday) + "|◄ Вчера]] | **"@ + iso_date(
        m.date,
    ) + "** | [["@ + iso_date(tomorrow) + "|Завтра ►]]\n\n"@
}

/// A row of the metrics table when the score was given.
pub open spec fn md_row(label: Seq<char>, v: Option<u8>) -> Seq<char> {
    match v {
        Some(x) => label + dec(x as nat) + "/10 |\n"@,
        None => Seq::empty(),
    }
}

/// The rows of the scores that were given.
pub open spec fn md_score_rows(m: DiaryMetrics) -> Seq<char> {
    md_row("| ⭐ Оценка дня | "@, m.day_rating) + md_row("| 😊 Настроение | "@, m.mood) + md_row(
        "| ⚡ Энергия | "@,
        m.energy,
    ) + md_row("| 🎯 Продуктивность | "@, m.productivity) + md_row("| 😰 Стресс | "@, m.stress) + md_row(
        "| 🔥 Мотивация | "@,
        m.motivation,
    )
}

/// The rows of sleep and exercise when given, the average, and the rule after the table.
pub open spec fn md_table_rest(m: DiaryMetrics, average: Seq<char>) -> Seq<char> {
    (match opt_text(m.sleep_hours) {
        Some(h) => "| 😴 Сон | "@ + h + " ч |\n"@,
        None => Seq::empty(),
    }) + (match m.exercise {
        Some(e) => "| 🏃 Тренировка | "@ + yes_no(e) + " |\n"@,
        None => Seq::empty(),
    }) + "\n**Среднее: "@ + average + "/10**\n\n"@ + "---\n\n"@
}

/// The note's table of the given figures and the average.
pub open spec fn md_table(m: DiaryMetrics, average: Seq<char>) -> Seq<char> {
    "## 📊 Метрики\n\n"@ + "| Метрика | Оценка |\n|---------|--------|\n"@ + md_score_rows(m) + md_table_rest(m, average)
}

/// The note's section of good events.
pub open spec fn md_good(m: DiaryMetrics) -> Seq<char> {
    "## 🌟 Хорошее\n\n"@ + (match opt_text(m.good_events) {
        Some(g) => event_list(g, "- "@),
        None => "- _нет записей_\n"@,
    }) + "\n---\n\n"@
}

/// The note's section of bad events; "нет" means nothing bad happened.
pub open spec fn md_bad(m: DiaryMetrics) -> Seq<char> {
    "## 😔 Плохое\n\n"@ + (match opt_text(m.bad_events) {
        Some(b) => if unicode_lowercase(b) != "нет"@ {
            event_list(b, "- "@)
        } else {
            "- _ничего плохого!_ 🎉\n"@
        },
        None => "- _нет записей_\n"@,
    }) + "\n---\n\n"@
}

/// The note's section of thoughts; "skip" means they were skipped.
pub open spec fn md_thoughts(m: DiaryMetrics) -> Seq<char> {
    "## 💭 Мысли\n\n"@ + (match opt_text(m.free_thoughts) {
        Some(t) => if unicode_lowercase(t) != "skip"@ {
            t + "\n"@
        } else {
            "_пропущено_\n"@
        },
        None => "_нет записей_\n"@,
    }) + "\n---\n\n"@
}

/// The note's sections of events and thoughts, and its tags.
pub open spec fn md_events(m: DiaryMetrics) -> Seq<char> {
    md_good(m) + md_bad(m) + md_thoughts(m) + "## 🏷 Граф и Теги\n"@ + "#дневник #daily #итоги #brain-os\n"@
}

/// The daily note of the vault, given the day of the week and the
/// neighbouring dates; `average` is the mean of the given scores as it is
/// shown, with one decimal.
pub open spec fn diary_markdown_spec(
    m: DiaryMetrics,
    average: Seq<char>,
    weekday: Option<u32>,
    yesterday: DiaryDate,
    tomorrow: DiaryDate,
) -> Seq<char> {
    md_front(m, average) + md_title(m, weekday, yesterday, tomorrow) + md_table(m, average) + md_events(m)
}

fn push_front_field(s: &mut String, name: &str, v: Option<u8>)
    ensures
        final(s)@ == old(s)@ + front_field(name@, v),
{
    push_str(s, name);
    let n: u64 = match v {
        Some(x) => x as u64,
        None => 0,
    };
    push_dec(s, n);
}

fn push_md_front_rest(s: &mut String, m: &DiaryMetrics, average: &str)
    ensures
        final(s)@ == old(s)@ + md_front_rest(*m, average@),
{
    let ghost start = s@;
    push_str(s, "\nsleep_hours: ");
    match &m.sleep_hours {
        Some(h) => push_str(s, h.as_str()),
        None => push_str(s, "0"),
    }
    push_str(s, "\nexercise: ");
    match m.exercise {
        Some(true) => push_str(s, "true"),
        _ => push_str(s, "false"),
    }
    push_str(s, "\naverage: ");
    push_str(s, average);
    push_str(s, "\ntype: daily\ntags: [дневник, daily, итоги]\ncreated_by: brain-bot\n---\n\n");
    assert(s@ =~= start + md_front_rest(*m, average@));
}

fn push_md_front(s: &mut String, m: &DiaryMetrics, average: &str)
    ensures
        final(s)@ == old(s)@ + md_front(*m, average@),
{
    let ghost start = s@;
    push_str(s, "---\ndate: ");
    push_iso_date(s, &m.date);
    push_front_field(s, "\nday_rating: ", m.day_rating);
    push_front_field(s, "\nmood: ", m.mood);
    push_front_field(s, "\nenergy: ", m.energy);
    push_front_field(s, "\nproductivity: ", m.productivity);
    push_front_field(s, "\nstress: ", m.stress);
    push_front_field(s, "\nmotivation: ", m.motivation);
    push_md_front_rest(s, m, average);
    assert(s@ =~= start + md_front(*m, average@));
}

fn push_md_title(s: &mut String, m: &DiaryMetrics, weekday: Option<u32>, yesterday: &DiaryDate, tomorrow: &DiaryDate)
    ensures
        final(s)@ == old(s)@ + md_title(*m, weekday, *yesterday, *tomorrow),
{
    let ghost start = s@;
    push_str(s, "# 📅 ");
    push_dec(s, m.date.day as u64);
    push_str(s, " ");
    push_str(s, crate::bot::russian_month(m.date.month));
    push_str(s, " ");
    push_signed(s, m.date.year);
    push_str(s, " — ");
    push_weekday(s, weekday);
    push_str(s, "\n\n");
    push_str(s, "[[");
    push_iso_date(s, yesterday);
    push_str(s, "|◄ Вчера]] | **");
    push_iso_date(s, &m.date);
    push_str(s, "** | [[");
    push_iso_date(s, tomorrow);
    push_str(s, "|Завтра ►]]\n\n");
    assert(s@ =~= start + md_title(*m, weekday, *yesterday, *tomorrow));
}

fn push_md_row(s: &mut String, label: &str, v: Option<u8>)
    ensures
        final(s)@ == old(s)@ + md_row(label@, v),
{
    match v {
        Some(x) => {
            push_str(s, label);
            push_dec(s, x as u64);
            push_str(s, "/10 |\n");
        },
        None => {
            assert(s@ =~= s@ + md_row(label@, v));
        },
    }
}

fn push_md_score_rows(s: &mut String, m: &DiaryMetrics)
    ensures
        final(s)@ == old(s)@ + md_score_rows(*m),
{
    let ghost start = s@;
    push_md_row(s, "| ⭐ Оценка дня | ", m.day_rating);
    push_md_row(s, "| 😊 Настроение | ", m.mood);
    push_md_row(s, "| ⚡ Энергия | ", m.energy);
    push_md_row(s, "| 🎯 Продуктивность | ", m.productivity);
    push_md_row(s, "| 😰 Стресс | ", m.stress);
    push_md_row(s, "| 🔥 Мотивация | ", m.motivation);
    assert(s@ =~= start + md_score_rows(*m));
}

fn push_md_table_rest(s: &mut String, m: &DiaryMetrics, average: &str)
    ensures
        final(s)@ == old(s)@ + md_table_rest(*m, average@),
{
    let ghost start = s@;
    match &m.sleep_hours {
        Some(h) => {
            push_str(s, "| 😴 Сон | ");
            push_str(s, h.as_str());
            push_str(s, " ч |\n");
        },
        None => {},
    }
    match m.exercise {
        Some(e) => {
            push_str(s, "| 🏃 Тренировка | ");
            push_str(s, if e { "Да" } else { "Нет" });
            push_str(s, " |\n");
        },
        None => {},
    }
    push_str(s, "\n**Среднее: ");
    push_str(s, average);
    push_str(s, "/10**\n\n");
    push_str(s, "---\n\n");
    assert(s@ =~= start + md_table_rest(*m, average@));
}

fn push_md_table(s: &mut String, m: &DiaryMetrics, average: &str)
    ensures
        final(s)@ == old(s)@ + md_table(*m, average@),
{
    let ghost start = s@;
    push_str(s, "## 📊 Метрики\n\n");
    push_str(s, "| Метрика | Оценка |\n|---------|--------|\n");
    push_md_score_rows(s, m);
    push_md_table_rest(s, m, average);
    assert(s@ =~= start + md_table(*m, average@));
}

fn push_md_good(s: &mut String, m: &DiaryMetrics)
    ensures
        final(s)@ == old(s)@ + md_good(*m),
{
    let ghost start = s@;
    push_str(s, "## 🌟 Хорошее\n\n");
    match &m.good_events {
        Some(g) => push_events(s, g.as_str(), "- "),
        None => push_str(s, "- _нет записей_\n"),
    }
    push_str(s, "\n---\n\n");
    assert(s@ =~= start + md_good(*m));
}

fn push_md_bad(s: &mut String, m: &DiaryMetrics)
    ensures
        final(s)@ == old(s)@ + md_bad(*m),
{
    let ghost start = s@;
    push_str(s, "## 😔 Плохое\n\n");
    match &m.bad_events {
        Some(b) => {
            if !str_eq(to_lowercase(b.as_str()).as_str(), "нет") {
                push_events(s, b.as_str(), "- ");
            } else {
                push_str(s, "- _ничего плохого!_ 🎉\n");
            }
        },
        None => push_str(s, "- _нет записей_\n"),
    }
    push_str(s, "\n---\n\n");
    assert(s@ =~= start + md_bad(*m));
}

fn push_md_thoughts(s: &mut String, m: &DiaryMetrics)
    ensures
        final(s)@ == old(s)@ + md_thoughts(*m),
{
    let ghost start = s@;
    push_str(s, "## 💭 Мысли\n\n");
    match &m.free_thoughts {
        Some(t) => {
            if !str_eq(to_lowercase(t.as_str()).as_str(), "skip") {
                push_str(s, t.as_str());
                push_str(s, "\n");
            } else {
                push_str(s, "_пропущено_\n");
            }
        },
        None => push_str(s, "_нет записей_\n"),
    }
    push_str(s, "\n---\n\n");
    assert(s@ =~= start + md_thoughts(*m));
}

fn push_md_events(s: &mut String, m: &DiaryMetrics)
    ensures
        final(s)@ == old(s)@ + md_events(*m),
{
    let ghost start = s@;
    push_md_good(s, m);
    push_md_bad(s, m);
    push_md_thoughts(s, m);
    push_str(s, "## 🏷 Граф и Теги\n");
    push_str(s, "#дневник #daily #итоги #brain-os\n");
    assert(s@ =~= start + md_events(*m));
}

/// The daily note of the vault, given the day of the week and the neighbouring
/// dates (see `diary_markdown_spec`).
pub fn diary_markdown_of(
    m: &DiaryMetrics,
    average: &str,
    weekday: Option<u32>,
    yesterday: &DiaryDate,
    tomorrow: &DiaryDate,
) -> (r: String)
    ensures
        r@ == diary_markdown_spec(*m, average@, weekday, *yesterday, *tomorrow),
{
    let mut s = String::new();
    push_md_front(&mut s, m, average);
    push_md_title(&mut s, m, weekday, yesterday, tomorrow);
    push_md_table(&mut s, m, average);
    push_md_events(&mut s, m);
    assert(s@ =~= diary_markdown_spec(*m, average@, weekday, *yesterday, *tomorrow));
    s
}

/// The daily note of the vault for a day: its weekday and the days before and
/// after come from chrono's calendar, each neighbour being the day itself
/// where chrono has none.
pub fn diary_markdown(m: &DiaryMetrics, average: &str) -> (r: String)
    ensures
        r@ == diary_markdown_spec(
            *m,
            average@,
            chrono_weekday(m.date.year, m.date.month, m.date.day),
            or_same(m.date, chrono_day_before(m.date.year, m.date.month, m.date.day)),
            or_same(m.date, chrono_day_after(m.date.year, m.date.month, m.date.day)),
        ),
{
    let w = weekday_number(&m.date);
    let y = match day_before(&m.date) {
        Some((a, b, c)) => DiaryDate { year: a, month: b, day: c },
        None => m.date,
    };
    let t = match day_after(&m.date) {
        Some((a, b, c)) => DiaryDate { year: a, month: b, day: c },
        None => m.date,
    };
    diary_markdown_of(m, average, w, &y, &t)
}

// ── The greeting ────────────────────────────────────────────

/// The evening greeting: the date in words, the days lived and left, the share
/// of life lived (`lived_percent`, with one decimal) and the weather.
pub open spec fn greeting_spec(
    d: DiaryDate,
    weekday: Option<u32>,
    days_lived: int,
    days_remaining: int,
    lived_percent: Seq<char>,
    weather_today: Seq<char>,
    weather_tomorrow: Seq<char>,
) -> Seq<char> {
    "🌙 Добрый вечер.\n\n━━━━━━━━━━━━━━━━━━━━━━━━━━━\n\n📅 Сегодня: "@ + dec(d.day as nat) + " "@ + crate::bot::russian_month_spec(d.month) + " "@
        + signed_dec(d.year as int) + ", "@ + weekday_name(weekday) + "\n🔢 Твой "@ + signed_dec(days_lived)
        + "-й день жизни\n⏳ Осталось примерно "@ + signed_dec(days_remaining) + " дней\n📊 Прожито: "@ + lived_percent
        + "% жизни\n\n🌤 Сейчас: "@ + weather_today + "\n🌅 Завтра: "@ + weather_tomorrow
        + "\n\n━━━━━━━━━━━━━━━━━━━━━━━━━━━\n\nГотов к вечернему обзору?"@
}

pub(crate) fn push_signed_i64(s: &mut String, n: i64)
    ensures
        final(s)@ == old(s)@ + signed_dec(n as int),
{
    if n < 0 {
        push_str(s, "-");
        let a: i128 = -(n as i128);
        push_dec(s, a as u64);
    } else {
        push_dec(s, n as u64);
    }
}

/// The evening greeting for a given day of the week (see `greeting_spec`).
pub fn day_greeting_of(
    d: &DiaryDate,
    weekday: Option<u32>,
    days_lived: i64,
    days_remaining: i64,
    lived_percent: &str,
    weather_today: &str,
    weather_tomorrow: &str,
) -> (r: String)
    ensures
        r@ == greeting_spec(
            *d,
            weekday,
            days_lived as int,
            days_remaining as int,
            lived_percent@,
            weather_today@,
            weather_tomorrow@,
        ),
{
    let mut s = owned("🌙 Добрый вечер.\n\n━━━━━━━━━━━━━━━━━━━━━━━━━━━\n\n📅 Сегодня: ");
    push_dec(&mut s, d.day as u64);
    push_str(&mut s, " ");
    push_str(&mut s, crate::bot::russian_month(d.month));
    push_str(&mut s, " ");
    push_signed(&mut s, d.year);
    push_str(&mut s, ", ");
    push_weekday(&mut s, weekday);
    push_str(&mut s, "\n🔢 Твой ");
    push_signed_i64(&mut s, days_lived);
    push_str(&mut s, "-й день жизни\n⏳ Осталось примерно ");
    push_signed_i64(&mut s, days_remaining);
    push_str(&mut s, " дней\n📊 Прожито: ");
    push_str(&mut s, lived_percent);
    push_str(&mut s, "% жизни\n\n🌤 Сейчас: ");
    push_str(&mut s, weather_today);
    push_str(&mut s, "\n🌅 Завтра: ");
    push_str(&mut s, weather_tomorrow);
    push_str(&mut s, "\n\n━━━━━━━━━━━━━━━━━━━━━━━━━━━\n\nГотов к вечернему обзору?");
    s
}

/// The evening greeting for a date, its day of the week by chrono's calendar.
pub fn day_greeting(
    d: &DiaryDate,
    days_lived: i64,
    days_remaining: i64,
    lived_percent: &str,
    weather_today: &str,
    weather_tomorrow: &str,
) -> (r: String)
    ensures
        r@ == greeting_spec(
            *d,
            chrono_weekday(d.year, d.month, d.day),
            days_lived as int,
            days_remaining as int,
            lived_percent@,
            weather_today@,
            weather_tomorrow@,
        ),
{
    let w = weekday_number(d);
    day_greeting_of(d, w, days_lived, days_remaining, lived_percent, weather_today, weather_tomorrow)
}

} // verus!
