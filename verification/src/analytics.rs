//! Diary analytics that need no arithmetic on fractions: streaks, the kinds of
//! insights and trends, and the wording chosen for them.

use vstd::prelude::*;

verus! {

/// The length of the run of `true` that ends the sequence.
pub open spec fn trailing_run(v: Seq<bool>) -> nat
    decreases v.len(),
{
    if v.len() == 0 {
        0
    } else if v.last() {
        trailing_run(v.drop_last()) + 1
    } else {
        0
    }
}

/// The longest run of consecutive `true` values.
pub open spec fn longest_run(v: Seq<bool>) -> nat
    decreases v.len(),
{
    if v.len() == 0 {
        0
    } else {
        let m = longest_run(v.drop_last());
        let t = trailing_run(v);
        if t > m {
            t
        } else {
            m
        }
    }
}

/// The longest streak of days that met a condition.
pub fn calculate_streak(values: &[bool]) -> (r: usize)
    ensures
        r == longest_run(values@),
{
    let mut max_streak: usize = 0;
    let mut current: usize = 0;
    let mut i: usize = 0;
    while i < values.len()
        invariant
            i <= values.len(),
            max_streak == longest_run(values@.take(i as int)),
            current == trailing_run(values@.take(i as int)),
            current <= i,
        decreases values.len() - i,
    {
        assert(values@.take(i + 1).drop_last() =~= values@.take(i as int));
        if values[i] {
            current = current + 1;
            if current > max_streak {
                max_streak = current;
            }
        } else {
            current = 0;
        }
        i = i + 1;
    }
    assert(values@.take(values.len() as int) =~= values@);
    max_streak
}

/// Every value in `i..j` holds.
pub open spec fn all_true(v: Seq<bool>, i: int, j: int) -> bool {
    forall|k: int| i <= k < j ==> #[trigger] v[k]
}

proof fn lemma_trailing_bounds(v: Seq<bool>, i: int)
    requires
        0 <= i <= v.len(),
        all_true(v, i, v.len() as int),
    ensures
        v.len() - i <= trailing_run(v),
        trailing_run(v) <= v.len(),
        all_true(v, v.len() - trailing_run(v), v.len() as int),
    decreases v.len(),
{
    if v.len() > 0 {
        let init = v.drop_last();
        if i < v.len() {
            assert(v.last() == v[v.len() - 1]);
            assert(all_true(init, i, init.len() as int)) by {
                assert forall|k: int| i <= k < init.len() implies #[trigger] init[k] by {
                    assert(v[k]);
                }
            }
            lemma_trailing_bounds(init, i);
        } else {
            lemma_trailing_bounds(init, init.len() as int);
        }
        if v.last() {
            assert forall|k: int| v.len() - trailing_run(v) <= k < v.len() implies #[trigger] v[k] by {
                if k < v.len() - 1 {
                    assert(init[k] == v[k]);
                }
            }
        }
    }
}

/// A streak is a real run, and no run is longer: some run of `true` of exactly
/// the streak's length exists, every run of `true` is at most that long, and
/// the streak never exceeds the number of days.
pub proof fn lemma_streak_is_longest_run(v: Seq<bool>)
    ensures
        longest_run(v) <= v.len(),
        forall|i: int, j: int| 0 <= i <= j <= v.len() && all_true(v, i, j) ==> j - i <= longest_run(v),
        exists|j: int|
            longest_run(v) <= j <= v.len() && #[trigger] all_true(v, j - longest_run(v), j),
    decreases v.len(),
{
    if v.len() == 0 {
        assert(all_true(v, 0, 0));
    } else {
        let init = v.drop_last();
        lemma_streak_is_longest_run(init);
        lemma_trailing_bounds(v, v.len() as int);
        assert forall|i: int, j: int| 0 <= i <= j <= v.len() && all_true(v, i, j) implies j - i <= longest_run(v) by {
            if j == v.len() {
                lemma_trailing_bounds(v, i);
            } else {
                assert(all_true(init, i, j)) by {
                    assert forall|k: int| i <= k < j implies #[trigger] init[k] by {
                        assert(v[k]);
                    }
                }
            }
        }
        let t = trailing_run(v);
        if t > longest_run(init) {
            assert(all_true(v, v.len() - t, v.len() as int));
            assert(longest_run(v) == t);
            assert(all_true(v, v.len() - longest_run(v), v.len() as int));
        } else {
            let j = choose|j: int|
                longest_run(init) <= j <= init.len() && #[trigger] all_true(init, j - longest_run(init), j);
            assert(all_true(v, j - longest_run(init), j)) by {
                assert forall|k: int| j - longest_run(init) <= k < j implies #[trigger] v[k] by {
                    assert(init[k] == v[k]);
                }
            }
            assert(longest_run(v) == longest_run(init));
            assert(all_true(v, j - longest_run(v), j));
        }
    }
}

/// What an insight is about.
#[derive(PartialEq, Eq, Structural, Clone, Copy, Debug)]
pub enum InsightType {
    SleepTrend,
    MoodCorrelation,
    ProductivityPattern,
    HabitStreak,
    RecurringTheme,
}

/// Where a series is heading.
#[derive(PartialEq, Eq, Structural, Clone, Copy, Debug)]
pub enum TrendDirection {
    Up,
    Down,
    Stable,
}

/// Trends of series of diary values.
pub struct TrendAnalyzer;

impl TrendAnalyzer {
    /// A series shorter than three values has no trend.
    pub fn too_short_for_trend(len: usize) -> (b: bool)
        ensures
            b == (len < 3),
    {
        len < 3
    }
}

/// Insights drawn from a diary.
pub struct InsightEngine;

impl InsightEngine {
    /// Insights need at least a week of diary days, and of sleep records.
    pub fn enough_data(days: usize) -> (b: bool)
        ensures
            b == (days >= 7),
    {
        days >= 7
    }

    /// What the sleep insight says for the trend of sleep.
    pub fn sleep_trend_text(t: TrendDirection) -> (r: &'static str)
        ensures
            r@ == (match t {
                TrendDirection::Down => "⚠️ Ты стал хуже спать за последнюю неделю"@,
                TrendDirection::Up => "✅ Качество сна улучшается"@,
                TrendDirection::Stable => "😴 Сон стабильный"@,
            }),
    {
        match t {
            TrendDirection::Down => "⚠️ Ты стал хуже спать за последнюю неделю",
            TrendDirection::Up => "✅ Качество сна улучшается",
            TrendDirection::Stable => "😴 Сон стабильный",
        }
    }
}

/// How many recent events an insight over `days` days reads.
pub fn events_limit(days: usize) -> (r: usize)
    ensures
        r == (if days == 7 { 30usize } else if days == 30 { 100usize } else if days == 365 { 200usize } else { 300usize }),
{
    if days == 7 {
        30
    } else if days == 30 {
        100
    } else if days == 365 {
        200
    } else {
        300
    }
}

/// The period an insight covers, in words.
pub fn period_words(days: usize) -> (r: &'static str)
    ensures
        r@ == (if days == 7 {
            "последние 7 дней"@
        } else if days == 30 {
            "последние 30 дней"@
        } else if days == 365 {
            "этот год"@
        } else {
            "всё время"@
        }),
{
    if days == 7 {
        "последние 7 дней"
    } else if days == 30 {
        "последние 30 дней"
    } else if days == 365 {
        "этот год"
    } else {
        "всё время"
    }
}

/// The report for a period without diary notes.
pub fn no_entries_message(days: i64) -> (r: String)
    ensures
        r@ == "📭 За этот период ("@ + crate::diary::signed_dec(days as int)
            + ") пока нет сохранённых записей дневника."@,
{
    let mut s = crate::text::owned("📭 За этот период (");
    if days < 0 {
        crate::text::push_str(&mut s, "-");
        let a: i128 = -(days as i128);
        crate::text::push_dec(&mut s, a as u64);
    } else {
        crate::text::push_dec(&mut s, days as u64);
    }
    crate::text::push_str(&mut s, ") пока нет сохранённых записей дневника.");
    s
}

} // verus!
