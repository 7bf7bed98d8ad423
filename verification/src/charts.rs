//! The layout of the monthly activity calendar: its title, where each day's
//! cell stands, and the shade that tells how active the day was.

use vstd::prelude::*;
use crate::text::{dec, fmt_dec, owned, push_str, push_zero_padded, zero_pad};

verus! {

/// The calendar's title: the year (four digits, or a sign and three) and the
/// month (two digits), then `Activity`.
pub open spec fn calendar_title_spec(year: int, month: nat) -> Seq<char> {
    (if year < 0 {
        "-"@ + zero_pad(dec((-year) as nat), 3)
    } else {
        zero_pad(dec(year as nat), 4)
    }) + "-"@ + zero_pad(dec(month), 2) + " Activity"@
}

/// The calendar's title (see `calendar_title_spec`).
pub fn calendar_title(year: i32, month: u32) -> (r: String)
    ensures
        r@ == calendar_title_spec(year as int, month as nat),
{
    let mut s = String::new();
    let y = year as i64;
    if y < 0 {
        push_str(&mut s, "-");
        let t = fmt_dec((-y) as u64);
        push_zero_padded(&mut s, t.as_str(), 3);
    } else {
        let t = fmt_dec(y as u64);
        push_zero_padded(&mut s, t.as_str(), 4);
    }
    push_str(&mut s, "-");
    let m = fmt_dec(month as u64);
    push_zero_padded(&mut s, m.as_str(), 2);
    push_str(&mut s, " Activity");
    s
}

/// The shade of a day's cell: grey for no activity, then darker to brighter
/// green for 1 to 3, 4 to 7, and more entries.
pub open spec fn activity_color_spec(count: u32) -> (u8, u8, u8) {
    if count == 0 {
        (50, 50, 50)
    } else if count <= 3 {
        (0, 100, 0)
    } else if count <= 7 {
        (0, 150, 0)
    } else {
        (0, 200, 0)
    }
}

/// The shade of a day's cell (see `activity_color_spec`).
pub fn activity_color(count: u32) -> (r: (u8, u8, u8))
    ensures
        r == activity_color_spec(count),
{
    if count == 0 {
        (50, 50, 50)
    } else if count <= 3 {
        (0, 100, 0)
    } else if count <= 7 {
        (0, 150, 0)
    } else {
        (0, 200, 0)
    }
}

/// A day's cell: its day of the month, top-left corner, activity and shade.
pub struct CalendarCell {
    pub day: u32,
    pub x: i32,
    pub y: i32,
    pub count: u32,
    pub color: (u8, u8, u8),
}

/// Where a day's cell stands: weeks are rows of 80 pixels from y = 100, days
/// of the week columns of 100 pixels from x = 50, Monday first.
pub open spec fn cell_corner(start_weekday: int, day: int) -> (int, int) {
    let idx = start_weekday + day - 1;
    (50 + (idx % 7) * 100, 100 + (idx / 7) * 80)
}

pub open spec fn cell_view(c: CalendarCell) -> (u32, int, int, u32, (u8, u8, u8)) {
    (c.day, c.x as int, c.y as int, c.count, c.color)
}

/// The cells of a month whose first day falls on `start_weekday` (Monday 0)
/// and that has `counts.len()` days, `counts[d - 1]` being day `d`'s activity.
pub open spec fn calendar_cells_spec(start_weekday: int, counts: Seq<u32>) -> Seq<(u32, int, int, u32, (u8, u8, u8))> {
    Seq::new(
        counts.len(),
        |i: int|
            (
                (i + 1) as u32,
                cell_corner(start_weekday, i + 1).0,
                cell_corner(start_weekday, i + 1).1,
                counts[i],
                activity_color_spec(counts[i]),
            ),
    )
}

/// The cells of a month (see `calendar_cells_spec`).
pub fn calendar_cells(start_weekday: u32, counts: &Vec<u32>) -> (r: Vec<CalendarCell>)
    requires
        start_weekday < 7,
        counts@.len() <= 31,
    ensures
        r@.map_values(|c: CalendarCell| cell_view(c)) == calendar_cells_spec(start_weekday as int, counts@),
{
    let mut out: Vec<CalendarCell> = Vec::new();
    let mut i: usize = 0;
    while i < counts.len()
        invariant
            i <= counts.len() <= 31,
            start_weekday < 7,
            out@.len() == i,
            forall|k: int|
                0 <= k < i ==> cell_view(#[trigger] out@[k]) == calendar_cells_spec(start_weekday as int, counts@)[k],
        decreases counts.len() - i,
    {
        let idx: u32 = start_weekday + (i as u32);
        let col: u32 = idx % 7;
        let row: u32 = idx / 7;
        let x: i32 = 50 + (col as i32) * 100;
        let y: i32 = 100 + (row as i32) * 80;
        let count = counts[i];
        out.push(CalendarCell { day: (i + 1) as u32, x, y, count, color: activity_color(count) });
        i = i + 1;
    }
    assert(out@.map_values(|c: CalendarCell| cell_view(c)) =~= calendar_cells_spec(start_weekday as int, counts@));
    out
}

} // verus!
