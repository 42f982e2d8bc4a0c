use vstd::prelude::*;

verus! {

/// Whether `year` is a leap year of the proleptic Gregorian calendar.
pub open spec fn is_leap(year: int) -> bool {
    (year % 4 == 0 && year % 100 != 0) || year % 400 == 0
}

/// The number of days in a month.
pub open spec fn days_in_month(year: int, month: int) -> int {
    if month == 2 {
        if is_leap(year) { 29 } else { 28 }
    } else if month == 4 || month == 6 || month == 9 || month == 11 {
        30
    } else {
        31
    }
}

/// Whether `(year, month, day)` is a date in the range the calendar
/// supports, years -9999 to 9999.
#[verifier::opaque]
pub open spec fn valid_date(year: int, month: int, day: int) -> bool {
    -9999 <= year <= 9999 && 1 <= month <= 12 && 1 <= day <= days_in_month(year, month)
}

/// The number of days from 1970-01-01 to a date of the proleptic Gregorian
/// calendar (negative before it).
#[verifier::opaque]
pub open spec fn day_number(year: int, month: int, day: int) -> int {
    let y = if month <= 2 { year - 1 } else { year };
    let era = y / 400;
    let year_of_era = y - era * 400;
    let month_from_march = (month + 9) % 12;
    let day_of_year = (153 * month_from_march + 2) / 5 + day - 1;
    let day_of_era = year_of_era * 365 + year_of_era / 4 - year_of_era / 100 + day_of_year;
    era * 146097 + day_of_era - 719468
}

/// The day number of the first supported date, -9999-01-01.
pub open spec fn first_day_number() -> int {
    day_number(-9999, 1, 1)
}

/// The day number of the last supported date, 9999-12-31.
pub open spec fn last_day_number() -> int {
    day_number(9999, 12, 31)
}

/// A day number kept within the supported dates.
pub open spec fn clamp_day(n: int) -> int {
    if n < first_day_number() {
        first_day_number()
    } else if n > last_day_number() {
        last_day_number()
    } else {
        n
    }
}

/// A date's weekday counted from Monday: 0 for Monday up to 6 for Sunday
/// (1970-01-01 was a Thursday).
pub open spec fn monday_offset(year: int, month: int, day: int) -> int {
    (day_number(year, month, day) + 3) % 7
}

/// The date `months` months after the first of `(year, month)`, or the
/// first or last supported date when that falls outside the range.
pub open spec fn months_after(year: int, month: int, months: int) -> (int, int, int) {
    let index = year * 12 + (month - 1) + months;
    if index < -9999 * 12 {
        (-9999, 1, 1)
    } else if index > 9999 * 12 + 11 {
        (9999, 12, 31)
    } else {
        (index / 12, index % 12 + 1, 1)
    }
}

/// The weekday of a date, counted from Monday.
///
/// Calls `jiff::civil::date(year, month, day).weekday()` and
/// `to_monday_zero_offset`, which jiff documents as counting a week from
/// Monday at 0; `date` panics on an invalid date, which `requires` rules out.
#[verifier::external_body]
fn weekday_offset(year: i16, month: i8, day: i8) -> (offset: i8)
    requires
        valid_date(year as int, month as int, day as int),
    ensures
        offset == monday_offset(year as int, month as int, day as int),
{
    jiff::civil::date(year, month, day).weekday().to_monday_zero_offset()
}

/// The date `days` days after a date.
///
/// Calls `jiff::civil::Date::saturating_add` with `jiff::Span::new().days(days)`:
/// days are added on the proleptic Gregorian calendar, and a result outside
/// -9999-01-01 to 9999-12-31 saturates to that bound. `Span::days` panics
/// beyond 7,304,484 days either way, which `requires` rules out.
#[verifier::external_body]
fn add_days(year: i16, month: i8, day: i8, days: i64) -> (date: (i16, i8, i8))
    requires
        valid_date(year as int, month as int, day as int),
        -7_304_484 <= days <= 7_304_484,
    ensures
        valid_date(date.0 as int, date.1 as int, date.2 as int),
        day_number(date.0 as int, date.1 as int, date.2 as int) == clamp_day(
            day_number(year as int, month as int, day as int) + days,
        ),
{
    let date = jiff::civil::date(year, month, day).saturating_add(jiff::Span::new().days(days));
    (date.year(), date.month(), date.day())
}

/// The date `months` months after the first of a month.
///
/// Calls `jiff::civil::Date::saturating_add` on the month's first day with
/// `jiff::Span::new().months(months)`; from a first day no day is clamped,
/// and a result outside the supported range saturates to -9999-01-01 or
/// 9999-12-31. `Span::months` panics beyond 239,976 months either way.
#[verifier::external_body]
fn add_months(year: i16, month: i8, months: i32) -> (date: (i16, i8, i8))
    requires
        valid_date(year as int, month as int, 1),
        -239_976 <= months <= 239_976,
    ensures
        valid_date(date.0 as int, date.1 as int, date.2 as int),
        (date.0 as int, date.1 as int, date.2 as int) == months_after(year as int, month as int, months as int),
{
    let date = jiff::civil::date(year, month, 1).saturating_add(jiff::Span::new().months(months));
    (date.year(), date.month(), date.day())
}

/// Today's date in the system's time zone, when the system clock can be
/// read.
///
/// Converts `std::time::SystemTime::now()` with `jiff::Zoned::try_from`
/// (the system time zone) and takes its `date()`; the conversion fails
/// (rather than panics, as `Zoned::now` would) when the clock lies outside
/// jiff's range. The date depends on the clock; only its validity is stated.
#[verifier::external_body]
fn today() -> (date: Option<(i16, i8, i8)>)
    ensures
        date matches Some(d) ==> valid_date(d.0 as int, d.1 as int, d.2 as int),
{
    jiff::Zoned::try_from(std::time::SystemTime::now()).ok().map(|now| (now.date().year(), now.date().month(), now.date().day()))
}

/// One cell of the month calendar.
#[derive(Clone, Copy, PartialEq, Eq, Structural, Debug)]
pub struct CalendarDay {
    /// The day of the month.
    pub day: i8,
    /// The day belongs to the month shown, rather than to a neighbour.
    pub in_month: bool,
    /// The day is today.
    pub today: bool,
}

/// The month the calendar shows and its six weeks of days.
pub struct MonthGrid {
    pub year: i16,
    pub month: i8,
    pub days: Vec<CalendarDay>,
}

/// Whether a grid cell shows the date `(year, month, day)`.
pub open spec fn shows(cell: CalendarDay, year: int, month: int, day: int, shown_month: int, today: (i16, i8, i8)) -> bool {
    &&& cell.day == day
    &&& cell.in_month == (month == shown_month)
    &&& cell.today == (year == today.0 && month == today.1 && day == today.2)
}

/// Whether a grid cell shows the date with day number `n`: some valid date
/// with that number has the cell's day, and the cell is marked by it.
pub open spec fn shows_day(cell: CalendarDay, n: int, shown_month: int, today: (i16, i8, i8)) -> bool {
    exists|year: i16, month: i8|
        #![trigger valid_date(year as int, month as int, cell.day as int)]
        valid_date(year as int, month as int, cell.day as int) && day_number(
            year as int,
            month as int,
            cell.day as int,
        ) == n && shows(cell, year as int, month as int, cell.day as int, shown_month, today)
}

/// The day number of the first cell of the grid for the month shown: the
/// Monday on or before its first day (or the first supported date).
pub open spec fn grid_start(shown: (int, int, int)) -> int {
    clamp_day(day_number(shown.0, shown.1, shown.2) - monday_offset(shown.0, shown.1, shown.2))
}

/// Whether `grid` is the calendar of the month `month_offset` months from
/// the month of `today`: that month, and six weeks of days from its grid
/// start.
pub open spec fn is_month_grid(grid: MonthGrid, today: (i16, i8, i8), month_offset: int) -> bool {
    let shown = months_after(today.0 as int, today.1 as int, month_offset);
    &&& grid.days@.len() == 42
    &&& grid.year == shown.0 && grid.month == shown.1
    &&& forall|i: int|
        #![trigger grid.days@[i]]
        0 <= i < 42 ==> shows_day(grid.days@[i], clamp_day(grid_start(shown) + i), shown.1, today)
}

/// The month `month_offset` months from today's, and its calendar: six weeks
/// from the Monday on or before the month's first day (or its first shown
/// date), each day marked as in the month or not and as today or not.
pub fn month_grid(today: (i16, i8, i8), month_offset: i32) -> (grid: MonthGrid)
    requires
        valid_date(today.0 as int, today.1 as int, today.2 as int),
        -239_976 <= month_offset <= 239_976,
    ensures
        is_month_grid(grid, today, month_offset as int),
{
    assert(valid_date(today.0 as int, today.1 as int, 1)) by {
        reveal(valid_date);
    }
    let (year, month, day) = add_months(today.0, today.1, month_offset);
    let lead = weekday_offset(year, month, day);
    let (sy, sm, sd) = add_days(year, month, day, -(lead as i64));
    let ghost start = clamp_day(day_number(year as int, month as int, day as int) - lead);
    let mut days: Vec<CalendarDay> = Vec::new();
    let mut i: usize = 0;
    while i < 42
        invariant
            0 <= i <= 42,
            days@.len() == i,
            valid_date(sy as int, sm as int, sd as int),
            day_number(sy as int, sm as int, sd as int) == start,
            forall|k: int|
                #![trigger days@[k]]
                0 <= k < i ==> shows_day(days@[k], clamp_day(start + k), month as int, today),
        decreases 42 - i,
    {
        let (cy, cm, cd) = add_days(sy, sm, sd, i as i64);
        let cell = CalendarDay { day: cd, in_month: cm == month, today: cy == today.0 && cm == today.1 && cd == today.2 };
        let ghost before = days@;
        days.push(cell);
        proof {
            assert(valid_date(cy as int, cm as int, cell.day as int));
            assert(shows_day(cell, clamp_day(start + i), month as int, today));
            assert forall|k: int|
                #![trigger days@[k]]
                0 <= k < i + 1 implies shows_day(days@[k], clamp_day(start + k), month as int, today) by {
                if k < i {
                    assert(days@[k] == before[k]);
                }
            }
        }
        i += 1;
    }
    MonthGrid { year, month, days }
}

/// The calendar of the month `month_offset` months from the current one:
/// the grid of some valid date, the one the clock gave; `None` when the
/// system clock cannot be read.
pub fn current_month_grid(month_offset: i32) -> (grid: Option<MonthGrid>)
    requires
        -239_976 <= month_offset <= 239_976,
    ensures
        match grid {
            Some(g) => exists|today: (i16, i8, i8)|
                valid_date(today.0 as int, today.1 as int, today.2 as int) && #[trigger] is_month_grid(
                    g,
                    today,
                    month_offset as int,
                ),
            None => true,
        },
{
    let clock = today();
    match clock {
        Some(date) => {
            assert(valid_date(date.0 as int, date.1 as int, date.2 as int));
            let grid = month_grid(date, month_offset);
            let result = Some(grid);
            assert(is_month_grid(result->Some_0, date, month_offset as int));
            result
        },
        None => None,
    }
}

/// What a click on the calendar's header hit.
#[derive(Clone, Copy, PartialEq, Eq, Structural, Debug)]
pub enum CalendarTarget {
    /// The month title: back to the current month.
    Title,
    /// An arrow: one month back (-1) or forward (1).
    Arrow(i32),
}

/// The month offset after a click, kept within a hundred years, and the
/// direction the month slides in: -1, 0 or 1.
pub fn navigate_month(offset: i32, target: CalendarTarget) -> (moved: (i32, i32))
    requires
        -1200 <= offset <= 1200,
        target matches CalendarTarget::Arrow(side) ==> side == -1 || side == 1,
    ensures
        ({
            let next = match target {
                CalendarTarget::Title => 0,
                CalendarTarget::Arrow(side) => {
                    let stepped = offset + side;
                    if stepped < -1200 { -1200 } else if stepped > 1200 { 1200 } else { stepped }
                },
            };
            &&& moved.0 == next
            &&& moved.1 == if next > offset { 1 } else if next < offset { -1 } else { 0 }
        }),
{
    let next = match target {
        CalendarTarget::Title => 0,
        CalendarTarget::Arrow(side) => {
            let stepped = offset + side;
            if stepped < -1200 { -1200 } else if stepped > 1200 { 1200 } else { stepped }
        },
    };
    let direction = if next > offset { 1 } else if next < offset { -1 } else { 0 };
    (next, direction)
}

} // verus!

verus! {

/// A supported date comes no later than the last supported date.
proof fn lemma_day_number_at_most_last(year: int, month: int, day: int)
    requires
        valid_date(year, month, day),
    ensures
        day_number(year, month, day) <= last_day_number(),
{
    reveal(valid_date);
    reveal(day_number);
    let y = if month <= 2 { year - 1 } else { year };
    let era = y / 400;
    let year_of_era = y - era * 400;
    let month_from_march = (month + 9) % 12;
    let day_of_year = (153 * month_from_march + 2) / 5 + day - 1;
    assert(day_of_year <= 365) by (nonlinear_arith)
        requires
            1 <= month <= 12,
            1 <= day <= 31,
            month_from_march == (month + 9) % 12,
            day_of_year == (153 * month_from_march + 2) / 5 + day - 1,
            month_from_march == 11 ==> day <= 29,
    ;
    assert(day_number(9999, 12, 31) == 2932896);
}

/// The calendar grid opens on a Monday: unless the month lies so early that
/// its grid would start before the first supported date, the first cell
/// shows a date whose weekday is Monday.
pub proof fn grid_starts_on_monday(grid: MonthGrid, today: (i16, i8, i8), month_offset: int)
    requires
        is_month_grid(grid, today, month_offset),
        ({
            let shown = months_after(today.0 as int, today.1 as int, month_offset);
            first_day_number() <= day_number(shown.0, shown.1, shown.2) - monday_offset(shown.0, shown.1, shown.2)
        }),
    ensures
        exists|year: i16, month: i8|
            #![trigger valid_date(year as int, month as int, grid.days@[0].day as int)]
            valid_date(year as int, month as int, grid.days@[0].day as int) && monday_offset(
                year as int,
                month as int,
                grid.days@[0].day as int,
            ) == 0,
{
    let shown = months_after(today.0 as int, today.1 as int, month_offset);
    assert(valid_date(shown.0, shown.1, shown.2)) by {
        reveal(valid_date);
    }
    lemma_day_number_at_most_last(shown.0, shown.1, shown.2);
    let dn = day_number(shown.0, shown.1, shown.2);
    let start = dn - monday_offset(shown.0, shown.1, shown.2);
    assert(grid_start(shown) == start);
    assert(shows_day(grid.days@[0], start, shown.1, today));
    let (year, month) = choose|year: i16, month: i8|
        #![trigger valid_date(year as int, month as int, grid.days@[0].day as int)]
        valid_date(year as int, month as int, grid.days@[0].day as int) && day_number(
            year as int,
            month as int,
            grid.days@[0].day as int,
        ) == start && shows(grid.days@[0], year as int, month as int, grid.days@[0].day as int, shown.1, today);
    assert((dn - (dn + 3) % 7 + 3) % 7 == 0) by (nonlinear_arith);
    assert(monday_offset(year as int, month as int, grid.days@[0].day as int) == 0);
}

/// A supported date comes no earlier than the first supported date.
proof fn lemma_day_number_at_least_first(year: int, month: int, day: int)
    requires
        valid_date(year, month, day),
    ensures
        first_day_number() <= day_number(year, month, day),
{
    reveal(valid_date);
    reveal(day_number);
    let month_from_march = (month + 9) % 12;
    let day_of_year = (153 * month_from_march + 2) / 5 + day - 1;
    assert(day_of_year >= 0) by (nonlinear_arith)
        requires
            1 <= month <= 12,
            1 <= day,
            month_from_march == (month + 9) % 12,
            day_of_year == (153 * month_from_march + 2) / 5 + day - 1,
    ;
    assert(day_number(-9999, 1, 1) == -4371587);
}

/// Within a month, day numbers count the days from its first.
proof fn lemma_day_in_month(year: int, month: int, day: int)
    ensures
        day_number(year, month, day) == day_number(year, month, 1) + day - 1,
{
    reveal(day_number);
}

/// The current month's grid marks today: one of its cells shows today's
/// day, belongs to the month, and is marked as today.
pub proof fn current_month_shows_today(grid: MonthGrid, today: (i16, i8, i8))
    requires
        valid_date(today.0 as int, today.1 as int, today.2 as int),
        is_month_grid(grid, today, 0),
    ensures
        exists|k: int|
            0 <= k < 42 && (#[trigger] grid.days@[k]) == (CalendarDay { day: today.2, in_month: true, today: true }),
{
    let (y, m, d) = (today.0 as int, today.1 as int, today.2 as int);
    assert(months_after(y, m, 0) == (y, m, 1int)) by {
        reveal(valid_date);
    }
    let shown = months_after(y, m, 0);
    assert(valid_date(y, m, 1)) by {
        reveal(valid_date);
    }
    let t = day_number(y, m, d);
    lemma_day_in_month(y, m, d);
    lemma_day_number_at_most_last(y, m, d);
    lemma_day_number_at_least_first(y, m, d);
    lemma_day_number_at_most_last(y, m, 1);
    let first = day_number(y, m, 1);
    let start = grid_start(shown);
    assert(start == clamp_day(first - monday_offset(y, m, 1)));
    assert(1 <= d <= 31) by {
        reveal(valid_date);
    }
    assert(0 <= monday_offset(y, m, 1) < 7);
    let k = t - start;
    assert(0 <= k < 42);
    assert(clamp_day(start + k) == t);
    let cell = grid.days@[k];
    assert(shows_day(cell, t, m, today));
    let (cy, cm) = choose|year: i16, month: i8|
        #![trigger valid_date(year as int, month as int, cell.day as int)]
        valid_date(year as int, month as int, cell.day as int) && day_number(year as int, month as int, cell.day as int)
            == t && shows(cell, year as int, month as int, cell.day as int, m, today);
    lemma_day_number_injective(cy as int, cm as int, cell.day as int, y, m, d);
    assert(cell == (CalendarDay { day: today.2, in_month: true, today: true }));
}

/// The days before a month's first day, counted from March 1.
spec fn march_days(month_from_march: int) -> int {
    (153 * month_from_march + 2) / 5
}

/// The days in the years of an era before year `year_of_era`, counted from
/// March.
spec fn era_days(year_of_era: int) -> int {
    year_of_era * 365 + year_of_era / 4 - year_of_era / 100
}

proof fn lemma_march_days(mfm: int)
    requires
        0 <= mfm < 12,
    ensures
        march_days(mfm) == if mfm == 0 { 0int } else if mfm == 1 { 31int } else if mfm == 2 { 61int } else if mfm == 3 {
            92int
        } else if mfm == 4 { 122int } else if mfm == 5 { 153int } else if mfm == 6 { 184int } else if mfm == 7 {
            214int
        } else if mfm == 8 { 245int } else if mfm == 9 { 275int } else if mfm == 10 { 306int } else { 337int },
{
    if mfm == 0 {} else if mfm == 1 {} else if mfm == 2 {} else if mfm == 3 {} else if mfm == 4 {} else if mfm == 5 {}
    else if mfm == 6 {} else if mfm == 7 {} else if mfm == 8 {} else if mfm == 9 {} else if mfm == 10 {} else {}
}

proof fn lemma_era_days_step(yoe: int)
    requires
        0 <= yoe < 399,
    ensures
        era_days(yoe + 1) == era_days(yoe) + 365 + if (yoe + 1) % 4 == 0 && (yoe + 1) % 100 != 0 { 1int } else { 0int },
{
    assert(era_days(yoe + 1) == era_days(yoe) + 365 + if (yoe + 1) % 4 == 0 && (yoe + 1) % 100 != 0 { 1int } else { 0int })
        by (nonlinear_arith)
        requires
            0 <= yoe < 399,
    ;
}

proof fn lemma_era_days_grow(a: int, b: int)
    requires
        0 <= a < b <= 399,
    ensures
        era_days(b) >= era_days(a + 1),
        era_days(a + 1) == era_days(a) + 365 + if (a + 1) % 4 == 0 && (a + 1) % 100 != 0 { 1int } else { 0int },
    decreases b - a,
{
    lemma_era_days_step(a);
    if b > a + 1 {
        lemma_era_days_grow(a + 1, b);
        lemma_era_days_step(a + 1);
    }
}

/// The position of a supported date within its 400-year era, counted from
/// March 1 of the era's first year, lies within the era.
proof fn lemma_day_of_era(year: int, month: int, day: int)
    requires
        valid_date(year, month, day),
    ensures
        ({
            let y = if month <= 2 { year - 1 } else { year };
            let yoe = y - (y / 400) * 400;
            let mfm = (month + 9) % 12;
            let doy = march_days(mfm) + day - 1;
            &&& 0 <= yoe < 400
            &&& 0 <= doy
            &&& doy <= 365
            &&& day_number(year, month, day) == (y / 400) * 146097 + era_days(yoe) + doy - 719468
            &&& yoe < 399 ==> era_days(yoe + 1) - era_days(yoe) > doy
            &&& era_days(yoe) + doy <= 146096
        }),
{
    reveal(valid_date);
    reveal(day_number);
    let y = if month <= 2 { year - 1 } else { year };
    let era = y / 400;
    let yoe = y - era * 400;
    let mfm = (month + 9) % 12;
    let doy = march_days(mfm) + day - 1;
    lemma_march_days(mfm);
    assert(0 <= yoe < 400);
    if yoe < 399 {
        lemma_era_days_step(yoe);
        if doy >= 365 {
            assert(month == 2 && day == 29);
            assert(is_leap(year));
            assert(year == era * 400 + yoe + 1);
            assert((yoe + 1) % 4 == 0 && (yoe + 1) % 100 != 0) by (nonlinear_arith)
                requires
                    year == era * 400 + yoe + 1,
                    0 <= yoe < 399,
                    (year % 4 == 0 && year % 100 != 0) || year % 400 == 0,
            ;
        }
        lemma_era_days_grow(yoe, 399);
    }
    assert(era_days(399) == 145731);
}

/// Distinct supported dates have distinct day numbers.
pub proof fn lemma_day_number_injective(y1: int, m1: int, d1: int, y2: int, m2: int, d2: int)
    requires
        valid_date(y1, m1, d1),
        valid_date(y2, m2, d2),
        day_number(y1, m1, d1) == day_number(y2, m2, d2),
    ensures
        y1 == y2 && m1 == m2 && d1 == d2,
{
    lemma_day_of_era(y1, m1, d1);
    lemma_day_of_era(y2, m2, d2);
    let p1 = if m1 <= 2 { y1 - 1 } else { y1 };
    let p2 = if m2 <= 2 { y2 - 1 } else { y2 };
    let (era1, era2) = (p1 / 400, p2 / 400);
    let (yoe1, yoe2) = (p1 - era1 * 400, p2 - era2 * 400);
    let (mfm1, mfm2) = ((m1 + 9) % 12, (m2 + 9) % 12);
    let doe1 = era_days(yoe1) + march_days(mfm1) + d1 - 1;
    let doe2 = era_days(yoe2) + march_days(mfm2) + d2 - 1;
    assert(era1 == era2 && doe1 == doe2) by (nonlinear_arith)
        requires
            era1 * 146097 + doe1 == era2 * 146097 + doe2,
            0 <= doe1 <= 146096,
            0 <= doe2 <= 146096,
    ;
    if yoe1 < yoe2 {
        lemma_era_days_grow(yoe1, yoe2);
    } else if yoe2 < yoe1 {
        lemma_era_days_grow(yoe2, yoe1);
    }
    assert(yoe1 == yoe2);
    assert(p1 == p2);
    reveal(valid_date);
    lemma_march_days(mfm1);
    lemma_march_days(mfm2);
    assert(mfm1 == mfm2);
    assert(m1 == m2);
}

} // verus!
