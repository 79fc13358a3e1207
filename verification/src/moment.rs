//! Moments of local time, as they stand in log lines.

use vstd::prelude::*;

use crate::text::{
    decimal, is_number, law_decimal_reads_back, law_padded_reads_back, number_of, padded,
};

verus! {

/// How a moment is written: date and time to the millisecond.
pub const TIMESTAMP_FORMAT: &'static str = "%Y-%m-%d %H:%M:%S%.3f";

/// The first year of the calendar.
pub const FIRST_YEAR: i32 = -262143;

/// The last year of the calendar.
pub const LAST_YEAR: i32 = 262142;

/// Whether a year has a leap day.
pub open spec fn is_leap_year(year: int) -> bool {
    year % 4 == 0 && (year % 100 != 0 || year % 400 == 0)
}

/// The number of days of a month.
pub open spec fn days_in_month(year: int, month: nat) -> nat {
    if month == 2 {
        if is_leap_year(year) {
            29
        } else {
            28
        }
    } else if month == 4 || month == 6 || month == 9 || month == 11 {
        30
    } else {
        31
    }
}

/// A date of the Gregorian calendar, and a time of day.
pub open spec fn is_calendar_moment(
    year: int,
    month: nat,
    day: nat,
    hour: nat,
    minute: nat,
    second: nat,
    milli: nat,
) -> bool {
    &&& FIRST_YEAR <= year <= LAST_YEAR
    &&& 1 <= month <= 12
    &&& 1 <= day <= days_in_month(year, month)
    &&& hour < 24
    &&& minute < 60
    &&& second < 60
    &&& milli < 1000
}

/// A date and a time of day, to the millisecond.
#[derive(Clone, Copy, Debug, PartialEq, Eq, Structural)]
pub struct Moment {
    year: i32,
    month: u32,
    day: u32,
    hour: u32,
    minute: u32,
    second: u32,
    milli: u32,
}

/// The text of a year: four digits, or a sign and at least four where that is not enough.
pub open spec fn year_text(year: int) -> Seq<char> {
    if 0 <= year <= 9999 {
        padded(year as nat, 4)
    } else if year > 9999 {
        "+"@ + decimal(year as nat)
    } else if -year <= 9999 {
        "-"@ + padded((-year) as nat, 4)
    } else {
        "-"@ + decimal((-year) as nat)
    }
}

/// The text of a moment, such as `2024-02-29 07:05:09.042`.
pub open spec fn timestamp(
    year: int,
    month: nat,
    day: nat,
    hour: nat,
    minute: nat,
    second: nat,
    milli: nat,
) -> Seq<char> {
    year_text(year) + "-"@ + padded(month, 2) + "-"@ + padded(day, 2) + " "@ + padded(hour, 2)
        + ":"@ + padded(minute, 2) + ":"@ + padded(second, 2) + "."@ + padded(milli, 3)
}

/// Calls chrono's `NaiveDateTime::format` on the given date and time. In the format
/// [`TIMESTAMP_FORMAT`], each number is filled up with zeros to its fixed width. A year before 0 or
/// after 9999 has a sign, and as many digits as it takes.
#[verifier::external_body]
fn format_moment(
    year: i32,
    month: u32,
    day: u32,
    hour: u32,
    minute: u32,
    second: u32,
    milli: u32,
    format: &str,
) -> (text: String)
    requires
        is_calendar_moment(
            year as int,
            month as nat,
            day as nat,
            hour as nat,
            minute as nat,
            second as nat,
            milli as nat,
        ),
        format@ == TIMESTAMP_FORMAT@,
    ensures
        text@ == timestamp(
            year as int,
            month as nat,
            day as nat,
            hour as nat,
            minute as nat,
            second as nat,
            milli as nat,
        ),
{
    let date = chrono::NaiveDate::from_ymd_opt(year, month, day).unwrap();
    let moment = date.and_hms_milli_opt(hour, minute, second, milli).unwrap();
    moment.format(format).to_string()
}

impl Moment {
    #[verifier::type_invariant]
    spec fn is_in_calendar(self) -> bool {
        is_calendar_moment(
            self.year as int,
            self.month as nat,
            self.day as nat,
            self.hour as nat,
            self.minute as nat,
            self.second as nat,
            self.milli as nat,
        )
    }

    /// The text of this moment.
    pub closed spec fn stamp_text(self) -> Seq<char> {
        timestamp(
            self.year as int,
            self.month as nat,
            self.day as nat,
            self.hour as nat,
            self.minute as nat,
            self.second as nat,
            self.milli as nat,
        )
    }

    /// The moment with this date and time of day, if there is one.
    pub fn new(
        year: i32,
        month: u32,
        day: u32,
        hour: u32,
        minute: u32,
        second: u32,
        milli: u32,
    ) -> (moment: Option<Moment>)
        ensures
            moment is Some <==> is_calendar_moment(
                year as int,
                month as nat,
                day as nat,
                hour as nat,
                minute as nat,
                second as nat,
                milli as nat,
            ),
            moment matches Some(m) ==> m.stamp_text() == timestamp(
                year as int,
                month as nat,
                day as nat,
                hour as nat,
                minute as nat,
                second as nat,
                milli as nat,
            ),
    {
        if year < FIRST_YEAR || year > LAST_YEAR {
            return None;
        }
        // The calendar repeats itself every 400 years.
        let like: u32 = (year + 280_000) as u32;
        let leap: bool = like % 4 == 0 && (like % 100 != 0 || like % 400 == 0);
        let days: u32 = if month == 2 {
            if leap {
                29
            } else {
                28
            }
        } else if month == 4 || month == 6 || month == 9 || month == 11 {
            30
        } else {
            31
        };
        if 1 <= month && month <= 12 && 1 <= day && day <= days && hour < 24
            && minute < 60 && second < 60 && milli < 1000 {
            Some(Moment { year, month, day, hour, minute, second, milli })
        } else {
            None
        }
    }

    /// Writes the moment.
    pub fn to_text(&self) -> (text: String)
        ensures
            text@ == self.stamp_text(),
    {
        proof {
            use_type_invariant(self);
        }
        format_moment(
            self.year,
            self.month,
            self.day,
            self.hour,
            self.minute,
            self.second,
            self.milli,
            TIMESTAMP_FORMAT,
        )
    }
}

/// Months have 31 days, but for April, June, September and November, which have 30, and February. It
/// has 28, and 29 in a year that four divides, unless a hundred divides it and four hundred does not.
pub proof fn law_calendar(year: int, month: nat)
    ensures
        1 <= month <= 12 && month != 2 && month != 4 && month != 6 && month != 9 && month != 11
            ==> days_in_month(year, month) == 31,
        month == 4 || month == 6 || month == 9 || month == 11 ==> days_in_month(year, month) == 30,
        month == 2 ==> days_in_month(year, month) == if year % 4 == 0 && (year % 100 != 0 || year
            % 400 == 0) {
            29nat
        } else {
            28nat
        },
{
}

/// A moment is on the calendar exactly when its year, month and day are, and its time is one of a day
/// of 24 hours.
pub proof fn law_what_is_on_the_calendar(
    year: int,
    month: nat,
    day: nat,
    hour: nat,
    minute: nat,
    second: nat,
    milli: nat,
)
    ensures
        is_calendar_moment(year, month, day, hour, minute, second, milli) <==> {
            &&& -262143 <= year <= 262142
            &&& 1 <= month <= 12
            &&& 1 <= day <= days_in_month(year, month)
            &&& hour <= 23
            &&& minute <= 59
            &&& second <= 59
            &&& milli <= 999
        },
{
}

/// The text of a year reads back as the year: four digits up to 9999, and beyond them or before zero
/// a sign and at least four digits.
pub proof fn law_year_reads_back(year: int)
    ensures
        0 <= year <= 9999 ==> year_text(year).len() == 4 && is_number(year_text(year)) && number_of(
            year_text(year),
        ) == year,
        year > 9999 ==> year_text(year)[0] == '+' && is_number(year_text(year).skip(1))
            && number_of(year_text(year).skip(1)) == year,
        year < 0 ==> year_text(year)[0] == '-' && year_text(year).len() >= 5 && is_number(
            year_text(year).skip(1),
        ) && number_of(year_text(year).skip(1)) == -year,
{
    reveal_strlit("+");
    reveal_strlit("-");
    lemma_powers_of_ten();
    if 0 <= year <= 9999 {
        law_padded_reads_back(year as nat, 4);
    } else if year > 9999 {
        law_decimal_reads_back(year as nat);
        assert(year_text(year).skip(1) =~= decimal(year as nat));
    } else if -year <= 9999 {
        law_padded_reads_back((-year) as nat, 4);
        assert(year_text(year).skip(1) =~= padded((-year) as nat, 4));
    } else {
        let text = decimal((-year) as nat);
        law_decimal_reads_back((-year) as nat);
        assert(year_text(year).skip(1) =~= text);
        lemma_long_numbers_have_many_digits((-year) as nat);
    }
}

proof fn lemma_powers_of_ten()
    ensures
        vstd::arithmetic::power::pow(10, 2) == 100,
        vstd::arithmetic::power::pow(10, 3) == 1000,
        vstd::arithmetic::power::pow(10, 4) == 10000,
{
    reveal_with_fuel(vstd::arithmetic::power::pow, 6);
}

proof fn lemma_long_numbers_have_many_digits(value: nat)
    requires
        value > 9999,
    ensures
        decimal(value).len() >= 4,
{
    reveal_with_fuel(decimal, 5);
}

/// A timestamp reads back as its moment: behind the year stand month, day, hour, minute, second and
/// millisecond, each in its place, and a separator between neighbours.
pub proof fn law_timestamp_reads_back(
    year: int,
    month: nat,
    day: nat,
    hour: nat,
    minute: nat,
    second: nat,
    milli: nat,
)
    requires
        is_calendar_moment(year, month, day, hour, minute, second, milli),
    ensures
        ({
            let text = timestamp(year, month, day, hour, minute, second, milli);
            let y = year_text(year).len() as int;
            &&& text.len() == y + 19
            &&& text.take(y) == year_text(year)
            &&& text[y] == '-' && number_of(text.subrange(y + 1, y + 3)) == month
            &&& text[y + 3] == '-' && number_of(text.subrange(y + 4, y + 6)) == day
            &&& text[y + 6] == ' ' && number_of(text.subrange(y + 7, y + 9)) == hour
            &&& text[y + 9] == ':' && number_of(text.subrange(y + 10, y + 12)) == minute
            &&& text[y + 12] == ':' && number_of(text.subrange(y + 13, y + 15)) == second
            &&& text[y + 15] == '.' && number_of(text.subrange(y + 16, y + 19)) == milli
        }),
{
    reveal_strlit("-");
    reveal_strlit(" ");
    reveal_strlit(":");
    reveal_strlit(".");
    lemma_powers_of_ten();
    law_padded_reads_back(month, 2);
    law_padded_reads_back(day, 2);
    law_padded_reads_back(hour, 2);
    law_padded_reads_back(minute, 2);
    law_padded_reads_back(second, 2);
    law_padded_reads_back(milli, 3);
    let text = timestamp(year, month, day, hour, minute, second, milli);
    let y = year_text(year).len() as int;
    assert(text.take(y) =~= year_text(year));
    assert(text.subrange(y + 1, y + 3) =~= padded(month, 2));
    assert(text.subrange(y + 4, y + 6) =~= padded(day, 2));
    assert(text.subrange(y + 7, y + 9) =~= padded(hour, 2));
    assert(text.subrange(y + 10, y + 12) =~= padded(minute, 2));
    assert(text.subrange(y + 13, y + 15) =~= padded(second, 2));
    assert(text.subrange(y + 16, y + 19) =~= padded(milli, 3));
}

} // verus!
