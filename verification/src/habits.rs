//! Habits: check-in dates, day numbers and streaks.
use vstd::prelude::*;
use vstd::set_lib::{lemma_int_range, lemma_len_subset, set_int_range};
use crate::text::{
    chars_of, owned, split_char, split_exec, string_views, utf8_len, utf8_len_exceeds, views,
};
use crate::theme::{opt_string_view, opt_view};

verus! {

/// The value of a decimal digit.
pub open spec fn digit_of(c: char) -> int {
    if c == '0' {
        0
    } else if c == '1' {
        1
    } else if c == '2' {
        2
    } else if c == '3' {
        3
    } else if c == '4' {
        4
    } else if c == '5' {
        5
    } else if c == '6' {
        6
    } else if c == '7' {
        7
    } else if c == '8' {
        8
    } else {
        9
    }
}

fn digit_of_exec(c: char) -> (r: i64)
    ensures
        r == digit_of(c),
{
    if c == '0' {
        0
    } else if c == '1' {
        1
    } else if c == '2' {
        2
    } else if c == '3' {
        3
    } else if c == '4' {
        4
    } else if c == '5' {
        5
    } else if c == '6' {
        6
    } else if c == '7' {
        7
    } else if c == '8' {
        8
    } else {
        9
    }
}

/// Every character is a decimal digit.
pub open spec fn all_digits(s: Seq<char>) -> bool {
    forall|i: int| 0 <= i < s.len() ==> '0' <= #[trigger] s[i] && s[i] <= '9'
}

/// The value of a run of decimal digits.
pub open spec fn digits_value(s: Seq<char>) -> int
    decreases s.len(),
{
    if s.len() == 0 {
        0
    } else {
        digits_value(s.drop_last()) * 10 + digit_of(s.last())
    }
}

/// A decimal integer as `str::parse::<i64>` reads a short text: an optional
/// `+` or `-` and at least one digit.
pub open spec fn parse_int(s: Seq<char>) -> Option<int> {
    if s.len() > 0 && (s[0] == '+' || s[0] == '-') {
        let d = s.skip(1);
        if d.len() > 0 && all_digits(d) {
            Some(
                if s[0] == '-' {
                    -digits_value(d)
                } else {
                    digits_value(d)
                },
            )
        } else {
            None
        }
    } else if s.len() > 0 && all_digits(s) {
        Some(digits_value(s))
    } else {
        None
    }
}

/// Ten to the power `n`.
pub open spec fn pow10(n: nat) -> int
    decreases n,
{
    if n == 0 {
        1
    } else {
        10 * pow10((n - 1) as nat)
    }
}

proof fn lemma_digits_bound(s: Seq<char>)
    requires
        all_digits(s),
    ensures
        0 <= digits_value(s) < pow10(s.len()),
        s.len() <= 4 ==> digits_value(s) < 10000,
        s.len() <= 2 ==> digits_value(s) < 100,
    decreases s.len(),
{
    if s.len() > 0 {
        assert(all_digits(s.drop_last()));
        lemma_digits_bound(s.drop_last());
        assert(0 <= digit_of(s.last()) <= 9);
    }
    reveal_with_fuel(pow10, 5);
}

fn digits_value_exec(s: &[char], from: usize) -> (r: i64)
    requires
        from <= s@.len() <= from + 4,
        all_digits(s@.skip(from as int)),
    ensures
        r == digits_value(s@.skip(from as int)),
{
    let n = s.len();
    let mut v: i64 = 0;
    let mut i = from;
    assert(s@.skip(from as int).take(0) =~= Seq::<char>::empty());
    while i < n
        invariant
            n == s@.len(),
            from <= i <= n,
            n <= from + 4,
            all_digits(s@.skip(from as int)),
            v == digits_value(s@.skip(from as int).take(i - from)),
            0 <= v < 10000,
        decreases n - i,
    {
        let ghost d = s@.skip(from as int);
        let ghost t = d.take(i - from + 1);
        assert(t.drop_last() =~= d.take(i - from));
        assert(t.last() == s@[i as int]);
        assert(all_digits(t));
        proof {
            lemma_digits_bound(t);
        }
        v = v * 10 + digit_of_exec(s[i]);
        i = i + 1;
    }
    assert(s@.skip(from as int).take(n - from) =~= s@.skip(from as int));
    v
}

/// Reads a short decimal integer, as `str::parse::<i64>` does.
pub fn parse_int_exec(s: &[char]) -> (r: Option<i64>)
    requires
        s@.len() <= 4,
    ensures
        match parse_int(s@) {
            Some(v) => r == Some(v as i64) && v == r->0,
            None => r is None,
        },
{
    let n = s.len();
    let from: usize = if n > 0 && (s[0] == '+' || s[0] == '-') {
        1
    } else {
        0
    };
    if from == n {
        return None;
    }
    let mut i = from;
    while i < n
        invariant
            n == s@.len(),
            from <= i <= n,
            from <= 1,
            from == 1 <==> (n > 0 && (s@[0] == '+' || s@[0] == '-')),
            forall|j: int| from <= j < i ==> '0' <= #[trigger] s@[j] && s@[j] <= '9',
        decreases n - i,
    {
        if !('0' <= s[i] && s[i] <= '9') {
            proof {
                assert(!all_digits(s@.skip(from as int))) by {
                    assert(s@.skip(from as int)[i - from] == s@[i as int]);
                }
                if from == 0 {
                    assert(s@.skip(0) =~= s@);
                }
            }
            return None;
        }
        i = i + 1;
    }
    assert(all_digits(s@.skip(from as int))) by {
        assert forall|j: int| 0 <= j < s@.skip(from as int).len() implies '0' <= #[trigger] s@.skip(
            from as int,
        )[j] && s@.skip(from as int)[j] <= '9' by {
            assert(s@.skip(from as int)[j] == s@[from + j]);
        }
    }
    proof {
        lemma_digits_bound(s@.skip(from as int));
        if from == 0 {
            assert(s@.skip(0) =~= s@);
        }
    }
    let v = digits_value_exec(s, from);
    if from == 1 && s[0] == '-' {
        Some(-v)
    } else {
        Some(v)
    }
}

/// Whether a year is a leap year of the Gregorian calendar.
pub open spec fn is_leap_year(year: int) -> bool {
    (year % 4 == 0 && year % 100 != 0) || year % 400 == 0
}

/// The number of days of a month, or 0 for a month that does not exist.
pub open spec fn days_in_month(year: int, month: int) -> int {
    if month == 1 || month == 3 || month == 5 || month == 7 || month == 8 || month == 10 || month
        == 12 {
        31
    } else if month == 4 || month == 6 || month == 9 || month == 11 {
        30
    } else if month == 2 {
        if is_leap_year(year) {
            29
        } else {
            28
        }
    } else {
        0
    }
}

/// The day number of a date: days since 1970-01-01, counting in the
/// Gregorian calendar with years that start in March.
pub open spec fn days_from_civil(year: int, month: int, day: int) -> int {
    let y = if month <= 2 {
        year - 1
    } else {
        year
    };
    let era = y / 400;
    let yoe = y - era * 400;
    let mp = if month > 2 {
        month - 3
    } else {
        month + 9
    };
    let doy = (153 * mp + 2) / 5 + day - 1;
    let doe = yoe * 365 + yoe / 4 - yoe / 100 + doy;
    era * 146097 + doe - 719468
}

/// The day number of a `YYYY-MM-DD` check-in date, or why it is refused.
#[verifier::opaque]
pub open spec fn day_number_result(date: Seq<char>) -> Result<int, Seq<char>> {
    let parts = split_char(date, '-');
    if parts.len() != 3 || utf8_len(parts[0]) != 4 || utf8_len(parts[1]) != 2 || utf8_len(
        parts[2],
    ) != 2 {
        Err("Habit check-in dates must use YYYY-MM-DD."@)
    } else {
        match parse_int(parts[0]) {
            None => Err("Habit check-in year must be numeric."@),
            Some(year) => match parse_int(parts[1]) {
                None => Err("Habit check-in month must be numeric."@),
                Some(month) => match parse_int(parts[2]) {
                    None => Err("Habit check-in day must be numeric."@),
                    Some(day) => if !(1 <= month <= 12) || !(1 <= day <= days_in_month(
                        year,
                        month,
                    )) {
                        Err("Habit check-in date is not a valid calendar date."@)
                    } else {
                        Ok(days_from_civil(year, month, day))
                    },
                },
            },
        }
    }
}

fn is_leap_year_exec(year: i64) -> (r: bool)
    requires
        -10000 < year < 10000,
    ensures
        r == is_leap_year(year as int),
{
    let a = if year >= 0 {
        year
    } else {
        -year
    };
    let ua = a as u64;
    assert(year % 4 == 0 <==> (ua % 4 == 0)) by (nonlinear_arith)
        requires
            ua == if year >= 0 {
                year as int
            } else {
                -year
            },
            -10000 < year < 10000,
    ;
    assert(year % 100 == 0 <==> (ua % 100 == 0)) by (nonlinear_arith)
        requires
            ua == if year >= 0 {
                year as int
            } else {
                -year
            },
            -10000 < year < 10000,
    ;
    assert(year % 400 == 0 <==> (ua % 400 == 0)) by (nonlinear_arith)
        requires
            ua == if year >= 0 {
                year as int
            } else {
                -year
            },
            -10000 < year < 10000,
    ;
    (ua % 4 == 0 && ua % 100 != 0) || ua % 400 == 0
}

fn days_in_month_exec(year: i64, month: i64) -> (r: i64)
    requires
        -10000 < year < 10000,
    ensures
        r == days_in_month(year as int, month as int),
{
    if month == 1 || month == 3 || month == 5 || month == 7 || month == 8 || month == 10 || month
        == 12 {
        31
    } else if month == 4 || month == 6 || month == 9 || month == 11 {
        30
    } else if month == 2 {
        if is_leap_year_exec(year) {
            29
        } else {
            28
        }
    } else {
        0
    }
}

fn days_from_civil_exec(year: i64, month: i64, day: i64) -> (r: i64)
    requires
        -10000 < year < 10000,
        1 <= month <= 12,
        1 <= day <= 31,
    ensures
        r == days_from_civil(year as int, month as int, day as int),
        -5000000 < r < 5000000,
{
    let y: i64 = if month <= 2 {
        year - 1
    } else {
        year
    };
    let era: i64 = if y >= 0 {
        ((y as u64) / 400) as i64
    } else {
        -((((399 - y) as u64) / 400) as i64)
    };
    assert(era == y / 400) by (nonlinear_arith)
        requires
            era == if y >= 0 {
                (y as int) / 400
            } else {
                -((399 - y) / 400)
            },
            -10001 <= y < 10000,
    ;
    let yoe: i64 = y - era * 400;
    assert(0 <= yoe < 400) by (nonlinear_arith)
        requires
            era == y / 400,
            yoe == y - era * 400,
    ;
    let mp: i64 = if month > 2 {
        month - 3
    } else {
        month + 9
    };
    let doy: i64 = (((153 * mp + 2) as u64) / 5) as i64 + day - 1;
    let uy = yoe as u64;
    let doe: i64 = yoe * 365 + ((uy / 4) as i64) - ((uy / 100) as i64) + doy;
    assert(-27 <= era <= 25) by (nonlinear_arith)
        requires
            era == y / 400,
            -10001 <= y < 10000,
    ;
    assert(0 <= doe < 147000);
    assert(-5000000 < era * 146097 + doe - 719468 < 5000000) by (nonlinear_arith)
        requires
            -27 <= era <= 25,
            0 <= doe < 147000,
    ;
    era * 146097 + doe - 719468
}

/// The day number of a check-in date, or why it is refused.
pub fn day_number(date: &str) -> (r: Result<i64, String>)
    ensures
        match day_number_result(date@) {
            Ok(n) => r matches Ok(x) && x == n,
            Err(e) => r matches Err(x) && x@ == e,
        },
        r matches Ok(x) ==> -5000000 < x < 5000000,
{
    reveal(day_number_result);
    let d = chars_of(date);
    let parts = split_exec(d.as_slice(), '-');
    let ghost ps = views(parts@);
    assert(ps == split_char(date@, '-'));
    if parts.len() != 3 || utf8_len_exceeds(parts[0].as_slice(), 4) || !utf8_len_exceeds(
        parts[0].as_slice(),
        3,
    ) || utf8_len_exceeds(parts[1].as_slice(), 2) || !utf8_len_exceeds(parts[1].as_slice(), 1)
        || utf8_len_exceeds(parts[2].as_slice(), 2) || !utf8_len_exceeds(parts[2].as_slice(), 1) {
        return Err(owned("Habit check-in dates must use YYYY-MM-DD."));
    }
    assert(ps[0] == parts@[0]@ && ps[1] == parts@[1]@ && ps[2] == parts@[2]@);
    proof {
        assert(parts@[0]@.len() <= 4) by {
            lemma_utf8_at_least_len(parts@[0]@);
        }
        assert(parts@[1]@.len() <= 2) by {
            lemma_utf8_at_least_len(parts@[1]@);
        }
        assert(parts@[2]@.len() <= 2) by {
            lemma_utf8_at_least_len(parts@[2]@);
        }
    }
    let year = match parse_int_exec(parts[0].as_slice()) {
        None => {
            return Err(owned("Habit check-in year must be numeric."));
        },
        Some(v) => v,
    };
    let month = match parse_int_exec(parts[1].as_slice()) {
        None => {
            return Err(owned("Habit check-in month must be numeric."));
        },
        Some(v) => v,
    };
    let day = match parse_int_exec(parts[2].as_slice()) {
        None => {
            return Err(owned("Habit check-in day must be numeric."));
        },
        Some(v) => v,
    };
    proof {
        lemma_parse_int_bound(parts@[0]@);
        lemma_parse_int_bound(parts@[1]@);
        lemma_parse_int_bound(parts@[2]@);
    }
    if !(1 <= month && month <= 12) || !(1 <= day && day <= days_in_month_exec(year, month)) {
        return Err(owned("Habit check-in date is not a valid calendar date."));
    }
    Ok(days_from_civil_exec(year, month, day))
}

proof fn lemma_utf8_at_least_len(s: Seq<char>)
    ensures
        s.len() <= utf8_len(s),
    decreases s.len(),
{
    if s.len() > 0 {
        lemma_utf8_at_least_len(s.drop_last());
    }
}

proof fn lemma_parse_int_bound(s: Seq<char>)
    requires
        s.len() <= 4,
    ensures
        parse_int(s) matches Some(v) ==> -10000 < v < 10000,
{
    if s.len() > 0 && (s[0] == '+' || s[0] == '-') {
        if s.skip(1).len() > 0 && all_digits(s.skip(1)) {
            lemma_digits_bound(s.skip(1));
        }
    } else if s.len() > 0 && all_digits(s) {
        lemma_digits_bound(s);
    }
}

/// Checks a `YYYY-MM-DD` check-in date.
pub fn validate_local_date(date: &str) -> (r: Result<(), String>)
    ensures
        match day_number_result(date@) {
            Ok(_) => r is Ok,
            Err(e) => r matches Err(x) && x@ == e,
        },
{
    match day_number(date) {
        Ok(_) => Ok(()),
        Err(e) => Err(e),
    }
}

/// The day numbers of the valid check-ins.
pub open spec fn checkin_days(cs: Seq<Seq<char>>) -> Set<int> {
    Set::new(
        |d: int|
            exists|i: int|
                0 <= i < cs.len() && #[trigger] day_number_result(cs[i]) == Ok::<int, Seq<char>>(d),
    )
}

/// `d` is the latest of the days.
pub open spec fn is_latest(days: Set<int>, d: int) -> bool {
    days.contains(d) && forall|e: int| #[trigger] days.contains(e) ==> e <= d
}

/// The day a streak is counted back from: the summary date where it is a
/// valid date, else the latest check-in.
pub open spec fn streak_start(days: Set<int>, summary: Option<Seq<char>>) -> int {
    match summary {
        Some(s) => match day_number_result(s) {
            Ok(d) => d,
            Err(_) => choose|d: int| is_latest(days, d),
        },
        None => choose|d: int| is_latest(days, d),
    }
}

/// The `k` days up to `start` are check-in days, and the day before them
/// is not.
pub open spec fn streak_of(days: Set<int>, start: int, k: nat) -> bool {
    (forall|j: int| 0 <= j < k ==> #[trigger] days.contains(start - j)) && !days.contains(start - k)
}

/// A run of `k + 1` days in a list of days fits in the list.
proof fn lemma_streak_bound(days: Seq<int>, start: int, k: int)
    requires
        0 <= k,
        forall|j: int| 0 <= j <= k ==> #[trigger] days.contains(start - j),
    ensures
        k < days.len(),
{
    let r = set_int_range(start - k, start + 1);
    lemma_int_range(start - k, start + 1);
    assert forall|x: int| r.contains(x) implies days.to_set().contains(x) by {
        assert(days.contains(start - (start - x)));
    }
    days.lemma_cardinality_of_set();
    lemma_len_subset(r, days.to_set());
}

fn contains_day(days: &Vec<i64>, d: i64) -> (r: bool)
    ensures
        r == days@.contains(d),
{
    let n = days.len();
    let mut i: usize = 0;
    while i < n
        invariant
            n == days@.len(),
            i <= n,
            forall|j: int| 0 <= j < i ==> days@[j] != d,
        decreases n - i,
    {
        if days[i] == d {
            return true;
        }
        i = i + 1;
    }
    false
}

/// Day numbers as integers.
pub open spec fn day_ints(v: Seq<i64>) -> Seq<int> {
    v.map_values(|y: i64| y as int)
}

/// A list of days holds a day exactly when its values as integers do.
proof fn lemma_ints_contains(days: Seq<i64>, x: i64)
    ensures
        days.contains(x) <==> day_ints(days).contains(x as int),
{
    let ints = day_ints(days);
    if days.contains(x) {
        let t = choose|t: int| 0 <= t < days.len() && days[t] == x;
        assert(ints[t] == x as int);
    }
    if ints.contains(x as int) {
        let t = choose|t: int| 0 <= t < ints.len() && ints[t] == x as int;
        assert(days[t] == x);
    }
}

/// The day numbers of the valid check-ins, in order.
fn checkin_day_numbers(checkins: &Vec<String>) -> (days: Vec<i64>)
    ensures
        forall|d: int| #[trigger] day_ints(days@).contains(d) ==> checkin_days(
            string_views(checkins@),
        ).contains(d) && -5000000 < d < 5000000,
        forall|j: int|
            0 <= j < checkins@.len() ==> (#[trigger] day_number_result(string_views(checkins@)[j]) matches Ok(d)
                ==> day_ints(days@).contains(d)),
{
    let ghost cs = string_views(checkins@);
    let ghost all = checkin_days(cs);
    let mut days: Vec<i64> = Vec::new();
    let ghost mut ints: Seq<int> = Seq::empty();
    assert(ints =~= day_ints(days@));
    let n = checkins.len();
    let mut i: usize = 0;
    while i < n
        invariant
            n == checkins@.len(),
            cs == string_views(checkins@),
            all == checkin_days(cs),
            i <= n,
            ints == day_ints(days@),
            forall|d: int| #[trigger] ints.contains(d) ==> all.contains(d) && -5000000 < d < 5000000,
            forall|j: int|
                0 <= j < i ==> (#[trigger] day_number_result(cs[j]) matches Ok(d) ==> ints.contains(d)),
        decreases n - i,
    {
        assert(cs[i as int] == checkins@[i as int]@);
        match day_number(checkins[i].as_str()) {
            Ok(d) => {
                let ghost before = ints;
                days.push(d);
                proof {
                    assert(day_number_result(cs[i as int]) == Ok::<int, Seq<char>>(d as int));
                    ints = before.push(d as int);
                    assert(ints =~= day_ints(days@));
                    lemma_days_step(before, ints, cs, i as int, d as int);
                }
            },
            Err(_) => {},
        }
        i = i + 1;
    }
    days
}

#[verifier::rlimit(30)]
proof fn lemma_days_step(
    before: Seq<int>,
    ints: Seq<int>,
    cs: Seq<Seq<char>>,
    i: int,
    d: int,
)
    requires
        0 <= i < cs.len(),
        ints == before.push(d),
        day_number_result(cs[i]) == Ok::<int, Seq<char>>(d),
        -5000000 < d < 5000000,
        forall|x: int| #[trigger] before.contains(x) ==> checkin_days(cs).contains(x) && -5000000 < x < 5000000,
        forall|j: int| 0 <= j < i ==> (#[trigger] day_number_result(cs[j]) matches Ok(e) ==> before.contains(e)),
    ensures
        forall|x: int| #[trigger] ints.contains(x) ==> checkin_days(cs).contains(x) && -5000000 < x < 5000000,
        forall|j: int| 0 <= j < i + 1 ==> (#[trigger] day_number_result(cs[j]) matches Ok(e) ==> ints.contains(e)),
{
    assert(checkin_days(cs).contains(d));
    assert forall|x: int| #[trigger] ints.contains(x) implies checkin_days(cs).contains(x) && -5000000 < x < 5000000 by {
        let k = choose|k: int| 0 <= k < ints.len() && ints[k] == x;
        if k < before.len() {
            assert(before[k] == x);
            assert(before.contains(x));
        } else {
            assert(ints[k] == d);
        }
    }
    assert forall|j: int| 0 <= j < i + 1 implies (#[trigger] day_number_result(cs[j]) matches Ok(e) ==> ints.contains(e)) by {
        if let Ok(e) = day_number_result(cs[j]) {
            if j < i {
                let k = choose|k: int| 0 <= k < before.len() && before[k] == e;
                assert(ints[k] == e);
            } else {
                assert(ints[ints.len() - 1] == e);
            }
        }
    }
}

/// The current streak of a habit: how many days in a row, counted back from
/// the summary date (or the latest check-in), have a check-in.
pub fn current_streak(checkins: &Vec<String>, summary_date: Option<&str>) -> (r: usize)
    ensures
        checkin_days(string_views(checkins@)).len() == 0 ==> r == 0,
        checkin_days(string_views(checkins@)).len() != 0 ==> streak_of(
            checkin_days(string_views(checkins@)),
            streak_start(checkin_days(string_views(checkins@)), opt_view(summary_date)),
            r as nat,
        ),
{
    let ghost cs = string_views(checkins@);
    let ghost all = checkin_days(cs);
    let days = checkin_day_numbers(checkins);
    let ghost ints = day_ints(days@);
    proof {
        assert forall|d: int| all.contains(d) implies ints.contains(d) by {
            let j = choose|j: int| 0 <= j < cs.len() && #[trigger] day_number_result(cs[j]) == Ok::<int, Seq<char>>(d);
            assert(day_number_result(cs[j]) matches Ok(e) ==> ints.contains(e));
        }
        assert(all.subset_of(ints.to_set()));
        lemma_len_subset(all, ints.to_set());
    }
    if days.len() == 0 {
        proof {
            assert(all =~= Set::<int>::empty());
        }
        return 0;
    }
    let mut latest = days[0];
    let m = days.len();
    let mut k: usize = 1;
    while k < m
        invariant
            m == days@.len(),
            1 <= k <= m,
            days@.contains(latest),
            forall|j: int| 0 <= j < k ==> days@[j] <= latest,
        decreases m - k,
    {
        if days[k] > latest {
            latest = days[k];
        }
        k = k + 1;
    }
    proof {
        lemma_ints_contains(days@, latest);
        assert forall|e: int| #[trigger] all.contains(e) implies e <= latest by {
            let t = choose|t: int| 0 <= t < ints.len() && ints[t] == e;
            assert(days@[t] <= latest);
        }
        assert(is_latest(all, latest as int));
        let c = choose|d: int| is_latest(all, d);
        assert(c == latest as int);
        assert(all.remove(latest as int).len() + 1 == all.len());
    }
    let start: i64 = match summary_date {
        Some(s) => match day_number(s) {
            Ok(d) => d,
            Err(_) => latest,
        },
        None => latest,
    };
    proof {
        lemma_ints_contains(days@, latest);
    }
    let mut streak: usize = 0;
    let mut day: i64 = start;
    while contains_day(&days, day)
        invariant
            day == start - streak,
            -5000000 < start < 5000000,
            forall|j: int| 0 <= j < streak ==> #[trigger] all.contains(start - j),
            forall|d: int| #[trigger] ints.contains(d) ==> all.contains(d) && -5000000 < d < 5000000,
            forall|d: int| all.contains(d) ==> ints.contains(d),
            ints == day_ints(days@),
            streak <= days@.len(),
        decreases days@.len() - streak,
    {
        proof {
            lemma_ints_contains(days@, day);
            assert forall|j: int| 0 <= j <= streak implies #[trigger] ints.contains(start - j) by {
                if j < streak {
                    assert(all.contains(start - j));
                }
            }
            lemma_streak_bound(ints, start as int, streak as int);
        }
        streak = streak + 1;
        day = day - 1;
    }
    proof {
        lemma_ints_contains(days@, day);
        assert(!all.contains(start - streak));
    }
    streak
}

// ---------------------------------------------------------------------------
// Reading habit records
// ---------------------------------------------------------------------------

/// The texts, without repeats and in order.
pub open spec fn sorted_texts(s: Seq<Seq<char>>) -> bool {
    forall|i: int, j: int| 0 <= i < j < s.len() ==> crate::ordered::text_lt(#[trigger] s[i], #[trigger] s[j])
}

/// The texts sorted, each once (`sort` then `dedup`).
pub fn sorted_unique(v: &Vec<String>) -> (r: Vec<String>)
    ensures
        sorted_texts(string_views(r@)),
        string_views(r@).to_set() == string_views(v@).to_set(),
{
    let mut m: crate::ordered::OrderedMap<bool> = crate::ordered::OrderedMap::new();
    let n = v.len();
    let mut i: usize = 0;
    while i < n
        invariant
            n == v@.len(),
            i <= n,
            m.wf(),
            m@.dom() == string_views(v@).take(i as int).to_set(),
        decreases n - i,
    {
        m.insert(v[i].clone(), true);
        assert(string_views(v@).take(i + 1) =~= string_views(v@).take(i as int).push(v@[i as int]@));
        proof {
            string_views(v@).take(i as int).lemma_push_to_set_commute(v@[i as int]@);
        }
        assert(m@.dom() =~= string_views(v@).take(i + 1).to_set());
        i = i + 1;
    }
    assert(string_views(v@).take(n as int) =~= string_views(v@));
    proof {
        m.lemma_dom_len();
    }
    let mut r: Vec<String> = Vec::new();
    let k = m.entries.len();
    let mut j: usize = 0;
    while j < k
        invariant
            k == m.entries@.len(),
            j <= k,
            m.wf(),
            string_views(r@) == m.keys().take(j as int),
        decreases k - j,
    {
        let ghost before = string_views(r@);
        r.push(m.entries[j].0.clone());
        assert(string_views(r@) =~= before.push(m.entries@[j as int].0@));
        assert(m.keys().take(j + 1) =~= m.keys().take(j as int).push(m.keys()[j as int]));
        j = j + 1;
    }
    assert(m.keys().take(k as int) =~= m.keys());
    assert forall|a: int, b: int| 0 <= a < b < string_views(r@).len() implies crate::ordered::text_lt(
        #[trigger] string_views(r@)[a],
        #[trigger] string_views(r@)[b],
    ) by {
        assert(string_views(r@)[a] == m.entries@[a].0@);
        assert(string_views(r@)[b] == m.entries@[b].0@);
    }
    r
}

/// What reading the lines of a habit has found so far.
pub struct HabitScan {
    pub frequency: Option<Seq<char>>,
    pub target: Option<Seq<char>>,
    pub tags: Seq<Seq<char>>,
    pub relationships: Seq<Seq<char>>,
    pub notes: Option<Seq<char>>,
    pub checkins: Seq<Seq<char>>,
    pub warnings: Seq<Seq<char>>,
    pub in_checkins: bool,
}

/// Nothing found yet.
pub open spec fn empty_scan() -> HabitScan {
    HabitScan {
        frequency: None,
        target: None,
        tags: seq![],
        relationships: seq![],
        notes: None,
        checkins: seq![],
        warnings: seq![],
        in_checkins: false,
    }
}

/// The heading that starts the check-ins: `### Check-ins`, or for a habit
/// entity also `## Check-ins`, case aside.
pub open spec fn checkins_heading(t: Seq<char>, entity: bool) -> bool {
    crate::text::ascii_lowercase(t) == "### check-ins"@ || (entity && crate::text::ascii_lowercase(
        t,
    ) == "## check-ins"@)
}

/// The date of a check-in item line.
pub open spec fn checkin_item(t: Seq<char>) -> Option<Seq<char>> {
    if crate::text::has_prefix(t, "- "@) || crate::text::has_prefix(t, "* "@) {
        Some(crate::text::trim(t.skip(2)))
    } else {
        None
    }
}

/// The warning for a check-in date that is not a valid date.
pub open spec fn invalid_date_warning(source: Seq<char>, date: Seq<char>) -> Seq<char> {
    source + ": invalid habit check-in date '"@ + date + "' remains visible in Markdown."@
}

/// The warning for a field a habit does not have.
pub open spec fn unknown_field_warning(source: Seq<char>, key: Seq<char>) -> Seq<char> {
    source + ": unknown habit field '"@ + key + "' remains visible in Markdown."@
}

/// What one more line adds.
pub open spec fn scan_step(st: HabitScan, line: Seq<char>, source: Seq<char>, entity: bool) -> HabitScan {
    let t = crate::text::trim(line);
    if checkins_heading(t, entity) {
        HabitScan { in_checkins: true, ..st }
    } else if st.in_checkins {
        match checkin_item(t) {
            Some(d) => if day_number_result(d) is Ok {
                HabitScan { checkins: st.checkins.push(d), ..st }
            } else {
                HabitScan { warnings: st.warnings.push(invalid_date_warning(source, d)), ..st }
            },
            None => st,
        }
    } else {
        match crate::record_text::field_line(line) {
            None => st,
            Some((k, v)) => if k == "frequency"@ {
                HabitScan { frequency: crate::record_text::clean_optional_string(v), ..st }
            } else if k == "target"@ {
                HabitScan { target: crate::record_text::clean_optional_string(v), ..st }
            } else if k == "tags"@ {
                HabitScan { tags: crate::record_text::clean_list(v), ..st }
            } else if k == "relationships"@ || k == "related"@ {
                HabitScan { relationships: crate::record_text::clean_list(v), ..st }
            } else if k == "notes"@ {
                HabitScan { notes: crate::record_text::clean_optional_markdown(v), ..st }
            } else if k == "streak"@ {
                st
            } else {
                HabitScan { warnings: st.warnings.push(unknown_field_warning(source, k)), ..st }
            },
        }
    }
}

/// What the lines add up to.
pub open spec fn scan_lines(ls: Seq<Seq<char>>, source: Seq<char>, entity: bool) -> HabitScan
    decreases ls.len(),
{
    if ls.len() == 0 {
        empty_scan()
    } else {
        scan_step(scan_lines(ls.drop_last(), source, entity), ls.last(), source, entity)
    }
}

/// The fields of a habit read from its lines.
pub struct HabitFields {
    pub name: String,
    pub frequency: Option<String>,
    pub target: Option<String>,
    pub tags: Vec<String>,
    pub relationships: Vec<String>,
    pub notes: Option<String>,
    pub checkins: Vec<String>,
    pub warnings: Vec<String>,
}

struct ScanState {
    frequency: Option<String>,
    target: Option<String>,
    tags: Vec<String>,
    relationships: Vec<String>,
    notes: Option<String>,
    checkins: Vec<String>,
    warnings: Vec<String>,
    in_checkins: bool,
}

spec fn scan_state_view(s: ScanState) -> HabitScan {
    HabitScan {
        frequency: opt_string_view(s.frequency),
        target: opt_string_view(s.target),
        tags: string_views(s.tags@),
        relationships: string_views(s.relationships@),
        notes: opt_string_view(s.notes),
        checkins: string_views(s.checkins@),
        warnings: string_views(s.warnings@),
        in_checkins: s.in_checkins,
    }
}

fn warning_text(source: &str, a: &str, x: &[char], b: &str) -> (r: String)
    ensures
        r@ == source@ + a@ + x@ + b@,
{
    let mut m = chars_of(source);
    crate::text::append_str(&mut m, a);
    crate::text::append(&mut m, x);
    crate::text::append_str(&mut m, b);
    crate::text::string_of(m.as_slice())
}

#[verifier::rlimit(40)]
fn scan_step_exec(st: &mut ScanState, line: &[char], source: &str, entity: bool)
    ensures
        scan_state_view(*final(st)) == scan_step(scan_state_view(*old(st)), line@, source@, entity),
{
    let t = crate::text::trim_exec(line);
    let tl = crate::text::ascii_lowercase_exec(t.as_slice());
    if crate::text::eq_str(tl.as_slice(), "### check-ins") || (entity && crate::text::eq_str(
        tl.as_slice(),
        "## check-ins",
    )) {
        st.in_checkins = true;
        return;
    }
    if st.in_checkins {
        if crate::text::starts_with_str(t.as_slice(), "- ") || crate::text::starts_with_str(
            t.as_slice(),
            "* ",
        ) {
            proof {
                reveal_strlit("- ");
                reveal_strlit("* ");
            }
            let rest = crate::text::slice_vec(t.as_slice(), 2, t.len());
            assert(rest@ =~= t@.skip(2));
            let d = crate::text::trim_exec(rest.as_slice());
            let ds = crate::text::string_of(d.as_slice());
            let ghost before = scan_state_view(*st);
            match day_number(ds.as_str()) {
                Ok(_) => {
                    st.checkins.push(ds);
                    assert(string_views(st.checkins@) =~= before.checkins.push(d@));
                },
                Err(_) => {
                    let w = warning_text(source, ": invalid habit check-in date '", d.as_slice(), "' remains visible in Markdown.");
                    st.warnings.push(w);
                    assert(string_views(st.warnings@) =~= before.warnings.push(w@));
                },
            }
        }
        return;
    }
    match crate::record_text::parse_field_line(line) {
        None => {},
        Some((k, v)) => {
            let kc = chars_of(k.as_str());
            let vc = chars_of(v.as_str());
            let ghost before = scan_state_view(*st);
            if crate::text::eq_str(kc.as_slice(), "frequency") {
                st.frequency = crate::record_text::clean_optional_string_exec(v.as_str());
            } else if crate::text::eq_str(kc.as_slice(), "target") {
                st.target = crate::record_text::clean_optional_string_exec(v.as_str());
            } else if crate::text::eq_str(kc.as_slice(), "tags") {
                st.tags = crate::record_text::clean_list_exec(v.as_str());
            } else if crate::text::eq_str(kc.as_slice(), "relationships") || crate::text::eq_str(
                kc.as_slice(),
                "related",
            ) {
                st.relationships = crate::record_text::clean_list_exec(v.as_str());
            } else if crate::text::eq_str(kc.as_slice(), "notes") {
                st.notes = crate::record_text::clean_optional_markdown_exec(vc.as_slice());
            } else if crate::text::eq_str(kc.as_slice(), "streak") {
            } else {
                let w = warning_text(source, ": unknown habit field '", kc.as_slice(), "' remains visible in Markdown.");
                st.warnings.push(w);
                assert(string_views(st.warnings@) =~= before.warnings.push(w@));
            }
        },
    }
}

fn scan_lines_exec(ls: &Vec<Vec<char>>, from: usize, to: usize, source: &str, entity: bool) -> (r: ScanState)
    requires
        from <= to <= ls@.len(),
    ensures
        scan_state_view(r) == scan_lines(views(ls@).subrange(from as int, to as int), source@, entity),
{
    let mut st = ScanState {
        frequency: None,
        target: None,
        tags: Vec::new(),
        relationships: Vec::new(),
        notes: None,
        checkins: Vec::new(),
        warnings: Vec::new(),
        in_checkins: false,
    };
    assert(string_views(st.tags@) =~= Seq::<Seq<char>>::empty());
    assert(string_views(st.relationships@) =~= Seq::<Seq<char>>::empty());
    assert(string_views(st.checkins@) =~= Seq::<Seq<char>>::empty());
    assert(string_views(st.warnings@) =~= Seq::<Seq<char>>::empty());
    assert(scan_state_view(st) == empty_scan());
    let mut i = from;
    while i < to
        invariant
            from <= i <= to <= ls@.len(),
            scan_state_view(st) == scan_lines(views(ls@).subrange(from as int, i as int), source@, entity),
        decreases to - i,
    {
        let ghost t = views(ls@).subrange(from as int, i + 1);
        assert(t.drop_last() =~= views(ls@).subrange(from as int, i as int));
        assert(t.last() == ls@[i as int]@);
        scan_step_exec(&mut st, ls[i].as_slice(), source, entity);
        i = i + 1;
    }
    st
}

/// The notes of a habit: its `notes` field, or else the cleaned body of its
/// notes section.
pub open spec fn final_notes(st: HabitScan, body: Seq<Seq<char>>, heading: Seq<char>) -> Option<
    Seq<char>,
> {
    match st.notes {
        Some(n) => Some(n),
        None => match crate::record_text::section_body(body, heading) {
            Some(b) => crate::record_text::clean_optional_markdown(b),
            None => None,
        },
    }
}

/// The fields read are those the scan of the body found, with the notes
/// completed and the check-ins sorted, each once.
pub open spec fn fields_match(
    f: HabitFields,
    name: Seq<char>,
    body: Seq<Seq<char>>,
    source: Seq<char>,
    entity: bool,
    notes_heading: Seq<char>,
) -> bool {
    let st = scan_lines(body, source, entity);
    &&& f.name@ == name
    &&& opt_string_view(f.frequency) == st.frequency
    &&& opt_string_view(f.target) == st.target
    &&& string_views(f.tags@) == st.tags
    &&& string_views(f.relationships@) == st.relationships
    &&& opt_string_view(f.notes) == final_notes(st, body, notes_heading)
    &&& sorted_texts(string_views(f.checkins@))
    &&& string_views(f.checkins@).to_set() == st.checkins.to_set()
    &&& string_views(f.warnings@) == st.warnings
}

fn finish_fields(
    name: String,
    st: ScanState,
    ls: &Vec<Vec<char>>,
    from: usize,
    to: usize,
    notes_heading: &str,
) -> (f: HabitFields)
    requires
        from <= to <= ls@.len(),
    ensures
        f.name == name,
        opt_string_view(f.frequency) == scan_state_view(st).frequency,
        opt_string_view(f.target) == scan_state_view(st).target,
        string_views(f.tags@) == scan_state_view(st).tags,
        string_views(f.relationships@) == scan_state_view(st).relationships,
        opt_string_view(f.notes) == final_notes(
            scan_state_view(st),
            views(ls@).subrange(from as int, to as int),
            notes_heading@,
        ),
        sorted_texts(string_views(f.checkins@)),
        string_views(f.checkins@).to_set() == scan_state_view(st).checkins.to_set(),
        string_views(f.warnings@) == scan_state_view(st).warnings,
{
    let notes = match st.notes {
        Some(n) => Some(n),
        None => {
            let body = crate::markdown_parser::raw_lines(ls, from, to);
            match crate::record_text::section_body_exec(&body, notes_heading) {
                Some(b) => {
                    let bc = chars_of(b.as_str());
                    crate::record_text::clean_optional_markdown_exec(bc.as_slice())
                },
                None => None,
            }
        },
    };
    let checkins = sorted_unique(&st.checkins);
    HabitFields {
        name,
        frequency: st.frequency,
        target: st.target,
        tags: st.tags,
        relationships: st.relationships,
        notes,
        checkins,
        warnings: st.warnings,
    }
}

/// Reads the habit whose record spans lines `start` to `end` of a habits
/// index: a `## Name` heading, then field lines, a notes section and
/// check-ins.  `None` where the first line is not such a heading.
pub fn habit_record_fields(ls: &Vec<Vec<char>>, start: usize, end: usize, source: &str) -> (r:
    Option<HabitFields>)
    requires
        start < end <= ls@.len(),
    ensures
        ({
            let t = crate::text::trim(ls@[start as int]@);
            if crate::text::has_prefix(t, "## "@) && crate::text::trim(t.skip(3)).len() > 0 {
                r matches Some(f) && fields_match(
                    f,
                    crate::text::trim(t.skip(3)),
                    views(ls@).subrange(start + 1, end as int),
                    source@,
                    false,
                    "### Notes"@,
                )
            } else {
                r is None
            }
        }),
{
    let t = crate::text::trim_exec(ls[start].as_slice());
    if !crate::text::starts_with_str(t.as_slice(), "## ") {
        return None;
    }
    proof {
        reveal_strlit("## ");
    }
    let rest = crate::text::slice_vec(t.as_slice(), 3, t.len());
    assert(rest@ =~= t@.skip(3));
    let name = crate::text::trim_exec(rest.as_slice());
    if name.len() == 0 {
        return None;
    }
    let st = scan_lines_exec(ls, start + 1, end, source, false);
    Some(finish_fields(crate::text::string_of(name.as_slice()), st, ls, start + 1, end, "### Notes"))
}

/// The position of the first line, from `k` on, that is a level-one heading.
pub open spec fn first_title_line(ls: Seq<Seq<char>>, k: int) -> Option<int>
    decreases ls.len() - k,
{
    if k < 0 || k >= ls.len() {
        None
    } else if crate::text::has_prefix(crate::text::trim(ls[k]), "# "@) {
        Some(k)
    } else {
        first_title_line(ls, k + 1)
    }
}

pub proof fn lemma_first_title_line(ls: Seq<Seq<char>>, k: int)
    requires
        0 <= k,
    ensures
        first_title_line(ls, k) matches Some(i) ==> k <= i < ls.len() && crate::text::has_prefix(
            crate::text::trim(ls[i]),
            "# "@,
        ),
    decreases ls.len() - k,
{
    if k < ls.len() && !crate::text::has_prefix(crate::text::trim(ls[k]), "# "@) {
        lemma_first_title_line(ls, k + 1);
    }
}

pub fn find_title_line(ls: &Vec<Vec<char>>) -> (r: Option<usize>)
    ensures
        match first_title_line(views(ls@), 0) {
            Some(i) => r matches Some(x) && x == i,
            None => r is None,
        },
{
    let ghost lv = views(ls@);
    let n = ls.len();
    let mut i: usize = 0;
    while i < n
        invariant
            n == ls@.len(),
            lv == views(ls@),
            i <= n,
            first_title_line(lv, 0) == first_title_line(lv, i as int),
        decreases n - i,
    {
        let t = crate::text::trim_exec(ls[i].as_slice());
        assert(lv[i as int] == ls@[i as int]@);
        if crate::text::starts_with_str(t.as_slice(), "# ") {
            return Some(i);
        }
        i = i + 1;
    }
    None
}

/// Reads a habit entity: its name is the first `# ` heading; the lines after
/// the first hold its fields, notes and check-ins.
pub fn habit_entity_fields(markdown_body: &str, source: &str) -> (r: Option<HabitFields>)
    ensures
        ({
            let ls = crate::text::lines(markdown_body@);
            match first_title_line(ls, 0) {
                None => r is None,
                Some(i) => r matches Some(f) && fields_match(
                    f,
                    crate::text::trim(crate::text::trim(ls[i]).skip(2)),
                    ls.subrange(1, ls.len() as int),
                    source@,
                    true,
                    "## Notes"@,
                ),
            }
        }),
{
    let md = chars_of(markdown_body);
    let ls = crate::text::lines_exec(md.as_slice());
    let ghost lv = views(ls@);
    let n = ls.len();
    let i = match find_title_line(&ls) {
        None => {
            return None;
        },
        Some(i) => i,
    };
    proof {
        lemma_first_title_line(lv, 0);
        reveal_strlit("# ");
    }
    let t = crate::text::trim_exec(ls[i].as_slice());
    assert(lv[i as int] == ls@[i as int]@);
    let rest = crate::text::slice_vec(t.as_slice(), 2, t.len());
    assert(rest@ =~= t@.skip(2));
    let name = crate::text::trim_exec(rest.as_slice());
    let st = scan_lines_exec(&ls, 1, n, source, true);
    Some(finish_fields(crate::text::string_of(name.as_slice()), st, &ls, 1, n, "## Notes"))
}


// ---------------------------------------------------------------------------
// Habit records and their summary
// ---------------------------------------------------------------------------

/// What a user enters for a habit.
#[derive(Debug, Clone, PartialEq, Eq)]
pub struct HabitInput {
    pub name: String,
    pub frequency: Option<String>,
    pub target: Option<String>,
    pub tags: Vec<String>,
    pub relationships: Vec<String>,
    pub notes: Option<String>,
}

/// A habit as read.
pub struct HabitEntry {
    pub habit_id: String,
    pub name: String,
    pub frequency: Option<String>,
    pub target: Option<String>,
    pub tags: Vec<String>,
    pub relationships: Vec<String>,
    pub notes: Option<String>,
    pub checkins: Vec<String>,
    pub line_index: usize,
    pub raw_markdown: String,
    pub parsed_entity: crate::markdown_parser::ParsedEntityContract,
    pub schema_warnings: Vec<String>,
}

/// A check-in among the recent ones.
#[derive(Debug, Clone, PartialEq, Eq)]
pub struct HabitRecentCheckin {
    pub habit_id: String,
    pub name: String,
    pub date: String,
}

/// The current streak of a habit.
#[derive(Debug, Clone, PartialEq, Eq)]
pub struct HabitStreak {
    pub habit_id: String,
    pub name: String,
    pub current_streak: usize,
}

/// The summary of the habits.
pub struct HabitSummary {
    pub total: usize,
    pub summary_date: Option<String>,
    pub checked_in_on_date: usize,
    pub recent_checkins: Vec<HabitRecentCheckin>,
    pub streaks: Vec<HabitStreak>,
}

/// The habits module's document as read.
pub struct HabitDocument {
    pub document_id: String,
    pub markdown_relative_path: String,
    pub markdown_body: String,
    pub habits: Vec<HabitEntry>,
    pub summary: HabitSummary,
    pub warnings: Vec<String>,
    pub document_metadata: crate::document_metadata::DocumentMetadata,
    pub layout_metadata: Option<crate::layout_metadata::LayoutMetadata>,
}

/// Reads, creates and updates habits and records check-ins.
pub struct HabitsService;

/// `c` is `input` cleaned: the name collapsed (and not blank), the optional
/// values cleaned, the tags and relationships cleaned, sorted and without
/// repeats.
pub open spec fn cleaned_habit(c: HabitInput, input: HabitInput) -> bool {
    &&& crate::record_text::collapse(input.name@).len() > 0
    &&& c.name@ == crate::record_text::collapse(input.name@)
    &&& opt_string_view(c.frequency) == crate::contacts::clean_opt(opt_string_view(input.frequency))
    &&& opt_string_view(c.target) == crate::contacts::clean_opt(opt_string_view(input.target))
    &&& opt_string_view(c.notes) == crate::contacts::clean_opt_markdown(opt_string_view(input.notes))
    &&& sorted_texts(string_views(c.tags@))
    &&& string_views(c.tags@).to_set() == crate::contacts::cleaned_items(string_views(input.tags@)).to_set()
    &&& sorted_texts(string_views(c.relationships@))
    &&& string_views(c.relationships@).to_set() == crate::contacts::cleaned_items(string_views(input.relationships@)).to_set()
}

/// Cleans a habit input: the name's words joined by single spaces, and
/// required; optional values cleaned; the tags and relationships split on
/// commas, cleaned, sorted and without repeats.
pub fn clean_habit_input(input: HabitInput) -> (r: Result<HabitInput, String>)
    ensures
        match r {
            Ok(c) => cleaned_habit(c, input),
            Err(e) => crate::record_text::collapse(input.name@).len() == 0 && e@ == "Habit name is required."@,
        },
        match r {
            Ok(c) => {
                &&& crate::record_text::collapse(input.name@).len() > 0
                &&& c.name@ == crate::record_text::collapse(input.name@)
                &&& opt_string_view(c.frequency) == crate::contacts::clean_opt(opt_string_view(input.frequency))
                &&& opt_string_view(c.target) == crate::contacts::clean_opt(opt_string_view(input.target))
                &&& opt_string_view(c.notes) == crate::contacts::clean_opt_markdown(opt_string_view(input.notes))
                &&& sorted_texts(string_views(c.tags@))
                &&& string_views(c.tags@).to_set() == crate::contacts::cleaned_items(string_views(input.tags@)).to_set()
                &&& sorted_texts(string_views(c.relationships@))
                &&& string_views(c.relationships@).to_set() == crate::contacts::cleaned_items(
                    string_views(input.relationships@),
                ).to_set()
            },
            Err(e) => crate::record_text::collapse(input.name@).len() == 0 && e@ == "Habit name is required."@,
        },
{
    let name = crate::record_text::collapse_inline_text(input.name.as_str());
    let nc = chars_of(name.as_str());
    if nc.len() == 0 {
        return Err(owned("Habit name is required."));
    }
    let tags = crate::contacts::cleaned_items_exec(&input.tags);
    let relationships = crate::contacts::cleaned_items_exec(&input.relationships);
    Ok(HabitInput {
        name,
        frequency: crate::contacts::clean_opt_exec(input.frequency),
        target: crate::contacts::clean_opt_exec(input.target),
        tags: sorted_unique(&tags),
        relationships: sorted_unique(&relationships),
        notes: crate::contacts::clean_opt_markdown_exec(input.notes),
    })
}

/// The lines a habit is written as, after its heading line.
pub open spec fn habit_lines(i: HabitInput, checkins: Seq<Seq<char>>, notes_heading: Seq<char>, checkins_title: Seq<char>) -> Seq<
    Seq<char>,
> {
    crate::contacts::optional_field_lines("Frequency"@, opt_string_view(i.frequency))
        + crate::contacts::optional_field_lines("Target"@, opt_string_view(i.target))
        + crate::contacts::list_lines("- Tags: "@, string_views(i.tags@)) + crate::contacts::list_lines(
        "- Relationships: "@,
        string_views(i.relationships@),
    ) + crate::contacts::notes_lines(notes_heading, opt_string_view(i.notes)) + seq![checkins_title]
        + checkins.map_values(|c: Seq<char>| "- "@ + c)
}

/// A habit written as Markdown: a heading with its trimmed name, its
/// lines and its check-ins, each line ended by a newline.
pub open spec fn rendered_habit(
    i: HabitInput,
    checkins: Seq<Seq<char>>,
    heading: Seq<char>,
    notes_heading: Seq<char>,
    checkins_title: Seq<char>,
) -> Seq<char> {
    crate::text::join(seq![heading + crate::text::trim(i.name@)] + habit_lines(i, checkins, notes_heading, checkins_title), "\n"@)
        + "\n"@
}

/// A habit written as Markdown under the given headings.
pub fn render_habit(
    input: &HabitInput,
    checkins: &Vec<String>,
    heading: &str,
    notes_heading: &str,
    checkins_title: &str,
) -> (r: String)
    ensures
        r@ == rendered_habit(*input, string_views(checkins@), heading@, notes_heading@, checkins_title@),
{
    let mut lines: Vec<Vec<char>> = Vec::new();
    let mut first = chars_of(heading);
    let nm = crate::text::trim_str(input.name.as_str());
    crate::text::append(&mut first, nm.as_slice());
    crate::contacts::push_line(&mut lines, first);
    let ghost head = views(lines@);
    crate::contacts::push_optional_field(&mut lines, "Frequency", &input.frequency);
    crate::contacts::push_optional_field(&mut lines, "Target", &input.target);
    crate::contacts::push_list_line(&mut lines, "- Tags: ", &input.tags);
    crate::contacts::push_list_line(&mut lines, "- Relationships: ", &input.relationships);
    crate::contacts::push_notes(&mut lines, notes_heading, &input.notes);
    crate::contacts::push_line(&mut lines, chars_of(checkins_title));
    let ghost mid = views(lines@);
    let n = checkins.len();
    let mut i: usize = 0;
    while i < n
        invariant
            n == checkins@.len(),
            i <= n,
            views(lines@) == mid + string_views(checkins@).take(i as int).map_values(|c: Seq<char>| "- "@ + c),
        decreases n - i,
    {
        let mut l = chars_of("- ");
        crate::text::append_str(&mut l, checkins[i].as_str());
        crate::contacts::push_line(&mut lines, l);
        assert(string_views(checkins@).take(i + 1).map_values(|c: Seq<char>| "- "@ + c) =~= string_views(checkins@).take(
            i as int,
        ).map_values(|c: Seq<char>| "- "@ + c).push("- "@ + checkins@[i as int]@));
        i = i + 1;
    }
    assert(string_views(checkins@).take(n as int) =~= string_views(checkins@));
    proof {
        reveal_strlit("- Tags: ");
        reveal_strlit("- Relationships: ");
    }
    assert(views(lines@) =~= seq![heading@ + crate::text::trim(input.name@)] + habit_lines(
        *input,
        string_views(checkins@),
        notes_heading@,
        checkins_title@,
    ));
    let nl = chars_of("\n");
    let mut out = crate::text::join_exec(&lines, nl.as_slice());
    crate::text::append_str(&mut out, "\n");
    crate::text::string_of(out.as_slice())
}

/// A habit record of the habits index (a `## ` section).
pub fn render_habit_record(input: &HabitInput, checkins: &Vec<String>) -> (r: String)
    ensures
        r@ == rendered_habit(*input, string_views(checkins@), "## "@, "### Notes"@, "### Check-ins"@),
{
    render_habit(input, checkins, "## ", "### Notes", "### Check-ins")
}

/// A habit entity file (a `# ` document).
pub fn render_habit_entity(input: &HabitInput, checkins: &Vec<String>) -> (r: String)
    ensures
        r@ == rendered_habit(*input, string_views(checkins@), "# "@, "## Notes"@, "## Check-ins"@),
{
    render_habit(input, checkins, "# ", "## Notes", "## Check-ins")
}

/// The check-ins with a date added: unchanged where it is there already;
/// else with the date, sorted.
pub fn with_checkin(checkins: &Vec<String>, date: &str) -> (r: Vec<String>)
    ensures
        string_views(checkins@).contains(date@) ==> string_views(r@) == string_views(checkins@),
        !string_views(checkins@).contains(date@) ==> {
            &&& string_views(r@).to_multiset() == string_views(checkins@).push(date@).to_multiset()
            &&& forall|a: int, b: int|
                0 <= a < b < r@.len() ==> !crate::ordered::text_lt(#[trigger] r@[b]@, #[trigger] r@[a]@)
        },
{
    let d = owned(date);
    if crate::module_schema::contains_text(checkins, &d) {
        let r = checkins.clone();
        assert(string_views(r@) =~= string_views(checkins@));
        return r;
    }
    let mut pairs: Vec<(String, bool)> = Vec::new();
    let n = checkins.len();
    let mut i: usize = 0;
    while i < n
        invariant
            n == checkins@.len(),
            i <= n,
            pairs@.map_values(|p: (String, bool)| p.0@) == string_views(checkins@).take(i as int),
        decreases n - i,
    {
        let ghost b = pairs@;
        pairs.push((checkins[i].clone(), true));
        assert(pairs@.map_values(|p: (String, bool)| p.0@) =~= b.map_values(|p: (String, bool)| p.0@).push(checkins@[i as int]@));
        assert(string_views(checkins@).take(i + 1) =~= string_views(checkins@).take(i as int).push(checkins@[i as int]@));
        i = i + 1;
    }
    assert(string_views(checkins@).take(n as int) =~= string_views(checkins@));
    let ghost b = pairs@;
    pairs.push((d, true));
    assert(pairs@.map_values(|p: (String, bool)| p.0@) =~= string_views(checkins@).push(date@)) by {
        assert(pairs@.map_values(|p: (String, bool)| p.0@) =~= b.map_values(|p: (String, bool)| p.0@).push(date@));
    }
    let ghost unsorted = pairs@;
    let mut sorted = crate::ordered::sort_by_key(pairs);
    let ghost sv = sorted@;
    proof {
        crate::ordered::lemma_map_multiset(sv, unsorted, |p: (String, bool)| p.0@);
    }
    let mut out: Vec<String> = Vec::new();
    let m = sorted.len();
    let mut j: usize = 0;
    while sorted.len() > 0
        invariant
            m == sv.len(),
            j + sorted@.len() == m,
            sorted@ == sv.skip(j as int),
            string_views(out@) == sv.take(j as int).map_values(|p: (String, bool)| p.0@),
            forall|q: int| 0 <= q < out@.len() ==> (#[trigger] out@[q])@ == sv[q].0@,
        decreases sorted@.len(),
    {
        let pair = sorted.remove(0);
        assert(pair == sv[j as int]);
        assert(sorted@ =~= sv.skip(j + 1));
        let ghost bo = string_views(out@);
        out.push(pair.0);
        assert(string_views(out@) =~= bo.push(sv[j as int].0@));
        assert(sv.take(j + 1).map_values(|p: (String, bool)| p.0@) =~= sv.take(j as int).map_values(
            |p: (String, bool)| p.0@,
        ).push(sv[j as int].0@));
        j = j + 1;
    }
    assert(sv.take(m as int) =~= sv);
    out
}


/// The view of a recent check-in: habit id, name and date.
pub open spec fn recent_view(c: HabitRecentCheckin) -> (Seq<char>, Seq<char>, Seq<char>) {
    (c.habit_id@, c.name@, c.date@)
}

/// Every check-in of every habit, habit by habit, in order.
pub open spec fn all_checkins(hs: Seq<HabitEntry>) -> Seq<(Seq<char>, Seq<char>, Seq<char>)>
    decreases hs.len(),
{
    if hs.len() == 0 {
        seq![]
    } else {
        let h = hs.last();
        all_checkins(hs.drop_last()) + string_views(h.checkins@).map_values(
            |d: Seq<char>| (h.habit_id@, h.name@, d),
        )
    }
}

/// The order of recent check-ins: later dates first, then by name.
pub open spec fn recent_before(a: (Seq<char>, Seq<char>, Seq<char>), b: (Seq<char>, Seq<char>, Seq<char>)) -> bool {
    crate::ordered::text_lt(b.2, a.2) || (a.2 == b.2 && crate::ordered::text_lt(a.1, b.1))
}

/// No check-in comes after one that should follow it.
pub open spec fn recent_ordered(v: Seq<(Seq<char>, Seq<char>, Seq<char>)>) -> bool {
    forall|a: int, b: int| 0 <= a < b < v.len() ==> !recent_before(#[trigger] v[b], #[trigger] v[a])
}

proof fn lemma_recent_before_transitive(
    a: (Seq<char>, Seq<char>, Seq<char>),
    b: (Seq<char>, Seq<char>, Seq<char>),
    c: (Seq<char>, Seq<char>, Seq<char>),
)
    requires
        recent_before(a, b),
        recent_before(b, c),
    ensures
        recent_before(a, c),
{
    if crate::ordered::text_lt(b.2, a.2) && crate::ordered::text_lt(c.2, b.2) {
        crate::ordered::lemma_text_lt_transitive(c.2, b.2, a.2);
    } else if a.2 == b.2 && b.2 == c.2 {
        crate::ordered::lemma_text_lt_transitive(a.1, b.1, c.1);
    }
}

proof fn lemma_recent_before_irreflexive(a: (Seq<char>, Seq<char>, Seq<char>))
    ensures
        !recent_before(a, a),
{
    crate::ordered::lemma_text_lt_irreflexive(a.2);
    crate::ordered::lemma_text_lt_irreflexive(a.1);
}

fn recent_less(a: &HabitRecentCheckin, b: &HabitRecentCheckin) -> (r: bool)
    ensures
        r == recent_before(recent_view(*a), recent_view(*b)),
{
    let ad = chars_of(a.date.as_str());
    let bd = chars_of(b.date.as_str());
    if crate::ordered::text_less(bd.as_slice(), ad.as_slice()) {
        return true;
    }
    if crate::text::seq_eq(ad.as_slice(), bd.as_slice()) {
        let an = chars_of(a.name.as_str());
        let bn = chars_of(b.name.as_str());
        return crate::ordered::text_less(an.as_slice(), bn.as_slice());
    }
    false
}

fn first_recent_after(out: &Vec<HabitRecentCheckin>, x: &HabitRecentCheckin) -> (p: usize)
    ensures
        p <= out@.len(),
        forall|q: int| 0 <= q < p ==> !recent_before(recent_view(*x), #[trigger] recent_view(out@[q])),
        p < out@.len() ==> recent_before(recent_view(*x), recent_view(out@[p as int])),
{
    let mut p: usize = 0;
    while p < out.len()
        invariant
            p <= out@.len(),
            forall|q: int| 0 <= q < p ==> !recent_before(recent_view(*x), #[trigger] recent_view(out@[q])),
        decreases out@.len() - p,
    {
        if recent_less(x, &out[p]) {
            return p;
        }
        p = p + 1;
    }
    p
}

fn gather_checkins(habits: &Vec<HabitEntry>) -> (r: Vec<HabitRecentCheckin>)
    ensures
        r@.map_values(|c: HabitRecentCheckin| recent_view(c)) == all_checkins(habits@),
{
    let ghost hs = habits@;
    let mut out: Vec<HabitRecentCheckin> = Vec::new();
    let n = habits.len();
    let mut i: usize = 0;
    while i < n
        invariant
            n == hs.len(),
            hs == habits@,
            i <= n,
            out@.map_values(|c: HabitRecentCheckin| recent_view(c)) == all_checkins(hs.take(i as int)),
        decreases n - i,
    {
        let h = &habits[i];
        assert(hs.take(i + 1).drop_last() =~= hs.take(i as int));
        assert(hs.take(i + 1).last() == *h);
        let ghost start = out@.map_values(|c: HabitRecentCheckin| recent_view(c));
        let k = h.checkins.len();
        let mut j: usize = 0;
        while j < k
            invariant
                k == h.checkins@.len(),
                j <= k,
                out@.map_values(|c: HabitRecentCheckin| recent_view(c)) == start + string_views(h.checkins@).take(
                    j as int,
                ).map_values(|d: Seq<char>| (h.habit_id@, h.name@, d)),
            decreases k - j,
        {
            let ghost b = out@.map_values(|c: HabitRecentCheckin| recent_view(c));
            let c = HabitRecentCheckin { habit_id: h.habit_id.clone(), name: h.name.clone(), date: h.checkins[j].clone() };
            out.push(c);
            assert(out@.map_values(|c: HabitRecentCheckin| recent_view(c)) =~= b.push(recent_view(c)));
            assert(string_views(h.checkins@).take(j + 1).map_values(|d: Seq<char>| (h.habit_id@, h.name@, d)) =~= string_views(
                h.checkins@,
            ).take(j as int).map_values(|d: Seq<char>| (h.habit_id@, h.name@, d)).push(
                (h.habit_id@, h.name@, h.checkins@[j as int]@),
            ));
            j = j + 1;
        }
        assert(string_views(h.checkins@).take(k as int) =~= string_views(h.checkins@));
        i = i + 1;
    }
    assert(hs.take(n as int) =~= hs);
    out
}

fn sort_recent(all: Vec<HabitRecentCheckin>) -> (r: Vec<HabitRecentCheckin>)
    ensures
        recent_ordered(r@.map_values(|c: HabitRecentCheckin| recent_view(c))),
        r@.map_values(|c: HabitRecentCheckin| recent_view(c)).to_multiset() == all@.map_values(
            |c: HabitRecentCheckin| recent_view(c),
        ).to_multiset(),
{
    let ghost av = all@.map_values(|c: HabitRecentCheckin| recent_view(c));
    let mut rest = all;
    let mut out: Vec<HabitRecentCheckin> = Vec::new();
    let n = rest.len();
    let mut i: usize = 0;
    proof {
        assert(out@.map_values(|c: HabitRecentCheckin| recent_view(c)) =~= av.take(0));
        assert(rest@.map_values(|c: HabitRecentCheckin| recent_view(c)) =~= av.skip(0));
    }
    while rest.len() > 0
        invariant
            n == av.len(),
            i + rest@.len() == n,
            rest@.map_values(|c: HabitRecentCheckin| recent_view(c)) == av.skip(i as int),
            recent_ordered(out@.map_values(|c: HabitRecentCheckin| recent_view(c))),
            out@.map_values(|c: HabitRecentCheckin| recent_view(c)).to_multiset() == av.take(i as int).to_multiset(),
        decreases rest@.len(),
    {
        let ghost rv = rest@.map_values(|c: HabitRecentCheckin| recent_view(c));
        let x = rest.remove(0);
        assert(recent_view(x) == av[i as int]) by {
            assert(rv[0] == av.skip(i as int)[0]);
        }
        assert(rest@.map_values(|c: HabitRecentCheckin| recent_view(c)) =~= av.skip(i + 1)) by {
            assert(rest@.map_values(|c: HabitRecentCheckin| recent_view(c)) =~= rv.drop_first());
        }
        let ghost xv = recent_view(x);
        let p = first_recent_after(&out, &x);
        let ghost b = out@;
        let ghost bv = b.map_values(|c: HabitRecentCheckin| recent_view(c));
        out.insert(p, x);
        proof {
            broadcast use vstd::seq_lib::group_to_multiset_ensures;

            assert(out@ == b.insert(p as int, x));
            let ov = out@.map_values(|c: HabitRecentCheckin| recent_view(c));
            assert(ov =~= bv.insert(p as int, xv));
            assert forall|a: int, c: int| 0 <= a < c < ov.len() implies !recent_before(#[trigger] ov[c], #[trigger] ov[a]) by {
                if recent_before(ov[c], ov[a]) {
                    if c < p {
                        assert(ov[a] == bv[a] && ov[c] == bv[c]);
                    } else if c == p {
                        assert(ov[a] == bv[a]);
                    } else if a == p {
                        assert(ov[c] == bv[c - 1]);
                        assert(recent_before(xv, bv[p as int]));
                        if c - 1 > p {
                            assert(!recent_before(bv[c - 1], bv[p as int]));
                            lemma_recent_before_transitive(bv[c - 1], xv, bv[p as int]);
                        } else {
                            lemma_recent_before_transitive(xv, bv[p as int], xv);
                            lemma_recent_before_irreflexive(xv);
                        }
                    } else if a < p {
                        assert(ov[a] == bv[a] && ov[c] == bv[c - 1]);
                    } else {
                        assert(ov[a] == bv[a - 1] && ov[c] == bv[c - 1]);
                    }
                }
            }
            assert(av.take(i + 1) =~= av.take(i as int).push(xv));
            assert(bv.insert(p as int, xv).to_multiset() =~= bv.to_multiset().insert(xv));
        }
        i = i + 1;
    }
    assert(av.take(n as int) =~= av);
    out
}

/// The first ten of the check-ins, or all where there are fewer.
pub open spec fn first_ten(s: Seq<(Seq<char>, Seq<char>, Seq<char>)>) -> Seq<(Seq<char>, Seq<char>, Seq<char>)> {
    s.take(if s.len() < 10 { s.len() as int } else { 10 })
}

/// Whether a habit was checked in on a date.
pub open spec fn checked_in_on(h: HabitEntry, d: Seq<char>) -> bool {
    string_views(h.checkins@).contains(d)
}

/// How many habits were checked in on a date.
pub open spec fn checked_in_count(hs: Seq<HabitEntry>, d: Seq<char>) -> nat
    decreases hs.len(),
{
    if hs.len() == 0 {
        0
    } else {
        checked_in_count(hs.drop_last(), d) + if checked_in_on(hs.last(), d) {
            1nat
        } else {
            0nat
        }
    }
}

/// The summary of the habits for a day: their number, how many were
/// checked in on the day, the ten latest check-ins (later dates first, then
/// by name, ties kept in habit order), and each habit's current streak
/// counted back from the day.
pub fn summarize_habits(habits: &Vec<HabitEntry>, summary_date: Option<&str>) -> (r: HabitSummary)
    ensures
        r.total == habits@.len(),
        opt_string_view(r.summary_date) == opt_view(summary_date),
        r.checked_in_on_date == match summary_date {
            Some(d) => checked_in_count(habits@, d@),
            None => 0,
        },
        exists|s: Seq<(Seq<char>, Seq<char>, Seq<char>)>|
            s.to_multiset() == all_checkins(habits@).to_multiset() && recent_ordered(s) && r.recent_checkins@.map_values(
                |c: HabitRecentCheckin| recent_view(c),
            ) == #[trigger] first_ten(s),
        r.streaks@.len() == habits@.len(),
        forall|k: int|
            0 <= k < habits@.len() ==> {
                let cs = string_views(habits@[k].checkins@);
                &&& (#[trigger] r.streaks@[k]).habit_id@ == habits@[k].habit_id@
                &&& r.streaks@[k].name@ == habits@[k].name@
                &&& checkin_days(cs).len() == 0 ==> r.streaks@[k].current_streak == 0
                &&& checkin_days(cs).len() != 0 ==> streak_of(
                    checkin_days(cs),
                    streak_start(checkin_days(cs), opt_view(summary_date)),
                    r.streaks@[k].current_streak as nat,
                )
            },
{
    let all = gather_checkins(habits);
    let sorted = sort_recent(all);
    let ghost sv = sorted@.map_values(|c: HabitRecentCheckin| recent_view(c));
    let mut recent: Vec<HabitRecentCheckin> = Vec::new();
    let mut k: usize = 0;
    while k < sorted.len() && k < 10
        invariant
            sv == sorted@.map_values(|c: HabitRecentCheckin| recent_view(c)),
            k <= sorted@.len(),
            k <= 10,
            recent@.map_values(|c: HabitRecentCheckin| recent_view(c)) == sv.take(k as int),
        decreases 10 - k,
    {
        let ghost b = recent@.map_values(|c: HabitRecentCheckin| recent_view(c));
        let c = HabitRecentCheckin {
            habit_id: sorted[k].habit_id.clone(),
            name: sorted[k].name.clone(),
            date: sorted[k].date.clone(),
        };
        recent.push(c);
        assert(recent@.map_values(|c: HabitRecentCheckin| recent_view(c)) =~= b.push(recent_view(c)));
        assert(sv.take(k + 1) =~= sv.take(k as int).push(sv[k as int]));
        k = k + 1;
    }
    assert(recent@.map_values(|c: HabitRecentCheckin| recent_view(c)) == first_ten(sv));
    let ghost hs = habits@;
    let n = habits.len();
    let mut count: usize = 0;
    let mut streaks: Vec<HabitStreak> = Vec::new();
    let mut i: usize = 0;
    while i < n
        invariant
            n == hs.len(),
            hs == habits@,
            i <= n,
            count <= i,
            count == match summary_date {
                Some(d) => checked_in_count(hs.take(i as int), d@),
                None => 0,
            },
            streaks@.len() == i,
            forall|q: int|
                0 <= q < i ==> {
                    let cs = string_views(hs[q].checkins@);
                    &&& (#[trigger] streaks@[q]).habit_id@ == hs[q].habit_id@
                    &&& streaks@[q].name@ == hs[q].name@
                    &&& checkin_days(cs).len() == 0 ==> streaks@[q].current_streak == 0
                    &&& checkin_days(cs).len() != 0 ==> streak_of(
                        checkin_days(cs),
                        streak_start(checkin_days(cs), opt_view(summary_date)),
                        streaks@[q].current_streak as nat,
                    )
                },
        decreases n - i,
    {
        let h = &habits[i];
        assert(hs.take(i + 1).drop_last() =~= hs.take(i as int));
        assert(hs.take(i + 1).last() == *h);
        match summary_date {
            Some(d) => {
                let ds = owned(d);
                if crate::module_schema::contains_text(&h.checkins, &ds) {
                    count = count + 1;
                }
            },
            None => {},
        }
        let st = current_streak(&h.checkins, summary_date);
        streaks.push(HabitStreak { habit_id: h.habit_id.clone(), name: h.name.clone(), current_streak: st });
        i = i + 1;
    }
    assert(hs.take(n as int) =~= hs);
    HabitSummary {
        total: habits.len(),
        summary_date: match summary_date {
            Some(d) => Some(owned(d)),
            None => None,
        },
        checked_in_on_date: count,
        recent_checkins: recent,
        streaks,
    }
}


/// The records of the habits, each after a blank line.
pub open spec fn habit_index_records(hs: Seq<HabitEntry>) -> Seq<char>
    decreases hs.len(),
{
    if hs.len() == 0 {
        seq![]
    } else {
        let h = hs.last();
        let i = HabitInput {
            name: h.name,
            frequency: h.frequency,
            target: h.target,
            tags: h.tags,
            relationships: h.relationships,
            notes: h.notes,
        };
        habit_index_records(hs.drop_last()) + "\n"@ + rendered_habit(
            i,
            string_views(h.checkins@),
            "## "@,
            "### Notes"@,
            "### Check-ins"@,
        )
    }
}

/// The generated body of the habits index: a heading, the records, and a
/// note while the legacy habits document still holds content.
pub open spec fn habits_index_body(hs: Seq<HabitEntry>, legacy_body: Seq<char>) -> Seq<char> {
    "# Habits\n"@ + habit_index_records(hs) + if crate::text::trim(legacy_body).len() > 0 {
        "\n## Legacy compatibility\n- Unmigrated records from modules/habits.md are included until explicit upgrade runs.\n"@
    } else {
        seq![]
    }
}

fn input_of(h: &HabitEntry) -> (r: HabitInput)
    ensures
        r.name@ == h.name@,
        opt_string_view(r.frequency) == opt_string_view(h.frequency),
        opt_string_view(r.target) == opt_string_view(h.target),
        string_views(r.tags@) == string_views(h.tags@),
        string_views(r.relationships@) == string_views(h.relationships@),
        opt_string_view(r.notes) == opt_string_view(h.notes),
{
    let r = HabitInput {
        name: h.name.clone(),
        frequency: crate::contacts::copy_opt(&h.frequency),
        target: crate::contacts::copy_opt(&h.target),
        tags: h.tags.clone(),
        relationships: h.relationships.clone(),
        notes: crate::contacts::copy_opt(&h.notes),
    };
    assert(string_views(r.tags@) =~= string_views(h.tags@));
    assert(string_views(r.relationships@) =~= string_views(h.relationships@));
    r
}

/// The generated body of the habits index.
pub fn render_habits_index_body(habits: &Vec<HabitEntry>, legacy_body: &str) -> (r: String)
    ensures
        r@ == habits_index_body(habits@, legacy_body@),
{
    let mut body = chars_of("# Habits\n");
    let ghost head = body@;
    let n = habits.len();
    let mut i: usize = 0;
    while i < n
        invariant
            n == habits@.len(),
            i <= n,
            head == "# Habits\n"@,
            body@ == head + habit_index_records(habits@.take(i as int)),
        decreases n - i,
    {
        let h = &habits[i];
        let input = input_of(h);
        let rec = render_habit_record(&input, &h.checkins);
        assert(habits@.take(i + 1).drop_last() =~= habits@.take(i as int));
        assert(habits@.take(i + 1).last() == *h);
        let ghost spec_input = HabitInput {
            name: h.name,
            frequency: h.frequency,
            target: h.target,
            tags: h.tags,
            relationships: h.relationships,
            notes: h.notes,
        };
        assert(habit_lines(input, string_views(h.checkins@), "### Notes"@, "### Check-ins"@) =~= habit_lines(
            spec_input,
            string_views(h.checkins@),
            "### Notes"@,
            "### Check-ins"@,
        ));
        crate::text::append_str(&mut body, "\n");
        crate::text::append_str(&mut body, rec.as_str());
        i = i + 1;
    }
    assert(habits@.take(n as int) =~= habits@);
    let lb = crate::text::trim_str(legacy_body);
    if lb.len() > 0 {
        crate::text::append_str(
            &mut body,
            "\n## Legacy compatibility\n- Unmigrated records from modules/habits.md are included until explicit upgrade runs.\n",
        );
    }
    crate::text::string_of(body.as_slice())
}

/// The habits sorted by their lowercased names, entries with equal keys
/// keeping their order.
pub fn sort_habits(habits: Vec<HabitEntry>) -> (r: Vec<HabitEntry>)
    ensures
        r@.to_multiset() == habits@.to_multiset(),
        forall|k: Seq<char>| #[trigger] habits_named(r@, k) == habits_named(habits@, k),
        forall|a: int, b: int|
            0 <= a < b < r@.len() ==> !crate::ordered::text_lt(
                crate::text::unicode_lowercase(#[trigger] r@[b].name@),
                crate::text::unicode_lowercase(#[trigger] r@[a].name@),
            ),
{
    let ghost all = habits@;
    let mut rest = habits;
    let mut pairs: Vec<(String, HabitEntry)> = Vec::new();
    let n = rest.len();
    let mut i: usize = 0;
    while rest.len() > 0
        invariant
            n == all.len(),
            i + rest@.len() == n,
            rest@ == all.skip(i as int),
            pairs@.map_values(|p: (String, HabitEntry)| p.1) == all.take(i as int),
            forall|k: int| 0 <= k < pairs@.len() ==> (#[trigger] pairs@[k]).0@ == crate::text::unicode_lowercase(
                pairs@[k].1.name@,
            ),
        decreases rest@.len(),
    {
        let c = rest.remove(0);
        assert(c == all[i as int]);
        assert(rest@ =~= all.skip(i + 1));
        let key = crate::text::to_lowercase(c.name.as_str());
        let ghost b = pairs@;
        let ghost cc = c;
        pairs.push((key, c));
        assert(pairs@.map_values(|p: (String, HabitEntry)| p.1) =~= b.map_values(|p: (String, HabitEntry)| p.1).push(cc));
        assert(all.take(i + 1) =~= all.take(i as int).push(cc));
        i = i + 1;
    }
    assert(all.take(n as int) =~= all);
    let ghost unsorted = pairs@;
    let mut sorted = crate::ordered::sort_by_key(pairs);
    let ghost sv = sorted@;
    proof {
        broadcast use vstd::seq_lib::group_to_multiset_ensures;

        crate::ordered::lemma_map_multiset(sv, unsorted, |p: (String, HabitEntry)| p.1);
        assert forall|k: int| 0 <= k < sv.len() implies (#[trigger] sv[k]).0@ == crate::text::unicode_lowercase(
            sv[k].1.name@,
        ) by {
            assert(sv.contains(sv[k]));
            assert(sv.to_multiset().count(sv[k]) > 0);
            assert(unsorted.to_multiset().count(sv[k]) > 0);
            assert(unsorted.contains(sv[k]));
            let w = choose|w: int| 0 <= w < unsorted.len() && unsorted[w] == sv[k];
            assert(unsorted[w].0@ == crate::text::unicode_lowercase(unsorted[w].1.name@));
        }
    }
    let mut out: Vec<HabitEntry> = Vec::new();
    let m = sorted.len();
    let mut j: usize = 0;
    while sorted.len() > 0
        invariant
            m == sv.len(),
            j + sorted@.len() == m,
            sorted@ == sv.skip(j as int),
            out@ == sv.take(j as int).map_values(|p: (String, HabitEntry)| p.1),
        decreases sorted@.len(),
    {
        let pair = sorted.remove(0);
        assert(pair == sv[j as int]);
        assert(sorted@ =~= sv.skip(j + 1));
        out.push(pair.1);
        assert(out@ =~= sv.take(j + 1).map_values(|p: (String, HabitEntry)| p.1));
        j = j + 1;
    }
    assert(sv.take(m as int) =~= sv);
    proof {
        assert(out@ =~= crate::ordered::pair_values(sv));
        assert(all =~= crate::ordered::pair_values(unsorted));
        assert forall|k: Seq<char>| #[trigger] habits_named(out@, k) == habits_named(all, k) by {
            let g2 = |h: HabitEntry| crate::text::unicode_lowercase(h.name@) == k;
            crate::ordered::lemma_with_key_values(sv, g2, k);
            crate::ordered::lemma_with_key_values(unsorted, g2, k);
            assert(crate::ordered::with_key(sv, k) == crate::ordered::with_key(unsorted, k));
            assert(habits_named(out@, k) == crate::ordered::pair_values(sv).filter(g2));
            assert(habits_named(all, k) == crate::ordered::pair_values(unsorted).filter(g2));
        }
    }
    out
}

/// The habits whose lowercase name is `k`, in order.
pub open spec fn habits_named(hs: Seq<HabitEntry>, k: Seq<char>) -> Seq<HabitEntry> {
    hs.filter(|h: HabitEntry| crate::text::unicode_lowercase(h.name@) == k)
}

/// A path of a habit entity file: under the habits folder, a Markdown file
/// that is not its index or module document.
pub open spec fn habit_entity_path(p: Seq<char>) -> bool {
    (crate::text::has_prefix(p, "modules/habits/data"@) || crate::text::has_prefix(p, "modules/habits"@))
        && crate::text::has_suffix(p, ".md"@) && p != "modules/habits/INDEX.md"@ && !crate::text::has_suffix(
        p,
        "/MODULE.md"@,
    )
}

/// Whether a path is a habit entity file.
pub fn is_habit_entity_path(path: &str) -> (r: bool)
    ensures
        r == habit_entity_path(path@),
{
    let p = chars_of(path);
    (crate::text::starts_with_str(p.as_slice(), "modules/habits/data") || crate::text::starts_with_str(
        p.as_slice(),
        "modules/habits",
    )) && crate::text::ends_with_str(p.as_slice(), ".md") && !crate::text::eq_str(p.as_slice(), "modules/habits/INDEX.md")
        && !crate::text::ends_with_str(p.as_slice(), "/MODULE.md")
}

/// An id of a habit record of the habits index: its line and the hash of
/// its text.
pub open spec fn is_habit_record_id(id: Seq<char>, line_index: nat) -> bool {
    exists|h: Seq<char>| crate::storage::is_hash_label(h) && id == "habit_"@ + crate::storage::decimal(line_index) + "_"@ + h
}

/// The id of a habit record of the habits index.
pub fn habit_id_for_record(line_index: usize, raw_markdown: &str) -> (r: String)
    ensures
        is_habit_record_id(r@, line_index as nat),
        r@ == "habit_"@ + crate::storage::decimal(line_index as nat) + "_"@ + crate::storage::text_hash(raw_markdown@),
{
    let h = crate::storage::content_hash(raw_markdown);
    let mut v = chars_of("habit_");
    let d = crate::storage::decimal_exec(line_index as u64);
    crate::text::append(&mut v, d.as_slice());
    crate::text::append_str(&mut v, "_");
    crate::text::append_str(&mut v, h.as_str());
    let r = crate::text::string_of(v.as_slice());
    assert(r@ == "habit_"@ + crate::storage::decimal(line_index as nat) + "_"@ + h@);
    r
}


/// The candidate at `i` is the first habit path not among the existing
/// paths.
pub open spec fn first_free_habit(slug: Seq<char>, existing: Seq<Seq<char>>, i: nat) -> bool {
    &&& i < 100
    &&& !existing.contains(crate::contacts::entity_candidate("modules/habits/data/"@, slug, i))
    &&& forall|j: nat| j < i ==> existing.contains(#[trigger] crate::contacts::entity_candidate("modules/habits/data/"@, slug, j))
}

/// The slug of a habit's cleaned name.
pub open spec fn habit_slug(input: HabitInput) -> Seq<char> {
    crate::contacts::entity_slug(crate::record_text::collapse(input.name@), "untitled-habit"@)
}

/// The path a new habit gets: the first free candidate for its cleaned name.
pub open spec fn first_free_habit_path(input: HabitInput, existing: Seq<Seq<char>>) -> Seq<char> {
    crate::contacts::entity_candidate(
        "modules/habits/data/"@,
        habit_slug(input),
        choose|i: nat| first_free_habit(habit_slug(input), existing, i),
    )
}

/// Why a summary date is refused, if it is.
pub open spec fn summary_date_error(summary_date: Option<&str>) -> Option<Seq<char>> {
    match summary_date {
        Some(d) => match day_number_result(d@) {
            Err(e) => Some(e),
            Ok(_) => None,
        },
        None => None,
    }
}

/// Why creating a habit is refused, if it is: an invalid summary date, a
/// blank name, every candidate path taken, or a path that is not
/// vault-relative.
pub open spec fn habit_create_error(input: HabitInput, summary_date: Option<&str>, existing: Seq<Seq<char>>) -> Option<
    Seq<char>,
> {
    if summary_date_error(summary_date) is Some {
        summary_date_error(summary_date)
    } else if crate::record_text::collapse(input.name@).len() == 0 {
        Some("Habit name is required."@)
    } else if !exists|i: nat| first_free_habit(habit_slug(input), existing, i) {
        Some("Unable to find an available Habit filename."@)
    } else {
        match crate::storage::vault_relative_check(first_free_habit_path(input, existing)) {
            Err(e) => Some(e),
            Ok(_) => None,
        }
    }
}

/// The fields of a habit read back as an input.
pub open spec fn habit_input_of(f: HabitFields) -> HabitInput {
    HabitInput {
        name: f.name,
        frequency: f.frequency,
        target: f.target,
        tags: f.tags,
        relationships: f.relationships,
        notes: f.notes,
    }
}

/// `r` is the check-ins `cs` with `date` recorded: unchanged where it is
/// there already; else with it added, sorted.
pub open spec fn checkin_added(r: Seq<Seq<char>>, cs: Seq<Seq<char>>, date: Seq<char>) -> bool {
    if cs.contains(date) {
        r == cs
    } else {
        &&& r.to_multiset() == cs.push(date).to_multiset()
        &&& forall|a: int, b: int| 0 <= a < b < r.len() ==> !crate::ordered::text_lt(#[trigger] r[b], #[trigger] r[a])
    }
}

/// The new name a change carries, if any.
pub open spec fn change_name(change: Option<HabitInput>) -> Option<Seq<char>> {
    match change {
        Some(i) => Some(i.name@),
        None => None,
    }
}

/// Why rewriting a habit entity is refused, if it is: its path is no habit
/// entity, the file holds no habit, the id no longer matches the file (it
/// changed outside BentoLife), or the new name is blank.
pub open spec fn habit_entity_error(
    habit_id: Seq<char>,
    new_name: Option<Seq<char>>,
    path: Seq<char>,
    current_markdown: Seq<char>,
) -> Option<Seq<char>> {
    let body = crate::contacts::stored_contact_body(current_markdown);
    if !habit_entity_path(path) {
        Some("Habit entity was not found."@)
    } else if first_title_line(crate::text::lines(body), 0) is None {
        Some("Habit entity could not be parsed."@)
    } else if crate::contacts::record_document_id(habit_id) + "::"@ + crate::storage::text_hash(body) != habit_id {
        Some("Habit was changed outside BentoLife."@)
    } else if new_name matches Some(n) && crate::record_text::collapse(n).len() == 0 {
        Some("Habit name is required."@)
    } else {
        None
    }
}

/// The Markdown an entity rewrite writes: the habit read from the file,
/// re-rendered with the cleaned new input and its check-ins, or with the
/// check-in recorded.
pub open spec fn habit_entity_rewritten(
    markdown: Seq<char>,
    change: Option<HabitInput>,
    date: Seq<char>,
    metadata: crate::document_metadata::DocumentMetadata,
    current_markdown: Seq<char>,
) -> bool {
    let ls = crate::text::lines(crate::contacts::stored_contact_body(current_markdown));
    let i = first_title_line(ls, 0)->0;
    exists|f: HabitFields|
        #[trigger] fields_match(
            f,
            crate::text::trim(crate::text::trim(ls[i]).skip(2)),
            ls.subrange(1, ls.len() as int),
            metadata.current_path@,
            true,
            "## Notes"@,
        ) && match change {
            Some(inp) => exists|c: HabitInput|
                #[trigger] cleaned_habit(c, inp) && markdown == crate::markdown_document::managed_markdown(
                    rendered_habit(c, string_views(f.checkins@), "# "@, "## Notes"@, "## Check-ins"@),
                    metadata.document_id@,
                    metadata.frontmatter_contract.required_value@,
                ),
            None => exists|rs: Seq<Seq<char>>|
                #[trigger] checkin_added(rs, string_views(f.checkins@), date) && markdown
                    == crate::markdown_document::managed_markdown(
                    rendered_habit(habit_input_of(f), rs, "# "@, "## Notes"@, "## Check-ins"@),
                    metadata.document_id@,
                    metadata.frontmatter_contract.required_value@,
                ),
        }
}

/// The record at range `k` of a legacy habits body has the given id.
pub open spec fn legacy_habit_has_id(body: Seq<char>, k: int, id: Seq<char>) -> bool {
    let ls = crate::text::lines(body);
    let rg = crate::contacts::record_ranges(ls)[k];
    &&& 0 <= k < crate::contacts::record_ranges(ls).len()
    &&& rg.0 < rg.1 <= ls.len()
    &&& id == "habit_"@ + crate::storage::decimal(rg.0 as nat) + "_"@ + crate::storage::text_hash(
        crate::text::join(ls.subrange(rg.0, rg.1), "\n"@),
    )
}

/// The record at range `k` of a legacy habits body starts with a `## `
/// heading that names it.
pub open spec fn legacy_heading_named(body: Seq<char>, k: int) -> bool {
    let ls = crate::text::lines(body);
    let t = crate::text::trim(ls[crate::contacts::record_ranges(ls)[k].0]);
    crate::text::has_prefix(t, "## "@) && crate::text::trim(t.skip(3)).len() > 0
}

/// The legacy habits body of a document, as a rewrite reads it.
pub open spec fn legacy_habits_body(markdown: Seq<char>) -> Seq<char> {
    normalized_habits_body(crate::contacts::stored_contact_body(markdown))
}

/// A new habit entity, ready to be written.
pub struct NewHabit {
    pub markdown_relative_path: String,
    pub document_id: String,
    pub markdown: String,
    pub document_metadata: crate::document_metadata::DocumentMetadata,
    pub layout_metadata: crate::layout_metadata::LayoutMetadata,
}

fn persist_habit(
    metadata: crate::document_metadata::DocumentMetadata,
    relative_path: &str,
    body: &str,
) -> (r: (crate::document_metadata::DocumentMetadata, String))
    ensures
        r.0.document_type@ == "habit"@,
        r.0.current_path@ == relative_path@,
        r.0.document_id == metadata.document_id,
        r.0.content_hash@ == crate::storage::text_hash(r.1@),
        r.0 == (crate::document_metadata::DocumentMetadata {
            document_type: r.0.document_type,
            current_path: r.0.current_path,
            content_hash: r.0.content_hash,
            updated_at: r.0.updated_at,
            ..metadata
        }),
        r.1@ == crate::markdown_document::managed_markdown(
            body@,
            metadata.document_id@,
            metadata.frontmatter_contract.required_value@,
        ),
{
    let mut metadata = metadata;
    metadata.document_type = owned("habit");
    metadata.current_path = owned(relative_path);
    let managed = crate::markdown_document::MarkdownDocumentService::prepare_managed_markdown(
        body,
        metadata.document_id.as_str(),
        metadata.frontmatter_contract.required_value.as_str(),
    );
    metadata.content_hash = crate::storage::content_hash(managed.as_str());
    metadata.updated_at = crate::storage::current_timestamp_label();
    (metadata, managed)
}

/// The body of the legacy habits document: trimmed with one newline, or a
/// bare heading where it is blank.
pub open spec fn normalized_habits_body(body: Seq<char>) -> Seq<char> {
    let b = crate::text::trim(body);
    if b.len() == 0 {
        "# Habits\n"@
    } else {
        b + "\n"@
    }
}

/// The body of the legacy habits document, normalised.
pub fn normalize_habits_body(body: &str) -> (r: String)
    ensures
        r@ == normalized_habits_body(body@),
{
    let b = crate::text::trim_str(body);
    if b.len() == 0 {
        owned("# Habits\n")
    } else {
        let mut v = b;
        crate::text::append_str(&mut v, "\n");
        crate::text::string_of(v.as_slice())
    }
}

fn check_summary_date(summary_date: Option<&str>) -> (r: Result<(), String>)
    ensures
        match summary_date {
            Some(d) => match day_number_result(d@) {
                Ok(_) => r is Ok,
                Err(e) => r matches Err(x) && x@ == e,
            },
            None => r is Ok,
        },
{
    match summary_date {
        Some(d) => validate_local_date(d),
        None => Ok(()),
    }
}

impl HabitsService {
    /// The habits document for a day: refused for an invalid summary date;
    /// else the habits read (`habits`, from the entity files and the legacy
    /// document), sorted by lowercased name, their summary for the day, and
    /// the index body generated from them.
    pub fn read_habits(
        index_metadata: crate::document_metadata::DocumentMetadata,
        habits: Vec<HabitEntry>,
        legacy_body: &str,
        warnings: Vec<String>,
        summary_date: Option<&str>,
    ) -> (r: Result<HabitDocument, String>)
        ensures
            match summary_date {
                Some(d) => day_number_result(d@) is Err ==> r is Err,
                None => true,
            },
            r matches Ok(doc) ==> {
                &&& doc.document_id@ == index_metadata.document_id@
                &&& doc.habits@.to_multiset() == habits@.to_multiset()
                &&& forall|k: Seq<char>| #[trigger] habits_named(doc.habits@, k) == habits_named(habits@, k)
                &&& forall|a: int, b: int|
                    0 <= a < b < doc.habits@.len() ==> !crate::ordered::text_lt(
                        crate::text::unicode_lowercase(#[trigger] doc.habits@[b].name@),
                        crate::text::unicode_lowercase(#[trigger] doc.habits@[a].name@),
                    )
                &&& doc.markdown_body@ == habits_index_body(doc.habits@, legacy_body@)
                &&& doc.summary.total == habits@.len()
                &&& doc.warnings == warnings
                &&& doc.document_metadata == index_metadata
            },
            (match summary_date {
                Some(d) => day_number_result(d@) is Ok,
                None => true,
            }) ==> r is Ok,
    {
        match check_summary_date(summary_date) {
            Ok(_) => {},
            Err(e) => {
                return Err(e);
            },
        }
        let ghost orig = habits@;
        let sorted = sort_habits(habits);
        let summary = summarize_habits(&sorted, summary_date);
        let body = render_habits_index_body(&sorted, legacy_body);
        proof {
            broadcast use vstd::seq_lib::group_to_multiset_ensures;

            assert(sorted@.to_multiset().len() == orig.to_multiset().len());
        }
        Ok(HabitDocument {
            document_id: index_metadata.document_id.clone(),
            markdown_relative_path: index_metadata.current_path.clone(),
            markdown_body: body,
            habits: sorted,
            summary,
            warnings,
            document_metadata: index_metadata,
            layout_metadata: None,
        })
    }

    /// Makes a new habit entity: refused for an invalid summary date or a
    /// blank name; else the first free path for its name, a new id,
    /// default metadata of type `habit`, the Markdown (with no check-ins)
    /// placed under management, and a layout generated from its headings.
    pub fn create_habit(
        input: HabitInput,
        summary_date: Option<&str>,
        existing_paths: &Vec<String>,
        process_id: u32,
    ) -> (r: Result<NewHabit, String>)
        ensures
            (match summary_date {
                Some(d) => day_number_result(d@) is Err,
                None => false,
            }) ==> r is Err,
            crate::record_text::collapse(input.name@).len() == 0 ==> r is Err,
            match r {
                Ok(h) => habit_create_error(input, summary_date, string_views(existing_paths@)) is None
                    && h.markdown_relative_path@ == first_free_habit_path(input, string_views(existing_paths@))
                    && (exists|c: HabitInput| #[trigger] cleaned_habit(c, input) && h.markdown@
                    == crate::markdown_document::managed_markdown(
                    rendered_habit(c, seq![], "# "@, "## Notes"@, "## Check-ins"@),
                    h.document_id@,
                    crate::document_metadata::metadata_relative(h.document_id@),
                )) && h.document_metadata.content_hash@ == crate::storage::text_hash(h.markdown@)
                    && crate::layout_metadata::generated_cards(
                    h.layout_metadata.cards@,
                    crate::layout_metadata::heading_matches(h.markdown@),
                ),
                Err(e) => habit_create_error(input, summary_date, string_views(existing_paths@)) == Some(e@),
            },
            r matches Ok(h) ==> {
                &&& crate::storage::is_document_id(h.document_id@)
                &&& !string_views(existing_paths@).contains(h.markdown_relative_path@)
                &&& h.document_metadata.document_type@ == "habit"@
                &&& h.document_metadata.current_path@ == h.markdown_relative_path@
            },
    {
        match check_summary_date(summary_date) {
            Ok(_) => {},
            Err(e) => {
                return Err(e);
            },
        }
        let cleaned = match clean_habit_input(input) {
            Ok(c) => c,
            Err(e) => {
                return Err(e);
            },
        };
        let ghost ex = string_views(existing_paths@);
        let ghost slug = habit_slug(input);
        proof {
            reveal_strlit("modules/habits/data/");
            reveal_strlit("untitled-habit");
            reveal_strlit("Unable to find an available Habit filename.");
        }
        let path = match crate::contacts::unique_entity_path(
            "modules/habits/data/",
            cleaned.name.as_str(),
            "untitled-habit",
            "Unable to find an available Habit filename.",
            existing_paths,
        ) {
            Ok(p) => p,
            Err(e) => {
                proof {
                    if exists|i: nat| first_free_habit(slug, ex, i) {
                        let i = choose|i: nat| first_free_habit(slug, ex, i);
                        assert(ex.contains(crate::contacts::entity_candidate("modules/habits/data/"@, slug, i)));
                    }
                }
                return Err(e);
            },
        };
        proof {
            let w = choose|w: nat|
                #![trigger crate::contacts::entity_candidate("modules/habits/data/"@, slug, w)]
                w < 100 && path@ == crate::contacts::entity_candidate("modules/habits/data/"@, slug, w) && !ex.contains(path@)
                    && forall|j: nat| j < w ==> ex.contains(#[trigger] crate::contacts::entity_candidate("modules/habits/data/"@, slug, j));
            assert(first_free_habit(slug, ex, w));
            let i = choose|i: nat| first_free_habit(slug, ex, i);
            if i < w {
                assert(ex.contains(crate::contacts::entity_candidate("modules/habits/data/"@, slug, i)));
            }
            if w < i {
                assert(ex.contains(crate::contacts::entity_candidate("modules/habits/data/"@, slug, w)));
            }
            assert(i == w);
            assert(path@ == first_free_habit_path(input, ex));
        }
        let document_id = crate::storage::generate_document_id(path.as_str(), process_id);
        proof {
            crate::storage::lemma_generated_id_valid(document_id@);
        }
        let none: Vec<String> = Vec::new();
        let body = render_habit_entity(&cleaned, &none);
        assert(string_views(none@) =~= Seq::<Seq<char>>::empty());
        let metadata = match crate::document_metadata::DocumentMetadataService::create_default_with_type(
            document_id.as_str(),
            path.as_str(),
            body.as_str(),
            "habit",
        ) {
            Ok(m) => m,
            Err(e) => {
                return Err(e);
            },
        };
        let (metadata, managed) = persist_habit(metadata, path.as_str(), body.as_str());
        let layout = match crate::layout_metadata::LayoutMetadataService::generate_from_markdown(
            document_id.as_str(),
            managed.as_str(),
        ) {
            Ok(l) => l,
            Err(e) => {
                return Err(e);
            },
        };
        Ok(NewHabit {
            markdown_relative_path: path,
            document_id,
            markdown: managed,
            document_metadata: metadata,
            layout_metadata: layout,
        })
    }

    /// Rewrites a habit, keeping or extending its check-ins.  `change` is the
    /// new input, or none to record a check-in on `checkin_date`.  An entity
    /// id (`bl_doc_...`) names a habit entity file, whose metadata and
    /// current Markdown are given; any other id names a record of the legacy
    /// habits document, whose metadata and Markdown are given.  Refused when
    /// the habit is not found or changed since its id was taken, or for a
    /// blank name.  Returns the metadata and Markdown to write.
    fn rewrite_habit(
        habit_id: &str,
        change: Option<HabitInput>,
        checkin_date: &str,
        metadata: crate::document_metadata::DocumentMetadata,
        current_markdown: &str,
    ) -> (r: Result<(crate::document_metadata::DocumentMetadata, String), String>)
        ensures
            crate::text::has_prefix(habit_id@, "bl_doc_"@) && !habit_entity_path(metadata.current_path@) ==> (r matches Err(
                e,
            ) && e@ == "Habit entity was not found."@),
            r matches Ok(p) ==> p.0.document_type@ == "habit"@ && p.0.document_id == metadata.document_id,
            r matches Ok(p) ==> p.0.content_hash@ == crate::storage::text_hash(p.1@) && p.0.current_path@
                == metadata.current_path@ && p.0 == (crate::document_metadata::DocumentMetadata {
                document_type: p.0.document_type,
                current_path: p.0.current_path,
                content_hash: p.0.content_hash,
                updated_at: p.0.updated_at,
                ..metadata
            }),
            crate::text::has_prefix(habit_id@, "bl_doc_"@) ==> match r {
                Ok(p) => habit_entity_error(habit_id@, change_name(change), metadata.current_path@, current_markdown@) is None
                    && habit_entity_rewritten(p.1@, change, checkin_date@, metadata, current_markdown@),
                Err(e) => habit_entity_error(habit_id@, change_name(change), metadata.current_path@, current_markdown@)
                    == Some(e@),
            },
            !crate::text::has_prefix(habit_id@, "bl_doc_"@) && !(exists|k: int|
                legacy_habit_has_id(legacy_habits_body(current_markdown@), k, habit_id@)) ==> (r matches Err(e) && e@
                == "Habit was not found or was changed outside BentoLife."@),
            !crate::text::has_prefix(habit_id@, "bl_doc_"@) && (exists|k: int|
                legacy_habit_has_id(legacy_habits_body(current_markdown@), k, habit_id@)) && (forall|k: int|
                legacy_habit_has_id(legacy_habits_body(current_markdown@), k, habit_id@) ==> legacy_heading_named(
                    legacy_habits_body(current_markdown@),
                    k,
                )) && (change_name(change) matches Some(n) ==> crate::record_text::collapse(n).len() > 0) ==> r is Ok,
    {
        let hid = chars_of(habit_id);
        let parsed = crate::markdown_document::MarkdownDocumentService::parse_frontmatter(current_markdown);
        let without = crate::document_identity::DocumentIdentityService::remove_identity_comments(parsed.body.as_str());
        if crate::text::starts_with_str(hid.as_slice(), "bl_doc_") {
            if !is_habit_entity_path(metadata.current_path.as_str()) {
                return Err(owned("Habit entity was not found."));
            }
            let fields = match habit_entity_fields(without.as_str(), metadata.current_path.as_str()) {
                Some(f) => f,
                None => {
                    return Err(owned("Habit entity could not be parsed."));
                },
            };
            let ghost fg = fields;
            let ghost chg = change;
            let document_id = crate::contacts::document_id_from_record_id(habit_id);
            let existing = crate::contacts::record_id(document_id.as_str(), without.as_str());
            let ec = chars_of(existing.as_str());
            if !crate::text::seq_eq(ec.as_slice(), hid.as_slice()) {
                return Err(owned("Habit was changed outside BentoLife."));
            }
            let (input, checkins) = match change {
                Some(i) => match clean_habit_input(i) {
                    Ok(c) => (c, fields.checkins),
                    Err(e) => {
                        return Err(e);
                    },
                },
                None => (
                    HabitInput {
                        name: fields.name,
                        frequency: fields.frequency,
                        target: fields.target,
                        tags: fields.tags,
                        relationships: fields.relationships,
                        notes: fields.notes,
                    },
                    with_checkin(&fields.checkins, checkin_date),
                ),
            };
            let rendered = render_habit_entity(&input, &checkins);
            let path = metadata.current_path.clone();
            let ghost md = metadata;
            let res = persist_habit(metadata, path.as_str(), rendered.as_str());
            proof {
                let ls = crate::text::lines(crate::contacts::stored_contact_body(current_markdown@));
                let i = first_title_line(ls, 0)->0;
                assert(fields_match(
                    fg,
                    crate::text::trim(crate::text::trim(ls[i]).skip(2)),
                    ls.subrange(1, ls.len() as int),
                    md.current_path@,
                    true,
                    "## Notes"@,
                ));
                match chg {
                    Some(inp) => {
                        assert(cleaned_habit(input, inp));
                        assert(string_views(checkins@) == string_views(fg.checkins@));
                    },
                    None => {
                        assert(input == habit_input_of(fg));
                        let rs = string_views(checkins@);
                        assert forall|a: int, b: int| 0 <= a < b < rs.len() && !string_views(fg.checkins@).contains(checkin_date@)
                            implies !crate::ordered::text_lt(#[trigger] rs[b], #[trigger] rs[a]) by {
                            assert(rs[b] == checkins@[b]@ && rs[a] == checkins@[a]@);
                        }
                        assert(checkin_added(rs, string_views(fg.checkins@), checkin_date@));
                    },
                }
                assert(habit_entity_rewritten(res.1@, chg, checkin_date@, md, current_markdown@));
            }
            return Ok(res);
        }
        let body = normalize_habits_body(without.as_str());
        let ranges = crate::contacts::contact_ranges(body.as_str());
        let bc = chars_of(body.as_str());
        let ls = crate::text::lines_exec(bc.as_slice());
        let mut found: Option<(usize, usize)> = None;
        let mut k: usize = 0;
        let ghost bv = body@;
        proof {
            reveal_strlit("\n");
        }
        while k < ranges.len()
            invariant_except_break
                found is None,
            invariant
                k <= ranges@.len(),
                bv == body@,
                bv == legacy_habits_body(current_markdown@),
                views(ls@) == crate::text::lines(bv),
                ranges@.len() == crate::contacts::record_ranges(crate::text::lines(bv)).len(),
                forall|q: int| 0 <= q < ranges@.len() ==> (#[trigger] ranges@[q]).0 as int == crate::contacts::record_ranges(
                    crate::text::lines(bv),
                )[q].0 && ranges@[q].1 as int == crate::contacts::record_ranges(crate::text::lines(bv))[q].1,
                hid@ == habit_id@,
                forall|q: int| 0 <= q < k ==> !legacy_habit_has_id(bv, q, habit_id@),
            ensures
                found is None ==> forall|q: int| 0 <= q < ranges@.len() ==> !legacy_habit_has_id(bv, q, habit_id@),
                found is Some ==> legacy_habit_has_id(bv, k as int, habit_id@),
                found matches Some(se) ==> k < ranges@.len() && se.0 as int == crate::contacts::record_ranges(
                    crate::text::lines(bv),
                )[k as int].0 && se.1 as int == crate::contacts::record_ranges(crate::text::lines(bv))[k as int].1,
            decreases ranges@.len() - k,
        {
            let (start, end) = ranges[k];
            if start < end && end <= ls.len() {
                let raw_lines = crate::markdown_parser::raw_lines(&ls, start, end);
                let nl = chars_of("\n");
                let raw = crate::text::join_exec(&raw_lines, nl.as_slice());
                let rs = crate::text::string_of(raw.as_slice());
                let id = habit_id_for_record(start, rs.as_str());
                let ic = chars_of(id.as_str());
                assert(rs@ == crate::text::join(crate::text::lines(bv).subrange(start as int, end as int), "\n"@));
                if crate::text::seq_eq(ic.as_slice(), hid.as_slice()) {
                    assert(legacy_habit_has_id(bv, k as int, habit_id@));
                    found = Some((start, end));
                    break;
                }
                assert(!legacy_habit_has_id(bv, k as int, habit_id@));
            } else {
                let ghost _x = ranges@[k as int];
                assert(!legacy_habit_has_id(bv, k as int, habit_id@));
            }
            k = k + 1;
        }
        proof {
            if found is Some {
                assert(legacy_habit_has_id(bv, k as int, habit_id@));
            }
        }
        let (start, end) = match found {
            Some(r) => r,
            None => {
                proof {
                    if exists|q: int| legacy_habit_has_id(bv, q, habit_id@) {
                        let q = choose|q: int| legacy_habit_has_id(bv, q, habit_id@);
                        assert(0 <= q < ranges@.len());
                    }
                }
                return Err(owned("Habit was not found or was changed outside BentoLife."));
            },
        };
        if !(start < end && end <= ls.len()) {
            return Err(owned("Habit was not found or was changed outside BentoLife."));
        }
        proof {
            assert(legacy_habit_has_id(bv, k as int, habit_id@));
            assert(ls@[start as int]@ == crate::text::lines(bv)[start as int]);
        }
        let fields = match habit_record_fields(&ls, start, end, metadata.current_path.as_str()) {
            Some(f) => f,
            None => {
                proof {
                    assert(!legacy_heading_named(bv, k as int));
                }
                return Err(owned("Habit was not found or was changed outside BentoLife."));
            },
        };
        let (input, checkins) = match change {
            Some(i) => match clean_habit_input(i) {
                Ok(c) => (c, fields.checkins),
                Err(e) => {
                    return Err(e);
                },
            },
            None => (
                HabitInput {
                    name: fields.name,
                    frequency: fields.frequency,
                    target: fields.target,
                    tags: fields.tags,
                    relationships: fields.relationships,
                    notes: fields.notes,
                },
                with_checkin(&fields.checkins, checkin_date),
            ),
        };
        let replacement = render_habit_record(&input, &checkins);
        let new_body = match crate::contacts::replace_record_lines(
            body.as_str(),
            start,
            end,
            replacement.as_str(),
            "Habit source block was not found.",
        ) {
            Ok(b) => b,
            Err(e) => {
                return Err(e);
            },
        };
        let written = normalize_habits_body(new_body.as_str());
        let path = metadata.current_path.clone();
        Ok(persist_habit(metadata, path.as_str(), written.as_str()))
    }

    /// Updates a habit (see `rewrite_habit`), keeping its check-ins; refused
    /// first for an invalid summary date.
    pub fn update_habit(
        habit_id: &str,
        input: HabitInput,
        summary_date: Option<&str>,
        metadata: crate::document_metadata::DocumentMetadata,
        current_markdown: &str,
    ) -> (r: Result<(crate::document_metadata::DocumentMetadata, String), String>)
        ensures
            (match summary_date {
                Some(d) => day_number_result(d@) is Err,
                None => false,
            }) ==> r is Err,
            summary_date_error(summary_date) matches Some(x) ==> (r matches Err(e) && e@ == x),
            r matches Ok(p) ==> p.0.document_type@ == "habit"@ && p.0.document_id == metadata.document_id,
            r matches Ok(p) ==> p.0.content_hash@ == crate::storage::text_hash(p.1@) && p.0.current_path@
                == metadata.current_path@,
            summary_date_error(summary_date) is None && crate::text::has_prefix(habit_id@, "bl_doc_"@) ==> match r {
                Ok(p) => habit_entity_error(habit_id@, Some(input.name@), metadata.current_path@, current_markdown@)
                    is None && habit_entity_rewritten(p.1@, Some(input), ""@, metadata, current_markdown@),
                Err(e) => habit_entity_error(habit_id@, Some(input.name@), metadata.current_path@, current_markdown@)
                    == Some(e@),
            },
            summary_date_error(summary_date) is None && !crate::text::has_prefix(habit_id@, "bl_doc_"@) && !(exists|
                k: int|
                legacy_habit_has_id(legacy_habits_body(current_markdown@), k, habit_id@)) ==> (r matches Err(e) && e@
                == "Habit was not found or was changed outside BentoLife."@),
            summary_date_error(summary_date) is None && !crate::text::has_prefix(habit_id@, "bl_doc_"@) && (exists|
                k: int|
                legacy_habit_has_id(legacy_habits_body(current_markdown@), k, habit_id@)) && (forall|k: int|
                legacy_habit_has_id(legacy_habits_body(current_markdown@), k, habit_id@) ==> legacy_heading_named(
                    legacy_habits_body(current_markdown@),
                    k,
                )) && crate::record_text::collapse(input.name@).len() > 0 ==> r is Ok,
    {
        proof {
            reveal_strlit("");
        }
        match check_summary_date(summary_date) {
            Ok(_) => {},
            Err(e) => {
                return Err(e);
            },
        }
        Self::rewrite_habit(habit_id, Some(input), "", metadata, current_markdown)
    }

    /// Records a check-in on a date (see `rewrite_habit`); refused first for
    /// an invalid date.
    pub fn record_checkin(
        habit_id: &str,
        date: &str,
        metadata: crate::document_metadata::DocumentMetadata,
        current_markdown: &str,
    ) -> (r: Result<(crate::document_metadata::DocumentMetadata, String), String>)
        ensures
            day_number_result(date@) is Err ==> r is Err,
            day_number_result(date@) matches Err(x) ==> (r matches Err(e) && e@ == x),
            r matches Ok(p) ==> p.0.document_type@ == "habit"@ && p.0.document_id == metadata.document_id,
            r matches Ok(p) ==> p.0.content_hash@ == crate::storage::text_hash(p.1@) && p.0.current_path@
                == metadata.current_path@,
            day_number_result(date@) is Ok && crate::text::has_prefix(habit_id@, "bl_doc_"@) ==> match r {
                Ok(p) => habit_entity_error(habit_id@, None, metadata.current_path@, current_markdown@) is None
                    && habit_entity_rewritten(p.1@, None, date@, metadata, current_markdown@),
                Err(e) => habit_entity_error(habit_id@, None, metadata.current_path@, current_markdown@) == Some(e@),
            },
            day_number_result(date@) is Ok && !crate::text::has_prefix(habit_id@, "bl_doc_"@) && !(exists|k: int|
                legacy_habit_has_id(legacy_habits_body(current_markdown@), k, habit_id@)) ==> (r matches Err(e) && e@
                == "Habit was not found or was changed outside BentoLife."@),
            day_number_result(date@) is Ok && !crate::text::has_prefix(habit_id@, "bl_doc_"@) && (exists|k: int|
                legacy_habit_has_id(legacy_habits_body(current_markdown@), k, habit_id@)) && (forall|k: int|
                legacy_habit_has_id(legacy_habits_body(current_markdown@), k, habit_id@) ==> legacy_heading_named(
                    legacy_habits_body(current_markdown@),
                    k,
                )) ==> r is Ok,
    {
        match validate_local_date(date) {
            Ok(_) => {},
            Err(e) => {
                return Err(e);
            },
        }
        Self::rewrite_habit(habit_id, None, date, metadata, current_markdown)
    }
}

/// The line ranges of the habit records of a legacy habits body: from each
/// line that, trimmed, starts with `## ` to the next such line or the end.
pub fn habit_ranges(markdown_body: &str) -> (r: Vec<(usize, usize)>)
    ensures
        r@.len() == crate::contacts::record_ranges(crate::text::lines(markdown_body@)).len(),
        forall|k: int| 0 <= k < r@.len() ==> (#[trigger] r@[k]).0 as int == crate::contacts::record_ranges(
            crate::text::lines(markdown_body@),
        )[k].0 && r@[k].1 as int == crate::contacts::record_ranges(crate::text::lines(markdown_body@))[k].1,
{
    crate::contacts::contact_ranges(markdown_body)
}

/// The fields map of a habit's parsed entity: the fields of its Markdown,
/// with the habit's own fields set over them.
pub open spec fn habit_field_map(
    raw: Seq<char>,
    name: Seq<char>,
    frequency: Option<Seq<char>>,
    target: Option<Seq<char>>,
    notes: Option<Seq<char>>,
    checkins: Seq<Seq<char>>,
    relationships: Seq<Seq<char>>,
) -> Map<Seq<char>, Seq<char>> {
    let base = crate::markdown_parser::parsed_fields(raw).insert("name"@, name).insert("title"@, name);
    let m = crate::contacts::insert_opt(
        crate::contacts::insert_opt(crate::contacts::insert_opt(base, "frequency"@, frequency), "target"@, target),
        "notes"@,
        notes,
    );
    let m2 = if checkins.len() > 0 {
        m.insert("checkins"@, crate::text::join(checkins, ", "@))
    } else {
        m
    };
    if relationships.len() > 0 {
        m2.insert("relationships"@, crate::text::join(relationships, ", "@))
    } else {
        m2
    }
}

/// What a habit entry's parsed entity holds: its Markdown parsed as a
/// `habit` of the habits module at the source path, with the entry's
/// fields, tags and relationships, and the schema's descriptors; and what
/// its schema warnings are, given the warnings about the source after
/// reading.
pub open spec fn habit_entry_entity(
    h: HabitEntry,
    source: Seq<char>,
    schema: Result<crate::module_schema::ModuleSchema, String>,
    warnings_after: Seq<Seq<char>>,
) -> bool {
    let e = h.parsed_entity;
    let p = crate::markdown_parser::parse_spec(h.raw_markdown@);
    let fm = habit_field_map(
        h.raw_markdown@,
        h.name@,
        opt_string_view(h.frequency),
        opt_string_view(h.target),
        opt_string_view(h.notes),
        string_views(h.checkins@),
        string_views(h.relationships@),
    );
    &&& opt_string_view(e.module_id) == Some("habits"@)
    &&& opt_string_view(e.entity_type) == Some("habit"@)
    &&& e.path@ == source
    &&& e.content_hash@ == crate::storage::text_hash(h.raw_markdown@)
    &&& crate::keyed::text_map(e.fields@) == fm
    &&& string_views(e.tags@) == if p.tags.len() == 0 {
        string_views(h.tags@)
    } else {
        p.tags
    }
    &&& string_views(e.relationships@) == if h.relationships@.len() > 0 {
        string_views(h.relationships@)
    } else if p.relationships.len() > 0 {
        p.relationships
    } else {
        crate::contacts::relationship_values_of(fm)
    }
    &&& crate::module_schema::descriptors_applied(e, schema)
    &&& string_views(h.schema_warnings@) == crate::module_schema::schema_warnings_for(e, schema, "habits"@, "habit"@)
        + crate::contacts::warnings_for(warnings_after, source)
}

/// An entry read from lines: its fields as the scan of its body gives them
/// (notes completed, check-ins sorted, each once), and its parsed entity.
pub open spec fn habit_entry_read(
    h: HabitEntry,
    name: Seq<char>,
    body: Seq<Seq<char>>,
    source: Seq<char>,
    entity: bool,
    notes_heading: Seq<char>,
    schema: Result<crate::module_schema::ModuleSchema, String>,
    warnings_after: Seq<Seq<char>>,
) -> bool {
    let st = scan_lines(body, source, entity);
    &&& h.name@ == name
    &&& opt_string_view(h.frequency) == st.frequency
    &&& opt_string_view(h.target) == st.target
    &&& string_views(h.tags@) == st.tags
    &&& string_views(h.relationships@) == st.relationships
    &&& opt_string_view(h.notes) == final_notes(st, body, notes_heading)
    &&& sorted_texts(string_views(h.checkins@))
    &&& string_views(h.checkins@).to_set() == st.checkins.to_set()
    &&& habit_entry_entity(h, source, schema, warnings_after)
}

/// The parsed entity of a habit (`parsed_habit_payload`): its Markdown
/// parsed as a `habit` of the habits module, with its path and hash, the
/// habit's fields set, its tags where the Markdown gave none, its
/// relationships (or those its fields name), and the descriptors and
/// warnings of the habits schema (`schema` is the outcome of loading it).
pub fn parsed_habit_payload(
    raw_markdown: &str,
    source_path: &str,
    f: &HabitFields,
    schema: Result<crate::module_schema::ModuleSchema, String>,
) -> (r: (crate::markdown_parser::ParsedEntityContract, Vec<String>))
    ensures
        opt_string_view(r.0.module_id) == Some("habits"@),
        opt_string_view(r.0.entity_type) == Some("habit"@),
        r.0.path@ == source_path@,
        r.0.content_hash@ == crate::storage::text_hash(raw_markdown@),
        crate::keyed::text_map(r.0.fields@) == habit_field_map(
            raw_markdown@,
            f.name@,
            opt_string_view(f.frequency),
            opt_string_view(f.target),
            opt_string_view(f.notes),
            string_views(f.checkins@),
            string_views(f.relationships@),
        ),
        string_views(r.0.tags@) == if crate::markdown_parser::parse_spec(raw_markdown@).tags.len() == 0 {
            string_views(f.tags@)
        } else {
            crate::markdown_parser::parse_spec(raw_markdown@).tags
        },
        string_views(r.0.relationships@) == if f.relationships@.len() > 0 {
            string_views(f.relationships@)
        } else if crate::markdown_parser::parse_spec(raw_markdown@).relationships.len() > 0 {
            crate::markdown_parser::parse_spec(raw_markdown@).relationships
        } else {
            crate::contacts::relationship_values_of(
                habit_field_map(
                    raw_markdown@,
                    f.name@,
                    opt_string_view(f.frequency),
                    opt_string_view(f.target),
                    opt_string_view(f.notes),
                    string_views(f.checkins@),
                    string_views(f.relationships@),
                ),
            )
        },
        crate::module_schema::descriptors_applied(r.0, schema),
        string_views(r.1@) == crate::module_schema::schema_warnings_for(r.0, schema, "habits"@, "habit"@),
{
    let mut entity = crate::markdown_parser::MarkdownParser::parse(raw_markdown);
    entity.module_id = Some(owned("habits"));
    entity.entity_type = Some(owned("habit"));
    entity.path = owned(source_path);
    entity.content_hash = crate::storage::content_hash(raw_markdown);
    let mut fs = entity.fields;
    fs = crate::keyed::upsert_text(fs, owned("name"), f.name.clone());
    fs = crate::keyed::upsert_text(fs, owned("title"), f.name.clone());
    fs = crate::contacts::upsert_opt(fs, "frequency", &f.frequency);
    fs = crate::contacts::upsert_opt(fs, "target", &f.target);
    fs = crate::contacts::upsert_opt(fs, "notes", &f.notes);
    if f.checkins.len() > 0 {
        let j = crate::contacts::join_strings(&f.checkins, ", ");
        fs = crate::keyed::upsert_text(fs, owned("checkins"), crate::text::string_of(j.as_slice()));
    }
    if entity.tags.len() == 0 {
        entity.tags = f.tags.clone();
        assert(string_views(entity.tags@) =~= string_views(f.tags@));
    }
    if f.relationships.len() > 0 {
        let j = crate::contacts::join_strings(&f.relationships, ", ");
        fs = crate::keyed::upsert_text(fs, owned("relationships"), crate::text::string_of(j.as_slice()));
        entity.relationships = f.relationships.clone();
        assert(string_views(entity.relationships@) =~= string_views(f.relationships@));
    }
    let ghost fm = habit_field_map(
        raw_markdown@,
        f.name@,
        opt_string_view(f.frequency),
        opt_string_view(f.target),
        opt_string_view(f.notes),
        string_views(f.checkins@),
        string_views(f.relationships@),
    );
    assert(crate::keyed::text_map(fs@) =~= fm);
    if entity.relationships.len() == 0 {
        let rel = match crate::keyed::lookup(&fs, "relationships") {
            Some(v) => Some(v),
            None => crate::keyed::lookup(&fs, "related"),
        };
        proof {
            reveal_strlit("relationships");
            reveal_strlit("related");
        }
        entity.relationships = match rel {
            Some(v) => crate::contacts::comma_values_exec(v.as_str()),
            None => Vec::new(),
        };
        assert(string_views(entity.relationships@) =~= crate::contacts::relationship_values_of(crate::keyed::text_map(fs@)));
    }
    entity.fields = fs;
    let ghost sch = schema;
    let ghost pre = entity;
    proof {
        reveal_strlit("habits");
        reveal_strlit("habit");
    }
    let warnings = match crate::module_schema::apply_schema_descriptors(schema, &mut entity) {
        Ok(w) => w,
        Err(e) => {
            let mut v: Vec<String> = Vec::new();
            let mut m = chars_of("Habit schema could not be applied: ");
            crate::text::append_str(&mut m, e.as_str());
            v.push(crate::text::string_of(m.as_slice()));
            v
        },
    };
    proof {
        if let Ok(sv) = sch {
            assert(forall|x: crate::module_schema::ModuleSchemaField|
                crate::module_schema::schema_descriptor(x, pre) == crate::module_schema::schema_descriptor(x, entity));
            assert(sv.fields@.map_values(|x: crate::module_schema::ModuleSchemaField| crate::module_schema::schema_descriptor(x, pre))
                =~= sv.fields@.map_values(|x: crate::module_schema::ModuleSchemaField| crate::module_schema::schema_descriptor(x, entity)));
        }
    }
    (entity, warnings)
}

fn habit_entry_of(
    f: HabitFields,
    habit_id: String,
    line_index: usize,
    raw_markdown: String,
    source_path: &str,
    schema: Result<crate::module_schema::ModuleSchema, String>,
    warnings: &mut Vec<String>,
) -> (r: HabitEntry)
    ensures
        string_views(final(warnings)@) == string_views(old(warnings)@) + string_views(f.warnings@),
        r.habit_id == habit_id,
        r.name == f.name,
        r.frequency == f.frequency,
        r.target == f.target,
        r.tags == f.tags,
        r.relationships == f.relationships,
        r.notes == f.notes,
        r.checkins == f.checkins,
        r.line_index == line_index,
        r.raw_markdown == raw_markdown,
        habit_entry_entity(r, source_path@, schema, string_views(final(warnings)@)),
{
    let (entity, schema_warnings) = parsed_habit_payload(raw_markdown.as_str(), source_path, &f, schema);
    let ghost before = string_views(warnings@);
    let mut i: usize = 0;
    while i < f.warnings.len()
        invariant
            i <= f.warnings@.len(),
            string_views(warnings@) == before + string_views(f.warnings@).take(i as int),
        decreases f.warnings@.len() - i,
    {
        let ghost b = string_views(warnings@);
        warnings.push(f.warnings[i].clone());
        assert(string_views(warnings@) =~= b.push(f.warnings@[i as int]@));
        assert(string_views(f.warnings@).take(i + 1) =~= string_views(f.warnings@).take(i as int).push(f.warnings@[i as int]@));
        i = i + 1;
    }
    assert(string_views(f.warnings@).take(i as int) =~= string_views(f.warnings@));
    let mut sw = schema_warnings;
    let ghost sw0 = string_views(sw@);
    let mut mine = crate::contacts::entry_warnings(warnings, source_path);
    let ghost mine0 = string_views(mine@);
    sw.append(&mut mine);
    assert(string_views(sw@) =~= sw0 + mine0);
    HabitEntry {
        habit_id,
        name: f.name,
        frequency: f.frequency,
        target: f.target,
        tags: f.tags,
        relationships: f.relationships,
        notes: f.notes,
        checkins: f.checkins,
        line_index,
        raw_markdown,
        parsed_entity: entity,
        schema_warnings: sw,
    }
}

/// The habit of an entity file's body: none without a `# ` name (the
/// warnings then untouched); else its fields as the lines after the first
/// give them, its raw Markdown the trimmed body and a newline, line 0, an
/// id made of the document id and the hash of the body, its parsed entity,
/// and the warnings of the scan added to `warnings`.
pub fn parse_habit_entity(
    markdown_body: &str,
    document_id: &str,
    source_path: &str,
    schema: Result<crate::module_schema::ModuleSchema, String>,
    warnings: &mut Vec<String>,
) -> (r: Option<HabitEntry>)
    ensures
        ({
            let ls = crate::text::lines(markdown_body@);
            match first_title_line(ls, 0) {
                None => r is None && final(warnings)@ == old(warnings)@,
                Some(i) => r matches Some(h) && habit_entry_read(
                    h,
                    crate::text::trim(crate::text::trim(ls[i]).skip(2)),
                    ls.subrange(1, ls.len() as int),
                    source_path@,
                    true,
                    "## Notes"@,
                    schema,
                    string_views(final(warnings)@),
                ) && h.raw_markdown@ == crate::text::trim(markdown_body@) + "\n"@ && h.line_index == 0
                    && h.habit_id@ == document_id@ + "::"@ + crate::storage::text_hash(markdown_body@)
                    && string_views(final(warnings)@) == string_views(old(warnings)@) + scan_lines(
                    ls.subrange(1, ls.len() as int),
                    source_path@,
                    true,
                ).warnings,
            }
        }),
{
    let f = match habit_entity_fields(markdown_body, source_path) {
        Some(f) => f,
        None => {
            return None;
        },
    };
    let t = crate::text::trim_str(markdown_body);
    let mut raw = t;
    crate::text::append_str(&mut raw, "\n");
    let id = crate::contacts::record_id(document_id, markdown_body);
    Some(habit_entry_of(f, id, 0, crate::text::string_of(raw.as_slice()), source_path, schema, warnings))
}

/// The habit of the record spanning lines `start` to `end` of the legacy
/// habits document: none without a `## ` name (the warnings then
/// untouched); else its fields as its other lines give them, its raw
/// Markdown its lines and a newline, its line, an id made of its line and
/// the hash of its lines, its parsed entity, and the warnings of the scan
/// added to `warnings`.
pub fn parse_habit_record(
    markdown_body: &str,
    start: usize,
    end: usize,
    source_path: &str,
    schema: Result<crate::module_schema::ModuleSchema, String>,
    warnings: &mut Vec<String>,
) -> (r: Option<HabitEntry>)
    requires
        start < end <= crate::text::lines(markdown_body@).len(),
    ensures
        ({
            let ls = crate::text::lines(markdown_body@);
            let t = crate::text::trim(ls[start as int]);
            let joined = crate::text::join(ls.subrange(start as int, end as int), "\n"@);
            if crate::text::has_prefix(t, "## "@) && crate::text::trim(t.skip(3)).len() > 0 {
                r matches Some(h) && habit_entry_read(
                    h,
                    crate::text::trim(t.skip(3)),
                    ls.subrange(start + 1, end as int),
                    source_path@,
                    false,
                    "### Notes"@,
                    schema,
                    string_views(final(warnings)@),
                ) && h.raw_markdown@ == joined + "\n"@ && h.line_index == start && h.habit_id@ == "habit_"@
                    + crate::storage::decimal(start as nat) + "_"@ + crate::storage::text_hash(
                    crate::text::trim_end_by(joined, crate::text::Strip::Whitespace),
                ) && string_views(final(warnings)@) == string_views(old(warnings)@) + scan_lines(
                    ls.subrange(start + 1, end as int),
                    source_path@,
                    false,
                ).warnings
            } else {
                r is None && final(warnings)@ == old(warnings)@
            }
        }),
{
    let c = chars_of(markdown_body);
    let ls = crate::text::lines_exec(c.as_slice());
    let f = match habit_record_fields(&ls, start, end, source_path) {
        Some(f) => f,
        None => {
            return None;
        },
    };
    let raw_lines = crate::markdown_parser::raw_lines(&ls, start, end);
    let nl = chars_of("\n");
    let joined = crate::text::join_exec(&raw_lines, nl.as_slice());
    let trimmed = crate::text::trim_end_exec(joined.as_slice(), crate::text::Strip::Whitespace);
    let ts = crate::text::string_of(trimmed.as_slice());
    let id = habit_id_for_record(start, ts.as_str());
    let mut raw = joined;
    crate::text::append_str(&mut raw, "\n");
    Some(habit_entry_of(f, id, start, crate::text::string_of(raw.as_slice()), source_path, schema, warnings))
}

} // verus!

verus! {

/// Law: outside the check-ins, a `- Relationships: v` (or `- Related: v`)
/// line sets the habit's relationships to the cleaned comma-separated items
/// of `v`, and leaves its other fields, check-ins and warnings as they
/// were.
pub proof fn law_habit_relationships_line(st: HabitScan, line: Seq<char>, source: Seq<char>, entity: bool, v: Seq<char>)
    requires
        !st.in_checkins,
        !checkins_heading(crate::text::trim(line), entity),
        crate::record_text::field_line(line) == Some(("relationships"@, v)) || crate::record_text::field_line(line)
            == Some(("related"@, v)),
    ensures
        scan_step(st, line, source, entity).relationships == crate::record_text::clean_list(v),
        scan_step(st, line, source, entity).frequency == st.frequency,
        scan_step(st, line, source, entity).target == st.target,
        scan_step(st, line, source, entity).tags == st.tags,
        scan_step(st, line, source, entity).notes == st.notes,
        scan_step(st, line, source, entity).checkins == st.checkins,
        scan_step(st, line, source, entity).warnings == st.warnings,
{
    reveal_strlit("relationships");
    reveal_strlit("related");
    reveal_strlit("frequency");
    reveal_strlit("target");
    reveal_strlit("tags");
    reveal_strlit("notes");
    reveal_strlit("streak");
}

/// Law: reading a habit whose lines end with a `- Relationships: v` (or
/// `- Related: v`) line before any check-ins heading gives the cleaned
/// items of `v` as its relationships.
pub proof fn law_habit_relationships_read(ls: Seq<Seq<char>>, line: Seq<char>, source: Seq<char>, entity: bool, v: Seq<char>)
    requires
        !scan_lines(ls, source, entity).in_checkins,
        !checkins_heading(crate::text::trim(line), entity),
        crate::record_text::field_line(line) == Some(("relationships"@, v)) || crate::record_text::field_line(line)
            == Some(("related"@, v)),
    ensures
        scan_lines(ls.push(line), source, entity).relationships == crate::record_text::clean_list(v),
{
    assert(ls.push(line).drop_last() =~= ls);
    law_habit_relationships_line(scan_lines(ls, source, entity), line, source, entity, v);
}

} // verus!

verus! {

/// Law: outside the check-ins, each known field line of a habit sets that
/// field from its value (frequency and target cleaned, tags as cleaned
/// comma-separated items, notes as cleaned Markdown), a `Streak` line
/// changes nothing, and any other field line adds one warning naming the
/// field and changes nothing else.
pub proof fn law_habit_field_lines(st: HabitScan, line: Seq<char>, source: Seq<char>, entity: bool, k: Seq<char>, v: Seq<char>)
    requires
        !st.in_checkins,
        !checkins_heading(crate::text::trim(line), entity),
        crate::record_text::field_line(line) == Some((k, v)),
    ensures
        k == "frequency"@ ==> scan_step(st, line, source, entity) == (HabitScan {
            frequency: crate::record_text::clean_optional_string(v),
            ..st
        }),
        k == "target"@ ==> scan_step(st, line, source, entity) == (HabitScan {
            target: crate::record_text::clean_optional_string(v),
            ..st
        }),
        k == "tags"@ ==> scan_step(st, line, source, entity) == (HabitScan { tags: crate::record_text::clean_list(v), ..st }),
        k == "notes"@ ==> scan_step(st, line, source, entity) == (HabitScan {
            notes: crate::record_text::clean_optional_markdown(v),
            ..st
        }),
        k == "streak"@ ==> scan_step(st, line, source, entity) == st,
        k != "frequency"@ && k != "target"@ && k != "tags"@ && k != "relationships"@ && k != "related"@ && k
            != "notes"@ && k != "streak"@ ==> scan_step(st, line, source, entity) == (HabitScan {
            warnings: st.warnings.push(source + ": unknown habit field '"@ + k + "' remains visible in Markdown."@),
            ..st
        }),
{
    reveal_strlit("frequency");
    reveal_strlit("target");
    reveal_strlit("tags");
    reveal_strlit("relationships");
    reveal_strlit("related");
    reveal_strlit("notes");
    reveal_strlit("streak");
    if k == "streak"@ {
        assert(("streak"@)[0] != ("target"@)[0]);
        assert(("streak"@).len() != ("notes"@).len());
        assert(k != "frequency"@ && k != "target"@ && k != "tags"@ && k != "relationships"@ && k != "related"@
            && k != "notes"@);
    }
}

/// Law: within the check-ins, a `- date` (or `* date`) item adds the date
/// when it is a valid local date and otherwise adds one warning naming it;
/// nothing else changes.
pub proof fn law_habit_checkin_items(st: HabitScan, line: Seq<char>, source: Seq<char>, entity: bool, d: Seq<char>)
    requires
        st.in_checkins,
        !checkins_heading(crate::text::trim(line), entity),
        checkin_item(crate::text::trim(line)) == Some(d),
    ensures
        day_number_result(d) is Ok ==> scan_step(st, line, source, entity) == (HabitScan {
            checkins: st.checkins.push(d),
            ..st
        }),
        day_number_result(d) is Err ==> scan_step(st, line, source, entity) == (HabitScan {
            warnings: st.warnings.push(source + ": invalid habit check-in date '"@ + d + "' remains visible in Markdown."@),
            ..st
        }),
{
}

} // verus!
