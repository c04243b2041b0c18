//! The cron line handed to the scheduling trigger.
//!
//! The pipeline is scheduled two minutes from the moment of deployment, at
//! the current date: minute, hour, day and month, each as two decimal
//! digits, and a wildcard weekday. Only reading the clock is outside work;
//! turning its parts into the cron line is verified.

use vstd::prelude::*;

verus! {

/// The character of one decimal digit.
pub open spec fn digit_char(d: int) -> char {
    if d == 0 {
        '0'
    } else if d == 1 {
        '1'
    } else if d == 2 {
        '2'
    } else if d == 3 {
        '3'
    } else if d == 4 {
        '4'
    } else if d == 5 {
        '5'
    } else if d == 6 {
        '6'
    } else if d == 7 {
        '7'
    } else if d == 8 {
        '8'
    } else {
        '9'
    }
}

/// A number under one hundred, as two decimal digits.
pub open spec fn two_digits(n: int) -> Seq<char> {
    seq![digit_char(n / 10), digit_char(n % 10)]
}

/// The cron line for the parts of a moment: two minutes past the given
/// time, on the given day and month, any weekday.
pub open spec fn cron_line_spec(minute: int, hour: int, day: int, month: int) -> Seq<char> {
    two_digits(minute + 2) + seq![' '] + two_digits(hour) + seq![' '] + two_digits(day) + seq![' ']
        + two_digits(month) + seq![' ', '*']
}

fn digit_str(d: u32) -> (r: &'static str)
    requires
        d < 10,
    ensures
        r@ == seq![digit_char(d as int)],
{
    if d == 0 {
        proof {
            reveal_strlit("0");
            assert("0"@ =~= seq![digit_char(0)]);
        }
        "0"
    } else if d == 1 {
        proof {
            reveal_strlit("1");
            assert("1"@ =~= seq![digit_char(1)]);
        }
        "1"
    } else if d == 2 {
        proof {
            reveal_strlit("2");
            assert("2"@ =~= seq![digit_char(2)]);
        }
        "2"
    } else if d == 3 {
        proof {
            reveal_strlit("3");
            assert("3"@ =~= seq![digit_char(3)]);
        }
        "3"
    } else if d == 4 {
        proof {
            reveal_strlit("4");
            assert("4"@ =~= seq![digit_char(4)]);
        }
        "4"
    } else if d == 5 {
        proof {
            reveal_strlit("5");
            assert("5"@ =~= seq![digit_char(5)]);
        }
        "5"
    } else if d == 6 {
        proof {
            reveal_strlit("6");
            assert("6"@ =~= seq![digit_char(6)]);
        }
        "6"
    } else if d == 7 {
        proof {
            reveal_strlit("7");
            assert("7"@ =~= seq![digit_char(7)]);
        }
        "7"
    } else if d == 8 {
        proof {
            reveal_strlit("8");
            assert("8"@ =~= seq![digit_char(8)]);
        }
        "8"
    } else {
        proof {
            reveal_strlit("9");
            assert("9"@ =~= seq![digit_char(9)]);
        }
        "9"
    }
}

fn push_two_digits(s: &mut String, n: u32)
    requires
        n < 100,
    ensures
        final(s)@ == old(s)@ + two_digits(n as int),
{
    s.append(digit_str(n / 10));
    s.append(digit_str(n % 10));
    proof {
        assert(s@ =~= old(s)@ + two_digits(n as int));
    }
}

/// Formats the cron line for the given parts of a moment: minute plus two,
/// hour, day and month, each two digits, then the wildcard weekday.
pub fn cron_line(minute: u32, hour: u32, day: u32, month: u32) -> (r: String)
    requires
        minute < 60,
        hour < 24,
        1 <= day <= 31,
        1 <= month <= 12,
    ensures
        r@ == cron_line_spec(minute as int, hour as int, day as int, month as int),
{
    let mut s = String::new();
    push_two_digits(&mut s, minute + 2);
    s.append(" ");
    push_two_digits(&mut s, hour);
    s.append(" ");
    push_two_digits(&mut s, day);
    s.append(" ");
    push_two_digits(&mut s, month);
    s.append(" *");
    proof {
        reveal_strlit(" ");
        reveal_strlit(" *");
        assert(" "@ =~= seq![' ']);
        assert(" *"@ =~= seq![' ', '*']);
        assert(s@ =~= cron_line_spec(minute as int, hour as int, day as int, month as int));
    }
    s
}

/// Relies on chrono's `Local::now` and its `Timelike` and `Datelike`
/// accessors: whatever moment the clock reads, the minute is 0 to 59, the
/// hour 0 to 23, the day 1 to 31 and the month 1 to 12.
#[verifier::external_body]
fn local_now_parts() -> (r: (u32, u32, u32, u32))
    ensures
        r.0 < 60,
        r.1 < 24,
        1 <= r.2 <= 31,
        1 <= r.3 <= 12,
{
    let now = chrono::Local::now();
    (
        chrono::Timelike::minute(&now),
        chrono::Timelike::hour(&now),
        chrono::Datelike::day(&now),
        chrono::Datelike::month(&now),
    )
}

/// The cron line for the next run: two minutes from now, at today's date.
pub fn get_cron_time_with_date() -> (r: String)
    ensures
        exists|m: int, h: int, d: int, mo: int|
            0 <= m < 60 && 0 <= h < 24 && 1 <= d <= 31 && 1 <= mo <= 12 && r@ == cron_line_spec(
                m,
                h,
                d,
                mo,
            ),
{
    let (minute, hour, day, month) = local_now_parts();
    let r = cron_line(minute, hour, day, month);
    proof {
        assert(r@ == cron_line_spec(minute as int, hour as int, day as int, month as int));
    }
    r
}

} // verus!
