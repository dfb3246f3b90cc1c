use vstd::prelude::*;
use vstd::string::StringExecFns;

verus! {

pub open spec fn digit_char(d: nat) -> char {
    if d == 0 {
        '0'
    } else if d == 1 {
        '1'
    } else if d == 2 {
        '2'
    } else if d == 3 {
        '3'
    } else if d == 4 {
        '4'
    } else if d == 5 {
        '5'
    } else if d == 6 {
        '6'
    } else if d == 7 {
        '7'
    } else if d == 8 {
        '8'
    } else {
        '9'
    }
}

/// The decimal digits of `n`, without leading zeros.
pub open spec fn decimal(n: nat) -> Seq<char>
    decreases n,
{
    if n < 10 {
        seq![digit_char(n)]
    } else {
        decimal(n / 10) + seq![digit_char(n % 10)]
    }
}

pub const MS_PER_WEEK: u64 = 604_800_000;
pub const MS_PER_DAY: u64 = 86_400_000;
pub const MS_PER_HOUR: u64 = 3_600_000;
pub const MS_PER_MINUTE: u64 = 60_000;
pub const MS_PER_SECOND: u64 = 1000;

/// `part` when `shown` holds, else nothing.
pub open spec fn shown_if(shown: bool, part: Seq<char>) -> Seq<char> {
    if shown {
        part
    } else {
        Seq::empty()
    }
}

/// A duration broken into weeks, days, hours, minutes, seconds and
/// milliseconds. The largest unit with a non-zero value leads, every smaller
/// unit follows, and the milliseconds always end it: `1m 30s 0ms`.
pub open spec fn listen_time_text(ms: nat) -> Seq<char> {
    let weeks = ms / MS_PER_WEEK as nat;
    let days = ms % MS_PER_WEEK as nat / MS_PER_DAY as nat;
    let hours = ms % MS_PER_DAY as nat / MS_PER_HOUR as nat;
    let minutes = ms % MS_PER_HOUR as nat / MS_PER_MINUTE as nat;
    let seconds = ms % MS_PER_MINUTE as nat / MS_PER_SECOND as nat;
    let millis = ms % MS_PER_SECOND as nat;
    let show_weeks = weeks != 0;
    let show_days = show_weeks || days != 0;
    let show_hours = show_days || hours != 0;
    let show_minutes = show_hours || minutes != 0;
    let show_seconds = show_minutes || seconds != 0;
    shown_if(show_weeks, decimal(weeks) + "w "@) + shown_if(show_days, decimal(days) + "d "@)
        + shown_if(show_hours, decimal(hours) + "h "@) + shown_if(
        show_minutes,
        decimal(minutes) + "m "@,
    ) + shown_if(show_seconds, decimal(seconds) + "s "@) + decimal(millis) + "ms"@
}

fn digit_str(d: u64) -> (r: &'static str)
    requires
        d < 10,
    ensures
        r@ == seq![digit_char(d as nat)],
{
    if d == 0 {
        proof {
            reveal_strlit("0");
        }
        "0"
    } else if d == 1 {
        proof {
            reveal_strlit("1");
        }
        "1"
    } else if d == 2 {
        proof {
            reveal_strlit("2");
        }
        "2"
    } else if d == 3 {
        proof {
            reveal_strlit("3");
        }
        "3"
    } else if d == 4 {
        proof {
            reveal_strlit("4");
        }
        "4"
    } else if d == 5 {
        proof {
            reveal_strlit("5");
        }
        "5"
    } else if d == 6 {
        proof {
            reveal_strlit("6");
        }
        "6"
    } else if d == 7 {
        proof {
            reveal_strlit("7");
        }
        "7"
    } else if d == 8 {
        proof {
            reveal_strlit("8");
        }
        "8"
    } else {
        proof {
            reveal_strlit("9");
        }
        "9"
    }
}

/// Appends the decimal digits of `n` to `s`.
pub fn push_decimal(s: &mut String, n: u64)
    ensures
        final(s)@ == old(s)@ + decimal(n as nat),
    decreases n,
{
    if n >= 10 {
        push_decimal(s, n / 10);
    }
    s.append(digit_str(n % 10));
    proof {
        if n >= 10 {
            assert(old(s)@ + decimal(n as nat) =~= old(s)@ + decimal((n / 10) as nat) + seq![
                digit_char((n % 10) as nat),
            ]);
        }
    }
}

/// Appends `n` in decimal followed by `unit` when `shown` holds.
fn push_part(s: &mut String, shown: bool, n: u64, unit: &str)
    ensures
        final(s)@ == old(s)@ + shown_if(shown, decimal(n as nat) + unit@),
{
    if shown {
        push_decimal(s, n);
        s.append(unit);
        assert(final(s)@ =~= old(s)@ + (decimal(n as nat) + unit@));
    } else {
        assert(s@ =~= old(s)@ + Seq::<char>::empty());
    }
}

/// Renders a duration in milliseconds as weeks, days, hours, minutes,
/// seconds and milliseconds, from the largest non-zero unit down.
pub fn get_total_listen_time_from_ms(listen_time_ms: u64) -> (r: String)
    ensures
        r@ == listen_time_text(listen_time_ms as nat),
{
    let weeks = listen_time_ms / MS_PER_WEEK;
    let days = listen_time_ms % MS_PER_WEEK / MS_PER_DAY;
    let hours = listen_time_ms % MS_PER_DAY / MS_PER_HOUR;
    let minutes = listen_time_ms % MS_PER_HOUR / MS_PER_MINUTE;
    let seconds = listen_time_ms % MS_PER_MINUTE / MS_PER_SECOND;
    let millis = listen_time_ms % MS_PER_SECOND;
    let show_weeks = weeks != 0;
    let show_days = show_weeks || days != 0;
    let show_hours = show_days || hours != 0;
    let show_minutes = show_hours || minutes != 0;
    let show_seconds = show_minutes || seconds != 0;
    let mut text = String::new();
    push_part(&mut text, show_weeks, weeks, "w ");
    push_part(&mut text, show_days, days, "d ");
    push_part(&mut text, show_hours, hours, "h ");
    push_part(&mut text, show_minutes, minutes, "m ");
    push_part(&mut text, show_seconds, seconds, "s ");
    push_decimal(&mut text, millis);
    text.append("ms");
    assert(text@ =~= listen_time_text(listen_time_ms as nat));
    text
}

} // verus!
