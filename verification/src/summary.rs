//! The line that sums up a run in the log.

use vstd::prelude::*;
use vstd::string::StringExecFns;
use crate::supervisor::ProcessStatus;

verus! {

/// The character of a decimal digit.
pub open spec fn digit(d: nat) -> char {
    if d == 0 {
        '0'
    } else if d == 1 {
        '1'
    } else if d == 2 {
        '2'
    } else if d == 3 {
        '3'
    } else if d == 4 {
        '4'
    } else if d == 5 {
        '5'
    } else if d == 6 {
        '6'
    } else if d == 7 {
        '7'
    } else if d == 8 {
        '8'
    } else {
        '9'
    }
}

/// A number in decimal digits, without leading zeros.
pub open spec fn decimal(n: nat) -> Seq<char>
    decreases n,
{
    if n < 10 {
        seq![digit(n)]
    } else {
        decimal(n / 10).push(digit(n % 10))
    }
}

/// A number in decimal digits, with a minus sign in front where it is
/// negative.
pub open spec fn signed_decimal(n: int) -> Seq<char> {
    if n < 0 {
        seq!['-'] + decimal((-n) as nat)
    } else {
        decimal(n as nat)
    }
}

/// The last three decimal digits of a number, zeros included.
pub open spec fn three_digits(n: nat) -> Seq<char> {
    seq![digit(n / 100 % 10), digit(n / 10 % 10), digit(n % 10)]
}

/// How a status is written.
pub open spec fn status_text(status: ProcessStatus) -> Seq<char> {
    match status {
        ProcessStatus::Exited(code) => "Exited("@ + signed_decimal(code as int) + ")"@,
        ProcessStatus::Signalled(signal) => "Signalled("@ + signed_decimal(signal as int) + ")"@,
        ProcessStatus::TimedOut => "TimedOut"@,
    }
}

/// The summary of a run that ended with `status` after `elapsed_millis`
/// milliseconds: the status, and the time in seconds with three decimals.
pub open spec fn summary_text(status: ProcessStatus, elapsed_millis: u64) -> Seq<char> {
    "cargo result: "@ + status_text(status) + " in "@ + decimal((elapsed_millis / 1000) as nat)
        + "."@ + three_digits((elapsed_millis % 1000) as nat) + "s"@
}

/// The character of the decimal digit `d`.
fn digit_char(d: u64) -> (c: char)
    requires
        d < 10,
    ensures
        c == digit(d as nat),
{
    if d == 0 {
        '0'
    } else if d == 1 {
        '1'
    } else if d == 2 {
        '2'
    } else if d == 3 {
        '3'
    } else if d == 4 {
        '4'
    } else if d == 5 {
        '5'
    } else if d == 6 {
        '6'
    } else if d == 7 {
        '7'
    } else if d == 8 {
        '8'
    } else {
        '9'
    }
}

/// Writes `n` in decimal digits behind what `out` holds.
fn push_decimal(out: &mut String, n: u64)
    ensures
        final(out)@ == old(out)@ + decimal(n as nat),
    decreases n,
{
    if n >= 10 {
        push_decimal(out, n / 10);
    }
    out.push(digit_char(n % 10));
}

/// Writes `n` in decimal digits, with its sign where it is negative, behind
/// what `out` holds.
fn push_signed(out: &mut String, n: i32)
    ensures
        final(out)@ == old(out)@ + signed_decimal(n as int),
{
    if n < 0 {
        out.push('-');
        push_decimal(out, (-(n as i64)) as u64);
    } else {
        push_decimal(out, n as u64);
    }
}

/// Writes `status` behind what `out` holds.
fn push_status(out: &mut String, status: ProcessStatus)
    ensures
        final(out)@ == old(out)@ + status_text(status),
{
    match status {
        ProcessStatus::Exited(code) => {
            out.append("Exited(");
            push_signed(out, code);
            out.append(")");
        },
        ProcessStatus::Signalled(signal) => {
            out.append("Signalled(");
            push_signed(out, signal);
            out.append(")");
        },
        ProcessStatus::TimedOut => {
            out.append("TimedOut");
        },
    }
}

/// The line that sums up a run for the log: how the child ended, and how
/// long the run took, in seconds with three decimals.
pub fn summary_line(status: ProcessStatus, elapsed_millis: u64) -> (line: String)
    ensures
        line@ == summary_text(status, elapsed_millis),
{
    let mut line = String::new();
    line.append("cargo result: ");
    push_status(&mut line, status);
    line.append(" in ");
    push_decimal(&mut line, elapsed_millis / 1000);
    line.append(".");
    let fraction: u64 = elapsed_millis % 1000;
    line.push(digit_char(fraction / 100 % 10));
    line.push(digit_char(fraction / 10 % 10));
    line.push(digit_char(fraction % 10));
    line.append("s");
    proof {
        assert(line@ =~= summary_text(status, elapsed_millis));
    }
    line
}

} // verus!
