use crate::text::decimal;
use crate::text::decimal_string;
use crate::text::three_digits;
use crate::text::zero_padded;
use vstd::prelude::*;
use vstd::string::StringExecFns;

verus! {

/// How a duration of `nanos` nanoseconds reads: in the largest unit that it
/// fills, with three more digits under a minute, and with the next one or two
/// units from a minute on.
pub open spec fn formatted_duration(nanos: nat) -> Seq<char> {
    let micros = nanos / 1000;
    let millis = nanos / 1_000_000;
    let secs = nanos / 1_000_000_000;
    let mins = secs / 60;
    let hours = mins / 60;
    let days = hours / 24;
    let weeks = days / 7;
    if nanos == 0 {
        "0s"@
    } else if nanos < 1000 {
        decimal(nanos) + "ns"@
    } else if micros < 1000 {
        decimal(micros) + "."@ + zero_padded(decimal(nanos % 1000), 3) + "µs"@
    } else if millis < 1000 {
        decimal(millis) + "."@ + zero_padded(decimal(nanos % 1000), 3) + "ms"@
    } else if secs < 60 {
        decimal(secs) + "."@ + zero_padded(decimal(millis % 1000), 3) + "s"@
    } else if mins < 60 {
        decimal(mins) + "m"@ + decimal(secs % 60) + "s"@
    } else if hours < 24 {
        decimal(hours) + "h"@ + decimal(mins % 60) + "m"@ + decimal(secs % 60) + "s"@
    } else if days < 7 {
        decimal(days) + "d"@ + decimal(hours % 24) + "h"@ + decimal(mins % 60) + "m"@
    } else {
        decimal(weeks) + "w"@ + decimal(days % 7) + "d"@ + decimal(hours % 24) + "h"@
    }
}

/// Two parts: a number and its unit.
fn one_part(a: u128, unit_a: &str) -> (text: String)
    ensures
        text@ == decimal(a as nat) + unit_a@,
{
    let mut text = decimal_string(a);
    text.append(unit_a);
    text
}

/// A number, a point, three digits and the unit.
fn with_fraction(whole: u128, fraction: u128, unit: &str) -> (text: String)
    requires
        fraction < 1000,
    ensures
        text@ == decimal(whole as nat) + "."@ + zero_padded(decimal(fraction as nat), 3) + unit@,
{
    let mut text = decimal_string(whole);
    text.append(".");
    text.append(three_digits(fraction).as_str());
    text.append(unit);
    text
}

/// Writes a duration, given in nanoseconds, for a person to read.
pub fn format_duration(nanos: u128) -> (text: String)
    ensures
        text@ == formatted_duration(nanos as nat),
{
    if nanos == 0 {
        String::from_str("0s")
    } else if nanos < 1000 {
        one_part(nanos, "ns")
    } else {
        let micros = nanos / 1000;
        if micros < 1000 {
            with_fraction(micros, nanos % 1000, "µs")
        } else {
            let millis = nanos / 1_000_000;
            if millis < 1000 {
                with_fraction(millis, nanos % 1000, "ms")
            } else {
                let secs = nanos / 1_000_000_000;
                if secs < 60 {
                    with_fraction(secs, millis % 1000, "s")
                } else {
                    let mins = secs / 60;
                    if mins < 60 {
                        let mut text = one_part(mins, "m");
                        text.append(one_part(secs % 60, "s").as_str());
                        proof {
                            assert(text@ =~= formatted_duration(nanos as nat));
                        }
                        text
                    } else {
                        let hours = mins / 60;
                        if hours < 24 {
                            let mut text = one_part(hours, "h");
                            text.append(one_part(mins % 60, "m").as_str());
                            text.append(one_part(secs % 60, "s").as_str());
                            proof {
                                assert(text@ =~= formatted_duration(nanos as nat));
                            }
                            text
                        } else {
                            let days = hours / 24;
                            if days < 7 {
                                let mut text = one_part(days, "d");
                                text.append(one_part(hours % 24, "h").as_str());
                                text.append(one_part(mins % 60, "m").as_str());
                                proof {
                                    assert(text@ =~= formatted_duration(nanos as nat));
                                }
                                text
                            } else {
                                let weeks = days / 7;
                                let mut text = one_part(weeks, "w");
                                text.append(one_part(days % 7, "d").as_str());
                                text.append(one_part(hours % 24, "h").as_str());
                                proof {
                                    assert(text@ =~= formatted_duration(nanos as nat));
                                }
                                text
                            }
                        }
                    }
                }
            }
        }
    }
}

} // verus!
