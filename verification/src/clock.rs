use vstd::prelude::*;
use crate::text::{two_digit_text, two_digits};
use std::time::{Duration, SystemTime, SystemTimeError};

verus! {

#[verifier::external_type_specification]
#[verifier::external_body]
pub struct ExSystemTime(SystemTime);

#[verifier::external_type_specification]
#[verifier::external_body]
pub struct ExSystemTimeError(SystemTimeError);

/// The wall-clock time of day, in UTC, that lies `secs` seconds after the
/// Unix epoch, as `HH:MM:SS`.
pub open spec fn time_of_day_text(secs: nat) -> Seq<char> {
    let day = secs % 86400;
    two_digit_text(day / 3600) + seq![':'] + two_digit_text((day % 3600) / 60) + seq![':']
        + two_digit_text(day % 60)
}

/// The time of day `secs` seconds after the Unix epoch, as `HH:MM:SS`.
pub fn time_of_day_label(secs: u64) -> (text: String)
    ensures
        text@ == time_of_day_text(secs as nat),
{
    let day = secs % 86400;
    let h = day / 3600;
    let m = (day % 3600) / 60;
    let s = day % 60;
    let mut text = two_digits(h);
    text.append(":");
    let mm = two_digits(m);
    text.append(mm.as_str());
    text.append(":");
    let ss = two_digits(s);
    text.append(ss.as_str());
    proof {
        reveal_strlit(":");
    }
    text
}

/// Reads the system clock (`std::time::SystemTime::now`). The reading
/// depends on the moment of the call, so nothing is stated of it.
#[verifier::external_body]
fn system_now() -> SystemTime {
    SystemTime::now()
}

/// The span from the Unix epoch to `t`
/// (`std::time::SystemTime::duration_since` with `UNIX_EPOCH`), or an error
/// where `t` lies before the epoch. `SystemTime` is opaque here, so nothing
/// is stated of which comes back.
#[verifier::external_body]
fn since_unix_epoch(t: &SystemTime) -> Result<Duration, SystemTimeError> {
    t.duration_since(std::time::UNIX_EPOCH)
}

/// The whole seconds of `d` (`std::time::Duration::as_secs`). `Duration` is
/// opaque here, so nothing is stated of the number.
#[verifier::external_body]
fn whole_seconds(d: &Duration) -> u64 {
    d.as_secs()
}

/// The current UTC time of day as `HH:MM:SS`; a clock set before the Unix
/// epoch reads as `00:00:00`.
pub fn humantime_since_epoch() -> (text: String)
    ensures
        exists|secs: u64| text@ == time_of_day_text(secs as nat),
{
    let now = system_now();
    let secs: u64 = match since_unix_epoch(&now) {
        Ok(d) => whole_seconds(&d),
        Err(_) => 0,
    };
    time_of_day_label(secs)
}

} // verus!

verus! {

/// The label of `secs` seconds after the epoch spells the hours, minutes
/// and seconds of the time of day: `HH:MM:SS` with the hours below 24,
/// the minutes and seconds below 60, adding up to `secs` modulo a day.
pub proof fn lemma_time_of_day_fields(secs: nat)
    ensures
        exists|h: nat, m: nat, s: nat|
            #![trigger two_digit_text(h), two_digit_text(m), two_digit_text(s)]
            {
                &&& h < 24
                &&& m < 60
                &&& s < 60
                &&& h * 3600 + m * 60 + s == secs % 86400
                &&& time_of_day_text(secs) == two_digit_text(h) + seq![':'] + two_digit_text(m)
                    + seq![':'] + two_digit_text(s)
            },
        time_of_day_text(secs).len() == 8,
        time_of_day_text(secs)[2] == ':',
        time_of_day_text(secs)[5] == ':',
{
    let day = secs % 86400;
    let h = day / 3600;
    let m = (day % 3600) / 60;
    let s = day % 60;
    assert(h < 24 && m < 60 && s < 60 && h * 3600 + m * 60 + s == day) by (nonlinear_arith)
        requires
            day < 86400,
            h == day / 3600,
            m == (day % 3600) / 60,
            s == day % 60,
    ;
    assert(two_digit_text(h).len() == 2);
    assert(time_of_day_text(secs) == two_digit_text(h) + seq![':'] + two_digit_text(m) + seq![':']
        + two_digit_text(s));
}

} // verus!
