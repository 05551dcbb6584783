use vstd::prelude::*;

use crate::text::{dec_str, push_char, u32_to_string};

verus! {

/// A local wall-clock time of day as plain values, as the caller read it
/// from the system clock.
#[derive(Clone, Copy, Debug)]
pub struct LocalTime {
    pub hour: u32,
    pub minute: u32,
    pub second: u32,
    pub micros: u32,
}

/// `s` left-padded with `'0'` to at least `width` characters.
pub open spec fn zero_pad(s: Seq<char>, width: int) -> Seq<char>
    decreases width,
{
    if s.len() >= width || width <= 0 {
        s
    } else {
        seq!['0'] + zero_pad(s, width - 1)
    }
}

/// Left-pads with `'0'` to at least `width` characters, as `zero_pad`
/// describes.
fn zero_pad_exec(digits: String, width: usize) -> (r: String)
    ensures
        r@ == zero_pad(digits@, width as int),
{
    let n = digits.as_str().unicode_len();
    if n >= width {
        proof {
            assert(zero_pad(digits@, width as int) == digits@);
        }
        return digits;
    }
    let mut r = String::new();
    let mut k: usize = width - n;
    proof {
        lemma_zero_pad_unroll(digits@, width as int);
    }
    while k > 0
        invariant
            n == digits@.len(),
            k <= width - n,
            r@ + zero_pad(digits@, n + k) == zero_pad(digits@, width as int),
        decreases k,
    {
        push_char(&mut r, '0');
        proof {
            assert(zero_pad(digits@, n + k) == seq!['0'] + zero_pad(digits@, n + k - 1));
            assert(r@ + zero_pad(digits@, n + k - 1) =~= zero_pad(digits@, width as int));
        }
        k = k - 1;
    }
    r.append(digits.as_str());
    proof {
        assert(zero_pad(digits@, n as int) == digits@);
        assert(r@ =~= zero_pad(digits@, width as int));
    }
    r
}

/// Padding by one more column prepends one more zero (when padding is
/// needed at all).
proof fn lemma_zero_pad_unroll(s: Seq<char>, width: int)
    ensures
        s.len() < width ==> zero_pad(s, width) == seq!['0'] + zero_pad(s, width - 1),
{
}

/// A time of day in sortable `HH:MM:SS.uuuuuu` form.
pub open spec fn pc_time_str(t: LocalTime) -> Seq<char> {
    zero_pad(dec_str(t.hour as int), 2) + seq![':'] + zero_pad(dec_str(t.minute as int), 2)
        + seq![':'] + zero_pad(dec_str(t.second as int), 2) + seq!['.'] + zero_pad(
        dec_str(t.micros as int),
        6,
    )
}

/// Formats timestamps for received lines; the wall-clock reading itself is
/// handed in by the caller.
pub struct TimeTracker;

impl TimeTracker {
    /// A fresh tracker.
    pub fn new() -> (r: TimeTracker) {
        TimeTracker
    }

    /// The annotation for a received line: the device's own millisecond
    /// timestamp and the local receive time, as `( <timestamp> <time> )`.
    pub fn update(&mut self, esp32_timestamp: u32, line_received_time: LocalTime) -> (r: String)
        ensures
            *final(self) == *old(self),
            r@ == seq!['('] + dec_str(esp32_timestamp as int) + seq![' '] + pc_time_str(
                line_received_time,
            ) + seq![')'],
    {
        self.format_timestamp(esp32_timestamp, line_received_time)
    }

    /// Formats the device timestamp next to the local receive time.
    fn format_timestamp(&self, esp32_timestamp: u32, line_received_time: LocalTime) -> (r: String)
        ensures
            r@ == seq!['('] + dec_str(esp32_timestamp as int) + seq![' '] + pc_time_str(
                line_received_time,
            ) + seq![')'],
    {
        let mut r = String::new();
        push_char(&mut r, '(');
        let ts = u32_to_string(esp32_timestamp);
        r.append(ts.as_str());
        push_char(&mut r, ' ');
        let pc = self.format_pc_time(line_received_time);
        r.append(pc.as_str());
        push_char(&mut r, ')');
        proof {
            assert(r@ =~= seq!['('] + dec_str(esp32_timestamp as int) + seq![' '] + pc_time_str(
                line_received_time,
            ) + seq![')']);
        }
        r
    }

    /// The local receive time in sortable form, as `pc_time_str` describes.
    pub fn format_pc_time(&self, line_received_time: LocalTime) -> (r: String)
        ensures
            r@ == pc_time_str(line_received_time),
    {
        let mut r = zero_pad_exec(u32_to_string(line_received_time.hour), 2);
        push_char(&mut r, ':');
        let minute = zero_pad_exec(u32_to_string(line_received_time.minute), 2);
        r.append(minute.as_str());
        push_char(&mut r, ':');
        let second = zero_pad_exec(u32_to_string(line_received_time.second), 2);
        r.append(second.as_str());
        push_char(&mut r, '.');
        let micros = zero_pad_exec(u32_to_string(line_received_time.micros), 6);
        r.append(micros.as_str());
        proof {
            assert(r@ =~= pc_time_str(line_received_time));
        }
        r
    }
}

} // verus!
