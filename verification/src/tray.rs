//! What the tray shows: the session's counters, its running time, and the
//! tooltip text as the Windows shell takes it.

use vstd::prelude::*;
use std::time::{Duration, Instant};
use crate::text::{decimal, push_char, push_decimal, push_str};

verus! {

#[verifier::external_type_specification]
#[verifier::external_body]
pub struct ExInstant(Instant);

/// What the tray menu asks of the application.
#[derive(Clone, Copy, Debug, PartialEq, Eq, Structural)]
pub enum TrayEvent {
    NextWallpaper,
    Exit,
}

/// The current time (`Instant::now`).
#[verifier::external_body]
fn now() -> Instant {
    Instant::now()
}

/// The time elapsed since `start` (`Instant::elapsed`).
#[verifier::external_body]
fn elapsed(start: &Instant) -> Duration {
    start.elapsed()
}

/// The number of whole seconds in `d`, as `Duration::as_secs` gives it.
pub uninterp spec fn duration_secs(d: Duration) -> u64;

/// The whole seconds of a duration (`Duration::as_secs`).
#[verifier::external_body]
fn whole_secs(d: &Duration) -> (r: u64)
    ensures
        r == duration_secs(*d),
{
    d.as_secs()
}

/// Counters of the current session and when it started.
pub struct SessionStats {
    images_shown: u64,
    manual_skips: u64,
    started_at: Instant,
}

impl SessionStats {
    /// The number of wallpapers shown.
    pub closed spec fn shown_count(&self) -> u64 {
        self.images_shown
    }

    /// The number of wallpapers skipped by hand.
    pub closed spec fn skip_count(&self) -> u64 {
        self.manual_skips
    }

    /// A session starting now, with both counters at zero.
    pub fn new() -> (r: SessionStats)
        ensures
            r.shown_count() == 0,
            r.skip_count() == 0,
    {
        SessionStats { images_shown: 0, manual_skips: 0, started_at: now() }
    }

    /// Counts one more wallpaper shown (wrapping around, as an atomic
    /// counter does).
    pub fn inc_images_shown(&mut self)
        ensures
            final(self).shown_count() == old(self).shown_count().wrapping_add(1),
            final(self).skip_count() == old(self).skip_count(),
    {
        self.images_shown = self.images_shown.wrapping_add(1);
    }

    /// Counts one more wallpaper skipped by hand.
    pub fn inc_manual_skips(&mut self)
        ensures
            final(self).skip_count() == old(self).skip_count().wrapping_add(1),
            final(self).shown_count() == old(self).shown_count(),
    {
        self.manual_skips = self.manual_skips.wrapping_add(1);
    }

    /// The number of wallpapers shown.
    pub fn images_shown(&self) -> (r: u64)
        ensures
            r == self.shown_count(),
    {
        self.images_shown
    }

    /// The number of wallpapers skipped by hand.
    pub fn manual_skips(&self) -> (r: u64)
        ensures
            r == self.skip_count(),
    {
        self.manual_skips
    }

    /// How long the session has run.
    pub fn running_duration(&self) -> Duration {
        elapsed(&self.started_at)
    }
}

/// How a running time of `secs` seconds is shown: under a minute as
/// `<1m`; up to 72 hours as hours and minutes (hours left out when zero);
/// beyond that as days, hours and minutes.
pub open spec fn running_text(secs: nat) -> Seq<char> {
    if secs < 60 {
        "<1m"@
    } else {
        let total_minutes = secs / 60;
        let total_hours = total_minutes / 60;
        let minutes = total_minutes % 60;
        if total_hours > 72 {
            decimal(total_hours / 24) + "d "@ + decimal(total_hours % 24) + "h "@ + decimal(minutes)
                + "m"@
        } else if total_hours == 0 {
            decimal(minutes) + "m"@
        } else {
            decimal(total_hours) + "h "@ + decimal(minutes) + "m"@
        }
    }
}

/// Shows a running time of `secs` whole seconds.
pub fn format_running_secs(secs: u64) -> (r: String)
    ensures
        r@ == running_text(secs as nat),
{
    proof {
        reveal_strlit("<1m");
        reveal_strlit("d ");
        reveal_strlit("h ");
        reveal_strlit("m");
    }
    if secs < 60 {
        return crate::text::owned("<1m");
    }
    let total_minutes = secs / 60;
    let total_hours = total_minutes / 60;
    let minutes = total_minutes % 60;
    let mut out = String::new();
    if total_hours > 72 {
        push_decimal(&mut out, total_hours / 24);
        push_str(&mut out, "d ");
        push_decimal(&mut out, total_hours % 24);
        push_str(&mut out, "h ");
    } else if total_hours > 0 {
        push_decimal(&mut out, total_hours);
        push_str(&mut out, "h ");
    }
    push_decimal(&mut out, minutes);
    push_str(&mut out, "m");
    out
}

/// Shows how long the session has run, from its whole seconds.
pub fn format_running_duration(duration: Duration) -> (r: String)
    ensures
        r@ == running_text(duration_secs(duration) as nat),
{
    let secs = whole_secs(&duration);
    format_running_secs(secs)
}

/// A row of the statistics menu: the label and the value separated by a
/// tab, which the menu aligns.
pub fn format_stat_row(label: &str, value: &str) -> (r: String)
    ensures
        r@ == label@ + seq!['\t'] + value@,
{
    let mut r = crate::text::owned(label);
    push_char(&mut r, '\t');
    push_str(&mut r, value);
    r
}

/// The UTF-16 code units of one character.
pub open spec fn utf16_of(c: char) -> Seq<u16> {
    let v = c as u32;
    if v < 0x10000 {
        seq![v as u16]
    } else {
        let w = (v - 0x10000) as u32;
        seq![(0xD800 + w / 0x400) as u16, (0xDC00 + w % 0x400) as u16]
    }
}

/// The UTF-16 encoding of a character sequence (`str::encode_utf16`).
pub open spec fn utf16(s: Seq<char>) -> Seq<u16>
    decreases s.len(),
{
    if s.len() == 0 {
        Seq::empty()
    } else {
        utf16(s.drop_last()) + utf16_of(s.last())
    }
}

fn push_utf16(out: &mut Vec<u16>, c: char)
    ensures
        final(out)@ == old(out)@ + utf16_of(c),
{
    let v = c as u32;
    if v < 0x10000 {
        out.push(v as u16);
        assert(out@ =~= old(out)@ + utf16_of(c));
    } else {
        assert(v <= 0x10FFFF);
        let w: u32 = v - 0x10000;
        out.push((0xD800 + w / 0x400) as u16);
        out.push((0xDC00 + w % 0x400) as u16);
        assert(out@ =~= old(out)@ + utf16_of(c));
    }
}

/// The UTF-16 encoding of `s`.
pub fn encode_utf16(s: &str) -> (r: Vec<u16>)
    ensures
        r@ == utf16(s@),
{
    let v = crate::text::chars_of(s);
    let mut out: Vec<u16> = Vec::new();
    let mut i: usize = 0;
    while i < v.len()
        invariant
            i <= v.len(),
            v@ == s@,
            out@ == utf16(v@.subrange(0, i as int)),
        decreases v.len() - i,
    {
        assert(v@.subrange(0, i + 1).drop_last() =~= v@.subrange(0, i as int));
        push_utf16(&mut out, v[i]);
        i += 1;
    }
    assert(v@.subrange(0, v.len() as int) =~= v@);
    out
}

/// A string as the Windows API takes it: UTF-16, ended by a zero unit.
pub fn wide_null(value: &str) -> (r: Vec<u16>)
    ensures
        r@ == utf16(value@).push(0),
{
    let mut r = encode_utf16(value);
    r.push(0);
    r
}

/// What a fixed text buffer of `n` units holds after [`fill_tip`]: as much
/// of the text as fits before a terminating zero, then zeros.
pub open spec fn tip_units(text: Seq<u16>, n: nat) -> Seq<u16> {
    if n == 0 {
        Seq::empty()
    } else {
        let k = if text.len() < n - 1 {
            text.len()
        } else {
            (n - 1) as nat
        };
        Seq::new(n, |i: int| if i < k { text[i] } else { 0u16 })
    }
}

/// Copies a tooltip into a fixed buffer, cut to fit, zero-terminated and
/// zero-padded; an empty buffer is left alone.
pub fn fill_tip(buf: &mut Vec<u16>, text: &str)
    ensures
        final(buf)@ == tip_units(utf16(text@), old(buf)@.len()),
{
    let n = buf.len();
    if n == 0 {
        assert(buf@ =~= tip_units(utf16(text@), 0));
        return;
    }
    let encoded = encode_utf16(text);
    let k = if encoded.len() < n - 1 {
        encoded.len()
    } else {
        n - 1
    };
    let mut i: usize = 0;
    while i < n
        invariant
            buf.len() == n,
            n > 0,
            k <= encoded.len(),
            k < n,
            encoded@ == utf16(text@),
            k == (if encoded.len() < n - 1 { encoded.len() } else { (n - 1) as usize }),
            i <= n,
            forall|j: int| 0 <= j < i ==> buf@[j] == (if j < k { encoded@[j] } else { 0u16 }),
        decreases n - i,
    {
        if i < k {
            buf.set(i, encoded[i]);
        } else {
            buf.set(i, 0);
        }
        i += 1;
    }
    assert(buf@ =~= tip_units(utf16(text@), n as nat));
}

} // verus!
