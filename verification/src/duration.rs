//! Duration values in configuration files: `40s`, `12m`, `3h`.

use vstd::prelude::*;
use crate::text::{
    all_digits, chars_of, decimal, decimal_string, digit_char, digits_value, is_digit, is_white_space,
    lower, owned, parse_digits, trim_end, trim_start,
    push_char, push_str, string_of, to_ascii_lower, trim, trim_bounds,
};

verus! {

/// Message tail for a duration string with no unit.
pub open spec fn msg_no_unit() -> Seq<char> {
    " must be a positive integer or duration string like \"40s\", \"12m\", \"3h\""@
}

/// Message tail for a duration string whose number part is not all digits.
pub open spec fn msg_bad_number() -> Seq<char> {
    " must be a positive integer followed by s/m/h, for example \"40s\", \"12m\", \"3h\""@
}

/// Seconds per duration unit (after lower-casing), if `u` is one.
pub open spec fn unit_multiplier(u: char) -> Option<nat> {
    if u == 's' {
        Some(1)
    } else if u == 'm' {
        Some(60)
    } else if u == 'h' {
        Some(3600)
    } else {
        None
    }
}

/// The result of reading `raw` as a duration for field `field`: a number of
/// seconds, or the message that explains the refusal.
pub open spec fn duration_parse(field: Seq<char>, raw: Seq<char>) -> Result<u64, Seq<char>> {
    let t = trim(raw);
    if t.len() == 0 {
        Err(field + msg_no_unit())
    } else {
        let u = t.last();
        match unit_multiplier(lower(u)) {
            None => Err(
                field + " has invalid duration unit \""@ + seq![u]
                    + "\"; expected one of: s, m, h"@,
            ),
            Some(mult) => {
                let num = trim(t.drop_last());
                if num.len() == 0 || !all_digits(num) {
                    Err(field + msg_bad_number())
                } else if digits_value(num) > u64::MAX {
                    Err(
                        field + " must contain a valid integer before its unit; got \""@ + num
                            + "\""@,
                    )
                } else if digits_value(num) * mult > u64::MAX {
                    Err(
                        field + " duration is too large to represent in seconds: \""@ + t
                            + "\""@,
                    )
                } else {
                    Ok((digits_value(num) * mult) as u64)
                }
            },
        }
    }
}

fn sub_chars(v: &Vec<char>, from: usize, to: usize) -> (r: Vec<char>)
    requires
        from <= to <= v.len(),
    ensures
        r@ == v@.subrange(from as int, to as int),
{
    let mut r: Vec<char> = Vec::new();
    let mut i = from;
    while i < to
        invariant
            from <= i <= to <= v.len(),
            r@ == v@.subrange(from as int, i as int),
        decreases to - i,
    {
        r.push(v[i]);
        i += 1;
        assert(r@ == v@.subrange(from as int, i as int));
    }
    r
}

fn message(field: &str, tail: &str) -> (r: String)
    ensures
        r@ == field@ + tail@,
{
    let mut s = owned(field);
    push_str(&mut s, tail);
    s
}

/// Reads a duration string such as `40s`, `12m` or `3H` (units are case
/// insensitive and white space may surround the number) into seconds.
pub fn parse_duration_string(field_name: &str, raw: &str) -> (r: Result<u64, String>)
    ensures
        match r {
            Ok(n) => duration_parse(field_name@, raw@) == Ok::<u64, Seq<char>>(n),
            Err(e) => duration_parse(field_name@, raw@) == Err::<u64, Seq<char>>(e@),
        },
{
    proof {
        reveal_strlit(" must be a positive integer or duration string like \"40s\", \"12m\", \"3h\"");
        reveal_strlit(" must be a positive integer followed by s/m/h, for example \"40s\", \"12m\", \"3h\"");
        reveal_strlit(" has invalid duration unit \"");
        reveal_strlit("\"; expected one of: s, m, h");
        reveal_strlit(" must contain a valid integer before its unit; got \"");
        reveal_strlit("\"");
        reveal_strlit(" duration is too large to represent in seconds: \"");
    }
    let all = chars_of(raw);
    let (a, b) = trim_bounds(&all);
    let t = sub_chars(&all, a, b);
    assert(t@ == trim(raw@));
    if t.len() == 0 {
        return Err(
            message(
                field_name,
                " must be a positive integer or duration string like \"40s\", \"12m\", \"3h\"",
            ),
        );
    }
    let u = t[t.len() - 1];
    let unit = to_ascii_lower(u);
    let mult: u64 = if unit == 's' {
        1
    } else if unit == 'm' {
        60
    } else if unit == 'h' {
        3600
    } else {
        let mut m = message(field_name, " has invalid duration unit \"");
        push_char(&mut m, u);
        push_str(&mut m, "\"; expected one of: s, m, h");
        assert(m@ == field_name@ + " has invalid duration unit \""@ + seq![u]
            + "\"; expected one of: s, m, h"@);
        assert(unit_multiplier(lower(t@.last())) is None);
        return Err(m);
    };
    let head = sub_chars(&t, 0, t.len() - 1);
    assert(head@ == t@.drop_last());
    let (c, d) = trim_bounds(&head);
    let num = sub_chars(&head, c, d);
    let mut ok = num.len() > 0;
    let mut i: usize = 0;
    while i < num.len()
        invariant
            i <= num.len(),
            ok ==> num.len() > 0,
            ok ==> forall|k: int| 0 <= k < i ==> is_digit(#[trigger] num@[k]),
            !ok ==> (num.len() == 0 || !all_digits(num@)),
        decreases num.len() - i,
    {
        if !('0' <= num[i] && num[i] <= '9') {
            ok = false;
        }
        i += 1;
    }
    if !ok {
        return Err(
            message(
                field_name,
                " must be a positive integer followed by s/m/h, for example \"40s\", \"12m\", \"3h\"",
            ),
        );
    }
    assert(num@.subrange(0, num.len() as int) == num@);
    assert(num@ == trim(t@.drop_last()));
    assert(all_digits(num@));
    match parse_digits(&num, 0, num.len()) {
        None => {
            let mut m = message(
                field_name,
                " must contain a valid integer before its unit; got \"",
            );
            let ns = string_of(&num);
            push_str(&mut m, ns.as_str());
            push_str(&mut m, "\"");
            assert(num@.subrange(0, num.len() as int) == num@);
            assert(digits_value(num@) > u64::MAX);
            assert(m@ == field_name@ + " must contain a valid integer before its unit; got \""@
                + num@ + "\""@);
            Err(m)
        },
        Some(value) => match value.checked_mul(mult) {
            Some(secs) => {
                assert(unit_multiplier(lower(t@.last())) == Some(mult as nat));
                assert(num@.subrange(0, num.len() as int) == num@);
                assert(digits_value(num@) == value as nat);
                assert(digits_value(num@) * (mult as nat) == secs as nat);
                Ok(secs)
            },
            None => {
                let mut m = message(
                    field_name,
                    " duration is too large to represent in seconds: \"",
                );
                let ts = string_of(&t);
                push_str(&mut m, ts.as_str());
                push_str(&mut m, "\"");
                assert(unit_multiplier(lower(t@.last())) == Some(mult as nat));
                assert(num@.subrange(0, num.len() as int) == num@);
                assert(digits_value(num@) == value as nat);
                assert(m@ == field_name@ + " duration is too large to represent in seconds: \""@
                    + t@ + "\""@);
                Err(m)
            },
        },
    }
}

/// The shortest of `Nh`, `Nm`, `Ns` that states `secs` exactly: the
/// units that duration strings accept.
pub open spec fn duration_text(secs: nat) -> Seq<char> {
    if secs == 0 {
        "0s"@
    } else if secs % 3600 == 0 {
        decimal(secs / 3600).push('h')
    } else if secs % 60 == 0 {
        decimal(secs / 60).push('m')
    } else {
        decimal(secs).push('s')
    }
}

/// Renders a number of seconds in the largest unit that divides it.
pub fn format_duration_value(secs: u64) -> (r: String)
    ensures
        r@ == duration_text(secs as nat),
{
    proof {
        reveal_strlit("0s");
    }
    if secs == 0 {
        return owned("0s");
    }
    let (n, u) = if secs % 3600 == 0 {
        (secs / 3600, 'h')
    } else if secs % 60 == 0 {
        (secs / 60, 'm')
    } else {
        (secs, 's')
    };
    let mut s = decimal_string(n);
    push_char(&mut s, u);
    s
}


/// The decimal notation of `n` is a non-empty run of digits worth `n`.
proof fn lemma_decimal_digits(n: nat)
    ensures
        decimal(n).len() > 0,
        all_digits(decimal(n)),
        digits_value(decimal(n)) == n,
    decreases n,
{
    let d = (n % 10) as nat;
    assert((48 + d) as u32 as char as nat == 48 + d);
    if n >= 10 {
        lemma_decimal_digits(n / 10);
        let s = decimal(n / 10);
        assert(decimal(n) == s.push(digit_char(d)));
        assert(decimal(n).drop_last() =~= s);
        assert(decimal(n).last() == digit_char(d));
        assert(decimal(n).last() as nat == 48 + d);
        assert(digits_value(decimal(n)) == digits_value(s) * 10 + d);
        assert((n / 10) * 10 + d == n);
        assert forall|i: int| 0 <= i < decimal(n).len() implies is_digit(#[trigger] decimal(n)[i]) by {
            if i < s.len() {
                assert(decimal(n)[i] == s[i]);
            }
        }
    } else {
        assert(decimal(n) =~= seq![digit_char(n)]);
        assert(decimal(n).drop_last() =~= Seq::<char>::empty());
        assert(d == n);
        assert(decimal(n).last() as nat == 48 + d);
        assert(digits_value(decimal(n)) == digits_value(Seq::<char>::empty()) * 10 + d);
    }
}

/// A run of characters that starts and ends outside white space is its own
/// trimmed form.
proof fn lemma_trim_keeps(s: Seq<char>)
    requires
        s.len() > 0,
        !is_white_space(s[0]),
        !is_white_space(s.last()),
    ensures
        trim(s) == s,
{
    assert(trim_start(s) == s);
    assert(trim_end(s) == s);
}

/// A duration written by [`format_duration_value`] reads back, through
/// [`parse_duration_string`], as the same number of seconds.
pub proof fn lemma_duration_text_reads_back(field: Seq<char>, secs: u64)
    ensures
        duration_parse(field, duration_text(secs as nat)) == Ok::<u64, Seq<char>>(secs),
{
    let n = secs as nat;
    let (q, u, mult): (nat, char, nat) = if n == 0 {
        (0, 's', 1)
    } else if n % 3600 == 0 {
        ((n / 3600) as nat, 'h', 3600)
    } else if n % 60 == 0 {
        ((n / 60) as nat, 'm', 60)
    } else {
        (n, 's', 1)
    };
    lemma_decimal_digits(q);
    let t = decimal(q).push(u);
    if n == 0 {
        reveal_strlit("0s");
        assert(decimal(0) =~= seq!['0']);
        assert(duration_text(n) =~= t);
    } else {
        assert(duration_text(n) == t);
    }
    assert(t[0] == decimal(q)[0]);
    assert(is_digit(decimal(q)[0]));
    lemma_trim_keeps(t);
    assert(t.drop_last() =~= decimal(q));
    let dq = decimal(q);
    assert(is_digit(dq[dq.len() - 1]));
    lemma_trim_keeps(dq);
    assert(lower(u) == u);
    assert(unit_multiplier(u) == Some(mult));
    assert(q * mult == n) by (nonlinear_arith)
        requires
            (n == 0 && q == 0) || (n % 3600 == 0 && q == n / 3600 && mult == 3600) || (n % 60 == 0
                && q == n / 60 && mult == 60) || (q == n && mult == 1),
    ;
    assert(q <= n) by (nonlinear_arith)
        requires
            q * mult == n,
            mult >= 1,
    ;
}

} // verus!
