//! Dotted-quad syntax of the identifiers that may be handed to a firewall.
use vstd::prelude::*;

verus! {

/// `c` is one of the ten ASCII decimal digits.
pub open spec fn is_digit(c: char) -> bool {
    '0' <= c && c <= '9'
}

/// The number that the digit `c` stands for.
pub open spec fn digit_value(c: char) -> nat
    recommends
        is_digit(c),
{
    (c as u32 - '0' as u32) as nat
}

/// The number that a run of decimal digits stands for; 0 for the empty run.
pub open spec fn decimal(digits: Seq<char>) -> nat
    decreases digits.len(),
{
    if digits.len() == 0 {
        0
    } else {
        decimal(digits.drop_last()) * 10 + digit_value(digits.last())
    }
}

/// Every element of `digits` is a decimal digit.
pub open spec fn all_digits(digits: Seq<char>) -> bool {
    forall|i: int| 0 <= i < digits.len() ==> is_digit(#[trigger] digits[i])
}

/// `field` is the text of a number in `0..=255`: one or more decimal digits
/// and nothing else. Leading zeros are allowed.
pub open spec fn is_octet(field: Seq<char>) -> bool {
    field.len() > 0 && all_digits(field) && decimal(field) <= 255
}

/// The pieces of `s` between its dots, left to right. A string without a dot
/// is one field; `n` dots give `n + 1` fields, empty ones included.
pub open spec fn fields(s: Seq<char>) -> Seq<Seq<char>>
    decreases s.len(),
{
    if s.len() == 0 {
        seq![Seq::<char>::empty()]
    } else {
        let before = fields(s.drop_last());
        if s.last() == '.' {
            before.push(Seq::<char>::empty())
        } else {
            before.update(before.len() - 1, before.last().push(s.last()))
        }
    }
}

/// `s` is a well-formed IPv4 address: exactly four dot-separated octets.
pub open spec fn valid_ip(s: Seq<char>) -> bool {
    let f = fields(s);
    f.len() == 4 && forall|k: int| 0 <= k < 4 ==> is_octet(#[trigger] f[k])
}

/// `field` can still grow into an octet: it holds digits only, and their
/// value has not passed 255.
pub open spec fn octet_so_far(field: Seq<char>) -> bool {
    all_digits(field) && decimal(field) <= 255
}

/// What a left-to-right scan knows after reading `s`: no more than four
/// fields were opened, the closed ones are octets, the open one may become one.
pub open spec fn scan_ok(s: Seq<char>) -> bool {
    let f = fields(s);
    &&& f.len() <= 4
    &&& forall|k: int| 0 <= k < f.len() - 1 ==> is_octet(#[trigger] f[k])
    &&& octet_so_far(f.last())
}

/// Every string has at least one field.
proof fn lemma_fields_nonempty(s: Seq<char>)
    ensures
        fields(s).len() >= 1,
    decreases s.len(),
{
    if s.len() > 0 {
        lemma_fields_nonempty(s.drop_last());
    }
}

/// Reading one more character keeps a failed scan failed.
proof fn lemma_scan_ok_prefix(s: Seq<char>, c: char)
    requires
        scan_ok(s.push(c)),
    ensures
        scan_ok(s),
{
    let t = s.push(c);
    assert(t.drop_last() =~= s);
    lemma_fields_nonempty(s);
    let before = fields(s);
    let after = fields(t);
    if c == '.' {
        assert forall|k: int| 0 <= k < before.len() - 1 implies is_octet(#[trigger] before[k]) by {
            assert(after[k] == before[k]);
        }
        assert(is_octet(after[before.len() - 1]));
    } else {
        assert forall|k: int| 0 <= k < before.len() - 1 implies is_octet(#[trigger] before[k]) by {
            assert(after[k] == before[k]);
        }
        lemma_so_far_prefix(before.last(), c);
    }
}

/// A field that may still become an octet was one that might before its last
/// character was read.
proof fn lemma_so_far_prefix(field: Seq<char>, c: char)
    requires
        octet_so_far(field.push(c)),
    ensures
        octet_so_far(field),
{
    assert(field.push(c).drop_last() =~= field);
}

/// The value of the open field after a digit is read.
proof fn lemma_push_digit(field: Seq<char>, c: char)
    requires
        is_digit(c),
        octet_so_far(field),
    ensures
        all_digits(field.push(c)),
        decimal(field.push(c)) == decimal(field) * 10 + digit_value(c),
{
    assert(field.push(c).drop_last() =~= field);
}

/// Tells whether `ip` is a well-formed IPv4 address: four dot-separated
/// octets, each the decimal text of a number in `0..=255`.
pub fn is_valid_ip(ip: &str) -> (ok: bool)
    ensures
        ok == valid_ip(ip@),
{
    // Fields closed so far, and what is known of the open one.
    let mut closed: u8 = 0;
    let mut digits: bool = false;
    let mut value: u16 = 0;
    let mut ok: bool = true;
    for c in it: ip.chars()
        invariant
            it.seq() == ip@,
            ok == scan_ok(ip@.take(it.index() as int)),
            ok ==> closed as int == fields(ip@.take(it.index() as int)).len() - 1,
            ok ==> closed <= 3,
            ok ==> digits == (fields(ip@.take(it.index() as int)).last().len() > 0),
            ok ==> value as nat == decimal(fields(ip@.take(it.index() as int)).last()),
            value <= 255,
    {
        let ghost read = ip@.take(it.index() as int);
        let ghost next = ip@.take(it.index() as int + 1);
        proof {
            assert(next =~= read.push(c));
            assert(next.drop_last() =~= read);
            if !scan_ok(read) && scan_ok(next) {
                lemma_scan_ok_prefix(read, c);
            }
        }
        if ok {
            let ghost before = fields(read);
            let ghost open = before.last();
            if c == '.' {
                if !digits || closed == 3 {
                    ok = false;
                    proof {
                        if scan_ok(next) {
                            assert(is_octet(fields(next)[before.len() - 1]));
                        }
                    }
                } else {
                    closed = closed + 1;
                    digits = false;
                    value = 0;
                }
            } else if '0' <= c && c <= '9' {
                proof {
                    lemma_push_digit(open, c);
                }
                let d: u16 = (c as u32 - '0' as u32) as u16;
                let wider: u16 = value * 10 + d;
                if wider > 255 {
                    ok = false;
                } else {
                    value = wider;
                    digits = true;
                }
            } else {
                ok = false;
            }
        }
    }
    proof {
        assert(ip@.take(ip@.len() as int) =~= ip@);
    }
    ok && closed == 3 && digits
}

} // verus!
