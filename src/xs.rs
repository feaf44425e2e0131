//! The parts of the Xen store protocol that decide: numbers as the store
//! writes them, the bus state a handshake waits for, and the paths under
//! which devices appear.

use vstd::prelude::*;
use crate::error::Error;
use crate::regs::{XENBUS_STATE_UNKNOWN};

verus! {

/// Value of a digit of base `radix` (10 or 16), if `c` is one.
pub open spec fn digit_value(c: char, radix: u32) -> Option<nat> {
    if '0' <= c <= '9' {
        Some((c as u32 - '0' as u32) as nat)
    } else if radix == 16 && 'a' <= c <= 'f' {
        Some((c as u32 - 'a' as u32 + 10) as nat)
    } else if radix == 16 && 'A' <= c <= 'F' {
        Some((c as u32 - 'A' as u32 + 10) as nat)
    } else {
        None
    }
}

pub open spec fn all_digits(s: Seq<char>, radix: u32) -> bool {
    forall|i: int| 0 <= i < s.len() ==> (#[trigger] digit_value(s[i], radix)) is Some
}

/// Value of the digits `s` in base `radix`.
pub open spec fn digits_value(s: Seq<char>, radix: u32) -> nat
    decreases s.len(),
{
    if s.len() == 0 {
        0
    } else {
        (digits_value(s.drop_last(), radix) * radix + digit_value(s.last(), radix).unwrap()) as nat
    }
}

/// The number that `s` writes in base `radix`: an optional `+`, then at
/// least one digit, for a value of at most `max`.
pub open spec fn parse_number(s: Seq<char>, radix: u32, max: nat) -> Option<nat> {
    let t = if s.len() > 0 && s[0] == '+' { s.drop_first() } else { s };
    if t.len() > 0 && all_digits(t, radix) && digits_value(t, radix) <= max {
        Some(digits_value(t, radix))
    } else {
        None
    }
}

/// A store integer: hexadecimal after a `0x` prefix, decimal otherwise.
pub open spec fn parse_store_int(s: Seq<char>) -> Option<nat> {
    if s.len() >= 2 && s[0] == '0' && s[1] == 'x' {
        parse_number(s.subrange(2, s.len() as int), 16, u32::MAX as nat)
    } else {
        parse_number(s, 10, u32::MAX as nat)
    }
}

proof fn lemma_value_grows(s: Seq<char>, radix: u32, n: int)
    requires
        0 <= n <= s.len(),
        radix >= 1,
    ensures
        digits_value(s.subrange(0, n), radix) <= digits_value(s, radix),
    decreases s.len() - n,
{
    if n < s.len() {
        lemma_value_grows(s, radix, n + 1);
        let p = s.subrange(0, n + 1);
        assert(p.drop_last() =~= s.subrange(0, n));
        let v = digits_value(s.subrange(0, n), radix);
        assert(v * radix >= v) by (nonlinear_arith)
            requires radix >= 1;
    } else {
        assert(s.subrange(0, n) =~= s);
    }
}

fn digit_of(c: char, radix: u32) -> (r: Option<u64>)
    requires
        radix == 10 || radix == 16,
    ensures
        r matches Some(d) ==> digit_value(c, radix) == Some(d as nat) && d < radix,
        r is None ==> digit_value(c, radix) is None,
{
    if '0' <= c && c <= '9' {
        Some((c as u32 - '0' as u32) as u64)
    } else if radix == 16 && 'a' <= c && c <= 'f' {
        Some((c as u32 - 'a' as u32 + 10) as u64)
    } else if radix == 16 && 'A' <= c && c <= 'F' {
        Some((c as u32 - 'A' as u32 + 10) as u64)
    } else {
        None
    }
}

/// The number that the characters `from..to` of `s` write in base `radix`,
/// if it is at most `max`.
pub fn parse_digits(s: &str, from: usize, to: usize, radix: u32, max: u32) -> (r: Option<u32>)
    requires
        from <= to <= s@.len(),
        radix == 10 || radix == 16,
    ensures
        r matches Some(v) ==> parse_number(s@.subrange(from as int, to as int), radix, max as nat)
            == Some(v as nat),
        r is None ==> parse_number(s@.subrange(from as int, to as int), radix, max as nat) is None,
{
    let ghost whole = s@.subrange(from as int, to as int);
    let mut start = from;
    if from < to && s.get_char(from) == '+' {
        start = from + 1;
    }
    let ghost t = s@.subrange(start as int, to as int);
    assert(t =~= if whole.len() > 0 && whole[0] == '+' { whole.drop_first() } else { whole });
    if start == to {
        return None;
    }
    let mut acc: u64 = 0;
    let mut i: usize = start;
    while i < to
        invariant
            start <= i <= to <= s@.len(),
            t == s@.subrange(start as int, to as int),
            whole == s@.subrange(from as int, to as int),
            t == (if whole.len() > 0 && whole[0] == '+' { whole.drop_first() } else { whole }),
            t.len() > 0,
            radix == 10 || radix == 16,
            all_digits(s@.subrange(start as int, i as int), radix),
            acc as nat == digits_value(s@.subrange(start as int, i as int), radix),
            acc <= max,
        decreases to - i,
    {
        let ghost p = s@.subrange(start as int, i + 1);
        assert(p.drop_last() =~= s@.subrange(start as int, i as int));
        let c = s.get_char(i);
        match digit_of(c, radix) {
            None => {
                assert(t[i - start] == c);
                assert(digit_value(t[i - start], radix) is None);
                assert(!all_digits(t, radix));
                return None;
            },
            Some(d) => {
                assert(acc * (radix as u64) <= 0xffff_ffffu64 * 16) by (nonlinear_arith)
                    requires
                        acc <= 0xffff_ffffu64,
                        radix <= 16,
                ;
                let next = acc * (radix as u64) + d;
                if next > max as u64 {
                    proof {
                        assert(p.last() == c);
                        assert(digits_value(p, radix) == next);
                        assert(all_digits(p, radix));
                        if all_digits(t, radix) {
                            assert(t.subrange(0, i + 1 - start) =~= p);
                            lemma_value_grows(t, radix, i + 1 - start);
                        }
                    }
                    return None;
                }
                acc = next;
            },
        }
        i = i + 1;
    }
    assert(s@.subrange(start as int, i as int) =~= t);
    Some(acc as u32)
}

/// Reads a store integer: hexadecimal after a `0x` prefix, decimal
/// otherwise.
pub fn parse_int(s: &str) -> (r: Result<u32, Error>)
    ensures
        r matches Ok(v) ==> parse_store_int(s@) == Some(v as nat),
        r is Err ==> parse_store_int(s@) is None && r == Err::<u32, Error>(Error::ParseFailure),
{
    let n = s.unicode_len();
    let r = if n >= 2 && s.get_char(0) == '0' && s.get_char(1) == 'x' {
        parse_digits(s, 2, n, 16, u32::MAX)
    } else {
        assert(s@.subrange(0, n as int) =~= s@);
        parse_digits(s, 0, n, 10, u32::MAX)
    };
    match r {
        Some(v) => Ok(v),
        None => Err(Error::ParseFailure),
    }
}

/// Whether the bus state `val` is one of the states in the bit set `wanted`,
/// or the unknown state, which ends every wait.
pub open spec fn state_reached(val: u32, wanted: u32) -> bool {
    val < 32 && ((1u32 << val) & (wanted | (1u32 << XENBUS_STATE_UNKNOWN))) != 0
}

/// Whether a wait for one of the bus states in the bit set `wanted` is over
/// once the store reads `val`.
pub fn state_in_mask(val: u32, wanted: u32) -> (r: bool)
    ensures
        r == state_reached(val, wanted),
{
    val < 32 && ((1u32 << val) & (wanted | (1u32 << XENBUS_STATE_UNKNOWN))) != 0
}

/// The bus state read must be `expected`.
pub fn expect_state(val: u32, expected: u32) -> (r: Result<(), Error>)
    ensures
        r == if val == expected { Ok::<(), Error>(()) } else { Err(Error::XBInvalidState) },
{
    if val == expected {
        Ok(())
    } else {
        Err(Error::XBInvalidState)
    }
}

/// Positions of the `/` separators in `s`.
pub open spec fn slash_positions(s: Seq<char>) -> Seq<int>
    decreases s.len(),
{
    if s.len() == 0 {
        seq![]
    } else if s.last() == '/' {
        slash_positions(s.drop_last()).push(s.len() - 1)
    } else {
        slash_positions(s.drop_last())
    }
}

/// What a watch event at `path` reports: for a path with four components
/// (`backend/virtio/<domain>/<device>`), the domain and the device, read as
/// decimal numbers; for any other path, nothing.
pub open spec fn device_path(path: Seq<char>) -> Result<Option<(u16, u32)>, Error> {
    let p = slash_positions(path);
    if p.len() != 3 {
        Ok(None)
    } else {
        let dom = parse_number(path.subrange(p[1] + 1, p[2]), 10, u16::MAX as nat);
        let dev = parse_number(path.subrange(p[2] + 1, path.len() as int), 10, u32::MAX as nat);
        match (dev, dom) {
            (Some(v), Some(d)) => Ok(Some((d as u16, v as u32))),
            _ => Err(Error::ParseFailure),
        }
    }
}

proof fn lemma_slash_positions(s: Seq<char>)
    ensures
        forall|k: int| 0 <= k < slash_positions(s).len() ==> 0 <= #[trigger] slash_positions(s)[k] < s.len(),
        forall|k: int, l: int| 0 <= k < l < slash_positions(s).len() ==> slash_positions(s)[k] < slash_positions(s)[l],
    decreases s.len(),
{
    if s.len() > 0 {
        let t = s.drop_last();
        lemma_slash_positions(t);
        let pt = slash_positions(t);
        if s.last() == '/' {
            let ps = pt.push(s.len() - 1);
            assert(slash_positions(s) == ps);
            assert forall|k: int| 0 <= k < ps.len() implies 0 <= #[trigger] ps[k] < s.len() by {
                if k < pt.len() {
                    assert(ps[k] == pt[k]);
                }
            }
            assert forall|k: int, l: int| 0 <= k < l < ps.len() implies ps[k] < ps[l] by {
                assert(ps[k] == pt[k]);
                if l < pt.len() {
                    assert(ps[l] == pt[l]);
                }
            }
        }
    }
}

/// Reads the domain and device from the path of a watch event.
pub fn parse_device_path(path: &str) -> (r: Result<Option<(u16, u32)>, Error>)
    ensures
        r == device_path(path@),
{
    let n = path.unicode_len();
    let mut slashes: Vec<usize> = Vec::new();
    let mut i: usize = 0;
    while i < n
        invariant
            i <= n == path@.len(),
            slashes@.len() == slash_positions(path@.subrange(0, i as int)).len(),
            forall|k: int| 0 <= k < slashes@.len() ==> slashes@[k] as int == #[trigger] slash_positions(path@.subrange(0, i as int))[k],
        decreases n - i,
    {
        let ghost p = path@.subrange(0, i + 1);
        assert(p.drop_last() =~= path@.subrange(0, i as int));
        if path.get_char(i) == '/' {
            slashes.push(i);
        }
        i = i + 1;
    }
    assert(path@.subrange(0, n as int) =~= path@);
    proof {
        lemma_slash_positions(path@);
    }
    if slashes.len() != 3 {
        return Ok(None);
    }
    let dev = parse_digits(path, slashes[2] + 1, n, 10, u32::MAX);
    let dom = parse_digits(path, slashes[1] + 1, slashes[2], 10, u16::MAX as u32);
    match (dev, dom) {
        (Some(v), Some(d)) => Ok(Some((d as u16, v))),
        _ => Err(Error::ParseFailure),
    }
}

} // verus!
