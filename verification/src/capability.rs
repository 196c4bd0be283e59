//! Typed capability handles received through the environment.
//!
//! Each right names an environment variable (and a legacy one) whose value
//! is the handle, written in decimal or, after `0x`/`0X`, in hexadecimal,
//! with `_` allowed as a separator. A handle of zero is refused.

use vstd::prelude::*;

use core::marker::PhantomData;
use vstd::string::StringSliceAdditionalSpecFns;

use crate::env::{spec_fnv1a, snapshot_lookup, EnvSnapshot, PhaseKey};

verus! {

/// A kind of capability and the environment keys that carry it.
pub trait Right {
    spec fn spec_env_key() -> PhaseKey;

    spec fn spec_legacy_env_key() -> Option<PhaseKey>;

    fn env_key() -> (r: PhaseKey)
        ensures
            r == Self::spec_env_key(),
    ;

    fn legacy_env_key() -> (r: Option<PhaseKey>)
        ensures
            r == Self::spec_legacy_env_key(),
    ;
}

pub struct FabricRight;

pub struct ResonanceRight;

pub struct SchedulerRight;

pub struct LearningRight;

pub struct DmaRight;

pub struct DeviceMemoryRight;

impl Right for FabricRight {
    open spec fn spec_env_key() -> PhaseKey {
        PhaseKey(spec_fnv1a("ARACH_CAP_FABRIC".spec_bytes()))
    }

    open spec fn spec_legacy_env_key() -> Option<PhaseKey> {
        Some(PhaseKey(spec_fnv1a("SISYPHUS_CAP_FABRIC".spec_bytes())))
    }

    fn env_key() -> (r: PhaseKey) {
        PhaseKey::from_bytes("ARACH_CAP_FABRIC".as_bytes())
    }

    fn legacy_env_key() -> (r: Option<PhaseKey>) {
        Some(PhaseKey::from_bytes("SISYPHUS_CAP_FABRIC".as_bytes()))
    }
}

impl Right for ResonanceRight {
    open spec fn spec_env_key() -> PhaseKey {
        PhaseKey(spec_fnv1a("ARACH_CAP_RESONANCE".spec_bytes()))
    }

    open spec fn spec_legacy_env_key() -> Option<PhaseKey> {
        Some(PhaseKey(spec_fnv1a("SISYPHUS_CAP_RESONANCE".spec_bytes())))
    }

    fn env_key() -> (r: PhaseKey) {
        PhaseKey::from_bytes("ARACH_CAP_RESONANCE".as_bytes())
    }

    fn legacy_env_key() -> (r: Option<PhaseKey>) {
        Some(PhaseKey::from_bytes("SISYPHUS_CAP_RESONANCE".as_bytes()))
    }
}

impl Right for SchedulerRight {
    open spec fn spec_env_key() -> PhaseKey {
        PhaseKey(spec_fnv1a("ARACH_CAP_SCHEDULER".spec_bytes()))
    }

    open spec fn spec_legacy_env_key() -> Option<PhaseKey> {
        Some(PhaseKey(spec_fnv1a("SISYPHUS_CAP_SCHEDULER".spec_bytes())))
    }

    fn env_key() -> (r: PhaseKey) {
        PhaseKey::from_bytes("ARACH_CAP_SCHEDULER".as_bytes())
    }

    fn legacy_env_key() -> (r: Option<PhaseKey>) {
        Some(PhaseKey::from_bytes("SISYPHUS_CAP_SCHEDULER".as_bytes()))
    }
}

impl Right for LearningRight {
    open spec fn spec_env_key() -> PhaseKey {
        PhaseKey(spec_fnv1a("ARACH_CAP_LEARNING".spec_bytes()))
    }

    open spec fn spec_legacy_env_key() -> Option<PhaseKey> {
        Some(PhaseKey(spec_fnv1a("SISYPHUS_CAP_LEARNING".spec_bytes())))
    }

    fn env_key() -> (r: PhaseKey) {
        PhaseKey::from_bytes("ARACH_CAP_LEARNING".as_bytes())
    }

    fn legacy_env_key() -> (r: Option<PhaseKey>) {
        Some(PhaseKey::from_bytes("SISYPHUS_CAP_LEARNING".as_bytes()))
    }
}

impl Right for DmaRight {
    open spec fn spec_env_key() -> PhaseKey {
        PhaseKey(spec_fnv1a("ARACH_CAP_DMA".spec_bytes()))
    }

    open spec fn spec_legacy_env_key() -> Option<PhaseKey> {
        Some(PhaseKey(spec_fnv1a("SISYPHUS_CAP_DMA".spec_bytes())))
    }

    fn env_key() -> (r: PhaseKey) {
        PhaseKey::from_bytes("ARACH_CAP_DMA".as_bytes())
    }

    fn legacy_env_key() -> (r: Option<PhaseKey>) {
        Some(PhaseKey::from_bytes("SISYPHUS_CAP_DMA".as_bytes()))
    }
}

impl Right for DeviceMemoryRight {
    open spec fn spec_env_key() -> PhaseKey {
        PhaseKey(spec_fnv1a("ARACH_CAP_DEVICE_MEMORY".spec_bytes()))
    }

    open spec fn spec_legacy_env_key() -> Option<PhaseKey> {
        Some(PhaseKey(spec_fnv1a("SISYPHUS_CAP_DEVICE_MEMORY".spec_bytes())))
    }

    fn env_key() -> (r: PhaseKey) {
        PhaseKey::from_bytes("ARACH_CAP_DEVICE_MEMORY".as_bytes())
    }

    fn legacy_env_key() -> (r: Option<PhaseKey>) {
        Some(PhaseKey::from_bytes("SISYPHUS_CAP_DEVICE_MEMORY".as_bytes()))
    }
}

/// A nonzero capability handle for right `R`.
pub struct CapHandle<R: Right> {
    raw: u64,
    right: PhantomData<R>,
}

impl<R: Right> Clone for CapHandle<R> {
    fn clone(&self) -> (r: CapHandle<R>)
        ensures
            r.spec_raw() == self.spec_raw(),
    {
        CapHandle { raw: self.raw, right: PhantomData }
    }
}

impl<R: Right> Copy for CapHandle<R> {

}

impl<R: Right> CapHandle<R> {
    pub closed spec fn spec_raw(&self) -> u64 {
        self.raw
    }

    pub fn as_raw(self) -> (r: u64)
        ensures
            r == self.spec_raw(),
    {
        self.raw
    }
}

#[derive(Clone, Copy, Debug, PartialEq, Eq, Structural)]
pub enum CapabilityError {
    Missing,
    Malformed,
    NullHandle,
    Overflow,
}

/// The value of a digit byte in the radix, if it is one.
pub open spec fn digit_value(b: u8, radix: u64) -> Option<u64> {
    if 0x30 <= b <= 0x39 {
        Some((b - 0x30) as u64)
    } else if radix == 16 && 0x61 <= b <= 0x66 {
        Some((b - 0x61 + 10) as u64)
    } else if radix == 16 && 0x41 <= b <= 0x46 {
        Some((b - 0x41 + 10) as u64)
    } else {
        None
    }
}

/// One digit byte read into the value so far: separators are skipped, a
/// byte that is no digit of the radix is malformed, and a value past
/// `u64::MAX` overflows.
#[verifier::opaque]
pub open spec fn parse_step(acc: (u64, nat), b: u8, radix: u64) -> Result<(u64, nat), CapabilityError> {
    if b == 0x5f {
        Ok(acc)
    } else {
        match digit_value(b, radix) {
            None => Err(CapabilityError::Malformed),
            Some(d) => if d >= radix {
                Err(CapabilityError::Malformed)
            } else if acc.0 * radix + d > u64::MAX {
                Err(CapabilityError::Overflow)
            } else {
                Ok(((acc.0 * radix + d) as u64, acc.1 + 1))
            },
        }
    }
}

/// The digits read left to right: the value so far and the number of
/// digits read, or the first error met.
#[verifier::opaque]
pub open spec fn parse_digits(digits: Seq<u8>, radix: u64) -> Result<(u64, nat), CapabilityError>
    decreases digits.len(),
{
    if digits.len() == 0 {
        Ok((0, 0))
    } else {
        match parse_digits(digits.drop_last(), radix) {
            Err(e) => Err(e),
            Ok(acc) => parse_step(acc, digits.last(), radix),
        }
    }
}

/// The radix of a handle: hexadecimal after `0x`/`0X`, else decimal.
pub open spec fn handle_radix(bytes: Seq<u8>) -> u64 {
    if has_hex_prefix(bytes) {
        16
    } else {
        10
    }
}

/// The digits of a handle: what follows `0x`/`0X`, else all of it.
pub open spec fn handle_digits(bytes: Seq<u8>) -> Seq<u8> {
    if has_hex_prefix(bytes) {
        bytes.skip(2)
    } else {
        bytes
    }
}

/// The bytes start with `0x` or `0X`.
pub open spec fn has_hex_prefix(bytes: Seq<u8>) -> bool {
    bytes.len() >= 2 && bytes[0] == 0x30 && (bytes[1] == 0x78 || bytes[1] == 0x58)
}

/// A handle written in decimal, or in hexadecimal after `0x`/`0X`.
pub open spec fn spec_parse_handle(bytes: Seq<u8>) -> Result<u64, CapabilityError> {
    let radix: u64 = if has_hex_prefix(bytes) {
        16
    } else {
        10
    };
    let digits = if has_hex_prefix(bytes) {
        bytes.skip(2)
    } else {
        bytes
    };
    if digits.len() == 0 {
        Err(CapabilityError::Malformed)
    } else {
        match parse_digits(digits, radix) {
            Err(e) => Err(e),
            Ok((value, count)) => if count == 0 {
                Err(CapabilityError::Malformed)
            } else {
                Ok(value)
            },
        }
    }
}

fn parse_byte(value: u64, consumed: usize, byte: u8, radix: u64) -> (r: Result<
    (u64, usize),
    CapabilityError,
>)
    requires
        consumed < usize::MAX,
    ensures
        match parse_step((value, consumed as nat), byte, radix) {
            Ok((v, c)) => r == Ok::<(u64, usize), CapabilityError>((v, c as usize)) && c
                <= consumed + 1,
            Err(e) => r == Err::<(u64, usize), CapabilityError>(e),
        },
{
    reveal(parse_step);
    if byte == 0x5f {
        return Ok((value, consumed));
    }
    let digit = match digit_of(byte, radix) {
        Some(d) => d,
        None => {
            return Err(CapabilityError::Malformed);
        },
    };
    if digit >= radix {
        return Err(CapabilityError::Malformed);
    }
    match value.checked_mul(radix) {
        Some(scaled) => match scaled.checked_add(digit) {
            Some(v) => Ok((v, consumed + 1)),
            None => Err(CapabilityError::Overflow),
        },
        None => {
            assert(value * radix + digit > u64::MAX) by (nonlinear_arith)
                requires
                    value * radix > u64::MAX,
                    digit >= 0,
            ;
            Err(CapabilityError::Overflow)
        },
    }
}

fn digit_of(b: u8, radix: u64) -> (r: Option<u64>)
    ensures
        r == digit_value(b, radix),
{
    if 0x30 <= b && b <= 0x39 {
        Some((b - 0x30) as u64)
    } else if radix == 16 && 0x61 <= b && b <= 0x66 {
        Some((b - 0x61 + 10) as u64)
    } else if radix == 16 && 0x41 <= b && b <= 0x46 {
        Some((b - 0x41 + 10) as u64)
    } else {
        None
    }
}

/// Parses a handle written in decimal, or in hexadecimal after `0x`/`0X`,
/// with `_` separators.
pub fn parse_handle(bytes: &[u8]) -> (r: Result<u64, CapabilityError>)
    ensures
        r == spec_parse_handle(bytes@),
{
    let hex = bytes.len() >= 2 && bytes[0] == 0x30 && (bytes[1] == 0x78 || bytes[1] == 0x58);
    let radix: u64 = if hex {
        16
    } else {
        10
    };
    let digits = if hex {
        vstd::slice::slice_subrange(bytes, 2, bytes.len())
    } else {
        bytes
    };
    proof {
        if hex {
            assert(digits@ =~= bytes@.skip(2));
        }
    }
    if digits.len() == 0 {
        return Err(CapabilityError::Malformed);
    }
    let mut value: u64 = 0;
    let mut consumed: usize = 0;
    let mut i: usize = 0;
    proof {
        reveal(parse_digits);
        assert(digits@.take(0).len() == 0);
    }
    while i < digits.len()
        invariant
            digits@ == (if has_hex_prefix(bytes@) {
                bytes@.skip(2)
            } else {
                bytes@
            }),
            radix == (if has_hex_prefix(bytes@) {
                16u64
            } else {
                10u64
            }),
            digits@.len() > 0,
            i <= digits@.len(),
            consumed <= i,
            parse_digits(digits@.take(i as int), radix) == Ok::<(u64, nat), CapabilityError>(
                (value, consumed as nat),
            ),
        decreases digits@.len() - i,
    {
        let byte = digits[i];
        proof {
            lemma_parse_prefix_step(digits@, radix, i as int);
        }
        match parse_byte(value, consumed, byte, radix) {
            Ok((v, c)) => {
                value = v;
                consumed = c;
            },
            Err(e) => {
                proof {
                    lemma_parse_error_sticks(digits@, radix, i + 1);
                }
                return Err(e);
            },
        }
        i = i + 1;
    }
    proof {
        assert(digits@.take(digits@.len() as int) =~= digits@);
    }
    if consumed == 0 {
        return Err(CapabilityError::Malformed);
    }
    Ok(value)
}

/// Once reading a prefix of the digits fails, reading all of them fails
/// with the same error.
proof fn lemma_parse_prefix_step(digits: Seq<u8>, radix: u64, i: int)
    requires
        0 <= i < digits.len(),
    ensures
        parse_digits(digits.take(i + 1), radix) == match parse_digits(digits.take(i), radix) {
            Err(e) => Err(e),
            Ok(acc) => parse_step(acc, digits[i], radix),
        },
{
    reveal(parse_digits);
    assert(digits.take(i + 1).drop_last() =~= digits.take(i));
    assert(digits.take(i + 1).last() == digits[i]);
}

proof fn lemma_parse_error_sticks(digits: Seq<u8>, radix: u64, k: int)
    requires
        0 <= k <= digits.len(),
        parse_digits(digits.take(k), radix) is Err,
    ensures
        parse_digits(digits, radix) == parse_digits(digits.take(k), radix),
    decreases digits.len() - k,
{
    if k < digits.len() {
        lemma_parse_prefix_step(digits, radix, k);
        lemma_parse_error_sticks(digits, radix, k + 1);
    } else {
        assert(digits.take(k) =~= digits);
    }
}

/// Every non-separator byte is a digit of the radix.
#[verifier::opaque]
pub open spec fn all_digits(s: Seq<u8>, radix: u64) -> bool {
    forall|i: int| 0 <= i < s.len() ==> #[trigger] s[i] == 0x5f || digit_value(s[i], radix) is Some
}

/// The number of digits, separators not counted.
pub open spec fn digit_count(s: Seq<u8>) -> nat
    decreases s.len(),
{
    if s.len() == 0 {
        0
    } else if s.last() == 0x5f {
        digit_count(s.drop_last())
    } else {
        digit_count(s.drop_last()) + 1
    }
}

/// The number the digits write in the radix, separators ignored.
pub open spec fn numeral_value(s: Seq<u8>, radix: u64) -> nat
    decreases s.len(),
{
    if s.len() == 0 {
        0
    } else if s.last() == 0x5f {
        numeral_value(s.drop_last(), radix)
    } else {
        match digit_value(s.last(), radix) {
            Some(d) => numeral_value(s.drop_last(), radix) * (radix as nat) + (d as nat),
            None => 0,
        }
    }
}

/// Reading the digits succeeds exactly when every byte is a digit or a
/// separator and the number they write fits in a `u64`; it then gives that
/// number and the count of digits.
proof fn lemma_parse_digits_value(s: Seq<u8>, radix: u64)
    requires
        radix == 10 || radix == 16,
    ensures
        parse_digits(s, radix) is Ok <==> all_digits(s, radix) && numeral_value(s, radix)
            <= u64::MAX,
        parse_digits(s, radix) is Ok ==> parse_digits(s, radix)->Ok_0 == (
            numeral_value(s, radix) as u64,
            digit_count(s),
        ),
    decreases s.len(),
{
    reveal(all_digits);
    reveal(parse_digits);
    reveal(parse_step);
    if s.len() > 0 {
        let p = s.drop_last();
        let b = s.last();
        lemma_parse_digits_value(p, radix);
        assert(all_digits(s, radix) ==> all_digits(p, radix)) by {
            if all_digits(s, radix) {
                assert forall|i: int| 0 <= i < p.len() implies #[trigger] p[i] == 0x5f
                    || digit_value(p[i], radix) is Some by {
                    assert(p[i] == s[i]);
                }
            }
        }
        assert(all_digits(p, radix) && (b == 0x5f || digit_value(b, radix) is Some) ==> all_digits(
            s,
            radix,
        )) by {
            if all_digits(p, radix) && (b == 0x5f || digit_value(b, radix) is Some) {
                assert forall|i: int| 0 <= i < s.len() implies #[trigger] s[i] == 0x5f
                    || digit_value(s[i], radix) is Some by {
                    if i < p.len() {
                        assert(s[i] == p[i]);
                    }
                }
            }
        }
        if b != 0x5f {
            match digit_value(b, radix) {
                Some(d) => {
                    let vp = numeral_value(p, radix);
                    assert(d < radix);
                    assert(vp * radix + d >= vp) by (nonlinear_arith)
                        requires
                            radix >= 1,
                            d >= 0,
                    ;
                },
                None => {
                    assert(!all_digits(s, radix)) by {
                        assert(s[s.len() - 1] == b);
                    }
                },
            }
        }
    }
}

/// The digits before `j` read cleanly and byte `j` is neither a digit of
/// the radix nor a separator.
#[verifier::opaque]
pub open spec fn malformed_at(s: Seq<u8>, radix: u64, j: int) -> bool {
    &&& 0 <= j < s.len()
    &&& all_digits(s.take(j), radix)
    &&& numeral_value(s.take(j), radix) <= u64::MAX
    &&& !(s[j] == 0x5f || digit_value(s[j], radix) is Some)
}

/// The digits before `j` read cleanly and digit `j` takes the number past
/// `u64::MAX`.
#[verifier::opaque]
pub open spec fn overflow_at(s: Seq<u8>, radix: u64, j: int) -> bool {
    &&& 0 <= j < s.len()
    &&& all_digits(s.take(j + 1), radix)
    &&& numeral_value(s.take(j), radix) <= u64::MAX
    &&& numeral_value(s.take(j + 1), radix) > u64::MAX
}

/// A failure lies within the digits.
proof fn lemma_failure_range(s: Seq<u8>, radix: u64, j: int)
    ensures
        malformed_at(s, radix, j) ==> 0 <= j < s.len(),
        overflow_at(s, radix, j) ==> 0 <= j < s.len(),
{
    reveal(malformed_at);
    reveal(overflow_at);
}

/// Failures before the last byte are failures of the digits without it.
proof fn lemma_failure_in_prefix(s: Seq<u8>, radix: u64, j: int)
    requires
        0 <= j < s.len() - 1,
    ensures
        malformed_at(s, radix, j) == malformed_at(s.drop_last(), radix, j),
        overflow_at(s, radix, j) == overflow_at(s.drop_last(), radix, j),
{
    reveal(malformed_at);
    reveal(overflow_at);
    let p = s.drop_last();
    assert(s.take(j) =~= p.take(j));
    assert(s.take(j + 1) =~= p.take(j + 1));
    assert(s[j] == p[j]);
}

/// When the digits without the last byte already fail, the digits with it
/// fail at the same place, and not at the last byte.
proof fn lemma_failure_not_last(s: Seq<u8>, radix: u64)
    requires
        s.len() > 0,
        !(all_digits(s.drop_last(), radix) && numeral_value(s.drop_last(), radix) <= u64::MAX),
    ensures
        !malformed_at(s, radix, s.len() - 1),
        !overflow_at(s, radix, s.len() - 1),
{
    reveal(all_digits);
    reveal(malformed_at);
    reveal(overflow_at);
    let p = s.drop_last();
    let n = p.len() as int;
    assert(s.take(n) =~= p);
    assert(s.take(n + 1) =~= s);
    if all_digits(s, radix) {
        assert forall|i: int| 0 <= i < p.len() implies #[trigger] p[i] == 0x5f || digit_value(
            p[i],
            radix,
        ) is Some by {
            assert(s[i] == p[i]);
        }
    }
}

/// Reading the digits left to right fails at the first byte that is no
/// digit (malformed) or the first digit that overflows (overflow).
#[verifier::rlimit(50)]
proof fn lemma_parse_digits_errors(s: Seq<u8>, radix: u64)
    requires
        radix == 10 || radix == 16,
    ensures
        parse_digits(s, radix) == Err::<(u64, nat), CapabilityError>(CapabilityError::Malformed)
            <==> exists|j: int| #[trigger] malformed_at(s, radix, j),
        parse_digits(s, radix) == Err::<(u64, nat), CapabilityError>(CapabilityError::Overflow)
            <==> exists|j: int| #[trigger] overflow_at(s, radix, j),
    decreases s.len(),
{
    if s.len() == 0 {
        reveal(parse_digits);
        reveal(malformed_at);
        reveal(overflow_at);
        assert forall|j: int| !#[trigger] malformed_at(s, radix, j) by {}
        assert forall|j: int| !#[trigger] overflow_at(s, radix, j) by {}
    } else {
        let p = s.drop_last();
        let n = p.len() as int;
        lemma_parse_digits_errors(p, radix);
        lemma_parse_digits_value(p, radix);
        assert forall|j: int| 0 <= j < n implies #[trigger] malformed_at(s, radix, j)
            == malformed_at(p, radix, j) by {
            lemma_failure_in_prefix(s, radix, j);
        }
        assert forall|j: int| 0 <= j < n implies #[trigger] overflow_at(s, radix, j)
            == overflow_at(p, radix, j) by {
            lemma_failure_in_prefix(s, radix, j);
        }
        lemma_parse_digits_step(s, radix);
        if parse_digits(p, radix) is Err {
            lemma_failure_not_last(s, radix);
            if exists|j: int| #[trigger] malformed_at(s, radix, j) {
                let j = choose|j: int| #[trigger] malformed_at(s, radix, j);
                lemma_failure_range(s, radix, j);
                assert(malformed_at(p, radix, j));
            }
            if exists|j: int| #[trigger] overflow_at(s, radix, j) {
                let j = choose|j: int| #[trigger] overflow_at(s, radix, j);
                lemma_failure_range(s, radix, j);
                assert(overflow_at(p, radix, j));
            }
            if exists|j: int| #[trigger] malformed_at(p, radix, j) {
                let j = choose|j: int| #[trigger] malformed_at(p, radix, j);
                lemma_failure_range(p, radix, j);
                assert(malformed_at(s, radix, j));
            }
            if exists|j: int| #[trigger] overflow_at(p, radix, j) {
                let j = choose|j: int| #[trigger] overflow_at(p, radix, j);
                lemma_failure_range(p, radix, j);
                assert(overflow_at(s, radix, j));
            }
        } else {
            lemma_last_byte_decides(s, radix);
            if exists|j: int| #[trigger] malformed_at(s, radix, j) {
                let j = choose|j: int| #[trigger] malformed_at(s, radix, j);
                lemma_failure_range(s, radix, j);
                if j < n {
                    assert(malformed_at(p, radix, j));
                }
            }
            if exists|j: int| #[trigger] overflow_at(s, radix, j) {
                let j = choose|j: int| #[trigger] overflow_at(s, radix, j);
                lemma_failure_range(s, radix, j);
                if j < n {
                    assert(overflow_at(p, radix, j));
                }
            }
        }
    }
}

/// Reading all the digits is reading all but the last and then the last.
proof fn lemma_parse_digits_step(s: Seq<u8>, radix: u64)
    requires
        s.len() > 0,
    ensures
        parse_digits(s, radix) == match parse_digits(s.drop_last(), radix) {
            Err(e) => Err(e),
            Ok(acc) => parse_step(acc, s.last(), radix),
        },
{
    reveal(parse_digits);
}

/// When the digits without the last byte read cleanly, the last byte
/// decides: a byte that is no digit is malformed there, a digit that takes
/// the number past `u64::MAX` overflows there, and otherwise nothing fails.
proof fn lemma_last_byte_decides(s: Seq<u8>, radix: u64)
    requires
        radix == 10 || radix == 16,
        s.len() > 0,
        parse_digits(s.drop_last(), radix) is Ok,
    ensures
        parse_digits(s, radix) == Err::<(u64, nat), CapabilityError>(CapabilityError::Malformed)
            <==> malformed_at(s, radix, s.len() - 1),
        parse_digits(s, radix) == Err::<(u64, nat), CapabilityError>(CapabilityError::Overflow)
            <==> overflow_at(s, radix, s.len() - 1),
{
    reveal(all_digits);
    reveal(malformed_at);
    reveal(overflow_at);
    let p = s.drop_last();
    let n = p.len() as int;
    lemma_parse_digits_value(p, radix);
    lemma_parse_digits_value(s, radix);
    lemma_parse_digits_step(s, radix);
    reveal(parse_step);
    assert(s.take(n) =~= p);
    assert(s.take(n + 1) =~= s);
    assert(s[n] == s.last());
    let b = s.last();
    assert(all_digits(p, radix) && (b == 0x5f || digit_value(b, radix) is Some) ==> all_digits(
        s,
        radix,
    )) by {
        if all_digits(p, radix) && (b == 0x5f || digit_value(b, radix) is Some) {
            assert forall|i: int| 0 <= i < s.len() implies #[trigger] s[i] == 0x5f || digit_value(
                s[i],
                radix,
            ) is Some by {
                if i < n {
                    assert(s[i] == p[i]);
                }
            }
        }
    }
    assert(all_digits(s, radix) ==> (b == 0x5f || digit_value(b, radix) is Some)) by {
        if all_digits(s, radix) {
            assert(s[n] == 0x5f || digit_value(s[n], radix) is Some);
        }
    }
}

/// A handle parses exactly when its digits (after `0x`/`0X` for
/// hexadecimal) are at least one digit of the radix with `_` separators and
/// write a number that fits in a `u64`; the handle is that number. Read
/// left to right, the first byte that is no digit makes it malformed, the
/// first digit past `u64::MAX` makes it overflow, and no digits at all is
/// malformed.
pub proof fn lemma_parse_handle_value(bytes: Seq<u8>)
    ensures
        spec_parse_handle(bytes) is Ok <==> all_digits(handle_digits(bytes), handle_radix(bytes))
            && digit_count(handle_digits(bytes)) > 0 && numeral_value(
            handle_digits(bytes),
            handle_radix(bytes),
        ) <= u64::MAX,
        spec_parse_handle(bytes) is Ok ==> spec_parse_handle(bytes)->Ok_0 == numeral_value(
            handle_digits(bytes),
            handle_radix(bytes),
        ),
        handle_digits(bytes).len() == 0 ==> spec_parse_handle(bytes) == Err::<
            u64,
            CapabilityError,
        >(CapabilityError::Malformed),
        (exists|j: int| #[trigger] malformed_at(handle_digits(bytes), handle_radix(bytes), j))
            ==> spec_parse_handle(bytes) == Err::<u64, CapabilityError>(
            CapabilityError::Malformed,
        ),
        spec_parse_handle(bytes) == Err::<u64, CapabilityError>(CapabilityError::Overflow) <==> (
        exists|j: int| #[trigger] overflow_at(handle_digits(bytes), handle_radix(bytes), j)),
        spec_parse_handle(bytes) is Err ==> spec_parse_handle(bytes) == Err::<
            u64,
            CapabilityError,
        >(CapabilityError::Malformed) || spec_parse_handle(bytes) == Err::<u64, CapabilityError>(
            CapabilityError::Overflow,
        ),
{
    lemma_handle_of_digits(bytes, handle_digits(bytes), handle_radix(bytes));
    lemma_handle_core(handle_digits(bytes), handle_radix(bytes), spec_parse_handle(bytes));
}

/// The handle laws over the digits and the radix.
proof fn lemma_handle_core(digits: Seq<u8>, radix: u64, r: Result<u64, CapabilityError>)
    requires
        radix == 10 || radix == 16,
        r == (if digits.len() == 0 {
            Err::<u64, CapabilityError>(CapabilityError::Malformed)
        } else {
            match parse_digits(digits, radix) {
                Err(e) => Err::<u64, CapabilityError>(e),
                Ok((value, count)) => if count == 0 {
                    Err::<u64, CapabilityError>(CapabilityError::Malformed)
                } else {
                    Ok::<u64, CapabilityError>(value)
                },
            }
        }),
    ensures
        r is Ok <==> all_digits(digits, radix) && digit_count(digits) > 0 && numeral_value(
            digits,
            radix,
        ) <= u64::MAX,
        r is Ok ==> r->Ok_0 == numeral_value(digits, radix),
        digits.len() == 0 ==> r == Err::<u64, CapabilityError>(CapabilityError::Malformed),
        (exists|j: int| #[trigger] malformed_at(digits, radix, j)) ==> r == Err::<
            u64,
            CapabilityError,
        >(CapabilityError::Malformed),
        r == Err::<u64, CapabilityError>(CapabilityError::Overflow) <==> (exists|j: int|
            #[trigger] overflow_at(digits, radix, j)),
        r is Err ==> r == Err::<u64, CapabilityError>(CapabilityError::Malformed) || r == Err::<
            u64,
            CapabilityError,
        >(CapabilityError::Overflow),
{
    lemma_digits_laws(digits, radix);
}

/// The handle is what its digits read to.
proof fn lemma_handle_of_digits(bytes: Seq<u8>, digits: Seq<u8>, radix: u64)
    requires
        radix == (if has_hex_prefix(bytes) {
            16u64
        } else {
            10u64
        }),
        digits == (if has_hex_prefix(bytes) {
            bytes.skip(2)
        } else {
            bytes
        }),
    ensures
        spec_parse_handle(bytes) == (if digits.len() == 0 {
            Err::<u64, CapabilityError>(CapabilityError::Malformed)
        } else {
            match parse_digits(digits, radix) {
                Err(e) => Err::<u64, CapabilityError>(e),
                Ok((value, count)) => if count == 0 {
                    Err::<u64, CapabilityError>(CapabilityError::Malformed)
                } else {
                    Ok::<u64, CapabilityError>(value)
                },
            }
        }),
{
}

/// The laws of reading digits, gathered.
proof fn lemma_digits_laws(digits: Seq<u8>, radix: u64)
    requires
        radix == 10 || radix == 16,
    ensures
        parse_digits(digits, radix) is Ok <==> all_digits(digits, radix) && numeral_value(
            digits,
            radix,
        ) <= u64::MAX,
        parse_digits(digits, radix) is Ok ==> parse_digits(digits, radix)->Ok_0 == (
            numeral_value(digits, radix) as u64,
            digit_count(digits),
        ),
        parse_digits(digits, radix) == Err::<(u64, nat), CapabilityError>(
            CapabilityError::Malformed,
        ) <==> exists|j: int| #[trigger] malformed_at(digits, radix, j),
        parse_digits(digits, radix) == Err::<(u64, nat), CapabilityError>(
            CapabilityError::Overflow,
        ) <==> exists|j: int| #[trigger] overflow_at(digits, radix, j),
        parse_digits(digits, radix) is Err ==> parse_digits(digits, radix) == Err::<
            (u64, nat),
            CapabilityError,
        >(CapabilityError::Malformed) || parse_digits(digits, radix) == Err::<
            (u64, nat),
            CapabilityError,
        >(CapabilityError::Overflow),
        digits.len() == 0 ==> digit_count(digits) == 0 && (forall|j: int|
            !#[trigger] overflow_at(digits, radix, j)) && (forall|j: int|
            !#[trigger] malformed_at(digits, radix, j)),
{
    lemma_parse_digits_value(digits, radix);
    lemma_parse_digits_errors(digits, radix);
    lemma_parse_error_kinds(digits, radix);
    if digits.len() == 0 {
        reveal(overflow_at);
        reveal(malformed_at);
    }
}

/// Reading digits fails only as malformed or as overflowing.
proof fn lemma_parse_error_kinds(s: Seq<u8>, radix: u64)
    ensures
        parse_digits(s, radix) is Err ==> parse_digits(s, radix) == Err::<
            (u64, nat),
            CapabilityError,
        >(CapabilityError::Malformed) || parse_digits(s, radix) == Err::<
            (u64, nat),
            CapabilityError,
        >(CapabilityError::Overflow),
    decreases s.len(),
{
    reveal(parse_digits);
    reveal(parse_step);
    if s.len() > 0 {
        lemma_parse_error_kinds(s.drop_last(), radix);
    }
}

/// Receives capability handles from the process environment.
pub struct CapabilityEnvelope<'environment> {
    environment: &'environment EnvSnapshot,
}

/// The handle for a right: the value under the right's key, else under its
/// legacy key, parsed, and nonzero.
pub open spec fn spec_recv(env: Seq<(u64, Seq<u8>)>, key: PhaseKey, legacy: Option<PhaseKey>) -> Result<
    u64,
    CapabilityError,
> {
    let found = match snapshot_lookup(env, key.0, 0) {
        Some(v) => Some(v),
        None => match legacy {
            Some(l) => snapshot_lookup(env, l.0, 0),
            None => None,
        },
    };
    match found {
        None => Err(CapabilityError::Missing),
        Some(bytes) => match spec_parse_handle(bytes) {
            Err(e) => Err(e),
            Ok(raw) => if raw == 0 {
                Err(CapabilityError::NullHandle)
            } else {
                Ok(raw)
            },
        },
    }
}

/// The right's own key wins: when it is set, its value alone decides the
/// handle and the legacy key is not read; the legacy key is read only when
/// the own key is unset, and with neither the handle is missing. A handle
/// is never zero, and a value that parses to zero is refused as null.
pub proof fn lemma_recv_prefers_own_key(
    env: Seq<(u64, Seq<u8>)>,
    key: PhaseKey,
    legacy: Option<PhaseKey>,
    other: Option<PhaseKey>,
)
    ensures
        snapshot_lookup(env, key.0, 0) is Some ==> spec_recv(env, key, legacy) == spec_recv(
            env,
            key,
            other,
        ),
        snapshot_lookup(env, key.0, 0) is None && legacy is None ==> spec_recv(env, key, legacy)
            == Err::<u64, CapabilityError>(CapabilityError::Missing),
        snapshot_lookup(env, key.0, 0) is None && legacy is Some ==> spec_recv(env, key, legacy)
            == spec_recv(env, legacy->Some_0, None),
        spec_recv(env, key, legacy) matches Ok(raw) ==> raw != 0,
        (snapshot_lookup(env, key.0, 0) matches Some(b) && spec_parse_handle(b) == Ok::<
            u64,
            CapabilityError,
        >(0u64)) ==> spec_recv(env, key, legacy) == Err::<u64, CapabilityError>(
            CapabilityError::NullHandle,
        ),
{
}

impl<'environment> CapabilityEnvelope<'environment> {
    pub closed spec fn environment(&self) -> Seq<(u64, Seq<u8>)> {
        self.environment@
    }

    pub fn new(environment: &'environment EnvSnapshot) -> (r: CapabilityEnvelope<'environment>)
        ensures
            r.environment() == environment@,
    {
        CapabilityEnvelope { environment }
    }

    /// The handle for right `R`.
    pub fn recv<R: Right>(&self) -> (r: Result<CapHandle<R>, CapabilityError>)
        ensures
            match spec_recv(self.environment(), R::spec_env_key(), R::spec_legacy_env_key()) {
                Ok(raw) => r is Ok && r->Ok_0.spec_raw() == raw,
                Err(e) => r is Err && r->Err_0 == e,
            },
    {
        let key = R::env_key();
        let bytes = match self.environment.get(key) {
            Some(value) => Some(value),
            None => match R::legacy_env_key() {
                Some(legacy) => self.environment.get(legacy),
                None => None,
            },
        };
        let bytes = match bytes {
            Some(b) => b,
            None => {
                return Err(CapabilityError::Missing);
            },
        };
        let raw = match parse_handle(bytes) {
            Ok(v) => v,
            Err(e) => {
                return Err(e);
            },
        };
        if raw == 0 {
            return Err(CapabilityError::NullHandle);
        }
        Ok(CapHandle { raw, right: PhantomData })
    }
}

/// A received handle is never the null handle.
pub proof fn lemma_received_handles_are_nonzero(
    env: Seq<(u64, Seq<u8>)>,
    key: PhaseKey,
    legacy: Option<PhaseKey>,
)
    ensures
        spec_recv(env, key, legacy) is Ok ==> spec_recv(env, key, legacy)->Ok_0 != 0,
{
}

} // verus!
