//! Random class-name ids.
//!
//! The generator state is the state pair of oorandom's 32-bit PCG generator,
//! held as plain integers so that every id drawn is a mathematical function
//! of the seed; the generator's two stepping functions are named, and the
//! identifier characters are picked from a CSS-safe alphabet in verified
//! code.

use vstd::prelude::*;

verus! {

/// The PCG32 state pair that `oorandom::Rand32::new` derives from a seed.
pub uninterp spec fn pcg32_seeded(seed: u64) -> (u64, u64);

/// What `oorandom::Rand32::rand_u32` yields on a state pair: the successor
/// state and the drawn value.
pub uninterp spec fn pcg32_next(state: u64, inc: u64) -> (u64, u64, u32);

/// What `oorandom::Rand32::rand_range` yields on a state pair and the bounds
/// `low..high`: the successor state and the drawn value.
pub uninterp spec fn pcg32_range(state: u64, inc: u64, low: u32, high: u32) -> (u64, u64, u32);

/// Relies on `oorandom::Rand32::new` and `state`: the initial generator
/// state is a function of the seed alone.
#[verifier::external_body]
pub fn rand32_seeded(seed: u64) -> (r: (u64, u64))
    ensures
        r == pcg32_seeded(seed),
{
    let rng = oorandom::Rand32::new(seed);
    rng.state()
}

/// Relies on `oorandom::Rand32::rand_u32` (with `from_state` and `state`):
/// the drawn value and the successor state are functions of the state pair
/// alone.
#[verifier::external_body]
pub fn rand32_next(state: u64, inc: u64) -> (r: (u64, u64, u32))
    ensures
        r == pcg32_next(state, inc),
{
    let mut rng = oorandom::Rand32::from_state((state, inc));
    let v = rng.rand_u32();
    let (s2, i2) = rng.state();
    (s2, i2, v)
}

/// Relies on `oorandom::Rand32::rand_range` (with `from_state` and `state`):
/// the drawn value is a function of the state pair and the bounds alone, and
/// lies within `low..high` as the bounds are documented inclusive-exclusive.
#[verifier::external_body]
pub fn rand32_range(state: u64, inc: u64, low: u32, high: u32) -> (r: (u64, u64, u32))
    requires
        low < high,
    ensures
        r == pcg32_range(state, inc, low, high),
        low <= r.2 < high,
{
    let mut rng = oorandom::Rand32::from_state((state, inc));
    let v = rng.rand_range(low..high);
    let (s2, i2) = rng.state();
    (s2, i2, v)
}

/// Relies on `getrandom::getrandom` to fill eight bytes from the operating
/// system's entropy source; nothing is promised of the value.
#[verifier::external_body]
pub fn random_seed() -> (r: Result<u64, String>)
{
    let mut buf = [0u8; 8];
    match getrandom::getrandom(&mut buf) {
        Ok(()) => Ok(u64::from_ne_bytes(buf)),
        Err(e) => Err(e.to_string()),
    }
}

/// A single character of the identifier alphabet used for generated class
/// ids: indices 0-9 are digits, 10-35 lowercase letters, 36-61 uppercase
/// letters, 62 is `_` and 63 is `-`.
pub open spec fn charset_char(i: int) -> char {
    if i < 10 {
        ((48 + i) as u8) as char
    } else if i < 36 {
        ((97 + (i - 10)) as u8) as char
    } else if i < 62 {
        ((65 + (i - 36)) as u8) as char
    } else if i == 62 {
        '_'
    } else {
        '-'
    }
}

/// Picks the identifier-alphabet character for an index below 64.
pub fn charset_char_at(i: u32) -> (c: char)
    requires
        i < 64,
    ensures
        c == charset_char(i as int),
{
    if i < 10 {
        ((48 + i) as u8) as char
    } else if i < 36 {
        ((97 + (i - 10)) as u8) as char
    } else if i < 62 {
        ((65 + (i - 36)) as u8) as char
    } else if i == 62 {
        '_'
    } else {
        '-'
    }
}

/// The trailing characters of an id: `n` characters drawn from successive
/// six-bit groups of `bits`, each an arbitrary alphabet character.
pub open spec fn id_tail(bits: u32, n: nat) -> Seq<char>
    decreases n,
{
    if n == 0 {
        Seq::<char>::empty()
    } else {
        seq![charset_char((bits & 0x3F) as int)] + id_tail(bits >> 6, (n - 1) as nat)
    }
}

/// A random id of `len` characters drawn from the generator state: the
/// first character comes from the alphabet range that starts a CSS
/// identifier (a letter or `_`, never a digit or `-`), the rest from the
/// whole alphabet, six bits each from one 32-bit draw.
pub open spec fn random_id_spec(rng: (u64, u64), len: nat) -> (Seq<char>, (u64, u64)) {
    let first = pcg32_range(rng.0, rng.1, 10, 63);
    let bits = pcg32_next(first.0, first.1);
    (seq![charset_char(first.2 as int)] + id_tail(bits.2, (len - 1) as nat), (bits.0, bits.1))
}

/// Draws a random id of `length` characters (at most six: one 32-bit draw
/// yields the five six-bit tail groups) and returns it with the successor
/// generator state.
pub fn next_class_id(rng: (u64, u64), length: u32) -> (r: (Vec<char>, (u64, u64)))
    requires
        1 <= length <= 6,
    ensures
        r.0@ == random_id_spec(rng, length as nat).0,
        r.1 == random_id_spec(rng, length as nat).1,
        r.0@.len() == length,
{
    let (s1, i1, first) = rand32_range(rng.0, rng.1, 10, 63);
    let mut out: Vec<char> = Vec::new();
    out.push(charset_char_at(first));
    let (s2, i2, bits0) = rand32_next(s1, i1);
    let ghost head = out@;
    let ghost tail_len = (length - 1) as nat;
    let mut bits: u32 = bits0;
    let mut k: u32 = 0;
    proof {
        assert(head + id_tail(bits0, tail_len) =~= head + id_tail(bits, (tail_len - k) as nat));
    }
    while k < length - 1
        invariant
            0 <= k <= length - 1,
            1 <= length <= 6,
            tail_len == (length - 1) as nat,
            out@.len() == 1 + k,
            head + id_tail(bits0, tail_len) == out@ + id_tail(bits, (tail_len - k) as nat),
        decreases length - 1 - k,
    {
        let d: u32 = bits & 0x3F;
        proof {
            assert(bits & 0x3F < 64) by (bit_vector);
        }
        let ghost out0 = out@;
        let ghost bits_old = bits;
        let ghost m = (tail_len - k) as nat;
        out.push(charset_char_at(d));
        bits = bits >> 6;
        k = k + 1;
        proof {
            assert(m >= 1);
            assert(id_tail(bits_old, m) == seq![charset_char((bits_old & 0x3F) as int)] + id_tail(
                bits_old >> 6,
                (m - 1) as nat,
            ));
            assert((m - 1) as nat == (tail_len - k) as nat);
            assert(out@ =~= out0.push(charset_char(d as int)));
            assert(out0 + (seq![charset_char(d as int)] + id_tail(bits, (tail_len - k) as nat))
                =~= out0.push(charset_char(d as int)) + id_tail(bits, (tail_len - k) as nat));
        }
    }
    proof {
        assert(id_tail(bits, 0nat) == Seq::<char>::empty());
        assert(out@ + Seq::<char>::empty() =~= out@);
        assert(random_id_spec(rng, length as nat).0 == head + id_tail(bits0, tail_len));
    }
    (out, (s2, i2))
}

} // verus!
