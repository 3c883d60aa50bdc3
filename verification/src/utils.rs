//! Geometry of the board: directions, neighbouring tiles, distances.

use vstd::prelude::*;
use crate::error::AntsError;

verus! {

/// A direction code is one of the nine keys of a keypad: `5` stays, the others
/// move one tile (`1` south-west, `2` south, `3` south-east, `4` west, `6` east,
/// `7` north-west, `8` north, `9` north-east). North is the direction of growing `y`.
pub open spec fn valid_direction(direction: u8) -> bool {
    1 <= direction <= 9
}

/// Change of the `x` coordinate that a direction stands for: -1, 0 or 1.
pub open spec fn dx(direction: u8) -> int {
    if direction == 1 || direction == 4 || direction == 7 {
        -1
    } else if direction == 3 || direction == 6 || direction == 9 {
        1
    } else {
        0
    }
}

/// Change of the `y` coordinate that a direction stands for: -1, 0 or 1.
pub open spec fn dy(direction: u8) -> int {
    if direction == 1 || direction == 2 || direction == 3 {
        -1
    } else if direction == 7 || direction == 8 || direction == 9 {
        1
    } else {
        0
    }
}

/// A coordinate moved by `delta` and held inside the board `0..=65535`.
pub open spec fn clamped(coordinate: u16, delta: int) -> u16 {
    let moved = coordinate + delta;
    if moved < 0 {
        0
    } else if moved > u16::MAX {
        u16::MAX
    } else {
        moved as u16
    }
}

/// The tile reached from `origin` by one step in `direction`. A step over the
/// edge of the board stays on the edge.
pub open spec fn next_tile(origin: (u16, u16), direction: u8) -> (u16, u16) {
    (clamped(origin.0, dx(direction)), clamped(origin.1, dy(direction)))
}

/// Returns the point that will be reached from origin by going in the direction.
pub fn next_point(origin: (u16, u16), direction: u8) -> (r: Result<(u16, u16), AntsError>)
    ensures
        valid_direction(direction) ==> r == Ok::<(u16, u16), AntsError>(next_tile(origin, direction)),
        !valid_direction(direction) ==> r == Err::<(u16, u16), AntsError>(AntsError::InvalidDirectionCode),
{
    let west: u16 = origin.0.saturating_sub(1);
    let east: u16 = origin.0.saturating_add(1);
    let south: u16 = origin.1.saturating_sub(1);
    let north: u16 = origin.1.saturating_add(1);
    match direction {
        1 => Ok((west, south)),
        2 => Ok((origin.0, south)),
        3 => Ok((east, south)),
        4 => Ok((west, origin.1)),
        5 => Ok(origin),
        6 => Ok((east, origin.1)),
        7 => Ok((west, north)),
        8 => Ok((origin.0, north)),
        9 => Ok((east, north)),
        _ => Err(AntsError::InvalidDirectionCode),
    }
}

/// The greatest `r` with `r * r <= n`.
pub open spec fn isqrt(n: nat) -> nat
    decreases n,
{
    if n == 0 {
        0
    } else {
        let r = isqrt((n - 1) as nat);
        if (r + 1) * (r + 1) <= n {
            r + 1
        } else {
            r
        }
    }
}

/// `isqrt(n)` is a root of `n` rounded down: its square does not exceed `n`, the
/// square of its successor does.
pub proof fn lemma_isqrt_bounds(n: nat)
    ensures
        isqrt(n) * isqrt(n) <= n < (isqrt(n) + 1) * (isqrt(n) + 1),
    decreases n,
{
    let s = isqrt(n);
    if n == 0 {
        assert(s * s == 0 && (s + 1) * (s + 1) == 1) by (nonlinear_arith)
            requires
                s == 0,
        ;
    } else {
        lemma_isqrt_bounds((n - 1) as nat);
        let r = isqrt((n - 1) as nat);
        if (r + 1) * (r + 1) <= n {
            assert(s * s <= n && n < (s + 1) * (s + 1)) by (nonlinear_arith)
                requires
                    s == r + 1,
                    (r + 1) * (r + 1) <= n,
                    n - 1 < (r + 1) * (r + 1),
            ;
        }
    }
}

/// Only one number lies between the bounds of `lemma_isqrt_bounds`.
pub proof fn lemma_isqrt_unique(n: nat, r: nat)
    requires
        r * r <= n < (r + 1) * (r + 1),
    ensures
        isqrt(n) == r,
{
    lemma_isqrt_bounds(n);
    let s = isqrt(n);
    if s < r {
        assert((s + 1) * (s + 1) <= r * r) by (nonlinear_arith)
            requires
                s + 1 <= r,
        ;
    } else if r < s {
        assert((r + 1) * (r + 1) <= s * s) by (nonlinear_arith)
            requires
                r + 1 <= s,
        ;
    }
}

/// Square of the Euclidean distance between two points.
pub open spec fn squared_distance(pos1: (u16, u16), pos2: (u16, u16)) -> nat {
    let x_diff = pos1.0 - pos2.0;
    let y_diff = pos1.1 - pos2.1;
    (x_diff * x_diff + y_diff * y_diff) as nat
}

/// Euclidean distance between two points, rounded down and held at `u16::MAX`.
pub open spec fn distance(pos1: (u16, u16), pos2: (u16, u16)) -> u16 {
    let d = isqrt(squared_distance(pos1, pos2));
    if d > u16::MAX {
        u16::MAX
    } else {
        d as u16
    }
}

/// Absolute difference of two coordinates.
fn abs_diff(a: u16, b: u16) -> (d: u64)
    ensures
        d == if a >= b { a - b } else { b - a },
{
    if a >= b {
        (a - b) as u64
    } else {
        (b - a) as u64
    }
}

/// Calculates the distance between two points
pub fn get_distance(pos1: (u16, u16), pos2: (u16, u16)) -> (d: u16)
    ensures
        d == distance(pos1, pos2),
{
    let x_diff: u64 = abs_diff(pos1.0, pos2.0);
    let y_diff: u64 = abs_diff(pos1.1, pos2.1);
    assert(x_diff * x_diff <= 65535 * 65535) by (nonlinear_arith)
        requires
            x_diff <= 65535,
    ;
    assert(y_diff * y_diff <= 65535 * 65535) by (nonlinear_arith)
        requires
            y_diff <= 65535,
    ;
    let distance_squared: u64 = x_diff * x_diff + y_diff * y_diff;
    assert(distance_squared == squared_distance(pos1, pos2)) by (nonlinear_arith)
        requires
            x_diff == pos1.0 - pos2.0 || x_diff == pos2.0 - pos1.0,
            y_diff == pos1.1 - pos2.1 || y_diff == pos2.1 - pos1.1,
            distance_squared == x_diff * x_diff + y_diff * y_diff,
            squared_distance(pos1, pos2) == ((pos1.0 - pos2.0) * (pos1.0 - pos2.0) + (pos1.1
                - pos2.1) * (pos1.1 - pos2.1)) as nat,
    ;
    if distance_squared >= 65535 * 65535 {
        proof {
            let n = distance_squared as nat;
            lemma_isqrt_bounds(n);
            let s = isqrt(n);
            if s < 65535 {
                assert((s + 1) * (s + 1) <= 65535 * 65535) by (nonlinear_arith)
                    requires
                        s + 1 <= 65535,
                ;
            }
        }
        return u16::MAX;
    }
    let mut low: u64 = 0;
    let mut high: u64 = 65535;
    while high - low > 1
        invariant
            low < high <= 65535,
            low * low <= distance_squared < high * high,
        decreases high - low,
    {
        let mid: u64 = low + (high - low) / 2;
        assert(mid * mid <= 65535 * 65535) by (nonlinear_arith)
            requires
                mid <= 65535,
        ;
        if mid * mid <= distance_squared {
            low = mid;
        } else {
            high = mid;
        }
    }
    proof {
        lemma_isqrt_unique(distance_squared as nat, low as nat);
    }
    low as u16
}

/// The unsigned number that two bytes stand for, the low byte first.
pub open spec fn u16_le(bytes: Seq<u8>) -> u16 {
    (bytes[0] + 256 * bytes[1]) as u16
}

/// The signed number that two bytes stand for, the low byte first, in two's
/// complement.
pub open spec fn i16_le(bytes: Seq<u8>) -> i16 {
    if bytes[1] < 128 {
        (bytes[0] + 256 * bytes[1]) as i16
    } else {
        (bytes[0] + 256 * bytes[1] - 65536) as i16
    }
}

/// The characters that bytes stand for, one for each byte: the character with
/// the number of the byte.
pub open spec fn latin1(bytes: Seq<u8>) -> Seq<char> {
    Seq::new(bytes.len(), |i: int| bytes[i] as char)
}

/// Reads an unsigned number, the low byte first.
pub fn u16_from_le_bytes(bytes: [u8; 2]) -> (value: u16)
    ensures
        value == u16_le(bytes@),
{
    bytes[0] as u16 + 256 * (bytes[1] as u16)
}

/// Reads a signed number, the low byte first.
pub fn i16_from_le_bytes(bytes: [u8; 2]) -> (value: i16)
    ensures
        value == i16_le(bytes@),
{
    let unsigned: i32 = bytes[0] as i32 + 256 * (bytes[1] as i32);
    if bytes[1] < 128 {
        unsigned as i16
    } else {
        (unsigned - 65536) as i16
    }
}

/// Takes the two bytes that start at `at` and returns them as array.
///
/// Fails where the input holds less than two bytes from there on.
pub fn read_to_two_byte_array(input: &[u8], at: usize) -> (r: Result<[u8; 2], AntsError>)
    ensures
        at + 2 <= input@.len() ==> r is Ok && r->Ok_0@ == input@.subrange(at as int, at + 2),
        at + 2 > input@.len() ==> r is Err && r->Err_0 == AntsError::TruncatedStream,
{
    if input.len() < 2 || at > input.len() - 2 {
        return Err(AntsError::TruncatedStream);
    }
    let bytes: [u8; 2] = [input[at], input[at + 1]];
    Ok(bytes)
}

/// `String::push`: the string grows by one character at its end.
#[verifier::external_body]
fn push_char(text: &mut String, letter: char)
    ensures
        final(text)@ == old(text)@.push(letter),
{
    text.push(letter)
}

/// Takes the 16 bytes that start at `at` and parses them as a string, one
/// character for each byte.
///
/// Fails where the input holds less than 16 bytes from there on.
pub fn bytes_to_string(input: &[u8], at: usize) -> (r: Result<String, AntsError>)
    ensures
        at + 16 <= input@.len() ==> r is Ok && r->Ok_0@ == latin1(
            input@.subrange(at as int, at + 16),
        ),
        at + 16 > input@.len() ==> r is Err && r->Err_0 == AntsError::TruncatedStream,
{
    if input.len() < 16 || at > input.len() - 16 {
        return Err(AntsError::TruncatedStream);
    }
    let mut s: String = String::new();
    let mut i: usize = 0;
    while i < 16
        invariant
            i <= 16,
            at + 16 <= input@.len() <= usize::MAX,
            s@ == latin1(input@.subrange(at as int, at + i)),
        decreases 16 - i,
    {
        push_char(&mut s, input[at + i] as char);
        i += 1;
    }
    Ok(s)
}

} // verus!
