//! Sizes shown in the status bar, and the choice of the disk that holds a path.
use vstd::prelude::*;
use crate::paths::{path_starts_with, starts_with_path};
use crate::text::{decimal, digit_char, push_char, push_decimal};
use vstd::utf8::encode_utf8;

verus! {

/// `2^e`.
pub open spec fn two_pow(e: nat) -> nat
    decreases e,
{
    if e == 0 {
        1
    } else {
        2 * two_pow((e - 1) as nat)
    }
}

/// `n / d` rounded to the nearest integer, ties going to the even quotient.
pub open spec fn div_round_even(n: nat, d: nat) -> nat {
    let q = n / d;
    let r = n % d;
    if 2 * r > d || (2 * r == d && q % 2 == 1) {
        q + 1
    } else {
        q
    }
}

/// How many low bits of `b` a 53-bit significand cannot hold.
pub open spec fn excess_bits(b: nat) -> nat
    decreases b,
{
    if b < 0x20_0000_0000_0000 {
        0
    } else {
        1 + excess_bits(b / 2)
    }
}

/// The value of the `f64` nearest to `b` (ties to even), which is what
/// converting an integer to `f64` gives.
pub open spec fn nearest_f64(b: nat) -> nat {
    let p = two_pow(excess_bits(b));
    div_round_even(b, p) * p
}

/// `1024^u` for the units in use.
pub open spec fn kibi_pow(u: nat) -> nat {
    if u == 0 {
        1
    } else if u == 1 {
        0x400
    } else if u == 2 {
        0x10_0000
    } else if u == 3 {
        0x4000_0000
    } else {
        0x100_0000_0000
    }
}

/// The unit a size is shown in: the largest of B, K, M, G, T whose factor it reaches.
pub open spec fn size_unit(v: nat) -> nat {
    if v >= kibi_pow(4) {
        4
    } else if v >= kibi_pow(3) {
        3
    } else if v >= kibi_pow(2) {
        2
    } else if v >= kibi_pow(1) {
        1
    } else {
        0
    }
}

/// The letter of a unit.
pub open spec fn unit_letter(u: nat) -> char {
    if u == 0 {
        'B'
    } else if u == 1 {
        'K'
    } else if u == 2 {
        'M'
    } else if u == 3 {
        'G'
    } else {
        'T'
    }
}

/// The compact notation of a size in bytes: whole bytes below 1 KiB, else the
/// size in its unit with one decimal, rounded half to even, as the value is
/// held in an `f64`.
pub open spec fn human_size_text(bytes: nat) -> Seq<char> {
    let v = nearest_f64(bytes);
    let u = size_unit(v);
    if u == 0 {
        decimal(v).push('B')
    } else {
        let tenths = div_round_even(v * 10, kibi_pow(u));
        decimal(tenths / 10) + seq!['.', digit_char(tenths % 10), unit_letter(u)]
    }
}

/// Sizes below one kibibyte are shown exactly, in bytes.
pub proof fn law_small_sizes_in_bytes(bytes: nat)
    requires
        bytes < 1024,
    ensures
        human_size_text(bytes) == decimal(bytes).push('B'),
{
    assert(excess_bits(bytes) == 0);
    assert(two_pow(0) == 1);
    assert(nearest_f64(bytes) == bytes);
}

proof fn lemma_significand_large(b: nat)
    requires
        b >= 0x20_0000_0000_0000,
    ensures
        b / two_pow(excess_bits(b)) >= 0x10_0000_0000_0000,
        two_pow(excess_bits(b)) >= 1,
    decreases b,
{
    let h = b / 2;
    if h < 0x20_0000_0000_0000 {
        assert(excess_bits(h) == 0);
        assert(two_pow(1) == 2) by {
            reveal_with_fuel(two_pow, 2);
        }
    } else {
        lemma_significand_large(h);
        let e = excess_bits(h);
        let p = two_pow(e);
        assert(excess_bits(b) == 1 + e);
        assert(two_pow(1 + e) == 2 * p);
        vstd::arithmetic::div_mod::lemma_div_denominator(b as int, 2, p as int);
    }
}

proof fn lemma_rounding_keeps_unit(b: nat)
    ensures
        size_unit(nearest_f64(b)) == size_unit(b),
{
    if b < 0x20_0000_0000_0000 {
        assert(excess_bits(b) == 0);
        assert(two_pow(0) == 1);
        assert(nearest_f64(b) == b);
    } else {
        lemma_significand_large(b);
        let p = two_pow(excess_bits(b));
        let q = b / p;
        assert(div_round_even(b, p) >= q);
        assert(div_round_even(b, p) * p >= q * p) by (nonlinear_arith)
            requires
                div_round_even(b, p) >= q,
                p >= 1,
        ;
        assert(q * p >= 0x10_0000_0000_0000) by (nonlinear_arith)
            requires
                q >= 0x10_0000_0000_0000,
                p >= 1,
        ;
    }
}

/// The unit a size is shown in goes by its range: bytes below 1 KiB, K below
/// 1 MiB, M below 1 GiB, G below 1 TiB, T from 1 TiB on (there is no unit
/// beyond T).
pub proof fn law_unit_by_range(bytes: nat)
    ensures
        human_size_text(bytes).len() > 0,
        human_size_text(bytes).last() == unit_letter(size_unit(bytes)),
        bytes < 0x400 ==> unit_letter(size_unit(bytes)) == 'B',
        0x400 <= bytes < 0x10_0000 ==> unit_letter(size_unit(bytes)) == 'K',
        0x10_0000 <= bytes < 0x4000_0000 ==> unit_letter(size_unit(bytes)) == 'M',
        0x4000_0000 <= bytes < 0x100_0000_0000 ==> unit_letter(size_unit(bytes)) == 'G',
        0x100_0000_0000 <= bytes ==> unit_letter(size_unit(bytes)) == 'T',
{
    lemma_rounding_keeps_unit(bytes);
}

proof fn lemma_div_halves(b: nat, p: nat)
    requires
        p > 0,
    ensures
        (b / p) / 2 == b / (p * 2),
{
    vstd::arithmetic::div_mod::lemma_div_denominator(b as int, p as int, 2);
}

proof fn lemma_excess_small(x: nat)
    requires
        x < 0x20_0000_0000_0000,
    ensures
        excess_bits(x) == 0,
{
}

/// The value of the `f64` nearest to `bytes`.
fn nearest_f64_exec(bytes: u64) -> (v: u128)
    ensures
        v == nearest_f64(bytes as nat),
        v <= 0x20_0000_0000_0000 * 4096,
{
    let mut x: u64 = bytes;
    let mut p: u64 = 1;
    let ghost mut e: nat = 0;
    while x >= 0x20_0000_0000_0000
        invariant
            p > 0,
            p == two_pow(e),
            x == bytes as nat / (p as nat),
            excess_bits(bytes as nat) == e + excess_bits(x as nat),
            p < 4096,
            p * x <= bytes,
        decreases x,
    {
        proof {
            assert(p * 0x20_0000_0000_0000 <= p * x) by (nonlinear_arith)
                requires x >= 0x20_0000_0000_0000;
            assert(p * 2 < 4096);
            lemma_div_halves(bytes as nat, p as nat);
            assert((p * 2) * (x / 2) <= p * x) by (nonlinear_arith);
        }
        x = x / 2;
        p = p * 2;
        proof {
            e = e + 1;
        }
    }
    proof {
        lemma_excess_small(x as nat);
        vstd::arithmetic::div_mod::lemma_fundamental_div_mod(bytes as int, p as int);
    }
    let r: u64 = bytes % p;
    let q: u64 = if 2 * r > p || (2 * r == p && x % 2 == 1) { x + 1 } else { x };
    assert(q * p <= 0x20_0000_0000_0000 * 4096) by (nonlinear_arith)
        requires q <= 0x20_0000_0000_0000, p < 4096;
    (q as u128) * (p as u128)
}

/// Formats a size in bytes compactly ("500B", "2.0K", "1.4M", "9.3G").
pub fn human_size(bytes: u64) -> (s: String)
    ensures
        s@ == human_size_text(bytes as nat),
{
    let v: u128 = nearest_f64_exec(bytes);
    let mut s = String::new();
    if v < 0x400 {
        push_decimal(&mut s, v as u64);
        push_char(&mut s, 'B');
        assert(s@ =~= human_size_text(bytes as nat));
        return s;
    }
    let (d, letter): (u128, char) = if v >= 0x100_0000_0000 {
        (0x100_0000_0000, 'T')
    } else if v >= 0x4000_0000 {
        (0x4000_0000, 'G')
    } else if v >= 0x10_0000 {
        (0x10_0000, 'M')
    } else {
        (0x400, 'K')
    };
    let n: u128 = v * 10;
    let q: u128 = n / d;
    let r: u128 = n % d;
    proof {
        vstd::arithmetic::div_mod::lemma_div_is_ordered_by_denominator(n as int, 0x400, d as int);
    }
    assert(n / 0x400 <= 0x20_0000_0000_0000 * 4096 * 10 / 0x400);
    let tenths: u128 = if 2 * r > d || (2 * r == d && q % 2 == 1) { q + 1 } else { q };
    let t: u64 = tenths as u64;
    push_decimal(&mut s, t / 10);
    push_char(&mut s, '.');
    let digit: u8 = (t % 10) as u8;
    push_char(&mut s, (digit + 48) as char);
    push_char(&mut s, letter);
    assert(s@ =~= human_size_text(bytes as nat));
    s
}


/// The disk line of the status bar, given the total and free bytes of the
/// disk that holds the active panel's directory, if known.
pub open spec fn disk_status_text(space: Option<(u64, u64)>) -> Seq<char> {
    match space {
        Some((total, free)) => "DISK: "@ + human_size_text(total as nat) + "  FREE: "@ + human_size_text(free as nat),
        None => "DISK: --  FREE: --"@,
    }
}

/// The disk line of the status bar.
pub fn disk_status_line(space: Option<(u64, u64)>) -> (t: String)
    ensures
        t@ == disk_status_text(space),
{
    match space {
        Some((total, free)) => {
            let mut t = String::new();
            crate::text::push_str(&mut t, "DISK: ");
            let a = human_size(total);
            crate::text::push_str(&mut t, a.as_str());
            crate::text::push_str(&mut t, "  FREE: ");
            let b = human_size(free);
            crate::text::push_str(&mut t, b.as_str());
            t
        },
        None => "DISK: --  FREE: --".to_owned(),
    }
}

/// The length in bytes of a text held in UTF-8.
pub open spec fn byte_len(s: Seq<char>) -> nat {
    encode_utf8(s).len()
}

/// `i` is the position of the disk that holds `path`, among disks mounted at
/// `mount_points`: its mount point is a prefix of the path, the longest one
/// in bytes, the last such when several are as long.
pub open spec fn holds_path(mount_points: Seq<String>, path: Seq<char>, i: int) -> bool {
    &&& 0 <= i < mount_points.len()
    &&& path_starts_with(path, mount_points[i]@)
    &&& forall|j: int| 0 <= j < mount_points.len() && path_starts_with(path, #[trigger] mount_points[j]@)
        ==> byte_len(mount_points[j]@) <= byte_len(mount_points[i]@)
    &&& forall|j: int| i < j < mount_points.len() && path_starts_with(path, #[trigger] mount_points[j]@)
        ==> byte_len(mount_points[j]@) < byte_len(mount_points[i]@)
}

/// The disk (among disks mounted at `mount_points`) that holds `path`: the one
/// whose mount point prefixes the path most precisely (a USB stick under
/// /run/media rather than /); `None` when no mount point prefixes it.
pub fn disk_containing(mount_points: &Vec<String>, path: &str) -> (r: Option<usize>)
    ensures
        r is None <==> forall|j: int| 0 <= j < mount_points@.len() ==> !path_starts_with(path@, #[trigger] mount_points@[j]@),
        r matches Some(i) ==> holds_path(mount_points@, path@, i as int),
{
    let mut best: Option<usize> = None;
    let mut best_len: usize = 0;
    let n = mount_points.len();
    for i in 0..n
        invariant
            n == mount_points@.len(),
            best is None <==> forall|j: int| 0 <= j < i ==> !path_starts_with(path@, #[trigger] mount_points@[j]@),
            best matches Some(b) ==> b < i && best_len == byte_len(mount_points@[b as int]@)
                && path_starts_with(path@, mount_points@[b as int]@)
                && (forall|j: int| 0 <= j < i && path_starts_with(path@, #[trigger] mount_points@[j]@)
                    ==> byte_len(mount_points@[j]@) <= best_len)
                && (forall|j: int| b < j < i && path_starts_with(path@, #[trigger] mount_points@[j]@)
                    ==> byte_len(mount_points@[j]@) < best_len),
    {
        if starts_with_path(path, mount_points[i].as_str()) {
            let len = mount_points[i].as_str().as_bytes().len();
            if best.is_none() || len >= best_len {
                best = Some(i);
                best_len = len;
            }
        }
    }
    best
}

} // verus!
