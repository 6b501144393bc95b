//! Human-readable byte counts in binary units (B, KB, MB, GB).
use vstd::prelude::*;
use vstd::arithmetic::div_mod::{lemma_div_is_ordered, lemma_div_is_ordered_by_denominator};

verus! {

/// One kibibyte.
pub const KIB: u64 = 1024;

/// One mebibyte.
pub const MIB: u64 = 1048576;

/// One gibibyte.
pub const GIB: u64 = 1073741824;

/// The decimal digit for `d` (0 through 9).
pub open spec fn digit_char(d: nat) -> char {
    if d == 0 {
        '0'
    } else if d == 1 {
        '1'
    } else if d == 2 {
        '2'
    } else if d == 3 {
        '3'
    } else if d == 4 {
        '4'
    } else if d == 5 {
        '5'
    } else if d == 6 {
        '6'
    } else if d == 7 {
        '7'
    } else if d == 8 {
        '8'
    } else {
        '9'
    }
}

/// `n` written in base ten, without leading zeros.
pub open spec fn decimal(n: nat) -> Seq<char>
    decreases n,
{
    if n < 10 {
        seq![digit_char(n)]
    } else {
        decimal(n / 10).push(digit_char(n % 10))
    }
}

/// `b / unit` in hundredths, rounded to the nearest hundredth, ties to even.
pub open spec fn hundredths(b: nat, unit: nat) -> nat
    recommends
        unit > 0,
{
    let q = (b * 100) / unit;
    let r = (b * 100) % unit;
    if 2 * r > unit || (2 * r == unit && q % 2 == 1) {
        q + 1
    } else {
        q
    }
}

/// A count of hundredths written with exactly two decimal places.
pub open spec fn two_places(h: nat) -> Seq<char> {
    decimal(h / 100) + seq!['.', digit_char((h / 10) % 10), digit_char(h % 10)]
}

/// The text that names a byte count: the largest binary unit not above it,
/// with two decimal places, or the plain count followed by `B` below one KB.
pub open spec fn binary_units(b: nat) -> Seq<char> {
    if b >= GIB {
        two_places(hundredths(b, GIB as nat)) + seq!['G', 'B']
    } else if b >= MIB {
        two_places(hundredths(b, MIB as nat)) + seq!['M', 'B']
    } else if b >= KIB {
        two_places(hundredths(b, KIB as nat)) + seq!['K', 'B']
    } else {
        decimal(b) + seq!['B']
    }
}

/// Whether `t` ends with `suffix`.
pub open spec fn ends_with(t: Seq<char>, suffix: Seq<char>) -> bool {
    t.len() >= suffix.len() && t.subrange(t.len() - suffix.len(), t.len() as int) == suffix
}

fn digit_str(d: u64) -> (r: &'static str)
    requires
        d < 10,
    ensures
        r@ == seq![digit_char(d as nat)],
{
    if d == 0 {
        proof { reveal_strlit("0"); }
        "0"
    } else if d == 1 {
        proof { reveal_strlit("1"); }
        "1"
    } else if d == 2 {
        proof { reveal_strlit("2"); }
        "2"
    } else if d == 3 {
        proof { reveal_strlit("3"); }
        "3"
    } else if d == 4 {
        proof { reveal_strlit("4"); }
        "4"
    } else if d == 5 {
        proof { reveal_strlit("5"); }
        "5"
    } else if d == 6 {
        proof { reveal_strlit("6"); }
        "6"
    } else if d == 7 {
        proof { reveal_strlit("7"); }
        "7"
    } else if d == 8 {
        proof { reveal_strlit("8"); }
        "8"
    } else {
        proof { reveal_strlit("9"); }
        "9"
    }
}

/// Writes `n` in base ten.
pub fn decimal_string(n: u64) -> (r: String)
    ensures
        r@ == decimal(n as nat),
    decreases n,
{
    if n < 10 {
        String::from_str(digit_str(n))
    } else {
        let mut s = decimal_string(n / 10);
        s.append(digit_str(n % 10));
        s
    }
}

/// `b` in hundredths of `unit`, rounded as `hundredths` says, with two decimal places.
fn scaled_text(b: u64, unit: u64) -> (r: String)
    requires
        unit >= KIB,
    ensures
        r@ == two_places(hundredths(b as nat, unit as nat)),
{
    let wide: u128 = (b as u128) * 100;
    let q: u128 = wide / (unit as u128);
    let rem: u128 = wide % (unit as u128);
    proof {
        lemma_div_is_ordered_by_denominator(wide as int, 1024, unit as int);
        lemma_div_is_ordered(wide as int, 0xffff_ffff_ffff_ffffint * 100, 1024);
        assert((0xffff_ffff_ffff_ffffnat * 100) / 1024 < 0xffff_ffff_ffff_fffe);
    }
    let h: u128 = if 2 * rem > unit as u128 || (2 * rem == unit as u128 && q % 2 == 1) {
        q + 1
    } else {
        q
    };
    let h: u64 = h as u64;
    let mut s = decimal_string(h / 100);
    proof { reveal_strlit("."); }
    s.append(".");
    s.append(digit_str((h / 10) % 10));
    s.append(digit_str(h % 10));
    assert(s@ =~= two_places(h as nat));
    s
}

/// Formats a byte count in binary units: `GB`, `MB` or `KB` with two decimal
/// places from the tier's lower bound on (inclusive), plain bytes with `B` below 1024.
pub fn convert_binary_units(size: u64) -> (r: String)
    ensures
        r@ == binary_units(size as nat),
{
    let mut s;
    if size >= GIB {
        s = scaled_text(size, GIB);
        proof { reveal_strlit("GB"); }
        s.append("GB");
    } else if size >= MIB {
        s = scaled_text(size, MIB);
        proof { reveal_strlit("MB"); }
        s.append("MB");
    } else if size >= KIB {
        s = scaled_text(size, KIB);
        proof { reveal_strlit("KB"); }
        s.append("KB");
    } else {
        s = decimal_string(size);
        proof { reveal_strlit("B"); }
        s.append("B");
    }
    assert(s@ =~= binary_units(size as nat));
    s
}

proof fn lemma_decimal_last(n: nat)
    ensures
        decimal(n).len() >= 1,
        decimal(n).last() == digit_char(n % 10),
    decreases n,
{
    if n >= 10 {
        lemma_decimal_last(n / 10);
    }
}

/// The unit tiers: the text of a byte count ends in `GB` exactly from one GB on,
/// in `MB` exactly from one MB up to below one GB, in `KB` exactly from one KB up
/// to below one MB, and is the plain count followed by `B` exactly below one KB.
pub proof fn lemma_unit_tiers(b: u64)
    ensures
        ends_with(binary_units(b as nat), seq!['G', 'B']) <==> b >= GIB,
        ends_with(binary_units(b as nat), seq!['M', 'B']) <==> MIB <= b < GIB,
        ends_with(binary_units(b as nat), seq!['K', 'B']) <==> KIB <= b < MIB,
        binary_units(b as nat) == decimal(b as nat) + seq!['B'] <==> b < KIB,
{
    let t = binary_units(b as nat);
    let n = t.len();
    if b >= KIB {
        let head = two_places(if b >= GIB {
            hundredths(b as nat, GIB as nat)
        } else if b >= MIB {
            hundredths(b as nat, MIB as nat)
        } else {
            hundredths(b as nat, KIB as nat)
        });
        let u = if b >= GIB { 'G' } else if b >= MIB { 'M' } else { 'K' };
        assert(t =~= head + seq![u, 'B']);
        assert(t.subrange(n - 2, n as int) =~= seq![u, 'B']);
        lemma_decimal_last(b as nat);
        let d = decimal(b as nat);
        if t == d + seq!['B'] {
            assert(t[n - 2] == d.last());
        }
    } else {
        lemma_decimal_last(b as nat);
        let d = decimal(b as nat);
        assert(t[n - 2] == d.last());
        assert(t.subrange(n - 2, n as int)[0] == t[n - 2]);
    }
}

} // verus!
