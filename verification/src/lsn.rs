//! The log sequence number: a 64-bit WAL position, rendered as two 32-bit
//! hexadecimal words joined by `/`, and parsed back from that form.

use vstd::prelude::*;
use vstd::string::*;

use crate::text::{
    all_hex_digits, append_hex_u32, hex_digit_char, is_hex_digit, lemma_pow16_pos, parse_hex_digits,
    pow16, spec_hex_fixed, spec_hex_val,
};

verus! {

/// A WAL position. Ordered by its 64-bit value.
#[derive(Clone, Copy, PartialEq, Eq, Structural, Debug)]
pub struct Lsn {
    pub value: u64,
}

/// The high 32-bit word of an LSN value.
pub open spec fn lsn_hi(v: u64) -> int {
    v as int / 0x1_0000_0000
}

/// The low 32-bit word of an LSN value.
pub open spec fn lsn_lo(v: u64) -> int {
    v as int % 0x1_0000_0000
}

/// The text form of an LSN: eight upper-case hex digits, `/`, eight more.
pub open spec fn spec_lsn_text(v: u64) -> Seq<char> {
    spec_hex_fixed(lsn_hi(v), 8) + seq!['/'] + spec_hex_fixed(lsn_lo(v), 8)
}

/// A run of one to eight hexadecimal digits.
pub open spec fn valid_hex_run(u: Seq<char>) -> bool {
    1 <= u.len() <= 8 && all_hex_digits(u)
}

/// Whether a string is an LSN: two hex runs joined by a single `/`.
pub open spec fn valid_lsn_text(t: Seq<char>) -> bool {
    exists|i: int|
        0 <= i < t.len() && #[trigger] t[i] == '/' && valid_hex_run(t.subrange(0, i))
            && valid_hex_run(t.subrange(i + 1, t.len() as int))
}

/// The value a valid LSN text denotes.
pub open spec fn spec_lsn_of_text(t: Seq<char>) -> int {
    let i = choose|i: int|
        0 <= i < t.len() && #[trigger] t[i] == '/' && valid_hex_run(t.subrange(0, i))
            && valid_hex_run(t.subrange(i + 1, t.len() as int));
    spec_hex_val(t.subrange(0, i)) * 0x1_0000_0000 + spec_hex_val(
        t.subrange(i + 1, t.len() as int),
    )
}

/// Finds the position of the first `/`.
fn find_first_slash(s: &str) -> (r: Option<usize>)
    ensures
        r matches Some(p) ==> p < s@.len() && s@[p as int] == '/' && (forall|j: int|
            0 <= j < p ==> s@[j] != '/'),
        r is None ==> forall|j: int| 0 <= j < s@.len() ==> s@[j] != '/',
{
    let n = s.unicode_len();
    let mut p: usize = 0;
    while p < n
        invariant
            0 <= p <= n,
            n == s@.len(),
            forall|j: int| 0 <= j < p ==> s@[j] != '/',
        decreases n - p,
    {
        if s.get_char(p) == '/' {
            return Some(p);
        }
        p += 1;
    }
    None
}

impl Lsn {
    /// Whether this position does not lie after `other`.
    pub fn le(&self, other: &Lsn) -> (r: bool)
        ensures
            r == (self.value <= other.value),
    {
        self.value <= other.value
    }

    /// Renders the position in its text form.
    pub fn to_text(&self) -> (r: String)
        ensures
            r@ == spec_lsn_text(self.value),
    {
        let hi = (self.value / 0x1_0000_0000) as u32;
        let lo = (self.value % 0x1_0000_0000) as u32;
        let mut s = String::new();
        append_hex_u32(&mut s, hi, 8);
        s.append("/");
        append_hex_u32(&mut s, lo, 8);
        proof {
            reveal_strlit("/");
            assert(s@ =~= spec_lsn_text(self.value));
        }
        s
    }

    /// Parses the text form of an LSN. `None` exactly on strings that are not
    /// two runs of at most eight hex digits joined by `/`.
    pub fn parse_text(s: &str) -> (r: Option<Lsn>)
        ensures
            r is Some <==> valid_lsn_text(s@),
            r matches Some(l) ==> l.value as int == spec_lsn_of_text(s@),
    {
        let n = s.unicode_len();
        match find_first_slash(s) {
            None => {
                proof {
                    assert(!valid_lsn_text(s@));
                }
                None
            },
            Some(p) => {
                let a = parse_hex_digits(s, 0, p);
                let b = parse_hex_digits(s, p + 1, n);
                proof {
                    // Any position witnessing validity must be the first slash:
                    // an earlier one is no slash, a later one would put the
                    // slash inside an all-hex run.
                    assert forall|i: int|
                        0 <= i < s@.len() && #[trigger] s@[i] == '/' && valid_hex_run(
                            s@.subrange(0, i),
                        ) && valid_hex_run(s@.subrange(i + 1, s@.len() as int)) implies i
                        == p as int by {
                        if i > p as int {
                            assert(s@.subrange(0, i)[p as int] == '/');
                            assert(!is_hex_digit('/'));
                        }
                    }
                }
                match (a, b) {
                    (Some(hi), Some(lo)) => {
                        proof {
                            assert(valid_lsn_text(s@)) by {
                                assert(s@[p as int] == '/' && valid_hex_run(
                                    s@.subrange(0, p as int),
                                ) && valid_hex_run(s@.subrange(p as int + 1, s@.len() as int)));
                            }
                            assert(hi as int * 0x1_0000_0000 <= 0xffff_ffffu64 * 0x1_0000_0000) by (nonlinear_arith)
                                requires
                                    hi as int <= 0xffff_ffff;
                        }
                        let v: u64 = (hi as u64) * 0x1_0000_0000 + (lo as u64);
                        Some(Lsn { value: v })
                    },
                    _ => {
                        proof {
                            if valid_lsn_text(s@) {
                                let i = choose|i: int|
                                    0 <= i < s@.len() && #[trigger] s@[i] == '/' && valid_hex_run(
                                        s@.subrange(0, i),
                                    ) && valid_hex_run(s@.subrange(i + 1, s@.len() as int));
                                assert(i == p as int);
                                assert(false);
                            }
                        }
                        None
                    },
                }
            },
        }
    }
}

/// The digits of a fixed-width rendering are hexadecimal digits, and there
/// are exactly `width` of them.
pub proof fn lemma_hex_fixed_shape(n: int, width: nat)
    ensures
        spec_hex_fixed(n, width).len() == width,
        all_hex_digits(spec_hex_fixed(n, width)),
    decreases width,
{
    if width > 0 {
        lemma_hex_fixed_shape(n / 16, (width - 1) as nat);
        let t = spec_hex_fixed(n, width);
        let u = spec_hex_fixed(n / 16, (width - 1) as nat);
        assert(t == u.push(hex_digit_char(n % 16)));
        assert(is_hex_digit(hex_digit_char(n % 16)));
        assert(forall|i: int| 0 <= i < t.len() - 1 ==> t[i] == u[i]);
    }
}

/// Reading back a fixed-width rendering recovers the number modulo the width.
pub proof fn lemma_hex_fixed_val(n: int, width: nat)
    requires
        n >= 0,
    ensures
        spec_hex_val(spec_hex_fixed(n, width)) == n % pow16(width),
    decreases width,
{
    if width == 0 {
        assert(pow16(0) == 1);
    } else {
        let u = spec_hex_fixed(n / 16, (width - 1) as nat);
        let t = spec_hex_fixed(n, width);
        lemma_hex_fixed_shape(n / 16, (width - 1) as nat);
        lemma_hex_fixed_val(n / 16, (width - 1) as nat);
        assert(t.drop_last() =~= u);
        assert(t.last() == hex_digit_char(n % 16));
        assert(crate::text::hex_char_val(hex_digit_char(n % 16)) == n % 16);
        let p = pow16((width - 1) as nat);
        lemma_pow16_pos((width - 1) as nat);
        vstd::arithmetic::div_mod::lemma_breakdown(n, 16, p);
        assert(spec_hex_val(t) == ((n / 16) % p) * 16 + n % 16);
        assert(n % (16 * p) == 16 * ((n / 16) % p) + n % 16);
    }
}

/// Round trip: parsing the rendered text of an LSN yields the same position.
pub proof fn lemma_lsn_text_round_trip(v: u64)
    ensures
        valid_lsn_text(spec_lsn_text(v)),
        spec_lsn_of_text(spec_lsn_text(v)) == v as int,
{
    let t = spec_lsn_text(v);
    let hi = spec_hex_fixed(lsn_hi(v), 8);
    let lo = spec_hex_fixed(lsn_lo(v), 8);
    lemma_hex_fixed_shape(lsn_hi(v), 8);
    lemma_hex_fixed_shape(lsn_lo(v), 8);
    assert(t.len() == 17);
    assert(t[8] == '/');
    assert(t.subrange(0, 8) =~= hi);
    assert(t.subrange(9, 17) =~= lo);
    assert(valid_hex_run(hi));
    assert(valid_hex_run(lo));
    assert(valid_lsn_text(t));
    assert forall|i: int|
        0 <= i < t.len() && #[trigger] t[i] == '/' && valid_hex_run(t.subrange(0, i))
            && valid_hex_run(t.subrange(i + 1, t.len() as int)) implies i == 8 by {
        if i < 8 {
            assert(hi[i] == t[i]);
            assert(is_hex_digit(t[i]));
            assert(!is_hex_digit('/'));
        } else if i > 8 {
            assert(t.subrange(0, i)[8] == '/');
            assert(!is_hex_digit('/'));
        }
    }
    let i = choose|i: int|
        0 <= i < t.len() && #[trigger] t[i] == '/' && valid_hex_run(t.subrange(0, i))
            && valid_hex_run(t.subrange(i + 1, t.len() as int));
    assert(i == 8);
    lemma_hex_fixed_val(lsn_hi(v), 8);
    lemma_hex_fixed_val(lsn_lo(v), 8);
    assert(pow16(8) == 0x1_0000_0000) by {
        reveal_with_fuel(pow16, 9);
    }
    assert(lsn_hi(v) < 0x1_0000_0000);
    vstd::arithmetic::div_mod::lemma_small_mod(lsn_hi(v) as nat, 0x1_0000_0000);
    vstd::arithmetic::div_mod::lemma_small_mod(lsn_lo(v) as nat, 0x1_0000_0000);
    assert(spec_lsn_of_text(t) == lsn_hi(v) * 0x1_0000_0000 + lsn_lo(v));
    vstd::arithmetic::div_mod::lemma_fundamental_div_mod(v as int, 0x1_0000_0000);
}

} // verus!
