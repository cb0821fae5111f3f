//! Character-level groundwork: decimal and hexadecimal digits, rendering
//! unsigned numbers into strings, and parsing numbers back out of catalog
//! text. Everything here is stated over `Seq<char>` views.

use vstd::prelude::*;
use vstd::string::*;

verus! {

/// The character for a decimal digit value.
pub open spec fn dec_digit_char(d: int) -> char {
    if d == 0 {
        '0'
    } else if d == 1 {
        '1'
    } else if d == 2 {
        '2'
    } else if d == 3 {
        '3'
    } else if d == 4 {
        '4'
    } else if d == 5 {
        '5'
    } else if d == 6 {
        '6'
    } else if d == 7 {
        '7'
    } else if d == 8 {
        '8'
    } else {
        '9'
    }
}

/// The character for a hexadecimal digit value, upper case.
pub open spec fn hex_digit_char(d: int) -> char {
    if d < 10 {
        dec_digit_char(d)
    } else if d == 10 {
        'A'
    } else if d == 11 {
        'B'
    } else if d == 12 {
        'C'
    } else if d == 13 {
        'D'
    } else if d == 14 {
        'E'
    } else {
        'F'
    }
}

/// The decimal rendering of a nonnegative number, most significant digit first.
pub open spec fn spec_dec(n: int) -> Seq<char>
    decreases n,
{
    if n < 10 {
        seq![dec_digit_char(n)]
    } else {
        spec_dec(n / 10).push(dec_digit_char(n % 10))
    }
}

/// The hexadecimal rendering of a nonnegative number in exactly `width` digits,
/// upper case, most significant digit first.
pub open spec fn spec_hex_fixed(n: int, width: nat) -> Seq<char>
    decreases width,
{
    if width == 0 {
        Seq::empty()
    } else {
        spec_hex_fixed(n / 16, (width - 1) as nat).push(hex_digit_char(n % 16))
    }
}

/// Appends the character of one decimal digit.
fn append_dec_digit(s: &mut String, d: u32)
    requires
        d < 10,
    ensures
        final(s)@ == old(s)@ + seq![dec_digit_char(d as int)],
{
    proof {
        reveal_strlit("0");
        reveal_strlit("1");
        reveal_strlit("2");
        reveal_strlit("3");
        reveal_strlit("4");
        reveal_strlit("5");
        reveal_strlit("6");
        reveal_strlit("7");
        reveal_strlit("8");
        reveal_strlit("9");
    }
    if d == 0 {
        s.append("0");
    } else if d == 1 {
        s.append("1");
    } else if d == 2 {
        s.append("2");
    } else if d == 3 {
        s.append("3");
    } else if d == 4 {
        s.append("4");
    } else if d == 5 {
        s.append("5");
    } else if d == 6 {
        s.append("6");
    } else if d == 7 {
        s.append("7");
    } else if d == 8 {
        s.append("8");
    } else {
        s.append("9");
    }
    assert(s@ =~= old(s)@ + seq![dec_digit_char(d as int)]);
}

/// Appends the character of one hexadecimal digit, upper case.
fn append_hex_digit(s: &mut String, d: u32)
    requires
        d < 16,
    ensures
        final(s)@ == old(s)@ + seq![hex_digit_char(d as int)],
{
    proof {
        reveal_strlit("A");
        reveal_strlit("B");
        reveal_strlit("C");
        reveal_strlit("D");
        reveal_strlit("E");
        reveal_strlit("F");
    }
    if d < 10 {
        append_dec_digit(s, d);
    } else if d == 10 {
        s.append("A");
    } else if d == 11 {
        s.append("B");
    } else if d == 12 {
        s.append("C");
    } else if d == 13 {
        s.append("D");
    } else if d == 14 {
        s.append("E");
    } else {
        s.append("F");
    }
    assert(s@ =~= old(s)@ + seq![hex_digit_char(d as int)]);
}

/// Appends the decimal rendering of `n`.
pub fn append_dec_u32(s: &mut String, n: u32)
    ensures
        final(s)@ == old(s)@ + spec_dec(n as int),
    decreases n,
{
    if n < 10 {
        append_dec_digit(s, n);
    } else {
        append_dec_u32(s, n / 10);
        append_dec_digit(s, n % 10);
        assert(s@ =~= old(s)@ + spec_dec(n as int));
    }
}

/// The decimal rendering of `n`, as a fresh string.
pub fn dec_u32_string(n: u32) -> (r: String)
    ensures
        r@ == spec_dec(n as int),
{
    let mut s = String::new();
    append_dec_u32(&mut s, n);
    assert(s@ =~= spec_dec(n as int));
    s
}

/// Appends the fixed-width upper-case hexadecimal rendering of `n`.
pub fn append_hex_u32(s: &mut String, n: u32, width: u32)
    ensures
        final(s)@ == old(s)@ + spec_hex_fixed(n as int, width as nat),
    decreases width,
{
    if width > 0 {
        append_hex_u32(s, n / 16, width - 1);
        append_hex_digit(s, n % 16);
        assert(s@ =~= old(s)@ + spec_hex_fixed(n as int, width as nat));
    } else {
        assert(s@ =~= old(s)@ + spec_hex_fixed(n as int, 0));
    }
}


/// Whether a character is a decimal digit.
pub open spec fn is_dec_digit(c: char) -> bool {
    '0' as int <= c as int && c as int <= '9' as int
}

/// The value of a decimal digit character.
pub open spec fn dec_char_val(c: char) -> int {
    c as int - '0' as int
}

/// Whether a character is a hexadecimal digit, either case.
pub open spec fn is_hex_digit(c: char) -> bool {
    ||| is_dec_digit(c)
    ||| 'a' as int <= c as int && c as int <= 'f' as int
    ||| 'A' as int <= c as int && c as int <= 'F' as int
}

/// The value of a hexadecimal digit character.
pub open spec fn hex_char_val(c: char) -> int {
    if is_dec_digit(c) {
        dec_char_val(c)
    } else if 'a' as int <= c as int && c as int <= 'f' as int {
        c as int - 'a' as int + 10
    } else {
        c as int - 'A' as int + 10
    }
}

pub open spec fn all_dec_digits(t: Seq<char>) -> bool {
    forall|i: int| 0 <= i < t.len() ==> is_dec_digit(#[trigger] t[i])
}

pub open spec fn all_hex_digits(t: Seq<char>) -> bool {
    forall|i: int| 0 <= i < t.len() ==> is_hex_digit(#[trigger] t[i])
}

/// The number denoted by a sequence of decimal digit characters.
pub open spec fn spec_dec_val(t: Seq<char>) -> int
    decreases t.len(),
{
    if t.len() == 0 {
        0
    } else {
        spec_dec_val(t.drop_last()) * 10 + dec_char_val(t.last())
    }
}

/// The number denoted by a sequence of hexadecimal digit characters.
pub open spec fn spec_hex_val(t: Seq<char>) -> int
    decreases t.len(),
{
    if t.len() == 0 {
        0
    } else {
        spec_hex_val(t.drop_last()) * 16 + hex_char_val(t.last())
    }
}

pub open spec fn pow16(k: nat) -> int
    decreases k,
{
    if k == 0 {
        1
    } else {
        16 * pow16((k - 1) as nat)
    }
}

pub proof fn lemma_dec_val_nonneg(t: Seq<char>)
    requires
        all_dec_digits(t),
    ensures
        spec_dec_val(t) >= 0,
    decreases t.len(),
{
    if t.len() > 0 {
        assert(all_dec_digits(t.drop_last())) by {
            assert(forall|i: int|
                0 <= i < t.len() - 1 ==> t.drop_last()[i] == #[trigger] t[i]);
        }
        lemma_dec_val_nonneg(t.drop_last());
        assert(is_dec_digit(t.last()));
    }
}

/// Reading more digits can only make the denoted number larger.
pub proof fn lemma_dec_val_prefix_le(t: Seq<char>, k: int)
    requires
        all_dec_digits(t),
        0 <= k <= t.len(),
    ensures
        spec_dec_val(t.subrange(0, k)) <= spec_dec_val(t),
    decreases t.len() - k,
{
    if k == t.len() {
        assert(t.subrange(0, k) =~= t);
    } else {
        let p = t.subrange(0, k);
        let q = t.subrange(0, k + 1);
        assert(q.drop_last() =~= p);
        assert(q.last() == t[k]);
        assert(all_dec_digits(p)) by {
            assert(forall|i: int| 0 <= i < k ==> p[i] == #[trigger] t[i]);
        }
        lemma_dec_val_nonneg(p);
        assert(is_dec_digit(t[k]));
        assert(spec_dec_val(q) == spec_dec_val(p) * 10 + dec_char_val(t[k]));
        assert(spec_dec_val(p) * 10 >= spec_dec_val(p)) by (nonlinear_arith)
            requires
                spec_dec_val(p) >= 0;
        lemma_dec_val_prefix_le(t, k + 1);
    }
}

pub proof fn lemma_pow16_pos(k: nat)
    ensures
        pow16(k) >= 1,
    decreases k,
{
    if k > 0 {
        lemma_pow16_pos((k - 1) as nat);
    }
}

pub proof fn lemma_pow16_le(a: nat, b: nat)
    requires
        a <= b,
    ensures
        pow16(a) <= pow16(b),
    decreases b,
{
    if a < b {
        lemma_pow16_le(a, (b - 1) as nat);
        lemma_pow16_pos((b - 1) as nat);
    }
}

/// Parses the decimal digits of `s` between `from` and `to` as a `u32`.
/// `None` exactly when the range is empty, holds a non-digit, or denotes
/// a number above `u32::MAX`.
pub fn parse_dec_digits(s: &str, from: usize, to: usize) -> (r: Option<u32>)
    requires
        from <= to <= s@.len(),
    ensures
        r is Some <==> (from < to && all_dec_digits(s@.subrange(from as int, to as int))
            && spec_dec_val(s@.subrange(from as int, to as int)) <= u32::MAX),
        r matches Some(v) ==> v as int == spec_dec_val(s@.subrange(from as int, to as int)),
{
    let ghost sub = s@.subrange(from as int, to as int);
    if from >= to {
        return None;
    }
    let mut acc: u32 = 0;
    let mut i: usize = from;
    while i < to
        invariant
            from <= i <= to <= s@.len(),
            sub == s@.subrange(from as int, to as int),
            all_dec_digits(s@.subrange(from as int, i as int)),
            acc as int == spec_dec_val(s@.subrange(from as int, i as int)),
        decreases to - i,
    {
        let c = s.get_char(i);
        let cv = c as u32;
        let ghost pre = s@.subrange(from as int, i as int);
        let ghost ext = s@.subrange(from as int, i as int + 1);
        proof {
            assert(ext.drop_last() =~= pre);
            assert(ext.last() == s@[i as int]);
        }
        if cv < 48 || cv > 57 {
            proof {
                assert(!is_dec_digit(s@[i as int]));
                assert(sub[i - from] == s@[i as int]);
            }
            return None;
        }
        let d = cv - 48;
        proof {
            assert(is_dec_digit(s@[i as int]));
            assert(dec_char_val(s@[i as int]) == d as int);
        }
        if acc > (u32::MAX - d) / 10 {
            proof {
                assert(acc as int * 10 + d as int > u32::MAX) by (nonlinear_arith)
                    requires
                        acc as int > (u32::MAX - d as int) / 10,
                        0 <= d as int,
                        (d as int) < 10;
                assert(spec_dec_val(ext) > u32::MAX);
                if all_dec_digits(sub) && spec_dec_val(sub) <= u32::MAX {
                    assert(sub.subrange(0, i - from + 1) =~= ext);
                    lemma_dec_val_prefix_le(sub, i - from + 1);
                    assert(false);
                }
            }
            return None;
        }
        acc = acc * 10 + d;
        proof {
            assert(forall|j: int| 0 <= j < ext.len() ==> is_dec_digit(#[trigger] ext[j]));
        }
        i += 1;
    }
    proof {
        assert(s@.subrange(from as int, i as int) =~= sub);
    }
    Some(acc)
}

/// Parses the hexadecimal digits of `s` between `from` and `to` as a `u32`.
/// At most eight digits are allowed, so the value always fits.
pub fn parse_hex_digits(s: &str, from: usize, to: usize) -> (r: Option<u32>)
    requires
        from <= to <= s@.len(),
    ensures
        r is Some <==> (from < to && to - from <= 8
            && all_hex_digits(s@.subrange(from as int, to as int))),
        r matches Some(v) ==> v as int == spec_hex_val(s@.subrange(from as int, to as int)),
{
    let ghost sub = s@.subrange(from as int, to as int);
    if to - from > 8 {
        return None;
    }
    if from >= to {
        return None;
    }
    let mut acc: u32 = 0;
    let mut i: usize = from;
    while i < to
        invariant
            from <= i <= to <= s@.len(),
            to - from <= 8,
            sub == s@.subrange(from as int, to as int),
            all_hex_digits(s@.subrange(from as int, i as int)),
            acc as int == spec_hex_val(s@.subrange(from as int, i as int)),
            (acc as int) < pow16((i - from) as nat),
        decreases to - i,
    {
        let c = s.get_char(i);
        let cv = c as u32;
        let ghost pre = s@.subrange(from as int, i as int);
        let ghost ext = s@.subrange(from as int, i as int + 1);
        proof {
            assert(ext.drop_last() =~= pre);
            assert(ext.last() == s@[i as int]);
        }
        let d: u32;
        if cv >= 48 && cv <= 57 {
            d = cv - 48;
        } else if cv >= 97 && cv <= 102 {
            d = cv - 97 + 10;
        } else if cv >= 65 && cv <= 70 {
            d = cv - 65 + 10;
        } else {
            proof {
                assert(!is_hex_digit(s@[i as int]));
                assert(sub[i - from] == s@[i as int]);
            }
            return None;
        }
        proof {
            assert(is_hex_digit(s@[i as int]));
            assert(hex_char_val(s@[i as int]) == d as int);
            let p = pow16((i - from) as nat);
            assert(acc as int * 16 + 16 <= p * 16) by (nonlinear_arith)
                requires
                    (acc as int) < p;
            lemma_pow16_le(((i - from) + 1) as nat, 8);
            assert(pow16(8) == 0x1_0000_0000) by {
                reveal_with_fuel(pow16, 9);
            }
            assert((acc as int * 16 + d as int) < pow16(8));
        }
        acc = acc * 16 + d;
        proof {
            assert(forall|j: int| 0 <= j < ext.len() ==> is_hex_digit(#[trigger] ext[j]));
        }
        i += 1;
    }
    proof {
        assert(s@.subrange(from as int, i as int) =~= sub);
    }
    Some(acc)
}

/// The digit characters of a `u32` literal: an optional leading `+` is allowed.
pub open spec fn u32_text_digits(t: Seq<char>) -> Seq<char> {
    if t.len() > 0 && t[0] == '+' {
        t.drop_first()
    } else {
        t
    }
}

pub open spec fn valid_u32_text(t: Seq<char>) -> bool {
    u32_text_digits(t).len() > 0 && all_dec_digits(u32_text_digits(t))
}

/// Parses a whole string as a `u32`: optional `+`, then decimal digits.
pub fn parse_u32_str(s: &str) -> (r: Option<u32>)
    ensures
        r is Some <==> valid_u32_text(s@) && spec_dec_val(u32_text_digits(s@)) <= u32::MAX,
        r matches Some(v) ==> v as int == spec_dec_val(u32_text_digits(s@)),
{
    let n = s.unicode_len();
    if n == 0 {
        return None;
    }
    let first = s.get_char(0);
    let from: usize = if first == '+' {
        1
    } else {
        0
    };
    let r = parse_dec_digits(s, from, n);
    proof {
        if first == '+' {
            assert(u32_text_digits(s@) =~= s@.subrange(1, n as int));
        } else {
            assert(u32_text_digits(s@) =~= s@.subrange(0, n as int));
        }
    }
    r
}

/// The digit characters of an `i32` literal: an optional sign is allowed.
pub open spec fn i32_text_digits(t: Seq<char>) -> Seq<char> {
    if t.len() > 0 && (t[0] == '+' || t[0] == '-') {
        t.drop_first()
    } else {
        t
    }
}

pub open spec fn i32_text_negative(t: Seq<char>) -> bool {
    t.len() > 0 && t[0] == '-'
}

pub open spec fn valid_i32_text(t: Seq<char>) -> bool {
    i32_text_digits(t).len() > 0 && all_dec_digits(i32_text_digits(t))
}

/// The signed value an `i32` literal denotes.
pub open spec fn i32_text_val(t: Seq<char>) -> int {
    if i32_text_negative(t) {
        -spec_dec_val(i32_text_digits(t))
    } else {
        spec_dec_val(i32_text_digits(t))
    }
}

/// Parses a whole string as an `i32`: optional sign, then decimal digits.
pub fn parse_i32_str(s: &str) -> (r: Option<i32>)
    ensures
        r is Some <==> valid_i32_text(s@) && i32::MIN <= i32_text_val(s@)
            && i32_text_val(s@) <= i32::MAX,
        r matches Some(v) ==> v as int == i32_text_val(s@),
{
    let n = s.unicode_len();
    if n == 0 {
        return None;
    }
    let first = s.get_char(0);
    let negative = first == '-';
    let from: usize = if negative || first == '+' {
        1
    } else {
        0
    };
    proof {
        if from == 1 {
            assert(i32_text_digits(s@) =~= s@.subrange(1, n as int));
        } else {
            assert(i32_text_digits(s@) =~= s@.subrange(0, n as int));
        }
    }
    match parse_dec_digits(s, from, n) {
        None => None,
        Some(m) => {
            if negative {
                if m <= 0x8000_0000 {
                    Some((-(m as i64)) as i32)
                } else {
                    None
                }
            } else {
                if m <= 0x7fff_ffff {
                    Some(m as i32)
                } else {
                    None
                }
            }
        },
    }
}

/// Strict lexicographic order on character sequences, by code point, with a
/// proper prefix ordered first.
pub open spec fn seq_char_lt(a: Seq<char>, b: Seq<char>) -> bool
    decreases a.len(), b.len(),
{
    if b.len() == 0 {
        false
    } else if a.len() == 0 {
        true
    } else if a[0] != b[0] {
        (a[0] as int) < (b[0] as int)
    } else {
        seq_char_lt(a.drop_first(), b.drop_first())
    }
}

pub proof fn lemma_seq_char_lt_irrefl(a: Seq<char>)
    ensures
        !seq_char_lt(a, a),
    decreases a.len(),
{
    if a.len() > 0 {
        lemma_seq_char_lt_irrefl(a.drop_first());
    }
}

pub proof fn lemma_seq_char_lt_trans(a: Seq<char>, b: Seq<char>, c: Seq<char>)
    requires
        seq_char_lt(a, b),
        seq_char_lt(b, c),
    ensures
        seq_char_lt(a, c),
    decreases a.len() + b.len() + c.len(),
{
    if c.len() == 0 {
        assert(false);
    } else if b.len() == 0 {
        assert(false);
    } else if a.len() == 0 {
    } else {
        if a[0] == b[0] && b[0] == c[0] {
            lemma_seq_char_lt_trans(a.drop_first(), b.drop_first(), c.drop_first());
        }
    }
}

/// String equality, decided character by character.
pub fn str_eq(a: &str, b: &str) -> (r: bool)
    ensures
        r == (a@ == b@),
{
    let an = a.unicode_len();
    let bn = b.unicode_len();
    if an != bn {
        return false;
    }
    let mut i: usize = 0;
    while i < an
        invariant
            0 <= i <= an,
            an == a@.len(),
            an == b@.len(),
            forall|j: int| 0 <= j < i ==> a@[j] == b@[j],
        decreases an - i,
    {
        if a.get_char(i) != b.get_char(i) {
            return false;
        }
        i += 1;
    }
    proof {
        assert(a@ =~= b@);
    }
    true
}

/// Decides `seq_char_lt` on two strings.
pub fn str_lt(a: &str, b: &str) -> (r: bool)
    ensures
        r == seq_char_lt(a@, b@),
{
    let an = a.unicode_len();
    let bn = b.unicode_len();
    let mut i: usize = 0;
    proof {
        assert(a@.skip(0) =~= a@);
        assert(b@.skip(0) =~= b@);
    }
    loop
        invariant
            0 <= i <= an,
            0 <= i <= bn,
            an == a@.len(),
            bn == b@.len(),
            seq_char_lt(a@, b@) == seq_char_lt(a@.skip(i as int), b@.skip(i as int)),
        decreases bn - i,
    {
        if i >= bn {
            return false;
        }
        if i >= an {
            return true;
        }
        let ca = a.get_char(i);
        let cb = b.get_char(i);
        proof {
            assert(a@.skip(i as int)[0] == a@[i as int]);
            assert(b@.skip(i as int)[0] == b@[i as int]);
        }
        if ca != cb {
            return (ca as u32) < (cb as u32);
        }
        proof {
            assert(a@.skip(i as int).drop_first() =~= a@.skip(i as int + 1));
            assert(b@.skip(i as int).drop_first() =~= b@.skip(i as int + 1));
        }
        i += 1;
    }
}

} // verus!
