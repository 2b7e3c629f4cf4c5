use vstd::prelude::*;

verus! {

/// ASCII digits of `n` in base ten, most significant first, with no leading zero.
pub open spec fn decimal(n: nat) -> Seq<u8>
    decreases n,
{
    if n < 10 {
        seq![(48 + n) as u8]
    } else {
        decimal(n / 10).push((48 + n % 10) as u8)
    }
}

/// Whether every byte of `s` is an ASCII digit.
pub open spec fn all_digits(s: Seq<u8>) -> bool {
    forall|i: int| 0 <= i < s.len() ==> 48 <= #[trigger] s[i] <= 57
}

/// The number that a string of ASCII digits denotes in base ten.
pub open spec fn digits_value(s: Seq<u8>) -> nat
    decreases s.len(),
{
    if s.len() == 0 {
        0
    } else {
        digits_value(s.drop_last()) * 10 + (s.last() - 48) as nat
    }
}

/// `decimal(n)` is the standard base-ten text of `n`: a non-empty string of
/// ASCII digits that denotes `n`, with no leading zero unless `n` is zero;
/// below ten it is the single digit.
pub proof fn law_decimal_is_standard_text(n: nat)
    ensures
        decimal(n).len() >= 1,
        all_digits(decimal(n)),
        digits_value(decimal(n)) == n,
        n >= 1 ==> decimal(n)[0] != 48,
        n < 10 ==> decimal(n) == seq![(48 + n) as u8],
    decreases n,
{
    if n >= 10 {
        law_decimal_is_standard_text(n / 10);
        let d = decimal(n / 10);
        let s = decimal(n);
        assert(s.drop_last() =~= d);
        assert(s[0] == d[0]);
        assert forall|i: int| 0 <= i < s.len() implies 48 <= #[trigger] s[i] <= 57 by {
            if i < d.len() {
                assert(s[i] == d[i]);
            }
        }
        assert(s.last() == (48 + n % 10) as u8);
        assert(digits_value(s) == digits_value(d) * 10 + (n % 10));
        assert(n == (n / 10) * 10 + n % 10) by (nonlinear_arith);
    } else {
        let s = decimal(n);
        assert(s.drop_last() =~= Seq::<u8>::empty());
        assert(digits_value(s) == digits_value(s.drop_last()) * 10 + (s.last() - 48) as nat);
    }
}

/// The lower-case ASCII hexadecimal digit of a value below sixteen.
pub open spec fn hex_digit(d: int) -> u8 {
    if d < 10 {
        (48 + d) as u8
    } else {
        (87 + d) as u8
    }
}

/// Lower-case hexadecimal text of `s`: two digits per byte, high half first.
pub open spec fn hex(s: Seq<u8>) -> Seq<u8>
    decreases s.len(),
{
    if s.len() == 0 {
        Seq::empty()
    } else {
        hex(s.drop_last()) + seq![hex_digit(s.last() as int / 16), hex_digit(s.last() as int % 16)]
    }
}

/// The value of a lower-case ASCII hexadecimal digit.
pub open spec fn hex_value(c: u8) -> int {
    if 48 <= c <= 57 {
        c - 48
    } else {
        c - 87
    }
}

/// Whether `c` is one of `0-9` or `a-f`.
pub open spec fn is_lower_hex_digit(c: u8) -> bool {
    (48 <= c <= 57) || (97 <= c <= 102)
}

/// `hex(s)` is the lower-case hexadecimal text of `s`: two digits per byte,
/// each a character of `0-9a-f`, the first giving the high half of the byte
/// and the second the low half.
pub proof fn law_hex_is_lower_case_text(s: Seq<u8>)
    ensures
        hex(s).len() == 2 * s.len(),
        forall|k: int| 0 <= k < hex(s).len() ==> is_lower_hex_digit(#[trigger] hex(s)[k]),
        forall|i: int|
            0 <= i < s.len() ==> 16 * hex_value(#[trigger] hex(s)[2 * i]) + hex_value(hex(s)[2 * i + 1]) == s[i],
    decreases s.len(),
{
    if s.len() > 0 {
        let t = s.drop_last();
        law_hex_is_lower_case_text(t);
        let h = hex(s);
        let ht = hex(t);
        let b = s.last();
        assert(h == ht + seq![hex_digit(b as int / 16), hex_digit(b as int % 16)]);
        assert forall|k: int| 0 <= k < h.len() implies is_lower_hex_digit(#[trigger] h[k]) by {
            if k < ht.len() {
                assert(h[k] == ht[k]);
            }
        }
        assert forall|i: int| 0 <= i < s.len() implies 16 * hex_value(#[trigger] h[2 * i]) + hex_value(h[2 * i + 1]) == s[i] by {
            if i < t.len() {
                assert(h[2 * i] == ht[2 * i]);
                assert(h[2 * i + 1] == ht[2 * i + 1]);
                assert(t[i] == s[i]);
            } else {
                assert(i == t.len());
                assert(h[2 * i] == hex_digit(b as int / 16));
                assert(h[2 * i + 1] == hex_digit(b as int % 16));
            }
        }
    }
}

/// Whether two byte strings hold the same bytes.
pub fn bytes_equal(a: &Vec<u8>, b: &Vec<u8>) -> (same: bool)
    ensures
        same == (a@ == b@),
{
    if a.len() != b.len() {
        return false;
    }
    let mut i: usize = 0;
    while i < a.len()
        invariant
            a@.len() == b@.len(),
            i <= a@.len(),
            forall|j: int| 0 <= j < i ==> a@[j] == b@[j],
        decreases a@.len() - i,
    {
        if a[i] != b[i] {
            return false;
        }
        i = i + 1;
    }
    assert(a@ =~= b@);
    true
}

/// A fresh copy of a byte string.
pub fn copy_bytes(a: &Vec<u8>) -> (copy: Vec<u8>)
    ensures
        copy@ == a@,
{
    let mut copy: Vec<u8> = Vec::new();
    let mut i: usize = 0;
    while i < a.len()
        invariant
            i <= a@.len(),
            copy@ == a@.subrange(0, i as int),
        decreases a@.len() - i,
    {
        copy.push(a[i]);
        i = i + 1;
        assert(copy@ =~= a@.subrange(0, i as int));
    }
    assert(copy@ =~= a@);
    copy
}

/// The decimal text of `n`, as `format!("{}", n)` writes it.
pub fn decimal_bytes(n: u64) -> (digits: Vec<u8>)
    ensures
        digits@ == decimal(n as nat),
    decreases n,
{
    if n < 10 {
        let mut digits: Vec<u8> = Vec::new();
        digits.push(48 + n as u8);
        assert(digits@ =~= decimal(n as nat));
        digits
    } else {
        let mut digits = decimal_bytes(n / 10);
        digits.push(48 + (n % 10) as u8);
        digits
    }
}

/// Lower-case hexadecimal text of `bytes`.
pub fn hex_bytes(bytes: &Vec<u8>) -> (text: Vec<u8>)
    ensures
        text@ == hex(bytes@),
{
    let mut text: Vec<u8> = Vec::new();
    let mut i: usize = 0;
    while i < bytes.len()
        invariant
            i <= bytes@.len(),
            text@ == hex(bytes@.subrange(0, i as int)),
        decreases bytes@.len() - i,
    {
        let b = bytes[i];
        let high = b / 16;
        let low = b % 16;
        let high_digit: u8 = if high < 10 { 48 + high } else { 87 + high };
        let low_digit: u8 = if low < 10 { 48 + low } else { 87 + low };
        let ghost prefix = bytes@.subrange(0, i as int);
        let ghost next = bytes@.subrange(0, i + 1);
        assert(next.drop_last() =~= prefix);
        text.push(high_digit);
        text.push(low_digit);
        i = i + 1;
        assert(text@ =~= hex(next));
    }
    assert(bytes@.subrange(0, bytes@.len() as int) =~= bytes@);
    text
}

} // verus!
