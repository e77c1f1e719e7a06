//! Byte-level helpers: digit parsing, decimal formatting, ASCII lowering,
//! byte-slice equality and searching. Paths and labels are handled as byte
//! strings throughout the library.

use vstd::prelude::*;

verus! {

/// `true` iff `b` is an ASCII decimal digit.
pub open spec fn is_digit(b: u8) -> bool {
    48 <= b <= 57
}

/// `true` iff every byte of `s` is an ASCII decimal digit.
pub open spec fn all_digits(s: Seq<u8>) -> bool {
    forall|i: int| 0 <= i < s.len() ==> is_digit(#[trigger] s[i])
}

/// The value of a sequence of ASCII digit bytes read as a decimal numeral,
/// most significant digit first.
pub open spec fn digits_val(s: Seq<u8>) -> int
    decreases s.len(),
{
    if s.len() == 0 {
        0
    } else {
        digits_val(s.drop_last()) * 10 + s.last() - 48
    }
}

/// What parsing a decimal `u32` from `s` yields: the numeral's value when `s`
/// is a non-empty, all-digit string whose value fits in `u32`, else nothing.
pub open spec fn parse_u32_spec(s: Seq<u8>) -> Option<u32> {
    if s.len() > 0 && all_digits(s) && digits_val(s) <= u32::MAX as int {
        Some(digits_val(s) as u32)
    } else {
        None
    }
}

proof fn lemma_digits_val_nonneg(s: Seq<u8>)
    requires
        all_digits(s),
    ensures
        digits_val(s) >= 0,
    decreases s.len(),
{
    if s.len() > 0 {
        assert(all_digits(s.drop_last())) by {
            assert(forall|i: int| 0 <= i < s.len() - 1 ==> s.drop_last()[i] == s[i]);
        }
        lemma_digits_val_nonneg(s.drop_last());
    }
}

/// Parse a decimal `u32`, accepting exactly non-empty all-digit strings whose
/// value fits.
pub fn parse_u32(s: &[u8]) -> (r: Option<u32>)
    ensures
        r == parse_u32_spec(s@),
{
    if s.len() == 0 {
        return None;
    }
    let big: u64 = u32::MAX as u64 + 1;
    let mut acc: u64 = 0;
    let mut i: usize = 0;
    while i < s.len()
        invariant
            0 <= i <= s.len(),
            all_digits(s@.take(i as int)),
            digits_val(s@.take(i as int)) <= u32::MAX as int ==> acc == digits_val(
                s@.take(i as int),
            ),
            digits_val(s@.take(i as int)) > u32::MAX as int ==> acc == big,
            acc <= big,
            big == u32::MAX as u64 + 1,
        decreases s.len() - i,
    {
        let b = s[i];
        if b < 48 || b > 57 {
            assert(!all_digits(s@)) by {
                assert(s@[i as int] == b && !is_digit(b));
            }
            return None;
        }
        proof {
            assert(s@.take(i as int + 1).drop_last() =~= s@.take(i as int));
            assert(s@.take(i as int + 1).last() == b);
            lemma_digits_val_nonneg(s@.take(i as int));
        }
        let d = (b - 48) as u64;
        acc = acc * 10 + d;
        if acc > u32::MAX as u64 {
            acc = big;
        }
        i += 1;
    }
    proof {
        assert(s@.take(s@.len() as int) =~= s@);
    }
    if acc > u32::MAX as u64 {
        None
    } else {
        Some(acc as u32)
    }
}

/// The decimal numeral of `n`, most significant digit first, no leading
/// zeros (`0` itself is the single byte `b'0'`).
pub open spec fn dec_digits(n: nat) -> Seq<u8>
    decreases n,
{
    if n < 10 {
        seq![(48 + n) as u8]
    } else {
        dec_digits(n / 10).push((48 + n % 10) as u8)
    }
}

/// Format `n` as its decimal numeral.
pub fn fmt_u64(n: u64) -> (r: Vec<u8>)
    ensures
        r@ == dec_digits(n as nat),
{
    let mut rev: Vec<u8> = Vec::new();
    let mut m: u64 = n;
    while m >= 10
        invariant
            dec_digits(n as nat) == dec_digits(m as nat) + rev@.reverse(),
        decreases m,
    {
        let d = (m % 10) as u8;
        proof {
            assert(dec_digits(m as nat) == dec_digits((m / 10) as nat).push((48 + d) as u8));
            assert((dec_digits((m / 10) as nat).push((48 + d) as u8)) + rev@.reverse()
                =~= dec_digits((m / 10) as nat) + rev@.push((48 + d) as u8).reverse()) by {
                assert(rev@.push((48 + d) as u8).reverse() =~= seq![(48 + d) as u8]
                    + rev@.reverse());
            }
        }
        rev.push(48 + d);
        m = m / 10;
    }
    let d = m as u8;
    proof {
        assert(dec_digits(m as nat) == seq![(48 + d) as u8]);
        assert(rev@.push((48 + d) as u8).reverse() =~= seq![(48 + d) as u8] + rev@.reverse());
        assert(dec_digits(n as nat) == rev@.push((48 + d) as u8).reverse());
    }
    rev.push(48 + d);
    let ghost all = rev@;
    let mut out: Vec<u8> = Vec::new();
    let mut j: usize = rev.len();
    while j > 0
        invariant
            0 <= j <= all.len(),
            rev@ == all,
            out@ == all.subrange(j as int, all.len() as int).reverse(),
        decreases j,
    {
        j = j - 1;
        proof {
            assert(all.subrange(j as int, all.len() as int).reverse() =~= all.subrange(
                j as int + 1,
                all.len() as int,
            ).reverse().push(all[j as int]));
        }
        let b = rev[j];
        out.push(b);
    }
    proof {
        assert(all.subrange(0, all.len() as int) =~= all);
        assert(out@ == all.reverse());
        assert(all.reverse() == dec_digits(n as nat)) by {
            assert(all == dec_digits(n as nat).reverse());
            assert(dec_digits(n as nat).reverse().reverse() =~= dec_digits(n as nat));
        }
    }
    out
}

/// Lower-case a single ASCII byte; other bytes are unchanged.
pub open spec fn lower_byte(b: u8) -> u8 {
    if 65 <= b <= 90 {
        (b + 32) as u8
    } else {
        b
    }
}

/// Lower-case every ASCII byte of `s`.
pub open spec fn lower_bytes(s: Seq<u8>) -> Seq<u8> {
    Seq::new(s.len(), |i: int| lower_byte(s[i]))
}

/// ASCII-lower-case a byte string.
pub fn to_lower(s: &[u8]) -> (r: Vec<u8>)
    ensures
        r@ == lower_bytes(s@),
{
    let mut out: Vec<u8> = Vec::new();
    let mut i: usize = 0;
    while i < s.len()
        invariant
            0 <= i <= s.len(),
            out@ == lower_bytes(s@).take(i as int),
        decreases s.len() - i,
    {
        let b = s[i];
        let low: u8 = if b >= 65 && b <= 90 {
            b + 32
        } else {
            b
        };
        proof {
            assert(lower_bytes(s@).take(i as int + 1) =~= lower_bytes(s@).take(i as int).push(
                lower_byte(s@[i as int]),
            ));
        }
        out.push(low);
        i += 1;
    }
    proof {
        assert(lower_bytes(s@).take(s@.len() as int) =~= lower_bytes(s@));
    }
    out
}

/// Byte-string equality.
pub fn bytes_eq(a: &[u8], b: &[u8]) -> (r: bool)
    ensures
        r == (a@ == b@),
{
    if a.len() != b.len() {
        return false;
    }
    let mut i: usize = 0;
    while i < a.len()
        invariant
            0 <= i <= a.len(),
            a@.len() == b@.len(),
            forall|j: int| 0 <= j < i ==> a@[j] == b@[j],
        decreases a.len() - i,
    {
        if a[i] != b[i] {
            return false;
        }
        i += 1;
    }
    proof {
        assert(a@ =~= b@);
    }
    true
}

/// Copy `s[a..b]` into a fresh vector.
pub fn sub_bytes(s: &[u8], a: usize, b: usize) -> (r: Vec<u8>)
    requires
        a <= b <= s@.len(),
    ensures
        r@ == s@.subrange(a as int, b as int),
{
    let mut out: Vec<u8> = Vec::new();
    let mut i: usize = a;
    while i < b
        invariant
            a <= i <= b <= s@.len(),
            out@ == s@.subrange(a as int, i as int),
        decreases b - i,
    {
        proof {
            assert(s@.subrange(a as int, i as int + 1) =~= s@.subrange(a as int, i as int).push(
                s@[i as int],
            ));
        }
        let x = s[i];
        out.push(x);
        i += 1;
    }
    out
}

/// Append all of `s` to `out`.
pub fn append_bytes(out: &mut Vec<u8>, s: &[u8])
    ensures
        final(out)@ == old(out)@ + s@,
{
    let mut i: usize = 0;
    while i < s.len()
        invariant
            0 <= i <= s@.len(),
            out@ == old(out)@ + s@.take(i as int),
        decreases s.len() - i,
    {
        proof {
            assert(old(out)@ + s@.take(i as int + 1) =~= (old(out)@ + s@.take(i as int)).push(
                s@[i as int],
            ));
        }
        let x = s[i];
        out.push(x);
        i += 1;
    }
    proof {
        assert(s@.take(s@.len() as int) =~= s@);
    }
}

/// The index of the first occurrence of `c` in `s`, if any.
pub open spec fn find_first(s: Seq<u8>, c: u8) -> Option<int>
    decreases s.len(),
{
    if s.len() == 0 {
        None
    } else if s[0] == c {
        Some(0)
    } else {
        match find_first(s.drop_first(), c) {
            Some(i) => Some(i + 1),
            None => None,
        }
    }
}

/// The index of the last occurrence of `c` in `s`, if any.
pub open spec fn find_last(s: Seq<u8>, c: u8) -> Option<int>
    decreases s.len(),
{
    if s.len() == 0 {
        None
    } else if s.last() == c {
        Some(s.len() - 1)
    } else {
        find_last(s.drop_last(), c)
    }
}

/// What `find_first` finds is the first occurrence.
pub proof fn lemma_find_first(s: Seq<u8>, c: u8)
    ensures
        match find_first(s, c) {
            Some(i) => 0 <= i < s.len() && s[i] == c && forall|j: int| 0 <= j < i ==> s[j] != c,
            None => forall|j: int| 0 <= j < s.len() ==> s[j] != c,
        },
    decreases s.len(),
{
    if s.len() > 0 && s[0] != c {
        lemma_find_first(s.drop_first(), c);
        let t = s.drop_first();
        assert(forall|j: int| 0 <= j < t.len() ==> #[trigger] t[j] == s[j + 1]);
        match find_first(t, c) {
            Some(i) => {
                assert(s[i + 1] == t[i]);
                assert forall|j: int| 0 <= j < i + 1 implies s[j] != c by {
                    if j > 0 {
                        assert(t[j - 1] != c);
                    }
                }
            },
            None => {
                assert forall|j: int| 0 <= j < s.len() implies s[j] != c by {
                    if j > 0 {
                        assert(t[j - 1] != c);
                    }
                }
            },
        }
    }
}

/// What `find_last` finds is the last occurrence.
pub proof fn lemma_find_last(s: Seq<u8>, c: u8)
    ensures
        match find_last(s, c) {
            Some(i) => 0 <= i < s.len() && s[i] == c && forall|j: int| i < j < s.len() ==> s[j]
                != c,
            None => forall|j: int| 0 <= j < s.len() ==> s[j] != c,
        },
    decreases s.len(),
{
    if s.len() > 0 && s.last() != c {
        lemma_find_last(s.drop_last(), c);
        assert(forall|j: int| 0 <= j < s.drop_last().len() ==> s.drop_last()[j] == s[j]);
    }
}

/// Find the first occurrence of `c` in `s`.
pub fn first_byte(s: &[u8], c: u8) -> (r: Option<usize>)
    ensures
        match r {
            Some(i) => find_first(s@, c) == Some(i as int) && i < s@.len() && s@[i as int] == c,
            None => find_first(s@, c) is None,
        },
{
    proof {
        lemma_find_first(s@, c);
    }
    let mut i: usize = 0;
    while i < s.len()
        invariant
            0 <= i <= s.len(),
            forall|j: int| 0 <= j < i ==> s@[j] != c,
            match find_first(s@, c) {
                Some(k) => 0 <= k < s@.len() && s@[k] == c && forall|j: int| 0 <= j < k ==> s@[j]
                    != c,
                None => forall|j: int| 0 <= j < s@.len() ==> s@[j] != c,
            },
        decreases s.len() - i,
    {
        if s[i] == c {
            proof {
                if let Some(k) = find_first(s@, c) {
                    assert(k == i as int) by {
                        if k < i as int {
                            assert(s@[k] != c);
                        }
                        if k > i as int {
                            assert(s@[i as int] != c);
                        }
                    }
                }
            }
            return Some(i);
        }
        i += 1;
    }
    None
}

/// Find the last occurrence of `c` in `s`.
pub fn last_byte(s: &[u8], c: u8) -> (r: Option<usize>)
    ensures
        match r {
            Some(i) => find_last(s@, c) == Some(i as int) && i < s@.len() && s@[i as int] == c,
            None => find_last(s@, c) is None,
        },
{
    proof {
        lemma_find_last(s@, c);
    }
    let mut i: usize = s.len();
    while i > 0
        invariant
            0 <= i <= s.len(),
            forall|j: int| i <= j < s@.len() ==> s@[j] != c,
            match find_last(s@, c) {
                Some(k) => 0 <= k < s@.len() && s@[k] == c && forall|j: int| k < j < s@.len()
                    ==> s@[j] != c,
                None => forall|j: int| 0 <= j < s@.len() ==> s@[j] != c,
            },
        decreases i,
    {
        i = i - 1;
        if s[i] == c {
            proof {
                if let Some(k) = find_last(s@, c) {
                    assert(k == i as int) by {
                        if k < i as int {
                            assert(s@[i as int] != c);
                        }
                        if k > i as int {
                            assert(s@[k] != c);
                        }
                    }
                }
            }
            return Some(i);
        }
    }
    None
}

} // verus!
