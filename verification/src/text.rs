//! Text helpers: decimal rendering of integers, and search over the bytes of
//! ASCII-lowercased text.

use vstd::prelude::*;
use vstd::string::StringSliceAdditionalSpecFns;

verus! {

/// The ASCII character of a decimal digit.
pub open spec fn digit_char(d: nat) -> char {
    (48 + d) as char
}

/// The decimal representation of `n`, most significant digit first, without
/// leading zeros (`0` is rendered as `"0"`).
pub open spec fn decimal_chars(n: nat) -> Seq<char>
    decreases n,
{
    if n < 10 {
        seq![digit_char(n)]
    } else {
        decimal_chars(n / 10).push(digit_char(n % 10))
    }
}

/// The one-character string of a decimal digit.
pub fn digit_str(d: u64) -> (r: &'static str)
    requires
        d < 10,
    ensures
        r@ == seq![digit_char(d as nat)],
{
    match d {
        0 => {
            proof {
                reveal_strlit("0");
            }
            "0"
        },
        1 => {
            proof {
                reveal_strlit("1");
            }
            "1"
        },
        2 => {
            proof {
                reveal_strlit("2");
            }
            "2"
        },
        3 => {
            proof {
                reveal_strlit("3");
            }
            "3"
        },
        4 => {
            proof {
                reveal_strlit("4");
            }
            "4"
        },
        5 => {
            proof {
                reveal_strlit("5");
            }
            "5"
        },
        6 => {
            proof {
                reveal_strlit("6");
            }
            "6"
        },
        7 => {
            proof {
                reveal_strlit("7");
            }
            "7"
        },
        8 => {
            proof {
                reveal_strlit("8");
            }
            "8"
        },
        _ => {
            proof {
                reveal_strlit("9");
            }
            "9"
        },
    }
}

/// Appends the decimal representation of `n` to `s`.
pub fn push_decimal(s: &mut String, n: u128)
    ensures
        final(s)@ == old(s)@ + decimal_chars(n as nat),
    decreases n,
{
    if n < 10 {
        s.append(digit_str(n as u64));
    } else {
        push_decimal(s, n / 10);
        s.append(digit_str((n % 10) as u64));
    }
}

/// The decimal representation of `n` as a new string.
pub fn decimal_string(n: u128) -> (r: String)
    ensures
        r@ == decimal_chars(n as nat),
{
    let mut s = String::new();
    push_decimal(&mut s, n);
    s
}


/// The bytes of an ASCII character sequence.
pub open spec fn ascii_of(cs: Seq<char>) -> Seq<u8> {
    Seq::new(cs.len(), |i: int| cs[i] as u8)
}

/// A byte with ASCII upper-case letters mapped to lower case.
pub open spec fn lower_byte(b: u8) -> u8 {
    if 65 <= b <= 90 {
        (b + 32) as u8
    } else {
        b
    }
}

/// Text with ASCII upper-case letters mapped to lower case, other bytes
/// (non-ASCII ones included) unchanged.
pub open spec fn lower_bytes(s: Seq<u8>) -> Seq<u8> {
    Seq::new(s.len(), |i: int| lower_byte(s[i]))
}

/// A byte with ASCII lower-case letters mapped to upper case.
pub open spec fn upper_byte(b: u8) -> u8 {
    if 97 <= b <= 122 {
        (b - 32) as u8
    } else {
        b
    }
}

/// Text with ASCII lower-case letters mapped to upper case, other bytes
/// (non-ASCII ones included) unchanged.
pub open spec fn upper_bytes(s: Seq<u8>) -> Seq<u8> {
    Seq::new(s.len(), |i: int| upper_byte(s[i]))
}

/// Lower-casing twice is lower-casing once, and lower-casing an upper-cased
/// text is lower-casing the text: ASCII case is all that either changes.
pub proof fn lemma_lower_bytes_forgets_case(s: Seq<u8>)
    ensures
        lower_bytes(lower_bytes(s)) == lower_bytes(s),
        lower_bytes(upper_bytes(s)) == lower_bytes(s),
{
    assert(lower_bytes(lower_bytes(s)) =~= lower_bytes(s));
    assert(lower_bytes(upper_bytes(s)) =~= lower_bytes(s));
}

/// `pat` occurs in `s` starting at byte `p`.
pub open spec fn occurs_at(s: Seq<u8>, pat: Seq<u8>, p: int) -> bool {
    0 <= p && p + pat.len() <= s.len() && s.subrange(p, p + pat.len()) == pat
}

/// `pat` occurs somewhere in `s`.
pub open spec fn contains_bytes(s: Seq<u8>, pat: Seq<u8>) -> bool {
    exists|p: int| occurs_at(s, pat, p)
}

/// `s` ends with `pat`.
pub open spec fn ends_with_bytes(s: Seq<u8>, pat: Seq<u8>) -> bool {
    pat.len() <= s.len() && occurs_at(s, pat, s.len() - pat.len())
}

/// The first position at which `pat` occurs in `s`, if any.
pub open spec fn first_occurrence(s: Seq<u8>, pat: Seq<u8>) -> Option<int> {
    if contains_bytes(s, pat) {
        Some(
            choose|p: int|
                occurs_at(s, pat, p) && forall|q: int| 0 <= q < p ==> !occurs_at(s, pat, q),
        )
    } else {
        None
    }
}

/// The first occurrence is an occurrence, and nothing occurs earlier; with
/// no first occurrence there is none at all.
pub proof fn lemma_first_occurrence(s: Seq<u8>, pat: Seq<u8>)
    ensures
        first_occurrence(s, pat) matches Some(p) ==> occurs_at(s, pat, p) && forall|q: int|
            0 <= q < p ==> !occurs_at(s, pat, q),
        first_occurrence(s, pat) is None ==> forall|q: int| !occurs_at(s, pat, q),
{
    if contains_bytes(s, pat) {
        let w = choose|p: int| occurs_at(s, pat, p);
        lemma_least_occurrence(s, pat, w);
    }
}

/// Below any occurrence at `w` there is a least one.
proof fn lemma_least_occurrence(s: Seq<u8>, pat: Seq<u8>, w: int)
    requires
        occurs_at(s, pat, w),
    ensures
        exists|p: int| occurs_at(s, pat, p) && forall|q: int| 0 <= q < p ==> !occurs_at(s, pat, q),
    decreases w,
{
    if exists|q: int| 0 <= q < w && occurs_at(s, pat, q) {
        let q = choose|q: int| 0 <= q < w && occurs_at(s, pat, q);
        lemma_least_occurrence(s, pat, q);
    } else {
        assert(occurs_at(s, pat, w) && forall|q: int| 0 <= q < w ==> !occurs_at(s, pat, q));
    }
}

/// Lower-cases the ASCII letters of `s`.
pub fn to_ascii_lowercase_bytes(s: &[u8]) -> (r: Vec<u8>)
    ensures
        r@ == lower_bytes(s@),
{
    let mut r: Vec<u8> = Vec::new();
    let mut i: usize = 0;
    while i < s.len()
        invariant
            0 <= i <= s@.len(),
            r@ =~= lower_bytes(s@).subrange(0, i as int),
        decreases s@.len() - i,
    {
        let b = s[i];
        let l = if 65 <= b && b <= 90 {
            b + 32
        } else {
            b
        };
        r.push(l);
        i = i + 1;
    }
    r
}

/// Whether `pat` occurs in `s` at byte `p`.
pub fn occurs_at_exec(s: &[u8], pat: &[u8], p: usize) -> (r: bool)
    ensures
        r == occurs_at(s@, pat@, p as int),
{
    if pat.len() > s.len() || p > s.len() - pat.len() {
        return false;
    }
    let mut k: usize = 0;
    while k < pat.len()
        invariant
            p + pat@.len() <= s@.len(),
            s@.len() == s.len(),
            0 <= k <= pat@.len(),
            forall|t: int| 0 <= t < k ==> s@[p + t] == pat@[t],
        decreases pat@.len() - k,
    {
        if s[p + k] != pat[k] {
            assert(s@.subrange(p as int, p + pat@.len())[k as int] != pat@[k as int]);
            return false;
        }
        k = k + 1;
    }
    assert(s@.subrange(p as int, p + pat@.len()) =~= pat@);
    true
}

/// The first position at or after `from` at which `pat` occurs in `s`.
pub fn find_bytes(s: &[u8], pat: &[u8], from: usize) -> (r: Option<usize>)
    ensures
        r matches Some(p) ==> from <= p && occurs_at(s@, pat@, p as int) && forall|q: int|
            from <= q < p ==> !occurs_at(s@, pat@, q),
        r is None ==> forall|q: int| from <= q ==> !occurs_at(s@, pat@, q),
{
    if pat.len() > s.len() {
        return None;
    }
    let last = s.len() - pat.len();
    if from > last {
        return None;
    }
    let mut p = from;
    loop
        invariant
            last + pat@.len() == s@.len(),
            from <= p <= last,
            forall|q: int| from <= q < p ==> !occurs_at(s@, pat@, q),
        decreases last - p,
    {
        if occurs_at_exec(s, pat, p) {
            return Some(p);
        }
        if p == last {
            return None;
        }
        p = p + 1;
    }
}

/// The first position at which `pat` occurs in `s`.
pub fn first_occurrence_exec(s: &[u8], pat: &[u8]) -> (r: Option<usize>)
    ensures
        r matches Some(p) ==> first_occurrence(s@, pat@) == Some(p as int),
        r is None ==> first_occurrence(s@, pat@) is None,
{
    let r = find_bytes(s, pat, 0);
    proof {
        match r {
            Some(p) => {
                let pi = p as int;
                assert(occurs_at(s@, pat@, pi));
                let c = choose|x: int|
                    occurs_at(s@, pat@, x) && forall|q: int| 0 <= q < x ==> !occurs_at(s@, pat@, q);
                assert(occurs_at(s@, pat@, c) && forall|q: int|
                    0 <= q < c ==> !occurs_at(s@, pat@, q));
                if c < pi {
                    assert(!occurs_at(s@, pat@, c));
                } else if pi < c {
                    assert(!occurs_at(s@, pat@, pi));
                }
            },
            None => {
                assert(!contains_bytes(s@, pat@));
            },
        }
    }
    r
}

/// Whether `pat` occurs anywhere in `s`.
pub fn contains_exec(s: &[u8], pat: &[u8]) -> (r: bool)
    ensures
        r == contains_bytes(s@, pat@),
{
    let r = find_bytes(s, pat, 0);
    r.is_some()
}

/// Whether `s` ends with `pat`.
pub fn ends_with_exec(s: &[u8], pat: &[u8]) -> (r: bool)
    ensures
        r == ends_with_bytes(s@, pat@),
{
    if pat.len() > s.len() {
        return false;
    }
    occurs_at_exec(s, pat, s.len() - pat.len())
}


/// An ASCII decimal digit.
pub open spec fn is_digit(b: u8) -> bool {
    48 <= b <= 57
}

/// Every byte is an ASCII decimal digit.
pub open spec fn all_digits(d: Seq<u8>) -> bool {
    forall|i: int| 0 <= i < d.len() ==> is_digit(#[trigger] d[i])
}

/// The number that a run of decimal digits spells (0 for no digits).
pub open spec fn digits_value(d: Seq<u8>) -> int
    decreases d.len(),
{
    if d.len() == 0 {
        0
    } else {
        digits_value(d.drop_last()) * 10 + (d.last() - 48)
    }
}

/// Ten to the power `n`.
pub open spec fn pow10(n: nat) -> int
    decreases n,
{
    if n == 0 {
        1
    } else {
        10 * pow10((n - 1) as nat)
    }
}

/// A run of digits spells a number of at least zero.
pub proof fn lemma_digits_value_nonneg(d: Seq<u8>)
    requires
        all_digits(d),
    ensures
        digits_value(d) >= 0,
    decreases d.len(),
{
    if d.len() > 0 {
        assert(all_digits(d.drop_last())) by {
            assert forall|i: int| 0 <= i < d.drop_last().len() implies is_digit(
                #[trigger] d.drop_last()[i],
            ) by {
                assert(d.drop_last()[i] == d[i]);
            }
        }
        lemma_digits_value_nonneg(d.drop_last());
        assert(is_digit(d[d.len() - 1]));
    }
}

/// The value of the digits `d[lo..hi]`, or `None` when it exceeds 64 bits.
pub fn digits_value_exec(d: &[u8], lo: usize, hi: usize) -> (r: Option<u64>)
    requires
        lo <= hi <= d@.len(),
        all_digits(d@.subrange(lo as int, hi as int)),
    ensures
        digits_value(d@.subrange(lo as int, hi as int)) <= u64::MAX ==> r == Some(
            digits_value(d@.subrange(lo as int, hi as int)) as u64,
        ),
        digits_value(d@.subrange(lo as int, hi as int)) > u64::MAX ==> r is None,
{
    let mut v: u128 = 0;
    let mut over = false;
    let mut j = lo;
    while j < hi
        invariant
            lo <= j <= hi <= d@.len(),
            all_digits(d@.subrange(lo as int, hi as int)),
            !over ==> v == digits_value(d@.subrange(lo as int, j as int)) && v <= u64::MAX,
            over ==> digits_value(d@.subrange(lo as int, j as int)) > u64::MAX,
        decreases hi - j,
    {
        let ghost pre = d@.subrange(lo as int, j as int);
        let ghost post = d@.subrange(lo as int, j + 1);
        proof {
            assert(post.drop_last() =~= pre);
            assert(post.last() == d@.subrange(lo as int, hi as int)[j - lo]);
            assert(all_digits(pre)) by {
                assert forall|i: int| 0 <= i < pre.len() implies is_digit(#[trigger] pre[i]) by {
                    assert(pre[i] == d@.subrange(lo as int, hi as int)[i]);
                }
            }
            lemma_digits_value_nonneg(pre);
        }
        let b = d[j];
        if !over {
            v = v * 10 + (b - 48) as u128;
            if v > 0xffff_ffff_ffff_ffff {
                over = true;
            }
        }
        j = j + 1;
    }
    if over {
        None
    } else {
        Some(v as u64)
    }
}

/// The last `w` decimal digits of `f`, zero-padded on the left.
pub open spec fn padded_digits(f: nat, w: nat) -> Seq<char>
    decreases w,
{
    if w == 0 {
        Seq::empty()
    } else {
        padded_digits(f / 10, (w - 1) as nat).push(digit_char(f % 10))
    }
}

/// A fraction of `w` decimals with its trailing zeros dropped: the remaining
/// digits and their count.
pub open spec fn strip_zeros(f: nat, w: nat) -> (nat, nat)
    decreases w,
{
    if w > 0 && f % 10 == 0 {
        strip_zeros(f / 10, (w - 1) as nat)
    } else {
        (f, w)
    }
}

/// A fixed-point amount in millionths written as a decimal number: the
/// whole part, then, if the fraction is not zero, a dot and the fraction's
/// six decimals without trailing zeros (`1500000` is `"1.5"`, `2000000` is
/// `"2"`).
pub open spec fn micro_chars(v: nat) -> Seq<char> {
    let whole = v / 1_000_000;
    let frac = v % 1_000_000;
    if frac == 0 {
        decimal_chars(whole)
    } else {
        let (f, w) = strip_zeros(frac, 6);
        decimal_chars(whole) + seq!['.'] + padded_digits(f, w)
    }
}

/// Appends the last `w` decimal digits of `f`, zero-padded.
fn push_padded(s: &mut String, f: u64, w: u64)
    ensures
        final(s)@ == old(s)@ + padded_digits(f as nat, w as nat),
    decreases w,
{
    if w > 0 {
        push_padded(s, f / 10, w - 1);
        s.append(digit_str(f % 10));
    }
}

/// Writes a fixed-point amount in millionths as a decimal number.
pub fn micro_text(v: u64) -> (r: String)
    ensures
        r@ == micro_chars(v as nat),
{
    let mut s = decimal_string((v / 1_000_000) as u128);
    let frac = v % 1_000_000;
    if frac != 0 {
        let mut f = frac;
        let mut w: u64 = 6;
        while w > 0 && f % 10 == 0
            invariant
                strip_zeros(frac as nat, 6) == strip_zeros(f as nat, w as nat),
                w <= 6,
            decreases w,
        {
            f = f / 10;
            w = w - 1;
        }
        let dot = ".";
        proof {
            reveal_strlit(".");
        }
        s.append(dot);
        push_padded(&mut s, f, w);
    }
    s
}

/// Whether two texts are the same.
pub fn same_text(a: &str, b: &str) -> (r: bool)
    ensures
        r == (a@ == b@),
{
    let x = a.as_bytes();
    let y = b.as_bytes();
    proof {
        vstd::utf8::encode_utf8_decode_utf8(a@);
        vstd::utf8::encode_utf8_decode_utf8(b@);
    }
    if x.len() != y.len() {
        return false;
    }
    let mut i: usize = 0;
    while i < x.len()
        invariant
            x@ == a.spec_bytes(),
            y@ == b.spec_bytes(),
            x@.len() == y@.len(),
            0 <= i <= x@.len(),
            forall|k: int| 0 <= k < i ==> x@[k] == y@[k],
        decreases x@.len() - i,
    {
        if x[i] != y[i] {
            assert(x@[i as int] != y@[i as int]);
            assert(x@ != y@);
            return false;
        }
        i = i + 1;
    }
    assert(x@ =~= y@);
    true
}

/// The text of a query string's parameters.
pub open spec fn pairs_view(v: Seq<(String, String)>) -> Seq<(Seq<char>, Seq<char>)> {
    v.map_values(|p: (String, String)| (p.0@, p.1@))
}

} // verus!
