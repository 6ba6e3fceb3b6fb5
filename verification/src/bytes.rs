//! Byte-sequence utilities shared by the wire codec, the router and the
//! handlers: searching, comparison, ASCII case folding, whitespace trimming
//! and decimal rendering.
use vstd::prelude::*;

verus! {

/// Index of the first occurrence of `b` in `s`, if any.
pub open spec fn find_byte(s: Seq<u8>, b: u8) -> Option<int>
    decreases s.len(),
{
    if s.len() == 0 {
        None
    } else if s[0] == b {
        Some(0)
    } else {
        match find_byte(s.skip(1), b) {
            Some(i) => Some(i + 1),
            None => None,
        }
    }
}

/// `find_byte` returns the least index holding `b`, or `None` when `b` does
/// not occur.
pub proof fn lemma_find_byte(s: Seq<u8>, b: u8)
    ensures
        match find_byte(s, b) {
            Some(i) => 0 <= i < s.len() && s[i] == b && forall|j: int| 0 <= j < i ==> s[j] != b,
            None => forall|j: int| 0 <= j < s.len() ==> s[j] != b,
        },
    decreases s.len(),
{
    if s.len() > 0 && s[0] != b {
        lemma_find_byte(s.skip(1), b);
        let t = s.skip(1);
        match find_byte(t, b) {
            Some(i) => {
                assert(s[i + 1] == t[i]);
                assert forall|j: int| 0 <= j < i + 1 implies s[j] != b by {
                    if j > 0 {
                        assert(s[j] == t[j - 1]);
                    }
                }
            },
            None => {
                assert forall|j: int| 0 <= j < s.len() implies s[j] != b by {
                    if j > 0 {
                        assert(s[j] == t[j - 1]);
                    }
                }
            },
        }
    }
}

/// Conversely, an index that holds `b` with no occurrence before it is the
/// index that `find_byte` returns.
pub proof fn lemma_find_byte_is(s: Seq<u8>, b: u8, i: int)
    requires
        0 <= i < s.len(),
        s[i] == b,
        forall|j: int| 0 <= j < i ==> s[j] != b,
    ensures
        find_byte(s, b) == Some(i),
{
    lemma_find_byte(s, b);
    match find_byte(s, b) {
        Some(k) => {
            if k < i {
                assert(s[k] != b);
            }
            if k > i {
                assert(s[i] != b);
            }
        },
        None => {
            assert(s[i] != b);
        },
    }
}

/// First occurrence of `b` in `v` at or after `from`, reported as an offset
/// into `v@.skip(from)` through `find_byte`.
pub fn find_byte_from(v: &[u8], from: usize, b: u8) -> (r: Option<usize>)
    requires
        from <= v@.len(),
    ensures
        match r {
            Some(i) => from <= i < v@.len() && find_byte(v@.skip(from as int), b) == Some(
                i - from,
            ),
            None => find_byte(v@.skip(from as int), b) == None::<int>,
        },
{
    let mut j: usize = from;
    while j < v.len()
        invariant
            from <= j <= v@.len(),
            forall|k: int| from <= k < j ==> v@[k] != b,
        decreases v@.len() - j,
    {
        if v[j] == b {
            proof {
                let s = v@.skip(from as int);
                assert forall|k: int| 0 <= k < j - from implies s[k] != b by {
                    assert(s[k] == v@[from + k]);
                }
                assert(s[j - from] == v@[j as int]);
                lemma_find_byte_is(s, b, j - from);
            }
            return Some(j);
        }
        j = j + 1;
    }
    proof {
        let s = v@.skip(from as int);
        lemma_find_byte(s, b);
        match find_byte(s, b) {
            Some(i) => {
                assert(s[i] == v@[from + i]);
            },
            None => {},
        }
    }
    None
}

/// Whether two byte slices hold the same bytes.
pub fn bytes_eq(a: &[u8], b: &[u8]) -> (r: bool)
    ensures
        r == (a@ == b@),
{
    if a.len() != b.len() {
        proof {
            assert(a@.len() != b@.len());
        }
        return false;
    }
    let mut i: usize = 0;
    while i < a.len()
        invariant
            0 <= i <= a@.len(),
            a@.len() == b@.len(),
            forall|k: int| 0 <= k < i ==> a@[k] == b@[k],
        decreases a@.len() - i,
    {
        if a[i] != b[i] {
            return false;
        }
        i = i + 1;
    }
    proof {
        assert(a@ =~= b@);
    }
    true
}

/// Whether `p` is a prefix of `a`.
pub fn starts_with(a: &[u8], p: &[u8]) -> (r: bool)
    ensures
        r == p@.is_prefix_of(a@),
{
    if p.len() > a.len() {
        return false;
    }
    let mut i: usize = 0;
    while i < p.len()
        invariant
            0 <= i <= p@.len(),
            p@.len() <= a@.len(),
            forall|k: int| 0 <= k < i ==> a@[k] == p@[k],
        decreases p@.len() - i,
    {
        if a[i] != p[i] {
            proof {
                assert(a@.subrange(0, p@.len() as int)[i as int] == a@[i as int]);
            }
            return false;
        }
        i = i + 1;
    }
    proof {
        assert(p@ =~= a@.subrange(0, p@.len() as int));
    }
    true
}

/// ASCII lower-casing of one byte.
pub open spec fn to_lower_byte(b: u8) -> u8 {
    if 0x41 <= b <= 0x5a {
        (b + 0x20) as u8
    } else {
        b
    }
}

/// ASCII lower-casing of a byte sequence.
pub open spec fn lowercase_of(s: Seq<u8>) -> Seq<u8> {
    Seq::new(s.len(), |i: int| to_lower_byte(s[i]))
}

/// Lower-case a byte string, ASCII letters only.
pub fn to_lowercase(v: &[u8]) -> (r: Vec<u8>)
    ensures
        r@ == lowercase_of(v@),
{
    let mut r: Vec<u8> = Vec::new();
    let mut i: usize = 0;
    while i < v.len()
        invariant
            0 <= i <= v@.len(),
            r@.len() == i,
            forall|k: int| 0 <= k < i ==> r@[k] == to_lower_byte(v@[k]),
        decreases v@.len() - i,
    {
        let b = v[i];
        if 0x41 <= b && b <= 0x5a {
            r.push(b + 0x20);
        } else {
            r.push(b);
        }
        i = i + 1;
    }
    proof {
        assert(r@ =~= lowercase_of(v@));
    }
    r
}

/// The decimal digits of `n`, most significant first.
pub open spec fn dec_of(n: nat) -> Seq<u8>
    decreases n,
{
    if n < 10 {
        seq![(n + 0x30) as u8]
    } else {
        dec_of(n / 10).push((n % 10 + 0x30) as u8)
    }
}

/// Render `n` in decimal.
pub fn usize_to_dec(n: usize) -> (r: Vec<u8>)
    ensures
        r@ == dec_of(n as nat),
    decreases n,
{
    if n < 10 {
        let mut v: Vec<u8> = Vec::new();
        v.push((n as u8) + 0x30);
        proof {
            assert(v@ =~= dec_of(n as nat));
        }
        v
    } else {
        let mut v = usize_to_dec(n / 10);
        v.push(((n % 10) as u8) + 0x30);
        v
    }
}

/// Whether `b` is an ASCII decimal digit.
pub open spec fn is_digit(b: u8) -> bool {
    0x30 <= b <= 0x39
}

/// Value of a sequence of decimal digits, most significant first.
pub open spec fn dec_val(s: Seq<u8>) -> nat
    decreases s.len(),
{
    if s.len() == 0 {
        0
    } else {
        dec_val(s.drop_last()) * 10 + (if is_digit(s.last()) {
            (s.last() - 0x30) as nat
        } else {
            0
        })
    }
}

/// A digit string's value only grows as digits are appended.
proof fn lemma_dec_val_prefix_le(s: Seq<u8>, i: int)
    requires
        0 <= i <= s.len(),
    ensures
        dec_val(s.take(i)) <= dec_val(s),
    decreases s.len() - i,
{
    if i < s.len() {
        lemma_dec_val_prefix_le(s, i + 1);
        let t = s.take(i + 1);
        assert(t.drop_last() =~= s.take(i));
        assert(dec_val(s.take(i)) <= dec_val(t)) by {
            assert(dec_val(t) == dec_val(s.take(i)) * 10 + (if is_digit(t.last()) {
                (t.last() - 0x30) as nat
            } else {
                0
            }));
            assert(dec_val(s.take(i)) * 10 >= dec_val(s.take(i))) by (nonlinear_arith);
        }
    } else {
        assert(s.take(i) =~= s);
    }
}

/// Parse a decimal byte string into a `usize`: `Some` exactly when the string
/// is non-empty, all digits, and its value fits.
pub fn parse_dec(v: &[u8]) -> (r: Option<usize>)
    ensures
        match r {
            Some(n) => v@.len() > 0 && (forall|k: int| 0 <= k < v@.len() ==> is_digit(v@[k]))
                && n == dec_val(v@),
            None => !(v@.len() > 0 && (forall|k: int| 0 <= k < v@.len() ==> is_digit(v@[k]))
                && dec_val(v@) <= usize::MAX),
        },
{
    if v.len() == 0 {
        return None;
    }
    let mut acc: usize = 0;
    let mut i: usize = 0;
    while i < v.len()
        invariant
            0 <= i <= v@.len(),
            forall|k: int| 0 <= k < i ==> is_digit(v@[k]),
            acc == dec_val(v@.take(i as int)),
        decreases v@.len() - i,
    {
        let b = v[i];
        if !(0x30 <= b && b <= 0x39) {
            return None;
        }
        let d: usize = (b - 0x30) as usize;
        if acc > (usize::MAX - d) / 10 {
            proof {
                let t = v@.take(i + 1);
                assert(t.drop_last() =~= v@.take(i as int));
                assert(t.last() == v@[i as int]);
                assert(dec_val(t) == acc * 10 + d);
                assert(acc * 10 + d > usize::MAX) by (nonlinear_arith)
                    requires
                        acc > (usize::MAX - d) / 10,
                        d <= 9,
                {}
                lemma_dec_val_prefix_le(v@, i + 1);
            }
            return None;
        }
        proof {
            assert(acc * 10 + d <= usize::MAX) by (nonlinear_arith)
                requires
                    acc <= (usize::MAX - d) / 10,
                    d <= 9,
            {}
            let t = v@.take(i + 1);
            assert(t.drop_last() =~= v@.take(i as int));
            assert(t.last() == v@[i as int]);
        }
        acc = acc * 10 + d;
        i = i + 1;
    }
    proof {
        assert(v@.take(v@.len() as int) =~= v@);
    }
    Some(acc)
}

/// ASCII whitespace, as the token-splitting rules trim it.
pub open spec fn is_ws(b: u8) -> bool {
    b == 0x09 || b == 0x0a || b == 0x0b || b == 0x0c || b == 0x0d || b == 0x20
}

/// `s` without leading and trailing ASCII whitespace.
pub open spec fn trim_of(s: Seq<u8>) -> Seq<u8>
    decreases s.len(),
{
    if s.len() > 0 && is_ws(s[0]) {
        trim_of(s.skip(1))
    } else if s.len() > 0 && is_ws(s.last()) {
        trim_of(s.drop_last())
    } else {
        s
    }
}

/// Whether `b` is ASCII whitespace.
pub fn is_ws_byte(b: u8) -> (r: bool)
    ensures
        r == is_ws(b),
{
    b == 0x09 || b == 0x0a || b == 0x0b || b == 0x0c || b == 0x0d || b == 0x20
}

/// Trim leading and trailing ASCII whitespace.
pub fn trim(v: &[u8]) -> (r: Vec<u8>)
    ensures
        r@ == trim_of(v@),
{
    let n = v.len();
    proof {
        assert(v@.subrange(0, n as int) =~= v@);
    }
    let mut lo: usize = 0;
    while lo < n && is_ws_byte(v[lo])
        invariant
            0 <= lo <= n,
            n == v@.len(),
            trim_of(v@) == trim_of(v@.subrange(lo as int, n as int)),
        decreases n - lo,
    {
        proof {
            let sub = v@.subrange(lo as int, n as int);
            assert(sub[0] == v@[lo as int]);
            assert(sub.skip(1) =~= v@.subrange(lo + 1, n as int));
        }
        lo = lo + 1;
    }
    let mut hi: usize = n;
    while hi > lo && is_ws_byte(v[hi - 1])
        invariant
            0 <= lo <= hi <= n,
            n == v@.len(),
            lo == n || !is_ws(v@[lo as int]),
            trim_of(v@) == trim_of(v@.subrange(lo as int, hi as int)),
        decreases hi,
    {
        proof {
            let sub = v@.subrange(lo as int, hi as int);
            assert(sub.last() == v@[hi - 1]);
            if lo < hi - 1 {
                assert(sub[0] == v@[lo as int]);
            }
            assert(sub.drop_last() =~= v@.subrange(lo as int, hi - 1));
        }
        hi = hi - 1;
    }
    let r = vstd::slice::slice_to_vec(vstd::slice::slice_subrange(v, lo, hi));
    proof {
        let sub = v@.subrange(lo as int, hi as int);
        if sub.len() > 0 {
            assert(sub[0] == v@[lo as int]);
            assert(sub.last() == v@[hi - 1]);
        }
    }
    r
}

/// Every byte of a decimal rendering is a digit.
pub proof fn lemma_dec_of_digits(n: nat)
    ensures
        forall|i: int| 0 <= i < dec_of(n).len() ==> is_digit(#[trigger] dec_of(n)[i]),
    decreases n,
{
    if n >= 10 {
        lemma_dec_of_digits(n / 10);
        assert forall|i: int| 0 <= i < dec_of(n).len() implies is_digit(#[trigger] dec_of(n)[i])
            by {
            if i < dec_of(n / 10).len() {
                assert(dec_of(n)[i] == dec_of(n / 10)[i]);
            }
        }
    }
}

/// Rendering a number in decimal and reading the digits back returns it.
pub proof fn lemma_dec_val_of(n: nat)
    ensures
        dec_val(dec_of(n)) == n,
    decreases n,
{
    assert(dec_val(Seq::<u8>::empty()) == 0);
    if n < 10 {
        assert(dec_of(n).drop_last() =~= Seq::<u8>::empty());
        assert(dec_of(n).last() == (n + 0x30) as u8);
        assert(is_digit((n + 0x30) as u8));
    } else {
        lemma_dec_val_of(n / 10);
        assert(dec_of(n).drop_last() =~= dec_of(n / 10));
        assert(dec_of(n).last() == (n % 10 + 0x30) as u8);
        assert(is_digit((n % 10 + 0x30) as u8));
        assert(n / 10 * 10 + n % 10 == n) by (nonlinear_arith);
    }
}

} // verus!
