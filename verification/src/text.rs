//! ASCII text helpers: decimal and hexadecimal representations of numbers,
//! their parsers, and round-trip proofs relating the two.

use vstd::prelude::*;
use vstd::arithmetic::div_mod::lemma_fundamental_div_mod;

verus! {

/// The bytes of an ASCII character sequence.
pub open spec fn ascii_of(cs: Seq<char>) -> Seq<u8> {
    Seq::new(cs.len(), |i: int| cs[i] as u8)
}

/// The bytes of an ASCII string slice.
///
/// For ASCII text the UTF-8 encoding is the identity on character values, so
/// this gives direct access to concrete byte values of string literals.
pub fn lit_bytes(s: &str) -> (v: &[u8])
    requires
        vstd::string::is_ascii(s),
    ensures
        v@ == ascii_of(s@),
{
    proof {
        broadcast use vstd::string::is_ascii_spec_bytes;

    }
    s.as_bytes()
}

/// ASCII decimal digit.
pub open spec fn is_digit_byte(b: u8) -> bool {
    0x30 <= b && b <= 0x39
}

/// ASCII hexadecimal digit, either case.
pub open spec fn is_hex_byte(b: u8) -> bool {
    is_digit_byte(b) || (0x61 <= b && b <= 0x66) || (0x41 <= b && b <= 0x46)
}

/// The numeric value of one hexadecimal digit byte.
pub open spec fn hex_byte_val(b: u8) -> int {
    if is_digit_byte(b) {
        b - 0x30
    } else if 0x61 <= b && b <= 0x66 {
        b - 0x57
    } else {
        b - 0x37
    }
}

pub open spec fn all_digits(s: Seq<u8>) -> bool {
    forall|i: int| 0 <= i < s.len() ==> is_digit_byte(#[trigger] s[i])
}

pub open spec fn all_hex(s: Seq<u8>) -> bool {
    forall|i: int| 0 <= i < s.len() ==> is_hex_byte(#[trigger] s[i])
}

/// The value of a sequence of ASCII decimal digits.
pub open spec fn dec_val(s: Seq<u8>) -> int
    decreases s.len(),
{
    if s.len() == 0 {
        0
    } else {
        dec_val(s.drop_last()) * 10 + (s.last() - 0x30)
    }
}

/// The value of a sequence of ASCII hexadecimal digits.
pub open spec fn hex_val(s: Seq<u8>) -> int
    decreases s.len(),
{
    if s.len() == 0 {
        0
    } else {
        hex_val(s.drop_last()) * 16 + hex_byte_val(s.last())
    }
}

/// The shortest ASCII decimal representation of `n`.
pub open spec fn dec_rep(n: nat) -> Seq<u8>
    decreases n,
{
    if n < 10 {
        seq![(0x30 + n) as u8]
    } else {
        dec_rep(n / 10).push((0x30 + n % 10) as u8)
    }
}

/// One lowercase hexadecimal digit.
pub open spec fn hex_digit(d: nat) -> u8 {
    if d < 10 {
        (0x30 + d) as u8
    } else {
        (0x57 + d) as u8
    }
}

/// The shortest lowercase hexadecimal representation of `n`.
pub open spec fn hex_rep(n: nat) -> Seq<u8>
    decreases n,
{
    if n < 16 {
        seq![hex_digit(n)]
    } else {
        hex_rep(n / 16).push(hex_digit(n % 16))
    }
}

/// A decimal representation is a non-empty digit string whose value is the
/// number it was made from.
pub proof fn lemma_dec_rep(n: nat)
    ensures
        dec_rep(n).len() >= 1,
        all_digits(dec_rep(n)),
        dec_val(dec_rep(n)) == n,
    decreases n,
{
    if n < 10 {
        assert(dec_rep(n) =~= seq![(0x30 + n) as u8]);
        assert(dec_rep(n).drop_last() =~= Seq::<u8>::empty());
        assert(dec_rep(n).last() == (0x30 + n) as u8);
        assert(dec_val(dec_rep(n)) == dec_val(dec_rep(n).drop_last()) * 10 + (dec_rep(n).last()
            - 0x30));
    } else {
        lemma_dec_rep(n / 10);
        lemma_fundamental_div_mod(n as int, 10);
        let prev = dec_rep(n / 10);
        let d = (0x30 + n % 10) as u8;
        assert(prev.push(d).drop_last() =~= prev);
        assert(prev.push(d).last() == d);
        assert(dec_val(prev.push(d)) == dec_val(prev) * 10 + (d - 0x30));
        assert forall|t: int| 0 <= t < prev.push(d).len() implies is_digit_byte(
            prev.push(d)[t],
        ) by {
            if t < prev.len() {
                assert(prev.push(d)[t] == prev[t]);
            }
        }
    }
}

/// A hexadecimal representation is a non-empty hex-digit string whose value
/// is the number it was made from.
pub proof fn lemma_hex_rep(n: nat)
    ensures
        hex_rep(n).len() >= 1,
        all_hex(hex_rep(n)),
        hex_val(hex_rep(n)) == n,
    decreases n,
{
    if n < 16 {
        assert(hex_rep(n) =~= seq![hex_digit(n)]);
        assert(hex_rep(n).drop_last() =~= Seq::<u8>::empty());
        assert(hex_rep(n).last() == hex_digit(n));
        assert(is_hex_byte(hex_digit(n)) && hex_byte_val(hex_digit(n)) == n);
        assert(hex_val(hex_rep(n)) == hex_val(hex_rep(n).drop_last()) * 16 + hex_byte_val(
            hex_rep(n).last(),
        ));
    } else {
        lemma_hex_rep(n / 16);
        lemma_fundamental_div_mod(n as int, 16);
        let prev = hex_rep(n / 16);
        let d = hex_digit(n % 16);
        assert(prev.push(d).drop_last() =~= prev);
        assert(prev.push(d).last() == d);
        assert(is_hex_byte(d) && hex_byte_val(d) == n % 16);
        assert(hex_val(prev.push(d)) == hex_val(prev) * 16 + hex_byte_val(d));
        assert forall|t: int| 0 <= t < prev.push(d).len() implies is_hex_byte(prev.push(d)[t]) by {
            if t < prev.len() {
                assert(prev.push(d)[t] == prev[t]);
            }
        }
    }
}

/// Appends the decimal representation of `n`.
pub fn push_dec_u64(v: &mut Vec<u8>, n: u64)
    ensures
        final(v)@ == old(v)@ + dec_rep(n as nat),
    decreases n,
{
    if n < 10 {
        v.push((0x30 + n) as u8);
        proof {
            assert(v@ =~= old(v)@ + dec_rep(n as nat));
        }
    } else {
        push_dec_u64(v, n / 10);
        v.push((0x30 + (n % 10)) as u8);
        proof {
            assert(v@ =~= old(v)@ + dec_rep(n as nat));
        }
    }
}

/// Appends the lowercase hexadecimal representation of `n`.
pub fn push_hex_u64(v: &mut Vec<u8>, n: u64)
    ensures
        final(v)@ == old(v)@ + hex_rep(n as nat),
    decreases n,
{
    if n < 16 {
        let d: u8 = if n < 10 {
            (0x30 + n) as u8
        } else {
            (0x57 + n) as u8
        };
        v.push(d);
        proof {
            assert(v@ =~= old(v)@ + hex_rep(n as nat));
        }
    } else {
        push_hex_u64(v, n / 16);
        let m = n % 16;
        let d: u8 = if m < 10 {
            (0x30 + m) as u8
        } else {
            (0x57 + m) as u8
        };
        v.push(d);
        proof {
            assert(v@ =~= old(v)@ + hex_rep(n as nat));
        }
    }
}

/// Reads a decimal number; accepts exactly the non-empty all-digit strings
/// whose value fits in a `u64`.
pub fn parse_dec_u64(s: &[u8]) -> (r: Option<u64>)
    ensures
        match r {
            Some(v) => s@.len() > 0 && all_digits(s@) && dec_val(s@) == v,
            None => s@.len() == 0 || !all_digits(s@) || dec_val(s@) > u64::MAX,
        },
{
    let n = s.len();
    if n == 0 {
        return None;
    }
    let mut val: u64 = 0;
    let mut overflow = false;
    let mut j: usize = 0;
    while j < n
        invariant
            n == s@.len(),
            j <= n,
            all_digits(s@.take(j as int)),
            !overflow ==> val == dec_val(s@.take(j as int)),
            overflow ==> dec_val(s@.take(j as int)) > u64::MAX,
        decreases n - j,
    {
        let b = s[j];
        proof {
            assert(s@.take(j + 1).drop_last() =~= s@.take(j as int));
            assert(s@.take(j + 1).last() == s@[j as int]);
        }
        if b < 0x30 || b > 0x39 {
            proof {
                assert(!is_digit_byte(s@[j as int]));
            }
            return None;
        }
        let d = (b - 0x30) as u64;
        if !overflow {
            match val.checked_mul(10) {
                Some(t) => match t.checked_add(d) {
                    Some(v2) => {
                        val = v2;
                    },
                    None => {
                        overflow = true;
                    },
                },
                None => {
                    overflow = true;
                },
            }
        }
        j += 1;
    }
    proof {
        assert(s@.take(n as int) =~= s@);
    }
    if overflow {
        None
    } else {
        Some(val)
    }
}

/// Reads a hexadecimal number; accepts exactly the non-empty all-hex-digit
/// strings, either case, whose value fits in a `u64`.
pub fn parse_hex_u64(s: &[u8]) -> (r: Option<u64>)
    ensures
        match r {
            Some(v) => s@.len() > 0 && all_hex(s@) && hex_val(s@) == v,
            None => s@.len() == 0 || !all_hex(s@) || hex_val(s@) > u64::MAX,
        },
{
    let n = s.len();
    if n == 0 {
        return None;
    }
    let mut val: u64 = 0;
    let mut overflow = false;
    let mut j: usize = 0;
    while j < n
        invariant
            n == s@.len(),
            j <= n,
            all_hex(s@.take(j as int)),
            !overflow ==> val == hex_val(s@.take(j as int)),
            overflow ==> hex_val(s@.take(j as int)) > u64::MAX,
        decreases n - j,
    {
        let b = s[j];
        proof {
            assert(s@.take(j + 1).drop_last() =~= s@.take(j as int));
            assert(s@.take(j + 1).last() == s@[j as int]);
        }
        let d: u64 = if b >= 0x30 && b <= 0x39 {
            (b - 0x30) as u64
        } else if b >= 0x61 && b <= 0x66 {
            (b - 0x57) as u64
        } else if b >= 0x41 && b <= 0x46 {
            (b - 0x37) as u64
        } else {
            proof {
                assert(!is_hex_byte(s@[j as int]));
            }
            return None;
        };
        if !overflow {
            match val.checked_mul(16) {
                Some(t) => match t.checked_add(d) {
                    Some(v2) => {
                        val = v2;
                    },
                    None => {
                        overflow = true;
                    },
                },
                None => {
                    overflow = true;
                },
            }
        }
        j += 1;
    }
    proof {
        assert(s@.take(n as int) =~= s@);
    }
    if overflow {
        None
    } else {
        Some(val)
    }
}

/// All bytes below 0x80.
pub open spec fn all_ascii(s: Seq<u8>) -> bool {
    forall|i: int| 0 <= i < s.len() ==> #[trigger] s[i] < 0x80
}

pub proof fn lemma_all_ascii_concat(a: Seq<u8>, b: Seq<u8>)
    requires
        all_ascii(a),
        all_ascii(b),
    ensures
        all_ascii(a + b),
{
    assert forall|i: int| 0 <= i < (a + b).len() implies #[trigger] (a + b)[i] < 0x80 by {
        if i < a.len() {
            assert((a + b)[i] == a[i]);
        } else {
            assert((a + b)[i] == b[i - a.len()]);
        }
    }
}

/// The bytes of an ASCII character sequence are all below 0x80.
pub proof fn lemma_ascii_of_all_ascii(cs: Seq<char>)
    requires
        vstd::utf8::is_ascii_chars(cs),
    ensures
        all_ascii(ascii_of(cs)),
{
    broadcast use vstd::utf8::is_ascii_chars_nat_bound;

}

/// Digit strings are ASCII.
pub proof fn lemma_digits_all_ascii(s: Seq<u8>)
    requires
        all_digits(s) || all_hex(s),
    ensures
        all_ascii(s),
{
}

/// Relies on `String::from_utf8`: ASCII bytes are valid UTF-8, and the
/// string it returns holds exactly the given bytes.
#[verifier::external_body]
pub(crate) fn string_from_ascii(v: Vec<u8>) -> (r: String)
    requires
        all_ascii(v@),
    ensures
        vstd::utf8::encode_utf8(r@) == v@,
{
    match String::from_utf8(v) {
        Ok(s) => s,
        Err(_) => String::new(),
    }
}

/// No newline byte anywhere.
pub open spec fn nl_free(s: Seq<u8>) -> bool {
    forall|i: int| 0 <= i < s.len() ==> #[trigger] s[i] != 0x0a
}

/// Index of the first newline byte, or the length when there is none.
pub open spec fn first_nl(s: Seq<u8>) -> nat
    decreases s.len(),
{
    if s.len() == 0 {
        0
    } else if s[0] == 0x0a {
        0
    } else {
        1 + first_nl(s.drop_first())
    }
}

/// The lines of `s`: the maximal newline-free pieces between newline bytes.
pub open spec fn lines_of(s: Seq<u8>) -> Seq<Seq<u8>>
    decreases s.len(),
{
    let i = first_nl(s);
    if i >= s.len() {
        seq![s]
    } else {
        seq![s.take(i as int)] + lines_of(s.skip(i + 1 as int))
    }
}

/// What `first_nl` finds: everything before it is not a newline, and it
/// points at a newline unless there is none.
pub proof fn lemma_first_nl(s: Seq<u8>)
    ensures
        first_nl(s) <= s.len(),
        forall|i: int| 0 <= i < first_nl(s) ==> #[trigger] s[i] != 0x0a,
        first_nl(s) < s.len() ==> s[first_nl(s) as int] == 0x0a,
    decreases s.len(),
{
    if s.len() > 0 && s[0] != 0x0a {
        lemma_first_nl(s.drop_first());
        assert forall|i: int| 0 <= i < first_nl(s) implies #[trigger] s[i] != 0x0a by {
            if i > 0 {
                assert(s.drop_first()[i - 1] == s[i]);
            }
        }
    }
}

/// An index with no newline before it and a newline (or the end) at it is
/// where `first_nl` points.
pub proof fn lemma_first_nl_is(s: Seq<u8>, i: int)
    requires
        0 <= i <= s.len(),
        forall|t: int| 0 <= t < i ==> #[trigger] s[t] != 0x0a,
        i < s.len() ==> s[i] == 0x0a,
    ensures
        first_nl(s) == i,
    decreases s.len(),
{
    if s.len() > 0 && s[0] != 0x0a {
        assert(i > 0);
        let d = s.drop_first();
        assert forall|t: int| 0 <= t < i - 1 implies #[trigger] d[t] != 0x0a by {
            assert(d[t] == s[t + 1]);
        }
        lemma_first_nl_is(d, i - 1);
    }
}

/// A newline-free sequence is one whole line.
pub proof fn lemma_lines_of_single(a: Seq<u8>)
    requires
        nl_free(a),
    ensures
        lines_of(a) == seq![a],
{
    lemma_first_nl_is(a, a.len() as int);
}

/// Splitting at the first newline: a newline-free head is the first line.
pub proof fn lemma_lines_of_cons(a: Seq<u8>, rest: Seq<u8>)
    requires
        nl_free(a),
    ensures
        lines_of(a + seq![0x0au8] + rest) == seq![a] + lines_of(rest),
    decreases a.len(),
{
    let b = a + seq![0x0au8] + rest;
    assert forall|t: int| 0 <= t < a.len() implies #[trigger] b[t] != 0x0a by {
        assert(b[t] == a[t]);
    }
    assert(b[a.len() as int] == 0x0a);
    lemma_first_nl_is(b, a.len() as int);
    assert(b.take(a.len() as int) =~= a);
    assert(b.skip(a.len() + 1 as int) =~= rest);
}

pub proof fn lemma_nl_free_concat(a: Seq<u8>, b: Seq<u8>)
    requires
        nl_free(a),
        nl_free(b),
    ensures
        nl_free(a + b),
{
    assert forall|i: int| 0 <= i < (a + b).len() implies #[trigger] (a + b)[i] != 0x0a by {
        if i < a.len() {
            assert((a + b)[i] == a[i]);
        } else {
            assert((a + b)[i] == b[i - a.len()]);
        }
    }
}

/// Digit strings hold no newline.
pub proof fn lemma_digits_nl_free(s: Seq<u8>)
    requires
        all_digits(s) || all_hex(s),
    ensures
        nl_free(s),
{
}

/// The views of a vector of byte lines.
pub open spec fn line_views(v: Seq<Vec<u8>>) -> Seq<Seq<u8>> {
    Seq::new(v.len(), |i: int| v[i]@)
}

/// Splits on newline bytes.
pub fn split_lines(b: &[u8]) -> (r: Vec<Vec<u8>>)
    ensures
        line_views(r@) == lines_of(b@),
    decreases b@.len(),
{
    let n = b.len();
    let mut i: usize = 0;
    while i < n && b[i] != 0x0a
        invariant
            i <= n,
            n == b@.len(),
            forall|t: int| 0 <= t < i ==> #[trigger] b@[t] != 0x0a,
        decreases n - i,
    {
        i += 1;
    }
    proof {
        lemma_first_nl_is(b@, i as int);
    }
    if i == n {
        let mut r: Vec<Vec<u8>> = Vec::new();
        r.push(vstd::slice::slice_to_vec(b));
        proof {
            assert(line_views(r@) =~= lines_of(b@));
        }
        r
    } else {
        let head: Vec<u8> = vstd::slice::slice_to_vec(&b[0..i]);
        let mut rest = split_lines(&b[i + 1..n]);
        let mut r: Vec<Vec<u8>> = Vec::new();
        r.push(head);
        r.append(&mut rest);
        proof {
            assert(b@.take(i as int) =~= b@.subrange(0, i as int));
            assert(b@.skip(i + 1) =~= b@.subrange(i + 1, n as int));
            assert(line_views(r@) =~= lines_of(b@));
        }
        r
    }
}

/// Whether two byte slices hold the same bytes.
pub fn bytes_eq(a: &[u8], b: &[u8]) -> (r: bool)
    ensures
        r <==> a@ == b@,
{
    if a.len() != b.len() {
        proof {
            assert(a@.len() != b@.len());
        }
        return false;
    }
    let n = a.len();
    let mut i: usize = 0;
    while i < n
        invariant
            n == a@.len() && n == b@.len(),
            i <= n,
            forall|t: int| 0 <= t < i ==> a@[t] == b@[t],
        decreases n - i,
    {
        if a[i] != b[i] {
            return false;
        }
        i += 1;
    }
    proof {
        assert(a@ =~= b@);
    }
    true
}

/// Whether `p` is a prefix of `s`.
pub fn bytes_start_with(s: &[u8], p: &[u8]) -> (r: bool)
    ensures
        r <==> p@.is_prefix_of(s@),
{
    if p.len() > s.len() {
        return false;
    }
    let n = p.len();
    let mut i: usize = 0;
    while i < n
        invariant
            n == p@.len(),
            n <= s@.len(),
            i <= n,
            forall|t: int| 0 <= t < i ==> s@[t] == p@[t],
        decreases n - i,
    {
        if s[i] != p[i] {
            proof {
                assert(!(p@ =~= s@.take(n as int)));
            }
            return false;
        }
        i += 1;
    }
    proof {
        assert(p@ =~= s@.take(n as int));
    }
    true
}

} // verus!
