use vstd::prelude::*;

use crate::geom::mesh::{Builder, Data};
use crate::geom::util::triangulate_all;
use crate::math::{Scalar, Vector3};

verus! {

broadcast use vstd::seq_lib::group_seq_properties;

/// The fixed-point scale of a parsed scalar: a token's numeric value is
/// stored times one million, so up to six fractional decimal digits are
/// kept exactly.
pub const SCALE: i64 = 1_000_000;

/// Importer errors, by category: a malformed line, a vertex key whose
/// index points outside a parsed attribute array, or a face with fewer
/// than 3 corners.
#[derive(Copy, Clone, Debug, PartialEq, Eq, Structural)]
pub enum Error {
    Parse,
    Lookup,
    Degenerate,
}

// ---------------------------------------------------------------------
// Numeric tokens
// ---------------------------------------------------------------------

/// ASCII decimal digit.
pub open spec fn is_digit(b: u8) -> bool {
    48 <= b && b <= 57
}

pub open spec fn all_digits(s: Seq<u8>) -> bool {
    forall|i: int| 0 <= i < s.len() ==> is_digit(#[trigger] s[i])
}

/// The value of a digit string, most significant digit first.
pub open spec fn digits_val(s: Seq<u8>) -> int
    decreases s.len(),
{
    if s.len() == 0 {
        0
    } else {
        digits_val(s.drop_last()) * 10 + (s.last() - 48)
    }
}

pub open spec fn pow10(k: int) -> int
    decreases k,
{
    if k <= 0 {
        1
    } else {
        10 * pow10(k - 1)
    }
}

/// A leading `+` or `-`.
pub open spec fn has_sign(t: Seq<u8>) -> bool {
    t.len() > 0 && (t[0] == 43 || t[0] == 45)
}

pub open spec fn is_neg(t: Seq<u8>) -> bool {
    t.len() > 0 && t[0] == 45
}

/// The token after its sign.
pub open spec fn sign_body(t: Seq<u8>) -> Seq<u8> {
    if has_sign(t) {
        t.drop_first()
    } else {
        t
    }
}

/// The first position of `sep` in `s`, or -1.
pub open spec fn find_byte(s: Seq<u8>, sep: u8) -> int
    decreases s.len(),
{
    if s.len() == 0 {
        -1
    } else if s[0] == sep {
        0
    } else {
        let p = find_byte(s.drop_first(), sep);
        if p < 0 {
            -1
        } else {
            p + 1
        }
    }
}

/// The integer digits of a scalar token body (everything before the
/// dot, or the whole body).
pub open spec fn int_part(body: Seq<u8>) -> Seq<u8> {
    let p = find_byte(body, 46);
    if p < 0 {
        body
    } else {
        body.take(p)
    }
}

/// The fractional digits of a scalar token body (after the dot; empty
/// without one).
pub open spec fn frac_part(body: Seq<u8>) -> Seq<u8> {
    let p = find_byte(body, 46);
    if p < 0 {
        Seq::empty()
    } else {
        body.skip(p + 1)
    }
}

/// A well-formed scalar body: digits, at most one dot, at least one
/// digit somewhere.
pub open spec fn scalar_body_ok(body: Seq<u8>) -> bool {
    &&& all_digits(int_part(body))
    &&& all_digits(frac_part(body))
    &&& int_part(body).len() + frac_part(body).len() >= 1
}

/// The first six fractional digits, right-padded with zeros.
pub open spec fn frac6(s: Seq<u8>) -> Seq<u8> {
    if s.len() >= 6 {
        s.take(6)
    } else {
        s + Seq::new((6 - s.len()) as nat, |i: int| 48u8)
    }
}

/// The magnitude of a scalar token body, scaled by `SCALE`: fractional
/// digits past the sixth are dropped.
pub open spec fn scaled_mag(body: Seq<u8>) -> int {
    digits_val(int_part(body)) * (SCALE as int) + digits_val(frac6(frac_part(body)))
}

/// The scalar a token denotes: an optional sign, then decimal digits
/// with at most one dot and at least one digit. `None` for a malformed
/// token or one whose scaled magnitude exceeds `i64::MAX`.
pub open spec fn spec_parse_scalar(t: Seq<u8>) -> Option<i64> {
    let body = sign_body(t);
    if !scalar_body_ok(body) {
        None
    } else if scaled_mag(body) > i64::MAX {
        None
    } else if is_neg(t) {
        Some((-scaled_mag(body)) as i64)
    } else {
        Some(scaled_mag(body) as i64)
    }
}

/// The `i32` a token denotes: an optional sign, then at least one
/// decimal digit; `None` on malformation or overflow.
pub open spec fn spec_parse_i32(t: Seq<u8>) -> Option<i32> {
    let body = sign_body(t);
    if !(all_digits(body) && body.len() >= 1) {
        None
    } else if is_neg(t) {
        if digits_val(body) <= 0x8000_0000 {
            Some((-digits_val(body)) as i32)
        } else {
            None
        }
    } else {
        if digits_val(body) <= 0x7fff_ffff {
            Some(digits_val(body) as i32)
        } else {
            None
        }
    }
}

proof fn lemma_pow10_pos(k: int)
    ensures
        pow10(k) >= 1,
    decreases k,
{
    if k > 0 {
        lemma_pow10_pos(k - 1);
    }
}

proof fn lemma_pow10_add(i: int, j: int)
    requires
        i >= 0,
        j >= 0,
    ensures
        pow10(i) * pow10(j) == pow10(i + j),
    decreases i,
{
    if i > 0 {
        lemma_pow10_add(i - 1, j);
        assert((10 * pow10(i - 1)) * pow10(j) == 10 * (pow10(i - 1) * pow10(j)))
            by (nonlinear_arith);
    }
}

proof fn lemma_digits_val_nonneg(s: Seq<u8>)
    requires
        all_digits(s),
    ensures
        digits_val(s) >= 0,
    decreases s.len(),
{
    if s.len() > 0 {
        assert(all_digits(s.drop_last())) by {
            assert(forall|i: int|
                0 <= i < s.len() - 1 ==> #[trigger] s.drop_last()[i] == s[i]);
        }
        lemma_digits_val_nonneg(s.drop_last());
    }
}

/// A digit string's value is below ten to its length.
proof fn lemma_digits_val_bound(s: Seq<u8>)
    requires
        all_digits(s),
    ensures
        digits_val(s) < pow10(s.len() as int),
    decreases s.len(),
{
    if s.len() > 0 {
        assert(all_digits(s.drop_last())) by {
            assert(forall|i: int|
                0 <= i < s.len() - 1 ==> #[trigger] s.drop_last()[i] == s[i]);
        }
        lemma_digits_val_bound(s.drop_last());
        assert(digits_val(s.drop_last()) * 10 <= (pow10(s.len() - 1) - 1) * 10) by (nonlinear_arith)
            requires
                digits_val(s.drop_last()) <= pow10(s.len() - 1) - 1,
        ;
    }
}

/// `find_byte` returns the first hit.
proof fn lemma_find_byte_hit(s: Seq<u8>, sep: u8, p: int)
    requires
        0 <= p < s.len(),
        s[p] == sep,
        forall|j: int| 0 <= j < p ==> s[j] != sep,
    ensures
        find_byte(s, sep) == p,
    decreases s.len(),
{
    if p > 0 {
        lemma_find_byte_hit(s.drop_first(), sep, p - 1);
    }
}

/// `find_byte` misses exactly when the byte is absent.
proof fn lemma_find_byte_miss(s: Seq<u8>, sep: u8)
    requires
        forall|j: int| 0 <= j < s.len() ==> s[j] != sep,
    ensures
        find_byte(s, sep) == -1,
    decreases s.len(),
{
    if s.len() > 0 {
        lemma_find_byte_miss(s.drop_first(), sep);
    }
}

// ---------------------------------------------------------------------
// Splitting: lines, words, slash-separated sub-fields
// ---------------------------------------------------------------------

/// Word separators within a line: space, tab, and carriage return, so
/// lines ending in CRLF need no special casing.
pub open spec fn is_space(b: u8) -> bool {
    b == 32 || b == 9 || b == 13
}

/// The first position at or after `i` holding `sep`, or the length.
pub open spec fn next_sep(s: Seq<u8>, sep: u8, i: int) -> int
    decreases s.len() - i,
{
    if i < 0 || i >= s.len() {
        s.len() as int
    } else if s[i] == sep {
        i
    } else {
        next_sep(s, sep, i + 1)
    }
}

/// The position right after the word starting at `i`: the first space
/// at or after `i`, or the length.
pub open spec fn word_end(s: Seq<u8>, i: int) -> int
    decreases s.len() - i,
{
    if i < 0 || i >= s.len() {
        s.len() as int
    } else if is_space(s[i]) {
        i
    } else {
        word_end(s, i + 1)
    }
}

/// The lines of a byte stream from position `i`: split at every line
/// feed; the final line needs no terminator, and a terminated final
/// line leaves no empty line behind.
pub open spec fn lines_from(s: Seq<u8>, i: int) -> Seq<Seq<u8>>
    decreases s.len() + 1 - i,
{
    if i < 0 || i >= s.len() {
        Seq::empty()
    } else {
        let e0 = next_sep(s, 10, i);
        let e = if e0 < i {
            i
        } else if e0 > s.len() {
            s.len() as int
        } else {
            e0
        };
        seq![s.subrange(i, e)] + lines_from(s, e + 1)
    }
}

pub open spec fn spec_lines(s: Seq<u8>) -> Seq<Seq<u8>> {
    lines_from(s, 0)
}

/// The whitespace-separated words of a line from position `i`.
pub open spec fn words_from(s: Seq<u8>, i: int) -> Seq<Seq<u8>>
    decreases s.len() - i,
{
    if i < 0 || i >= s.len() {
        Seq::empty()
    } else if is_space(s[i]) {
        words_from(s, i + 1)
    } else {
        let e0 = word_end(s, i);
        let e = if e0 < i + 1 {
            i + 1
        } else if e0 > s.len() {
            s.len() as int
        } else {
            e0
        };
        seq![s.subrange(i, e)] + words_from(s, e)
    }
}

pub open spec fn spec_words(s: Seq<u8>) -> Seq<Seq<u8>> {
    words_from(s, 0)
}

/// The `sep`-separated fields of `s` from position `i`: every
/// separator ends a field, and the end of `s` ends the last one, so
/// there is always one field more than there are separators.
pub open spec fn split_from(s: Seq<u8>, sep: u8, i: int) -> Seq<Seq<u8>>
    decreases s.len() - i,
{
    if i < 0 || i > s.len() {
        Seq::empty()
    } else {
        let e0 = next_sep(s, sep, i);
        let e = if e0 < i {
            i
        } else if e0 > s.len() {
            s.len() as int
        } else {
            e0
        };
        if e >= s.len() {
            seq![s.subrange(i, s.len() as int)]
        } else {
            seq![s.subrange(i, e)] + split_from(s, sep, e + 1)
        }
    }
}

pub open spec fn spec_split(s: Seq<u8>, sep: u8) -> Seq<Seq<u8>> {
    split_from(s, sep, 0)
}

/// The views of a list of byte vectors.
pub open spec fn views(vs: Seq<Vec<u8>>) -> Seq<Seq<u8>> {
    vs.map_values(|v: Vec<u8>| v@)
}

/// `next_sep` stays between `i` and the length.
proof fn lemma_next_sep_bounds(s: Seq<u8>, sep: u8, i: int)
    requires
        0 <= i <= s.len(),
    ensures
        i <= next_sep(s, sep, i) <= s.len(),
    decreases s.len() - i,
{
    if i < s.len() && s[i] != sep {
        lemma_next_sep_bounds(s, sep, i + 1);
    }
}

/// Copies `s[a..b]` into a fresh vector.
fn copy_range(s: &[u8], a: usize, b: usize) -> (r: Vec<u8>)
    requires
        a <= b <= s@.len(),
    ensures
        r@ =~= s@.subrange(a as int, b as int),
{
    let mut r: Vec<u8> = Vec::new();
    let mut i: usize = a;
    #[verifier::loop_isolation(false)]
    while i < b
        invariant
            a <= i <= b,
            r@ =~= s@.subrange(a as int, i as int),
        decreases b - i,
    {
        let c = s[i];
        r.push(c);
        proof {
            assert(r@ =~= s@.subrange(a as int, i + 1 as int));
        }
        i = i + 1;
    }
    r
}

/// The position right after the current item: the first byte at or
/// after `from` equal to `sep`, or the end.
fn find_next(s: &[u8], from: usize, sep: u8) -> (r: usize)
    requires
        from <= s@.len(),
    ensures
        r == next_sep(s@, sep, from as int),
        from <= r <= s@.len(),
{
    let mut j: usize = from;
    #[verifier::loop_isolation(false)]
    while j < s.len() && s[j] != sep
        invariant
            from <= j <= s@.len(),
            next_sep(s@, sep, from as int) == next_sep(s@, sep, j as int),
        decreases s@.len() - j,
    {
        j = j + 1;
    }
    j
}

/// Splits a byte string on a separator; every separator ends a field.
fn split_bytes(s: &[u8], sep: u8) -> (r: Vec<Vec<u8>>)
    ensures
        views(r@) =~= spec_split(s@, sep),
{
    let mut r: Vec<Vec<u8>> = Vec::new();
    let mut i: usize = 0;
    #[verifier::loop_isolation(false)]
    loop
        invariant
            0 <= i <= s@.len(),
            spec_split(s@, sep) =~= views(r@) + split_from(s@, sep, i as int),
        decreases s@.len() - i,
    {
        let e = find_next(s, i, sep);
        let part = copy_range(s, i, e);
        r.push(part);
        proof {
            assert(views(r@) =~= views(r@.drop_last()) + seq![s@.subrange(i as int, e as int)]);
        }
        if e >= s.len() {
            proof {
                assert(split_from(s@, sep, i as int) =~= seq![
                    s@.subrange(i as int, s@.len() as int),
                ]);
            }
            return r;
        }
        proof {
            assert(split_from(s@, sep, i as int) =~= seq![s@.subrange(i as int, e as int)]
                + split_from(s@, sep, e + 1 as int));
        }
        i = e + 1;
    }
}

/// Splits a byte stream into lines at every line feed.
fn split_lines(s: &[u8]) -> (r: Vec<Vec<u8>>)
    ensures
        views(r@) =~= spec_lines(s@),
{
    let mut r: Vec<Vec<u8>> = Vec::new();
    let mut i: usize = 0;
    #[verifier::loop_isolation(false)]
    while i < s.len()
        invariant
            0 <= i <= s@.len(),
            spec_lines(s@) =~= views(r@) + lines_from(s@, i as int),
        decreases s@.len() - i,
    {
        let e = find_next(s, i, 10);
        let line = copy_range(s, i, e);
        r.push(line);
        proof {
            assert(views(r@) =~= views(r@.drop_last()) + seq![s@.subrange(i as int, e as int)]);
            assert(lines_from(s@, i as int) =~= seq![s@.subrange(i as int, e as int)] + lines_from(
                s@,
                e + 1 as int,
            ));
        }
        if e >= s.len() {
            proof {
                assert(lines_from(s@, e + 1 as int) =~= Seq::<Seq<u8>>::empty());
            }
            return r;
        }
        i = e + 1;
    }
    r
}

/// Splits a line into its whitespace-separated words.
fn split_words(s: &[u8]) -> (r: Vec<Vec<u8>>)
    ensures
        views(r@) =~= spec_words(s@),
{
    let mut r: Vec<Vec<u8>> = Vec::new();
    let mut i: usize = 0;
    #[verifier::loop_isolation(false)]
    while i < s.len()
        invariant
            0 <= i <= s@.len(),
            spec_words(s@) =~= views(r@) + words_from(s@, i as int),
        decreases s@.len() - i,
    {
        let c = s[i];
        if c == 32 || c == 9 || c == 13 {
            i = i + 1;
        } else {
            let mut j: usize = i + 1;
            while j < s.len() && s[j] != 32 && s[j] != 9 && s[j] != 13
                invariant
                    i < j <= s@.len(),
                    word_end(s@, i as int) == word_end(s@, j as int),
                    forall|m: int| i <= m < j ==> !is_space(s@[m]),
                decreases s@.len() - j,
            {
                j = j + 1;
            }
            let word = copy_range(s, i, j);
            r.push(word);
            proof {
                assert(word_end(s@, j as int) == j);
                assert(views(r@) =~= views(r@.drop_last()) + seq![
                    s@.subrange(i as int, j as int),
                ]);
                assert(words_from(s@, i as int) =~= seq![s@.subrange(i as int, j as int)]
                    + words_from(s@, j as int));
            }
            i = j;
        }
    }
    r
}

/// Scans `t[a..b]`, requiring decimal digits throughout; the value is
/// reported exactly up to `i64::MAX` and as an overflow flag beyond.
fn digits_value_capped(t: &[u8], a: usize, b: usize) -> (r: Option<(u64, bool)>)
    requires
        a <= b <= t@.len(),
    ensures
        match r {
            Option::None => !all_digits(t@.subrange(a as int, b as int)),
            Option::Some((v, over)) => {
                &&& all_digits(t@.subrange(a as int, b as int))
                &&& !over ==> (v == digits_val(t@.subrange(a as int, b as int)) && v <= i64::MAX)
                &&& over ==> digits_val(t@.subrange(a as int, b as int)) > i64::MAX
            },
        },
{
    let mut i: usize = a;
    let mut v: u64 = 0;
    let mut over: bool = false;
    #[verifier::loop_isolation(false)]
    while i < b
        invariant
            a <= i <= b,
            all_digits(t@.subrange(a as int, i as int)),
            !over ==> (v == digits_val(t@.subrange(a as int, i as int)) && v <= i64::MAX),
            over ==> digits_val(t@.subrange(a as int, i as int)) > i64::MAX,
        decreases b - i,
    {
        let c = t[i];
        if c < 48 || c > 57 {
            proof {
                assert(t@.subrange(a as int, b as int)[i - a] == c);
            }
            return None;
        }
        proof {
            assert(t@.subrange(a as int, i + 1 as int).drop_last() =~= t@.subrange(
                a as int,
                i as int,
            ));
            assert(t@.subrange(a as int, i + 1 as int).last() == c);
            lemma_digits_val_nonneg(t@.subrange(a as int, i as int));
        }
        let d = (c - 48) as u64;
        if over {
            proof {
                let old_val = digits_val(t@.subrange(a as int, i as int));
                assert(digits_val(t@.subrange(a as int, i + 1 as int)) == old_val * 10 + d);
                assert(old_val * 10 >= old_val) by (nonlinear_arith)
                    requires
                        old_val >= 0,
                ;
            }
        } else {
            let nv = (v as u128) * 10 + (d as u128);
            if nv > i64::MAX as u128 {
                over = true;
            } else {
                v = nv as u64;
            }
        }
        i = i + 1;
    }
    Some((v, over))
}

/// Parses an `i32` token: optional sign, then decimal digits.
fn parse_i32_token(t: &[u8]) -> (r: Option<i32>)
    ensures
        r == spec_parse_i32(t@),
{
    let mut start: usize = 0;
    let mut neg: bool = false;
    if t.len() > 0 && (t[0] == 43 || t[0] == 45) {
        neg = t[0] == 45;
        start = 1;
    }
    proof {
        assert(t@.subrange(start as int, t@.len() as int) =~= sign_body(t@));
    }
    if t.len() == start {
        return None;
    }
    match digits_value_capped(t, start, t.len()) {
        Option::None => None,
        Option::Some((v, over)) => {
            if over {
                None
            } else if neg {
                if v <= 0x8000_0000 {
                    Some((-(v as i64)) as i32)
                } else {
                    None
                }
            } else {
                if v <= 0x7fff_ffff {
                    Some(v as i32)
                } else {
                    None
                }
            }
        },
    }
}

/// Scans a fractional digit run `t[a..b]`: all bytes must be digits;
/// the first six digits are kept, scaled up to six places.
fn frac_value(t: &[u8], a: usize, b: usize) -> (r: Option<u64>)
    requires
        a <= b <= t@.len(),
    ensures
        match r {
            Option::None => !all_digits(t@.subrange(a as int, b as int)),
            Option::Some(v) => {
                &&& all_digits(t@.subrange(a as int, b as int))
                &&& v == digits_val(frac6(t@.subrange(a as int, b as int)))
                &&& v < 1_000_000
            },
        },
{
    proof {
        reveal_with_fuel(pow10, 8);
    }
    let mut i: usize = a;
    let mut v: u64 = 0;
    #[verifier::loop_isolation(false)]
    while i < b
        invariant
            a <= i <= b,
            all_digits(t@.subrange(a as int, i as int)),
            v == digits_val(
                if i - a <= 6 {
                    t@.subrange(a as int, i as int)
                } else {
                    t@.subrange(a as int, a + 6 as int)
                },
            ),
            v < 1_000_000,
            i - a <= 6 ==> v < pow10(i - a),
        decreases b - i,
    {
        let c = t[i];
        if c < 48 || c > 57 {
            proof {
                assert(t@.subrange(a as int, b as int)[i - a] == c);
            }
            return None;
        }
        proof {
            assert(t@.subrange(a as int, i + 1 as int).drop_last() =~= t@.subrange(
                a as int,
                i as int,
            ));
            assert(t@.subrange(a as int, i + 1 as int).last() == c);
        }
        if i - a < 6 {
            v = v * 10 + ((c - 48) as u64);
        }
        i = i + 1;
    }
    let fl = b - a;
    if fl >= 6 {
        proof {
            assert(frac6(t@.subrange(a as int, b as int)) =~= t@.subrange(a as int, a + 6 as int));
        }
        Some(v)
    } else {
        let scale = pow10_u64(6 - fl);
        proof {
            let s = t@.subrange(a as int, b as int);
            lemma_digits_val_zeros(s, 6 - fl);
            assert(frac6(s) =~= s + Seq::new((6 - fl) as nat, |k: int| 48u8));
            lemma_digits_val_nonneg(s);
            lemma_digits_val_bound(s);
            lemma_pow10_add(fl as int, 6 - fl);
            lemma_pow10_pos(6 - fl);
            assert(pow10(6) == 1_000_000) by {
                reveal_with_fuel(pow10, 8);
            }
            assert(digits_val(s) * pow10(6 - fl) < 1_000_000) by (nonlinear_arith)
                requires
                    0 <= digits_val(s) < pow10(fl as int),
                    pow10(fl as int) * pow10(6 - fl) == 1_000_000,
                    pow10(6 - fl) >= 1,
            ;
        }
        Some(v * scale)
    }
}

/// Ten to the `k`, for `k` up to six.
fn pow10_u64(k: usize) -> (r: u64)
    requires
        k <= 6,
    ensures
        r == pow10(k as int),
        1 <= r <= 1_000_000,
{
    proof {
        reveal_with_fuel(pow10, 8);
    }
    let mut r: u64 = 1;
    let mut i: usize = 0;
    #[verifier::loop_isolation(false)]
    while i < k
        invariant
            0 <= i <= k,
            r == pow10(i as int),
            r <= 1_000_000,
        decreases k - i,
    {
        r = r * 10;
        i = i + 1;
    }
    r
}

/// Parses a scalar token into its fixed-point value.
#[verifier::rlimit(60)]
fn parse_scalar_token(t: &[u8]) -> (r: Option<i64>)
    ensures
        r == spec_parse_scalar(t@),
{
    let mut start: usize = 0;
    let mut neg: bool = false;
    if t.len() > 0 && (t[0] == 43 || t[0] == 45) {
        neg = t[0] == 45;
        start = 1;
    }
    let ghost body = sign_body(t@);
    proof {
        assert(t@.subrange(start as int, t@.len() as int) =~= body);
    }
    // find the dot
    let mut j: usize = start;
    #[verifier::loop_isolation(false)]
    while j < t.len() && t[j] != 46
        invariant
            start <= j <= t@.len(),
            forall|m: int| start <= m < j ==> t@[m] != 46,
        decreases t@.len() - j,
    {
        j = j + 1;
    }
    let dot = j;
    proof {
        if dot < t@.len() {
            lemma_find_byte_hit(body, 46, dot - start);
        } else {
            lemma_find_byte_miss(body, 46);
        }
    }
    let iend = dot;
    let ghost ip = int_part(body);
    let ghost fp = frac_part(body);
    proof {
        if dot < t@.len() {
            assert(ip =~= t@.subrange(start as int, iend as int));
            assert(fp =~= t@.subrange(dot + 1 as int, t@.len() as int));
        } else {
            assert(ip =~= t@.subrange(start as int, iend as int));
            assert(fp =~= Seq::<u8>::empty());
        }
    }
    let iv = match digits_value_capped(t, start, iend) {
        Option::None => {
            return None;
        },
        Option::Some(p) => p,
    };
    let (ival, over) = iv;
    let fval: u64 = if dot < t.len() {
        match frac_value(t, dot + 1, t.len()) {
            Option::None => {
                return None;
            },
            Option::Some(v) => v,
        }
    } else {
        proof {
            assert(digits_val(frac6(fp)) == 0) by {
                assert(frac6(fp) =~= Seq::new(6nat, |k: int| 48u8));
                lemma_digits_val_zeros(Seq::<u8>::empty(), 6);
            }
        }
        0
    };
    // at least one digit
    if iend - start == 0 && (t.len() - dot <= 1) {
        return None;
    }
    proof {
        lemma_digits_val_nonneg(ip);
    }
    if over {
        proof {
            lemma_frac6_nonneg(fp);
            assert(digits_val(ip) * (SCALE as int) + digits_val(frac6(fp)) > i64::MAX)
                by (nonlinear_arith)
                requires
                    digits_val(ip) > i64::MAX,
                    digits_val(frac6(fp)) >= 0,
            ;
        }
        return None;
    }
    let m = (ival as u128) * 1_000_000 + (fval as u128);
    if m > i64::MAX as u128 {
        return None;
    }
    let mag = m as i64;
    if neg {
        Some(-mag)
    } else {
        Some(mag)
    }
}

proof fn lemma_frac6_nonneg(fp: Seq<u8>)
    requires
        all_digits(fp),
    ensures
        digits_val(frac6(fp)) >= 0,
{
    assert(all_digits(frac6(fp))) by {
        if fp.len() >= 6 {
            assert(forall|i: int| 0 <= i < 6 ==> #[trigger] frac6(fp)[i] == fp[i]);
        } else {
            assert(forall|i: int|
                0 <= i < frac6(fp).len() ==> is_digit(#[trigger] frac6(fp)[i]));
        }
    }
    lemma_digits_val_nonneg(frac6(fp));
}

/// Appending `k` zero digits multiplies the value by ten to the `k`.
proof fn lemma_digits_val_zeros(s: Seq<u8>, k: int)
    requires
        k >= 0,
    ensures
        digits_val(s + Seq::new(k as nat, |i: int| 48u8)) == digits_val(s) * pow10(k),
    decreases k,
{
    let zs = Seq::new(k as nat, |i: int| 48u8);
    if k == 0 {
        assert(s + zs =~= s);
    } else {
        let zs1 = Seq::new((k - 1) as nat, |i: int| 48u8);
        assert((s + zs).drop_last() =~= s + zs1);
        assert((s + zs).last() == 48);
        lemma_digits_val_zeros(s, k - 1);
        assert(digits_val(s + zs) == digits_val(s) * pow10(k - 1) * 10);
        assert(digits_val(s) * pow10(k - 1) * 10 == digits_val(s) * (10 * pow10(k - 1)))
            by (nonlinear_arith);
    }
}

// ---------------------------------------------------------------------
// Statements
// ---------------------------------------------------------------------

/// A statement in a Wavefront file. Face corner indices are 0-based,
/// with -1 marking an absent sub-field; an object name is kept as raw
/// bytes.
pub enum Statement {
    Vertex(Scalar, Scalar, Scalar, Option<Scalar>),
    VertexNormal(Scalar, Scalar, Scalar),
    VertexTextureCoords(Scalar, Scalar),
    Face(Vec<(i32, i32, i32)>),
    Object(Option<Vec<u8>>),
    SmoothShading(bool),
    Empty,
}

/// A statement as contracts see it: lists become sequences.
pub enum SpecStatement {
    Vertex(i64, i64, i64, Option<i64>),
    VertexNormal(i64, i64, i64),
    VertexTextureCoords(i64, i64),
    Face(Seq<(i32, i32, i32)>),
    Object(Option<Seq<u8>>),
    SmoothShading(bool),
    Empty,
}

/// The view of a parsed statement.
pub open spec fn stmt_view(s: Statement) -> SpecStatement {
    match s {
        Statement::Vertex(x, y, z, w) => SpecStatement::Vertex(x, y, z, w),
        Statement::VertexNormal(x, y, z) => SpecStatement::VertexNormal(x, y, z),
        Statement::VertexTextureCoords(u, v) => SpecStatement::VertexTextureCoords(u, v),
        Statement::Face(cs) => SpecStatement::Face(cs@),
        Statement::Object(o) => SpecStatement::Object(
            match o {
                Option::Some(n) => Option::Some(n@),
                Option::None => Option::None,
            },
        ),
        Statement::SmoothShading(b) => SpecStatement::SmoothShading(b),
        Statement::Empty => SpecStatement::Empty,
    }
}

/// One sub-field of a face corner: absent (out of range or empty)
/// resolves to the sentinel -1; a present 1-based index is shifted to
/// 0-based; a present negative index is kept as is; a malformed one is
/// `None`.
pub open spec fn spec_corner_field(parts: Seq<Seq<u8>>, i: int) -> Option<i32> {
    if i >= parts.len() || parts[i].len() == 0 {
        Some(-1i32)
    } else {
        match spec_parse_i32(parts[i]) {
            Option::None => None,
            Option::Some(a) => Some(
                if a >= 0 {
                    (a - 1) as i32
                } else {
                    a
                },
            ),
        }
    }
}

/// A face corner `v[/[vt]][/vn]`: up to three `/`-separated sub-fields,
/// yielding the key (position, normal, texture).
pub open spec fn spec_parse_corner(w: Seq<u8>) -> Result<(i32, i32, i32), Error> {
    let parts = spec_split(w, 47);
    if parts.len() > 3 {
        Err(Error::Parse)
    } else {
        match (spec_corner_field(parts, 0), spec_corner_field(parts, 2), spec_corner_field(
            parts,
            1,
        )) {
            (Option::Some(v), Option::Some(n), Option::Some(t)) => Ok((v, n, t)),
            _ => Err(Error::Parse),
        }
    }
}

/// The corner keys of a face line, from word `i` on.
pub open spec fn spec_face_corners(ws: Seq<Seq<u8>>, i: int) -> Result<
    Seq<(i32, i32, i32)>,
    Error,
>
    decreases ws.len() - i,
{
    if i < 0 || i >= ws.len() {
        Ok(Seq::empty())
    } else {
        match spec_parse_corner(ws[i]) {
            Err(e) => Err(e),
            Ok(c) => match spec_face_corners(ws, i + 1) {
                Err(e) => Err(e),
                Ok(rest) => Ok(seq![c] + rest),
            },
        }
    }
}

/// A `v` line: three mandatory scalars and an optional homogeneous
/// fourth; further words are ignored.
pub open spec fn spec_parse_vertex(ws: Seq<Seq<u8>>) -> Result<SpecStatement, Error> {
    if ws.len() < 4 {
        Err(Error::Parse)
    } else {
        match (spec_parse_scalar(ws[1]), spec_parse_scalar(ws[2]), spec_parse_scalar(ws[3])) {
            (Option::Some(x), Option::Some(y), Option::Some(z)) => if ws.len() >= 5 {
                match spec_parse_scalar(ws[4]) {
                    Option::Some(w) => Ok(SpecStatement::Vertex(x, y, z, Some(w))),
                    Option::None => Err(Error::Parse),
                }
            } else {
                Ok(SpecStatement::Vertex(x, y, z, None))
            },
            _ => Err(Error::Parse),
        }
    }
}

/// A `vn` line: exactly three scalars read; further words are ignored.
pub open spec fn spec_parse_normal(ws: Seq<Seq<u8>>) -> Result<SpecStatement, Error> {
    if ws.len() < 4 {
        Err(Error::Parse)
    } else {
        match (spec_parse_scalar(ws[1]), spec_parse_scalar(ws[2]), spec_parse_scalar(ws[3])) {
            (Option::Some(x), Option::Some(y), Option::Some(z)) => Ok(
                SpecStatement::VertexNormal(x, y, z),
            ),
            _ => Err(Error::Parse),
        }
    }
}

/// A `vt` line: two scalars read; further words are ignored.
pub open spec fn spec_parse_texcoords(ws: Seq<Seq<u8>>) -> Result<SpecStatement, Error> {
    if ws.len() < 3 {
        Err(Error::Parse)
    } else {
        match (spec_parse_scalar(ws[1]), spec_parse_scalar(ws[2])) {
            (Option::Some(u), Option::Some(v)) => Ok(SpecStatement::VertexTextureCoords(u, v)),
            _ => Err(Error::Parse),
        }
    }
}

/// An `o` line: an optional name and nothing after it.
pub open spec fn spec_parse_object(ws: Seq<Seq<u8>>) -> Result<SpecStatement, Error> {
    if ws.len() == 1 {
        Ok(SpecStatement::Object(None))
    } else if ws.len() == 2 {
        Ok(SpecStatement::Object(Some(ws[1])))
    } else {
        Err(Error::Parse)
    }
}

/// An `s` line: `0`/`off` disables, `1`/`on` enables; anything else,
/// or a missing word, is a parse error. Further words are ignored.
pub open spec fn spec_parse_smooth(ws: Seq<Seq<u8>>) -> Result<SpecStatement, Error> {
    if ws.len() < 2 {
        Err(Error::Parse)
    } else if ws[1] == seq![48u8] || ws[1] == seq![111u8, 102u8, 102u8] {
        Ok(SpecStatement::SmoothShading(false))
    } else if ws[1] == seq![49u8] || ws[1] == seq![111u8, 110u8] {
        Ok(SpecStatement::SmoothShading(true))
    } else {
        Err(Error::Parse)
    }
}

/// One line of a Wavefront file: blank lines and `#` comments are
/// empty; `v`, `vn`, `vt`, `f`, `o` and `s` lines are parsed; any
/// other keyword is a parse error.
pub open spec fn spec_parse_line(line: Seq<u8>) -> Result<SpecStatement, Error> {
    let ws = spec_words(line);
    if ws.len() == 0 {
        Ok(SpecStatement::Empty)
    } else if ws[0] == seq![35u8] {
        Ok(SpecStatement::Empty)
    } else if ws[0] == seq![118u8] {
        spec_parse_vertex(ws)
    } else if ws[0] == seq![118u8, 110u8] {
        spec_parse_normal(ws)
    } else if ws[0] == seq![118u8, 116u8] {
        spec_parse_texcoords(ws)
    } else if ws[0] == seq![102u8] {
        match spec_face_corners(ws, 1) {
            Ok(cs) => Ok(SpecStatement::Face(cs)),
            Err(e) => Err(e),
        }
    } else if ws[0] == seq![111u8] {
        spec_parse_object(ws)
    } else if ws[0] == seq![115u8] {
        spec_parse_smooth(ws)
    } else {
        Err(Error::Parse)
    }
}

/// Splits a face corner word on `/` and resolves its up to three
/// sub-fields into a `(position, normal, texture)` key.
pub fn parse_face_indices(word: &[u8]) -> (r: Result<(i32, i32, i32), Error>)
    ensures
        r == spec_parse_corner(word@),
{
    let parts = split_bytes(word, 47);
    if parts.len() > 3 {
        return Err(Error::Parse);
    }
    let v = match corner_field(&parts, 0) {
        Option::Some(a) => a,
        Option::None => {
            return Err(Error::Parse);
        },
    };
    let n = match corner_field(&parts, 2) {
        Option::Some(a) => a,
        Option::None => {
            return Err(Error::Parse);
        },
    };
    let t = match corner_field(&parts, 1) {
        Option::Some(a) => a,
        Option::None => {
            return Err(Error::Parse);
        },
    };
    Ok((v, n, t))
}

/// Resolves one sub-field of a face corner.
fn corner_field(parts: &Vec<Vec<u8>>, i: usize) -> (r: Option<i32>)
    ensures
        r == spec_corner_field(views(parts@), i as int),
{
    if i >= parts.len() || parts[i].len() == 0 {
        Some(-1)
    } else {
        match parse_i32_token(parts[i].as_slice()) {
            Option::None => None,
            Option::Some(a) => if a >= 0 {
                Some(a - 1)
            } else {
                Some(a)
            },
        }
    }
}

/// Parses one line into a statement.
pub fn parse_line(line: &[u8]) -> (r: Result<Statement, Error>)
    ensures
        spec_parse_line(line@) matches Ok(sv) ==> (r matches Ok(st) && stmt_view(st) == sv),
        spec_parse_line(line@) matches Err(e) ==> (r matches Err(e2) && e == e2),
{
    let ws = split_words(line);
    if ws.len() == 0 {
        return Ok(Statement::Empty);
    }
    let kind = &ws[0];
    if kind.len() == 1 && kind[0] == 35 {
        proof {
            assert(views(ws@)[0] =~= seq![35u8]);
        }
        Ok(Statement::Empty)
    } else if kind.len() == 1 && kind[0] == 118 {
        proof {
            assert(views(ws@)[0] =~= seq![118u8]);
        }
        parse_vertex(&ws)
    } else if kind.len() == 2 && kind[0] == 118 && kind[1] == 110 {
        proof {
            assert(views(ws@)[0] =~= seq![118u8, 110u8]);
        }
        parse_vertex_normal(&ws)
    } else if kind.len() == 2 && kind[0] == 118 && kind[1] == 116 {
        proof {
            assert(views(ws@)[0] =~= seq![118u8, 116u8]);
        }
        parse_texture_coords(&ws)
    } else if kind.len() == 1 && kind[0] == 102 {
        proof {
            assert(views(ws@)[0] =~= seq![102u8]);
        }
        parse_face(&ws)
    } else if kind.len() == 1 && kind[0] == 111 {
        proof {
            assert(views(ws@)[0] =~= seq![111u8]);
        }
        parse_object(&ws)
    } else if kind.len() == 1 && kind[0] == 115 {
        proof {
            assert(views(ws@)[0] =~= seq![115u8]);
        }
        parse_smooth_shading(&ws)
    } else {
        proof {
            let k = views(ws@)[0];
            assert(k == ws@[0]@);
            assert(k != seq![35u8] && k != seq![118u8] && k != seq![118u8, 110u8] && k != seq![
                118u8,
                116u8,
            ] && k != seq![102u8] && k != seq![111u8] && k != seq![115u8]) by {
                if k.len() == 1 {
                } else if k.len() == 2 {
                } else {
                }
            }
        }
        Err(Error::Parse)
    }
}

/// Parses the words of a `v` line.
pub fn parse_vertex(ws: &Vec<Vec<u8>>) -> (r: Result<Statement, Error>)
    ensures
        spec_parse_vertex(views(ws@)) matches Ok(sv) ==> (r matches Ok(st) && stmt_view(st) == sv),
        spec_parse_vertex(views(ws@)) matches Err(e) ==> (r matches Err(e2) && e == e2),
{
    if ws.len() < 4 {
        return Err(Error::Parse);
    }
    let x = match parse_scalar_token(ws[1].as_slice()) {
        Option::Some(v) => v,
        Option::None => {
            return Err(Error::Parse);
        },
    };
    let y = match parse_scalar_token(ws[2].as_slice()) {
        Option::Some(v) => v,
        Option::None => {
            return Err(Error::Parse);
        },
    };
    let z = match parse_scalar_token(ws[3].as_slice()) {
        Option::Some(v) => v,
        Option::None => {
            return Err(Error::Parse);
        },
    };
    if ws.len() >= 5 {
        match parse_scalar_token(ws[4].as_slice()) {
            Option::Some(w) => Ok(Statement::Vertex(x, y, z, Some(w))),
            Option::None => Err(Error::Parse),
        }
    } else {
        Ok(Statement::Vertex(x, y, z, None))
    }
}

/// Parses the words of a `vn` line.
pub fn parse_vertex_normal(ws: &Vec<Vec<u8>>) -> (r: Result<Statement, Error>)
    ensures
        spec_parse_normal(views(ws@)) matches Ok(sv) ==> (r matches Ok(st) && stmt_view(st) == sv),
        spec_parse_normal(views(ws@)) matches Err(e) ==> (r matches Err(e2) && e == e2),
{
    if ws.len() < 4 {
        return Err(Error::Parse);
    }
    let x = match parse_scalar_token(ws[1].as_slice()) {
        Option::Some(v) => v,
        Option::None => {
            return Err(Error::Parse);
        },
    };
    let y = match parse_scalar_token(ws[2].as_slice()) {
        Option::Some(v) => v,
        Option::None => {
            return Err(Error::Parse);
        },
    };
    let z = match parse_scalar_token(ws[3].as_slice()) {
        Option::Some(v) => v,
        Option::None => {
            return Err(Error::Parse);
        },
    };
    Ok(Statement::VertexNormal(x, y, z))
}

/// Parses the words of a `vt` line.
pub fn parse_texture_coords(ws: &Vec<Vec<u8>>) -> (r: Result<Statement, Error>)
    ensures
        spec_parse_texcoords(views(ws@)) matches Ok(sv) ==> (r matches Ok(st) && stmt_view(st)
            == sv),
        spec_parse_texcoords(views(ws@)) matches Err(e) ==> (r matches Err(e2) && e == e2),
{
    if ws.len() < 3 {
        return Err(Error::Parse);
    }
    let u = match parse_scalar_token(ws[1].as_slice()) {
        Option::Some(v) => v,
        Option::None => {
            return Err(Error::Parse);
        },
    };
    let v = match parse_scalar_token(ws[2].as_slice()) {
        Option::Some(v) => v,
        Option::None => {
            return Err(Error::Parse);
        },
    };
    Ok(Statement::VertexTextureCoords(u, v))
}

/// Parses the words of an `f` line into corner keys.
pub fn parse_face(ws: &Vec<Vec<u8>>) -> (r: Result<Statement, Error>)
    ensures
        (spec_parse_line_face(views(ws@)) matches Ok(sv) ==> (r matches Ok(st) && stmt_view(st)
            == sv)),
        (spec_parse_line_face(views(ws@)) matches Err(e) ==> (r matches Err(e2) && e == e2)),
{
    let mut cs: Vec<(i32, i32, i32)> = Vec::new();
    let n = ws.len();
    if n <= 1 {
        proof {
            assert(cs@ + Seq::<(i32, i32, i32)>::empty() =~= cs@);
        }
        return Ok(Statement::Face(cs));
    }
    let mut i: usize = 1;
    #[verifier::loop_isolation(false)]
    while i < n
        invariant
            1 <= i <= n,
            n == ws@.len(),
            spec_face_corners(views(ws@), i as int) matches Ok(rest) ==> (spec_face_corners(
                views(ws@),
                1,
            ) matches Ok(all) && all == cs@ + rest),
            spec_face_corners(views(ws@), i as int) matches Err(e) ==> (spec_face_corners(
                views(ws@),
                1,
            ) matches Err(e2) && e2 == e),
        decreases n - i,
    {
        proof {
            assert(views(ws@)[i as int] == ws@[i as int]@);
        }
        match parse_face_indices(ws[i].as_slice()) {
            Ok(c) => {
                proof {
                    let rec = spec_face_corners(views(ws@), i + 1 as int);
                    match rec {
                        Ok(rest2) => {
                            assert(cs@ + (seq![c] + rest2) =~= (cs@ + seq![c]) + rest2);
                        },
                        Err(_) => {},
                    }
                }
                cs.push(c);
            },
            Err(e) => {
                return Err(e);
            },
        }
        i = i + 1;
    }
    proof {
        assert(spec_face_corners(views(ws@), i as int) == Ok::<Seq<(i32, i32, i32)>, Error>(
            Seq::empty(),
        ));
        assert(cs@ + Seq::<(i32, i32, i32)>::empty() =~= cs@);
    }
    Ok(Statement::Face(cs))
}

/// The statement an `f` line denotes.
pub open spec fn spec_parse_line_face(ws: Seq<Seq<u8>>) -> Result<SpecStatement, Error> {
    match spec_face_corners(ws, 1) {
        Ok(cs) => Ok(SpecStatement::Face(cs)),
        Err(e) => Err(e),
    }
}

/// Parses the words of an `o` line.
pub fn parse_object(ws: &Vec<Vec<u8>>) -> (r: Result<Statement, Error>)
    ensures
        spec_parse_object(views(ws@)) matches Ok(sv) ==> (r matches Ok(st) && stmt_view(st) == sv),
        spec_parse_object(views(ws@)) matches Err(e) ==> (r matches Err(e2) && e == e2),
{
    if ws.len() == 1 {
        Ok(Statement::Object(None))
    } else if ws.len() == 2 {
        let name = copy_range(ws[1].as_slice(), 0, ws[1].len());
        proof {
            assert(name@ =~= views(ws@)[1]);
        }
        Ok(Statement::Object(Some(name)))
    } else {
        Err(Error::Parse)
    }
}

/// Parses the words of an `s` line.
pub fn parse_smooth_shading(ws: &Vec<Vec<u8>>) -> (r: Result<Statement, Error>)
    ensures
        spec_parse_smooth(views(ws@)) matches Ok(sv) ==> (r matches Ok(st) && stmt_view(st) == sv),
        spec_parse_smooth(views(ws@)) matches Err(e) ==> (r matches Err(e2) && e == e2),
{
    if ws.len() < 2 {
        return Err(Error::Parse);
    }
    let w = &ws[1];
    let off = (w.len() == 1 && w[0] == 48) || (w.len() == 3 && w[0] == 111 && w[1] == 102 && w[2]
        == 102);
    let on = (w.len() == 1 && w[0] == 49) || (w.len() == 2 && w[0] == 111 && w[1] == 110);
    proof {
        let k = views(ws@)[1];
        assert(k == ws@[1]@);
        if off {
            assert(k =~= seq![48u8] || k =~= seq![111u8, 102u8, 102u8]);
        } else if on {
            assert(k =~= seq![49u8] || k =~= seq![111u8, 110u8]);
        } else {
            assert(k != seq![48u8] && k != seq![111u8, 102u8, 102u8] && k != seq![49u8] && k
                != seq![111u8, 110u8]);
        }
    }
    if off {
        Ok(Statement::SmoothShading(false))
    } else if on {
        Ok(Statement::SmoothShading(true))
    } else {
        Err(Error::Parse)
    }
}

// ---------------------------------------------------------------------
// Vertex keys and their canonical deduplication
// ---------------------------------------------------------------------

/// A vertex key: indices into the position, normal and texture arrays,
/// each 0-based or the sentinel -1.
pub type Key = (i32, i32, i32);

/// Strict lexicographic order on keys.
pub open spec fn key_lt(a: Key, b: Key) -> bool {
    ||| a.0 < b.0
    ||| (a.0 == b.0 && a.1 < b.1)
    ||| (a.0 == b.0 && a.1 == b.1 && a.2 < b.2)
}

/// Strictly ascending: sorted with no duplicates.
pub open spec fn sorted_keys(s: Seq<Key>) -> bool {
    forall|i: int, j: int| 0 <= i < j < s.len() ==> key_lt(s[i], s[j])
}

/// Inserts a key into a sorted key list, keeping it sorted and
/// duplicate-free.
pub open spec fn insert_key(s: Seq<Key>, k: Key) -> Seq<Key>
    decreases s.len(),
{
    if s.len() == 0 {
        seq![k]
    } else if k == s[0] {
        s
    } else if key_lt(k, s[0]) {
        seq![k] + s
    } else {
        seq![s[0]] + insert_key(s.drop_first(), k)
    }
}

/// The canonical deduplication of a key list: sorted ascending, one
/// slot per distinct key.
pub open spec fn sorted_dedup(s: Seq<Key>) -> Seq<Key>
    decreases s.len(),
{
    if s.len() == 0 {
        Seq::empty()
    } else {
        insert_key(sorted_dedup(s.drop_last()), s.last())
    }
}

/// The slot of `k` in a key list (meaningful when the list contains it).
pub open spec fn index_in(s: Seq<Key>, k: Key) -> int
    decreases s.len(),
{
    if s.len() == 0 {
        0
    } else if s[0] == k {
        0
    } else {
        1 + index_in(s.drop_first(), k)
    }
}

/// Inserting keeps the order and adds exactly the new key.
proof fn lemma_insert_key(s: Seq<Key>, k: Key)
    requires
        sorted_keys(s),
    ensures
        sorted_keys(insert_key(s, k)),
        forall|x: Key| #[trigger] insert_key(s, k).contains(x) <==> (s.contains(x) || x == k),
    decreases s.len(),
{
    let r = insert_key(s, k);
    if s.len() == 0 {
        assert forall|x: Key| r.contains(x) implies (s.contains(x) || x == k) by {}
        assert(r.contains(k));
    } else if k == s[0] {
    } else if key_lt(k, s[0]) {
        assert forall|i: int, j: int| 0 <= i < j < r.len() implies key_lt(r[i], r[j]) by {
            if i == 0 {
                assert(r[j] == s[j - 1]);
                if j > 1 {
                    assert(key_lt(s[0], s[j - 1]));
                }
            } else {
                assert(r[i] == s[i - 1] && r[j] == s[j - 1]);
            }
        }
        assert(r.contains(k)) by {
            assert(r[0] == k);
        }
        assert forall|x: Key| s.contains(x) implies r.contains(x) by {
            let w = choose|w: int| 0 <= w < s.len() && s[w] == x;
            assert(r[w + 1] == x);
        }
        assert forall|x: Key| r.contains(x) implies (s.contains(x) || x == k) by {
            let w = choose|w: int| 0 <= w < r.len() && r[w] == x;
            if w > 0 {
                assert(s[w - 1] == x);
            }
        }
    } else {
        let tail = s.drop_first();
        assert(sorted_keys(tail)) by {
            assert(forall|i: int, j: int|
                0 <= i < j < tail.len() ==> key_lt(#[trigger] tail[i], #[trigger] tail[j]));
        }
        lemma_insert_key(tail, k);
        let rt = insert_key(tail, k);
        assert(r =~= seq![s[0]] + rt);
        assert(key_lt(s[0], k));
        assert forall|i: int, j: int| 0 <= i < j < r.len() implies key_lt(r[i], r[j]) by {
            if i == 0 {
                assert(r[j] == rt[j - 1]);
                assert(rt.contains(rt[j - 1]));
                if tail.contains(rt[j - 1]) {
                    let w = choose|w: int| 0 <= w < tail.len() && tail[w] == rt[j - 1];
                    assert(s[w + 1] == rt[j - 1]);
                    assert(key_lt(s[0], s[w + 1]));
                } else {
                    assert(rt[j - 1] == k);
                }
            } else {
                assert(r[i] == rt[i - 1] && r[j] == rt[j - 1]);
            }
        }
        assert forall|x: Key| r.contains(x) implies (s.contains(x) || x == k) by {
            let w = choose|w: int| 0 <= w < r.len() && r[w] == x;
            if w == 0 {
                assert(s[0] == x);
            } else {
                assert(rt[w - 1] == x);
                assert(rt.contains(x));
                if tail.contains(x) {
                    let u = choose|u: int| 0 <= u < tail.len() && tail[u] == x;
                    assert(s[u + 1] == x);
                }
            }
        }
        assert forall|x: Key| (s.contains(x) || x == k) implies r.contains(x) by {
            if x == k {
                assert(rt.contains(k));
                let u = choose|u: int| 0 <= u < rt.len() && rt[u] == k;
                assert(r[u + 1] == k);
            } else {
                let w = choose|w: int| 0 <= w < s.len() && s[w] == x;
                if w == 0 {
                    assert(r[0] == x);
                } else {
                    assert(tail[w - 1] == x);
                    assert(rt.contains(x));
                    let u = choose|u: int| 0 <= u < rt.len() && rt[u] == x;
                    assert(r[u + 1] == x);
                }
            }
        }
    }
}

/// The canonical deduplication is sorted and holds exactly the keys of
/// its input.
pub proof fn lemma_sorted_dedup(s: Seq<Key>)
    ensures
        sorted_keys(sorted_dedup(s)),
        forall|x: Key| #[trigger] sorted_dedup(s).contains(x) <==> s.contains(x),
    decreases s.len(),
{
    if s.len() > 0 {
        lemma_sorted_dedup(s.drop_last());
        lemma_insert_key(sorted_dedup(s.drop_last()), s.last());
        assert forall|x: Key| sorted_dedup(s).contains(x) implies s.contains(x) by {
            if s.drop_last().contains(x) {
                let w = choose|w: int| 0 <= w < s.len() - 1 && s.drop_last()[w] == x;
                assert(s[w] == x);
            } else {
                assert(x == s.last());
                assert(s[s.len() - 1] == x);
            }
        }
        assert forall|x: Key| s.contains(x) implies sorted_dedup(s).contains(x) by {
            let w = choose|w: int| 0 <= w < s.len() && s[w] == x;
            if w < s.len() - 1 {
                assert(s.drop_last()[w] == x);
                assert(s.drop_last().contains(x));
            } else {
                assert(x == s.last());
            }
        }
    }
}

/// `index_in` finds the key it is asked about.
proof fn lemma_index_in(s: Seq<Key>, k: Key)
    requires
        s.contains(k),
    ensures
        0 <= index_in(s, k) < s.len(),
        s[index_in(s, k)] == k,
    decreases s.len(),
{
    if s.len() > 0 && s[0] != k {
        let tail = s.drop_first();
        assert(tail.contains(k)) by {
            let w = choose|w: int| 0 <= w < s.len() && s[w] == k;
            assert(tail[w - 1] == k);
        }
        lemma_index_in(tail, k);
    }
}

/// Inserts a key into a sorted vector, keeping it sorted and
/// duplicate-free.
fn insert_key_vec(dv: &mut Vec<Key>, k: Key)
    requires
        sorted_keys(old(dv)@),
    ensures
        final (dv)@ == insert_key(old(dv)@, k),
        sorted_keys(final (dv)@),
{
    proof {
        lemma_insert_key(dv@, k);
    }
    let mut p: usize = 0;
    #[verifier::loop_isolation(false)]
    while p < dv.len() && key_lt_exec(dv[p], k)
        invariant
            0 <= p <= dv@.len(),
            forall|j: int| 0 <= j < p ==> key_lt(#[trigger] dv@[j], k),
        decreases dv@.len() - p,
    {
        p = p + 1;
    }
    if p < dv.len() && dv[p].0 == k.0 && dv[p].1 == k.1 && dv[p].2 == k.2 {
        proof {
            assert(dv@[p as int] == k);
            lemma_insert_key_found(dv@, k, p as int);
        }
        return ;
    }
    proof {
        lemma_insert_key_position(dv@, k, p as int);
    }
    dv.insert(p, k);
}

/// Exec comparison mirroring `key_lt`.
fn key_lt_exec(a: Key, b: Key) -> (r: bool)
    ensures
        r == key_lt(a, b),
{
    a.0 < b.0 || (a.0 == b.0 && (a.1 < b.1 || (a.1 == b.1 && a.2 < b.2)))
}

/// Inserting a key that sits at slot `p` changes nothing.
proof fn lemma_insert_key_found(s: Seq<Key>, k: Key, p: int)
    requires
        sorted_keys(s),
        0 <= p < s.len(),
        s[p] == k,
    ensures
        insert_key(s, k) == s,
    decreases p,
{
    if p > 0 {
        assert(key_lt(s[0], s[p]));
        let tail = s.drop_first();
        assert(sorted_keys(tail)) by {
            assert(forall|i: int, j: int|
                0 <= i < j < tail.len() ==> key_lt(#[trigger] tail[i], #[trigger] tail[j]));
        }
        lemma_insert_key_found(tail, k, p - 1);
        assert(insert_key(s, k) =~= seq![s[0]] + insert_key(tail, k));
        assert(seq![s[0]] + tail =~= s);
    }
}

/// Inserting a missing key puts it exactly at the first slot whose key
/// is not below it.
proof fn lemma_insert_key_position(s: Seq<Key>, k: Key, p: int)
    requires
        sorted_keys(s),
        0 <= p <= s.len(),
        forall|j: int| 0 <= j < p ==> key_lt(#[trigger] s[j], k),
        p < s.len() ==> !key_lt(s[p], k),
        p < s.len() ==> s[p] != k,
    ensures
        insert_key(s, k) == s.insert(p, k),
    decreases s.len(),
{
    if s.len() == 0 {
        assert(insert_key(s, k) =~= s.insert(0, k));
    } else if p == 0 {
        assert(key_lt(k, s[0]));
        assert(insert_key(s, k) =~= s.insert(0, k));
    } else {
        assert(key_lt(s[0], k));
        let tail = s.drop_first();
        assert(sorted_keys(tail)) by {
            assert(forall|i: int, j: int|
                0 <= i < j < tail.len() ==> key_lt(#[trigger] tail[i], #[trigger] tail[j]));
        }
        assert(forall|j: int| 0 <= j < p - 1 ==> key_lt(#[trigger] tail[j], k));
        lemma_insert_key_position(tail, k, p - 1);
        assert(insert_key(s, k) =~= seq![s[0]] + tail.insert(p - 1, k));
        assert(s.insert(p, k) =~= seq![s[0]] + tail.insert(p - 1, k));
    }
}

/// The slot of `k` in a sorted vector that contains it.
fn index_of_key(dv: &Vec<Key>, k: Key) -> (r: usize)
    requires
        dv@.contains(k),
    ensures
        r == index_in(dv@, k),
        r < dv@.len(),
        dv@[r as int] == k,
{
    proof {
        lemma_index_in(dv@, k);
    }
    let mut i: usize = 0;
    #[verifier::loop_isolation(false)]
    while i < dv.len()
        invariant
            0 <= i <= dv@.len(),
            forall|j: int| 0 <= j < i ==> dv@[j] != k,
            index_in(dv@, k) >= i,
        decreases dv@.len() - i,
    {
        if dv[i].0 == k.0 && dv[i].1 == k.1 && dv[i].2 == k.2 {
            proof {
                assert(dv@[i as int] == k);
                lemma_index_in_prefix(dv@, k, i as int);
            }
            return i;
        }
        proof {
            lemma_index_in_prefix_step(dv@, k, i as int);
        }
        i = i + 1;
    }
    proof {
        assert(false);
    }
    0
}

/// If the first `p` slots miss `k`, its index is past them.
proof fn lemma_index_in_prefix_step(s: Seq<Key>, k: Key, p: int)
    requires
        0 <= p < s.len(),
        s[p] != k,
        index_in(s, k) >= p,
    ensures
        index_in(s, k) >= p + 1,
    decreases p,
{
    if p == 0 {
        if s.len() > 0 && s[0] != k {
            lemma_index_in_nonneg(s.drop_first(), k);
        }
    } else {
        let tail = s.drop_first();
        assert(tail[p - 1] == s[p]);
        lemma_index_in_prefix_step(tail, k, p - 1);
    }
}

proof fn lemma_index_in_nonneg(s: Seq<Key>, k: Key)
    ensures
        index_in(s, k) >= 0,
    decreases s.len(),
{
    if s.len() > 0 && s[0] != k {
        lemma_index_in_nonneg(s.drop_first(), k);
    }
}

/// A hit at slot `p` after `p` misses pins the index.
proof fn lemma_index_in_prefix(s: Seq<Key>, k: Key, p: int)
    requires
        0 <= p < s.len(),
        s[p] == k,
        forall|j: int| 0 <= j < p ==> s[j] != k,
    ensures
        index_in(s, k) == p,
    decreases p,
{
    if p > 0 {
        let tail = s.drop_first();
        assert(forall|j: int| 0 <= j < p - 1 ==> #[trigger] tail[j] == s[j + 1]);
        lemma_index_in_prefix(tail, k, p - 1);
    }
}

// ---------------------------------------------------------------------
// The import pipeline
// ---------------------------------------------------------------------

/// The importer's intermediate vertex record: a position, and the
/// optional attributes its key carried.
#[derive(Copy, Clone, Debug, PartialEq)]
pub struct Vertex {
    pub position: Vector3,
    pub normal: Option<Vector3>,
    pub uv: Option<(Scalar, Scalar)>,
}

impl Vertex {
    pub fn new(position: Vector3, normal: Option<Vector3>, uv: Option<(Scalar, Scalar)>) -> (r:
        Self)
        ensures
            r == (Vertex { position, normal, uv }),
    {
        Vertex { position, normal, uv }
    }
}

/// The position of a vertex.
impl From<Vertex> for Vector3 {
    fn from(v: Vertex) -> (r: Vector3)
        ensures
            r == v.position,
    {
        v.position
    }
}

impl vstd::std_specs::convert::FromSpecImpl<Vertex> for Vector3 {
    open spec fn obeys_from_spec() -> bool {
        true
    }

    open spec fn from_spec(v: Vertex) -> Vector3 {
        v.position
    }
}

impl crate::geom::Vertex for Vertex {
    open spec fn spec_coords(self) -> Vector3 {
        self.position
    }

    fn coords(self) -> Vector3 {
        self.position
    }
}

/// All statements of a line list, or the first line's error.
pub open spec fn parse_all(lines: Seq<Seq<u8>>) -> Result<Seq<SpecStatement>, Error>
    decreases lines.len(),
{
    if lines.len() == 0 {
        Ok(Seq::empty())
    } else {
        match parse_all(lines.drop_last()) {
            Err(e) => Err(e),
            Ok(sts) => match spec_parse_line(lines.last()) {
                Err(e) => Err(e),
                Ok(st) => Ok(sts.push(st)),
            },
        }
    }
}

/// The position records of a statement list, in order.
pub open spec fn positions_of(sts: Seq<SpecStatement>) -> Seq<(i64, i64, i64, Option<i64>)>
    decreases sts.len(),
{
    if sts.len() == 0 {
        Seq::empty()
    } else {
        positions_of(sts.drop_last()) + (match sts.last() {
            SpecStatement::Vertex(x, y, z, w) => seq![(x, y, z, w)],
            _ => Seq::empty(),
        })
    }
}

/// The normal records of a statement list, in order.
pub open spec fn normals_of(sts: Seq<SpecStatement>) -> Seq<(i64, i64, i64)>
    decreases sts.len(),
{
    if sts.len() == 0 {
        Seq::empty()
    } else {
        normals_of(sts.drop_last()) + (match sts.last() {
            SpecStatement::VertexNormal(x, y, z) => seq![(x, y, z)],
            _ => Seq::empty(),
        })
    }
}

/// The texture-coordinate records of a statement list, in order.
pub open spec fn uvs_of(sts: Seq<SpecStatement>) -> Seq<(i64, i64)>
    decreases sts.len(),
{
    if sts.len() == 0 {
        Seq::empty()
    } else {
        uvs_of(sts.drop_last()) + (match sts.last() {
            SpecStatement::VertexTextureCoords(u, v) => seq![(u, v)],
            _ => Seq::empty(),
        })
    }
}

/// The faces of a statement list, in order.
pub open spec fn faces_of(sts: Seq<SpecStatement>) -> Seq<Seq<Key>>
    decreases sts.len(),
{
    if sts.len() == 0 {
        Seq::empty()
    } else {
        faces_of(sts.drop_last()) + (match sts.last() {
            SpecStatement::Face(cs) => seq![cs],
            _ => Seq::empty(),
        })
    }
}

/// Every corner key of every face, flattened in order.
pub open spec fn keys_of(faces: Seq<Seq<Key>>) -> Seq<Key>
    decreases faces.len(),
{
    if faces.len() == 0 {
        Seq::empty()
    } else {
        keys_of(faces.drop_last()) + faces.last()
    }
}

/// A key resolves: its position index is in range, and each optional
/// index is the sentinel or in range.
pub open spec fn key_ok(k: Key, np: int, nn: int, nt: int) -> bool {
    &&& 0 <= k.0 < np
    &&& (k.1 == -1 || 0 <= k.1 < nn)
    &&& (k.2 == -1 || 0 <= k.2 < nt)
}

/// The vertex record a key resolves to: the position looked up, and
/// each attribute either looked up or `None` on the sentinel — never a
/// lookup of the sentinel itself.
pub open spec fn resolve_key(
    k: Key,
    ps: Seq<(i64, i64, i64, Option<i64>)>,
    ns: Seq<(i64, i64, i64)>,
    ts: Seq<(i64, i64)>,
) -> Vertex {
    Vertex {
        position: Vector3 { 0: ps[k.0 as int].0, 1: ps[k.0 as int].1, 2: ps[k.0 as int].2 },
        normal: if k.1 == -1 {
            None
        } else {
            Some(
                Vector3 {
                    0: ns[k.1 as int].0,
                    1: ns[k.1 as int].1,
                    2: ns[k.1 as int].2,
                },
            )
        },
        uv: if k.2 == -1 {
            None
        } else {
            Some((ts[k.2 as int].0, ts[k.2 as int].1))
        },
    }
}

/// The slot in the distinct-vertex list of each corner of a face.
pub open spec fn face_slots(face: Seq<Key>, dv: Seq<Key>) -> Seq<int> {
    Seq::new(face.len(), |c: int| index_in(dv, face[c]))
}

/// The flattened fan triangles of one face's slots: `n - 2` triangles,
/// three slots each.
pub open spec fn face_tris(slots: Seq<int>) -> Seq<int> {
    if slots.len() < 3 {
        Seq::empty()
    } else {
        Seq::new(
            (3 * (slots.len() - 2)) as nat,
            |m: int|
                if m % 3 == 0 {
                    slots[0]
                } else {
                    slots[m / 3 + m % 3]
                },
        )
    }
}

/// The index stream the importer feeds: every face's fan triangles, in
/// face order.
pub open spec fn index_stream(faces: Seq<Seq<Key>>, dv: Seq<Key>) -> Seq<int>
    decreases faces.len(),
{
    if faces.len() == 0 {
        Seq::empty()
    } else {
        index_stream(faces.drop_last(), dv) + face_tris(face_slots(faces.last(), dv))
    }
}

/// What loading a byte stream yields: the flat index stream and the
/// distinct-vertex list, or the first stage's error — a parse error
/// from the first bad line, else a lookup error if any key is out of
/// range, else a degenerate-face error if any face has fewer than 3
/// corners.
pub open spec fn spec_load(input: Seq<u8>) -> Result<(Seq<int>, Seq<Vertex>), Error> {
    match parse_all(spec_lines(input)) {
        Err(e) => Err(e),
        Ok(sts) => {
            let ps = positions_of(sts);
            let ns = normals_of(sts);
            let ts = uvs_of(sts);
            let faces = faces_of(sts);
            let dv = sorted_dedup(keys_of(faces));
            if !(forall|i: int|
                0 <= i < dv.len() ==> key_ok(
                    #[trigger] dv[i],
                    ps.len() as int,
                    ns.len() as int,
                    ts.len() as int,
                )) {
                Err(Error::Lookup)
            } else if !(forall|j: int| 0 <= j < faces.len() ==> (#[trigger] faces[j]).len() >= 3) {
                Err(Error::Degenerate)
            } else {
                Ok(
                    (
                        index_stream(faces, dv),
                        Seq::new(dv.len(), |i: int| resolve_key(dv[i], ps, ns, ts)),
                    ),
                )
            }
        },
    }
}

/// A failed prefix fails the whole parse with the same error.
proof fn lemma_parse_all_err_prefix(lines: Seq<Seq<u8>>, i: int)
    requires
        0 <= i <= lines.len(),
        parse_all(lines.take(i)) is Err,
    ensures
        parse_all(lines) == parse_all(lines.take(i)),
    decreases lines.len() - i,
{
    if i < lines.len() {
        assert(lines.take(lines.len() as int) =~= lines);
        assert(lines.take(i + 1).drop_last() =~= lines.take(i));
        lemma_parse_all_err_prefix(lines, i + 1);
    } else {
        assert(lines.take(i) =~= lines);
    }
}

/// The views of a list of key vectors.
pub open spec fn face_views(vs: Seq<Vec<Key>>) -> Seq<Seq<Key>> {
    vs.map_values(|v: Vec<Key>| v@)
}

/// The values of a list of indices, as integers.
pub open spec fn usizes_as_ints(s: Seq<usize>) -> Seq<int> {
    Seq::new(s.len(), |i: int| s[i] as int)
}

/// Every face corner is among the flattened keys.
proof fn lemma_keys_of_contains(faces: Seq<Seq<Key>>, j: int, c: int)
    requires
        0 <= j < faces.len(),
        0 <= c < faces[j].len(),
    ensures
        keys_of(faces).contains(faces[j][c]),
    decreases faces.len(),
{
    if j == faces.len() - 1 {
        assert(keys_of(faces)[keys_of(faces.drop_last()).len() + c] == faces[j][c]);
    } else {
        assert(faces.drop_last()[j] == faces[j]);
        lemma_keys_of_contains(faces.drop_last(), j, c);
        let w = choose|w: int|
            0 <= w < keys_of(faces.drop_last()).len() && keys_of(faces.drop_last())[w] == faces[j][c];
        assert(keys_of(faces)[w] == faces[j][c]);
    }
}

/// Collects the attribute arrays, the face list and the flattened key
/// list of a whole byte stream, or reports its first parse error.
#[verifier::loop_isolation(false)]
#[verifier::rlimit(80)]
fn collect_statements(input: &[u8]) -> (r: Result<
    (
        Vec<(i64, i64, i64, Option<i64>)>,
        Vec<(i64, i64, i64)>,
        Vec<(i64, i64)>,
        Vec<Vec<Key>>,
        Vec<Key>,
    ),
    Error,
>)
    ensures
        parse_all(spec_lines(input@)) matches Ok(sts) ==> (r matches Ok(t) && {
            &&& t.0@ == positions_of(sts)
            &&& t.1@ == normals_of(sts)
            &&& t.2@ == uvs_of(sts)
            &&& face_views(t.3@) == faces_of(sts)
            &&& t.4@ == keys_of(faces_of(sts))
        }),
        parse_all(spec_lines(input@)) matches Err(e) ==> (r matches Err(e2) && e2 == e),
{
    let lines = split_lines(input);
    let mut ps: Vec<(i64, i64, i64, Option<i64>)> = Vec::new();
    let mut ns: Vec<(i64, i64, i64)> = Vec::new();
    let mut ts: Vec<(i64, i64)> = Vec::new();
    let mut faces: Vec<Vec<Key>> = Vec::new();
    let mut keys: Vec<Key> = Vec::new();
    let ghost lvs = views(lines@);
    let ghost mut gsts: Seq<SpecStatement> = Seq::empty();
    proof {
        assert(lvs.take(0) =~= Seq::<Seq<u8>>::empty());
    }
    let mut i: usize = 0;
    while i < lines.len()
        invariant
            0 <= i <= lines@.len(),
            lvs == views(lines@),
            lvs =~= spec_lines(input@),
            parse_all(lvs.take(i as int)) == Ok::<Seq<SpecStatement>, Error>(gsts),
            ps@ == positions_of(gsts),
            ns@ == normals_of(gsts),
            ts@ == uvs_of(gsts),
            face_views(faces@) == faces_of(gsts),
            keys@ == keys_of(faces_of(gsts)),
        decreases lines@.len() - i,
    {
        proof {
            assert(lvs.take(i + 1).drop_last() =~= lvs.take(i as int));
            assert(lvs.take(i + 1).last() == lvs[i as int]);
            assert(lvs[i as int] == lines@[i as int]@);
        }
        match parse_line(lines[i].as_slice()) {
            Err(e) => {
                proof {
                    lemma_parse_all_err_prefix(lvs, i + 1);
                }
                return Err(e);
            },
            Ok(st) => {
                let ghost sv = stmt_view(st);
                let ghost old_gsts = gsts;
                proof {
                    gsts = gsts.push(sv);
                    assert(gsts.drop_last() =~= old_gsts);
                    assert(gsts.last() == sv);
                }
                match st {
                    Statement::Vertex(x, y, z, w) => {
                        ps.push((x, y, z, w));
                        proof {
                            assert(ps@ =~= positions_of(old_gsts) + seq![(x, y, z, w)]);
                            assert(normals_of(gsts) =~= normals_of(old_gsts));
                            assert(uvs_of(gsts) =~= uvs_of(old_gsts));
                            assert(faces_of(gsts) =~= faces_of(old_gsts));
                        }
                    },
                    Statement::VertexNormal(x, y, z) => {
                        ns.push((x, y, z));
                        proof {
                            assert(ns@ =~= normals_of(old_gsts) + seq![(x, y, z)]);
                            assert(positions_of(gsts) =~= positions_of(old_gsts));
                            assert(uvs_of(gsts) =~= uvs_of(old_gsts));
                            assert(faces_of(gsts) =~= faces_of(old_gsts));
                        }
                    },
                    Statement::VertexTextureCoords(u, v) => {
                        ts.push((u, v));
                        proof {
                            assert(ts@ =~= uvs_of(old_gsts) + seq![(u, v)]);
                            assert(positions_of(gsts) =~= positions_of(old_gsts));
                            assert(normals_of(gsts) =~= normals_of(old_gsts));
                            assert(faces_of(gsts) =~= faces_of(old_gsts));
                        }
                    },
                    Statement::Face(cs) => {
                        let mut ci: usize = 0;
                        let ghost old_keys = keys@;
                        while ci < cs.len()
                            invariant
                                0 <= ci <= cs@.len(),
                                keys@ == old_keys + cs@.take(ci as int),
                            decreases cs@.len() - ci,
                        {
                            let k = cs[ci];
                            keys.push(k);
                            proof {
                                assert(old_keys + cs@.take(ci + 1) =~= (old_keys + cs@.take(
                                    ci as int,
                                )).push(k));
                            }
                            ci = ci + 1;
                        }
                        faces.push(cs);
                        proof {
                            assert(cs@.take(cs@.len() as int) =~= cs@);
                            assert(faces_of(gsts) =~= faces_of(old_gsts) + seq![cs@]);
                            assert(face_views(faces@) =~= face_views(faces@.drop_last()) + seq![
                                cs@,
                            ]);
                            assert(keys_of(faces_of(gsts)) =~= keys_of(faces_of(old_gsts)) + cs@);
                            assert(positions_of(gsts) =~= positions_of(old_gsts));
                            assert(normals_of(gsts) =~= normals_of(old_gsts));
                            assert(uvs_of(gsts) =~= uvs_of(old_gsts));
                        }
                    },
                    Statement::Object(_) => {
                        proof {
                            assert(positions_of(gsts) =~= positions_of(old_gsts));
                            assert(normals_of(gsts) =~= normals_of(old_gsts));
                            assert(uvs_of(gsts) =~= uvs_of(old_gsts));
                            assert(faces_of(gsts) =~= faces_of(old_gsts));
                        }
                    },
                    Statement::SmoothShading(_) => {
                        proof {
                            assert(positions_of(gsts) =~= positions_of(old_gsts));
                            assert(normals_of(gsts) =~= normals_of(old_gsts));
                            assert(uvs_of(gsts) =~= uvs_of(old_gsts));
                            assert(faces_of(gsts) =~= faces_of(old_gsts));
                        }
                    },
                    Statement::Empty => {
                        proof {
                            assert(positions_of(gsts) =~= positions_of(old_gsts));
                            assert(normals_of(gsts) =~= normals_of(old_gsts));
                            assert(uvs_of(gsts) =~= uvs_of(old_gsts));
                            assert(faces_of(gsts) =~= faces_of(old_gsts));
                        }
                    },
                }
                i = i + 1;
            },
        }
    }
    proof {
        assert(lvs.take(lines@.len() as int) =~= lvs);
    }
    Ok((ps, ns, ts, faces, keys))
}

/// Resolves the distinct keys into vertex records, in slot order.
#[verifier::loop_isolation(false)]
fn resolve_vertices(
    dv: &Vec<Key>,
    ps: &Vec<(i64, i64, i64, Option<i64>)>,
    ns: &Vec<(i64, i64, i64)>,
    ts: &Vec<(i64, i64)>,
) -> (r: Vec<Vertex>)
    requires
        forall|i: int|
            0 <= i < dv@.len() ==> key_ok(
                #[trigger] dv@[i],
                ps@.len() as int,
                ns@.len() as int,
                ts@.len() as int,
            ),
    ensures
        r@.len() == dv@.len(),
        forall|i: int| 0 <= i < dv@.len() ==> r@[i] == resolve_key(#[trigger] dv@[i], ps@, ns@, ts@),
{
    let mut r: Vec<Vertex> = Vec::new();
    let mut i: usize = 0;
    while i < dv.len()
        invariant
            0 <= i <= dv@.len(),
            r@.len() == i,
            forall|m: int| 0 <= m < i ==> r@[m] == resolve_key(#[trigger] dv@[m], ps@, ns@, ts@),
        decreases dv@.len() - i,
    {
        let k = dv[i];
        let p = ps[k.0 as usize];
        let position = Vector3(p.0, p.1, p.2);
        let normal = if k.1 == -1 {
            None
        } else {
            let nr = ns[k.1 as usize];
            Some(Vector3(nr.0, nr.1, nr.2))
        };
        let uv = if k.2 == -1 {
            None
        } else {
            let tr = ts[k.2 as usize];
            Some((tr.0, tr.1))
        };
        r.push(Vertex { position, normal, uv });
        i = i + 1;
    }
    r
}

/// Builds the flat index stream: every face fan-triangulated, each
/// corner replaced by its slot in the distinct-vertex list.
#[verifier::loop_isolation(false)]
#[verifier::rlimit(80)]
fn build_index_stream(faces: &Vec<Vec<Key>>, dv: &Vec<Key>) -> (r: Vec<usize>)
    requires
        forall|j: int| 0 <= j < faces@.len() ==> (#[trigger] faces@[j])@.len() >= 3,
        forall|j: int, c: int|
            0 <= j < faces@.len() && 0 <= c < faces@[j]@.len() ==> dv@.contains(
                #[trigger] faces@[j]@[c],
            ),
    ensures
        usizes_as_ints(r@) == index_stream(face_views(faces@), dv@),
{
    let ghost sfaces = face_views(faces@);
    let mut r: Vec<usize> = Vec::new();
    let mut j: usize = 0;
    proof {
        assert(sfaces.take(0) =~= Seq::<Seq<Key>>::empty());
        assert(usizes_as_ints(r@) =~= index_stream(sfaces.take(0), dv@));
    }
    while j < faces.len()
        invariant
            0 <= j <= faces@.len(),
            sfaces == face_views(faces@),
            usizes_as_ints(r@) == index_stream(sfaces.take(j as int), dv@),
        decreases faces@.len() - j,
    {
        let face = &faces[j];
        let n = face.len();
        let ghost sface = sfaces[j as int];
        proof {
            assert(sface == faces@[j as int]@);
        }
        let mut slots: Vec<usize> = Vec::new();
        let mut c: usize = 0;
        while c < n
            invariant
                0 <= c <= n,
                n == face@.len(),
                slots@.len() == c,
                forall|m: int| 0 <= m < c ==> slots@[m] as int == index_in(dv@, face@[m]),
            decreases n - c,
        {
            let k = face[c];
            let idx = index_of_key(dv, k);
            slots.push(idx);
            c = c + 1;
        }
        let ghost islots = face_slots(sface, dv@);
        proof {
            assert(islots.len() == n);
            assert(forall|m: int| 0 <= m < n ==> islots[m] == index_in(dv@, sface[m]));
            assert(forall|m: int| 0 <= m < n ==> slots@[m] as int == islots[m]);
        }
        let ghost ftris = face_tris(islots);
        let ghost base = r@.len() as int;
        let tris = triangulate_all(&slots);
        let mut t: usize = 0;
        while t < n - 2
            invariant
                0 <= t <= n - 2,
                3 <= n == face@.len(),
                tris@.len() == n - 2,
                slots@.len() == n,
                forall|m: int| 0 <= m < n ==> slots@[m] as int == islots[m],
                forall|ti: int|
                    0 <= ti < n - 2 ==> (#[trigger] tris@[ti])@ =~= crate::geom::util::fan_triangles(
                        slots@,
                    )[ti],
                ftris == face_tris(islots),
                ftris.len() == 3 * (n - 2),
                base == index_stream(sfaces.take(j as int), dv@).len(),
                r@.len() == base + 3 * t,
                forall|m: int|
                    0 <= m < base ==> (#[trigger] r@[m]) as int == index_stream(
                        sfaces.take(j as int),
                        dv@,
                    )[m],
                forall|m: int|
                    base <= m < base + 3 * t ==> (#[trigger] r@[m]) as int == ftris[m - base],
            decreases n - 2 - t,
        {
            let tri = &tris[t];
            proof {
                assert(tri@ =~= crate::geom::util::fan_triangles(slots@)[t as int]);
                assert(crate::geom::util::fan_triangles(slots@)[t as int] =~= seq![
                    slots@[0],
                    slots@[t + 1],
                    slots@[t + 2],
                ]);
                assert((3 * t) % 3 == 0 && (3 * t + 1) / 3 == t && (3 * t + 1) % 3 == 1 && (3 * t
                    + 2) / 3 == t && (3 * t + 2) % 3 == 2) by (nonlinear_arith);
                assert(ftris[3 * t] == islots[0]);
                assert(ftris[3 * t + 1] == islots[t + 1]);
                assert(ftris[3 * t + 2] == islots[t + 2]);
            }
            let a0 = tri[0];
            let a1 = tri[1];
            let a2 = tri[2];
            r.push(a0);
            r.push(a1);
            r.push(a2);
            t = t + 1;
        }
        proof {
            assert(sfaces.take(j + 1).drop_last() =~= sfaces.take(j as int));
            assert(sfaces.take(j + 1).last() == sface);
            let done = index_stream(sfaces.take(j + 1), dv@);
            assert(done =~= index_stream(sfaces.take(j as int), dv@) + ftris);
            assert(usizes_as_ints(r@) =~= done);
        }
        j = j + 1;
    }
    proof {
        assert(sfaces.take(faces@.len() as int) =~= sfaces);
    }
    r
}

/// Deduplicates a key list into the canonical sorted form.
fn dedup_keys(keys: &Vec<Key>) -> (dv: Vec<Key>)
    ensures
        dv@ == sorted_dedup(keys@),
        sorted_keys(dv@),
{
    let mut dv: Vec<Key> = Vec::new();
    let mut ki: usize = 0;
    proof {
        assert(keys@.take(0) =~= Seq::<Key>::empty());
    }
    #[verifier::loop_isolation(false)]
    while ki < keys.len()
        invariant
            0 <= ki <= keys@.len(),
            dv@ == sorted_dedup(keys@.take(ki as int)),
            sorted_keys(dv@),
        decreases keys@.len() - ki,
    {
        let k = keys[ki];
        proof {
            assert(keys@.take(ki + 1).drop_last() =~= keys@.take(ki as int));
            assert(keys@.take(ki + 1).last() == k);
        }
        insert_key_vec(&mut dv, k);
        ki = ki + 1;
    }
    proof {
        assert(keys@.take(keys@.len() as int) =~= keys@);
    }
    dv
}

/// Checks that every key resolves within the attribute array lengths.
fn check_keys(dv: &Vec<Key>, np: usize, nn: usize, nt: usize) -> (r: bool)
    ensures
        r == forall|i: int|
            0 <= i < dv@.len() ==> key_ok(#[trigger] dv@[i], np as int, nn as int, nt as int),
{
    let mut vi: usize = 0;
    #[verifier::loop_isolation(false)]
    while vi < dv.len()
        invariant
            0 <= vi <= dv@.len(),
            forall|m: int|
                0 <= m < vi ==> key_ok(#[trigger] dv@[m], np as int, nn as int, nt as int),
        decreases dv@.len() - vi,
    {
        let k = dv[vi];
        let ok = k.0 >= 0 && (k.0 as usize) < np && (k.1 == -1 || (k.1 >= 0 && (k.1 as usize)
            < nn)) && (k.2 == -1 || (k.2 >= 0 && (k.2 as usize) < nt));
        if !ok {
            proof {
                assert(!key_ok(dv@[vi as int], np as int, nn as int, nt as int));
            }
            return false;
        }
        vi = vi + 1;
    }
    true
}

/// Checks that every face has at least 3 corners.
fn check_faces(faces: &Vec<Vec<Key>>) -> (r: bool)
    ensures
        r == forall|j: int| 0 <= j < face_views(faces@).len() ==> (#[trigger] face_views(faces@)[
            j
        ]).len() >= 3,
{
    let mut fj: usize = 0;
    #[verifier::loop_isolation(false)]
    while fj < faces.len()
        invariant
            0 <= fj <= faces@.len(),
            forall|m: int| 0 <= m < fj ==> (#[trigger] face_views(faces@)[m]).len() >= 3,
        decreases faces@.len() - fj,
    {
        if faces[fj].len() < 3 {
            proof {
                assert(face_views(faces@)[fj as int].len() < 3);
            }
            return false;
        }
        proof {
            assert(face_views(faces@)[fj as int] == faces@[fj as int]@);
        }
        fj = fj + 1;
    }
    true
}

/// The Wavefront OBJ importer.
pub struct Wavefront;

impl Wavefront {
    /// Loads a byte stream into a mesh builder: parses it line by line,
    /// deduplicates the vertex keys of all faces, feeds one resolved
    /// vertex per distinct key (in sorted key order), and feeds the fan
    /// triangles of every face. On an error nothing is fed.
    #[verifier::loop_isolation(false)]
    #[verifier::rlimit(100)]
    pub fn load_with_builder(input: &[u8], builder: &mut Builder<usize, Vertex>) -> (r: Result<
        (),
        Error,
    >)
        ensures
            spec_load(input@) matches Ok(iv) ==> {
                &&& r is Ok
                &&& usizes_as_ints(final (builder).spec_indices()) == usizes_as_ints(
                    old(builder).spec_indices(),
                ) + iv.0
                &&& final (builder).spec_vertices() == old(builder).spec_vertices() + iv.1
            },
            spec_load(input@) matches Err(e) ==> (r matches Err(e2) && e2 == e && *final (builder)
                == *old(builder)),
    {
        let collected = match collect_statements(input) {
            Ok(t) => t,
            Err(e) => {
                return Err(e);
            },
        };
        let (ps, ns, ts, faces, keys) = collected;
        let ghost sts = parse_all(spec_lines(input@))->Ok_0;
        let ghost sfaces = faces_of(sts);
        proof {
            assert(face_views(faces@) == sfaces);
            assert(keys@ == keys_of(sfaces));
        }
        let dv = dedup_keys(&keys);
        if !check_keys(&dv, ps.len(), ns.len(), ts.len()) {
            return Err(Error::Lookup);
        }
        if !check_faces(&faces) {
            return Err(Error::Degenerate);
        }
        let verts = resolve_vertices(&dv, &ps, &ns, &ts);
        proof {
            lemma_sorted_dedup(keys@);
            assert forall|j: int, c: int|
                0 <= j < faces@.len() && 0 <= c < faces@[j]@.len() implies dv@.contains(
                #[trigger] faces@[j]@[c],
            ) by {
                assert(sfaces[j] == faces@[j]@);
                lemma_keys_of_contains(sfaces, j, c);
                assert(keys@.contains(faces@[j]@[c]));
            }
            assert(forall|j: int|
                0 <= j < faces@.len() ==> (#[trigger] faces@[j])@.len() >= 3) by {
                assert(forall|j: int|
                    0 <= j < faces@.len() ==> (#[trigger] faces@[j])@ == face_views(faces@)[j]);
            }
        }
        let all_idx = build_index_stream(&faces, &dv);
        builder.feed_vertices(verts);
        builder.feed_indices(all_idx);
        proof {
            let iv = spec_load(input@)->Ok_0;
            assert(verts@ =~= Seq::new(dv@.len(), |i: int| resolve_key(dv@[i], ps@, ns@, ts@)));
            assert(iv.1 == verts@);
            assert(iv.0 == usizes_as_ints(all_idx@));
            let oldi = old(builder).spec_indices();
            assert(usizes_as_ints(oldi + all_idx@) =~= usizes_as_ints(oldi) + usizes_as_ints(
                all_idx@,
            ));
        }
        Ok(())
    }

    /// Loads a byte stream into mesh data holding one buffer: the
    /// distinct vertices and the triangulated index stream.
    pub fn load(input: &[u8]) -> (r: Result<Data<usize, Vertex>, Error>)
        ensures
            spec_load(input@) matches Ok(iv) ==> (r matches Ok(d) && {
                &&& d.data@.len() == 1
                &&& usizes_as_ints(d.data@[0].indices@) == iv.0
                &&& d.data@[0].vertices@ == iv.1
            }),
            spec_load(input@) matches Err(e) ==> (r matches Err(e2) && e2 == e),
    {
        let mut builder: Builder<usize, Vertex> = Builder::new();
        match Wavefront::load_with_builder(input, &mut builder) {
            Ok(_) => {
                proof {
                    if spec_load(input@) is Ok {
                        let iv = spec_load(input@)->Ok_0;
                        assert(usizes_as_ints(Seq::<usize>::empty()) =~= Seq::<int>::empty());
                        assert(Seq::<int>::empty() + iv.0 =~= iv.0);
                        assert(Seq::<Vertex>::empty() + iv.1 =~= iv.1);
                    }
                }
                Ok(builder.build())
            },
            Err(e) => Err(e),
        }
    }
}

// ---------------------------------------------------------------------
// Laws of the importer
// ---------------------------------------------------------------------

/// Deduplication law: however many faces reference however many keys,
/// the distinct-vertex list is strictly sorted, holds exactly the keys
/// the faces use, and its length is the number of distinct key triples;
/// and each face corner's resolved slot points at the vertex whose key
/// is exactly the corner's own raw key.
pub proof fn lemma_dedup_resolution(faces: Seq<Seq<Key>>)
    ensures
        sorted_keys(sorted_dedup(keys_of(faces))),
        forall|x: Key| #[trigger]
            sorted_dedup(keys_of(faces)).contains(x) <==> keys_of(faces).contains(x),
        sorted_dedup(keys_of(faces)).len() == keys_of(faces).to_set().len(),
        forall|j: int, c: int|
            0 <= j < faces.len() && 0 <= c < faces[j].len() ==> sorted_dedup(keys_of(faces))[
                #[trigger] face_slots(faces[j], sorted_dedup(keys_of(faces)))[c]
            ] == faces[j][c],
{
    let keys = keys_of(faces);
    let dv = sorted_dedup(keys);
    lemma_sorted_dedup(keys);
    assert(dv.no_duplicates()) by {
        assert(forall|i: int, j: int|
            0 <= i < j < dv.len() ==> key_lt(#[trigger] dv[i], #[trigger] dv[j]));
    }
    dv.unique_seq_to_set();
    assert(dv.to_set() =~= keys.to_set()) by {
        assert forall|x: Key| dv.to_set().contains(x) implies keys.to_set().contains(x) by {
            assert(dv.contains(x));
            assert(keys.contains(x));
        }
        assert forall|x: Key| keys.to_set().contains(x) implies dv.to_set().contains(x) by {
            assert(keys.contains(x));
            assert(dv.contains(x));
        }
    }
    assert forall|j: int, c: int|
        0 <= j < faces.len() && 0 <= c < faces[j].len() implies dv[#[trigger] face_slots(
        faces[j],
        dv,
    )[c]] == faces[j][c] by {
        lemma_keys_of_contains(faces, j, c);
        assert(dv.contains(faces[j][c]));
        lemma_index_in(dv, faces[j][c]);
        assert(face_slots(faces[j], dv)[c] == index_in(dv, faces[j][c]));
    }
}

/// Sentinel law: a key whose normal or texture sub-field is the
/// sentinel resolves that attribute to `None`; a present sub-field is
/// looked up. The sentinel is never used as an array index.
pub proof fn lemma_sentinel_resolution(
    k: Key,
    ps: Seq<(i64, i64, i64, Option<i64>)>,
    ns: Seq<(i64, i64, i64)>,
    ts: Seq<(i64, i64)>,
)
    ensures
        k.1 == -1 ==> resolve_key(k, ps, ns, ts).normal is None,
        k.1 != -1 ==> resolve_key(k, ps, ns, ts).normal is Some,
        k.2 == -1 ==> resolve_key(k, ps, ns, ts).uv is None,
        k.2 != -1 ==> resolve_key(k, ps, ns, ts).uv is Some,
{
}

} // verus!
