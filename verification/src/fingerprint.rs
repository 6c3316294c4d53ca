//! The fingerprinter: a cheap, stable signature for a raw RGBA pixel buffer.
//!
//! The signature seeds a token list with the decimal renderings of the width
//! and the height, samples at most 1000 pixels at a fixed byte stride and
//! appends one token per sampled pixel (the decimal renderings of its R, G
//! and B channels, concatenated; alpha is excluded because it is unreliable
//! before repair), joins all tokens with `-`, and reduces the first 1000
//! characters of the joined string with a 32-bit wrapping rolling hash.
//! The decimal rendering of the final accumulator is the fingerprint.
//!
//! The reduction is a simple multiplicative rolling hash chosen for speed,
//! not cryptographic strength; collisions are an accepted tradeoff.

use vstd::prelude::*;
use vstd::string::StringExecFns;
use vstd::wrapping::i32_specs;
use crate::errors::PipelineError;

verus! {

// ---------------------------------------------------------------------------
// Decimal rendering
// ---------------------------------------------------------------------------

/// The character for one decimal digit.
pub open spec fn spec_digit(d: int) -> char {
    if d == 0 {
        '0'
    } else if d == 1 {
        '1'
    } else if d == 2 {
        '2'
    } else if d == 3 {
        '3'
    } else if d == 4 {
        '4'
    } else if d == 5 {
        '5'
    } else if d == 6 {
        '6'
    } else if d == 7 {
        '7'
    } else if d == 8 {
        '8'
    } else {
        '9'
    }
}

/// The decimal rendering of a non-negative integer, most significant digit
/// first, without a sign and without leading zeros (except for zero itself).
pub open spec fn spec_udec(n: int) -> Seq<char>
    decreases n,
{
    if n < 10 {
        seq![spec_digit(n)]
    } else {
        spec_udec(n / 10).push(spec_digit(n % 10))
    }
}

/// The decimal rendering of a signed integer: a leading `-` for negative
/// values, then the digits of the magnitude.
pub open spec fn spec_idec(n: int) -> Seq<char> {
    if n >= 0 {
        spec_udec(n)
    } else {
        seq!['-'] + spec_udec(-n)
    }
}

fn digit_char(d: u8) -> (c: char)
    requires
        d < 10,
    ensures
        c == spec_digit(d as int),
{
    if d == 0 {
        '0'
    } else if d == 1 {
        '1'
    } else if d == 2 {
        '2'
    } else if d == 3 {
        '3'
    } else if d == 4 {
        '4'
    } else if d == 5 {
        '5'
    } else if d == 6 {
        '6'
    } else if d == 7 {
        '7'
    } else if d == 8 {
        '8'
    } else {
        '9'
    }
}

fn push_udec(out: &mut Vec<char>, n: u32)
    ensures
        final(out)@ == old(out)@ + spec_udec(n as int),
    decreases n,
{
    if n < 10 {
        out.push(digit_char(n as u8));
        assert(out@ =~= old(out)@ + spec_udec(n as int));
    } else {
        push_udec(out, n / 10);
        out.push(digit_char((n % 10) as u8));
        assert(out@ =~= old(out)@ + spec_udec(n as int));
    }
}

fn digit_str(d: u32) -> (r: &'static str)
    requires
        d < 10,
    ensures
        r@ == seq![spec_digit(d as int)],
{
    proof {
        reveal_strlit("0");
        reveal_strlit("1");
        reveal_strlit("2");
        reveal_strlit("3");
        reveal_strlit("4");
        reveal_strlit("5");
        reveal_strlit("6");
        reveal_strlit("7");
        reveal_strlit("8");
        reveal_strlit("9");
    }
    let r: &'static str = if d == 0 {
        "0"
    } else if d == 1 {
        "1"
    } else if d == 2 {
        "2"
    } else if d == 3 {
        "3"
    } else if d == 4 {
        "4"
    } else if d == 5 {
        "5"
    } else if d == 6 {
        "6"
    } else if d == 7 {
        "7"
    } else if d == 8 {
        "8"
    } else {
        "9"
    };
    proof {
        assert(r@ =~= seq![spec_digit(d as int)]);
    }
    r
}

fn append_udec(out: &mut String, n: u32)
    ensures
        final(out)@ == old(out)@ + spec_udec(n as int),
    decreases n,
{
    if n < 10 {
        out.append(digit_str(n));
        assert(out@ =~= old(out)@ + spec_udec(n as int));
    } else {
        append_udec(out, n / 10);
        out.append(digit_str(n % 10));
        assert(out@ =~= old(out)@ + spec_udec(n as int));
    }
}

// ---------------------------------------------------------------------------
// Sampling and tokenization
// ---------------------------------------------------------------------------

/// How many pixels are sampled: at most 1000, and never more than the buffer
/// holds.
pub open spec fn spec_sample_size(len: nat) -> nat {
    if len / 4 < 1000 {
        len / 4
    } else {
        1000
    }
}

/// The pixel stride between samples; 1 when the buffer holds less than one
/// whole pixel (degenerate case, avoids a division by zero).
pub open spec fn spec_step(len: nat) -> nat {
    if spec_sample_size(len) > 0 {
        len / (spec_sample_size(len) * 4)
    } else {
        1
    }
}

/// The token of the pixel at byte offset `i`: the decimal renderings of the
/// R, G and B channel bytes, concatenated.
pub open spec fn spec_token(p: Seq<u8>, i: int) -> Seq<char> {
    spec_udec(p[i] as int) + spec_udec(p[i + 1] as int) + spec_udec(p[i + 2] as int)
}

/// The tokens of the samples at byte offsets `i`, `i + s`, `i + 2*s`, ...;
/// an offset contributes a token only when its B channel is still in bounds.
pub open spec fn spec_tokens_from(p: Seq<u8>, i: nat, s: nat) -> Seq<Seq<char>>
    decreases p.len() + s - i,
        when s >= 1
{
    if i >= p.len() {
        Seq::empty()
    } else {
        let rest = spec_tokens_from(p, i + s, s);
        if i + 2 < p.len() {
            seq![spec_token(p, i as int)] + rest
        } else {
            rest
        }
    }
}

/// Joins a token list onto a preceding token: `-` before each element.
pub open spec fn spec_join_tail(ts: Seq<Seq<char>>) -> Seq<char>
    decreases ts.len(),
{
    if ts.len() == 0 {
        Seq::empty()
    } else {
        seq!['-'] + ts.first() + spec_join_tail(ts.drop_first())
    }
}

/// The joined token string: decimal width, decimal height, then one token per
/// sampled pixel, all separated by `-`.
pub open spec fn spec_joined(p: Seq<u8>, w: u32, h: u32) -> Seq<char> {
    spec_udec(w as int) + seq!['-'] + spec_udec(h as int) + spec_join_tail(
        spec_tokens_from(p, 0, spec_step(p.len()) * 4),
    )
}

// ---------------------------------------------------------------------------
// The 32-bit rolling hash
// ---------------------------------------------------------------------------

/// One reduction step: multiply the accumulator by 31 and add the character's
/// code point, wrapping to the signed 32-bit range (two's complement).
pub open spec fn spec_hash_step(h: i32, c: char) -> i32 {
    i32_specs::signed_crop(31 * h + c as int)
}

/// The left fold of the reduction over a character sequence, starting at 0.
pub open spec fn spec_hash_seq(s: Seq<char>) -> i32
    decreases s.len(),
{
    if s.len() == 0 {
        0i32
    } else {
        spec_hash_step(spec_hash_seq(s.drop_last()), s.last())
    }
}

/// The reduction input: at most the first 1000 characters of the joined
/// string.
pub open spec fn spec_hash_input(s: Seq<char>) -> Seq<char> {
    if s.len() <= 1000 {
        s
    } else {
        s.take(1000)
    }
}

/// The fingerprint of a pixel buffer at the given dimensions: the decimal
/// rendering of the reduced hash of the joined token string.
pub open spec fn spec_fingerprint(p: Seq<u8>, w: u32, h: u32) -> Seq<char> {
    spec_idec(spec_hash_seq(spec_hash_input(spec_joined(p, w, h))) as int)
}

/// `signed_crop` only looks at its argument modulo 2^32, so multiples of 2^32
/// vanish.
proof fn lemma_crop_shift(x: int, k: int)
    ensures
        i32_specs::signed_crop(x + k * 0x1_0000_0000) == i32_specs::signed_crop(x),
{
    vstd::arithmetic::div_mod::lemma_mod_multiples_vanish(k, x, 0x1_0000_0000);
    assert((x + k * 0x1_0000_0000) % 0x1_0000_0000 == x % 0x1_0000_0000);
}

/// Cropping an already-cropped summand does not change the cropped sum.
proof fn lemma_crop_compose(x: int, y: int)
    ensures
        i32_specs::signed_crop(i32_specs::signed_crop(x) + y) == i32_specs::signed_crop(x + y),
{
    let r: int = 0x1_0000_0000;
    let m: int = x % r;
    vstd::arithmetic::div_mod::lemma_fundamental_div_mod(x, r);
    // x == r * (x / r) + m, so signed_crop(x) == x - r * k for some k
    let k: int = if m > i32::MAX as int {
        x / r + 1
    } else {
        x / r
    };
    assert(i32_specs::signed_crop(x) == x - k * r) by {
        assert(m == x - r * (x / r));
    }
    assert(i32_specs::signed_crop(x) + y == (x + y) + (-k) * r);
    lemma_crop_shift(x + y, -k);
}

/// For arguments already inside `(-2^32, 2^32)` the crop is the single
/// adjustment the wrapping operations make.
proof fn lemma_crop_small(x: int)
    requires
        -0x1_0000_0000 < x < 0x1_0000_0000,
    ensures
        i32_specs::signed_crop(x) == if x > i32::MAX as int {
            x - 0x1_0000_0000
        } else if x < i32::MIN as int {
            x + 0x1_0000_0000
        } else {
            x
        },
{
    let r: int = 0x1_0000_0000;
    if 0 <= x {
        vstd::arithmetic::div_mod::lemma_small_mod(x as nat, r as nat);
    } else {
        vstd::arithmetic::div_mod::lemma_mod_multiples_vanish(1, x, r);
        vstd::arithmetic::div_mod::lemma_small_mod((x + r) as nat, r as nat);
    }
}

/// The executable reduction step: `(h << 5) - h + c` on a wrapping `i32`
/// equals the mathematical step `crop(31*h + c)`.
fn hash_step(h: i32, c: char) -> (r: i32)
    ensures
        r == spec_hash_step(h, c),
{
    let code: u32 = c as u32;
    let ci: i32 = code as i32;
    let m: i32 = h.wrapping_mul(32);
    let s: i32 = m.wrapping_sub(h);
    let r: i32 = s.wrapping_add(ci);
    proof {
        assert(ci == c as int);
        assert(m == i32_specs::signed_crop(h * 32));
        lemma_crop_small(m - h);
        assert(s == i32_specs::signed_crop(m - h)) by {
            assert(i32_specs::wrapping_sub(m, h) == i32_specs::signed_crop(m - h));
        }
        lemma_crop_small(s + ci);
        assert(r == i32_specs::signed_crop(s + ci)) by {
            assert(i32_specs::wrapping_add(s, ci) == i32_specs::signed_crop(s + ci));
        }
        lemma_crop_compose(h * 32, -h);
        assert(s == i32_specs::signed_crop(h * 32 - h));
        lemma_crop_compose(h * 32 - h, ci as int);
        assert(r == i32_specs::signed_crop(31 * h + ci));
    }
    r
}

/// Reduces at most the first 1000 characters of `s`.
fn hash_chars(s: &Vec<char>) -> (h: i32)
    ensures
        h == spec_hash_seq(spec_hash_input(s@)),
{
    let limit: usize = if s.len() < 1000 {
        s.len()
    } else {
        1000
    };
    let mut h: i32 = 0;
    let mut k: usize = 0;
    while k < limit
        invariant
            k <= limit,
            limit <= s@.len(),
            limit as int == spec_hash_input(s@).len(),
            h == spec_hash_seq(s@.take(k as int)),
        decreases limit - k,
    {
        let c: char = s[k];
        h = hash_step(h, c);
        proof {
            assert(s@.take(k + 1).drop_last() =~= s@.take(k as int));
            assert(s@.take(k + 1).last() == s@[k as int]);
        }
        k = k + 1;
    }
    proof {
        assert(s@.take(limit as int) =~= spec_hash_input(s@));
    }
    h
}

// ---------------------------------------------------------------------------
// The fingerprint itself
// ---------------------------------------------------------------------------

/// Computes the fingerprint of a raw RGBA buffer at the declared dimensions.
///
/// Fails with `EmptyInput` exactly when the buffer is empty; otherwise the
/// result is the deterministic signature `spec_fingerprint` of the buffer
/// contents and the dimensions.
#[verifier::rlimit(60)]
pub fn calculate_image_hash_internal(rgba_data: &[u8], width: u32, height: u32) -> (r: Result<
    String,
    PipelineError,
>)
    ensures
        rgba_data@.len() == 0 ==> (r matches Err(e) && e is EmptyInput),
        rgba_data@.len() > 0 ==> (r matches Ok(s) && s@ == spec_fingerprint(
            rgba_data@,
            width,
            height,
        )),
{
    let len: usize = rgba_data.len();
    if len == 0 {
        return Err(PipelineError::EmptyInput);
    }
    let quarter: usize = len / 4;
    let sample_size: usize = if quarter < 1000 {
        quarter
    } else {
        1000
    };
    let step: usize = if sample_size > 0 {
        len / (sample_size * 4)
    } else {
        1
    };
    proof {
        assert(sample_size as nat == spec_sample_size(len as nat));
        assert(step as nat == spec_step(len as nat));
        if sample_size > 0 {
            vstd::arithmetic::div_mod::lemma_fundamental_div_mod(len as int, 4);
            assert(4 * (len as int / 4) <= len);
            assert(sample_size as int * 4 <= (len as int / 4) * 4);
            vstd::arithmetic::div_mod::lemma_div_non_zero(len as int, sample_size as int * 4);
            vstd::arithmetic::div_mod::lemma_div_is_ordered_by_denominator(
                len as int,
                4,
                sample_size as int * 4,
            );
            assert(step as int <= len as int / 4);
            assert(step * 4 <= len);
        }
    }
    let s4: usize = step * 4;
    let mut joined: Vec<char> = Vec::new();
    push_udec(&mut joined, width);
    joined.push('-');
    push_udec(&mut joined, height);
    let ghost header: Seq<char> = joined@;
    proof {
        assert(header =~= spec_udec(width as int) + seq!['-'] + spec_udec(height as int));
        assert(joined@ + spec_join_tail(spec_tokens_from(rgba_data@, 0, s4 as nat))
            =~= spec_joined(rgba_data@, width, height));
    }
    let mut i: usize = 0;
    while i < len
        invariant
            len == rgba_data@.len(),
            4 <= s4 <= len || (len < 4 && s4 == 4),
            joined@ + spec_join_tail(spec_tokens_from(rgba_data@, i as nat, s4 as nat))
                == spec_joined(rgba_data@, width, height),
        decreases len - i,
    {
        let ghost pre: Seq<char> = joined@;
        let ghost rest: Seq<Seq<char>> = spec_tokens_from(rgba_data@, (i + s4) as nat, s4 as nat);
        if len >= 3 && i < len - 2 {
            joined.push('-');
            push_udec(&mut joined, rgba_data[i] as u32);
            push_udec(&mut joined, rgba_data[i + 1] as u32);
            push_udec(&mut joined, rgba_data[i + 2] as u32);
            proof {
                let toks = spec_tokens_from(rgba_data@, i as nat, s4 as nat);
                assert(toks == seq![spec_token(rgba_data@, i as int)] + rest);
                assert(toks.first() == spec_token(rgba_data@, i as int));
                assert(toks.drop_first() =~= rest);
                assert(joined@ =~= pre + seq!['-'] + spec_token(rgba_data@, i as int));
                assert(joined@ + spec_join_tail(rest) =~= pre + spec_join_tail(toks));
            }
        } else {
            proof {
                assert(spec_tokens_from(rgba_data@, i as nat, s4 as nat) == rest);
            }
        }
        if len - i <= s4 {
            proof {
                assert(spec_tokens_from(rgba_data@, (i + s4) as nat, s4 as nat)
                    == Seq::<Seq<char>>::empty());
                assert(spec_tokens_from(rgba_data@, len as nat, s4 as nat)
                    == Seq::<Seq<char>>::empty());
            }
            i = len;
        } else {
            i = i + s4;
        }
    }
    proof {
        assert(spec_tokens_from(rgba_data@, i as nat, s4 as nat) == Seq::<Seq<char>>::empty());
        assert(joined@ + Seq::<char>::empty() =~= joined@);
        assert(joined@ == spec_joined(rgba_data@, width, height));
    }
    let h: i32 = hash_chars(&joined);
    let mut out: String = String::new();
    if h < 0 {
        proof {
            reveal_strlit("-");
        }
        out.append("-");
        let magnitude: u32 = (-(h as i64)) as u32;
        append_udec(&mut out, magnitude);
        proof {
            assert(out@ =~= spec_idec(h as int));
        }
    } else {
        append_udec(&mut out, h as u32);
    }
    Ok(out)
}

/// The standalone fingerprint operation on an owned buffer; same contract as
/// `calculate_image_hash_internal`.
pub fn calculate_image_hash(rgba_data: Vec<u8>, width: u32, height: u32) -> (r: Result<
    String,
    PipelineError,
>)
    ensures
        rgba_data@.len() == 0 ==> (r matches Err(e) && e is EmptyInput),
        rgba_data@.len() > 0 ==> (r matches Ok(s) && s@ == spec_fingerprint(
            rgba_data@,
            width,
            height,
        )),
{
    calculate_image_hash_internal(rgba_data.as_slice(), width, height)
}

// ---------------------------------------------------------------------------
// Properties of the decimal rendering and of the joined string
// ---------------------------------------------------------------------------

/// No separator occurs among decimal digits.
pub open spec fn dash_free(s: Seq<char>) -> bool {
    forall|k: int| 0 <= k < s.len() ==> s[k] != '-'
}

proof fn lemma_udec_len_pos(n: int)
    requires
        0 <= n,
    ensures
        spec_udec(n).len() >= 1,
    decreases n,
{
    if n >= 10 {
        lemma_udec_len_pos(n / 10);
    }
}

spec fn spec_pow10(k: nat) -> int
    decreases k,
{
    if k == 0 {
        1
    } else {
        10 * spec_pow10((k - 1) as nat)
    }
}

proof fn lemma_udec_len_bound(n: int, k: nat)
    requires
        k >= 1,
        0 <= n < spec_pow10(k),
    ensures
        spec_udec(n).len() <= k,
    decreases k,
{
    if n < 10 {
        lemma_udec_len_pos(n);
    } else {
        assert(spec_pow10(0) == 1);
        assert(spec_pow10(1) == 10);
        if k == 1 {
            assert(false);
        }
        if n / 10 >= spec_pow10((k - 1) as nat) {
            vstd::arithmetic::div_mod::lemma_fundamental_div_mod(n, 10);
            assert(n >= 10 * (n / 10));
            assert(false);
        }
        lemma_udec_len_bound(n / 10, (k - 1) as nat);
    }
}

proof fn lemma_udec_u32_len(n: int)
    requires
        0 <= n < 0x1_0000_0000,
    ensures
        1 <= spec_udec(n).len() <= 10,
{
    lemma_udec_len_pos(n);
    assert(spec_pow10(0) == 1);
    assert(spec_pow10(1) == 10);
    assert(spec_pow10(2) == 100);
    assert(spec_pow10(3) == 1000);
    assert(spec_pow10(4) == 10000);
    assert(spec_pow10(5) == 100000);
    assert(spec_pow10(6) == 1000000);
    assert(spec_pow10(7) == 10000000);
    assert(spec_pow10(8) == 100000000);
    assert(spec_pow10(9) == 1000000000);
    assert(spec_pow10(10) == 10000000000);
    lemma_udec_len_bound(n, 10);
}

proof fn lemma_udec_dash_free(n: int)
    requires
        0 <= n,
    ensures
        dash_free(spec_udec(n)),
    decreases n,
{
    if n >= 10 {
        lemma_udec_dash_free(n / 10);
        let s = spec_udec(n);
        assert forall|k: int| 0 <= k < s.len() implies s[k] != '-' by {
            if k < s.len() - 1 {
                assert(s[k] == spec_udec(n / 10)[k]);
            }
        }
    }
}

proof fn lemma_udec_injective(m: int, n: int)
    requires
        0 <= m,
        0 <= n,
        spec_udec(m) == spec_udec(n),
    ensures
        m == n,
    decreases m,
{
    lemma_udec_len_pos(m);
    lemma_udec_len_pos(n);
    if m < 10 && n < 10 {
        assert(spec_udec(m)[0] == spec_digit(m));
        assert(spec_udec(n)[0] == spec_digit(n));
    } else if m >= 10 && n >= 10 {
        let sm = spec_udec(m / 10);
        let sn = spec_udec(n / 10);
        assert(spec_udec(m).last() == spec_digit(m % 10));
        assert(spec_udec(n).last() == spec_digit(n % 10));
        assert(m % 10 == n % 10);
        assert(spec_udec(m).drop_last() =~= sm);
        assert(spec_udec(n).drop_last() =~= sn);
        lemma_udec_injective(m / 10, n / 10);
    } else if m < 10 {
        lemma_udec_len_pos(n / 10);
        assert(spec_udec(n).len() >= 2);
        assert(false);
    } else {
        lemma_udec_len_pos(m / 10);
        assert(spec_udec(m).len() >= 2);
        assert(false);
    }
}

proof fn lemma_idec_injective(m: int, n: int)
    requires
        spec_idec(m) == spec_idec(n),
    ensures
        m == n,
{
    if m >= 0 && n >= 0 {
        lemma_udec_injective(m, n);
    } else if m < 0 && n < 0 {
        assert(spec_idec(m).drop_first() =~= spec_udec(-m));
        assert(spec_idec(n).drop_first() =~= spec_udec(-n));
        lemma_udec_injective(-m, -n);
    } else if m >= 0 {
        lemma_udec_dash_free(m);
        lemma_udec_len_pos(m);
        assert(spec_idec(n)[0] == '-');
        assert(false);
    } else {
        lemma_udec_dash_free(n);
        lemma_udec_len_pos(n);
        assert(spec_idec(m)[0] == '-');
        assert(false);
    }
}

/// Law: two fingerprints coincide exactly when the 32-bit reductions of
/// their hash inputs coincide — the decimal rendering loses nothing. With
/// `lemma_hash_input_distinguishes_dimensions`, equal fingerprints for the
/// same buffer at different dimensions can only come from a collision of the
/// 32-bit reduction itself.
pub proof fn lemma_fingerprint_collision_is_hash_collision(
    p1: Seq<u8>,
    w1: u32,
    h1: u32,
    p2: Seq<u8>,
    w2: u32,
    h2: u32,
)
    ensures
        spec_fingerprint(p1, w1, h1) == spec_fingerprint(p2, w2, h2) <==> spec_hash_seq(
            spec_hash_input(spec_joined(p1, w1, h1)),
        ) == spec_hash_seq(spec_hash_input(spec_joined(p2, w2, h2))),
{
    let a = spec_hash_seq(spec_hash_input(spec_joined(p1, w1, h1)));
    let b = spec_hash_seq(spec_hash_input(spec_joined(p2, w2, h2)));
    if spec_fingerprint(p1, w1, h1) == spec_fingerprint(p2, w2, h2) {
        lemma_idec_injective(a as int, b as int);
    }
}

/// The index of the first `-` in `s`, or `s.len()` when there is none.
spec fn first_dash(s: Seq<char>) -> int
    decreases s.len(),
{
    if s.len() == 0 {
        0
    } else if s[0] == '-' {
        0
    } else {
        1 + first_dash(s.drop_first())
    }
}

proof fn lemma_first_dash_all(s: Seq<char>)
    requires
        dash_free(s),
    ensures
        first_dash(s) == s.len(),
    decreases s.len(),
{
    if s.len() > 0 {
        assert(s[0] != '-');
        assert(dash_free(s.drop_first()));
        lemma_first_dash_all(s.drop_first());
    }
}

proof fn lemma_first_dash_concat(a: Seq<char>, rest: Seq<char>)
    requires
        dash_free(a),
    ensures
        first_dash(a + seq!['-'] + rest) == a.len(),
        (a + seq!['-'] + rest).take(a.len() as int) == a,
        (a + seq!['-'] + rest).skip(a.len() as int + 1) == rest,
    decreases a.len(),
{
    let s = a + seq!['-'] + rest;
    if a.len() == 0 {
        assert(s[0] == '-');
    } else {
        assert(s[0] == a[0]);
        assert(a[0] != '-');
        assert(s.drop_first() =~= a.drop_first() + seq!['-'] + rest);
        assert(dash_free(a.drop_first()));
        lemma_first_dash_concat(a.drop_first(), rest);
        assert(first_dash(s) == 1 + first_dash(s.drop_first()));
    }
    assert(s.take(a.len() as int) =~= a);
    assert(s.skip(a.len() as int + 1) =~= rest);
}

/// From a (possibly truncated) joined string of the shape
/// `digits '-' digits tail` the two digit runs can be read back off.
proof fn lemma_parse_header(a: Seq<char>, b: Seq<char>, tail: Seq<char>, u: Seq<char>)
    requires
        dash_free(a),
        dash_free(b),
        tail.len() == 0 || tail[0] == '-',
        u == a + seq!['-'] + (b + tail),
    ensures
        first_dash(u) == a.len(),
        u.take(a.len() as int) == a,
        ({
            let r = u.skip(a.len() as int + 1);
            first_dash(r) == b.len() && r.take(b.len() as int) == b
        }),
{
    lemma_first_dash_concat(a, b + tail);
    let r = u.skip(a.len() as int + 1);
    assert(r == b + tail);
    if tail.len() == 0 {
        assert(r =~= b);
        lemma_first_dash_all(b);
        assert(r.take(b.len() as int) =~= b);
    } else {
        assert(r =~= b + seq!['-'] + tail.drop_first());
        lemma_first_dash_concat(b, tail.drop_first());
    }
}

/// Law (dimension sensitivity, string level): for the same pixel buffer,
/// different `(width, height)` pairs always produce different hash inputs —
/// the dimensions seed the token list, and the decimal header survives the
/// 1000-character truncation. The final 32-bit reduction of those inputs can
/// still collide, so the fingerprints themselves differ only with high
/// probability; that last step is exercised by tests.
pub proof fn lemma_hash_input_distinguishes_dimensions(
    p: Seq<u8>,
    w1: u32,
    h1: u32,
    w2: u32,
    h2: u32,
)
    requires
        !(w1 == w2 && h1 == h2),
    ensures
        spec_hash_input(spec_joined(p, w1, h1)) != spec_hash_input(spec_joined(p, w2, h2)),
{
    let a1 = spec_udec(w1 as int);
    let b1 = spec_udec(h1 as int);
    let a2 = spec_udec(w2 as int);
    let b2 = spec_udec(h2 as int);
    let t = spec_join_tail(spec_tokens_from(p, 0, spec_step(p.len()) * 4));
    let s1 = spec_joined(p, w1, h1);
    let s2 = spec_joined(p, w2, h2);
    lemma_udec_u32_len(w1 as int);
    lemma_udec_u32_len(h1 as int);
    lemma_udec_u32_len(w2 as int);
    lemma_udec_u32_len(h2 as int);
    lemma_udec_dash_free(w1 as int);
    lemma_udec_dash_free(h1 as int);
    lemma_udec_dash_free(w2 as int);
    lemma_udec_dash_free(h2 as int);
    if spec_hash_input(s1) == spec_hash_input(s2) {
        lemma_header_readable(p, w1, h1);
        lemma_header_readable(p, w2, h2);
        let u1 = spec_hash_input(s1);
        let u2 = spec_hash_input(s2);
        assert(u1.take(first_dash(u1)) == a1);
        assert(u2.take(first_dash(u2)) == a2);
        assert(a1 == a2);
        let r1 = u1.skip(a1.len() as int + 1);
        let r2 = u2.skip(a2.len() as int + 1);
        assert(r1 == r2);
        assert(r1.take(first_dash(r1)) == b1);
        assert(r2.take(first_dash(r2)) == b2);
        assert(b1 == b2);
        lemma_udec_injective(w1 as int, w2 as int);
        lemma_udec_injective(h1 as int, h2 as int);
        assert(false);
    }
}

/// The decimal header `width '-' height` of a joined string survives the
/// truncation to the hash input and can be parsed back off it.
proof fn lemma_header_readable(p: Seq<u8>, w: u32, h: u32)
    ensures
        ({
            let a = spec_udec(w as int);
            let b = spec_udec(h as int);
            let u = spec_hash_input(spec_joined(p, w, h));
            &&& first_dash(u) == a.len()
            &&& u.take(a.len() as int) == a
            &&& first_dash(u.skip(a.len() as int + 1)) == b.len()
            &&& u.skip(a.len() as int + 1).take(b.len() as int) == b
        }),
{
    let a = spec_udec(w as int);
    let b = spec_udec(h as int);
    let t = spec_join_tail(spec_tokens_from(p, 0, spec_step(p.len()) * 4));
    let s = spec_joined(p, w, h);
    lemma_udec_u32_len(w as int);
    lemma_udec_u32_len(h as int);
    lemma_udec_dash_free(w as int);
    lemma_udec_dash_free(h as int);
    let u = spec_hash_input(s);
    let m: int = if s.len() <= 1000 {
        s.len() as int
    } else {
        1000
    };
    assert(u =~= s.take(m));
    assert(s.len() == a.len() + 1 + b.len() + t.len());
    let c: int = m - a.len() - 1;
    assert(c >= b.len());
    let cut = (b + t).take(c);
    assert(u =~= a + seq!['-'] + cut);
    let tcut = t.take(c - b.len());
    assert(cut =~= b + tcut);
    if tcut.len() == 0 {
        lemma_parse_header(a, b, tcut, u);
    } else {
        assert(t.len() > 0);
        lemma_join_tail_starts_with_dash(spec_tokens_from(p, 0, spec_step(p.len()) * 4));
        assert(tcut[0] == t[0]);
        lemma_parse_header(a, b, tcut, u);
    }
}

proof fn lemma_join_tail_starts_with_dash(ts: Seq<Seq<char>>)
    requires
        spec_join_tail(ts).len() > 0,
    ensures
        spec_join_tail(ts)[0] == '-',
{
    assert(ts.len() > 0);
    assert(spec_join_tail(ts) == seq!['-'] + ts.first() + spec_join_tail(ts.drop_first()));
}

/// Law: the fingerprint is deterministic. Two computations over the same
/// pixel buffer and the same dimensions yield the same string.
pub proof fn lemma_fingerprint_deterministic(r1: Seq<char>, r2: Seq<char>, p: Seq<u8>, w: u32, h: u32)
    requires
        r1 == spec_fingerprint(p, w, h),
        r2 == spec_fingerprint(p, w, h),
    ensures
        r1 == r2,
{
}

} // verus!
