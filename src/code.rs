//! Fixed-width short codes: the low-order seven base-62 symbols of an identifier.
use vstd::prelude::*;

use crate::snowflake::{id_of, successor, SnowflakeGenerator};

verus! {

/// Number of symbols in a short code.
pub const CODE_LEN: usize = 7;

/// The symbol of digit value `d` (`0 <= d < 62`): `0`-`9`, then `A`-`Z`, then `a`-`z`,
/// by ASCII code.
pub open spec fn symbol(d: int) -> char {
    if d < 10 {
        ((48 + d) as u8) as char
    } else if d < 36 {
        ((55 + d) as u8) as char
    } else {
        ((61 + d) as u8) as char
    }
}

/// `c` is one of the 62 symbols.
pub open spec fn is_symbol(c: char) -> bool {
    ('0' <= c <= '9') || ('A' <= c <= 'Z') || ('a' <= c <= 'z')
}

/// `62` to the power `k`.
pub open spec fn pow62(k: nat) -> nat
    decreases k,
{
    if k == 0 {
        1
    } else {
        62 * pow62((k - 1) as nat)
    }
}

/// Base-62 digit `j` of `n`, counted from the least significant.
pub open spec fn digit(n: nat, j: nat) -> int {
    ((n / pow62(j)) % 62) as int
}

/// Base-62 digits of `n` as symbols, most significant first, with no leading
/// zero digit (`"0"` for zero).
pub open spec fn base62_text(n: nat) -> Seq<char>
    decreases n,
{
    if n < 62 {
        seq![symbol(n as int)]
    } else {
        base62_text(n / 62).push(symbol((n % 62) as int))
    }
}

/// The short code of `id`: the last `CODE_LEN` symbols of its base-62 text, padded
/// on the left with `'0'` when the text is shorter.
pub open spec fn short_code(id: nat) -> Seq<char> {
    let text = base62_text(id);
    if text.len() >= CODE_LEN {
        text.subrange(text.len() - CODE_LEN, text.len() as int)
    } else {
        Seq::new((CODE_LEN - text.len()) as nat, |i: int| '0') + text
    }
}

/// Relies on base62::encode: the base-62 digits of `n`, most significant first, over
/// the symbols 0-9, A-Z, a-z in that order, and "0" for zero.
#[verifier::external_body]
fn base62_encode(n: u64) -> (r: String)
    ensures
        r@ == base62_text(n as nat),
{
    base62::encode(n)
}

proof fn lemma_pow62_positive(k: nat)
    ensures
        pow62(k) >= 1,
        k >= 1 ==> pow62(k) >= 62,
    decreases k,
{
    if k > 0 {
        lemma_pow62_positive((k - 1) as nat);
    }
}

/// Symbol `len - 1 - j` of the base-62 text of `n` is digit `j` of `n`; past the text's
/// length the digits are zero.
proof fn lemma_base62_text_digits(n: nat, j: nat)
    ensures
        base62_text(n).len() >= 1,
        j < base62_text(n).len() ==> base62_text(n)[base62_text(n).len() - 1 - j] == symbol(
            digit(n, j),
        ),
        j >= base62_text(n).len() ==> n / pow62(j) == 0,
    decreases n,
{
    lemma_pow62_positive(j);
    if n < 62 {
        if j == 0 {
            assert(n / 1 == n);
        } else {
            vstd::arithmetic::div_mod::lemma_basic_div(n as int, pow62(j) as int);
        }
    } else {
        let m = n / 62;
        if j == 0 {
            assert(n / 1 == n);
        } else {
            let k = (j - 1) as nat;
            lemma_base62_text_digits(m, k);
            lemma_pow62_positive(k);
            vstd::arithmetic::div_mod::lemma_div_denominator(n as int, 62, pow62(k) as int);
            assert(n / pow62(j) == m / pow62(k));
        }
    }
}

/// Symbol `i` of the short code of `n` is digit `CODE_LEN - 1 - i` of `n`.
pub proof fn lemma_short_code_digits(n: nat)
    ensures
        short_code(n).len() == CODE_LEN,
        forall|i: int|
            0 <= i < CODE_LEN ==> #[trigger] short_code(n)[i] == symbol(
                digit(n, (CODE_LEN - 1 - i) as nat),
            ),
{
    let text = base62_text(n);
    lemma_base62_text_digits(n, 0);
    assert forall|i: int| 0 <= i < CODE_LEN implies #[trigger] short_code(n)[i] == symbol(
        digit(n, (CODE_LEN - 1 - i) as nat),
    ) by {
        let j = (CODE_LEN - 1 - i) as nat;
        lemma_base62_text_digits(n, j);
        lemma_pow62_positive(j);
        if text.len() >= CODE_LEN {
            assert(short_code(n)[i] == text[text.len() - 1 - j]);
        } else if j >= text.len() {
            assert(short_code(n)[i] == '0');
            assert(digit(n, j) == 0);
        } else {
            assert(short_code(n)[i] == text[text.len() - 1 - j]);
        }
    }
}

/// Every short code is exactly `CODE_LEN` symbols; being a function of the id alone,
/// the same id always gives the same code.
pub proof fn lemma_short_code_shape(id: nat)
    ensures
        short_code(id).len() == CODE_LEN,
        forall|i: int| 0 <= i < CODE_LEN ==> is_symbol(#[trigger] short_code(id)[i]),
{
    lemma_short_code_digits(id);
    assert forall|i: int| 0 <= i < CODE_LEN implies is_symbol(#[trigger] short_code(id)[i]) by {
        let j = (CODE_LEN - 1 - i) as nat;
        lemma_pow62_positive(j);
        assert(0 <= digit(id, j) < 62);
    }
}

/// Two numbers agree modulo `62^k` exactly when their lowest `k` base-62 digits agree.
proof fn lemma_low_digits(a: nat, b: nat, k: nat)
    ensures
        (a % pow62(k) == b % pow62(k)) <==> (forall|j: nat| j < k ==> digit(a, j) == digit(b, j)),
    decreases k,
{
    if k == 0 {
        assert(a % 1 == 0 && b % 1 == 0);
    } else {
        let p = (k - 1) as nat;
        lemma_low_digits(a, b, p);
        lemma_pow62_positive(p);
        let q = pow62(p) as int;
        vstd::arithmetic::div_mod::lemma_mod_breakdown(a as int, q, 62);
        vstd::arithmetic::div_mod::lemma_mod_breakdown(b as int, q, 62);
        assert(pow62(k) == q * 62) by (nonlinear_arith)
            requires
                pow62(k) == 62 * pow62(p),
                q == pow62(p),
        ;
        let ra = (a as int) % q;
        let rb = (b as int) % q;
        let da = digit(a, p);
        let db = digit(b, p);
        assert(a % pow62(k) == q * da + ra);
        assert(b % pow62(k) == q * db + rb);
        if a % pow62(k) == b % pow62(k) {
            vstd::arithmetic::div_mod::lemma_fundamental_div_mod_converse(
                (a % pow62(k)) as int,
                q,
                da,
                ra,
            );
            vstd::arithmetic::div_mod::lemma_fundamental_div_mod_converse(
                (b % pow62(k)) as int,
                q,
                db,
                rb,
            );
            assert(q * da == da * q) by (nonlinear_arith);
            assert(q * db == db * q) by (nonlinear_arith);
            assert forall|j: nat| j < k implies digit(a, j) == digit(b, j) by {
                if j < p {
                }
            }
        }
        if forall|j: nat| j < k ==> digit(a, j) == digit(b, j) {
            assert(digit(a, p) == digit(b, p));
            assert forall|j: nat| j < p implies digit(a, j) == digit(b, j) by {
                assert(j < k);
            }
        }
    }
}

/// Two ids get the same short code exactly when they agree modulo `62^CODE_LEN`: ids
/// closer together than that never share a code.
pub proof fn lemma_short_code_eq(a: nat, b: nat)
    ensures
        (short_code(a) == short_code(b)) <==> (a % pow62(CODE_LEN as nat) == b % pow62(
            CODE_LEN as nat,
        )),
{
    lemma_short_code_digits(a);
    lemma_short_code_digits(b);
    lemma_low_digits(a, b, CODE_LEN as nat);
    if short_code(a) == short_code(b) {
        assert forall|j: nat| j < CODE_LEN implies digit(a, j) == digit(b, j) by {
            let i = CODE_LEN - 1 - j;
            lemma_pow62_positive(j);
            assert(short_code(a)[i as int] == short_code(b)[i as int]);
            assert(symbol(digit(a, j)) == symbol(digit(b, j)));
        }
    }
    if a % pow62(CODE_LEN as nat) == b % pow62(CODE_LEN as nat) {
        assert forall|i: int| 0 <= i < CODE_LEN implies short_code(a)[i] == short_code(b)[i] by {
            assert(((CODE_LEN - 1 - i) as nat) < CODE_LEN);
        }
        assert(short_code(a) =~= short_code(b));
    }
}

/// The short code of `id`.
pub fn encode(id: u64) -> (r: String)
    ensures
        r@ == short_code(id as nat),
        r@.len() == CODE_LEN,
        forall|i: int|
            0 <= i < CODE_LEN ==> #[trigger] r@[i] == symbol(digit(id as nat, (CODE_LEN - 1 - i) as nat)),
        forall|i: int| 0 <= i < CODE_LEN ==> is_symbol(#[trigger] r@[i]),
{
    proof {
        lemma_short_code_digits(id as nat);
        lemma_short_code_shape(id as nat);
    }
    let text = base62_encode(id);
    let len = text.as_str().unicode_len();
    if len >= CODE_LEN {
        let tail = text.as_str().substring_char(len - CODE_LEN, len);
        String::from_str(tail)
    } else {
        let mut out = String::new();
        let mut k: usize = len;
        while k < CODE_LEN
            invariant
                len <= k <= CODE_LEN,
                len == text@.len(),
                out@ == Seq::new((k - len) as nat, |i: int| '0'),
            decreases CODE_LEN - k,
        {
            proof {
                reveal_strlit("0");
            }
            out.append("0");
            k = k + 1;
            assert(out@ =~= Seq::new((k - len) as nat, |i: int| '0'));
        }
        out.append(text.as_str());
        out
    }
}

/// Mints an id with `generator` (see `SnowflakeGenerator::generate`) and returns its
/// short code; `None` when the generator gave up waiting for the next millisecond.
pub fn generate_short_url_id(generator: &mut SnowflakeGenerator, max_polls: u64) -> (r: Option<
    String,
>)
    requires
        old(generator).wf(),
    ensures
        final(generator).wf(),
        match r {
            Some(code) => successor(old(generator)@, final(generator)@) && code@ == short_code(
                id_of(final(generator)@) as nat,
            ),
            None => final(generator)@ == old(generator)@,
        },
        old(generator)@.sequence < crate::snowflake::MAX_SEQUENCE ==> r is Some,
{
    match generator.generate(max_polls) {
        Some(id) => Some(encode(id as u64)),
        None => None,
    }
}

} // verus!
