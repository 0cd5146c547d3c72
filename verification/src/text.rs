//! Small text routines: decimal digits, lowercase hexadecimal and
//! character removal, each with a specification over `Seq<char>`.
use vstd::prelude::*;

verus! {

/// The ASCII character of a decimal digit `d` (`0 <= d < 10`).
pub open spec fn digit_char(d: int) -> char {
    (48 + d) as char
}

/// The decimal representation of `n`, without sign or leading zeros.
pub open spec fn decimal(n: nat) -> Seq<char>
    decreases n,
{
    if n < 10 {
        seq![digit_char(n as int)]
    } else {
        decimal(n / 10).push(digit_char((n % 10) as int))
    }
}

/// Appends `c` to `s` (std's `String::push`).
#[verifier::external_body]
pub(crate) fn push_char(s: &mut String, c: char)
    ensures
        final(s)@ == old(s)@.push(c),
{
    s.push(c);
}

/// Appends the decimal representation of `n` to `s`.
pub fn push_decimal(s: &mut String, n: u32)
    ensures
        final(s)@ == old(s)@ + decimal(n as nat),
    decreases n,
{
    if n >= 10 {
        push_decimal(s, n / 10);
    }
    let d: u8 = (n % 10) as u8;
    let c: char = (d + 48u8) as char;
    push_char(s, c);
    proof {
        assert(c == digit_char(d as int));
        if n >= 10 {
            assert(decimal(n as nat) == decimal((n / 10) as nat).push(digit_char((n % 10) as int)));
        } else {
            assert(decimal(n as nat) == seq![digit_char(n as int)]);
        }
    }
}


/// `c` is an ASCII decimal digit.
pub open spec fn is_digit(c: char) -> bool {
    '0' <= c && c <= '9'
}

/// Every character of `s` is an ASCII decimal digit.
pub open spec fn all_digits(s: Seq<char>) -> bool {
    forall|i: int| 0 <= i < s.len() ==> #[trigger] is_digit(s[i])
}

/// The value of a string of decimal digits, most significant first.
pub open spec fn digits_value(s: Seq<char>) -> nat
    decreases s.len(),
{
    if s.len() == 0 {
        0
    } else {
        (digits_value(s.drop_last()) * 10 + (s.last() as int - 48)) as nat
    }
}

/// Ten to the power `n`.
pub open spec fn pow10(n: nat) -> nat
    decreases n,
{
    if n == 0 {
        1
    } else {
        10 * pow10((n - 1) as nat)
    }
}

/// Ten to the power `a + b` is ten to the power `a` times ten to the power `b`.
pub proof fn lemma_pow10_add(a: nat, b: nat)
    ensures
        pow10(a + b) == pow10(a) * pow10(b),
    decreases a,
{
    if a > 0 {
        lemma_pow10_add((a - 1) as nat, b);
        assert(pow10(a + b) == 10 * pow10((a - 1 + b) as nat));
        assert(10 * (pow10((a - 1) as nat) * pow10(b)) == (10 * pow10((a - 1) as nat)) * pow10(b)) by (nonlinear_arith);
    } else {
        assert(pow10(a) == 1);
        assert(a + b == b);
    }
}

/// A string of `n` decimal digits has a value below ten to the power `n`.
pub proof fn lemma_digits_value_below(s: Seq<char>)
    requires
        all_digits(s),
    ensures
        digits_value(s) < pow10(s.len()),
    decreases s.len(),
{
    if s.len() > 0 {
        let t = s.drop_last();
        assert(all_digits(t)) by {
            assert forall|i: int| 0 <= i < t.len() implies #[trigger] is_digit(t[i]) by {
                assert(t[i] == s[i]);
            }
        }
        lemma_digits_value_below(t);
        assert(is_digit(s[s.len() - 1]));
        let p = pow10(t.len());
        let v = digits_value(t);
        assert(v * 10 <= (p - 1) * 10) by (nonlinear_arith)
            requires
                v <= p - 1,
        ;
        assert(pow10(s.len()) == 10 * p);
    }
}

/// The digits that std's `u32::from_str` reads: everything after one
/// optional leading `+`.
pub open spec fn unsigned_body(s: Seq<char>) -> Seq<char> {
    if s.len() > 0 && s[0] == '+' {
        s.drop_first()
    } else {
        s
    }
}

/// What std's `str::parse::<u32>` gives: an optional `+` followed by one or
/// more decimal digits whose value fits in a `u32`, and nothing else.
pub open spec fn parsed_u32(s: Seq<char>) -> Option<u32> {
    let body = unsigned_body(s);
    if body.len() > 0 && all_digits(body) && digits_value(body) <= u32::MAX {
        Some(digits_value(body) as u32)
    } else {
        None
    }
}

proof fn lemma_digits_value_prefix(s: Seq<char>, k: int)
    requires
        all_digits(s),
        0 <= k <= s.len(),
    ensures
        digits_value(s.take(k)) <= digits_value(s),
    decreases s.len(),
{
    if k < s.len() {
        let t = s.drop_last();
        assert(all_digits(t)) by {
            assert forall|i: int| 0 <= i < t.len() implies #[trigger] is_digit(t[i]) by {
                assert(t[i] == s[i]);
            }
        }
        lemma_digits_value_prefix(t, k);
        assert(t.take(k) =~= s.take(k));
        assert(is_digit(s[s.len() - 1]));
    } else {
        assert(s.take(k) =~= s);
    }
}

/// Parses a `u32` as std's `str::parse::<u32>` does.
pub fn parse_u32(s: &str) -> (r: Option<u32>)
    ensures
        r == parsed_u32(s@),
{
    let n = s.unicode_len();
    let mut start: usize = 0;
    if n > 0 && s.get_char(0) == '+' {
        start = 1;
    }
    let ghost body = unsigned_body(s@);
    assert(body =~= s@.subrange(start as int, n as int));
    if start >= n {
        return None;
    }
    let mut acc: u64 = 0;
    let mut i: usize = start;
    while i < n
        invariant
            n == s@.len(),
            start <= i <= n,
            body == s@.subrange(start as int, n as int),
            body == unsigned_body(s@),
            all_digits(body.take(i - start)),
            acc == digits_value(body.take(i - start)),
            acc <= u32::MAX,
        decreases n - i,
    {
        let c = s.get_char(i);
        let ghost j: int = i - start;
        if !('0' <= c && c <= '9') {
            assert(body[j] == c);
            assert(!is_digit(body[j]));
            assert(!all_digits(body));
            return None;
        }
        let d: u64 = (c as u32 - 48) as u64;
        let next: u64 = acc * 10 + d;
        proof {
            let t = body.take(j + 1);
            assert(t.drop_last() =~= body.take(j));
            assert(t.last() == c);
            assert(all_digits(t)) by {
                assert forall|k: int| 0 <= k < t.len() implies #[trigger] is_digit(t[k]) by {
                    if k < j {
                        assert(t[k] == body.take(j)[k]);
                    }
                }
            }
        }
        if next > u32::MAX as u64 {
            proof {
                if all_digits(body) {
                    lemma_digits_value_prefix(body, j + 1);
                }
            }
            return None;
        }
        acc = next;
        i = i + 1;
    }
    assert(body.take(n - start) =~= body);
    Some(acc as u32)
}


/// The decimal representation of a `u32` reads back as that `u32`:
/// `parse_u32` undoes `push_decimal`.
pub proof fn lemma_decimal_parses_back(n: u32)
    ensures
        parsed_u32(decimal(n as nat)) == Some(n),
{
    lemma_decimal_digits(n as nat);
    assert(unsigned_body(decimal(n as nat)) == decimal(n as nat)) by {
        assert(is_digit(decimal(n as nat)[0]));
    }
}

proof fn lemma_decimal_digits(n: nat)
    ensures
        decimal(n).len() > 0,
        all_digits(decimal(n)),
        digits_value(decimal(n)) == n,
    decreases n,
{
    assert(digit_char((n % 10) as int) as int == 48 + n % 10);
    if n < 10 {
        let d = decimal(n);
        assert(d.drop_last() =~= Seq::<char>::empty());
        assert(digits_value(d) == digits_value(d.drop_last()) * 10 + (d.last() as int - 48));
    }
    if n >= 10 {
        lemma_decimal_digits(n / 10);
        let d = decimal(n);
        let p = decimal(n / 10);
        assert(d.drop_last() =~= p);
        assert(d.last() == digit_char((n % 10) as int));
        assert(digits_value(d) == digits_value(p) * 10 + (n % 10));
        assert((n / 10) * 10 + n % 10 == n);
        assert forall|i: int| 0 <= i < d.len() implies #[trigger] is_digit(d[i]) by {
            if i < p.len() {
                assert(d[i] == p[i]);
            }
        }
    }
}

/// The lowercase hexadecimal character of a nibble `d` (`0 <= d < 16`).
pub open spec fn hex_digit(d: int) -> char {
    if d < 10 {
        (48 + d) as char
    } else {
        (87 + d) as char
    }
}

/// The two lowercase hexadecimal characters of a byte, high nibble first.
pub open spec fn hex_byte(b: u8) -> Seq<char> {
    seq![hex_digit(b as int / 16), hex_digit(b as int % 16)]
}

/// The lowercase hexadecimal text of `bytes`, two characters per byte.
pub open spec fn simple_hex(bytes: Seq<u8>) -> Seq<char>
    decreases bytes.len(),
{
    if bytes.len() == 0 {
        Seq::empty()
    } else {
        simple_hex(bytes.drop_last()) + hex_byte(bytes.last())
    }
}

/// `c` is a lowercase hexadecimal digit.
pub open spec fn is_lower_hex(c: char) -> bool {
    ('0' <= c && c <= '9') || ('a' <= c && c <= 'f')
}

/// `s` with every occurrence of `c` removed.
pub open spec fn without_char(s: Seq<char>, c: char) -> Seq<char>
    decreases s.len(),
{
    if s.len() == 0 {
        Seq::empty()
    } else if s.last() == c {
        without_char(s.drop_last(), c)
    } else {
        without_char(s.drop_last(), c).push(s.last())
    }
}

/// Removing a character commutes with concatenation.
pub proof fn lemma_without_char_concat(a: Seq<char>, b: Seq<char>, c: char)
    ensures
        without_char(a + b, c) == without_char(a, c) + without_char(b, c),
    decreases b.len(),
{
    if b.len() == 0 {
        assert(a + b =~= a);
        assert(without_char(a, c) + without_char(b, c) =~= without_char(a, c));
    } else {
        lemma_without_char_concat(a, b.drop_last(), c);
        assert((a + b).drop_last() =~= a + b.drop_last());
        assert((a + b).last() == b.last());
        if b.last() != c {
            assert(without_char(a, c) + without_char(b, c) =~= (without_char(a, c)
                + without_char(b.drop_last(), c)).push(b.last()));
        }
    }
}

/// The hexadecimal text of concatenated bytes is the concatenation of
/// their texts.
pub proof fn lemma_simple_hex_concat(a: Seq<u8>, b: Seq<u8>)
    ensures
        simple_hex(a + b) == simple_hex(a) + simple_hex(b),
    decreases b.len(),
{
    if b.len() == 0 {
        assert(a + b =~= a);
        assert(simple_hex(a) + simple_hex(b) =~= simple_hex(a));
    } else {
        lemma_simple_hex_concat(a, b.drop_last());
        assert((a + b).drop_last() =~= a + b.drop_last());
        assert((a + b).last() == b.last());
        assert(simple_hex(a) + simple_hex(b) =~= simple_hex(a) + simple_hex(b.drop_last())
            + hex_byte(b.last()));
    }
}

/// Hexadecimal text has two lowercase hexadecimal characters per byte.
pub proof fn lemma_simple_hex_shape(bytes: Seq<u8>)
    ensures
        simple_hex(bytes).len() == 2 * bytes.len(),
        forall|i: int| 0 <= i < simple_hex(bytes).len() ==> #[trigger] is_lower_hex(simple_hex(bytes)[i]),
        without_char(simple_hex(bytes), '-') == simple_hex(bytes),
    decreases bytes.len(),
{
    if bytes.len() > 0 {
        let p = bytes.drop_last();
        lemma_simple_hex_shape(p);
        let hb = hex_byte(bytes.last());
        let b = bytes.last();
        assert(is_lower_hex(hb[0]) && is_lower_hex(hb[1]));
        let s = simple_hex(bytes);
        assert(s == simple_hex(p) + hb);
        assert forall|i: int| 0 <= i < s.len() implies #[trigger] is_lower_hex(s[i]) by {
            if i < simple_hex(p).len() {
                assert(s[i] == simple_hex(p)[i]);
            } else {
                assert(s[i] == hb[i - simple_hex(p).len()]);
            }
        }
        lemma_without_char_concat(simple_hex(p), hb, '-');
        assert(hex_digit(b as int / 16) as int >= 48);
        assert(hex_digit(b as int % 16) as int >= 48);
        assert(hb.drop_last().drop_last() =~= Seq::<char>::empty());
        let h0 = hb.drop_last();
        assert(h0 =~= seq![hb[0]]);
        assert(h0.drop_last() =~= Seq::<char>::empty());
        assert(without_char(h0.drop_last(), '-') =~= Seq::<char>::empty());
        assert(without_char(h0, '-') =~= h0);
        assert(without_char(hb, '-') =~= hb);
    }
}

/// Copies `s` without the occurrences of `c` (std's `str::replace` of the
/// one-character pattern `c` by the empty string).
pub fn remove_char(s: &str, c: char) -> (r: String)
    ensures
        r@ == without_char(s@, c),
{
    let n = s.unicode_len();
    let mut r = String::new();
    let mut i: usize = 0;
    while i < n
        invariant
            n == s@.len(),
            i <= n,
            r@ == without_char(s@.take(i as int), c),
        decreases n - i,
    {
        let x = s.get_char(i);
        proof {
            assert(s@.take(i + 1).drop_last() =~= s@.take(i as int));
        }
        if x != c {
            push_char(&mut r, x);
        }
        i = i + 1;
    }
    assert(s@.take(n as int) =~= s@);
    r
}


/// Where each byte's characters stand in its hexadecimal text.
pub proof fn lemma_simple_hex_index(bytes: Seq<u8>, k: int)
    requires
        0 <= k < bytes.len(),
    ensures
        simple_hex(bytes).len() == 2 * bytes.len(),
        simple_hex(bytes)[2 * k] == hex_digit(bytes[k] as int / 16),
        simple_hex(bytes)[2 * k + 1] == hex_digit(bytes[k] as int % 16),
    decreases bytes.len(),
{
    lemma_simple_hex_shape(bytes);
    let p = bytes.drop_last();
    lemma_simple_hex_shape(p);
    if k < bytes.len() - 1 {
        lemma_simple_hex_index(p, k);
    }
}


proof fn lemma_hex_digit_injective(d1: int, d2: int)
    requires
        0 <= d1 < 16,
        0 <= d2 < 16,
        hex_digit(d1) == hex_digit(d2),
    ensures
        d1 == d2,
{
    assert(hex_digit(d1) as int == if d1 < 10 { 48 + d1 } else { 87 + d1 });
    assert(hex_digit(d2) as int == if d2 < 10 { 48 + d2 } else { 87 + d2 });
}

/// Different bytes of the same length have different hexadecimal texts.
pub proof fn lemma_simple_hex_injective(a: Seq<u8>, b: Seq<u8>)
    requires
        a.len() == b.len(),
        simple_hex(a) == simple_hex(b),
    ensures
        a == b,
{
    assert forall|k: int| 0 <= k < a.len() implies a[k] == b[k] by {
        lemma_simple_hex_index(a, k);
        lemma_simple_hex_index(b, k);
        lemma_hex_digit_injective(a[k] as int / 16, b[k] as int / 16);
        lemma_hex_digit_injective(a[k] as int % 16, b[k] as int % 16);
    }
    assert(a =~= b);
}

} // verus!
