//! A service that collects traces of SQL statements (which statement ran,
//! where, how long, and which places in the code led to it) and stores
//! them in MySQL. This crate holds the service's logic with its proofs:
//! settings from the environment, the preparation of reported traces into
//! table rows, the uuids that tie them together, the validation of the rows
//! and the bodies of error responses.
pub mod config;
pub mod models;
pub mod services;
pub mod text;

use vstd::prelude::*;
use crate::models::opt_view;
use crate::text::{
    decimal, push_decimal, hex_digit, is_lower_hex, lemma_simple_hex_concat, lemma_simple_hex_index,
    lemma_simple_hex_injective, lemma_simple_hex_shape, lemma_without_char_concat, remove_char,
    simple_hex, without_char,
};
use crate::services::trace::texts;

verus! {

/// The canonical text of a UUID: its 16 bytes as lowercase hexadecimal in
/// groups of 8-4-4-4-12 characters separated by hyphens.
pub open spec fn hyphenated(bytes: Seq<u8>) -> Seq<char> {
    simple_hex(bytes.subrange(0, 4)) + seq!['-'] + simple_hex(bytes.subrange(4, 6)) + seq!['-']
        + simple_hex(bytes.subrange(6, 8)) + seq!['-'] + simple_hex(bytes.subrange(8, 10))
        + seq!['-'] + simple_hex(bytes.subrange(10, 16))
}

/// The bytes of a random (version 4, RFC 4122 variant) UUID: the high
/// nibble of byte 6 is 4 and the two high bits of byte 8 are `10`.
pub open spec fn is_v4_uuid_bytes(bytes: Seq<u8>) -> bool {
    &&& bytes.len() == 16
    &&& bytes[6] as int / 16 == 4
    &&& bytes[8] as int / 64 == 2
}

/// The 32-character text of a random UUID, without hyphens.
pub open spec fn is_v4_uuid_text(s: Seq<char>) -> bool {
    &&& s.len() == 32
    &&& forall|i: int| 0 <= i < 32 ==> #[trigger] is_lower_hex(s[i])
    &&& s[12] == '4'
    &&& (s[16] == '8' || s[16] == '9' || s[16] == 'a' || s[16] == 'b')
}

/// `uuid::Uuid::new_v4()`, handed out as its 16 bytes. The uuid crate draws
/// the bytes at random and then sets the version nibble to 4 and the
/// variant bits to `10`; nothing else is claimed of them.
#[verifier::external_body]
fn new_v4_bytes() -> (bytes: [u8; 16])
    ensures
        is_v4_uuid_bytes(bytes@),
{
    uuid::Uuid::new_v4().into_bytes()
}

/// `to_string()` of `uuid::Uuid::from_bytes(bytes)`: the uuid crate's
/// `Display` writes the hyphenated lowercase form of the bytes.
#[verifier::external_body]
fn uuid_to_string(bytes: [u8; 16]) -> (s: String)
    ensures
        s@ == hyphenated(bytes@),
{
    uuid::Uuid::from_bytes(bytes).to_string()
}

/// Removing the hyphens from a UUID's canonical text leaves the plain
/// hexadecimal text of its bytes.
pub proof fn lemma_hyphens_removed(bytes: Seq<u8>)
    requires
        bytes.len() == 16,
    ensures
        without_char(hyphenated(bytes), '-') == simple_hex(bytes),
{
    let g0 = bytes.subrange(0, 4);
    let g1 = bytes.subrange(4, 6);
    let g2 = bytes.subrange(6, 8);
    let g3 = bytes.subrange(8, 10);
    let g4 = bytes.subrange(10, 16);
    let dash = seq!['-'];
    assert(without_char(dash, '-') =~= Seq::<char>::empty()) by {
        assert(dash.drop_last() =~= Seq::<char>::empty());
        assert(dash.last() == '-');
        assert(without_char(dash.drop_last(), '-') =~= Seq::<char>::empty());
    }
    lemma_simple_hex_shape(g0);
    lemma_simple_hex_shape(g1);
    lemma_simple_hex_shape(g2);
    lemma_simple_hex_shape(g3);
    lemma_simple_hex_shape(g4);
    let h0 = simple_hex(g0);
    let h1 = simple_hex(g1);
    let h2 = simple_hex(g2);
    let h3 = simple_hex(g3);
    let h4 = simple_hex(g4);
    lemma_without_char_concat(h0, dash, '-');
    lemma_without_char_concat(h0 + dash, h1, '-');
    lemma_without_char_concat(h0 + dash + h1, dash, '-');
    lemma_without_char_concat(h0 + dash + h1 + dash, h2, '-');
    lemma_without_char_concat(h0 + dash + h1 + dash + h2, dash, '-');
    lemma_without_char_concat(h0 + dash + h1 + dash + h2 + dash, h3, '-');
    lemma_without_char_concat(h0 + dash + h1 + dash + h2 + dash + h3, dash, '-');
    lemma_without_char_concat(h0 + dash + h1 + dash + h2 + dash + h3 + dash, h4, '-');
    assert(without_char(hyphenated(bytes), '-') =~= h0 + h1 + h2 + h3 + h4);
    lemma_simple_hex_concat(g0, g1);
    lemma_simple_hex_concat(g0 + g1, g2);
    lemma_simple_hex_concat(g0 + g1 + g2, g3);
    lemma_simple_hex_concat(g0 + g1 + g2 + g3, g4);
    assert(g0 + g1 + g2 + g3 + g4 =~= bytes);
}

/// The text of the UUID with these bytes, as `gen_uuid` writes it: its
/// canonical form with the hyphens removed, i.e. 32 lowercase hexadecimal
/// characters.
pub fn uuid_simple(bytes: [u8; 16]) -> (s: String)
    ensures
        s@ == simple_hex(bytes@),
{
    let text = uuid_to_string(bytes);
    let s = remove_char(text.as_str(), '-');
    proof {
        lemma_hyphens_removed(bytes@);
    }
    s
}

/// A fresh random UUID as 32 lowercase hexadecimal characters without
/// hyphens.
pub fn gen_uuid() -> (s: String)
    ensures
        exists|bytes: Seq<u8>| is_v4_uuid_bytes(bytes) && s@ == simple_hex(bytes),
        is_v4_uuid_text(s@),
{
    let bytes = new_v4_bytes();
    let s = uuid_simple(bytes);
    proof {
        lemma_v4_text(bytes@);
    }
    s
}

/// The text of the bytes of a random UUID has the shape of a random UUID's
/// text.
proof fn lemma_v4_text(b: Seq<u8>)
    requires
        is_v4_uuid_bytes(b),
    ensures
        is_v4_uuid_text(simple_hex(b)),
{
    lemma_simple_hex_shape(b);
    lemma_simple_hex_index(b, 6);
    lemma_simple_hex_index(b, 8);
    assert(hex_digit(b[6] as int / 16) == '4');
    assert(8 <= b[8] as int / 16 <= 11);
}

/// The bytes of the `j`-th spare UUID: version 4, RFC 4122 variant, with
/// the eight bytes of `j` (most significant first) in bytes 0 to 3 and 9
/// to 12, and zeros elsewhere.
pub open spec fn spare_bytes(j: u64) -> Seq<u8> {
    seq![
        (j >> 56u64) as u8, (j >> 48u64) as u8, (j >> 40u64) as u8, (j >> 32u64) as u8,
        0u8, 0u8, 0x40u8, 0u8, 0x80u8,
        (j >> 24u64) as u8, (j >> 16u64) as u8, (j >> 8u64) as u8, j as u8,
        0u8, 0u8, 0u8,
    ]
}

proof fn lemma_spare_bytes_injective(a: u64, b: u64)
    requires
        spare_bytes(a) == spare_bytes(b),
    ensures
        a == b,
{
    let sa = spare_bytes(a);
    let sb = spare_bytes(b);
    assert(sa[0] == sb[0] && sa[1] == sb[1] && sa[2] == sb[2] && sa[3] == sb[3]);
    assert(sa[9] == sb[9] && sa[10] == sb[10] && sa[11] == sb[11] && sa[12] == sb[12]);
    assert(a == b) by (bit_vector)
        requires
            (a >> 56u64) as u8 == (b >> 56u64) as u8,
            (a >> 48u64) as u8 == (b >> 48u64) as u8,
            (a >> 40u64) as u8 == (b >> 40u64) as u8,
            (a >> 32u64) as u8 == (b >> 32u64) as u8,
            (a >> 24u64) as u8 == (b >> 24u64) as u8,
            (a >> 16u64) as u8 == (b >> 16u64) as u8,
            (a >> 8u64) as u8 == (b >> 8u64) as u8,
            a as u8 == b as u8,
    ;
}

/// The text of the `j`-th spare UUID.
pub open spec fn spare_uuid_text(j: u64) -> Seq<char> {
    simple_hex(spare_bytes(j))
}

/// The `j`-th spare UUID: a UUID text that no other index gives.
fn spare_uuid(j: u64) -> (s: String)
    ensures
        s@ == spare_uuid_text(j),
        is_v4_uuid_text(s@),
{
    let bytes: [u8; 16] = [
        (j >> 56u64) as u8, (j >> 48u64) as u8, (j >> 40u64) as u8, (j >> 32u64) as u8,
        0u8, 0u8, 0x40u8, 0u8, 0x80u8,
        (j >> 24u64) as u8, (j >> 16u64) as u8, (j >> 8u64) as u8, j as u8,
        0u8, 0u8, 0u8,
    ];
    assert(bytes@ =~= spare_bytes(j));
    let s = uuid_simple(bytes);
    proof {
        lemma_v4_text(bytes@);
    }
    s
}

/// Among the first `m + 1` spare UUIDs, one is not among `m` texts.
proof fn lemma_spare_not_taken(taken: Seq<Seq<char>>)
    requires
        taken.len() <= u64::MAX,
    ensures
        exists|j: int| 0 <= j <= taken.len() && !taken.contains(#[trigger] spare_uuid_text(j as u64)),
{
    if forall|j: int| 0 <= j <= taken.len() ==> taken.contains(#[trigger] spare_uuid_text(j as u64)) {
        // Then the first m + 1 spare UUIDs, all distinct, would fit among
        // at most m distinct texts.
        let m = taken.len();
        let cands = Seq::new((m + 1) as nat, |j: int| spare_uuid_text(j as u64));
        assert forall|a: int, b: int| 0 <= a < cands.len() && 0 <= b < cands.len() && a != b implies cands[a] != cands[b] by {
            if cands[a] == cands[b] {
                lemma_simple_hex_injective(spare_bytes(a as u64), spare_bytes(b as u64));
                lemma_spare_bytes_injective(a as u64, b as u64);
            }
        }
        assert(cands.no_duplicates());
        cands.unique_seq_to_set();
        taken.lemma_cardinality_of_set();
        assert forall|x: Seq<char>| cands.to_set().contains(x) implies taken.to_set().contains(x) by {
            let j = choose|j: int| 0 <= j < cands.len() && cands[j] == x;
            assert(taken.contains(spare_uuid_text(j as u64)));
        }
        vstd::seq_lib::seq_to_set_is_finite(taken);
        vstd::set_lib::lemma_len_subset(cands.to_set(), taken.to_set());
    }
}

/// `v` holds the text of `s`.
pub fn holds_text(v: &Vec<String>, s: &String) -> (r: bool)
    ensures
        r == texts(v@).contains(s@),
{
    let n = v.len();
    let mut i: usize = 0;
    while i < n
        invariant
            n == v@.len(),
            i <= n,
            forall|k: int| 0 <= k < i ==> texts(v@)[k] != s@,
        decreases n - i,
    {
        if v[i] == *s {
            assert(texts(v@)[i as int] == s@);
            return true;
        }
        i = i + 1;
    }
    false
}

/// A copy of `v` with `s` appended.
pub fn with_text(v: &Vec<String>, s: String) -> (r: Vec<String>)
    ensures
        texts(r@) == texts(v@).push(s@),
{
    let n = v.len();
    let mut r: Vec<String> = Vec::new();
    let mut i: usize = 0;
    while i < n
        invariant
            n == v@.len(),
            i <= n,
            texts(r@) == texts(v@).take(i as int),
        decreases n - i,
    {
        let ghost before = texts(r@);
        r.push(v[i].clone());
        assert(texts(r@) =~= before.push(v@[i as int]@));
        assert(texts(v@).take(i + 1) =~= texts(v@).take(i as int).push(v@[i as int]@));
        i = i + 1;
    }
    assert(texts(v@).take(n as int) =~= texts(v@));
    let ghost before = texts(r@);
    r.push(s);
    assert(texts(r@) =~= before.push(s@));
    r
}

/// A new random UUID text that `taken` does not hold. In the unlikely case
/// that the random one is taken, the first spare UUID that is not taken is
/// given instead.
pub fn fresh_uuid(taken: &Vec<String>) -> (s: String)
    ensures
        is_v4_uuid_text(s@),
        !texts(taken@).contains(s@),
{
    let s = gen_uuid();
    if !holds_text(taken, &s) {
        return s;
    }
    let m = taken.len();
    let mut k: usize = 0;
    loop
        invariant
            m == taken@.len(),
            k <= m,
            forall|j: int| 0 <= j < k ==> texts(taken@).contains(#[trigger] spare_uuid_text(j as u64)),
        decreases m - k,
    {
        let c = spare_uuid(k as u64);
        if !holds_text(taken, &c) {
            return c;
        }
        if k == m {
            proof {
                assert(texts(taken@).len() == m);
                assert forall|j: int| 0 <= j <= texts(taken@).len() implies texts(taken@).contains(
                    #[trigger] spare_uuid_text(j as u64),
                ) by {
                    if j == k {
                        assert(c@ == spare_uuid_text(j as u64));
                    }
                }
                lemma_spare_not_taken(texts(taken@));
            }
            return c;
        }
        k = k + 1;
    }
}

/// The reason phrase that the `http` crate (re-exported by actix-web) gives
/// the status `code`, where it has one.
pub uninterp spec fn canonical_reason_of(code: u16) -> Option<Seq<char>>;

/// actix-web's `http::StatusCode::from_u16(code)` and then its
/// `canonical_reason()`: the standard reason phrase of a status code, if the
/// code has one. The phrase table is named, not written out. `from_u16`
/// accepts exactly the codes 100 to 999, hence the precondition.
#[verifier::external_body]
fn canonical_reason(code: u16) -> (r: Option<String>)
    requires
        100 <= code < 1000,
    ensures
        opt_view(r) == canonical_reason_of(code),
{
    match actix_web::http::StatusCode::from_u16(code) {
        Ok(status) => match status.canonical_reason() {
            Some(reason) => Some(reason.to_string()),
            None => None,
        },
        Err(_) => None,
    }
}

/// The JSON body of an error response: `{"code":<code>,"message":"<reason>"}`,
/// the reason written as it is.
pub open spec fn error_body_text(code: u16, reason: Seq<char>) -> Seq<char> {
    "{\"code\":"@ + decimal(code as nat) + ",\"message\":\""@ + reason + "\"}"@
}

/// The body of an error response with status `code` and message `reason`.
pub fn error_body_with(code: u16, reason: &str) -> (s: String)
    ensures
        s@ == error_body_text(code, reason@),
{
    let mut s = "{\"code\":".to_owned();
    push_decimal(&mut s, code as u32);
    s.append(",\"message\":\"");
    s.append(reason);
    s.append("\"}");
    s
}

/// The body of an error response with status `code`: its message is the
/// status's standard reason phrase, or empty where it has none.
pub fn error_body(code: u16) -> (s: String)
    requires
        100 <= code < 1000,
    ensures
        s@ == error_body_text(
            code,
            match canonical_reason_of(code) {
                Some(r) => r,
                None => Seq::empty(),
            },
        ),
{
    match canonical_reason(code) {
        Some(reason) => error_body_with(code, reason.as_str()),
        None => {
            proof {
                reveal_strlit("");
            }
            assert(""@ =~= Seq::<char>::empty());
            error_body_with(code, "")
        },
    }
}

} // verus!
