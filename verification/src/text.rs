//! Comparison of strings by their UTF-8 bytes.

use vstd::prelude::*;
use vstd::string::{StringExecFns, StringSliceAdditionalSpecFns};
use vstd::utf8::{
    decode_utf8, encode_utf8, encode_utf8_decode_utf8, is_ascii_chars, is_ascii_chars_encode_utf8,
};

verus! {

/// Lexicographic "less than" on the parts of `a` and `b` that start at index
/// `from`; a proper prefix is less than what it is a prefix of.
pub open spec fn bytes_lt_from(a: Seq<u8>, b: Seq<u8>, from: int) -> bool
    decreases a.len() - from,
{
    if from < 0 || from >= b.len() {
        false
    } else if from >= a.len() {
        true
    } else if a[from] != b[from] {
        a[from] < b[from]
    } else {
        bytes_lt_from(a, b, from + 1)
    }
}

/// Byte-wise lexicographic "less than".
pub open spec fn bytes_lt(a: Seq<u8>, b: Seq<u8>) -> bool {
    bytes_lt_from(a, b, 0)
}

/// The order of object keys: byte-wise lexicographic on their UTF-8 encoding.
pub open spec fn key_lt(a: Seq<char>, b: Seq<char>) -> bool {
    bytes_lt(encode_utf8(a), encode_utf8(b))
}

/// `a` does not come after `b` in key order.
pub open spec fn key_le(a: Seq<char>, b: Seq<char>) -> bool {
    !key_lt(b, a)
}

/// No byte string is less than itself.
pub proof fn lemma_bytes_lt_irreflexive(a: Seq<u8>, from: int)
    ensures
        !bytes_lt_from(a, a, from),
    decreases a.len() - from,
{
    if 0 <= from < a.len() {
        lemma_bytes_lt_irreflexive(a, from + 1);
    }
}

/// The order of byte strings is transitive.
pub proof fn lemma_bytes_lt_transitive(a: Seq<u8>, b: Seq<u8>, c: Seq<u8>, from: int)
    requires
        bytes_lt_from(a, b, from),
        bytes_lt_from(b, c, from),
    ensures
        bytes_lt_from(a, c, from),
    decreases a.len() - from,
{
    if from < a.len() && a[from] == b[from] && b[from] == c[from] {
        lemma_bytes_lt_transitive(a, b, c, from + 1);
    }
}

/// Two byte strings of which neither is less than the other agree from
/// `from` on, if both reach that far.
pub proof fn lemma_bytes_lt_total(a: Seq<u8>, b: Seq<u8>, from: int)
    requires
        0 <= from <= a.len(),
        from <= b.len(),
        !bytes_lt_from(a, b, from),
        !bytes_lt_from(b, a, from),
    ensures
        a.len() == b.len(),
        forall|k: int| from <= k < a.len() ==> a[k] == b[k],
    decreases a.len() - from,
{
    if from < a.len() && from < b.len() {
        lemma_bytes_lt_total(a, b, from + 1);
    }
}

/// No key is less than itself.
pub proof fn lemma_key_lt_irreflexive(a: Seq<char>)
    ensures
        !key_lt(a, a),
{
    lemma_bytes_lt_irreflexive(encode_utf8(a), 0);
}

/// Key order is transitive.
pub proof fn lemma_key_lt_transitive(a: Seq<char>, b: Seq<char>, c: Seq<char>)
    requires
        key_lt(a, b),
        key_lt(b, c),
    ensures
        key_lt(a, c),
{
    lemma_bytes_lt_transitive(encode_utf8(a), encode_utf8(b), encode_utf8(c), 0);
}

/// Of two keys at most one is less than the other.
pub proof fn lemma_key_lt_asymmetric(a: Seq<char>, b: Seq<char>)
    requires
        key_lt(a, b),
    ensures
        !key_lt(b, a),
{
    if key_lt(b, a) {
        lemma_key_lt_transitive(a, b, a);
        lemma_key_lt_irreflexive(a);
    }
}

/// Strings with the same UTF-8 encoding are the same string.
pub proof fn lemma_encoding_injective(a: Seq<char>, b: Seq<char>)
    requires
        encode_utf8(a) == encode_utf8(b),
    ensures
        a == b,
{
    encode_utf8_decode_utf8(a);
    encode_utf8_decode_utf8(b);
    assert(decode_utf8(encode_utf8(a)) == decode_utf8(encode_utf8(b)));
}

/// Key order is total: two keys of which neither is less than the other are equal.
pub proof fn lemma_key_lt_total(a: Seq<char>, b: Seq<char>)
    requires
        !key_lt(a, b),
        !key_lt(b, a),
    ensures
        a == b,
{
    lemma_bytes_lt_total(encode_utf8(a), encode_utf8(b), 0);
    assert(encode_utf8(a) =~= encode_utf8(b));
    lemma_encoding_injective(a, b);
}

/// Byte strings that agree from `from` up to an index at which the first
/// holds the smaller byte are in order.
pub proof fn lemma_bytes_lt_at_difference(a: Seq<u8>, b: Seq<u8>, from: int, at: int)
    requires
        0 <= from <= at < a.len(),
        at < b.len(),
        forall|k: int| from <= k < at ==> a[k] == b[k],
        a[at] < b[at],
    ensures
        bytes_lt_from(a, b, from),
    decreases at - from,
{
    if from < at {
        lemma_bytes_lt_at_difference(a, b, from + 1, at);
    }
}

/// A byte string that ends where another goes on, and agrees with it from
/// `from` up to there, is the smaller one.
pub proof fn lemma_bytes_lt_prefix(a: Seq<u8>, b: Seq<u8>, from: int)
    requires
        0 <= from <= a.len() < b.len(),
        forall|k: int| from <= k < a.len() ==> a[k] == b[k],
    ensures
        bytes_lt_from(a, b, from),
    decreases a.len() - from,
{
    if from < a.len() {
        lemma_bytes_lt_prefix(a, b, from + 1);
    }
}

/// For keys of ASCII characters, key order is dictionary order: the key
/// with the smaller character at the first difference comes first.
pub proof fn lemma_ascii_key_lt_at_difference(a: Seq<char>, b: Seq<char>, at: int)
    requires
        is_ascii_chars(a),
        is_ascii_chars(b),
        0 <= at < a.len(),
        at < b.len(),
        forall|k: int| 0 <= k < at ==> a[k] == b[k],
        a[at] < b[at],
    ensures
        key_lt(a, b),
{
    is_ascii_chars_encode_utf8(a);
    is_ascii_chars_encode_utf8(b);
    let x = encode_utf8(a);
    let y = encode_utf8(b);
    assert forall|k: int| 0 <= k < at implies x[k] == y[k] by {
        assert(a[k] as u8 == x[k] && b[k] as u8 == y[k]);
    }
    assert(a[at] as u8 == x[at] && b[at] as u8 == y[at]);
    lemma_bytes_lt_at_difference(x, y, 0, at);
}

/// For keys of ASCII characters, a key comes before every key that it is a
/// proper prefix of.
pub proof fn lemma_ascii_key_lt_prefix(a: Seq<char>, b: Seq<char>)
    requires
        is_ascii_chars(a),
        is_ascii_chars(b),
        a.len() < b.len(),
        forall|k: int| 0 <= k < a.len() ==> a[k] == b[k],
    ensures
        key_lt(a, b),
{
    is_ascii_chars_encode_utf8(a);
    is_ascii_chars_encode_utf8(b);
    let x = encode_utf8(a);
    let y = encode_utf8(b);
    assert forall|k: int| 0 <= k < a.len() implies x[k] == y[k] by {
        assert(a[k] as u8 == x[k] && b[k] as u8 == y[k]);
    }
    lemma_bytes_lt_prefix(x, y, 0);
}

/// Whether two strings hold the same characters.
pub fn str_eq(a: &str, b: &str) -> (same: bool)
    ensures
        same == (a@ == b@),
{
    let x = a.as_bytes();
    let y = b.as_bytes();
    if x.len() != y.len() {
        return false;
    }
    let mut i: usize = 0;
    while i < x.len()
        invariant
            x.len() == y.len(),
            i <= x.len(),
            x@ == a.spec_bytes(),
            y@ == b.spec_bytes(),
            forall|k: int| 0 <= k < i ==> x@[k] == y@[k],
        decreases x.len() - i,
    {
        if x[i] != y[i] {
            return false;
        }
        i += 1;
    }
    proof {
        assert(x@ =~= y@);
        lemma_encoding_injective(a@, b@);
    }
    true
}

/// Whether `a` comes strictly before `b` in key order.
pub fn key_less(a: &str, b: &str) -> (less: bool)
    ensures
        less == key_lt(a@, b@),
{
    let x = a.as_bytes();
    let y = b.as_bytes();
    let mut i: usize = 0;
    while i < x.len() && i < y.len()
        invariant
            i <= x.len(),
            i <= y.len(),
            x@ == a.spec_bytes(),
            y@ == b.spec_bytes(),
            bytes_lt(x@, y@) == bytes_lt_from(x@, y@, i as int),
        decreases x.len() - i,
    {
        if x[i] != y[i] {
            return x[i] < y[i];
        }
        i += 1;
    }
    i < y.len()
}

/// The character of a decimal digit.
pub open spec fn digit_char(digit: nat) -> char {
    ((48 + digit) as u8) as char
}

/// The decimal text of a number, without sign and without leading zeros.
pub open spec fn decimal(n: nat) -> Seq<char>
    decreases n,
{
    if n < 10 {
        seq![digit_char(n)]
    } else {
        decimal(n / 10).push(digit_char(n % 10))
    }
}

fn digit_str(digit: u64) -> (text: &'static str)
    requires
        digit < 10,
    ensures
        text@ == seq![digit_char(digit as nat)],
{
    proof {
        reveal_strlit("0");
        reveal_strlit("1");
        reveal_strlit("2");
        reveal_strlit("3");
        reveal_strlit("4");
        reveal_strlit("5");
        reveal_strlit("6");
        reveal_strlit("7");
        reveal_strlit("8");
        reveal_strlit("9");
    }
    let text = if digit == 0 {
        "0"
    } else if digit == 1 {
        "1"
    } else if digit == 2 {
        "2"
    } else if digit == 3 {
        "3"
    } else if digit == 4 {
        "4"
    } else if digit == 5 {
        "5"
    } else if digit == 6 {
        "6"
    } else if digit == 7 {
        "7"
    } else if digit == 8 {
        "8"
    } else {
        "9"
    };
    assert(text@ =~= seq![digit_char(digit as nat)]);
    text
}

/// Writes a number in decimal.
pub fn decimal_text(n: u64) -> (text: String)
    ensures
        text@ == decimal(n as nat),
    decreases n,
{
    if n < 10 {
        digit_str(n).to_owned()
    } else {
        let text = decimal_text(n / 10).concat(digit_str(n % 10));
        assert(text@ =~= decimal((n / 10) as nat).push(digit_char((n % 10) as nat)));
        text
    }
}

} // verus!
