//! Text helpers: suffix stripping, decimal numbers and string building.

use vstd::prelude::*;
use vstd::utf8::encode_utf8;

verus! {

/// The text `s` without the suffix `suffix`, when `s` ends with it.
pub open spec fn strip_suffix_spec(s: Seq<char>, suffix: Seq<char>) -> Option<Seq<char>> {
    if suffix.len() <= s.len() && s.subrange(s.len() - suffix.len(), s.len() as int) == suffix {
        Some(s.subrange(0, s.len() - suffix.len()))
    } else {
        None
    }
}

/// Does `s` end with `suffix`?
pub fn ends_with(s: &str, suffix: &str) -> (res: bool)
    ensures
        res == strip_suffix_spec(s@, suffix@) is Some,
{
    let n = s.unicode_len();
    let m = suffix.unicode_len();
    if m > n {
        return false;
    }
    let offset = n - m;
    let mut i: usize = 0;
    while i < m
        invariant
            n == s@.len(),
            m == suffix@.len(),
            m <= n,
            offset == n - m,
            i <= m,
            forall|j: int| 0 <= j < i ==> s@[offset + j] == suffix@[j],
        decreases m - i,
    {
        if s.get_char(offset + i) != suffix.get_char(i) {
            assert(s@.subrange(offset as int, n as int)[i as int] != suffix@[i as int]);
            return false;
        }
        i = i + 1;
    }
    assert(s@.subrange(offset as int, n as int) =~= suffix@);
    true
}

/// The text `s` without the suffix `suffix`, or `None` when `s` does not end with it.
pub fn strip_suffix(s: &str, suffix: &str) -> (res: Option<String>)
    ensures
        match res {
            Some(r) => strip_suffix_spec(s@, suffix@) == Some(r@),
            None => strip_suffix_spec(s@, suffix@) is None,
        },
{
    if ends_with(s, suffix) {
        let n = s.unicode_len();
        let m = suffix.unicode_len();
        let stripped = s.substring_char(0, n - m);
        Some(stripped.to_owned())
    } else {
        None
    }
}

/// The character of a decimal digit below ten.
pub open spec fn digit_char(d: nat) -> char {
    seq!['0', '1', '2', '3', '4', '5', '6', '7', '8', '9'][d as int]
}

/// The decimal representation of `n`, with no leading zeros.
pub open spec fn decimal_digits(n: nat) -> Seq<char>
    decreases n,
{
    if n < 10 {
        seq![digit_char(n)]
    } else {
        decimal_digits(n / 10).push(digit_char(n % 10))
    }
}

/// The text of one decimal digit.
fn digit_str(d: usize) -> (res: &'static str)
    requires
        d < 10,
    ensures
        res@ == seq![digit_char(d as nat)],
{
    proof {
        reveal_strlit("0");
        reveal_strlit("1");
        reveal_strlit("2");
        reveal_strlit("3");
        reveal_strlit("4");
        reveal_strlit("5");
        reveal_strlit("6");
        reveal_strlit("7");
        reveal_strlit("8");
        reveal_strlit("9");
    }
    let res = match d {
        0 => "0",
        1 => "1",
        2 => "2",
        3 => "3",
        4 => "4",
        5 => "5",
        6 => "6",
        7 => "7",
        8 => "8",
        _ => "9",
    };
    assert(res@ =~= seq![digit_char(d as nat)]);
    res
}

/// The decimal representation of a count.
pub fn decimal_string(n: usize) -> (res: String)
    ensures
        res@ == decimal_digits(n as nat),
{
    if n == 0 {
        let res = digit_str(0).to_owned();
        return res;
    }
    let mut rest: usize = n;
    let mut acc = String::new();
    while rest > 0
        invariant
            n > 0,
            decimal_digits(n as nat) == (if rest == 0 {
                Seq::<char>::empty()
            } else {
                decimal_digits(rest as nat)
            }) + acc@,
        decreases rest,
    {
        let d = rest % 10;
        let ghost before = rest;
        let ghost old_acc = acc@;
        acc = prefixed(digit_str(d), acc.as_str());
        rest = rest / 10;
        proof {
            if before < 10 {
                assert(decimal_digits(before as nat) == seq![digit_char(d as nat)]);
            } else {
                assert(decimal_digits(before as nat) == decimal_digits(rest as nat).push(digit_char(d as nat)));
            }
            assert(decimal_digits(before as nat) + old_acc =~= (if rest == 0 {
                Seq::<char>::empty()
            } else {
                decimal_digits(rest as nat)
            }) + acc@);
        }
    }
    assert(decimal_digits(n as nat) =~= acc@);
    acc
}

/// What std's `str::to_lowercase` makes of a text (Unicode lower-case mapping).
pub uninterp spec fn lowercase_of(s: Seq<char>) -> Seq<char>;

/// Calls std's `str::to_lowercase`; the contract claims only that the result is
/// a function of the text, named `lowercase_of`.
#[verifier::external_body]
pub(crate) fn to_lowercase(s: &str) -> (res: String)
    ensures
        res@ == lowercase_of(s@),
{
    s.to_lowercase()
}

/// Lexicographic order on bytes: a prefix comes first, otherwise the first
/// differing byte decides.
pub open spec fn bytes_le(a: Seq<u8>, b: Seq<u8>) -> bool
    decreases a.len(),
{
    if a.len() == 0 {
        true
    } else if b.len() == 0 {
        false
    } else if a[0] != b[0] {
        a[0] < b[0]
    } else {
        bytes_le(a.drop_first(), b.drop_first())
    }
}

/// The order of `String`: lexicographic on the UTF-8 bytes.
pub open spec fn text_le(a: Seq<char>, b: Seq<char>) -> bool {
    bytes_le(encode_utf8(a), encode_utf8(b))
}

/// `prefix` followed by `s`.
pub(crate) fn prefixed(prefix: &str, s: &str) -> (res: String)
    ensures
        res@ == prefix@ + s@,
{
    prefix.to_owned().concat(s)
}

/// `s` followed by `suffix`.
pub(crate) fn suffixed(s: &str, suffix: &str) -> (res: String)
    ensures
        res@ == s@ + suffix@,
{
    s.to_owned().concat(suffix)
}

/// The byte order is antisymmetric: two byte strings that each come first are equal.
pub proof fn lemma_bytes_le_antisymmetric(a: Seq<u8>, b: Seq<u8>)
    requires
        bytes_le(a, b),
        bytes_le(b, a),
    ensures
        a == b,
    decreases a.len(),
{
    if a.len() > 0 && b.len() > 0 {
        lemma_bytes_le_antisymmetric(a.drop_first(), b.drop_first());
        assert(a =~= seq![a[0]] + a.drop_first());
        assert(b =~= seq![b[0]] + b.drop_first());
    }
}

/// The text order is antisymmetric: two texts that each come first are equal.
pub proof fn lemma_text_le_antisymmetric(a: Seq<char>, b: Seq<char>)
    requires
        text_le(a, b),
        text_le(b, a),
    ensures
        a == b,
{
    lemma_bytes_le_antisymmetric(encode_utf8(a), encode_utf8(b));
    vstd::utf8::encode_utf8_decode_utf8(a);
    vstd::utf8::encode_utf8_decode_utf8(b);
}

} // verus!
