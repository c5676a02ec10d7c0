//! Canonical text: decimal numbers, JSON string literals, and the digest taken
//! over the text of a record.

use vstd::prelude::*;
use vstd::string::*;

verus! {

/// The JSON string literal for `text`, as `serde_json` writes it: the text between
/// double quotes, with quotes, backslashes and control characters escaped.
pub uninterp spec fn json_string(text: Seq<char>) -> Seq<char>;

/// The SHA-256 digest of the UTF-8 bytes of `text`, in lowercase hexadecimal.
pub uninterp spec fn sha256_hex(text: Seq<char>) -> Seq<char>;

/// The character of one decimal digit.
pub open spec fn digit(d: nat) -> char {
    if d == 0 {
        '0'
    } else if d == 1 {
        '1'
    } else if d == 2 {
        '2'
    } else if d == 3 {
        '3'
    } else if d == 4 {
        '4'
    } else if d == 5 {
        '5'
    } else if d == 6 {
        '6'
    } else if d == 7 {
        '7'
    } else if d == 8 {
        '8'
    } else {
        '9'
    }
}

/// The decimal numeral of `n`, without leading zeros.
pub open spec fn decimal(n: nat) -> Seq<char>
    decreases n,
{
    if n < 10 {
        seq![digit(n)]
    } else {
        decimal(n / 10).push(digit(n % 10))
    }
}

/// The decimal numeral of `i`, with a minus sign in front where `i` is negative.
pub open spec fn signed_decimal(i: int) -> Seq<char> {
    if i < 0 {
        seq!['-'] + decimal((-i) as nat)
    } else {
        decimal(i as nat)
    }
}

/// `text` ends with `suffix`.
pub open spec fn ends_with(text: Seq<char>, suffix: Seq<char>) -> bool {
    suffix.len() <= text.len() && text.subrange(text.len() - suffix.len(), text.len() as int)
        == suffix
}

/// `text` starts with `prefix`.
pub open spec fn starts_with(text: Seq<char>, prefix: Seq<char>) -> bool {
    prefix.len() <= text.len() && text.subrange(0, prefix.len() as int) == prefix
}

/// `text` with every occurrence of `pattern` replaced by `with`, as `str::replace`
/// does it: the occurrences are found from the left and do not overlap.
pub uninterp spec fn replaced(text: Seq<char>, pattern: Seq<char>, with: Seq<char>) -> Seq<char>;

/// Wraps `str::replace` of the standard library: the result is a function of the
/// three texts alone; which text it is, is left to `replaced`.
#[verifier::external_body]
pub(crate) fn replace(text: &str, pattern: &str, with: &str) -> (result: String)
    ensures
        result@ == replaced(text@, pattern@, with@),
{
    text.replace(pattern, with)
}

/// Wraps `serde_json::to_string` at a string slice. For a string the serializer
/// writes into a byte vector and has no failing path, so the result is always the
/// JSON literal of the argument; which literal that is, is left to `json_string`.
#[verifier::external_body]
pub(crate) fn quote(text: &str) -> (literal: String)
    ensures
        literal@ == json_string(text@),
{
    match serde_json::to_string(text) {
        Ok(literal) => literal,
        Err(_) => String::new(),
    }
}

/// Wraps `sha256::digest` at a string slice: the result is the hexadecimal SHA-256
/// digest of the argument's bytes, a function of the text alone.
#[verifier::external_body]
pub(crate) fn sha256(text: &str) -> (hex: String)
    ensures
        hex@ == sha256_hex(text@),
{
    sha256::digest(text)
}

fn digit_text(d: u64) -> (text: &'static str)
    requires
        d < 10,
    ensures
        text@ == seq![digit(d as nat)],
{
    proof {
        reveal_strlit("0");
        reveal_strlit("1");
        reveal_strlit("2");
        reveal_strlit("3");
        reveal_strlit("4");
        reveal_strlit("5");
        reveal_strlit("6");
        reveal_strlit("7");
        reveal_strlit("8");
        reveal_strlit("9");
    }
    let text = if d == 0 {
        "0"
    } else if d == 1 {
        "1"
    } else if d == 2 {
        "2"
    } else if d == 3 {
        "3"
    } else if d == 4 {
        "4"
    } else if d == 5 {
        "5"
    } else if d == 6 {
        "6"
    } else if d == 7 {
        "7"
    } else if d == 8 {
        "8"
    } else {
        "9"
    };
    assert(text@ =~= seq![digit(d as nat)]);
    text
}

/// Appends the decimal numeral of `n` to `out`.
pub fn append_decimal(out: &mut String, n: u64)
    ensures
        final(out)@ == old(out)@ + decimal(n as nat),
{
    append_wide_decimal(out, n as u128);
}

/// Appends the decimal numeral of a number of up to 128 bits to `out`.
pub fn append_wide_decimal(out: &mut String, n: u128)
    ensures
        final(out)@ == old(out)@ + decimal(n as nat),
    decreases n,
{
    if n >= 10 {
        append_wide_decimal(out, n / 10);
    }
    out.append(digit_text((n % 10) as u64));
    assert(out@ =~= old(out)@ + decimal(n as nat));
}

/// Appends the decimal numeral of `i`, signed, to `out`.
pub fn append_signed_decimal(out: &mut String, i: i64)
    ensures
        final(out)@ == old(out)@ + signed_decimal(i as int),
{
    if i < 0 {
        out.append("-");
        proof {
            reveal_strlit("-");
        }
        let magnitude: u64 = ((-(i + 1)) as u64) + 1;
        append_decimal(out, magnitude);
        assert(out@ =~= old(out)@ + signed_decimal(i as int));
    } else {
        append_decimal(out, i as u64);
    }
}

/// Whether `text` starts with `prefix`.
pub fn text_starts_with(text: &str, prefix: &str) -> (found: bool)
    ensures
        found == starts_with(text@, prefix@),
{
    let n: usize = text.unicode_len();
    let m: usize = prefix.unicode_len();
    if m > n {
        return false;
    }
    let mut k: usize = 0;
    while k < m
        invariant
            m <= n,
            n == text@.len(),
            m == prefix@.len(),
            k <= m,
            forall|j: int| 0 <= j < k ==> text@[j] == prefix@[j],
        decreases m - k,
    {
        if text.get_char(k) != prefix.get_char(k) {
            assert(text@.subrange(0, m as int)[k as int] != prefix@[k as int]);
            return false;
        }
        k = k + 1;
    }
    assert(text@.subrange(0, m as int) =~= prefix@);
    true
}

/// Whether `text` ends with `suffix`.
pub fn text_ends_with(text: &str, suffix: &str) -> (found: bool)
    ensures
        found == ends_with(text@, suffix@),
{
    let n: usize = text.unicode_len();
    let m: usize = suffix.unicode_len();
    if m > n {
        return false;
    }
    let mut k: usize = 0;
    while k < m
        invariant
            m <= n,
            n == text@.len(),
            m == suffix@.len(),
            k <= m,
            forall|j: int| 0 <= j < k ==> text@[n - m + j] == suffix@[j],
        decreases m - k,
    {
        if text.get_char(n - m + k) != suffix.get_char(k) {
            assert(text@.subrange(n - m, n as int)[k as int] != suffix@[k as int]);
            return false;
        }
        k = k + 1;
    }
    assert(text@.subrange(n - m, n as int) =~= suffix@);
    true
}

/// The items of a JSON array, separated by commas.
pub open spec fn join(items: Seq<Seq<char>>) -> Seq<char>
    decreases items.len(),
{
    if items.len() == 0 {
        Seq::empty()
    } else if items.len() == 1 {
        items[0]
    } else {
        join(items.drop_last()) + seq![','] + items.last()
    }
}

/// The JSON array that holds `items`, each already written as JSON.
pub open spec fn array_json(items: Seq<Seq<char>>) -> Seq<char> {
    seq!['['] + join(items) + seq![']']
}

/// The JSON text of an optional string: the literal, or `null`.
pub open spec fn optional_string_json(text: Option<Seq<char>>) -> Seq<char> {
    match text {
        Some(t) => json_string(t),
        None => seq!['n', 'u', 'l', 'l'],
    }
}

/// A value with a canonical text, the one that digests are taken over.
pub trait Canonical {
    /// The canonical text of the value.
    spec fn canonical(&self) -> Seq<char>;

    /// Appends the canonical text of the value to `out`.
    fn append_json(&self, out: &mut String)
        ensures
            final(out)@ == old(out)@ + self.canonical(),
    ;
}

/// The canonical texts of the items of a sequence, in order.
pub open spec fn canonical_texts<T: Canonical>(items: Seq<T>) -> Seq<Seq<char>> {
    items.map_values(|item: T| item.canonical())
}

impl Canonical for String {
    open spec fn canonical(&self) -> Seq<char> {
        json_string(self@)
    }

    fn append_json(&self, out: &mut String) {
        let literal = quote(self.as_str());
        out.append(literal.as_str());
    }
}

impl Canonical for Option<String> {
    open spec fn canonical(&self) -> Seq<char> {
        optional_string_json(self.deep_view())
    }

    fn append_json(&self, out: &mut String) {
        match self {
            Some(text) => {
                text.append_json(out);
            },
            None => {
                proof {
                    reveal_strlit("null");
                }
                out.append("null");
                assert("null"@ =~= seq!['n', 'u', 'l', 'l']);
            },
        }
    }
}

/// Appends the JSON array of `items` to `out`.
pub fn append_array<T: Canonical>(out: &mut String, items: &Vec<T>)
    ensures
        final(out)@ == old(out)@ + array_json(canonical_texts(items@)),
{
    proof {
        reveal_strlit("[");
        reveal_strlit("]");
        reveal_strlit(",");
    }
    let ghost texts = canonical_texts(items@);
    out.append("[");
    let mut i: usize = 0;
    while i < items.len()
        invariant
            i <= items.len(),
            texts == canonical_texts(items@),
            "["@ == seq!['['],
            ","@ == seq![','],
            out@ == old(out)@ + seq!['['] + join(texts.take(i as int)),
        decreases items.len() - i,
    {
        let ghost before = out@;
        if i > 0 {
            out.append(",");
        }
        items[i].append_json(out);
        proof {
            let next = texts.take(i as int + 1);
            assert(next.drop_last() =~= texts.take(i as int));
            assert(next.last() == items@[i as int].canonical());
            if i == 0 {
                assert(join(texts.take(0)) =~= Seq::<char>::empty());
                assert(out@ =~= before + join(next));
            } else {
                assert(out@ =~= old(out)@ + seq!['['] + join(next));
            }
        }
        i = i + 1;
    }
    assert(texts.take(i as int) =~= texts);
    out.append("]");
    assert(out@ =~= old(out)@ + array_json(texts));
}

} // verus!
