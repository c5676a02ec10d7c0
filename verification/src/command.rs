//! The command by which the node's user asks for a transfer.

use vstd::prelude::*;
use vstd::string::*;

verus! {

/// What the regular expression `pattern` captures in `text`, as the `regex` crate
/// finds it: `None` where the pattern is no regular expression or matches nowhere
/// in the text; otherwise, for the leftmost match, the text of the whole match
/// followed by the text of each group, empty for a group that took no part.
pub uninterp spec fn captured(pattern: Seq<char>, text: Seq<char>) -> Option<Seq<Seq<char>>>;

/// The grammar of the transfer command.
pub open spec fn send_pattern() -> Seq<char> {
    "send (\\d+) to (\\w+) from (\\w+)"@
}

/// The value of a decimal digit, if the character is one.
pub open spec fn digit_value(c: char) -> Option<nat> {
    if '0' <= c && c <= '9' {
        Some((c as u32 - '0' as u32) as nat)
    } else {
        None
    }
}

/// The number that a nonempty text of decimal digits writes; `None` for any other
/// text.
pub open spec fn decimal_value(text: Seq<char>) -> Option<nat>
    decreases text.len(),
{
    if text.len() == 0 {
        None
    } else if text.len() == 1 {
        digit_value(text[0])
    } else {
        match (decimal_value(text.drop_last()), digit_value(text.last())) {
            (Some(high), Some(low)) => Some(10 * high + low),
            _ => None,
        }
    }
}

/// The amount that a text writes: its decimal value, where it has one that fits in
/// a `u64`.
pub open spec fn amount_of(text: Seq<char>) -> Option<u64> {
    match decimal_value(text) {
        Some(n) => if n <= u64::MAX {
            Some(n as u64)
        } else {
            None
        },
        None => None,
    }
}

/// The transfer that the captures of the command's grammar ask for: the amount,
/// the sender and the receiver. The command names the receiver before the sender.
pub open spec fn send_command(groups: Option<Seq<Seq<char>>>) -> Option<
    (u64, Seq<char>, Seq<char>),
> {
    match groups {
        Some(g) => if g.len() == 4 {
            match amount_of(g[1]) {
                Some(amount) => Some((amount, g[3], g[2])),
                None => None,
            }
        } else {
            None
        },
        None => None,
    }
}

/// Where a text has a decimal value, so has each of its nonempty prefixes, and the
/// prefix's is no larger.
pub proof fn lemma_decimal_value_grows(text: Seq<char>, k: int)
    requires
        1 <= k <= text.len(),
        decimal_value(text) is Some,
    ensures
        decimal_value(text.take(k)) is Some,
        decimal_value(text.take(k))->0 <= decimal_value(text)->0,
    decreases text.len(),
{
    if k == text.len() {
        assert(text.take(k) =~= text);
    } else {
        assert(text.drop_last().take(k) =~= text.take(k));
        lemma_decimal_value_grows(text.drop_last(), k);
    }
}

/// Wraps `regex::Regex::new` and `Regex::captures`: compiles `pattern` and searches
/// `text` for its leftmost match. Both are functions of their arguments alone;
/// what they find is left to `captured`.
#[verifier::external_body]
fn captures(pattern: &str, text: &str) -> (groups: Option<Vec<String>>)
    ensures
        groups.deep_view() == captured(pattern@, text@),
{
    let regex = regex::Regex::new(pattern).ok()?;
    let found = regex.captures(text)?;
    Some(found.iter().map(|group| group.map_or(String::new(), |m| m.as_str().to_string())).collect())
}

/// Reads an amount written in decimal digits.
pub fn parse_amount(text: &str) -> (amount: Option<u64>)
    ensures
        amount == amount_of(text@),
{
    let n: usize = text.unicode_len();
    if n == 0 {
        return None;
    }
    let mut value: u128 = 0;
    let mut i: usize = 0;
    while i < n
        invariant
            i <= n,
            n == text@.len(),
            i > 0 ==> decimal_value(text@.take(i as int)) == Some(value as nat),
            i == 0 ==> value == 0,
            value <= u64::MAX,
        decreases n - i,
    {
        let c = text.get_char(i);
        let ghost longer = text@.take(i as int + 1);
        assert(longer.drop_last() =~= text@.take(i as int));
        assert(longer.last() == c);
        if !(c >= '0' && c <= '9') {
            proof {
                assert(decimal_value(longer) is None);
                if decimal_value(text@) is Some {
                    lemma_decimal_value_grows(text@, i as int + 1);
                }
            }
            return None;
        }
        let digit: u128 = (c as u32 - '0' as u32) as u128;
        value = 10 * value + digit;
        assert(decimal_value(longer) == Some(value as nat));
        if value > u64::MAX as u128 {
            proof {
                if decimal_value(text@) is Some {
                    lemma_decimal_value_grows(text@, i as int + 1);
                }
            }
            return None;
        }
        i = i + 1;
    }
    assert(text@.take(n as int) =~= text@);
    Some(value as u64)
}

/// The transfer that the captures of the command's grammar ask for.
pub fn send_command_of(groups: Option<Vec<String>>) -> (command: Option<(u64, String, String)>)
    ensures
        command.deep_view() == send_command(groups.deep_view()),
{
    match groups {
        Some(g) => {
            if g.len() != 4 {
                assert(g.deep_view().len() != 4);
                return None;
            }
            assert(g.deep_view()[1] == g@[1]@);
            assert(g.deep_view()[2] == g@[2]@);
            assert(g.deep_view()[3] == g@[3]@);
            match parse_amount(g[1].as_str()) {
                Some(amount) => Some((amount, g[3].clone(), g[2].clone())),
                None => None,
            }
        },
        None => None,
    }
}

/// Reads a command of the form `send <amount> to <receiver> from <sender>`, found
/// anywhere in the input, and gives the amount, the sender and the receiver.
pub fn parse_send_input(input_string: &str) -> (command: Option<(u64, String, String)>)
    ensures
        command.deep_view() == send_command(captured(send_pattern(), input_string@)),
{
    send_command_of(captures("send (\\d+) to (\\w+) from (\\w+)", input_string))
}

} // verus!
