//! Text helpers: prefixes of strings and decimal numbers.

use vstd::prelude::*;
use vstd::string::*;
use vstd::utf8::*;

verus! {

/// A string is a prefix of another exactly when its encoding is.
pub proof fn lemma_prefix_of_encoding(prefix: Seq<char>, text: Seq<char>)
    ensures
        encode_utf8(prefix).is_prefix_of(encode_utf8(text)) <==> prefix.is_prefix_of(text),
    decreases prefix.len(),
{
    let p = encode_utf8(prefix);
    let t = encode_utf8(text);
    if prefix.len() == 0 {
        assert(p.is_prefix_of(t));
        assert(prefix.is_prefix_of(text));
    } else {
        encode_utf8_first_scalar(prefix);
        if text.len() == 0 {
            assert(t.len() == 0);
            assert(p.len() > 0);
        } else {
            encode_utf8_first_scalar(text);
            let p_rest = encode_utf8(prefix.drop_first());
            let t_rest = encode_utf8(text.drop_first());
            let p_head = encode_scalar(prefix[0] as u32);
            let t_head = encode_scalar(text[0] as u32);
            lemma_prefix_of_encoding(prefix.drop_first(), text.drop_first());
            if p.is_prefix_of(t) {
                assert(forall|i: int| 0 <= i < p.len() ==> p[i] == t[i]);
                assert(decode_first_scalar(p) == decode_first_scalar(t));
                char_u32_cast(prefix[0], text[0] as u32);
                char_u32_cast(text[0], text[0] as u32);
                assert(prefix[0] == text[0]);
                assert(p_rest =~= t_rest.subrange(0, p_rest.len() as int)) by {
                    assert forall|i: int| 0 <= i < p_rest.len() implies p_rest[i] == t_rest[i] by {
                        assert(p_rest[i] == p[i + p_head.len()]);
                        assert(t_rest[i] == t[i + t_head.len()]);
                    }
                }
                assert(prefix.drop_first().is_prefix_of(text.drop_first()));
                assert(prefix =~= text.subrange(0, prefix.len() as int)) by {
                    assert forall|i: int| 0 <= i < prefix.len() implies prefix[i] == text[i] by {
                        if i > 0 {
                            assert(prefix[i] == prefix.drop_first()[i - 1]);
                            assert(text[i] == text.drop_first()[i - 1]);
                        }
                    }
                }
            }
            if prefix.is_prefix_of(text) {
                assert(prefix[0] == text[0]);
                assert(prefix.drop_first() =~= text.drop_first().subrange(
                    0,
                    prefix.len() - 1,
                ));
                assert(p_rest.is_prefix_of(t_rest));
                assert(p =~= t.subrange(0, p.len() as int));
            }
        }
    }
}

/// Of two prefixes of one text, the one with more characters has more bytes.
pub proof fn lemma_longer_prefix(left: Seq<char>, right: Seq<char>, text: Seq<char>)
    requires
        left.is_prefix_of(text),
        right.is_prefix_of(text),
    ensures
        encode_utf8(left).len() < encode_utf8(right).len() <==> left.len() < right.len(),
{
    if left.len() < right.len() {
        lemma_shorter_prefix(left, right, text);
    } else {
        if right.len() < left.len() {
            lemma_shorter_prefix(right, left, text);
        } else {
            assert(left =~= right);
        }
    }
}

/// Of two prefixes of one text, the one with fewer characters has fewer bytes.
proof fn lemma_shorter_prefix(left: Seq<char>, right: Seq<char>, text: Seq<char>)
    requires
        left.is_prefix_of(text),
        right.is_prefix_of(text),
        left.len() < right.len(),
    ensures
        encode_utf8(left).len() < encode_utf8(right).len(),
{
    assert(left =~= right.subrange(0, left.len() as int));
    lemma_prefix_of_encoding(left, right);
    lemma_prefix_of_encoding(right, left);
    assert(!right.is_prefix_of(left));
    if encode_utf8(left).len() == encode_utf8(right).len() {
        assert(encode_utf8(right) =~= encode_utf8(left));
        assert(encode_utf8(right).is_prefix_of(encode_utf8(left)));
    }
}

/// Whether `text` begins with `prefix`.
pub fn starts_with(text: &str, prefix: &str) -> (found: bool)
    ensures
        found == prefix@.is_prefix_of(text@),
{
    let t = text.as_bytes();
    let p = prefix.as_bytes();
    proof {
        lemma_prefix_of_encoding(prefix@, text@);
    }
    if p.len() > t.len() {
        return false;
    }
    let mut i: usize = 0;
    while i < p.len()
        invariant
            i <= p@.len() <= t@.len(),
            p@ == encode_utf8(prefix@),
            t@ == encode_utf8(text@),
            forall|j: int| 0 <= j < i ==> p@[j] == t@[j],
            p@.is_prefix_of(t@) <==> prefix@.is_prefix_of(text@),
        decreases p@.len() - i,
    {
        if p[i] != t[i] {
            return false;
        }
        i = i + 1;
    }
    assert(p@ =~= t@.subrange(0, p@.len() as int));
    true
}

/// The decimal digit of a number below ten.
pub open spec fn digit(n: nat) -> char {
    seq!['0', '1', '2', '3', '4', '5', '6', '7', '8', '9'][n as int]
}

/// A number written in decimal, without leading zeros.
pub open spec fn decimal(n: nat) -> Seq<char>
    decreases n,
{
    if n < 10 {
        seq![digit(n)]
    } else {
        decimal(n / 10).push(digit(n % 10))
    }
}

/// Writes one decimal digit.
fn digit_text(n: u16) -> (text: &'static str)
    requires
        n < 10,
    ensures
        text@ == seq![digit(n as nat)],
{
    proof {
        reveal_strlit("0");
        reveal_strlit("1");
        reveal_strlit("2");
        reveal_strlit("3");
        reveal_strlit("4");
        reveal_strlit("5");
        reveal_strlit("6");
        reveal_strlit("7");
        reveal_strlit("8");
        reveal_strlit("9");
    }
    if n == 0 {
        "0"
    } else if n == 1 {
        "1"
    } else if n == 2 {
        "2"
    } else if n == 3 {
        "3"
    } else if n == 4 {
        "4"
    } else if n == 5 {
        "5"
    } else if n == 6 {
        "6"
    } else if n == 7 {
        "7"
    } else if n == 8 {
        "8"
    } else {
        "9"
    }
}

/// Writes a number in decimal.
pub fn decimal_text(n: u16) -> (text: String)
    ensures
        text@ == decimal(n as nat),
    decreases n,
{
    if n < 10 {
        digit_text(n).to_owned()
    } else {
        let mut text = decimal_text(n / 10);
        text.append(digit_text(n % 10));
        text
    }
}

} // verus!
