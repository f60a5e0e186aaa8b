//! Two small pure utilities: addition of unsigned 64-bit integers with an
//! explicit wrap-around policy, and formatting of a greeting for a name.

use vstd::prelude::*;
use vstd::string::*;
use vstd::utf8::*;

verus! {

/// Number of values an unsigned 64-bit integer can take: 2^64.
pub open spec fn modulus() -> int {
    0x1_0000_0000_0000_0000
}

/// The sum of `left` and `right` reduced modulo 2^64.
pub open spec fn wrapped_sum(left: int, right: int) -> int {
    (left + right) % modulus()
}

/// Adds two numbers together.
///
/// Overflow policy: the result always wraps around modulo 2^64, whatever the
/// build configuration. When the mathematical sum fits in a `u64` the result
/// is that sum exactly.
pub fn add(left: u64, right: u64) -> (sum: u64)
    ensures
        sum == wrapped_sum(left as int, right as int),
        left + right <= u64::MAX ==> sum == left + right,
        left + right > u64::MAX ==> sum == left + right - modulus(),
{
    left.wrapping_add(right)
}

/// Addition is commutative: swapping the operands never changes the result,
/// and whenever the mathematical sum fits in a `u64` the result is that sum.
pub proof fn lemma_add_commutative(a: u64, b: u64)
    ensures
        wrapped_sum(a as int, b as int) == wrapped_sum(b as int, a as int),
        a + b <= u64::MAX ==> wrapped_sum(a as int, b as int) == a + b,
{
}

/// Zero is the identity element of addition, on either side.
pub proof fn lemma_add_zero_identity(n: u64)
    ensures
        wrapped_sum(0, n as int) == n,
        wrapped_sum(n as int, 0) == n,
{
}

/// The characters that open every greeting: `Hello, `.
pub open spec fn greeting_prefix() -> Seq<char> {
    seq!['H', 'e', 'l', 'l', 'o', ',', ' ']
}

/// The characters that close every greeting: `!`.
pub open spec fn greeting_suffix() -> Seq<char> {
    seq!['!']
}

/// The greeting for `name`: the prefix, the name verbatim, the suffix.
pub open spec fn greeting(name: Seq<char>) -> Seq<char> {
    greeting_prefix() + name + greeting_suffix()
}

/// Length in bytes of the UTF-8 encoding of `chars`, which is what `len`
/// reports for a string holding them.
pub open spec fn utf8_len(chars: Seq<char>) -> nat {
    encode_utf8(chars).len()
}

/// Greets a person by name.
///
/// The name is substituted verbatim: it is neither trimmed, escaped nor
/// validated, and may be empty.
pub fn greet(name: &str) -> (text: String)
    ensures
        text@ == greeting(name@),
        text@.len() == name@.len() + 8,
        utf8_len(text@) == utf8_len(name@) + 8,
{
    let mut text = String::from_str("Hello, ");
    text.append(name);
    text.append("!");
    proof {
        lemma_greeting_literal(name@);
        lemma_greeting_shape(name@);
    }
    text
}

/// A greeting is exactly `"Hello, "`, then the name, then `"!"`.
pub proof fn lemma_greeting_literal(name: Seq<char>)
    ensures
        greeting(name) == "Hello, "@ + name + "!"@,
{
    reveal_strlit("Hello, ");
    reveal_strlit("!");
    assert("Hello, "@ =~= greeting_prefix());
    assert("!"@ =~= greeting_suffix());
}

/// A greeting is eight characters, and eight bytes, longer than the name,
/// and holds the name unchanged right after the seven characters of the
/// prefix.
pub proof fn lemma_greeting_shape(name: Seq<char>)
    ensures
        greeting(name).len() == name.len() + 8,
        utf8_len(greeting(name)) == utf8_len(name) + 8,
        greeting(name).subrange(0, 7) == greeting_prefix(),
        greeting(name).subrange(7, 7 + name.len() as int) == name,
        greeting(name).subrange(7 + name.len() as int, 8 + name.len() as int) == greeting_suffix(),
{
    lemma_encode_utf8_concat(greeting_prefix(), name);
    lemma_encode_utf8_concat(greeting_prefix() + name, greeting_suffix());
    is_ascii_chars_encode_utf8(greeting_prefix());
    is_ascii_chars_encode_utf8(greeting_suffix());
}

/// The UTF-8 encoding of a concatenation is the concatenation of the
/// encodings.
proof fn lemma_encode_utf8_concat(a: Seq<char>, b: Seq<char>)
    ensures
        encode_utf8(a + b) == encode_utf8(a) + encode_utf8(b),
    decreases a.len(),
{
    if a.len() == 0 {
        assert(a + b =~= b);
    } else {
        assert((a + b).drop_first() =~= a.drop_first() + b);
        lemma_encode_utf8_concat(a.drop_first(), b);
    }
}

} // verus!
