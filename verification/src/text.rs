//! Building strings from pieces.

use vstd::prelude::*;
use vstd::seq_lib::*;
use vstd::string::*;

verus! {

/// `String::push` appends the given character to the end of the string.
pub assume_specification[ String::push ](s: &mut String, ch: char)
    ensures
        final(s)@ == old(s)@.push(ch),
;

/// `String::pop` removes the last character of the string and returns it;
/// on an empty string it returns `None` and leaves the string empty.
pub assume_specification[ String::pop ](s: &mut String) -> (last: Option<char>)
    ensures
        old(s)@.len() == 0 ==> last.is_none() && final(s)@ == old(s)@,
        old(s)@.len() > 0 ==> last == Some(old(s)@.last()) && final(s)@ == old(s)@.drop_last(),
;

/// Whether `c` is a control character: one of U+0000 to U+001F or U+007F to
/// U+009F.
pub open spec fn is_control_char(c: char) -> bool {
    c as u32 <= 0x1f || 0x7f <= c as u32 <= 0x9f
}

/// Whether `c` is a control character.
pub fn is_control(c: char) -> (control: bool)
    ensures
        control == is_control_char(c),
{
    let code = c as u32;
    code <= 0x1f || (0x7f <= code && code <= 0x9f)
}

/// The decimal digit for `d`, which is below 10.
pub open spec fn digit(d: nat) -> char {
    ((48 + d) as u8) as char
}

/// `n` written in decimal, without leading zeros.
pub open spec fn decimal(n: nat) -> Seq<char>
    decreases n,
{
    if n < 10 {
        seq![digit(n)]
    } else {
        decimal(n / 10).push(digit(n % 10))
    }
}

/// `n` written in decimal.
pub fn to_decimal(n: usize) -> (text: String)
    ensures
        text@ == decimal(n as nat),
    decreases n,
{
    if n < 10 {
        let mut text = String::new();
        text.push((48u8 + n as u8) as char);
        assert(text@ =~= seq![digit(n as nat)]);
        text
    } else {
        let mut text = to_decimal(n / 10);
        text.push((48u8 + (n % 10) as u8) as char);
        text
    }
}

/// `n` spaces.
pub open spec fn blank(n: nat) -> Seq<char> {
    Seq::new(n, |i: int| ' ')
}

/// A string of `n` spaces.
pub fn spaces(n: usize) -> (text: String)
    ensures
        text@ == blank(n as nat),
{
    let mut text = String::new();
    let mut i: usize = 0;
    while i < n
        invariant
            i <= n,
            text@ == blank(i as nat),
        decreases n - i,
    {
        text.push(' ');
        i += 1;
        assert(text@ =~= blank(i as nat));
    }
    text
}

/// The first `n` characters of `text`, or all of it if it has fewer.
pub open spec fn truncated(text: Seq<char>, n: nat) -> Seq<char> {
    if n < text.len() {
        text.take(n as int)
    } else {
        text
    }
}

/// The first `n` characters of `text`, or all of it if it has fewer.
pub fn truncate(text: &str, n: usize) -> (cut: String)
    ensures
        cut@ == truncated(text@, n as nat),
{
    let len = text.unicode_len();
    if n < len {
        text.substring_char(0, n).to_owned()
    } else {
        text.to_owned()
    }
}

/// Splitting a sequence of pieces in two and flattening both halves splits
/// the flattened whole.
pub(crate) proof fn lemma_flatten_split<A>(parts: Seq<Seq<A>>, k: int)
    requires
        0 <= k <= parts.len(),
    ensures
        parts.take(k).flatten() + parts.skip(k).flatten() == parts.flatten(),
        parts.take(k).flatten() == parts.flatten().take(parts.take(k).flatten().len() as int),
        parts.skip(k).flatten() == parts.flatten().skip(parts.take(k).flatten().len() as int),
        parts.take(k).flatten().len() <= parts.flatten().len(),
{
    assert(parts.take(k) + parts.skip(k) =~= parts);
    lemma_flatten_concat(parts.take(k), parts.skip(k));
    let a = parts.take(k).flatten();
    let b = parts.skip(k).flatten();
    assert((a + b).take(a.len() as int) =~= a);
    assert((a + b).skip(a.len() as int) =~= b);
}

/// The pieces `from..to` of `parts`, joined.
pub(crate) fn join(parts: &Vec<String>, from: usize, to: usize) -> (joined: String)
    requires
        from <= to <= parts.len(),
    ensures
        joined@ == parts.deep_view().subrange(from as int, to as int).flatten(),
{
    let mut joined = String::new();
    let mut i: usize = from;
    assert(parts.deep_view().subrange(from as int, from as int) =~= Seq::<Seq<char>>::empty());
    while i < to
        invariant
            from <= i <= to <= parts.len(),
            joined@ == parts.deep_view().subrange(from as int, i as int).flatten(),
        decreases to - i,
    {
        proof {
            let done = parts.deep_view().subrange(from as int, i as int);
            assert(parts.deep_view().subrange(from as int, i + 1) =~= done.push(parts[i as int]@));
            done.lemma_flatten_push(parts[i as int]@);
        }
        joined.append(parts[i].as_str());
        i += 1;
    }
    joined
}

} // verus!
