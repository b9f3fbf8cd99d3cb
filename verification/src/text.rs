//! Characters: strings as sequences of characters, white space and trimming.

use vstd::prelude::*;
use vstd::std_specs::iter::IteratorSpec;

verus! {

/// `String::push` appends the given character to the end of the string.
pub assume_specification[ String::push ](s: &mut String, ch: char)
    ensures
        final(s)@ == old(s)@.push(ch),
;

/// The characters of `text`, in order.
pub fn chars_of(text: &str) -> (chars: Vec<char>)
    ensures
        chars@ == text@,
{
    let mut chars: Vec<char> = Vec::new();
    let mut it = text.chars();
    proof {
        vstd::string::axiom_spec_iter(text);
    }
    loop
        invariant
            chars@ + it.remaining() == text@,
            it.obeys_prophetic_iter_laws(),
            it.decrease() is Some,
        decreases it.decrease()->0,
    {
        let ghost before = it;
        let next = it.next();
        proof {
            vstd::string::next_postcondition(&before, &it, next);
        }
        match next {
            Some(c) => {
                chars.push(c);
                assert(chars@ + it.remaining() =~= text@);
            },
            None => {
                assert(chars@ =~= text@);
                return chars;
            },
        }
    }
}

/// The string made of the characters `chars[from..to]`.
pub(crate) fn string_of(chars: &Vec<char>, from: usize, to: usize) -> (text: String)
    requires
        from <= to <= chars.len(),
    ensures
        text@ == chars@.subrange(from as int, to as int),
{
    let mut text = String::new();
    let mut i: usize = from;
    while i < to
        invariant
            from <= i <= to <= chars.len(),
            text@ == chars@.subrange(from as int, i as int),
        decreases to - i,
    {
        text.push(chars[i]);
        i += 1;
        assert(text@ =~= chars@.subrange(from as int, i as int));
    }
    text
}

/// The position of the first item of `items` that is `wanted`, or the length
/// of `items` where none is.
pub open spec fn first_match<A>(items: Seq<A>, wanted: spec_fn(A) -> bool) -> int
    decreases items.len(),
{
    if items.len() == 0 || wanted(items[0]) {
        0
    } else {
        1 + first_match(items.skip(1), wanted)
    }
}

/// `first_match` is the position `n` before which nothing is wanted and which
/// is the end of the sequence or holds a wanted item.
pub proof fn lemma_first_match<A>(items: Seq<A>, wanted: spec_fn(A) -> bool, n: int)
    requires
        0 <= n <= items.len(),
        forall|k: int| 0 <= k < n ==> !wanted(items[k]),
        n < items.len() ==> wanted(items[n]),
    ensures
        first_match(items, wanted) == n,
    decreases n,
{
    if n > 0 {
        lemma_first_match(items.skip(1), wanted, n - 1);
    }
}

/// `first_match` lies within the sequence, nothing before it is wanted, and
/// the item at it is wanted unless it is the end of the sequence.
pub proof fn lemma_first_match_found<A>(items: Seq<A>, wanted: spec_fn(A) -> bool)
    ensures
        0 <= first_match(items, wanted) <= items.len(),
        forall|k: int| 0 <= k < first_match(items, wanted) ==> !wanted(#[trigger] items[k]),
        first_match(items, wanted) < items.len() ==> wanted(items[first_match(items, wanted)]),
    decreases items.len(),
{
    if items.len() == 0 || wanted(items[0]) {
    } else {
        let rest = items.skip(1);
        lemma_first_match_found(rest, wanted);
        assert forall|k: int| 0 <= k < first_match(items, wanted) implies !wanted(
            #[trigger] items[k],
        ) by {
            if k > 0 {
                assert(items[k] == rest[k - 1]);
            }
        }
        if first_match(items, wanted) < items.len() {
            assert(items[first_match(items, wanted)] == rest[first_match(rest, wanted)]);
        }
    }
}

/// Whether a character is white space: the characters to which Unicode gives
/// the property `White_Space`.
pub open spec fn is_whitespace(c: char) -> bool {
    let code = c as u32;
    ||| 0x09 <= code <= 0x0D
    ||| code == 0x20
    ||| code == 0x85
    ||| code == 0xA0
    ||| code == 0x1680
    ||| 0x2000 <= code <= 0x200A
    ||| code == 0x2028
    ||| code == 0x2029
    ||| code == 0x202F
    ||| code == 0x205F
    ||| code == 0x3000
}

/// Whether a character is no white space.
pub open spec fn is_visible() -> spec_fn(char) -> bool {
    |c: char| !is_whitespace(c)
}

/// `text` without the white space at its start.
pub open spec fn trim_start(text: Seq<char>) -> Seq<char> {
    text.skip(first_match(text, is_visible()))
}

/// `text` without the white space at its end.
pub open spec fn trim_end(text: Seq<char>) -> Seq<char>
    decreases text.len(),
{
    if text.len() > 0 && is_whitespace(text.last()) {
        trim_end(text.drop_last())
    } else {
        text
    }
}

/// `text` without the white space at its start and at its end.
pub open spec fn trim(text: Seq<char>) -> Seq<char> {
    trim_end(trim_start(text))
}

/// `trim_end` keeps the first `n` characters, where only white space stands
/// from position `n` on and the character before it, if any, is visible.
pub proof fn lemma_trim_end(text: Seq<char>, n: int)
    requires
        0 <= n <= text.len(),
        forall|k: int| n <= k < text.len() ==> is_whitespace(text[k]),
        n > 0 ==> !is_whitespace(text[n - 1]),
    ensures
        trim_end(text) == text.take(n),
    decreases text.len() - n,
{
    if n < text.len() {
        lemma_trim_end(text.drop_last(), n);
        assert(text.drop_last().take(n) =~= text.take(n));
    } else {
        assert(text.take(n) =~= text);
    }
}

/// Whether the character is white space.
pub fn char_is_whitespace(c: char) -> (white: bool)
    ensures
        white == is_whitespace(c),
{
    let code: u32 = c as u32;
    (0x09 <= code && code <= 0x0D) || code == 0x20 || code == 0x85 || code == 0xA0 || code
        == 0x1680 || (0x2000 <= code && code <= 0x200A) || code == 0x2028 || code == 0x2029
        || code == 0x202F || code == 0x205F || code == 0x3000
}

/// The number of white-space characters at the start of `chars`.
pub(crate) fn leading_whitespace(chars: &Vec<char>) -> (count: usize)
    ensures
        count == first_match(chars@, is_visible()),
        count <= chars.len(),
{
    let mut count: usize = 0;
    while count < chars.len() && char_is_whitespace(chars[count])
        invariant
            count <= chars.len(),
            forall|k: int| 0 <= k < count ==> is_whitespace(chars@[k]),
        decreases chars.len() - count,
    {
        count += 1;
    }
    proof {
        lemma_first_match(chars@, is_visible(), count as int);
    }
    count
}

/// `text` without the white space at its start and at its end, as a string of
/// its own.
pub fn trimmed(text: &str) -> (kept: String)
    ensures
        kept@ == trim(text@),
{
    let chars = chars_of(text);
    let start = leading_whitespace(&chars);
    let mut end: usize = chars.len();
    while end > start && char_is_whitespace(chars[end - 1])
        invariant
            start <= end <= chars.len(),
            forall|k: int| end <= k < chars.len() ==> is_whitespace(chars@[k]),
        decreases end,
    {
        end -= 1;
    }
    proof {
        let visible = chars@.skip(start as int);
        assert forall|k: int| end - start <= k < visible.len() implies is_whitespace(
            visible[k],
        ) by {
            assert(visible[k] == chars@[k + start]);
        }
        if end > start {
            assert(visible[end - start - 1] == chars@[end - 1]);
        }
        lemma_trim_end(visible, end - start);
        assert(visible.take(end - start) =~= chars@.subrange(start as int, end as int));
    }
    string_of(&chars, start, end)
}

/// Whether the two strings hold the same characters.
pub fn same_text(a: &str, b: &str) -> (same: bool)
    ensures
        same == (a@ == b@),
{
    a.to_owned() == b.to_owned()
}

} // verus!
