//! Character-level helpers over strings: the library reasons about text as
//! sequences of characters, and reads it token by token. A token is a run
//! of characters without white space, as long as it can be.

use vstd::prelude::*;

verus! {

/// Whether `c` is white space: one of the characters that Unicode gives the
/// property `White_Space`.
pub open spec fn is_space(c: char) -> bool {
    let code = c as u32;
    ||| 0x09 <= code <= 0x0D
    ||| code == 0x20
    ||| code == 0x85
    ||| code == 0xA0
    ||| code == 0x1680
    ||| 0x2000 <= code <= 0x200A
    ||| code == 0x2028
    ||| code == 0x2029
    ||| code == 0x202F
    ||| code == 0x205F
    ||| code == 0x3000
}

/// Whether `start..end` is a token of `s`: it is not empty and holds no
/// white space, and white space or the ends of `s` stand on both sides of
/// it.
pub open spec fn is_token(s: Seq<char>, start: int, end: int) -> bool {
    &&& 0 <= start < end <= s.len()
    &&& (start == 0 || is_space(s[start - 1]))
    &&& (end == s.len() || is_space(s[end]))
    &&& forall|k: int| start <= k < end ==> !is_space(#[trigger] s[k])
}

/// Whether `word` is one of the tokens of `s`.
pub open spec fn has_token(s: Seq<char>, word: Seq<char>) -> bool {
    exists|start: int, end: int|
        #[trigger] is_token(s, start, end) && s.subrange(start, end) == word
}

/// Where the next token begins: the position of the first character at or
/// after `from` that is no white space, or the length of `s` if there is
/// none.
pub open spec fn token_start(s: Seq<char>, from: int) -> int
    decreases s.len() - from,
{
    if from < 0 || from >= s.len() {
        s.len() as int
    } else if !is_space(s[from]) {
        from
    } else {
        token_start(s, from + 1)
    }
}

/// Where the token that begins at `from` ends: the position of the first
/// white space at or after `from`, or the length of `s` if there is none.
pub open spec fn token_end(s: Seq<char>, from: int) -> int
    decreases s.len() - from,
{
    if from < 0 || from >= s.len() {
        s.len() as int
    } else if is_space(s[from]) {
        from
    } else {
        token_end(s, from + 1)
    }
}

/// Nothing but white space stands between `from` and `token_start`.
pub proof fn lemma_token_start(s: Seq<char>, from: int)
    requires
        0 <= from <= s.len(),
    ensures
        from <= token_start(s, from) <= s.len(),
        token_start(s, from) == s.len() || !is_space(s[token_start(s, from)]),
        forall|k: int| from <= k < token_start(s, from) ==> is_space(#[trigger] s[k]),
    decreases s.len() - from,
{
    if from < s.len() && is_space(s[from]) {
        lemma_token_start(s, from + 1);
    }
}

/// No white space stands between `from` and `token_end`.
pub proof fn lemma_token_end(s: Seq<char>, from: int)
    requires
        0 <= from <= s.len(),
    ensures
        from <= token_end(s, from) <= s.len(),
        token_end(s, from) == s.len() || is_space(s[token_end(s, from)]),
        forall|k: int| from <= k < token_end(s, from) ==> !is_space(#[trigger] s[k]),
    decreases s.len() - from,
{
    if from < s.len() && !is_space(s[from]) {
        lemma_token_end(s, from + 1);
    }
}

/// Whether `c` is white space.
pub fn is_white_space(c: char) -> (space: bool)
    ensures
        space == is_space(c),
{
    let code: u32 = c as u32;
    (0x09 <= code && code <= 0x0D) || code == 0x20 || code == 0x85 || code == 0xA0 || code
        == 0x1680 || (0x2000 <= code && code <= 0x200A) || code == 0x2028 || code == 0x2029
        || code == 0x202F || code == 0x205F || code == 0x3000
}

/// The characters of `text`, in order.
pub fn chars_of(text: &str) -> (chars: Vec<char>)
    ensures
        chars@ == text@,
{
    let mut chars: Vec<char> = Vec::new();
    for c in it: text.chars()
        invariant
            it.seq() == text@,
            chars@ == it.seq().take(it.index()),
    {
        chars.push(c);
    }
    chars
}

/// The start of the first token of `s` at or after `from`.
pub(crate) fn find_token_start(s: &Vec<char>, from: usize) -> (start: usize)
    requires
        from <= s.len(),
    ensures
        start == token_start(s@, from as int),
        from <= start <= s.len(),
{
    let mut start: usize = from;
    while start < s.len() && is_white_space(s[start])
        invariant
            from <= start <= s.len(),
            token_start(s@, from as int) == token_start(s@, start as int),
        decreases s.len() - start,
    {
        start = start + 1;
    }
    start
}

/// The end of the token of `s` that starts at `from`.
pub(crate) fn find_token_end(s: &Vec<char>, from: usize) -> (end: usize)
    requires
        from <= s.len(),
    ensures
        end == token_end(s@, from as int),
        from <= end <= s.len(),
{
    let mut end: usize = from;
    while end < s.len() && !is_white_space(s[end])
        invariant
            from <= end <= s.len(),
            token_end(s@, from as int) == token_end(s@, end as int),
        decreases s.len() - end,
    {
        end = end + 1;
    }
    end
}

/// Whether the characters of `s` from `start` up to `end` spell `word`.
pub(crate) fn spells(s: &Vec<char>, start: usize, end: usize, word: &Vec<char>) -> (same: bool)
    requires
        start <= end <= s.len(),
    ensures
        same == (s@.subrange(start as int, end as int) == word@),
{
    if end - start != word.len() {
        return false;
    }
    let mut k: usize = 0;
    while k < word.len()
        invariant
            start <= end <= s.len(),
            end - start == word.len(),
            k <= word.len(),
            forall|j: int| 0 <= j < k ==> s@[start + j] == word@[j],
        decreases word.len() - k,
    {
        if s[start + k] != word[k] {
            assert(s@.subrange(start as int, end as int)[k as int] != word@[k as int]);
            return false;
        }
        k = k + 1;
    }
    assert(s@.subrange(start as int, end as int) =~= word@);
    true
}

} // verus!
