//! Whitespace and tokens of a line of text, over sequences of characters.
//!
//! A token is a maximal run of characters that holds no white space. The
//! tokens of a line are numbered from zero, left to right.

use vstd::prelude::*;

verus! {

/// Whether `c` is a white-space character (Unicode property `White_Space`).
pub open spec fn is_space(c: char) -> bool {
    let p = c as u32;
    ||| 0x09 <= p <= 0x0D
    ||| p == 0x20
    ||| p == 0x85
    ||| p == 0xA0
    ||| p == 0x1680
    ||| 0x2000 <= p <= 0x200A
    ||| p == 0x2028
    ||| p == 0x2029
    ||| p == 0x202F
    ||| p == 0x205F
    ||| p == 0x3000
}

/// The first position at or after `from` that holds no white space, or the
/// length of `s` if only white space follows.
pub open spec fn skip_spaces(s: Seq<char>, from: int) -> int
    decreases s.len() - from,
{
    if 0 <= from < s.len() && is_space(s[from]) {
        skip_spaces(s, from + 1)
    } else {
        from
    }
}

/// The first position at or after `from` that holds white space, or the
/// length of `s` if none follows.
pub open spec fn skip_word(s: Seq<char>, from: int) -> int
    decreases s.len() - from,
{
    if 0 <= from < s.len() && !is_space(s[from]) {
        skip_word(s, from + 1)
    } else {
        from
    }
}

/// Where token `n` of `s` lies: the position of its first character and the
/// position after its last. Where `s` has no token `n`, both are `s.len()`.
pub open spec fn token_span(s: Seq<char>, n: nat) -> (int, int)
    decreases n,
{
    let from = if n == 0 {
        0
    } else {
        token_span(s, (n - 1) as nat).1
    };
    let start = skip_spaces(s, from);
    (start, skip_word(s, start))
}

/// Whether `s` has a token `n`, that is at least `n + 1` tokens.
pub open spec fn has_token(s: Seq<char>, n: nat) -> bool {
    token_span(s, n).0 < s.len()
}

/// The text of token `n` of `s`; empty where `s` has no such token.
pub open spec fn token(s: Seq<char>, n: nat) -> Seq<char> {
    s.subrange(token_span(s, n).0, token_span(s, n).1)
}

/// Whether `s[a..b]` is a maximal run without white space: not empty, free of
/// white space, and bounded on each side by white space or an end of `s`.
pub open spec fn is_maximal_word(s: Seq<char>, a: int, b: int) -> bool {
    &&& 0 <= a < b <= s.len()
    &&& forall|i: int| a <= i < b ==> !is_space(#[trigger] s[i])
    &&& a == 0 || is_space(s[a - 1])
    &&& b == s.len() || is_space(s[b])
}

/// Whether every character of `s[a..b]` is white space.
pub open spec fn all_spaces(s: Seq<char>, a: int, b: int) -> bool {
    forall|i: int| a <= i < b ==> is_space(#[trigger] s[i])
}

/// `skip_spaces` moves forward over white space only and stops at the end of
/// `s` or on a character that is none.
pub proof fn lemma_skip_spaces(s: Seq<char>, from: int)
    requires
        0 <= from <= s.len(),
    ensures
        from <= skip_spaces(s, from) <= s.len(),
        all_spaces(s, from, skip_spaces(s, from)),
        skip_spaces(s, from) < s.len() ==> !is_space(s[skip_spaces(s, from)]),
    decreases s.len() - from,
{
    if from < s.len() && is_space(s[from]) {
        lemma_skip_spaces(s, from + 1);
    }
}

/// `skip_word` moves forward over characters that are no white space and
/// stops at the end of `s` or on white space.
pub proof fn lemma_skip_word(s: Seq<char>, from: int)
    requires
        0 <= from <= s.len(),
    ensures
        from <= skip_word(s, from) <= s.len(),
        forall|i: int| from <= i < skip_word(s, from) ==> !is_space(#[trigger] s[i]),
        skip_word(s, from) < s.len() ==> is_space(s[skip_word(s, from)]),
        from < s.len() && !is_space(s[from]) ==> from < skip_word(s, from),
    decreases s.len() - from,
{
    if from < s.len() && !is_space(s[from]) {
        lemma_skip_word(s, from + 1);
    }
}

/// The span of every token lies within `s`, and a token that exists is a
/// maximal run without white space.
pub proof fn lemma_token_is_maximal_word(s: Seq<char>, n: nat)
    ensures
        0 <= token_span(s, n).0 <= token_span(s, n).1 <= s.len(),
        has_token(s, n) ==> is_maximal_word(s, token_span(s, n).0, token_span(s, n).1),
        !has_token(s, n) ==> token_span(s, n) == (s.len() as int, s.len() as int),
    decreases n,
{
    let from = if n == 0 {
        0
    } else {
        token_span(s, (n - 1) as nat).1
    };
    if n > 0 {
        // The token before ends at the end of `s` or on white space, so
        // white space lies between it and this one.
        lemma_token_is_maximal_word(s, (n - 1) as nat);
        lemma_skip_word(s, token_span(s, (n - 1) as nat).0);
    }
    lemma_skip_spaces(s, from);
    let start = skip_spaces(s, from);
    lemma_skip_word(s, start);
    if 0 < start < s.len() {
        assert(from < start);
        assert(is_space(s[start - 1]));
    }
}

/// No token is passed over: only white space lies before token zero, and
/// between the end of token `n` and the start of token `n + 1`.
pub proof fn lemma_tokens_are_consecutive(s: Seq<char>, n: nat)
    ensures
        all_spaces(s, 0, token_span(s, 0).0),
        token_span(s, n).1 <= token_span(s, n + 1).0,
        all_spaces(s, token_span(s, n).1, token_span(s, n + 1).0),
        has_token(s, n + 1) ==> has_token(s, n),
{
    lemma_skip_spaces(s, 0);
    lemma_token_is_maximal_word(s, n);
    lemma_skip_spaces(s, token_span(s, n).1);
    assert(token_span(s, n + 1).0 == skip_spaces(s, token_span(s, n).1));
}

/// Tokens are numbered without a gap: where `s` has no token `k`, it has none
/// with a greater number either.
pub proof fn lemma_no_token_after_the_last(s: Seq<char>, k: nat, n: nat)
    requires
        k <= n,
        !has_token(s, k),
    ensures
        !has_token(s, n),
    decreases n - k,
{
    if k < n {
        lemma_tokens_are_consecutive(s, k);
        lemma_no_token_after_the_last(s, k + 1, n);
    }
}

/// Decides [`is_space`].
pub fn is_whitespace(c: char) -> (b: bool)
    ensures
        b == is_space(c),
{
    let p: u32 = c as u32;
    (0x09 <= p && p <= 0x0D) || p == 0x20 || p == 0x85 || p == 0xA0 || p == 0x1680 || (0x2000 <= p
        && p <= 0x200A) || p == 0x2028 || p == 0x2029 || p == 0x202F || p == 0x205F || p == 0x3000
}

/// The characters of `line`, in order.
pub fn chars_of(line: &str) -> (chars: Vec<char>)
    ensures
        chars@ == line@,
{
    let mut chars: Vec<char> = Vec::new();
    for c in it: line.chars()
        invariant
            it.seq() == line@,
            chars@ == it.seq().take(it.index()),
    {
        chars.push(c);
    }
    chars
}

/// Computes [`skip_spaces`].
pub fn scan_spaces(chars: &Vec<char>, from: usize) -> (to: usize)
    requires
        from <= chars.len(),
    ensures
        to == skip_spaces(chars@, from as int),
        from <= to <= chars.len(),
{
    let mut i: usize = from;
    while i < chars.len() && is_whitespace(chars[i])
        invariant
            from <= i <= chars.len(),
            skip_spaces(chars@, from as int) == skip_spaces(chars@, i as int),
        decreases chars.len() - i,
    {
        i += 1;
    }
    i
}

/// Computes [`skip_word`].
pub fn scan_word(chars: &Vec<char>, from: usize) -> (to: usize)
    requires
        from <= chars.len(),
    ensures
        to == skip_word(chars@, from as int),
        from <= to <= chars.len(),
{
    let mut i: usize = from;
    while i < chars.len() && !is_whitespace(chars[i])
        invariant
            from <= i <= chars.len(),
            skip_word(chars@, from as int) == skip_word(chars@, i as int),
        decreases chars.len() - i,
    {
        i += 1;
    }
    i
}

/// Finds token `n` of `chars`: `Some` of its span exactly when there is one.
pub fn find_token(chars: &Vec<char>, n: usize) -> (span: Option<(usize, usize)>)
    ensures
        span is Some <==> has_token(chars@, n as nat),
        span matches Some((a, b)) ==> (a as int, b as int) == token_span(chars@, n as nat) && a < b
            <= chars.len(),
{
    proof {
        lemma_token_is_maximal_word(chars@, n as nat);
    }
    let mut start: usize = scan_spaces(chars, 0);
    let mut end: usize = scan_word(chars, start);
    let mut k: usize = 0;
    while k < n && start < chars.len()
        invariant
            k <= n,
            start <= end <= chars.len(),
            (start as int, end as int) == token_span(chars@, k as nat),
        decreases n - k,
    {
        start = scan_spaces(chars, end);
        end = scan_word(chars, start);
        k += 1;
    }
    if start < chars.len() {
        Some((start, end))
    } else {
        proof {
            lemma_no_token_after_the_last(chars@, k as nat, n as nat);
        }
        None
    }
}

} // verus!
