//! Characters and character sequences as the protocol reads them: the
//! character classes, splitting a line into words, and searching and
//! comparing text.

use vstd::prelude::*;
use vstd::string::*;
use vstd::utf8::*;

verus! {

/// Whether `c` has the Unicode property White_Space.
pub open spec fn spec_is_whitespace(c: char) -> bool {
    let n: u32 = c as u32;
    ||| 0x09 <= n <= 0x0D
    ||| n == 0x20
    ||| n == 0x85
    ||| n == 0xA0
    ||| n == 0x1680
    ||| 0x2000 <= n <= 0x200A
    ||| n == 0x2028
    ||| n == 0x2029
    ||| n == 0x202F
    ||| n == 0x205F
    ||| n == 0x3000
}

/// Tells whether `c` separates the words of a line.
#[verifier::when_used_as_spec(spec_is_whitespace)]
pub fn is_whitespace(c: char) -> (b: bool)
    ensures
        b == spec_is_whitespace(c),
{
    let n: u32 = c as u32;
    (0x09 <= n && n <= 0x0D) || n == 0x20 || n == 0x85 || n == 0xA0 || n == 0x1680 || (0x2000 <= n
        && n <= 0x200A) || n == 0x2028 || n == 0x2029 || n == 0x202F || n == 0x205F || n == 0x3000
}

/// Whether `c` is one of `0` to `9`.
pub open spec fn spec_is_ascii_digit(c: char) -> bool {
    0x30 <= c as u32 <= 0x39
}

/// Tells whether `c` is an ASCII digit.
#[verifier::when_used_as_spec(spec_is_ascii_digit)]
pub fn is_ascii_digit(c: char) -> (b: bool)
    ensures
        b == spec_is_ascii_digit(c),
{
    let n: u32 = c as u32;
    0x30 <= n && n <= 0x39
}

/// Whether `c` is an ASCII letter or an ASCII digit.
pub open spec fn spec_is_ascii_alphanumeric(c: char) -> bool {
    ||| 0x30 <= c as u32 <= 0x39
    ||| 0x41 <= c as u32 <= 0x5A
    ||| 0x61 <= c as u32 <= 0x7A
}

/// Tells whether `c` is an ASCII letter or an ASCII digit.
#[verifier::when_used_as_spec(spec_is_ascii_alphanumeric)]
pub fn is_ascii_alphanumeric(c: char) -> (b: bool)
    ensures
        b == spec_is_ascii_alphanumeric(c),
{
    let n: u32 = c as u32;
    (0x30 <= n && n <= 0x39) || (0x41 <= n && n <= 0x5A) || (0x61 <= n && n <= 0x7A)
}

/// The code of `c` with the ASCII letters `a` to `z` folded to upper case;
/// every other character keeps its code.
pub open spec fn spec_ascii_upper_code(c: char) -> u32 {
    if 0x61 <= c as u32 <= 0x7A {
        (c as u32 - 0x20) as u32
    } else {
        c as u32
    }
}

/// Folds the case of an ASCII letter and returns the character's code.
#[verifier::when_used_as_spec(spec_ascii_upper_code)]
pub fn ascii_upper_code(c: char) -> (n: u32)
    ensures
        n == spec_ascii_upper_code(c),
{
    let n: u32 = c as u32;
    if 0x61 <= n && n <= 0x7A {
        n - 0x20
    } else {
        n
    }
}

/// Whether `a` and `b` are equal once ASCII letters are folded to upper case.
pub open spec fn eq_ignore_ascii_case(a: Seq<char>, b: Seq<char>) -> bool {
    &&& a.len() == b.len()
    &&& forall|i: int|
        0 <= i < a.len() ==> spec_ascii_upper_code(#[trigger] a[i]) == spec_ascii_upper_code(b[i])
}

/// The characters of `s`, one element each.
pub fn chars_of(s: &str) -> (chars: Vec<char>)
    ensures
        chars@ == s@,
{
    let mut chars: Vec<char> = Vec::new();
    for c in it: s.chars()
        invariant
            chars@ == it.seq().take(it.index()),
            it.seq() == s@,
    {
        chars.push(c);
    }
    chars
}

/// Compares two words without regard to the case of ASCII letters.
pub fn chars_eq_ignore_ascii_case(a: &Vec<char>, b: &Vec<char>) -> (same: bool)
    ensures
        same == eq_ignore_ascii_case(a@, b@),
{
    if a.len() != b.len() {
        return false;
    }
    let mut i: usize = 0;
    while i < a.len()
        invariant
            i <= a.len(),
            a.len() == b.len(),
            forall|k: int|
                0 <= k < i ==> spec_ascii_upper_code(#[trigger] a@[k]) == spec_ascii_upper_code(
                    b@[k],
                ),
        decreases a.len() - i,
    {
        if ascii_upper_code(a[i]) != ascii_upper_code(b[i]) {
            return false;
        }
        i += 1;
    }
    true
}

/// Finds the first place at which `c` stands in `chars`.
pub fn find_char(chars: &Vec<char>, c: char) -> (at: Option<usize>)
    ensures
        match at {
            Some(i) => i < chars@.len() && chars@.index_of_first(c) == Some(i as int),
            None => chars@.index_of_first(c) is None,
        },
{
    let mut i: usize = 0;
    while i < chars.len()
        invariant
            i <= chars.len(),
            forall|k: int| 0 <= k < i ==> chars@[k] != c,
        decreases chars.len() - i,
    {
        if chars[i] == c {
            proof {
                chars@.index_of_first_ensures(c);
            }
            return Some(i);
        }
        i += 1;
    }
    proof {
        chars@.index_of_first_ensures(c);
    }
    None
}

/// Whether `s` begins with the character `c`.
pub open spec fn starts_with_char(s: Seq<char>, c: char) -> bool {
    s.len() > 0 && s[0] == c
}

/// Tells whether `s` begins with the character `c`.
pub fn starts_with(s: &str, c: char) -> (b: bool)
    ensures
        b == starts_with_char(s@, c),
{
    if s.is_empty() {
        false
    } else {
        s.get_char(0) == c
    }
}

/// Whether `s` ends with a carriage return followed by a line feed.
pub open spec fn ends_with_crlf(s: Seq<char>) -> bool {
    s.len() >= 2 && s[s.len() - 2] == '\r' && s[s.len() - 1] == '\n'
}

/// Tells whether `s` ends with a carriage return followed by a line feed.
pub fn has_crlf_at_end(s: &str) -> (b: bool)
    ensures
        b == ends_with_crlf(s@),
{
    let n: usize = s.unicode_len();
    n >= 2 && s.get_char(n - 2) == '\r' && s.get_char(n - 1) == '\n'
}

/// Tells whether two strings hold the same characters.
pub fn str_eq(a: &str, b: &str) -> (same: bool)
    ensures
        same == (a@ == b@),
{
    let x = a.as_bytes();
    let y = b.as_bytes();
    proof {
        encode_utf8_decode_utf8(a@);
        encode_utf8_decode_utf8(b@);
    }
    if x.len() != y.len() {
        return false;
    }
    let mut i: usize = 0;
    while i < x.len()
        invariant
            i <= x.len(),
            x.len() == y.len(),
            x@ == encode_utf8(a@),
            y@ == encode_utf8(b@),
            forall|k: int| 0 <= k < i ==> x@[k] == y@[k],
        decreases x.len() - i,
    {
        if x[i] != y[i] {
            return false;
        }
        i += 1;
    }
    assert(x@ =~= y@);
    true
}

/// The number of characters at the front of `s` that are no whitespace.
pub open spec fn word_len(s: Seq<char>) -> nat
    decreases s.len(),
{
    if s.len() == 0 || spec_is_whitespace(s[0]) {
        0
    } else {
        1 + word_len(s.drop_first())
    }
}

/// A word is never longer than the text it begins.
pub proof fn lemma_word_len_bound(s: Seq<char>)
    ensures
        word_len(s) <= s.len(),
    decreases s.len(),
{
    if s.len() != 0 && !spec_is_whitespace(s[0]) {
        lemma_word_len_bound(s.drop_first());
    }
}

/// The words of `s`: its longest runs of characters that are no whitespace,
/// in the order in which they stand. No word is empty.
pub open spec fn split_whitespace(s: Seq<char>) -> Seq<Seq<char>>
    decreases s.len(),
    via split_whitespace_decreases
{
    if s.len() == 0 {
        Seq::empty()
    } else if spec_is_whitespace(s[0]) {
        split_whitespace(s.drop_first())
    } else {
        seq![s.take(word_len(s) as int)] + split_whitespace(s.skip(word_len(s) as int))
    }
}

#[via_fn]
proof fn split_whitespace_decreases(s: Seq<char>) {
    lemma_word_len_bound(s);
}

/// Where a run of characters that are no whitespace begins at `from` and
/// ends before `to`, at whitespace or at the end of `s`, the word that
/// begins at `from` is that run.
proof fn lemma_word_len_run(s: Seq<char>, from: int, to: int)
    requires
        0 <= from <= to <= s.len(),
        forall|k: int| from <= k < to ==> !spec_is_whitespace(#[trigger] s[k]),
        to == s.len() || spec_is_whitespace(s[to]),
    ensures
        word_len(s.skip(from)) == to - from,
    decreases to - from,
{
    if from < to {
        assert(s.skip(from).drop_first() =~= s.skip(from + 1));
        lemma_word_len_run(s, from + 1, to);
    }
}

/// Splits a line into its words.
pub fn split_words(line: &str) -> (words: Vec<String>)
    ensures
        words.deep_view() == split_whitespace(line@),
{
    let chars = chars_of(line);
    let n: usize = chars.len();
    let mut words: Vec<String> = Vec::new();
    let mut i: usize = 0;
    assert(line@.skip(0) =~= line@);
    while i < n
        invariant
            i <= n,
            n == chars.len(),
            chars@ == line@,
            split_whitespace(line@) == words.deep_view() + split_whitespace(line@.skip(i as int)),
        decreases n - i,
    {
        let ghost rest = line@.skip(i as int);
        if is_whitespace(chars[i]) {
            assert(rest.drop_first() =~= line@.skip(i + 1));
            i += 1;
        } else {
            let start: usize = i;
            let mut end: usize = i + 1;
            while end < n && !is_whitespace(chars[end])
                invariant
                    start < end <= n,
                    n == chars.len(),
                    chars@ == line@,
                    forall|k: int| start <= k < end ==> !spec_is_whitespace(#[trigger] line@[k]),
                decreases n - end,
            {
                end += 1;
            }
            proof {
                lemma_word_len_run(line@, start as int, end as int);
                assert(rest.take(end - start) =~= line@.subrange(start as int, end as int));
                assert(rest.skip(end - start) =~= line@.skip(end as int));
            }
            let word = line.substring_char(start, end).to_owned();
            words.push(word);
            i = end;
        }
    }
    words
}

/// Finds the first of `strings` that holds the characters of `s`.
pub fn find_string(strings: &Vec<String>, s: &str) -> (at: Option<usize>)
    ensures
        match at {
            Some(i) => i < strings@.len() && strings.deep_view().index_of_first(s@) == Some(
                i as int,
            ),
            None => strings.deep_view().index_of_first(s@) is None,
        },
{
    let ghost views = strings.deep_view();
    let mut i: usize = 0;
    while i < strings.len()
        invariant
            i <= strings.len(),
            views == strings.deep_view(),
            forall|k: int| 0 <= k < i ==> views[k] != s@,
        decreases strings.len() - i,
    {
        assert(views[i as int] == strings@[i as int]@);
        if str_eq(strings[i].as_str(), s) {
            proof {
                views.index_of_first_ensures(s@);
            }
            return Some(i);
        }
        i += 1;
    }
    proof {
        views.index_of_first_ensures(s@);
    }
    None
}

/// A copy of `strings`.
pub fn clone_strings(strings: &Vec<String>) -> (copy: Vec<String>)
    ensures
        copy.deep_view() == strings.deep_view(),
{
    let mut copy: Vec<String> = Vec::new();
    let mut i: usize = 0;
    while i < strings.len()
        invariant
            i <= strings.len(),
            copy.len() == i,
            forall|k: int| 0 <= k < i ==> copy@[k]@ == strings@[k]@,
        decreases strings.len() - i,
    {
        copy.push(strings[i].clone());
        i += 1;
    }
    copy
}

/// The predicate that holds of every text but `s`.
pub open spec fn is_not(s: Seq<char>) -> spec_fn(Seq<char>) -> bool {
    |other: Seq<char>| other != s
}

/// Those of `strings` that do not hold the characters of `s`, in their
/// order.
pub fn without_string(strings: &Vec<String>, s: &str) -> (kept: Vec<String>)
    ensures
        kept.deep_view() == strings.deep_view().filter(is_not(s@)),
{
    let ghost views = strings.deep_view();
    let ghost pred = is_not(s@);
    let mut kept: Vec<String> = Vec::new();
    let mut i: usize = 0;
    while i < strings.len()
        invariant
            i <= strings.len(),
            views == strings.deep_view(),
            pred == is_not(s@),
            kept.deep_view() == views.take(i as int).filter(pred),
        decreases strings.len() - i,
    {
        proof {
            assert(views.take(i + 1) =~= views.take(i as int).push(views[i as int]));
            views.take(i as int).lemma_filter_push(views[i as int], pred);
        }
        if !str_eq(strings[i].as_str(), s) {
            kept.push(strings[i].clone());
        }
        i += 1;
    }
    assert(views.take(strings.len() as int) =~= views);
    kept
}

} // verus!
