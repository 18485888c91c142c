//! Operations on text, specified over sequences of characters.

use vstd::prelude::*;

verus! {

/// `std::string::String::push`: appends one character.
pub assume_specification[ String::push ](s: &mut String, ch: char)
    ensures
        final(s)@ == old(s)@.push(ch),
;

/// `std::string::String::pop`: removes the last character and returns it,
/// or returns `None` and leaves an empty string as it is.
pub assume_specification[ String::pop ](s: &mut String) -> (r: Option<char>)
    ensures
        old(s)@.len() == 0 ==> r is None && final(s)@ == old(s)@,
        old(s)@.len() > 0 ==> r == Some(old(s)@.last()) && final(s)@ == old(s)@.drop_last(),
;

/// The upper-case form of a text, as `str::to_uppercase` computes it from
/// the Unicode case mappings.
pub uninterp spec fn uppercase(s: Seq<char>) -> Seq<char>;

/// `str::to_uppercase`: the result is named, not described.
#[verifier::external_body]
pub(crate) fn to_uppercase(s: &str) -> (r: String)
    ensures
        r@ == uppercase(s@),
{
    s.to_uppercase()
}

/// The characters of a string, in order.
pub fn chars_of(s: &str) -> (v: Vec<char>)
    ensures
        v@ == s@,
{
    let mut v: Vec<char> = Vec::new();
    for c in it: s.chars()
        invariant
            v@ == it.seq().take(it.index() as int),
    {
        v.push(c);
    }
    v
}

/// `pat` stands in `text` at position `i`.
pub open spec fn occurs_at(text: Seq<char>, pat: Seq<char>, i: int) -> bool {
    &&& 0 <= i
    &&& i + pat.len() <= text.len()
    &&& text.subrange(i, i + pat.len()) == pat
}

/// `pat` stands somewhere in `text`.
pub open spec fn occurs(text: Seq<char>, pat: Seq<char>) -> bool {
    exists|i: int| occurs_at(text, pat, i)
}

/// `i` is the leftmost position at which `pat` stands in `text`.
pub open spec fn is_first_occurrence(text: Seq<char>, pat: Seq<char>, i: int) -> bool {
    &&& occurs_at(text, pat, i)
    &&& forall|j: int| 0 <= j < i ==> !occurs_at(text, pat, j)
}

/// The leftmost position at which `pat` stands in `text`, where it occurs.
pub open spec fn first_occurrence(text: Seq<char>, pat: Seq<char>) -> int {
    choose|i: int| is_first_occurrence(text, pat, i)
}

/// The leftmost occurrence is unique.
pub proof fn lemma_first_occurrence(text: Seq<char>, pat: Seq<char>, i: int)
    requires
        is_first_occurrence(text, pat, i),
    ensures
        occurs(text, pat),
        first_occurrence(text, pat) == i,
{
    let k = first_occurrence(text, pat);
    assert(is_first_occurrence(text, pat, k));
    if k < i {
        assert(!occurs_at(text, pat, k));
    } else if i < k {
        assert(!occurs_at(text, pat, i));
    }
}

/// Whether `pat` stands in `text` at position `i`.
pub fn matches_at(text: &Vec<char>, pat: &Vec<char>, i: usize) -> (r: bool)
    ensures
        r == occurs_at(text@, pat@, i as int),
{
    if pat.len() > text.len() || i > text.len() - pat.len() {
        return false;
    }
    let mut k: usize = 0;
    while k < pat.len()
        invariant
            k <= pat.len(),
            i + pat.len() <= text.len(),
            forall|j: int| 0 <= j < k ==> text@[i + j] == pat@[j],
        decreases pat.len() - k,
    {
        if text[i + k] != pat[k] {
            proof {
                assert(text@.subrange(i as int, i + pat.len())[k as int] == text@[i + k]);
            }
            return false;
        }
        k += 1;
    }
    proof {
        assert(text@.subrange(i as int, i + pat.len()) =~= pat@);
    }
    true
}

/// Whether `text` begins with `pat`.
pub fn starts_with(text: &Vec<char>, pat: &Vec<char>) -> (r: bool)
    ensures
        r == pat@.is_prefix_of(text@),
{
    let r = matches_at(text, pat, 0);
    proof {
        if pat@.len() <= text@.len() {
            assert(text@.subrange(0, pat@.len() as int) =~= text@.take(pat@.len() as int));
        }
    }
    r
}

/// The leftmost position at which `pat` stands in `text`, or `None` where it
/// stands nowhere.
pub fn find(text: &Vec<char>, pat: &Vec<char>) -> (r: Option<usize>)
    ensures
        r is Some <==> occurs(text@, pat@),
        r matches Some(i) ==> i as int == first_occurrence(text@, pat@) && is_first_occurrence(
            text@,
            pat@,
            i as int,
        ),
{
    if pat.len() > text.len() {
        proof {
            assert forall|j: int| !occurs_at(text@, pat@, j) by {}
        }
        return None;
    }
    let last: usize = text.len() - pat.len();
    let mut i: usize = 0;
    while i < last
        invariant
            last == text.len() - pat.len(),
            i <= last,
            forall|j: int| 0 <= j < i ==> !occurs_at(text@, pat@, j),
        decreases last - i,
    {
        if matches_at(text, pat, i) {
            proof {
                lemma_first_occurrence(text@, pat@, i as int);
            }
            return Some(i);
        }
        i += 1;
    }
    if matches_at(text, pat, last) {
        proof {
            lemma_first_occurrence(text@, pat@, last as int);
        }
        return Some(last);
    }
    proof {
        assert forall|j: int| !occurs_at(text@, pat@, j) by {}
    }
    None
}

/// The position of the first line feed in `s`, or the length of `s` where it
/// holds none.
pub open spec fn first_newline(s: Seq<char>) -> int
    decreases s.len(),
{
    if s.len() == 0 || s[0] == '\n' {
        0
    } else {
        1 + first_newline(s.drop_first())
    }
}

/// A line without the carriage return that stood before its line feed.
pub open spec fn strip_carriage_return(line: Seq<char>) -> Seq<char> {
    if line.len() > 0 && line.last() == '\r' {
        line.drop_last()
    } else {
        line
    }
}

/// The lines of a text. A line ends at a line feed, or at a carriage return
/// directly followed by one; neither belongs to the line. What follows the
/// last line feed is a line unless it is empty.
pub open spec fn lines_of(s: Seq<char>) -> Seq<Seq<char>>
    decreases s.len(),
{
    if s.len() == 0 {
        Seq::empty()
    } else {
        let k = first_newline(s);
        if 0 <= k < s.len() {
            seq![strip_carriage_return(s.take(k))] + lines_of(s.skip(k + 1))
        } else {
            seq![s]
        }
    }
}

/// `first_newline` is the position of a line feed that no line feed precedes.
pub proof fn lemma_first_newline(s: Seq<char>, k: int)
    requires
        0 <= k <= s.len(),
        forall|j: int| 0 <= j < k ==> s[j] != '\n',
        k < s.len() ==> s[k] == '\n',
    ensures
        first_newline(s) == k,
    decreases k,
{
    if k > 0 {
        let rest = s.drop_first();
        assert forall|j: int| 0 <= j < k - 1 implies rest[j] != '\n' by {
            assert(rest[j] == s[j + 1]);
        }
        lemma_first_newline(rest, k - 1);
    }
}

/// Splits a text into its lines.
pub fn lines<'a>(text: &'a str) -> (out: Vec<&'a str>)
    ensures
        out.deep_view() == lines_of(text@),
{
    let chars = chars_of(text);
    let n = chars.len();
    let mut out: Vec<&'a str> = Vec::new();
    let mut start: usize = 0;
    let mut i: usize = 0;
    proof {
        assert(text@.skip(0) =~= text@);
        assert(out.deep_view() + lines_of(text@) =~= lines_of(text@));
    }
    while i < n
        invariant
            chars@ == text@,
            n == chars.len(),
            start <= i <= n,
            forall|j: int| start <= j < i ==> chars@[j] != '\n',
            lines_of(text@) == out.deep_view() + lines_of(text@.skip(start as int)),
        decreases n - i,
    {
        if chars[i] == '\n' {
            let end: usize = if i > start && chars[i - 1] == '\r' {
                i - 1
            } else {
                i
            };
            let line = text.substring_char(start, end);
            proof {
                let rest = text@.skip(start as int);
                lemma_first_newline(rest, i - start);
                assert(rest.take(i - start) =~= text@.subrange(start as int, i as int));
                assert(rest.skip(i - start + 1) =~= text@.skip(i + 1));
                assert(line@ =~= strip_carriage_return(rest.take(i - start)));
                assert(out.deep_view().push(line@) + lines_of(text@.skip(i + 1)) =~= out.deep_view()
                    + lines_of(rest));
            }
            let ghost before = out.deep_view();
            out.push(line);
            proof {
                assert(out.deep_view() =~= before.push(line@));
            }
            start = i + 1;
        }
        i += 1;
    }
    if start < n {
        let line = text.substring_char(start, n);
        proof {
            let rest = text@.skip(start as int);
            lemma_first_newline(rest, n - start);
            assert(line@ =~= rest);
            assert(out.deep_view().push(line@) =~= out.deep_view() + lines_of(rest));
        }
        let ghost before = out.deep_view();
        out.push(line);
        proof {
            assert(out.deep_view() =~= before.push(line@));
        }
    } else {
        proof {
            assert(out.deep_view() + lines_of(text@.skip(start as int)) =~= out.deep_view());
        }
    }
    out
}

/// The characters with the Unicode property `White_Space`.
pub open spec fn is_white_space(c: char) -> bool {
    let u = c as u32;
    ||| 0x09 <= u <= 0x0D
    ||| u == 0x20
    ||| u == 0x85
    ||| u == 0xA0
    ||| u == 0x1680
    ||| 0x2000 <= u <= 0x200A
    ||| u == 0x2028
    ||| u == 0x2029
    ||| u == 0x202F
    ||| u == 0x205F
    ||| u == 0x3000
}

/// Whether a character has the Unicode property `White_Space`.
pub fn white_space(c: char) -> (r: bool)
    ensures
        r == is_white_space(c),
{
    let u: u32 = c as u32;
    (0x09 <= u && u <= 0x0D) || u == 0x20 || u == 0x85 || u == 0xA0 || u == 0x1680 || (0x2000 <= u
        && u <= 0x200A) || u == 0x2028 || u == 0x2029 || u == 0x202F || u == 0x205F || u == 0x3000
}

/// `s` without its leading white space.
pub open spec fn trim_start(s: Seq<char>) -> Seq<char>
    decreases s.len(),
{
    if s.len() > 0 && is_white_space(s[0]) {
        trim_start(s.drop_first())
    } else {
        s
    }
}

/// `s` without its trailing white space.
pub open spec fn trim_end(s: Seq<char>) -> Seq<char>
    decreases s.len(),
{
    if s.len() > 0 && is_white_space(s.last()) {
        trim_end(s.drop_last())
    } else {
        s
    }
}

/// `s` without its leading and trailing white space.
pub open spec fn trimmed(s: Seq<char>) -> Seq<char> {
    trim_end(trim_start(s))
}

/// Removes leading and trailing white space.
pub fn trim<'a>(text: &'a str) -> (r: &'a str)
    ensures
        r@ == trimmed(text@),
{
    let chars = chars_of(text);
    let n = chars.len();
    let mut start: usize = 0;
    proof {
        assert(text@.skip(0) =~= text@);
    }
    while start < n && white_space(chars[start])
        invariant
            chars@ == text@,
            n == chars.len(),
            start <= n,
            trim_start(text@) == trim_start(text@.skip(start as int)),
        decreases n - start,
    {
        proof {
            assert(text@.skip(start as int).drop_first() =~= text@.skip(start + 1));
        }
        start += 1;
    }
    proof {
        assert(trim_start(text@) == text@.skip(start as int));
    }
    let mut end: usize = n;
    while end > start && white_space(chars[end - 1])
        invariant
            chars@ == text@,
            n == chars.len(),
            start <= end <= n,
            trimmed(text@) == trim_end(text@.subrange(start as int, end as int)),
        decreases end,
    {
        proof {
            assert(text@.subrange(start as int, end as int).drop_last() =~= text@.subrange(
                start as int,
                end - 1,
            ));
        }
        end -= 1;
    }
    text.substring_char(start, end)
}

/// `s` without the occurrences of `c` that it begins with.
pub open spec fn strip_leading(s: Seq<char>, c: char) -> Seq<char>
    decreases s.len(),
{
    if s.len() > 0 && s[0] == c {
        strip_leading(s.drop_first(), c)
    } else {
        s
    }
}

/// Removes every leading occurrence of `c`.
pub fn trim_start_matches<'a>(text: &'a str, c: char) -> (r: &'a str)
    ensures
        r@ == strip_leading(text@, c),
{
    let chars = chars_of(text);
    let n = chars.len();
    let mut start: usize = 0;
    proof {
        assert(text@.skip(0) =~= text@);
    }
    while start < n && chars[start] == c
        invariant
            chars@ == text@,
            n == chars.len(),
            start <= n,
            strip_leading(text@, c) == strip_leading(text@.skip(start as int), c),
        decreases n - start,
    {
        proof {
            assert(text@.skip(start as int).drop_first() =~= text@.skip(start + 1));
        }
        start += 1;
    }
    text.substring_char(start, n)
}

} // verus!
