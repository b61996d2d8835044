//! The title of an entry: the first line of its file, with every `#` taken out
//! and the white space at both ends trimmed away.

use vstd::prelude::*;
use vstd::std_specs::iter::IteratorSpec;
use crate::error::BlogError;
use crate::text::{char_is_whitespace, is_whitespace};

verus! {

broadcast use vstd::string::group_string_axioms;

/// The number of characters before the first line feed of `s`, or the length
/// of `s` where it holds none.
pub open spec fn line_len(s: Seq<char>) -> nat
    decreases s.len(),
{
    if s.len() == 0 || s.first() == '\n' {
        0
    } else {
        1 + line_len(s.drop_first())
    }
}

/// The first line of `s`, without the line feed that ends it.
pub open spec fn first_line(s: Seq<char>) -> Seq<char> {
    s.take(line_len(s) as int)
}

/// Whether `c` stays in a title: every character does, but `#`.
pub open spec fn is_kept(c: char) -> bool {
    c != '#'
}

/// `s` with every `#` taken out, wherever it stands.
pub open spec fn without_hashes(s: Seq<char>) -> Seq<char> {
    s.filter(|c: char| is_kept(c))
}

/// `s` without the white space it starts with.
pub open spec fn trim_start(s: Seq<char>) -> Seq<char>
    decreases s.len(),
{
    if s.len() > 0 && is_whitespace(s.first()) {
        trim_start(s.drop_first())
    } else {
        s
    }
}

/// `s` without the white space it ends with.
pub open spec fn trim_end(s: Seq<char>) -> Seq<char>
    decreases s.len(),
{
    if s.len() > 0 && is_whitespace(s.last()) {
        trim_end(s.drop_last())
    } else {
        s
    }
}

/// `s` without the white space at either end.
pub open spec fn trim(s: Seq<char>) -> Seq<char> {
    trim_end(trim_start(s))
}

/// The title that a file with the text `content` is listed under.
pub open spec fn title_of(content: Seq<char>) -> Seq<char> {
    trim(without_hashes(first_line(content)))
}

/// Whether every character of `s` from `from` up to `to` is white space.
pub open spec fn all_whitespace(s: Seq<char>, from: int, to: int) -> bool {
    forall|i: int| from <= i < to ==> is_whitespace(#[trigger] s[i])
}

/// Trimming the start drops exactly the white space before the first
/// character that is none.
pub proof fn lemma_trim_start(s: Seq<char>, k: int)
    requires
        0 <= k <= s.len(),
        all_whitespace(s, 0, k),
        k < s.len() ==> !is_whitespace(s[k]),
    ensures
        trim_start(s) == s.skip(k),
    decreases k,
{
    if k == 0 {
        assert(s.skip(0) =~= s);
    } else {
        assert(is_whitespace(s[0]));
        let rest = s.drop_first();
        assert forall|i: int| 0 <= i < k - 1 implies is_whitespace(#[trigger] rest[i]) by {
            assert(rest[i] == s[i + 1]);
        }
        lemma_trim_start(rest, k - 1);
        assert(rest.skip(k - 1) =~= s.skip(k));
    }
}

/// Trimming the end drops exactly the white space after the last character
/// that is none.
pub proof fn lemma_trim_end(s: Seq<char>, k: int)
    requires
        0 <= k <= s.len(),
        all_whitespace(s, k, s.len() as int),
        k > 0 ==> !is_whitespace(s[k - 1]),
    ensures
        trim_end(s) == s.take(k),
    decreases s.len() - k,
{
    if k == s.len() {
        assert(s.take(k) =~= s);
    } else {
        assert(is_whitespace(s[s.len() - 1]));
        let rest = s.drop_last();
        assert forall|i: int| k <= i < rest.len() implies is_whitespace(#[trigger] rest[i]) by {
            assert(rest[i] == s[i]);
        }
        lemma_trim_end(rest, k);
        assert(rest.take(k) =~= s.take(k));
    }
}

/// Finds where the trimmed part of `chars` starts and ends: at its first
/// and behind its last character that is no white space. Where all of it is
/// white space, both bounds are its length.
pub fn trim_bounds(chars: &Vec<char>) -> (bounds: (usize, usize))
    ensures
        bounds.0 <= bounds.1 <= chars@.len(),
        chars@.subrange(bounds.0 as int, bounds.1 as int) == trim(chars@),
        all_whitespace(chars@, 0, bounds.0 as int),
        all_whitespace(chars@, bounds.1 as int, chars@.len() as int),
        bounds.0 < bounds.1 ==> !is_whitespace(chars@[bounds.0 as int]) && !is_whitespace(
            chars@[bounds.1 - 1],
        ),
        bounds.0 == bounds.1 ==> bounds.0 == chars@.len(),
{
    let n: usize = chars.len();
    let mut start: usize = 0;
    while start < n && char_is_whitespace(chars[start])
        invariant
            n == chars@.len(),
            start <= n,
            all_whitespace(chars@, 0, start as int),
        decreases n - start,
    {
        start += 1;
    }
    let mut end: usize = n;
    while end > start && char_is_whitespace(chars[end - 1])
        invariant
            n == chars@.len(),
            start <= end <= n,
            start < n ==> !is_whitespace(chars@[start as int]),
            all_whitespace(chars@, end as int, n as int),
        decreases end,
    {
        end -= 1;
    }
    proof {
        let s = chars@;
        lemma_trim_start(s, start as int);
        let rest = s.skip(start as int);
        let k = end - start;
        assert forall|i: int| k <= i < rest.len() implies is_whitespace(#[trigger] rest[i]) by {
            assert(rest[i] == s[i + start]);
        }
        lemma_trim_end(rest, k);
        assert(rest.take(k) =~= s.subrange(start as int, end as int));
    }
    (start, end)
}

/// The first line of a text ends where its first line feed stands, or where
/// the text ends: `n` is that place when no line feed comes before it.
pub proof fn lemma_line_len(s: Seq<char>, n: int)
    requires
        0 <= n <= s.len(),
        forall|i: int| 0 <= i < n ==> s[i] != '\n',
        n < s.len() ==> s[n] == '\n',
    ensures
        line_len(s) == n,
    decreases n,
{
    if n > 0 {
        let rest = s.drop_first();
        assert forall|i: int| 0 <= i < n - 1 implies rest[i] != '\n' by {
            assert(rest[i] == s[i + 1]);
        }
        lemma_line_len(rest, n - 1);
    }
}

/// Taking the `#`s out of a text that grew by one character: the character
/// is added where it is kept, and dropped where it is a `#`.
pub proof fn lemma_without_hashes_push(s: Seq<char>, c: char)
    ensures
        without_hashes(s.push(c)) == if is_kept(c) {
            without_hashes(s).push(c)
        } else {
            without_hashes(s)
        },
{
    s.lemma_filter_push(c, |c: char| is_kept(c));
}

/// The characters of the first line of `content` that are no `#`.
fn heading_chars(content: &str) -> (kept: Vec<char>)
    ensures
        kept@ == without_hashes(first_line(content@)),
{
    let mut kept: Vec<char> = Vec::new();
    let mut it = content.chars();
    let ghost mut seen: Seq<char> = Seq::empty();
    proof {
        assert(seen + it.remaining() =~= content@);
        reveal_with_fuel(Seq::filter, 1);
        assert(without_hashes(seen) =~= Seq::<char>::empty());
    }
    loop
        invariant_except_break
            seen + it.remaining() == content@,
            forall|i: int| 0 <= i < seen.len() ==> seen[i] != '\n',
            kept@ == without_hashes(seen),
            it.decrease() is Some,
        ensures
            kept@ == without_hashes(first_line(content@)),
        decreases it.decrease()->0,
    {
        let ghost before = it.remaining();
        let next = it.next();
        proof {
            assert(forall|i: int| 0 <= i < seen.len() ==> seen[i] == content@[i]);
            if before.len() > 0 {
                assert(content@[seen.len() as int] == before[0]);
            } else {
                assert(seen =~= content@);
            }
            if next == Some('\n') || next is None {
                lemma_line_len(content@, seen.len() as int);
                assert(content@.take(seen.len() as int) =~= seen);
            }
        }
        match next {
            Some(c) => {
                if c == '\n' {
                    break;
                }
                proof {
                    lemma_without_hashes_push(seen, c);
                    assert(seen.push(c) + before.drop_first() =~= seen + before);
                    seen = seen.push(c);
                }
                if c != '#' {
                    kept.push(c);
                }
            },
            None => {
                break;
            },
        }
    }
    kept
}

/// Takes the title of an entry from the text of its file.
///
/// The title is the first line of the text with every `#` removed and the
/// white space at both ends trimmed. A file without any text has no first
/// line, and no title: that is the one input refused.
pub fn extract_title(content: &str) -> (title: Result<String, BlogError>)
    ensures
        title is Err <==> content@.len() == 0,
        title matches Err(e) ==> e == BlogError::MissingTitle,
        title matches Ok(t) ==> t@ == title_of(content@),
{
    if content.is_empty() {
        return Err(BlogError::MissingTitle);
    }
    let kept = heading_chars(content);
    let (start, end) = trim_bounds(&kept);
    let mut title = String::new();
    let mut i: usize = start;
    while i < end
        invariant
            start <= i <= end <= kept@.len(),
            title@ == kept@.subrange(start as int, i as int),
        decreases end - i,
    {
        title.push(kept[i]);
        i += 1;
        assert(kept@.subrange(start as int, i as int) =~= kept@.subrange(
            start as int,
            i as int - 1,
        ).push(kept@[i as int - 1]));
    }
    Ok(title)
}

/// The first line is the longest start of the text that holds no line feed:
/// it is a start of the text, no line feed stands in it, and where it is
/// shorter than the text a line feed follows it.
pub proof fn lemma_first_line(s: Seq<char>)
    ensures
        line_len(s) <= s.len(),
        first_line(s) == s.take(line_len(s) as int),
        forall|i: int| 0 <= i < line_len(s) ==> s[i] != '\n',
        line_len(s) < s.len() ==> s[line_len(s) as int] == '\n',
    decreases s.len(),
{
    if s.len() > 0 && s.first() != '\n' {
        let rest = s.drop_first();
        lemma_first_line(rest);
        assert forall|i: int| 0 <= i < line_len(s) implies s[i] != '\n' by {
            if i > 0 {
                assert(rest[i - 1] == s[i]);
            }
        }
        if line_len(s) < s.len() {
            assert(rest[line_len(rest) as int] == s[line_len(s) as int]);
        }
    }
}

/// Where the white space at the start of `s` ends: what trimming the start
/// leaves is `s` from there on.
pub proof fn lemma_trim_start_bound(s: Seq<char>) -> (a: int)
    ensures
        0 <= a <= s.len(),
        all_whitespace(s, 0, a),
        a < s.len() ==> !is_whitespace(s[a]),
        trim_start(s) == s.skip(a),
    decreases s.len(),
{
    if s.len() > 0 && is_whitespace(s.first()) {
        let rest = s.drop_first();
        let b = lemma_trim_start_bound(rest);
        assert forall|i: int| 0 <= i < b + 1 implies is_whitespace(#[trigger] s[i]) by {
            if i > 0 {
                assert(rest[i - 1] == s[i]);
            }
        }
        if b + 1 < s.len() {
            assert(rest[b] == s[b + 1]);
        }
        lemma_trim_start(s, b + 1);
        b + 1
    } else {
        lemma_trim_start(s, 0);
        0
    }
}

/// Where the white space at the end of `s` starts: what trimming the end
/// leaves is `s` up to there.
pub proof fn lemma_trim_end_bound(s: Seq<char>) -> (b: int)
    ensures
        0 <= b <= s.len(),
        all_whitespace(s, b, s.len() as int),
        b > 0 ==> !is_whitespace(s[b - 1]),
        trim_end(s) == s.take(b),
    decreases s.len(),
{
    if s.len() > 0 && is_whitespace(s.last()) {
        let rest = s.drop_last();
        let b = lemma_trim_end_bound(rest);
        assert forall|i: int| b <= i < s.len() implies is_whitespace(#[trigger] s[i]) by {
            if i < rest.len() {
                assert(rest[i] == s[i]);
            }
        }
        if b > 0 {
            assert(rest[b - 1] == s[b - 1]);
        }
        lemma_trim_end(s, b);
        b
    } else {
        lemma_trim_end(s, s.len() as int);
        s.len() as int
    }
}

/// Trimming cuts a text down to the part between its first and its last
/// character that is no white space, and changes nothing inside that part.
pub proof fn lemma_trim(s: Seq<char>) -> (bounds: (int, int))
    ensures
        0 <= bounds.0 <= bounds.1 <= s.len(),
        trim(s) == s.subrange(bounds.0, bounds.1),
        all_whitespace(s, 0, bounds.0),
        all_whitespace(s, bounds.1, s.len() as int),
        bounds.0 < bounds.1 ==> !is_whitespace(s[bounds.0]) && !is_whitespace(s[bounds.1 - 1]),
{
    let a = lemma_trim_start_bound(s);
    let rest = s.skip(a);
    let k = lemma_trim_end_bound(rest);
    let b = a + k;
    assert(rest.take(k) =~= s.subrange(a, b));
    assert forall|i: int| b <= i < s.len() implies is_whitespace(#[trigger] s[i]) by {
        assert(rest[i - a] == s[i]);
    }
    if a < b {
        assert(rest[k - 1] == s[b - 1]);
    }
    (a, b)
}

/// A text that neither starts nor ends with white space is its own trimmed form.
pub proof fn lemma_trim_of_trimmed(s: Seq<char>)
    requires
        s.len() > 0 ==> !is_whitespace(s.first()) && !is_whitespace(s.last()),
    ensures
        trim(s) == s,
{
}

/// A text without any `#` loses nothing when the `#`s are taken out.
pub proof fn lemma_without_hashes_of_clean(s: Seq<char>)
    requires
        forall|i: int| 0 <= i < s.len() ==> s[i] != '#',
    ensures
        without_hashes(s) == s,
    decreases s.len(),
{
    reveal_with_fuel(Seq::filter, 1);
    if s.len() > 0 {
        lemma_without_hashes_of_clean(s.drop_last());
        assert(s.drop_last().push(s.last()) =~= s);
    }
}

/// What taking the `#`s out leaves: no `#`, and only characters of the text.
pub proof fn lemma_without_hashes(s: Seq<char>)
    ensures
        without_hashes(s).len() <= s.len(),
        forall|i: int| 0 <= i < without_hashes(s).len() ==> without_hashes(s)[i] != '#',
        forall|i: int|
            0 <= i < without_hashes(s).len() ==> s.contains(#[trigger] without_hashes(s)[i]),
    decreases s.len(),
{
    reveal_with_fuel(Seq::filter, 1);
    if s.len() > 0 {
        let front = s.drop_last();
        lemma_without_hashes(front);
        let w = without_hashes(s);
        assert forall|i: int| 0 <= i < w.len() implies s.contains(#[trigger] w[i]) by {
            if i < without_hashes(front).len() {
                let j = choose|j: int| 0 <= j < front.len() && front[j] == without_hashes(front)[i];
                assert(s[j] == w[i]);
            } else {
                assert(s[s.len() - 1] == w[i]);
            }
        }
    }
}

/// A title is clean: it holds no line feed and no `#`, and neither starts
/// nor ends with white space.
pub proof fn lemma_title_is_clean(content: Seq<char>)
    ensures
        forall|i: int| 0 <= i < title_of(content).len() ==> title_of(content)[i] != '\n',
        forall|i: int| 0 <= i < title_of(content).len() ==> title_of(content)[i] != '#',
        title_of(content).len() > 0 ==> !is_whitespace(title_of(content).first())
            && !is_whitespace(title_of(content).last()),
{
    let line = first_line(content);
    let kept = without_hashes(line);
    let title = title_of(content);
    lemma_first_line(content);
    lemma_without_hashes(line);
    let (a, b) = lemma_trim(kept);
    assert forall|i: int| 0 <= i < title.len() implies title[i] != '\n' && title[i] != '#' by {
        assert(title[i] == kept[a + i]);
        assert(line.contains(kept[a + i]));
        let j = choose|j: int| 0 <= j < line.len() && line[j] == kept[a + i];
        assert(line[j] == content[j]);
    }
}

/// Taking the title of a title changes nothing: a title is its own title.
pub proof fn lemma_title_idempotent(content: Seq<char>)
    ensures
        title_of(title_of(content)) == title_of(content),
{
    let title = title_of(content);
    lemma_title_is_clean(content);
    lemma_line_len(title, title.len() as int);
    assert(first_line(title) =~= title);
    lemma_without_hashes_of_clean(title);
    lemma_trim_of_trimmed(title);
}

} // verus!
