//! Text utilities: finding the first word of a string, measuring strings,
//! splitting text into lines, and searching lines for a query, with and
//! without regard to case.
use vstd::prelude::*;

verus! {

/// The index of the first occurrence of `target` in `s`, or `s.len()` if
/// `target` does not occur.
pub open spec fn first_index_of<A>(s: Seq<A>, target: A) -> int
    decreases s.len(),
{
    if s.len() == 0 {
        0
    } else if s[0] == target {
        0
    } else {
        1 + first_index_of(s.drop_first(), target)
    }
}

/// The index that sees the target first, with nothing equal to the target
/// before it, is `first_index_of`.
pub proof fn lemma_first_index_of_is<A>(s: Seq<A>, target: A, i: int)
    requires
        0 <= i <= s.len(),
        forall|k: int| 0 <= k < i ==> s[k] != target,
        i < s.len() ==> s[i] == target,
    ensures
        first_index_of(s, target) == i,
    decreases s.len(),
{
    if s.len() == 0 {
    } else if s[0] == target {
        assert(i == 0);
    } else {
        assert(s[0] != target);
        assert(i > 0) by {
            if i == 0 {
                assert(s[0] == target);
            }
        }
        assert forall|k: int| 0 <= k < i - 1 implies s.drop_first()[k] != target by {
            assert(s.drop_first()[k] == s[k + 1]);
        }
        if i - 1 < s.drop_first().len() {
            assert(s.drop_first()[i - 1] == s[i]);
        }
        lemma_first_index_of_is(s.drop_first(), target, i - 1);
    }
}

/// The bytes a string's characters are written as.
pub open spec fn spec_bytes_of(s: Seq<char>) -> Seq<u8> {
    vstd::utf8::encode_utf8(s)
}

/// Returns the string together with its byte length.
pub fn give_ownership(some_string: String) -> (r: (String, usize))
    ensures
        r.0 == some_string,
        r.1 == spec_bytes_of(some_string@).len() as usize,
{
    let length = some_string.as_str().len();
    (some_string, length)
}

/// The byte length of a borrowed string.
pub fn share_ownership(some_string: &String) -> (r: usize)
    ensures
        r == spec_bytes_of(some_string@).len() as usize,
{
    some_string.as_str().len()
}

/// The byte index where the first word of a string ends: the position of the
/// first space byte, or the whole byte length when there is none.
pub fn first_word_without_slices(s: &String) -> (r: usize)
    ensures
        r == first_index_of(spec_bytes_of(s@), 32u8),
{
    let bytes = s.as_str().as_bytes();
    let n = bytes.len();
    let ghost bs = spec_bytes_of(s@);
    for i in 0..n
        invariant
            bs == spec_bytes_of(s@),
            n == bs.len(),
            bytes@ == bs,
            forall|k: int| 0 <= k < i ==> bs[k] != 32u8,
    {
        if bytes[i] == 32u8 {
            proof {
                lemma_first_index_of_is(bs, 32u8, i as int);
            }
            return i;
        }
    }
    proof {
        lemma_first_index_of_is(bs, 32u8, n as int);
    }
    n
}

/// The first word of a string: everything before the first space character,
/// or the whole string when there is none.
pub fn first_word_using_slices<'a>(s: &'a String) -> (r: &'a str)
    ensures
        r@ == s@.subrange(0, first_index_of(s@, ' ')),
{
    let text = s.as_str();
    let n = text.unicode_len();
    let mut i: usize = 0;
    while i < n
        invariant
            0 <= i <= n,
            n == text@.len(),
            text@ == s@,
            forall|k: int| 0 <= k < i ==> text@[k] != ' ',
        decreases n - i,
    {
        if text.get_char(i) == ' ' {
            proof {
                lemma_first_index_of_is(s@, ' ', i as int);
            }
            return text.substring_char(0, i);
        }
        i = i + 1;
    }
    proof {
        lemma_first_index_of_is(s@, ' ', n as int);
        assert(s@.subrange(0, n as int) =~= s@);
    }
    text.substring_char(0, n)
}

/// String equality by contents.
pub fn str_eq(a: &str, b: &str) -> (r: bool)
    ensures
        r == (a@ == b@),
{
    let sa = String::from_str(a);
    let sb = String::from_str(b);
    sa == sb
}

/// A line as reported after splitting: the trailing carriage return of a
/// `\r\n` line ending is not part of the line.
pub open spec fn strip_cr(line: Seq<char>) -> Seq<char> {
    if line.len() > 0 && line[line.len() - 1] == '\r' {
        line.drop_last()
    } else {
        line
    }
}

/// The lines of a text: segments between newlines, each with a trailing
/// carriage return removed, and a final segment only when it is non-empty.
pub open spec fn spec_lines(s: Seq<char>) -> Seq<Seq<char>>
    decreases s.len(),
{
    if s.len() == 0 {
        Seq::<Seq<char>>::empty()
    } else {
        let i = first_index_of(s, '\n');
        if 0 <= i < s.len() {
            seq![strip_cr(s.subrange(0, i))] + spec_lines(s.subrange(i + 1, s.len() as int))
        } else {
            seq![s]
        }
    }
}

/// Splitting at the first newline, at a known position, peels off one line.
proof fn lemma_lines_step(s: Seq<char>, i: int)
    requires
        0 <= i < s.len(),
        forall|k: int| 0 <= k < i ==> s[k] != '\n',
        s[i] == '\n',
    ensures
        spec_lines(s) == seq![strip_cr(s.subrange(0, i))] + spec_lines(
            s.subrange(i + 1, s.len() as int),
        ),
{
    lemma_first_index_of_is(s, '\n', i);
}

/// A non-empty text without a newline is a single line.
proof fn lemma_lines_tail(s: Seq<char>)
    requires
        s.len() > 0,
        forall|k: int| 0 <= k < s.len() ==> s[k] != '\n',
    ensures
        spec_lines(s) == seq![s],
{
    lemma_first_index_of_is(s, '\n', s.len() as int);
}

/// Splits a text into its lines.
pub fn split_lines(content: &str) -> (r: Vec<String>)
    ensures
        r.deep_view() == spec_lines(content@),
{
    let n = content.unicode_len();
    let mut out: Vec<String> = Vec::new();
    let mut start: usize = 0;
    let mut i: usize = 0;
    proof {
        assert(content@.subrange(0, n as int) =~= content@);
    }
    while i < n
        invariant
            0 <= start <= i <= n,
            n == content@.len(),
            spec_lines(content@) == out.deep_view() + spec_lines(
                content@.subrange(start as int, n as int),
            ),
            forall|k: int| start <= k < i ==> content@[k] != '\n',
        decreases n - i,
    {
        let c = content.get_char(i);
        if c == '\n' {
            let ghost sub = content@.subrange(start as int, i as int);
            let line = if i > start && content.get_char(i - 1) == '\r' {
                let l = content.substring_char(start, i - 1);
                proof {
                    assert(sub[sub.len() - 1] == content@[i - 1]);
                    assert(strip_cr(sub) =~= content@.subrange(start as int, i - 1));
                }
                l
            } else {
                let l = content.substring_char(start, i);
                proof {
                    if sub.len() > 0 {
                        assert(sub[sub.len() - 1] == content@[i - 1]);
                    }
                    assert(strip_cr(sub) =~= sub);
                }
                l
            };
            let ghost old_out = out.deep_view();
            out.push(String::from_str(line));
            proof {
                let t = content@.subrange(start as int, n as int);
                let j = i - start;
                assert forall|k: int| 0 <= k < j implies t[k] != '\n' by {
                    assert(t[k] == content@[start + k]);
                }
                assert(t[j] == content@[i as int]);
                lemma_lines_step(t, j);
                assert(t.subrange(0, j) =~= sub);
                assert(t.subrange(j + 1, t.len() as int) =~= content@.subrange(
                    i + 1,
                    n as int,
                ));
                assert(out.deep_view() =~= old_out.push(line@));
                assert(out.deep_view() + spec_lines(content@.subrange(i + 1, n as int)) =~= old_out
                    + spec_lines(t));
            }
            start = i + 1;
        }
        i = i + 1;
    }
    if start < n {
        let line = content.substring_char(start, n);
        let ghost old_out = out.deep_view();
        out.push(String::from_str(line));
        proof {
            lemma_lines_tail(content@.subrange(start as int, n as int));
            assert(out.deep_view() =~= old_out.push(line@));
            assert(out.deep_view() =~= old_out + spec_lines(
                content@.subrange(start as int, n as int),
            ));
        }
    } else {
        proof {
            assert(content@.subrange(start as int, n as int) =~= Seq::<char>::empty());
            assert(out.deep_view() + spec_lines(Seq::<char>::empty()) =~= out.deep_view());
        }
    }
    out
}

/// Whether `needle` occurs in `hay` starting at position `i`.
pub open spec fn spec_contains_at(hay: Seq<char>, needle: Seq<char>, i: int) -> bool {
    &&& 0 <= i
    &&& i + needle.len() <= hay.len()
    &&& hay.subrange(i, i + needle.len() as int) == needle
}

/// Whether `needle` occurs anywhere in `hay`; an empty needle occurs in
/// every string.
pub open spec fn spec_contains(hay: Seq<char>, needle: Seq<char>) -> bool {
    exists|i: int| spec_contains_at(hay, needle, i)
}

/// Whether one string contains another as a contiguous substring.
pub fn contains_str(hay: &str, needle: &str) -> (r: bool)
    ensures
        r == spec_contains(hay@, needle@),
{
    let h = hay.unicode_len();
    let m = needle.unicode_len();
    if m > h {
        proof {
            assert forall|k: int| !spec_contains_at(hay@, needle@, k) by {}
        }
        return false;
    }
    let mut i: usize = 0;
    while i <= h - m
        invariant
            m <= h,
            0 <= i <= h - m + 1,
            h == hay@.len(),
            m == needle@.len(),
            forall|k: int| 0 <= k < i ==> !spec_contains_at(hay@, needle@, k),
        decreases h - m + 1 - i,
    {
        let mut j: usize = 0;
        let mut matches_here = true;
        while j < m && matches_here
            invariant
                0 <= j <= m,
                i + m <= h,
                h == hay@.len(),
                m == needle@.len(),
                matches_here ==> forall|l: int| 0 <= l < j ==> hay@[i + l] == needle@[l],
                !matches_here ==> !spec_contains_at(hay@, needle@, i as int),
                !matches_here ==> m > 0,
            decreases m - j + (if matches_here { 1int } else { 0int }),
        {
            if hay.get_char(i + j) == needle.get_char(j) {
                j = j + 1;
            } else {
                proof {
                    if spec_contains_at(hay@, needle@, i as int) {
                        assert(hay@.subrange(i as int, i + m as int)[j as int] == hay@[i + j]);
                    }
                }
                matches_here = false;
            }
        }
        if matches_here {
            proof {
                assert(hay@.subrange(i as int, i + m as int) =~= needle@);
                assert(spec_contains_at(hay@, needle@, i as int));
            }
            return true;
        }
        i = i + 1;
    }
    proof {
        assert forall|k: int| !spec_contains_at(hay@, needle@, k) by {}
    }
    false
}

/// The lines among `lines` that contain `query`.
pub open spec fn matching_lines(lines: Seq<Seq<char>>, query: Seq<char>) -> Seq<Seq<char>> {
    lines.filter(|line: Seq<char>| spec_contains(line, query))
}

/// Filtering one more line keeps it exactly when it contains the query.
proof fn lemma_matching_lines_push(lines: Seq<Seq<char>>, query: Seq<char>, x: Seq<char>)
    ensures
        matching_lines(lines.push(x), query) == if spec_contains(x, query) {
            matching_lines(lines, query).push(x)
        } else {
            matching_lines(lines, query)
        },
{
    reveal(Seq::filter);
    assert(lines.push(x).drop_last() =~= lines);
    assert(lines.push(x).last() == x);
}

/// The lines of `content` that contain `query`, in order.
pub open spec fn spec_search(query: Seq<char>, content: Seq<char>) -> Seq<Seq<char>> {
    matching_lines(spec_lines(content), query)
}

/// Returns every line of `content` that contains `query`, in order.
pub fn search(query: &str, content: &str) -> (r: Vec<String>)
    ensures
        r.deep_view() == spec_search(query@, content@),
{
    let lines = split_lines(content);
    let mut results: Vec<String> = Vec::new();
    let n = lines.len();
    proof {
        reveal(Seq::filter);
        assert(lines.deep_view().subrange(0, 0) =~= Seq::<Seq<char>>::empty());
    }
    let mut idx: usize = 0;
    while idx < n
        invariant
            0 <= idx <= n,
            n == lines.len(),
            lines.deep_view() == spec_lines(content@),
            lines.deep_view().len() == n,
            results.deep_view() == matching_lines(
                lines.deep_view().subrange(0, idx as int),
                query@,
            ),
        decreases n - idx,
    {
        let line = &lines[idx];
        let ghost old_results = results.deep_view();
        let ghost prefix = lines.deep_view().subrange(0, idx as int);
        if contains_str(line.as_str(), query) {
            results.push(line.clone());
            proof {
                assert(results.deep_view() =~= old_results.push(line@));
            }
        }
        proof {
            lemma_matching_lines_push(prefix, query@, line@);
            assert(prefix.push(line@) =~= lines.deep_view().subrange(0, idx + 1));
        }
        idx = idx + 1;
    }
    proof {
        assert(lines.deep_view().subrange(0, n as int) =~= lines.deep_view());
    }
    results
}

/// The case folding that case-insensitive search applies to a string.
/// What it maps each character sequence to is fixed by the folding rules
/// alone; search contracts relate folded strings through this name.
pub uninterp spec fn lower_of(s: Seq<char>) -> Seq<char>;

/// Relies on str::to_lowercase: the result depends on the characters of the
/// input alone.
#[verifier::external_body]
fn to_lowercase(s: &str) -> (r: String)
    ensures
        r@ == lower_of(s@),
        s@.len() == 0 ==> r@.len() == 0,
{
    s.to_lowercase()
}

/// The lines of `content` whose case-folded text contains the case-folded
/// query, in order.
pub open spec fn spec_search_case_insensitive(query: Seq<char>, content: Seq<char>) -> Seq<
    Seq<char>,
> {
    spec_lines(content).filter(
        |line: Seq<char>| spec_contains(lower_of(line), lower_of(query)),
    )
}

/// Filtering one more line, case-insensitively, keeps it exactly when its
/// folded text contains the folded query.
proof fn lemma_ci_lines_push(lines: Seq<Seq<char>>, query: Seq<char>, x: Seq<char>)
    ensures
        lines.push(x).filter(|line: Seq<char>| spec_contains(lower_of(line), lower_of(query)))
            == if spec_contains(lower_of(x), lower_of(query)) {
            lines.filter(
                |line: Seq<char>| spec_contains(lower_of(line), lower_of(query)),
            ).push(x)
        } else {
            lines.filter(|line: Seq<char>| spec_contains(lower_of(line), lower_of(query)))
        },
{
    reveal(Seq::filter);
    assert(lines.push(x).drop_last() =~= lines);
    assert(lines.push(x).last() == x);
}

/// Returns every line of `content` that contains `query` without regard to
/// case, in order: a line is kept when its case-folded text contains the
/// case-folded query.
pub fn search_case_insensitive(query: &str, content: &str) -> (r: Vec<String>)
    ensures
        r.deep_view() == spec_search_case_insensitive(query@, content@),
{
    let lines = split_lines(content);
    let lower_query = to_lowercase(query);
    let mut results: Vec<String> = Vec::new();
    let n = lines.len();
    proof {
        reveal(Seq::filter);
        assert(lines.deep_view().subrange(0, 0) =~= Seq::<Seq<char>>::empty());
    }
    let mut idx: usize = 0;
    while idx < n
        invariant
            0 <= idx <= n,
            n == lines.len(),
            lines.deep_view() == spec_lines(content@),
            lines.deep_view().len() == n,
            lower_query@ == lower_of(query@),
            results.deep_view() == lines.deep_view().subrange(0, idx as int).filter(
                |line: Seq<char>| spec_contains(lower_of(line), lower_of(query@)),
            ),
        decreases n - idx,
    {
        let line = &lines[idx];
        let ghost old_results = results.deep_view();
        let ghost prefix = lines.deep_view().subrange(0, idx as int);
        let lower_line = to_lowercase(line.as_str());
        if contains_str(lower_line.as_str(), lower_query.as_str()) {
            results.push(line.clone());
            proof {
                assert(results.deep_view() =~= old_results.push(line@));
            }
        }
        proof {
            lemma_ci_lines_push(prefix, query@, line@);
            assert(prefix.push(line@) =~= lines.deep_view().subrange(0, idx + 1));
        }
        idx = idx + 1;
    }
    proof {
        assert(lines.deep_view().subrange(0, n as int) =~= lines.deep_view());
    }
    results
}

/// Whether a character is a lowercase vowel.
pub open spec fn is_vowel(c: char) -> bool {
    c == 'a' || c == 'e' || c == 'i' || c == 'o' || c == 'u'
}

/// Whether a character is an ASCII letter.
pub open spec fn is_ascii_alpha(c: char) -> bool {
    (97 <= c as u32 && c as u32 <= 122) || (65 <= c as u32 && c as u32 <= 90)
}

/// Whether a character is an ASCII letter other than a lowercase vowel:
/// the kind of character pig latin moves to the end of a word.
pub open spec fn is_movable(c: char) -> bool {
    is_ascii_alpha(c) && !is_vowel(c)
}

/// The index of the first character pig latin would move, or the length
/// when there is none.
pub open spec fn first_movable(s: Seq<char>) -> int
    decreases s.len(),
{
    if s.len() == 0 {
        0
    } else if is_movable(s[0]) {
        0
    } else {
        1 + first_movable(s.drop_first())
    }
}

/// The index that sees a movable character first, with none before it, is
/// `first_movable`.
proof fn lemma_first_movable_is(s: Seq<char>, i: int)
    requires
        0 <= i <= s.len(),
        forall|k: int| 0 <= k < i ==> !is_movable(s[k]),
        i < s.len() ==> is_movable(s[i]),
    ensures
        first_movable(s) == i,
    decreases s.len(),
{
    if s.len() == 0 {
    } else if is_movable(s[0]) {
        assert(i == 0);
    } else {
        assert(i > 0) by {
            if i == 0 {
                assert(is_movable(s[0]));
            }
        }
        assert forall|k: int| 0 <= k < i - 1 implies !is_movable(s.drop_first()[k]) by {
            assert(s.drop_first()[k] == s[k + 1]);
        }
        if i - 1 < s.drop_first().len() {
            assert(s.drop_first()[i - 1] == s[i]);
        }
        lemma_first_movable_is(s.drop_first(), i - 1);
    }
}

/// A word in pig latin.  A word that starts with a vowel gains "hay"; a
/// word with a movable character has its first one moved to the end,
/// followed by "ay"; anything else, the empty word included, stays as it is.
pub open spec fn spec_pig_latin(s: Seq<char>) -> Seq<char> {
    if s.len() == 0 {
        s
    } else if is_vowel(s[0]) {
        s + "hay"@
    } else {
        let i = first_movable(s);
        if 0 <= i < s.len() {
            s.remove(i) + s.subrange(i, i + 1) + "ay"@
        } else {
            s
        }
    }
}

/// Whether a character is a lowercase vowel.
fn is_vowel_char(c: char) -> (r: bool)
    ensures
        r == is_vowel(c),
{
    c == 'a' || c == 'e' || c == 'i' || c == 'o' || c == 'u'
}

/// Whether a character is one pig latin would move.
fn is_movable_char(c: char) -> (r: bool)
    ensures
        r == is_movable(c),
{
    let u = c as u32;
    ((97 <= u && u <= 122) || (65 <= u && u <= 90)) && !is_vowel_char(c)
}

/// Converts one word to pig latin.
pub fn pig_latin(word: &str) -> (r: String)
    ensures
        r@ == spec_pig_latin(word@),
{
    let n = word.unicode_len();
    if n == 0 {
        return String::from_str(word);
    }
    if is_vowel_char(word.get_char(0)) {
        return String::from_str(word).concat("hay");
    }
    let mut i: usize = 0;
    while i < n
        invariant
            0 <= i <= n,
            0 < n == word@.len(),
            !is_vowel(word@[0]),
            forall|k: int| 0 <= k < i ==> !is_movable(word@[k]),
        decreases n - i,
    {
        if is_movable_char(word.get_char(i)) {
            proof {
                lemma_first_movable_is(word@, i as int);
            }
            let front = word.substring_char(0, i);
            let back = word.substring_char(i + 1, n);
            let moved = word.substring_char(i, i + 1);
            let r = String::from_str(front).concat(back).concat(moved).concat("ay");
            proof {
                assert(word@.remove(i as int) =~= word@.subrange(0, i as int) + word@.subrange(
                    i + 1,
                    n as int,
                ));
                assert(r@ =~= spec_pig_latin(word@));
            }
            return r;
        }
        i = i + 1;
    }
    proof {
        lemma_first_movable_is(word@, n as int);
    }
    String::from_str(word)
}

/// Of two strings, the one with more bytes; ties go to the second.
pub fn longest<'a>(x: &'a str, y: &'a str) -> (r: &'a str)
    ensures
        r@ == if spec_bytes_of(x@).len() as usize > spec_bytes_of(y@).len() as usize {
            x@
        } else {
            y@
        },
{
    if x.len() > y.len() {
        x
    } else {
        y
    }
}

} // verus!
