use vstd::prelude::*;
use vstd::string::StrSliceExecFns;

verus! {

/// The code points with the Unicode `White_Space` property, the characters
/// that trimming removes.
pub open spec fn is_space_char(c: char) -> bool {
    let n = c as u32;
    ||| 0x09 <= n <= 0x0D
    ||| n == 0x20
    ||| n == 0x85
    ||| n == 0xA0
    ||| n == 0x1680
    ||| 0x2000 <= n <= 0x200A
    ||| n == 0x2028
    ||| n == 0x2029
    ||| n == 0x202F
    ||| n == 0x205F
    ||| n == 0x3000
}

/// A text is blank when every character is whitespace; the empty text is
/// blank. This is exactly "trims to the empty string".
pub open spec fn blank(s: Seq<char>) -> bool {
    forall|i: int| 0 <= i < s.len() ==> is_space_char(#[trigger] s[i])
}

fn is_space(c: char) -> (r: bool)
    ensures
        r == is_space_char(c),
{
    let n = c as u32;
    (0x09 <= n && n <= 0x0D) || n == 0x20 || n == 0x85 || n == 0xA0 || n == 0x1680 || (0x2000 <= n
        && n <= 0x200A) || n == 0x2028 || n == 0x2029 || n == 0x202F || n == 0x205F || n == 0x3000
}

/// Decides whether a text trims to nothing.
pub fn is_blank(s: &str) -> (r: bool)
    ensures
        r == blank(s@),
{
    let n = s.unicode_len();
    let mut i: usize = 0;
    while i < n
        invariant
            n == s@.len(),
            i <= n,
            forall|j: int| 0 <= j < i ==> is_space_char(#[trigger] s@[j]),
        decreases n - i,
    {
        if !is_space(s.get_char(i)) {
            return false;
        }
        i += 1;
    }
    true
}

/// The lowercase folding that `str::to_lowercase` computes; it is named here,
/// not restated, and depends on the characters alone.
pub uninterp spec fn lower_of(s: Seq<char>) -> Seq<char>;

/// Relies on `str::to_lowercase`: the Unicode lowercase form of the text, a
/// function of its characters alone.
#[verifier::external_body]
pub(crate) fn to_lowercase(s: &str) -> (r: String)
    ensures
        r@ == lower_of(s@),
{
    s.to_lowercase()
}

/// `needle` occurs in `hay` as the contiguous run starting at `i`.
pub open spec fn occurs_at(hay: Seq<char>, needle: Seq<char>, i: int) -> bool {
    0 <= i && i + needle.len() <= hay.len() && hay.subrange(i, i + needle.len()) == needle
}

/// Substring containment: what `str::contains` decides for a text pattern.
pub open spec fn contains_sub(hay: Seq<char>, needle: Seq<char>) -> bool {
    exists|i: int| occurs_at(hay, needle, i)
}

/// Relies on `str::contains` with a `&str` pattern: true exactly when the
/// needle occurs as a contiguous substring of the haystack.
#[verifier::external_body]
pub(crate) fn str_contains(hay: &str, needle: &str) -> (r: bool)
    ensures
        r == contains_sub(hay@, needle@),
{
    hay.contains(needle)
}

/// Relies on `String::push`: it appends the one character.
pub assume_specification[ String::push ](s: &mut String, ch: char)
    ensures
        final(s)@ == old(s)@.push(ch),
;

/// Sanitizing for a one-line display: newlines become spaces and carriage
/// returns disappear.
pub open spec fn sanitize(s: Seq<char>) -> Seq<char> {
    s.map_values(|c: char| if c == '\n' { ' ' } else { c }).filter(|c: char| c != '\r')
}

/// What one entry's content looks like as a single list row: at most 100
/// characters, three dots marking a cut, then sanitized for one line.
pub open spec fn display_of(s: Seq<char>) -> Seq<char> {
    if s.len() > 100 {
        sanitize(s.take(100) + seq!['.', '.', '.'])
    } else {
        sanitize(s)
    }
}

proof fn lemma_sanitize_push(t: Seq<char>, c: char)
    ensures
        sanitize(t.push(c)) == if c == '\r' {
            sanitize(t)
        } else if c == '\n' {
            sanitize(t).push(' ')
        } else {
            sanitize(t).push(c)
        },
{
    let f = |c: char| if c == '\n' { ' ' } else { c };
    let p = |c: char| c != '\r';
    let u = t.map_values(f);
    assert(t.push(c).map_values(f) =~= u.push(f(c)));
    assert(u.push(f(c)).drop_last() =~= u);
    reveal_with_fuel(Seq::<_>::filter, 2);
    if p(f(c)) {
        assert(u.push(f(c)).filter(p) == u.filter(p).push(f(c)));
    } else {
        assert(u.push(f(c)).filter(p) == u.filter(p));
    }
}

/// Renders one content as a single display line, exactly `display_of` it.
pub fn display_line(content: &str) -> (r: String)
    ensures
        r@ == display_of(content@),
{
    let n = content.unicode_len();
    let limit = if n > 100 {
        100
    } else {
        n
    };
    let mut out = String::new();
    let mut i: usize = 0;
    proof {
        assert(content@.take(0) =~= Seq::<char>::empty());
        assert(sanitize(Seq::<char>::empty()) =~= Seq::<char>::empty());
    }
    while i < limit
        invariant
            n == content@.len(),
            limit <= n,
            n > 100 ==> limit == 100,
            n <= 100 ==> limit == n,
            i <= limit,
            out@ == sanitize(content@.take(i as int)),
        decreases limit - i,
    {
        let c = content.get_char(i);
        if c == '\n' {
            out.push(' ');
        } else if c != '\r' {
            out.push(c);
        }
        proof {
            assert(content@.take(i + 1) =~= content@.take(i as int).push(content@[i as int]));
            lemma_sanitize_push(content@.take(i as int), content@[i as int]);
        }
        i += 1;
    }
    if n > 100 {
        out.push('.');
        out.push('.');
        out.push('.');
        proof {
            let t = content@.take(100);
            assert(content@.take(100) + seq!['.', '.', '.'] =~= t.push('.').push('.').push('.'));
            lemma_sanitize_push(t, '.');
            lemma_sanitize_push(t.push('.'), '.');
            lemma_sanitize_push(t.push('.').push('.'), '.');
        }
    } else {
        proof {
            assert(content@.take(limit as int) =~= content@);
        }
    }
    out
}

/// A content satisfies a query when the query is empty or its lowercase form
/// occurs inside the lowercase form of the content.
pub open spec fn query_matches(content: Seq<char>, query: Seq<char>) -> bool {
    query.len() == 0 || contains_sub(lower_of(content), lower_of(query))
}

/// Decides whether one entry's content satisfies a search query,
/// case-insensitively.
pub fn entry_matches(content: &str, query: &str) -> (r: bool)
    ensures
        r == query_matches(content@, query@),
{
    if query.is_empty() {
        return true;
    }
    let folded_content = to_lowercase(content);
    let folded_query = to_lowercase(query);
    str_contains(folded_content.as_str(), folded_query.as_str())
}

} // verus!
