use vstd::prelude::*;

verus! {

/// Unicode `White_Space`: the characters that `str::trim` removes.
pub open spec fn is_white(c: char) -> bool {
    c == '\t' || c == '\n' || c == '\x0B' || c == '\x0C' || c == '\r' || c == ' '
        || c == '\u{85}' || c == '\u{A0}' || c == '\u{1680}'
        || ('\u{2000}' <= c && c <= '\u{200A}') || c == '\u{2028}' || c == '\u{2029}'
        || c == '\u{202F}' || c == '\u{205F}' || c == '\u{3000}'
}

/// `s` without its leading white space.
pub open spec fn trim_front(s: Seq<char>) -> Seq<char>
    decreases s.len(),
{
    if s.len() > 0 && is_white(s[0]) {
        trim_front(s.drop_first())
    } else {
        s
    }
}

/// `s` without its trailing white space.
pub open spec fn trim_back(s: Seq<char>) -> Seq<char>
    decreases s.len(),
{
    if s.len() > 0 && is_white(s.last()) {
        trim_back(s.drop_last())
    } else {
        s
    }
}

/// `s` without white space at either end.
pub open spec fn trimmed(s: Seq<char>) -> Seq<char> {
    trim_back(trim_front(s))
}

/// The marker that closes the description of a repeat broadcast.
pub open spec fn marker() -> Seq<char> {
    seq![' ', 'e', '.']
}

pub open spec fn ends_with_marker(s: Seq<char>) -> bool {
    s.len() >= 3 && s.subrange(s.len() - 3, s.len() as int) == marker()
}

/// Takes text that is already trimmed, and while it ends with the marker removes the
/// marker and trims what is left.
pub open spec fn clean_from(t: Seq<char>) -> Seq<char>
    decreases t.len(),
    via clean_from_decreases
{
    if ends_with_marker(t) {
        clean_from(trimmed(t.subrange(0, t.len() - 3)))
    } else {
        t
    }
}

#[via_fn]
pub proof fn clean_from_decreases(t: Seq<char>) {
    if ends_with_marker(t) {
        lemma_trimmed_len(t.subrange(0, t.len() - 3));
    }
}

/// The text trimmed, then rid of every trailing marker, trimming again after each.
pub open spec fn cleaned(s: Seq<char>) -> Seq<char> {
    clean_from(trimmed(s))
}

pub fn is_white_space(c: char) -> (r: bool)
    ensures
        r == is_white(c),
{
    c == '\t' || c == '\n' || c == '\x0B' || c == '\x0C' || c == '\r' || c == ' '
        || c == '\u{85}' || c == '\u{A0}' || c == '\u{1680}'
        || ('\u{2000}' <= c && c <= '\u{200A}') || c == '\u{2028}' || c == '\u{2029}'
        || c == '\u{202F}' || c == '\u{205F}' || c == '\u{3000}'
}

/// The text of `s` with white space removed at both ends.
pub fn trim(s: &str) -> (r: String)
    ensures
        r@ == trimmed(s@),
{
    let n = s.unicode_len();
    let mut i: usize = 0;
    assert(s@.subrange(0, n as int) =~= s@);
    while i < n && is_white_space(s.get_char(i))
        invariant
            n == s@.len(),
            i <= n,
            trim_front(s@) == trim_front(s@.subrange(i as int, n as int)),
        decreases n - i,
    {
        assert(s@.subrange(i as int, n as int).drop_first() =~= s@.subrange(i + 1, n as int));
        i = i + 1;
    }
    assert(trim_front(s@) == s@.subrange(i as int, n as int)) by {
        if i == n {
            assert(s@.subrange(i as int, n as int).len() == 0);
        }
    }
    let mut j: usize = n;
    while j > i && is_white_space(s.get_char(j - 1))
        invariant
            n == s@.len(),
            i <= j <= n,
            trimmed(s@) == trim_back(s@.subrange(i as int, j as int)),
        decreases j,
    {
        assert(s@.subrange(i as int, j as int).drop_last() =~= s@.subrange(i as int, j - 1));
        j = j - 1;
    }
    let t = s.substring_char(i, j);
    String::from_str(t)
}

/// Whether the text ends with the repeat marker.
pub fn has_marker(s: &str) -> (r: bool)
    ensures
        r == ends_with_marker(s@),
{
    let n = s.unicode_len();
    if n < 3 {
        return false;
    }
    let r = s.get_char(n - 3) == ' ' && s.get_char(n - 2) == 'e' && s.get_char(n - 1) == '.';
    proof {
        let tail = s@.subrange(n - 3, n as int);
        if r {
            assert(tail =~= marker());
        } else if tail == marker() {
            assert(tail[0] == ' ' && tail[1] == 'e' && tail[2] == '.');
        }
    }
    r
}

/// The text trimmed and rid of every trailing repeat marker, trimming again after each.
pub fn clean_description(s: &str) -> (r: String)
    ensures
        r@ == cleaned(s@),
        trimmed(r@) == r@,
        !ends_with_marker(r@),
{
    let mut t = trim(s);
    proof {
        lemma_trimmed_idempotent(s@);
    }
    while has_marker(t.as_str())
        invariant
            clean_from(t@) == cleaned(s@),
            trimmed(t@) == t@,
        decreases t@.len(),
    {
        let n = t.as_str().unicode_len();
        let u = t.as_str().substring_char(0, n - 3);
        let next = trim(u);
        proof {
            lemma_trimmed_len(u@);
            lemma_trimmed_idempotent(u@);
        }
        t = next;
    }
    t
}

pub proof fn lemma_trim_front_shape(s: Seq<char>)
    ensures
        trim_front(s).len() == 0 || !is_white(trim_front(s)[0]),
        exists|k: int| 0 <= k <= s.len() && trim_front(s) == s.subrange(k, s.len() as int),
    decreases s.len(),
{
    if s.len() > 0 && is_white(s[0]) {
        lemma_trim_front_shape(s.drop_first());
        let k = choose|k: int|
            0 <= k <= s.drop_first().len() && trim_front(s.drop_first()) == s.drop_first().subrange(
                k,
                s.drop_first().len() as int,
            );
        assert(s.drop_first().subrange(k, s.drop_first().len() as int) =~= s.subrange(
            k + 1,
            s.len() as int,
        ));
    } else {
        assert(s.subrange(0, s.len() as int) =~= s);
    }
}

pub proof fn lemma_trim_back_shape(s: Seq<char>)
    ensures
        trim_back(s).len() == 0 || !is_white(trim_back(s).last()),
        exists|k: int| 0 <= k <= s.len() && trim_back(s) == s.subrange(0, k),
    decreases s.len(),
{
    if s.len() > 0 && is_white(s.last()) {
        lemma_trim_back_shape(s.drop_last());
        let k = choose|k: int|
            0 <= k <= s.drop_last().len() && trim_back(s.drop_last()) == s.drop_last().subrange(
                0,
                k,
            );
        assert(s.drop_last().subrange(0, k) =~= s.subrange(0, k));
    } else {
        assert(s.subrange(0, s.len() as int) =~= s);
    }
}

/// Trimming text that is already trimmed changes nothing.
pub proof fn lemma_trimmed_idempotent(s: Seq<char>)
    ensures
        trimmed(trimmed(s)) == trimmed(s),
{
    let f = trim_front(s);
    let t = trim_back(f);
    lemma_trim_front_shape(s);
    lemma_trim_back_shape(f);
    lemma_trim_back_shape(t);
    if t.len() > 0 {
        let k = choose|k: int| 0 <= k <= f.len() && t == f.subrange(0, k);
        assert(t[0] == f[0]);
        assert(!is_white(t[0]));
    }
    assert(trim_front(t) == t);
    assert(trim_back(t) == t);
}

pub proof fn lemma_trimmed_len(s: Seq<char>)
    ensures
        trimmed(s).len() <= s.len(),
{
    lemma_trim_front_shape(s);
    lemma_trim_back_shape(trim_front(s));
}

pub proof fn lemma_clean_from_shape(t: Seq<char>)
    requires
        trimmed(t) == t,
    ensures
        trimmed(clean_from(t)) == clean_from(t),
        !ends_with_marker(clean_from(t)),
    decreases t.len(),
{
    if ends_with_marker(t) {
        let u = t.subrange(0, t.len() - 3);
        lemma_trimmed_len(u);
        lemma_trimmed_idempotent(u);
        lemma_clean_from_shape(trimmed(u));
    }
}

/// A cleaned text is trimmed, does not end with the marker, and cleaning it again
/// changes nothing.
pub proof fn lemma_cleaned_is_clean(s: Seq<char>)
    ensures
        trimmed(cleaned(s)) == cleaned(s),
        !ends_with_marker(cleaned(s)),
        cleaned(cleaned(s)) == cleaned(s),
{
    lemma_trimmed_idempotent(s);
    lemma_clean_from_shape(trimmed(s));
}

} // verus!
