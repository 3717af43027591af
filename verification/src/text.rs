//! Plain text as sequences of characters: searching, cutting, splicing and
//! replacing. Every index is an index of characters, never of bytes.

use vstd::prelude::*;

verus! {

/// `pattern` is non-empty and `text` holds it at index `at`.
/// An empty pattern occurs nowhere.
pub open spec fn occurs_at(text: Seq<char>, pattern: Seq<char>, at: int) -> bool {
    &&& pattern.len() > 0
    &&& 0 <= at
    &&& at + pattern.len() <= text.len()
    &&& text.subrange(at, at + pattern.len()) == pattern
}

/// `at` is the least index from `from` on at which `pattern` occurs in `text`.
pub open spec fn is_first_occurrence(
    text: Seq<char>,
    pattern: Seq<char>,
    from: int,
    at: int,
) -> bool {
    &&& from <= at
    &&& occurs_at(text, pattern, at)
    &&& forall|j: int| from <= j < at ==> !occurs_at(text, pattern, j)
}

/// The least index from `from` on at which `pattern` occurs in `text`, if it
/// occurs there at all.
pub open spec fn first_occurrence(text: Seq<char>, pattern: Seq<char>, from: int) -> Option<int> {
    if exists|at: int| is_first_occurrence(text, pattern, from, at) {
        Some(choose|at: int| is_first_occurrence(text, pattern, from, at))
    } else {
        None
    }
}

/// `text` with `inserted` put in before index `at`.
pub open spec fn spliced(text: Seq<char>, at: int, inserted: Seq<char>) -> Seq<char> {
    text.take(at) + inserted + text.skip(at)
}

/// `text` with every occurrence of `pattern` replaced by `replacement`. The
/// occurrences are taken from the left and do not overlap: after one is
/// replaced the search goes on behind it, and never looks into a replacement.
pub open spec fn replaced(text: Seq<char>, pattern: Seq<char>, replacement: Seq<char>) -> Seq<
    char,
>
    decreases text.len(),
{
    if pattern.len() == 0 || text.len() < pattern.len() {
        text
    } else if occurs_at(text, pattern, 0) {
        replacement + replaced(text.skip(pattern.len() as int), pattern, replacement)
    } else {
        seq![text[0]] + replaced(text.skip(1), pattern, replacement)
    }
}

/// Two least occurrences from the same start are the same index.
pub proof fn lemma_first_occurrence_is_unique(
    text: Seq<char>,
    pattern: Seq<char>,
    from: int,
    a: int,
    b: int,
)
    requires
        is_first_occurrence(text, pattern, from, a),
        is_first_occurrence(text, pattern, from, b),
    ensures
        a == b,
{
    if a < b {
    } else if b < a {
    }
}

/// `first_occurrence` is `Some(at)` exactly for the least occurrence, and
/// `None` exactly when there is no occurrence from `from` on.
pub proof fn lemma_first_occurrence(text: Seq<char>, pattern: Seq<char>, from: int)
    ensures
        match first_occurrence(text, pattern, from) {
            Some(at) => is_first_occurrence(text, pattern, from, at),
            None => forall|j: int| from <= j ==> !occurs_at(text, pattern, j),
        },
{
    if first_occurrence(text, pattern, from) is None {
        assert forall|j: int| from <= j implies !occurs_at(text, pattern, j) by {
            if occurs_at(text, pattern, j) {
                lemma_least_occurrence_exists(text, pattern, from, j);
            }
        }
    }
}

/// Where `pattern` occurs at `at`, from `from` on, there is a least such
/// occurrence.
proof fn lemma_least_occurrence_exists(text: Seq<char>, pattern: Seq<char>, from: int, at: int)
    requires
        from <= at,
        occurs_at(text, pattern, at),
    ensures
        exists|first: int| is_first_occurrence(text, pattern, from, first),
    decreases at - from,
{
    if exists|j: int| from <= j < at && occurs_at(text, pattern, j) {
        let j = choose|j: int| from <= j < at && occurs_at(text, pattern, j);
        lemma_least_occurrence_exists(text, pattern, from, j);
    } else {
        assert(is_first_occurrence(text, pattern, from, at));
    }
}

/// Replacing changes nothing in a text that does not hold the pattern.
pub proof fn lemma_replaced_without_occurrence(
    text: Seq<char>,
    pattern: Seq<char>,
    replacement: Seq<char>,
)
    requires
        forall|at: int| !occurs_at(text, pattern, at),
    ensures
        replaced(text, pattern, replacement) == text,
    decreases text.len(),
{
    if pattern.len() > 0 && text.len() >= pattern.len() {
        let rest = text.skip(1);
        assert forall|at: int| !occurs_at(rest, pattern, at) by {
            if occurs_at(rest, pattern, at) {
                assert(text.subrange(at + 1, at + 1 + pattern.len()) =~= rest.subrange(
                    at,
                    at + pattern.len(),
                ));
                assert(occurs_at(text, pattern, at + 1));
            }
        }
        lemma_replaced_without_occurrence(rest, pattern, replacement);
        assert(!occurs_at(text, pattern, 0));
        assert(seq![text[0]] + rest =~= text);
    }
}

/// The characters of `s`, in order.
pub fn chars_of(s: &str) -> (v: Vec<char>)
    ensures
        v@ == s@,
{
    let mut v: Vec<char> = Vec::new();
    let chars = s.chars();
    for c in it: chars
        invariant
            it.seq() == s@,
            v@ == it.seq().take(it.index()),
    {
        v.push(c);
    }
    v
}

/// Makes a `String` of characters with `String::from_iter`: the string holds
/// exactly these characters, in this order.
#[verifier::external_body]
pub(crate) fn string_of(chars: &Vec<char>) -> (s: String)
    ensures
        s@ == chars@,
{
    String::from_iter(chars)
}

/// Appends `source[from..to]` to `out`.
pub(crate) fn push_range(out: &mut Vec<char>, source: &Vec<char>, from: usize, to: usize)
    requires
        from <= to <= source.len(),
    ensures
        final(out)@ == old(out)@ + source@.subrange(from as int, to as int),
{
    let mut i: usize = from;
    while i < to
        invariant
            from <= i <= to <= source.len(),
            out@ == old(out)@ + source@.subrange(from as int, i as int),
        decreases to - i,
    {
        out.push(source[i]);
        i = i + 1;
    }
}

/// Whether `pattern` occurs in `text` at index `at`.
pub fn matches_at(text: &Vec<char>, pattern: &Vec<char>, at: usize) -> (found: bool)
    ensures
        found == occurs_at(text@, pattern@, at as int),
{
    let n: usize = pattern.len();
    if n == 0 || at > text.len() || text.len() - at < n {
        return false;
    }
    let mut k: usize = 0;
    while k < n
        invariant
            n == pattern.len(),
            0 < n,
            at + n <= text.len(),
            k <= n,
            forall|j: int| 0 <= j < k ==> text@[at + j] == pattern@[j],
        decreases n - k,
    {
        if text[at + k] != pattern[k] {
            assert(text@.subrange(at as int, at + n)[k as int] != pattern@[k as int]);
            return false;
        }
        k = k + 1;
    }
    assert(text@.subrange(at as int, at + n) =~= pattern@);
    true
}

/// The index of the first occurrence of `pattern` in `text` at or after
/// `from`.
pub fn find_from(text: &Vec<char>, pattern: &Vec<char>, from: usize) -> (found: Option<usize>)
    ensures
        match found {
            Some(at) => is_first_occurrence(text@, pattern@, from as int, at as int),
            None => forall|j: int| from <= j ==> !occurs_at(text@, pattern@, j),
        },
        first_occurrence(text@, pattern@, from as int) == match found {
            Some(at) => Some(at as int),
            None => None::<int>,
        },
{
    let mut i: usize = from;
    let mut found: Option<usize> = None;
    while i < text.len()
        invariant_except_break
            from <= i,
            found is None,
            forall|j: int| from <= j < i ==> !occurs_at(text@, pattern@, j),
        ensures
            match found {
                Some(at) => is_first_occurrence(text@, pattern@, from as int, at as int),
                None => forall|j: int| from <= j ==> !occurs_at(text@, pattern@, j),
            },
        decreases text.len() - i,
    {
        if matches_at(text, pattern, i) {
            found = Some(i);
            break;
        }
        i = i + 1;
    }
    proof {
        lemma_first_occurrence(text@, pattern@, from as int);
        match found {
            Some(at) => {
                lemma_first_occurrence_is_unique(
                    text@,
                    pattern@,
                    from as int,
                    at as int,
                    first_occurrence(text@, pattern@, from as int)->0,
                );
            },
            None => {},
        }
    }
    found
}

/// `text` with `inserted` put in before index `at`.
pub(crate) fn splice(text: &Vec<char>, at: usize, inserted: &Vec<char>) -> (out: Vec<char>)
    requires
        at <= text.len(),
    ensures
        out@ == spliced(text@, at as int, inserted@),
{
    let mut out: Vec<char> = Vec::new();
    push_range(&mut out, text, 0, at);
    push_range(&mut out, inserted, 0, inserted.len());
    push_range(&mut out, text, at, text.len());
    out
}

/// `text` with every occurrence of `pattern`, taken from the left and without
/// overlap, replaced by `replacement`.
pub fn replace_all(text: &Vec<char>, pattern: &Vec<char>, replacement: &Vec<char>) -> (out: Vec<
    char,
>)
    ensures
        out@ == replaced(text@, pattern@, replacement@),
{
    let mut out: Vec<char> = Vec::new();
    let n: usize = pattern.len();
    if n == 0 {
        push_range(&mut out, text, 0, text.len());
        return out;
    }
    let mut i: usize = 0;
    assert(text@.skip(0) =~= text@);
    while text.len() - i >= n
        invariant
            n == pattern.len(),
            0 < n,
            i <= text.len(),
            replaced(text@, pattern@, replacement@) == out@ + replaced(
                text@.skip(i as int),
                pattern@,
                replacement@,
            ),
        decreases text.len() - i,
    {
        let ghost rest = text@.skip(i as int);
        if matches_at(text, pattern, i) {
            proof {
                assert(rest.subrange(0, n as int) =~= text@.subrange(i as int, i + n));
                assert(rest.skip(n as int) =~= text@.skip(i + n));
            }
            push_range(&mut out, replacement, 0, replacement.len());
            i = i + n;
        } else {
            proof {
                assert(rest.subrange(0, n as int) =~= text@.subrange(i as int, i + n));
                assert(rest.skip(1) =~= text@.skip(i + 1));
            }
            out.push(text[i]);
            i = i + 1;
        }
    }
    push_range(&mut out, text, i, text.len());
    out
}

/// Whether two texts hold the same characters.
pub fn same_text(a: &str, b: &str) -> (same: bool)
    ensures
        same == (a@ == b@),
{
    let left = chars_of(a);
    let right = chars_of(b);
    if left.len() != right.len() {
        return false;
    }
    let mut i: usize = 0;
    while i < left.len()
        invariant
            left@ == a@,
            right@ == b@,
            left.len() == right.len(),
            i <= left.len(),
            forall|j: int| 0 <= j < i ==> left@[j] == right@[j],
        decreases left.len() - i,
    {
        if left[i] != right[i] {
            return false;
        }
        i = i + 1;
    }
    assert(left@ =~= right@);
    true
}

} // verus!
