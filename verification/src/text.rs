//! Character-level helpers on strings.

use vstd::prelude::*;

verus! {

/// `String::push`: appends one character.
#[verifier::external_body]
pub(crate) fn push_char(s: &mut String, c: char)
    ensures
        final(s)@ == old(s)@.push(c),
{
    s.push(c);
}

/// The characters of `s`, in order.
pub fn chars_of(s: &str) -> (v: Vec<char>)
    ensures
        v@ == s@,
{
    let n = s.unicode_len();
    let mut v: Vec<char> = Vec::new();
    let mut i: usize = 0;
    while i < n
        invariant
            n == s@.len(),
            i <= n,
            v@ == s@.subrange(0, i as int),
        decreases n - i,
    {
        let c = s.get_char(i);
        v.push(c);
        i = i + 1;
        assert(v@ =~= s@.subrange(0, i as int));
    }
    assert(v@ =~= s@);
    v
}

/// A new string holding `v[lo..hi]`.
pub fn string_from_range(v: &Vec<char>, lo: usize, hi: usize) -> (s: String)
    requires
        lo <= hi <= v@.len(),
    ensures
        s@ == v@.subrange(lo as int, hi as int),
{
    let mut s = String::new();
    let mut i: usize = lo;
    while i < hi
        invariant
            lo <= i <= hi <= v@.len(),
            s@ == v@.subrange(lo as int, i as int),
        decreases hi - i,
    {
        push_char(&mut s, v[i]);
        i = i + 1;
        assert(s@ =~= v@.subrange(lo as int, i as int));
    }
    s
}

/// Appends all characters of `t` to `s`.
pub fn push_str(s: &mut String, t: &str)
    ensures
        final(s)@ == old(s)@ + t@,
{
    s.append(t);
}

/// Whether `c` has the Unicode `White_Space` property.
pub open spec fn is_white_space(c: char) -> bool {
    ||| ('\u{9}' <= c && c <= '\u{d}')
    ||| c == ' '
    ||| c == '\u{85}'
    ||| c == '\u{a0}'
    ||| c == '\u{1680}'
    ||| ('\u{2000}' <= c && c <= '\u{200a}')
    ||| c == '\u{2028}'
    ||| c == '\u{2029}'
    ||| c == '\u{202f}'
    ||| c == '\u{205f}'
    ||| c == '\u{3000}'
}

pub fn white_space(c: char) -> (b: bool)
    ensures
        b == is_white_space(c),
{
    ('\u{9}' <= c && c <= '\u{d}') || c == ' ' || c == '\u{85}' || c == '\u{a0}'
        || c == '\u{1680}' || ('\u{2000}' <= c && c <= '\u{200a}') || c == '\u{2028}'
        || c == '\u{2029}' || c == '\u{202f}' || c == '\u{205f}' || c == '\u{3000}'
}

/// The index of the first `c` in `s`, if any.
pub open spec fn first_index_of(s: Seq<char>, c: char) -> Option<int>
    decreases s.len(),
{
    if s.len() == 0 {
        None
    } else if s[0] == c {
        Some(0)
    } else {
        match first_index_of(s.drop_first(), c) {
            Some(i) => Some(i + 1),
            None => None,
        }
    }
}

/// The index of the last `c` in `s`, if any.
pub open spec fn last_index_of(s: Seq<char>, c: char) -> Option<int>
    decreases s.len(),
{
    if s.len() == 0 {
        None
    } else if s.last() == c {
        Some(s.len() - 1)
    } else {
        last_index_of(s.drop_last(), c)
    }
}

/// Finds the first `c` in `v`.
pub fn find_first(v: &Vec<char>, c: char) -> (r: Option<usize>)
    ensures
        match r {
            Some(i) => i < v@.len() && v@[i as int] == c && forall|j: int| 0 <= j < i ==> v@[j] != c,
            None => forall|j: int| 0 <= j < v@.len() ==> v@[j] != c,
        },
        r matches Some(i) ==> first_index_of(v@, c) == Some(i as int),
        r is None ==> first_index_of(v@, c) is None,
{
    let mut i: usize = 0;
    while i < v.len()
        invariant
            i <= v@.len(),
            forall|j: int| 0 <= j < i ==> v@[j] != c,
        decreases v@.len() - i,
    {
        if v[i] == c {
            proof { lemma_first_index_unique(v@, c, i as int); }
            return Some(i);
        }
        i = i + 1;
    }
    proof { lemma_index_absent(v@, c); }
    None
}

/// Finds the last `c` in `v`.
pub fn find_last(v: &Vec<char>, c: char) -> (r: Option<usize>)
    ensures
        match r {
            Some(i) => i < v@.len() && v@[i as int] == c && forall|j: int| i < j < v@.len() ==> v@[j] != c,
            None => forall|j: int| 0 <= j < v@.len() ==> v@[j] != c,
        },
        r matches Some(i) ==> last_index_of(v@, c) == Some(i as int),
        r is None ==> last_index_of(v@, c) is None,
{
    let mut i: usize = v.len();
    while i > 0
        invariant
            i <= v@.len(),
            forall|j: int| i <= j < v@.len() ==> v@[j] != c,
        decreases i,
    {
        if v[i - 1] == c {
            proof { lemma_last_index_unique(v@, c, i - 1); }
            return Some(i - 1);
        }
        i = i - 1;
    }
    proof { lemma_index_absent(v@, c); }
    None
}

pub proof fn lemma_first_index_unique(s: Seq<char>, c: char, i: int)
    requires
        0 <= i < s.len(),
        s[i] == c,
        forall|j: int| 0 <= j < i ==> s[j] != c,
    ensures
        first_index_of(s, c) == Some(i),
    decreases s.len(),
{
    if i > 0 {
        assert forall|j: int| 0 <= j < i - 1 implies s.drop_first()[j] != c by {
            assert(s.drop_first()[j] == s[j + 1]);
        }
        lemma_first_index_unique(s.drop_first(), c, i - 1);
    }
}

pub proof fn lemma_last_index_unique(s: Seq<char>, c: char, i: int)
    requires
        0 <= i < s.len(),
        s[i] == c,
        forall|j: int| i < j < s.len() ==> s[j] != c,
    ensures
        last_index_of(s, c) == Some(i),
    decreases s.len(),
{
    if i < s.len() - 1 {
        assert(s.last() == s[s.len() - 1]);
        lemma_last_index_unique(s.drop_last(), c, i);
    }
}

/// Without `c`, there is no first or last `c`.
pub proof fn lemma_index_absent(s: Seq<char>, c: char)
    requires
        forall|j: int| 0 <= j < s.len() ==> s[j] != c,
    ensures
        first_index_of(s, c) is None,
        last_index_of(s, c) is None,
    decreases s.len(),
{
    if s.len() > 0 {
        assert forall|j: int| 0 <= j < s.len() - 1 implies s.drop_first()[j] != c by {
            assert(s.drop_first()[j] == s[j + 1]);
        }
        lemma_index_absent(s.drop_first(), c);
        assert(s.last() == s[s.len() - 1]);
        lemma_index_absent(s.drop_last(), c);
    }
}

/// Facts about the first occurrence of `c`.
pub proof fn lemma_first_index_facts(s: Seq<char>, c: char)
    ensures
        match first_index_of(s, c) {
            Some(i) => 0 <= i < s.len() && s[i] == c && forall|j: int| 0 <= j < i ==> s[j] != c,
            None => forall|j: int| 0 <= j < s.len() ==> s[j] != c,
        },
    decreases s.len(),
{
    if s.len() > 0 && s[0] != c {
        lemma_first_index_facts(s.drop_first(), c);
        match first_index_of(s.drop_first(), c) {
            Some(i) => {
                assert forall|j: int| 0 <= j < i + 1 implies s[j] != c by {
                    if j > 0 {
                        assert(s[j] == s.drop_first()[j - 1]);
                    }
                }
            },
            None => {
                assert forall|j: int| 0 <= j < s.len() implies s[j] != c by {
                    if j > 0 {
                        assert(s[j] == s.drop_first()[j - 1]);
                    }
                }
            },
        }
    }
}

/// Facts about the last occurrence of `c`.
pub proof fn lemma_last_index_facts(s: Seq<char>, c: char)
    ensures
        match last_index_of(s, c) {
            Some(i) => 0 <= i < s.len() && s[i] == c && forall|j: int| i < j < s.len() ==> s[j] != c,
            None => forall|j: int| 0 <= j < s.len() ==> s[j] != c,
        },
    decreases s.len(),
{
    if s.len() > 0 && s.last() != c {
        lemma_last_index_facts(s.drop_last(), c);
        assert(s.last() == s[s.len() - 1]);
        assert forall|j: int| 0 <= j < s.len() - 1 implies s.drop_last()[j] == s[j] by {}
    }
}

/// `s` without leading white space.
pub open spec fn trim_start(s: Seq<char>) -> Seq<char>
    decreases s.len(),
{
    if s.len() > 0 && is_white_space(s[0]) {
        trim_start(s.drop_first())
    } else {
        s
    }
}

/// `s` without trailing white space.
pub open spec fn trim_end(s: Seq<char>) -> Seq<char>
    decreases s.len(),
{
    if s.len() > 0 && is_white_space(s.last()) {
        trim_end(s.drop_last())
    } else {
        s
    }
}

/// `s` without leading and trailing white space (what `str::trim` keeps).
pub open spec fn trim(s: Seq<char>) -> Seq<char> {
    trim_end(trim_start(s))
}

/// The bounds of `v[lo..hi]` with white space trimmed from both ends.
pub fn trim_bounds(v: &Vec<char>, lo: usize, hi: usize) -> (r: (usize, usize))
    requires
        lo <= hi <= v@.len(),
    ensures
        lo <= r.0 <= r.1 <= hi,
        v@.subrange(r.0 as int, r.1 as int) == trim(v@.subrange(lo as int, hi as int)),
{
    let mut a = lo;
    while a < hi && white_space(v[a])
        invariant
            lo <= a <= hi <= v@.len(),
            trim_start(v@.subrange(lo as int, hi as int)) == trim_start(v@.subrange(a as int, hi as int)),
        decreases hi - a,
    {
        assert(v@.subrange(a as int, hi as int).drop_first() =~= v@.subrange(a + 1, hi as int));
        a = a + 1;
    }
    let mut b = hi;
    while b > a && white_space(v[b - 1])
        invariant
            lo <= a <= b <= hi <= v@.len(),
            trim_end(v@.subrange(a as int, hi as int)) == trim_end(v@.subrange(a as int, b as int)),
        decreases b - a,
    {
        assert(v@.subrange(a as int, b as int).drop_last() =~= v@.subrange(a as int, b - 1));
        b = b - 1;
    }
    (a, b)
}

/// What `str::to_lowercase` gives for a text (Unicode lower-case mapping).
pub uninterp spec fn lowercase_text(s: Seq<char>) -> Seq<char>;

/// `str::to_lowercase`. The Unicode case mapping is left to the name `lowercase_text`.
#[verifier::external_body]
pub(crate) fn to_lowercase(s: &str) -> (r: String)
    ensures
        r@ == lowercase_text(s@),
{
    s.to_lowercase()
}

/// A new string holding the text of `s`.
pub fn owned(s: &str) -> (r: String)
    ensures
        r@ == s@,
{
    s.to_owned()
}

/// Finds the first `c` in `v` at or after position `start`.
pub fn find_from(v: &Vec<char>, c: char, start: usize) -> (r: Option<usize>)
    requires
        start <= v@.len(),
    ensures
        match r {
            Some(i) => start <= i < v@.len() && first_index_of(v@.subrange(start as int, v@.len() as int), c)
                == Some(i - start),
            None => first_index_of(v@.subrange(start as int, v@.len() as int), c) is None,
        },
{
    let ghost s = v@.subrange(start as int, v@.len() as int);
    let mut i: usize = start;
    while i < v.len()
        invariant
            start <= i <= v@.len(),
            s == v@.subrange(start as int, v@.len() as int),
            forall|j: int| 0 <= j < i - start ==> s[j] != c,
        decreases v@.len() - i,
    {
        if v[i] == c {
            assert(s[i - start] == c);
            proof { lemma_first_index_unique(s, c, i - start); }
            return Some(i);
        }
        assert(s[i - start] == v@[i as int]);
        i = i + 1;
    }
    proof { lemma_index_absent(s, c); }
    None
}


/// `part` stands in `text` at offset `k`.
pub open spec fn occurs_at(text: Seq<char>, part: Seq<char>, k: int) -> bool {
    0 <= k && k + part.len() <= text.len() && text.subrange(k, k + part.len()) == part
}

/// `text` shows `value` right after `label`, the value ending at a comma or
/// at the end of `text`.
pub open spec fn field_shown(text: Seq<char>, label: Seq<char>, value: Seq<char>) -> bool {
    exists|k: int|
        #![trigger occurs_at(text, label + value, k)]
        occurs_at(text, label + value, k) && (k + label.len() + value.len() == text.len()
            || text[k + label.len() + value.len()] == ',')
}

/// `text` shows `value` right after `label`, and a comma follows.
pub open spec fn field_before_comma(text: Seq<char>, label: Seq<char>, value: Seq<char>) -> bool {
    exists|k: int|
        #![trigger occurs_at(text, label + value, k)]
        occurs_at(text, label + value, k) && k + label.len() + value.len() < text.len()
            && text[k + label.len() + value.len()] == ','
}

/// A field followed by a comma is still shown once more text is appended.
pub broadcast proof fn lemma_field_before_comma_extends(
    text: Seq<char>,
    label: Seq<char>,
    value: Seq<char>,
    more: Seq<char>,
)
    requires
        field_before_comma(text, label, value),
    ensures
        #[trigger] field_before_comma(text + more, label, value),
{
    let n = label.len() + value.len();
    let k = choose|k: int|
        #![trigger occurs_at(text, label + value, k)]
        occurs_at(text, label + value, k) && k + n < text.len() && text[k + n] == ',';
    assert((text + more).subrange(k, k + n) =~= text.subrange(k, k + n));
    assert(occurs_at(text + more, label + value, k));
}

/// A field followed by a comma is shown.
pub proof fn lemma_field_before_comma_shown(text: Seq<char>, label: Seq<char>, value: Seq<char>)
    requires
        field_before_comma(text, label, value),
    ensures
        field_shown(text, label, value),
{
    let n = label.len() + value.len();
    let k = choose|k: int|
        #![trigger occurs_at(text, label + value, k)]
        occurs_at(text, label + value, k) && k + n < text.len() && text[k + n] == ',';
    assert(occurs_at(text, label + value, k));
}

/// After `before`, a label and its value, then text that starts with a comma.
pub proof fn lemma_field_then_comma(before: Seq<char>, label: Seq<char>, value: Seq<char>, next: Seq<char>)
    requires
        next.len() > 0,
        next[0] == ',',
    ensures
        field_before_comma(before + label + value + next, label, value),
{
    let t = before + label + value + next;
    let k = before.len() as int;
    assert(t.subrange(k, k + label.len() + value.len()) =~= label + value);
    assert(t[k + label.len() + value.len()] == next[0]);
    assert(occurs_at(t, label + value, k));
}

/// A label and its value at the end of the text are shown.
pub proof fn lemma_field_at_end(before: Seq<char>, label: Seq<char>, value: Seq<char>)
    ensures
        field_shown(before + label + value, label, value),
{
    let t = before + label + value;
    let k = before.len() as int;
    assert(t.subrange(k, k + label.len() + value.len()) =~= label + value);
    assert(occurs_at(t, label + value, k));
}

} // verus!
