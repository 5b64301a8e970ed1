//! Small operations on text that the rest of the library is stated over.

use vstd::prelude::*;
use vstd::string::*;

verus! {

/// The marks that may stand in front of a version constraint.
pub open spec fn is_decoration(c: char) -> bool {
    c == '^' || c == '~'
}

/// How many decoration marks a text begins with.
pub open spec fn decoration_len(s: Seq<char>) -> nat
    decreases s.len(),
{
    if s.len() > 0 && is_decoration(s[0]) {
        1 + decoration_len(s.drop_first())
    } else {
        0
    }
}

/// A constraint text without its leading decoration.
pub open spec fn undecorated(s: Seq<char>) -> Seq<char> {
    s.skip(decoration_len(s) as int)
}

/// `word` occurs in `s` as a run of neighbouring characters.
pub open spec fn occurs_in(word: Seq<char>, s: Seq<char>) -> bool {
    exists|i: int| 0 <= i && i + word.len() <= s.len() && #[trigger] s.subrange(i, i + word.len()) == word
}

/// `s` ends with `tail`.
pub open spec fn ends_in(s: Seq<char>, tail: Seq<char>) -> bool {
    tail.len() <= s.len() && s.subrange(s.len() - tail.len(), s.len() as int) == tail
}

/// The contents of a list of texts.
pub open spec fn texts_of(list: Seq<String>) -> Seq<Seq<char>> {
    Seq::new(list.len(), |i: int| list[i]@)
}

/// The decoration of a text is the longest run of marks at its start.
pub proof fn lemma_decoration_len(s: Seq<char>, k: int)
    requires
        0 <= k <= s.len(),
        forall|j: int| 0 <= j < k ==> is_decoration(#[trigger] s[j]),
        k == s.len() || !is_decoration(s[k]),
    ensures
        decoration_len(s) == k,
    decreases k,
{
    if k > 0 {
        let rest = s.drop_first();
        lemma_decoration_len(rest, k - 1);
    }
}

/// Whether two texts hold the same characters.
pub fn same_text(a: &str, b: &str) -> (same: bool)
    ensures
        same == (a@ == b@),
{
    let x = a.to_owned();
    let y = b.to_owned();
    x == y
}

/// The characters of a text, one by one.
pub fn characters(text: &str) -> (chars: Vec<char>)
    ensures
        chars@ == text@,
{
    let n = text.unicode_len();
    let mut chars: Vec<char> = Vec::new();
    let mut i: usize = 0;
    while i < n
        invariant
            n == text@.len(),
            i <= n,
            chars@ == text@.subrange(0, i as int),
        decreases n - i,
    {
        chars.push(text.get_char(i));
        i = i + 1;
    }
    chars
}

/// Whether `c` occurs in `text`.
pub fn holds_char(text: &str, c: char) -> (found: bool)
    ensures
        found == text@.contains(c),
{
    let n = text.unicode_len();
    let mut i: usize = 0;
    while i < n
        invariant
            n == text@.len(),
            i <= n,
            forall|j: int| 0 <= j < i ==> text@[j] != c,
        decreases n - i,
    {
        if text.get_char(i) == c {
            return true;
        }
        i = i + 1;
    }
    false
}

/// Removes the leading `^` and `~` marks of a constraint text.
pub fn strip_decoration(text: &str) -> (bare: String)
    ensures
        bare@ == undecorated(text@),
{
    let n = text.unicode_len();
    let mut k: usize = 0;
    while k < n && (text.get_char(k) == '^' || text.get_char(k) == '~')
        invariant
            n == text@.len(),
            k <= n,
            forall|j: int| 0 <= j < k ==> is_decoration(#[trigger] text@[j]),
        decreases n - k,
    {
        k = k + 1;
    }
    proof {
        lemma_decoration_len(text@, k as int);
    }
    text.substring_char(k, n).to_owned()
}

/// Whether `text` ends with `tail`.
pub fn ends_with(text: &str, tail: &str) -> (ends: bool)
    ensures
        ends == ends_in(text@, tail@),
{
    let s = characters(text);
    let t = characters(tail);
    if t.len() > s.len() {
        return false;
    }
    let start = s.len() - t.len();
    let mut j: usize = 0;
    while j < t.len()
        invariant
            s@ == text@,
            t@ == tail@,
            start + t.len() == s.len(),
            j <= t.len(),
            forall|i: int| 0 <= i < j ==> s@[start + i] == t@[i],
        decreases t.len() - j,
    {
        if s[start + j] != t[j] {
            return false;
        }
        j = j + 1;
    }
    assert(s@.subrange(start as int, s.len() as int) =~= t@);
    true
}

/// Whether `word` occurs in `text`.
pub fn contains(text: &str, word: &str) -> (found: bool)
    ensures
        found == occurs_in(word@, text@),
{
    let s = characters(text);
    let w = characters(word);
    if w.len() > s.len() {
        return false;
    }
    let last = s.len() - w.len();
    let mut i: usize = 0;
    while i <= last
        invariant
            s@ == text@,
            w@ == word@,
            last + w.len() == s.len(),
            i <= last + 1,
            forall|k: int| 0 <= k < i ==> #[trigger] s@.subrange(k, k + w.len()) != w@,
        decreases last + 1 - i,
    {
        let mut j: usize = 0;
        let mut matched = true;
        while j < w.len()
            invariant_except_break
                matched,
                forall|k: int| 0 <= k < j ==> s@[i + k] == w@[k],
            invariant
                last + w.len() == s.len(),
                i <= last,
                j <= w.len(),
            ensures
                matched ==> s@.subrange(i as int, i + w.len()) == w@,
                !matched ==> s@.subrange(i as int, i + w.len()) != w@,
            decreases w.len() - j,
        {
            if s[i + j] != w[j] {
                matched = false;
                break;
            }
            j = j + 1;
        }
        if matched {
            return true;
        }
        if i == last {
            return false;
        }
        i = i + 1;
    }
    false
}

} // verus!
