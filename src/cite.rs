//! Note names inside the element ids of a wiki page's citations.
//!
//! A citation mark has an id such as `cite_ref-Steam_old_3-0`, and the note it
//! points to an id such as `cite_note-Steam_old-3`. Both carry the note's name
//! (`Steam_old`) between a fixed prefix and a trailing number.

use vstd::prelude::*;

verus! {

/// The two kinds of citation id.
#[derive(Debug, Clone, Copy)]
pub enum HtmlIdTy {
    /// The id of a citation mark: `cite_ref-<name>_<n>-<m>`.
    CiteRef,
    /// The id of a note: `cite_note-<name>-<n>`.
    CiteNote,
}

/// The prefix that precedes the name in an id of kind `ty`.
pub open spec fn prefix_of(ty: HtmlIdTy) -> Seq<char> {
    match ty {
        HtmlIdTy::CiteRef => "cite_ref-"@,
        HtmlIdTy::CiteNote => "cite_note-"@,
    }
}

/// The character that follows the name in an id of kind `ty`.
pub open spec fn separator_of(ty: HtmlIdTy) -> char {
    match ty {
        HtmlIdTy::CiteRef => '_',
        HtmlIdTy::CiteNote => '-',
    }
}

/// Whether `pat` occurs in `s` at position `i`.
pub open spec fn occurs_at(s: Seq<char>, pat: Seq<char>, i: int) -> bool {
    0 <= i && i + pat.len() <= s.len() && s.subrange(i, i + pat.len()) == pat
}

/// Whether `i` is the first position at which `pat` occurs in `s`.
pub open spec fn first_at(s: Seq<char>, pat: Seq<char>, i: int) -> bool {
    occurs_at(s, pat, i) && forall|j: int| 0 <= j < i ==> !occurs_at(s, pat, j)
}

/// Whether `i` is the last position of character `c` in `s`.
pub open spec fn last_at(s: Seq<char>, c: char, i: int) -> bool {
    0 <= i < s.len() && s[i] == c && forall|j: int| i < j < s.len() ==> s[j] != c
}

/// The note name held by `id`, read between the end of the first occurrence
/// of the prefix and the last occurrence of the separator. A mark without a
/// name (`cite_ref-2`, whose last `_` is the one at position 4 of the prefix)
/// and a note without one (`cite_note-2`, whose name would end before it
/// starts) give the empty name. No name can be read (`None`) when the prefix
/// or the separator is missing, or when the separator stands before the end of
/// the prefix in any other way.
pub open spec fn note_name(id: Seq<char>, ty: HtmlIdTy) -> Option<Seq<char>> {
    let pre = prefix_of(ty);
    let sep = separator_of(ty);
    if (exists|b: int| first_at(id, pre, b)) && (exists|e: int| last_at(id, sep, e)) {
        let begin = (choose|b: int| first_at(id, pre, b)) + pre.len();
        let end = choose|e: int| last_at(id, sep, e);
        if end == 4 || begin == end + 1 {
            Some(Seq::empty())
        } else if begin <= end {
            Some(id.subrange(begin, end))
        } else {
            None
        }
    } else {
        None
    }
}

/// The first position at which `pat` occurs in `s`.
pub(crate) fn find_str(s: &str, pat: &str) -> (r: Option<usize>)
    ensures
        match r {
            Some(i) => first_at(s@, pat@, i as int),
            None => forall|i: int| !occurs_at(s@, pat@, i),
        },
{
    let n = s.unicode_len();
    let m = pat.unicode_len();
    if m > n {
        return None;
    }
    let mut i: usize = 0;
    while i <= n - m
        invariant
            n == s@.len(),
            m == pat@.len(),
            m <= n,
            i <= n - m + 1,
            forall|j: int| 0 <= j < i ==> !occurs_at(s@, pat@, j),
        decreases n - i,
    {
        let mut k: usize = 0;
        let mut same = true;
        while k < m
            invariant
                n == s@.len(),
                m == pat@.len(),
                i + m <= n,
                k <= m,
                same == forall|l: int| 0 <= l < k ==> s@[i + l] == pat@[l],
            decreases m - k,
        {
            if s.get_char(i + k) != pat.get_char(k) {
                same = false;
            }
            k += 1;
        }
        if same {
            assert(s@.subrange(i as int, i + m) =~= pat@);
            return Some(i);
        }
        assert(!occurs_at(s@, pat@, i as int)) by {
            if occurs_at(s@, pat@, i as int) {
                let l = choose|l: int| 0 <= l < m && s@[i + l] != pat@[l];
                assert(s@.subrange(i as int, i + m)[l] == s@[i + l]);
            }
        }
        i += 1;
    }
    None
}

/// The last position of character `c` in `s`.
fn rfind_char(s: &str, c: char) -> (r: Option<usize>)
    ensures
        match r {
            Some(i) => last_at(s@, c, i as int),
            None => forall|i: int| 0 <= i < s@.len() ==> s@[i] != c,
        },
{
    let n = s.unicode_len();
    let mut i: usize = n;
    while i > 0
        invariant
            n == s@.len(),
            i <= n,
            forall|j: int| i <= j < n ==> s@[j] != c,
        decreases i,
    {
        if s.get_char(i - 1) == c {
            return Some(i - 1);
        }
        i -= 1;
    }
    None
}

/// Reads the note name out of a citation id of kind `ty` (see `note_name`).
/// The numbers around the name differ between a whole page and one of its
/// sections, while the name does not, so marks and notes are matched by it.
pub fn format_id(id: &str, ty: HtmlIdTy) -> (r: Option<&str>)
    ensures
        match r {
            Some(x) => note_name(id@, ty) == Some(x@),
            None => note_name(id@, ty) is None,
        },
{
    let (start, separator) = match ty {
        HtmlIdTy::CiteRef => ("cite_ref-", '_'),
        HtmlIdTy::CiteNote => ("cite_note-", '-'),
    };
    proof {
        reveal_strlit("cite_ref-");
        reveal_strlit("cite_note-");
        reveal_strlit("");
    }
    assert(start@ == prefix_of(ty) && separator == separator_of(ty));
    let found = find_str(id, start);
    let b = match found {
        Some(b) => b,
        None => {
            assert(!exists|b: int| first_at(id@, start@, b));
            return None;
        },
    };
    let e = match rfind_char(id, separator) {
        Some(e) => e,
        None => {
            assert(!exists|e: int| last_at(id@, separator, e));
            return None;
        },
    };
    let ghost cb = choose|x: int| first_at(id@, start@, x);
    let ghost ce = choose|x: int| last_at(id@, separator, x);
    assert(cb == b) by {
        if cb < b {
            assert(!occurs_at(id@, start@, cb));
        } else if b < cb {
            assert(!occurs_at(id@, start@, b as int));
        }
    }
    assert(ce == e) by {
        if ce < e {
            assert(id@[e as int] != separator);
        } else if e < ce {
            assert(id@[ce] != separator);
        }
    }
    let n = id.unicode_len();
    let begin = b + start.unicode_len();
    if e == 4 {
        return Some("");
    }
    if begin == e + 1 {
        return Some("");
    }
    if begin > e {
        return None;
    }
    Some(id.substring_char(begin, e))
}

} // verus!
