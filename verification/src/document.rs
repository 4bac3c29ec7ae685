//! What the top-level conversions compute: delimiter stripping and the scan
//! of a Markdown document for its math spans.

use vstd::prelude::*;
use crate::grammar::parse_formula;
use crate::layout::{block, inline_list};
use crate::text::trim;

verus! {

/// `t` begins with the two characters `a`, `b`.
pub open spec fn starts2(t: Seq<char>, a: char, b: char) -> bool {
    t.len() >= 2 && t[0] == a && t[1] == b
}

/// `t` ends with the two characters `a`, `b`.
pub open spec fn ends2(t: Seq<char>, a: char, b: char) -> bool {
    t.len() >= 2 && t[t.len() - 2] == a && t[t.len() - 1] == b
}

/// `t` is wrapped in `$$ … $$` or `\[ … \]`.
pub open spec fn display_wrapped(t: Seq<char>) -> bool {
    (starts2(t, '$', '$') && ends2(t, '$', '$')) || (starts2(t, '\\', '[') && ends2(t, '\\', ']'))
}

/// `t` is wrapped in `$ … $` or `\( … \)`.
pub open spec fn inline_wrapped(t: Seq<char>) -> bool {
    (t.len() >= 1 && t[0] == '$' && t[t.len() - 1] == '$') || (starts2(t, '\\', '(') && ends2(
        t,
        '\\',
        ')',
    ))
}

/// How many characters the opening and the closing delimiter of `t` take.
pub open spec fn delimiter_widths(t: Seq<char>) -> (int, int) {
    if display_wrapped(t) {
        (2, 2)
    } else if inline_wrapped(t) {
        (if t[0] == '$' {
            1
        } else {
            2
        }, if t[t.len() - 1] == '$' {
            1
        } else {
            2
        })
    } else {
        (0, 0)
    }
}

/// Whether the delimiters of the trimmed `s` do not overlap, so that what lies
/// between them can be taken (false only for `$`, `$$` and `$$$`).
pub open spec fn strip_defined(s: Seq<char>) -> bool {
    let t = trim(s);
    delimiter_widths(t).0 <= t.len() - delimiter_widths(t).1
}

/// `s` trimmed, and if it is wrapped in math delimiters, what lies between
/// them, trimmed again.
pub open spec fn stripped(s: Seq<char>) -> Seq<char> {
    let t = trim(s);
    if display_wrapped(t) || inline_wrapped(t) {
        trim(t.subrange(delimiter_widths(t).0, t.len() - delimiter_widths(t).1))
    } else {
        t
    }
}

/// The inline rendering of the formula `f`, when its delimiters can be stripped.
pub open spec fn inline_formula(f: Seq<char>) -> Option<Seq<char>> {
    if strip_defined(f) {
        Some(inline_list(parse_formula(stripped(f))))
    } else {
        None
    }
}

/// The display rendering of the formula `f`, when its delimiters can be stripped.
pub open spec fn display_formula(f: Seq<char>) -> Option<Seq<char>> {
    if strip_defined(f) {
        Some(block(parse_formula(stripped(f))))
    } else {
        None
    }
}

/// The first position `k >= j` with `s[k] == a` and `s[k + 1] == b`; with
/// `unescaped`, `s[k - 1]` must not be a backslash; with `one_line`, the search
/// gives up at a line break.
pub open spec fn close_pair(
    s: Seq<char>,
    j: int,
    a: char,
    b: char,
    unescaped: bool,
    one_line: bool,
) -> Option<int>
    decreases s.len() - j,
{
    if j < 0 || j + 1 >= s.len() {
        None
    } else if s[j] == a && s[j + 1] == b && (!unescaped || j == 0 || s[j - 1] != '\\') {
        Some(j)
    } else if one_line && s[j] == '\n' {
        None
    } else {
        close_pair(s, j + 1, a, b, unescaped, one_line)
    }
}

/// The first position `k >= j` holding a `$` not preceded by a backslash, on
/// the same line.
pub open spec fn close_dollar(s: Seq<char>, j: int) -> Option<int>
    decreases s.len() - j,
{
    if j < 1 || j >= s.len() {
        None
    } else if s[j] == '$' && s[j - 1] != '\\' {
        Some(j)
    } else if s[j] == '\n' {
        None
    } else {
        close_dollar(s, j + 1)
    }
}

/// A position found by `close_pair` leaves room for the closing pair.
pub proof fn lemma_close_pair(s: Seq<char>, j: int, a: char, b: char, unescaped: bool, one_line: bool)
    ensures
        close_pair(s, j, a, b, unescaped, one_line) matches Some(k) ==> j <= k && k + 1 < s.len()
            && s[k] == a && s[k + 1] == b,
    decreases s.len() - j,
{
    if !(j < 0 || j + 1 >= s.len()) && !(s[j] == a && s[j + 1] == b && (!unescaped || j == 0
        || s[j - 1] != '\\')) && !(one_line && s[j] == '\n') {
        lemma_close_pair(s, j + 1, a, b, unescaped, one_line);
    }
}

/// A position found by `close_dollar` lies within `s`.
pub proof fn lemma_close_dollar(s: Seq<char>, j: int)
    ensures
        close_dollar(s, j) matches Some(k) ==> j <= k && k < s.len() && s[k] == '$',
    decreases s.len() - j,
{
    if !(j < 1 || j >= s.len()) && !(s[j] == '$' && s[j - 1] != '\\') && !(s[j] == '\n') {
        lemma_close_dollar(s, j + 1);
    }
}

/// `p` followed by what `rest` holds; nothing when `rest` is nothing.
pub open spec fn prepend(p: Seq<char>, rest: Option<Seq<char>>) -> Option<Seq<char>> {
    match rest {
        Some(r) => Some(p + r),
        None => None,
    }
}

/// `p` before `q` before `rest` is `p + q` before `rest`.
pub proof fn lemma_prepend_prepend(p: Seq<char>, q: Seq<char>, rest: Option<Seq<char>>)
    ensures
        prepend(p, prepend(q, rest)) == prepend(p + q, rest),
{
    if let Some(r) = rest {
        assert(p + (q + r) == (p + q) + r);
    }
}

/// A converted formula followed by what `rest` holds; nothing when either is
/// nothing.
pub open spec fn join(conv: Option<Seq<char>>, rest: Option<Seq<char>>) -> Option<Seq<char>> {
    match conv {
        Some(c) => prepend(c, rest),
        None => None,
    }
}

/// The transformed document from position `i` of `s`: each `\[ … \]` and
/// `$$ … $$` span is replaced by its display rendering on lines of its own,
/// each `\( … \)` and `$ … $` span on one line by its inline rendering, and
/// everything else is copied. An opening `\[` or `$$` that is never closed
/// copies the rest of the document; an unclosed `\(` or `$` is copied as it
/// stands. Nothing when a formula's delimiters cannot be stripped.
pub open spec fn markdown_from(s: Seq<char>, i: int) -> Option<Seq<char>>
    decreases s.len() - i,
{
    if i < 0 || i >= s.len() {
        Some(Seq::empty())
    } else if s[i] == '\\' && i + 1 < s.len() && s[i + 1] == '[' {
        match close_pair(s, i + 2, '\\', ']', false, false) {
            Some(k) => {
                proof {
                    lemma_close_pair(s, i + 2, '\\', ']', false, false);
                }
                join(
                    prepend(seq!['\n'], display_formula(s.subrange(i + 2, k))),
                    prepend(seq!['\n'], markdown_from(s, k + 2)),
                )
            },
            None => Some(s.subrange(i, s.len() as int)),
        }
    } else if s[i] == '\\' && i + 1 < s.len() && s[i + 1] == '(' {
        match close_pair(s, i + 2, '\\', ')', false, true) {
            Some(k) => {
                proof {
                    lemma_close_pair(s, i + 2, '\\', ')', false, true);
                }
                join(inline_formula(s.subrange(i + 2, k)), markdown_from(s, k + 2))
            },
            None => prepend(seq![s[i]], markdown_from(s, i + 1)),
        }
    } else if s[i] == '$' && i + 1 < s.len() && s[i + 1] == '$' {
        match close_pair(s, i + 2, '$', '$', true, false) {
            Some(k) => {
                proof {
                    lemma_close_pair(s, i + 2, '$', '$', true, false);
                }
                join(
                    prepend(seq!['\n'], display_formula(s.subrange(i + 2, k))),
                    prepend(seq!['\n'], markdown_from(s, k + 2)),
                )
            },
            None => Some(s.subrange(i, s.len() as int)),
        }
    } else if s[i] == '$' && (i == 0 || s[i - 1] != '\\') {
        match close_dollar(s, i + 1) {
            Some(k) => {
                proof {
                    lemma_close_dollar(s, i + 1);
                }
                join(inline_formula(s.subrange(i + 1, k)), markdown_from(s, k + 1))
            },
            None => prepend(seq![s[i]], markdown_from(s, i + 1)),
        }
    } else {
        prepend(seq![s[i]], markdown_from(s, i + 1))
    }
}

/// The transformed document `s`; nothing when the conversion of one
/// of its formulas would fail.
pub open spec fn markdown(s: Seq<char>) -> Option<Seq<char>> {
    markdown_from(s, 0)
}

} // verus!
