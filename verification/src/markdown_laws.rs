//! Properties of the Markdown transformation: text outside math spans is
//! copied, and each span is replaced in place by its conversion.

use vstd::prelude::*;
use crate::document::{
    close_dollar, close_pair, display_wrapped, inline_wrapped, lemma_prepend_prepend, markdown,
    markdown_from, prepend, strip_defined, stripped,
};
use crate::grammar::parse_formula;
use crate::layout::{block, inline_list};
use crate::text::{trim, trim_start};

verus! {

/// No math span opens in `t`: it holds no dollar sign, and no backslash in it
/// is followed by `[` or `(`.
pub open spec fn no_opener(t: Seq<char>) -> bool {
    &&& forall|i: int| 0 <= i < t.len() ==> #[trigger] t[i] != '$'
    &&& forall|i: int|
        0 <= i < t.len() - 1 ==> !(#[trigger] t[i] == '\\' && (t[i + 1] == '[' || t[i + 1] == '('))
}

/// The two characters `a`, `b` never occur one after the other in `t`.
pub open spec fn no_pair(t: Seq<char>, a: char, b: char) -> bool {
    forall|i: int| 0 <= i < t.len() - 1 ==> !(#[trigger] t[i] == a && t[i + 1] == b)
}

/// The scan copies, one character at a time, a stretch where no span opens.
proof fn lemma_markdown_stretch(s: Seq<char>, i: int, hi: int)
    requires
        0 <= i <= hi <= s.len(),
        forall|j: int|
            i <= j < hi ==> #[trigger] s[j] != '$' && !(s[j] == '\\' && j + 1 < s.len() && (s[j
                + 1] == '[' || s[j + 1] == '(')),
    ensures
        markdown_from(s, i) == prepend(s.subrange(i, hi), markdown_from(s, hi)),
    decreases hi - i,
{
    if i == hi {
        if let Some(r) = markdown_from(s, hi) {
            assert(s.subrange(i, hi) + r == r);
        }
    } else {
        lemma_markdown_stretch(s, i + 1, hi);
        assert(s[i] != '$');
        lemma_prepend_prepend(seq![s[i]], s.subrange(i + 1, hi), markdown_from(s, hi));
        assert(seq![s[i]] + s.subrange(i + 1, hi) == s.subrange(i, hi));
    }
}

/// A piece `t` of `s` at offset `o` in which no span opens, followed by a
/// dollar sign, a backslash or the end of `s`, is copied as it stands.
proof fn lemma_copied_piece(s: Seq<char>, t: Seq<char>, o: int)
    requires
        0 <= o,
        o + t.len() <= s.len(),
        s.subrange(o, o + t.len()) == t,
        no_opener(t),
        o + t.len() < s.len() ==> (s[o + t.len()] == '$' || s[o + t.len()] == '\\'),
    ensures
        markdown_from(s, o) == prepend(t, markdown_from(s, o + t.len())),
{
    let e = o + t.len();
    assert forall|j: int| o <= j < e implies #[trigger] s[j] != '$' && !(s[j] == '\\' && j + 1
        < s.len() && (s[j + 1] == '[' || s[j + 1] == '(')) by {
        assert(s[j] == s.subrange(o, e)[j - o]);
        if j + 1 < e {
            assert(s[j + 1] == s.subrange(o, e)[j + 1 - o]);
        }
    }
    lemma_markdown_stretch(s, o, e);
}

/// The closing pair search stops at the first match.
proof fn lemma_close_pair_at(
    s: Seq<char>,
    j: int,
    k: int,
    a: char,
    b: char,
    unescaped: bool,
    one_line: bool,
)
    requires
        0 <= j <= k,
        k + 1 < s.len(),
        s[k] == a && s[k + 1] == b && (!unescaped || k == 0 || s[k - 1] != '\\'),
        forall|m: int|
            j <= m < k ==> !(#[trigger] s[m] == a && s[m + 1] == b && (!unescaped || m == 0 || s[m
                - 1] != '\\')) && !(one_line && s[m] == '\n'),
    ensures
        close_pair(s, j, a, b, unescaped, one_line) == Some(k),
    decreases k - j,
{
    if j < k {
        lemma_close_pair_at(s, j + 1, k, a, b, unescaped, one_line);
    }
}

/// The closing pair search finds nothing where the pair never occurs.
proof fn lemma_close_pair_none(
    s: Seq<char>,
    j: int,
    a: char,
    b: char,
    unescaped: bool,
    one_line: bool,
)
    requires
        0 <= j,
        forall|m: int| j <= m < s.len() - 1 ==> !(#[trigger] s[m] == a && s[m + 1] == b),
    ensures
        close_pair(s, j, a, b, unescaped, one_line) is None,
    decreases s.len() - j,
{
    if j + 1 < s.len() {
        lemma_close_pair_none(s, j + 1, a, b, unescaped, one_line);
    }
}

/// The closing dollar search stops at the first unescaped dollar.
proof fn lemma_close_dollar_at(s: Seq<char>, j: int, k: int)
    requires
        1 <= j <= k < s.len(),
        s[k] == '$' && s[k - 1] != '\\',
        forall|m: int| j <= m < k ==> #[trigger] s[m] != '$' && s[m] != '\n',
    ensures
        close_dollar(s, j) == Some(k),
    decreases k - j,
{
    if j < k {
        lemma_close_dollar_at(s, j + 1, k);
    }
}

/// A formula without dollar signs can always have its delimiters stripped.
proof fn lemma_strip_defined_without_dollar(f: Seq<char>)
    requires
        forall|i: int| 0 <= i < f.len() ==> #[trigger] f[i] != '$',
    ensures
        strip_defined(f),
{
    let t = trim(f);
    crate::text::lemma_trim_start(f);
    let u = trim_start(f);
    crate::text::lemma_trim_end(u);
    assert(t == u.take(crate::text::end_non_ws(u) as int));
    assert(u == f.skip(crate::text::lead_ws(f) as int));
    assert(forall|i: int| 0 <= i < t.len() ==> #[trigger] t[i] == f[i + crate::text::lead_ws(f)]);
    if t.len() >= 1 {
        assert(t[0] != '$');
    }
    if t.len() == 2 || t.len() == 3 {
        assert(t[t.len() - 2] == t[t.len() - 2]);
        assert(!display_wrapped(t));
        assert(!inline_wrapped(t));
    }
}

/// Text in which no math span opens passes through the Markdown
/// transformation unchanged.
pub proof fn law_markdown_copies_plain_text(t: Seq<char>)
    requires
        no_opener(t),
    ensures
        markdown(t) == Some(t),
{
    assert(t.subrange(0, t.len() as int) == t);
    lemma_copied_piece(t, t, 0);
    assert(t + Seq::<char>::empty() == t);
}

/// An inline `$ … $` span on one line is replaced in place by the inline
/// rendering of the formula; the text around it, in which no span opens and
/// whose part before the span does not end with a backslash, is kept.
pub proof fn law_markdown_inline_span(a: Seq<char>, f: Seq<char>, b: Seq<char>)
    requires
        no_opener(a),
        no_opener(b),
        a.len() > 0 ==> a[a.len() - 1] != '\\',
        f.len() > 0,
        forall|i: int| 0 <= i < f.len() ==> #[trigger] f[i] != '$' && f[i] != '\n',
        f[f.len() - 1] != '\\',
    ensures
        markdown(a + seq!['$'] + f + seq!['$'] + b) == Some(
            a + inline_list(parse_formula(stripped(f))) + b,
        ),
{
    let s = a + seq!['$'] + f + seq!['$'] + b;
    let p = a.len() as int;
    let k = p + 1 + f.len();
    assert(forall|j: int| 0 <= j < p ==> #[trigger] s[j] == a[j]);
    assert(forall|j: int| 0 <= j < f.len() ==> #[trigger] s[p + 1 + j] == f[j]);
    assert(forall|j: int| 0 <= j < b.len() ==> #[trigger] s[k + 1 + j] == b[j]);
    assert(s[p] == '$');
    assert(s[k] == '$');
    assert(s.subrange(0, p) == a);
    lemma_copied_piece(s, a, 0);
    assert(s[p + 1] == f[0]);
    assert forall|m: int| p + 1 <= m < k implies #[trigger] s[m] != '$' && s[m] != '\n' by {
        assert(s[p + 1 + (m - p - 1)] == f[m - p - 1]);
    }
    assert(s[k - 1] == f[f.len() - 1]);
    lemma_close_dollar_at(s, p + 1, k);
    assert(s.subrange(p + 1, k) == f);
    lemma_strip_defined_without_dollar(f);
    assert(s.subrange(k + 1, s.len() as int) == b);
    lemma_copied_piece(s, b, k + 1);
    assert(b + Seq::<char>::empty() == b);
    if p > 0 {
        assert(s[p - 1] == a[p - 1]);
    }
    let c = inline_list(parse_formula(stripped(f)));
    assert(a + (c + b) == a + c + b);
}

/// An inline `\( … \)` span on one line is replaced in place by the inline
/// rendering of the formula; the text around it, in which no span opens, is
/// kept.
pub proof fn law_markdown_paren_span(a: Seq<char>, f: Seq<char>, b: Seq<char>)
    requires
        no_opener(a),
        no_opener(b),
        strip_defined(f),
        forall|i: int| 0 <= i < f.len() ==> #[trigger] f[i] != '\n',
        no_pair(f, '\\', ')'),
    ensures
        markdown(a + seq!['\\', '('] + f + seq!['\\', ')'] + b) == Some(
            a + inline_list(parse_formula(stripped(f))) + b,
        ),
{
    let s = a + seq!['\\', '('] + f + seq!['\\', ')'] + b;
    let p = a.len() as int;
    let k = p + 2 + f.len();
    assert(forall|j: int| 0 <= j < p ==> #[trigger] s[j] == a[j]);
    assert(forall|j: int| 0 <= j < f.len() ==> #[trigger] s[p + 2 + j] == f[j]);
    assert(forall|j: int| 0 <= j < b.len() ==> #[trigger] s[k + 2 + j] == b[j]);
    assert(s[p] == '\\' && s[p + 1] == '(');
    assert(s[k] == '\\' && s[k + 1] == ')');
    assert(s.subrange(0, p) == a);
    lemma_copied_piece(s, a, 0);
    assert forall|m: int| p + 2 <= m < k implies !(#[trigger] s[m] == '\\' && s[m + 1] == ')' && (
    !false || m == 0 || s[m - 1] != '\\')) && !(true && s[m] == '\n') by {
        assert(s[p + 2 + (m - p - 2)] == f[m - p - 2]);
        if m + 1 < k {
            assert(s[p + 2 + (m + 1 - p - 2)] == f[m + 1 - p - 2]);
        }
    }
    lemma_close_pair_at(s, p + 2, k, '\\', ')', false, true);
    assert(s.subrange(p + 2, k) == f);
    assert(s.subrange(k + 2, s.len() as int) == b);
    lemma_copied_piece(s, b, k + 2);
    assert(b + Seq::<char>::empty() == b);
    let c = inline_list(parse_formula(stripped(f)));
    assert(a + (c + b) == a + c + b);
}

/// A display `$$ … $$` span is replaced in place by the display rendering of
/// the formula, on lines of its own; the text around it, in which no span
/// opens, is kept.
pub proof fn law_markdown_display_span(a: Seq<char>, f: Seq<char>, b: Seq<char>)
    requires
        no_opener(a),
        no_opener(b),
        forall|i: int| 0 <= i < f.len() ==> #[trigger] f[i] != '$',
        f.len() > 0 ==> f[f.len() - 1] != '\\',
    ensures
        markdown(a + seq!['$', '$'] + f + seq!['$', '$'] + b) == Some(
            a + seq!['\n'] + block(parse_formula(stripped(f))) + seq!['\n'] + b,
        ),
{
    let s = a + seq!['$', '$'] + f + seq!['$', '$'] + b;
    let p = a.len() as int;
    let k = p + 2 + f.len();
    assert(forall|j: int| 0 <= j < p ==> #[trigger] s[j] == a[j]);
    assert(forall|j: int| 0 <= j < f.len() ==> #[trigger] s[p + 2 + j] == f[j]);
    assert(forall|j: int| 0 <= j < b.len() ==> #[trigger] s[k + 2 + j] == b[j]);
    assert(s[p] == '$' && s[p + 1] == '$');
    assert(s[k] == '$' && s[k + 1] == '$');
    assert(s.subrange(0, p) == a);
    lemma_copied_piece(s, a, 0);
    assert forall|m: int| p + 2 <= m < k implies !(#[trigger] s[m] == '$' && s[m + 1] == '$' && (
    !true || m == 0 || s[m - 1] != '\\')) && !(false && s[m] == '\n') by {
        assert(s[p + 2 + (m - p - 2)] == f[m - p - 2]);
    }
    if f.len() > 0 {
        assert(s[k - 1] == f[f.len() - 1]);
    } else {
        assert(s[k - 1] == '$');
    }
    lemma_close_pair_at(s, p + 2, k, '$', '$', true, false);
    assert(s.subrange(p + 2, k) == f);
    lemma_strip_defined_without_dollar(f);
    assert(s.subrange(k + 2, s.len() as int) == b);
    lemma_copied_piece(s, b, k + 2);
    assert(b + Seq::<char>::empty() == b);
    let c = block(parse_formula(stripped(f)));
    assert(a + ((seq!['\n'] + c) + (seq!['\n'] + b)) == a + seq!['\n'] + c + seq!['\n'] + b);
}

/// A display `\[ … \]` span is replaced in place by the display rendering of
/// the formula, on lines of its own; the text around it, in which no span
/// opens, is kept.
pub proof fn law_markdown_bracket_span(a: Seq<char>, f: Seq<char>, b: Seq<char>)
    requires
        no_opener(a),
        no_opener(b),
        strip_defined(f),
        no_pair(f, '\\', ']'),
    ensures
        markdown(a + seq!['\\', '['] + f + seq!['\\', ']'] + b) == Some(
            a + seq!['\n'] + block(parse_formula(stripped(f))) + seq!['\n'] + b,
        ),
{
    let s = a + seq!['\\', '['] + f + seq!['\\', ']'] + b;
    let p = a.len() as int;
    let k = p + 2 + f.len();
    assert(forall|j: int| 0 <= j < p ==> #[trigger] s[j] == a[j]);
    assert(forall|j: int| 0 <= j < f.len() ==> #[trigger] s[p + 2 + j] == f[j]);
    assert(forall|j: int| 0 <= j < b.len() ==> #[trigger] s[k + 2 + j] == b[j]);
    assert(s[p] == '\\' && s[p + 1] == '[');
    assert(s[k] == '\\' && s[k + 1] == ']');
    assert(s.subrange(0, p) == a);
    lemma_copied_piece(s, a, 0);
    assert forall|m: int| p + 2 <= m < k implies !(#[trigger] s[m] == '\\' && s[m + 1] == ']' && (
    !false || m == 0 || s[m - 1] != '\\')) && !(false && s[m] == '\n') by {
        assert(s[p + 2 + (m - p - 2)] == f[m - p - 2]);
        if m + 1 < k {
            assert(s[p + 2 + (m + 1 - p - 2)] == f[m + 1 - p - 2]);
        }
    }
    lemma_close_pair_at(s, p + 2, k, '\\', ']', false, false);
    assert(s.subrange(p + 2, k) == f);
    assert(s.subrange(k + 2, s.len() as int) == b);
    lemma_copied_piece(s, b, k + 2);
    assert(b + Seq::<char>::empty() == b);
    let c = block(parse_formula(stripped(f)));
    assert(a + ((seq!['\n'] + c) + (seq!['\n'] + b)) == a + seq!['\n'] + c + seq!['\n'] + b);
}

/// A `$$` that is never closed leaves the rest of the document, from the `$$`
/// on, as it stands.
pub proof fn law_markdown_unclosed_display(a: Seq<char>, q: Seq<char>)
    requires
        no_opener(a),
        no_pair(q, '$', '$'),
    ensures
        markdown(a + seq!['$', '$'] + q) == Some(a + seq!['$', '$'] + q),
{
    let s = a + seq!['$', '$'] + q;
    let p = a.len() as int;
    assert(forall|j: int| 0 <= j < q.len() ==> #[trigger] s[p + 2 + j] == q[j]);
    assert(s[p] == '$' && s[p + 1] == '$');
    assert(s.subrange(0, p) == a);
    lemma_copied_piece(s, a, 0);
    assert forall|m: int| p + 2 <= m < s.len() - 1 implies !(#[trigger] s[m] == '$' && s[m + 1]
        == '$') by {
        assert(s[p + 2 + (m - p - 2)] == q[m - p - 2]);
        assert(s[p + 2 + (m + 1 - p - 2)] == q[m + 1 - p - 2]);
    }
    lemma_close_pair_none(s, p + 2, '$', '$', true, false);
    assert(s.subrange(p, s.len() as int) == seq!['$', '$'] + q);
    assert(a + (seq!['$', '$'] + q) == a + seq!['$', '$'] + q);
}

} // verus!
