//! Properties of parsing, rendering and delimiter stripping that hold for
//! every input.

use vstd::prelude::*;
use crate::document::{
    delimiter_widths, display_wrapped, inline_wrapped, strip_defined, stripped,
};
use crate::grammar::{
    collapse, collapse_step, lemma_collapse_push, lemma_name_end, lemma_ws_end, name_end,
    parse_arg_at, parse_command_at, parse_formula, parse_node_at, push_opt, top_loop, ws_end,
};
use crate::layout::{
    all_sup, brace_bar, brace_columns, brace_piece, brace_width, cell_texts, centered, col_width,
    compound, frac_2d, frac_side, grid, has_brace, has_overbrace, imax, inline_brackets,
    inline_concat, inline_list, inline_of, label_text, lemma_col_width, matrix_2d, matrix_glyphs,
    matrix_line, matrix_lines, normalized, padded_cell, row_brackets, row_content, squeeze_ws,
    sub_map, sup_form, sup_map, to_sub, to_sup, with_braces,
};
use crate::ast::{MatrixKind, SpecNode};
use crate::symbols::subscript_char;
use crate::text::{
    is_white_space, lemma_trim_end, lemma_trim_start, repeat_char, trim, trim_end, trim_start,
};

verus! {

/// One clean line of text: its only whitespace character is the plain space,
/// spaces never come two in a row, and it neither starts nor ends with one.
pub open spec fn clean_line(t: Seq<char>) -> bool {
    &&& forall|i: int| 0 <= i < t.len() && is_white_space(#[trigger] t[i]) ==> t[i] == ' '
    &&& forall|i: int| 0 <= i < t.len() - 1 && #[trigger] t[i] == ' ' ==> t[i + 1] != ' '
    &&& t.len() > 0 ==> !is_white_space(t[0]) && !is_white_space(t[t.len() - 1])
}

/// Whitespace reduced to single spaces: the first two conditions of `clean_line`.
pub open spec fn single_spaced(t: Seq<char>) -> bool {
    &&& forall|i: int| 0 <= i < t.len() && is_white_space(#[trigger] t[i]) ==> t[i] == ' '
    &&& forall|i: int| 0 <= i < t.len() - 1 && #[trigger] t[i] == ' ' ==> t[i + 1] != ' '
}

proof fn lemma_squeeze_single_spaced(s: Seq<char>)
    ensures
        single_spaced(squeeze_ws(s)),
    decreases s.len(),
{
    if s.len() > 0 {
        lemma_squeeze_single_spaced(s.drop_last());
        let r = squeeze_ws(s.drop_last());
        let q = squeeze_ws(s);
        if !is_white_space(s.last()) || !(r.len() > 0 && r.last() == ' ') {
            assert forall|i: int| 0 <= i < q.len() - 1 && #[trigger] q[i] == ' ' implies q[i + 1]
                != ' ' by {
                if i < r.len() - 1 {
                    assert(q[i] == r[i] && q[i + 1] == r[i + 1]);
                }
            }
            assert forall|i: int| 0 <= i < q.len() && is_white_space(#[trigger] q[i]) implies q[i]
                == ' ' by {
                if i < r.len() {
                    assert(q[i] == r[i]);
                }
            }
        }
    }
}

proof fn lemma_single_spaced_subrange(t: Seq<char>, a: int, b: int)
    requires
        single_spaced(t),
        0 <= a <= b <= t.len(),
    ensures
        single_spaced(t.subrange(a, b)),
{
    let u = t.subrange(a, b);
    assert forall|i: int| 0 <= i < u.len() - 1 && #[trigger] u[i] == ' ' implies u[i + 1] != ' ' by {
        assert(u[i] == t[a + i] && u[i + 1] == t[a + i + 1]);
    }
    assert forall|i: int| 0 <= i < u.len() && is_white_space(#[trigger] u[i]) implies u[i] == ' ' by {
        assert(u[i] == t[a + i]);
    }
}

proof fn lemma_trim_clean(t: Seq<char>)
    requires
        single_spaced(t),
    ensures
        clean_line(trim(t)),
{
    lemma_trim_start(t);
    let u = trim_start(t);
    lemma_single_spaced_subrange(t, lead_of(t), t.len() as int);
    lemma_trim_end(u);
    let v = trim_end(u);
    assert(u == t.subrange(lead_of(t), t.len() as int));
    lemma_single_spaced_subrange(u, 0, crate::text::end_non_ws(u) as int);
    assert(v == u.subrange(0, crate::text::end_non_ws(u) as int));
    if v.len() > 0 {
        assert(v[0] == u[0]);
    }
}

spec fn lead_of(t: Seq<char>) -> int {
    crate::text::lead_ws(t) as int
}

proof fn lemma_squeeze_of_single_spaced(t: Seq<char>)
    requires
        single_spaced(t),
    ensures
        squeeze_ws(t) == t,
    decreases t.len(),
{
    if t.len() > 0 {
        let d = t.drop_last();
        lemma_single_spaced_subrange(t, 0, t.len() - 1);
        assert(d == t.subrange(0, t.len() - 1));
        lemma_squeeze_of_single_spaced(d);
        if is_white_space(t.last()) && d.len() > 0 {
            assert(t[d.len() - 1] == d.last());
        }
        assert(t == d.push(t.last()));
    }
}

/// Inline rendering gives one clean line: every whitespace run of the rendered
/// text is squeezed to a single space and none is left at either end, so the
/// text holds no line break.
pub proof fn law_normalized_is_clean_line(s: Seq<char>)
    ensures
        clean_line(normalized(s)),
{
    lemma_squeeze_single_spaced(s);
    lemma_trim_clean(squeeze_ws(s));
}

/// Normalizing text that is already one clean line leaves it unchanged; in
/// particular normalizing twice is normalizing once.
pub proof fn law_normalized_keeps_clean_line(t: Seq<char>)
    requires
        clean_line(t),
    ensures
        normalized(t) == t,
        normalized(normalized(t)) == normalized(t),
{
    lemma_squeeze_of_single_spaced(t);
    assert(trim_start(t) == t);
    if t.len() > 0 {
        assert(trim_end(t) == t);
    }
}


/// A text that neither starts nor ends with whitespace is its own trim.
pub proof fn lemma_trim_unchanged(t: Seq<char>)
    requires
        t.len() > 0,
        !is_white_space(t[0]),
        !is_white_space(t[t.len() - 1]),
    ensures
        trim(t) == t,
{
    assert(trim_start(t) == t);
    assert(trim_end(t) == t);
}

/// The four pairs of math delimiters: `\( \)`, `\[ \]`, `$$ $$` and `$ $`.
pub open spec fn delimiter_pair(open: Seq<char>, close: Seq<char>) -> bool {
    ||| open == seq!['\\', '('] && close == seq!['\\', ')']
    ||| open == seq!['\\', '['] && close == seq!['\\', ']']
    ||| open == seq!['$', '$'] && close == seq!['$', '$']
    ||| open == seq!['$'] && close == seq!['$']
}

/// Stripping a formula wrapped in a pair of math delimiters gives back what
/// they enclose, trimmed. Between single dollars, that must not itself start
/// and end with a dollar (`$$x$$` is a display formula) and must not be empty.
pub proof fn law_strip_delimiter_pair(open: Seq<char>, x: Seq<char>, close: Seq<char>)
    requires
        delimiter_pair(open, close),
        open == seq!['$'] ==> x.len() > 0 && !(x[0] == '$' && x[x.len() - 1] == '$'),
    ensures
        strip_defined(open + x + close),
        stripped(open + x + close) == trim(x),
{
    let t = open + x + close;
    let n = t.len();
    assert(t[0] == open[0]);
    assert(t[n - 1] == close[close.len() - 1]);
    lemma_trim_unchanged(t);
    if open.len() == 2 {
        assert(t[1] == open[1]);
        assert(t[n - 2] == close[0]);
        assert(t.subrange(2, n - 2) == x);
    } else {
        assert(t.subrange(1, n - 1) == x);
        if x.len() > 0 {
            assert(t[1] == x[0]);
            assert(t[n - 2] == x[x.len() - 1]);
        }
        assert(!display_wrapped(t));
        assert(inline_wrapped(t));
    }
}

/// The inline conversion of any formula is one clean line of text.
pub proof fn law_inline_conversion_is_clean_line(latex: Seq<char>)
    requires
        strip_defined(latex),
    ensures
        clean_line(inline_list(parse_formula(stripped(latex)))),
{
    law_normalized_is_clean_line(crate::layout::inline_concat(parse_formula(stripped(latex))));
}

/// Trimming is idempotent.
proof fn lemma_trim_trim(x: Seq<char>)
    ensures
        trim(trim(x)) == trim(x),
{
    lemma_trim_start(x);
    let u = trim_start(x);
    lemma_trim_end(u);
    let t = trim_end(u);
    if t.len() > 0 {
        assert(t[0] == u[0]);
        lemma_trim_unchanged(t);
    }
}

/// What `strip_delimiters` returns has no whitespace at either end.
pub proof fn law_stripped_is_trimmed(latex: Seq<char>)
    ensures
        trim(stripped(latex)) == stripped(latex),
{
    let t = trim(latex);
    lemma_trim_trim(latex);
    if display_wrapped(t) || inline_wrapped(t) {
        lemma_trim_trim(t.subrange(delimiter_widths(t).0, t.len() - delimiter_widths(t).1));
    }
}

/// Centering pads `s` with spaces to `width` columns, splitting the padding
/// with the smaller half on the left; text as wide as that is kept as it is.
pub proof fn law_centered(s: Seq<char>, width: int)
    ensures
        centered(s, width).len() == imax(s.len() as int, width),
        ({
            let left = if s.len() >= width {
                0
            } else {
                (width - s.len()) / 2
            };
            &&& centered(s, width).subrange(left, left + s.len()) == s
            &&& forall|i: int|
                0 <= i < centered(s, width).len() && !(left <= i < left + s.len())
                    ==> #[trigger] centered(s, width)[i] == ' '
        }),
{
    if s.len() < width {
        let pad = width - s.len();
        let left = pad / 2;
        let c = centered(s, width);
        assert(c == repeat_char(' ', left as nat) + s + repeat_char(' ', (pad - left) as nat));
        assert(c.subrange(left, left + s.len()) == s);
        assert forall|i: int| 0 <= i < c.len() && !(left <= i < left + s.len()) implies #[trigger] c[i]
            == ' ' by {
            if i < left {
                assert(c[i] == repeat_char(' ', left as nat)[i]);
            } else {
                assert(c[i] == repeat_char(' ', (pad - left) as nat)[i - left - s.len()]);
            }
        }
    } else {
        assert(centered(s, width).subrange(0, s.len() as int) == s);
    }
}

/// The body, brace and label lines of a lone 2D brace all have the same width.
pub proof fn law_brace_lines_equal_width(body: SpecNode, label: Option<Box<SpecNode>>, glyph: char)
    ensures
        ({
            let b = inline_of(body);
            let l = label_text(label);
            let w = brace_width(b, l);
            &&& w >= 1
            &&& centered(b, w).len() == w
            &&& centered(l, w).len() == w
            &&& brace_bar(glyph, w).len() == w
        }),
{
    let b = inline_of(body);
    let l = label_text(label);
    let w = brace_width(b, l);
    law_centered(b, w);
    law_centered(l, w);
    law_centered(seq![glyph], w);
}

/// The numerator, rule and denominator of a lone 2D fraction all have the
/// same width: that of the wider side, and at least one column.
pub proof fn law_fraction_lines_equal_width(num: SpecNode, den: SpecNode)
    ensures
        ({
            let a = inline_of(num);
            let c = inline_of(den);
            let w = imax(imax(a.len() as int, c.len() as int), 1);
            &&& frac_2d(num, den) == "  "@ + centered(a, w) + "\n  "@ + repeat_char('─', w as nat)
                + "\n  "@ + centered(c, w)
            &&& centered(a, w).len() == w
            &&& centered(c, w).len() == w
            &&& repeat_char('─', w as nat).len() == w
        }),
{
    let a = inline_of(num);
    let c = inline_of(den);
    let w = imax(imax(a.len() as int, c.len() as int), 1);
    law_centered(a, w);
    law_centered(c, w);
}

/// A script (`^`, `_`, or both) not attached to a base.
pub open spec fn detached_script(n: SpecNode) -> bool {
    ||| n matches SpecNode::Superscript { base: None, .. }
    ||| n matches SpecNode::Subscript { base: None, .. }
    ||| n matches SpecNode::SubSup { base: None, .. }
}

/// No node of `ns` is a combined sub- and superscript without a base.
pub open spec fn no_detached_pair(ns: Seq<SpecNode>) -> bool {
    forall|i: int| 0 <= i < ns.len() ==> !(#[trigger] ns[i] matches SpecNode::SubSup { base: None, .. })
}

/// Collapsing attaches every script to the node before it, joining a
/// subscript and a superscript of the same base: the result is no longer than
/// the input, and only its first node can be a script without a base.
pub proof fn law_scripts_attach_to_preceding_node(ns: Seq<SpecNode>)
    requires
        no_detached_pair(ns),
    ensures
        collapse(ns).len() <= ns.len(),
        forall|i: int| 0 < i < collapse(ns).len() ==> !detached_script(#[trigger] collapse(ns)[i]),
    decreases ns.len(),
{
    if ns.len() > 0 {
        let init = ns.drop_last();
        assert(no_detached_pair(init)) by {
            assert forall|i: int| 0 <= i < init.len() implies !(#[trigger] init[i] matches SpecNode::SubSup {
                base: None,
                ..
            }) by {
                assert(init[i] == ns[i]);
            }
        }
        law_scripts_attach_to_preceding_node(init);
        lemma_collapse_push(init, ns.last());
        assert(init.push(ns.last()) == ns);
        let acc = collapse(init);
        let r = collapse_step(acc, ns.last());
        assert(r == collapse(ns));
        assert(!(ns.last() matches SpecNode::SubSup { base: None, .. }));
        assert forall|i: int| 0 < i < r.len() implies !detached_script(#[trigger] r[i]) by {
            if i < acc.len() - 1 || (i == acc.len() - 1 && r.len() > acc.len()) {
                assert(r[i] == acc[i]);
            } else if i == acc.len() - 1 {
                assert(!detached_script(acc[i]));
            }
        }
    }
}

/// No step of parsing yields a combined sub- and superscript: those are made
/// only when scripts are collapsed.
pub open spec fn not_combined(n: Option<SpecNode>) -> bool {
    !(n matches Some(SpecNode::SubSup { .. }))
}

proof fn lemma_arg_not_combined(s: Seq<char>, p: int)
    ensures
        not_combined(parse_arg_at(s, p).0),
    decreases s.len() - p, 1int,
{
    if 0 <= p <= s.len() {
        lemma_ws_end(s, p);
        let q = ws_end(s, p);
        if q < s.len() && s[q] == '\\' {
            lemma_command_not_combined(s, q + 1);
        }
    }
}

proof fn lemma_command_not_combined(s: Seq<char>, p: int)
    ensures
        not_combined(parse_command_at(s, p).0),
    decreases s.len() - p, 0int,
{
    if 0 <= p < s.len() {
        lemma_name_end(s, p);
        lemma_arg_not_combined(s, name_end(s, p));
    }
}

proof fn lemma_node_not_combined(s: Seq<char>, p: int)
    ensures
        not_combined(parse_node_at(s, p).0),
{
    if 0 <= p < s.len() && s[p] == '\\' {
        lemma_command_not_combined(s, p + 1);
    }
}

proof fn lemma_top_loop_no_pair(s: Seq<char>, q: int, acc: Seq<SpecNode>)
    requires
        no_detached_pair(acc),
    ensures
        no_detached_pair(top_loop(s, q, acc).0),
    decreases s.len() - q,
{
    if 0 <= q < s.len() {
        let (n, r) = parse_node_at(s, q);
        lemma_node_not_combined(s, q);
        let acc2 = push_opt(acc, n);
        assert(no_detached_pair(acc2)) by {
            if let Some(x) = n {
                assert forall|i: int| 0 <= i < acc2.len() implies !(#[trigger] acc2[i] matches SpecNode::SubSup {
                    base: None,
                    ..
                }) by {
                    if i < acc.len() {
                        assert(acc2[i] == acc[i]);
                    }
                }
            }
        }
        if q < r <= s.len() {
            lemma_top_loop_no_pair(s, r, acc2);
        }
    }
}

/// In a parsed formula every script is attached to the node before it: only
/// the first node can be a superscript, subscript or combined script without
/// a base.
pub proof fn law_parsed_scripts_attached(s: Seq<char>)
    ensures
        forall|i: int|
            0 < i < parse_formula(s).len() ==> !detached_script(#[trigger] parse_formula(s)[i]),
{
    lemma_top_loop_no_pair(s, 0, Seq::empty());
    law_scripts_attach_to_preceding_node(top_loop(s, 0, Seq::empty()).0);
}

/// A base followed by a subscript and a superscript, in either order,
/// collapses to one combined script on that base.
pub proof fn law_script_order_irrelevant(b: SpecNode, sub: SpecNode, exp: SpecNode)
    requires
        !(b is Subscript),
        !(b is Superscript),
    ensures
        ({
            let sb = SpecNode::Subscript { base: None, sub: Box::new(sub) };
            let sp = SpecNode::Superscript { base: None, exp: Box::new(exp) };
            let both = seq![SpecNode::SubSup { base: Some(Box::new(b)), sub: Box::new(sub), exp: Box::new(exp) }];
            &&& collapse(seq![b, sb, sp]) == both
            &&& collapse(seq![b, sp, sb]) == both
        }),
{
    let sb = SpecNode::Subscript { base: None, sub: Box::new(sub) };
    let sp = SpecNode::Superscript { base: None, exp: Box::new(exp) };
    let e = Seq::<SpecNode>::empty();
    lemma_collapse_push(e, b);
    assert(e.push(b) == seq![b]);
    assert(collapse(e) == e);
    let c1 = collapse(seq![b]);
    assert(c1 == seq![b]) by {
        assert(e.push(b) == seq![b]);
    }
    lemma_collapse_push(seq![b], sb);
    assert(seq![b].push(sb) == seq![b, sb]);
    lemma_collapse_push(seq![b], sp);
    assert(seq![b].push(sp) == seq![b, sp]);
    lemma_collapse_push(seq![b, sb], sp);
    assert(seq![b, sb].push(sp) == seq![b, sb, sp]);
    lemma_collapse_push(seq![b, sp], sb);
    assert(seq![b, sp].push(sb) == seq![b, sp, sb]);
    assert(seq![b].drop_last() == e);
}

/// The number of line breaks in `s`.
pub open spec fn newline_count(s: Seq<char>) -> nat
    decreases s.len(),
{
    if s.len() == 0 {
        0
    } else {
        newline_count(s.drop_last()) + if s.last() == '\n' {
            1nat
        } else {
            0nat
        }
    }
}

/// No line break occurs in `s`.
pub open spec fn one_line(s: Seq<char>) -> bool {
    forall|i: int| 0 <= i < s.len() ==> #[trigger] s[i] != '\n'
}

proof fn lemma_newline_count_concat(a: Seq<char>, b: Seq<char>)
    ensures
        newline_count(a + b) == newline_count(a) + newline_count(b),
    decreases b.len(),
{
    if b.len() == 0 {
        assert(a + b == a);
    } else {
        lemma_newline_count_concat(a, b.drop_last());
        assert((a + b).drop_last() == a + b.drop_last());
        assert((a + b).last() == b.last());
    }
}

proof fn lemma_one_line_count(s: Seq<char>)
    requires
        one_line(s),
    ensures
        newline_count(s) == 0,
    decreases s.len(),
{
    if s.len() > 0 {
        assert(one_line(s.drop_last()));
        lemma_one_line_count(s.drop_last());
    }
}

proof fn lemma_one_line_concat(a: Seq<char>, b: Seq<char>)
    requires
        one_line(a),
        one_line(b),
    ensures
        one_line(a + b),
{
    assert forall|i: int| 0 <= i < (a + b).len() implies #[trigger] (a + b)[i] != '\n' by {
        if i >= a.len() {
            assert((a + b)[i] == b[i - a.len()]);
        }
    }
}

proof fn lemma_spaces_one_line(n: nat)
    ensures
        one_line(repeat_char(' ', n)),
{
    assert forall|i: int| 0 <= i < n implies #[trigger] repeat_char(' ', n)[i] != '\n' by {
        assert(repeat_char(' ', n)[i] == ' ');
    }
}

proof fn lemma_brackets_one_line(kind: MatrixKind, r: int, n: int)
    ensures
        one_line(row_brackets(kind, r, n).0),
        one_line(row_brackets(kind, r, n).1),
{
    reveal_strlit("(");
    reveal_strlit(")");
    reveal_strlit("[");
    reveal_strlit("]");
    reveal_strlit("{");
    reveal_strlit("}");
    reveal_strlit("|");
    reveal_strlit("‖");
    reveal_strlit("");
    reveal_strlit(" ");
    reveal_strlit("⎛");
    reveal_strlit("⎜");
    reveal_strlit("⎝");
    reveal_strlit("⎞");
    reveal_strlit("⎟");
    reveal_strlit("⎠");
    reveal_strlit("⎡");
    reveal_strlit("⎢");
    reveal_strlit("⎣");
    reveal_strlit("⎤");
    reveal_strlit("⎥");
    reveal_strlit("⎦");
    reveal_strlit("⎧");
    reveal_strlit("⎨");
    reveal_strlit("⎩");
    reveal_strlit("⎫");
    reveal_strlit("⎬");
    reveal_strlit("⎭");
    reveal_strlit("│");
    reveal_strlit("║");
}

/// The cells of a rendered matrix: each is one line.
pub open spec fn cells_one_line(g: Seq<Seq<Seq<char>>>) -> bool {
    forall|r: int, c: int| 0 <= r < g.len() && 0 <= c < g[r].len() ==> one_line(#[trigger] g[r][c])
}

proof fn lemma_row_content_one_line(g: Seq<Seq<Seq<char>>>, row: Seq<Seq<char>>, n: int)
    requires
        n <= row.len(),
        forall|c: int| 0 <= c < row.len() ==> one_line(#[trigger] row[c]),
    ensures
        one_line(row_content(g, row, n)),
    decreases n,
{
    if n >= 1 {
        let j = n - 1;
        assert(one_line(row[j]));
        lemma_spaces_one_line((crate::layout::col_width(g, j) - row[j].len()) as nat);
        lemma_one_line_concat(
            row[j],
            repeat_char(' ', (crate::layout::col_width(g, j) - row[j].len()) as nat),
        );
        if n > 1 {
            lemma_row_content_one_line(g, row, n - 1);
            reveal_strlit("   ");
            lemma_one_line_concat(row_content(g, row, n - 1), "   "@);
            lemma_one_line_concat(row_content(g, row, n - 1) + "   "@, padded_cell(g, row, j));
        }
    }
}

proof fn lemma_matrix_line_one_line(kind: MatrixKind, g: Seq<Seq<Seq<char>>>, r: int)
    requires
        0 <= r < g.len(),
        cells_one_line(g),
    ensures
        one_line(matrix_line(kind, g, r)),
{
    let (left, right) = row_brackets(kind, r, g.len() as int);
    lemma_brackets_one_line(kind, r, g.len() as int);
    assert forall|c: int| 0 <= c < g[r].len() implies one_line(#[trigger] g[r][c]) by {}
    lemma_row_content_one_line(g, g[r], g[r].len() as int);
    reveal_strlit("  ");
    reveal_strlit(" ");
    let body = row_content(g, g[r], g[r].len() as int);
    lemma_one_line_concat("  "@, left);
    lemma_one_line_concat("  "@ + left, " "@);
    lemma_one_line_concat("  "@ + left + " "@, body);
    lemma_one_line_concat("  "@ + left + " "@ + body, " "@);
    lemma_one_line_concat("  "@ + left + " "@ + body + " "@, right);
    let full = "  "@ + left + " "@ + body + " "@ + right;
    lemma_trim_end(full);
    assert(trim_end(full) == full.take(crate::text::end_non_ws(full) as int));
}

proof fn lemma_matrix_lines_count(kind: MatrixKind, g: Seq<Seq<Seq<char>>>, n: int)
    requires
        1 <= n <= g.len(),
        cells_one_line(g),
    ensures
        newline_count(matrix_lines(kind, g, n)) == n - 1,
    decreases n,
{
    lemma_matrix_line_one_line(kind, g, n - 1);
    lemma_one_line_count(matrix_line(kind, g, n - 1));
    if n > 1 {
        lemma_matrix_lines_count(kind, g, n - 1);
        reveal_strlit("\n");
        assert(newline_count("\n"@) == 1) by {
            assert("\n"@ == seq!['\n']);
            assert(seq!['\n'].drop_last() == Seq::<char>::empty());
            assert(newline_count(Seq::<char>::empty()) == 0);
        }
        lemma_newline_count_concat(matrix_lines(kind, g, n - 1), "\n"@);
        lemma_newline_count_concat(matrix_lines(kind, g, n - 1) + "\n"@, matrix_line(kind, g, n - 1));
    }
}

/// The cells of a rendered matrix are inline renderings, hence one line each.
proof fn lemma_grid_cells_one_line(rows: Seq<Seq<Seq<SpecNode>>>)
    ensures
        cells_one_line(grid(rows)),
{
    let g = grid(rows);
    assert forall|r: int, c: int| 0 <= r < g.len() && 0 <= c < g[r].len() implies one_line(
        #[trigger] g[r][c],
    ) by {
        assert(g[r] == cell_texts(rows[r]));
        law_normalized_is_clean_line(crate::layout::inline_concat(rows[r][c]));
        let t = g[r][c];
        assert(t == inline_list(rows[r][c]));
        assert forall|i: int| 0 <= i < t.len() implies #[trigger] t[i] != '\n' by {
            if t[i] == '\n' {
                assert(is_white_space(t[i]));
            }
        }
    }
}

/// A matrix in display mode takes exactly one line per row: its cells are
/// inline renderings, which never hold a line break.
pub proof fn law_matrix_block_one_line_per_row(kind: MatrixKind, rows: Seq<Seq<Seq<SpecNode>>>)
    requires
        rows.len() >= 1,
    ensures
        newline_count(matrix_2d(kind, rows)) == rows.len() - 1,
{
    lemma_grid_cells_one_line(rows);
    lemma_matrix_lines_count(kind, grid(rows), rows.len() as int);
}

/// Lines joined by line breaks.
pub open spec fn join_lines(ls: Seq<Seq<char>>) -> Seq<char>
    decreases ls.len(),
{
    if ls.len() == 0 {
        Seq::empty()
    } else if ls.len() == 1 {
        ls[0]
    } else {
        join_lines(ls.drop_last()) + seq!['\n'] + ls.last()
    }
}

/// The lines of a 2D matrix, one per row.
pub open spec fn matrix_rows(kind: MatrixKind, rows: Seq<Seq<Seq<SpecNode>>>) -> Seq<Seq<char>> {
    Seq::new(rows.len(), |r: int| matrix_line(kind, grid(rows), r))
}

proof fn lemma_matrix_lines_join(kind: MatrixKind, g: Seq<Seq<Seq<char>>>, n: int)
    requires
        0 <= n,
    ensures
        matrix_lines(kind, g, n) == join_lines(Seq::new(n as nat, |r: int| matrix_line(kind, g, r))),
    decreases n,
{
    let ls = Seq::new(n as nat, |r: int| matrix_line(kind, g, r));
    if n > 1 {
        lemma_matrix_lines_join(kind, g, n - 1);
        assert(ls.drop_last() == Seq::new((n - 1) as nat, |r: int| matrix_line(kind, g, r)));
        reveal_strlit("\n");
        assert("\n"@ == seq!['\n']);
    }
}

/// One character that is not whitespace.
pub open spec fn glyph(t: Seq<char>) -> bool {
    t.len() == 1 && !is_white_space(t[0])
}

/// Every bracket piece of a matrix of a bracketed kind (not `matrix`, not
/// `cases`) is one visible character.
pub proof fn lemma_bracket_glyphs(kind: MatrixKind, r: int, n: int)
    requires
        !(kind is Plain),
    ensures
        n >= 2 ==> glyph(row_brackets(kind, r, n).0),
        !(kind is Cases) ==> glyph(row_brackets(kind, r, n).0) && glyph(row_brackets(kind, r, n).1),
        n >= 2 ==> glyph(matrix_glyphs(kind).0) && glyph(matrix_glyphs(kind).1) && glyph(
            matrix_glyphs(kind).2,
        ),
{
    reveal_strlit("(");
    reveal_strlit(")");
    reveal_strlit("[");
    reveal_strlit("]");
    reveal_strlit("{");
    reveal_strlit("}");
    reveal_strlit("|");
    reveal_strlit("‖");
    reveal_strlit("⎛");
    reveal_strlit("⎜");
    reveal_strlit("⎝");
    reveal_strlit("⎞");
    reveal_strlit("⎟");
    reveal_strlit("⎠");
    reveal_strlit("⎡");
    reveal_strlit("⎢");
    reveal_strlit("⎣");
    reveal_strlit("⎤");
    reveal_strlit("⎥");
    reveal_strlit("⎦");
    reveal_strlit("⎧");
    reveal_strlit("⎨");
    reveal_strlit("⎩");
    reveal_strlit("⎫");
    reveal_strlit("⎬");
    reveal_strlit("⎭");
    reveal_strlit("│");
    reveal_strlit("║");
}

/// A visible character at position `k` survives trimming the end.
pub proof fn lemma_trim_end_keeps(x: Seq<char>, k: int)
    requires
        0 <= k < x.len(),
        !is_white_space(x[k]),
    ensures
        trim_end(x).len() > k,
        trim_end(x).take(k + 1) == x.take(k + 1),
    decreases x.len(),
{
    lemma_trim_end(x);
    if is_white_space(x.last()) {
        lemma_trim_end_keeps(x.drop_last(), k);
        assert(x.drop_last().take(k + 1) == x.take(k + 1));
    }
}

/// A display matrix is its rows' lines joined by line breaks (nothing for a
/// matrix without rows); no line holds a break; and in a bracketed matrix of
/// two rows or more each line starts, after two spaces, with the top piece
/// of the bracket on the first row, the bottom piece on the last and the
/// middle piece on the others.
pub proof fn law_matrix_block_lines(kind: MatrixKind, rows: Seq<Seq<Seq<SpecNode>>>)
    ensures
        matrix_2d(kind, rows) == join_lines(matrix_rows(kind, rows)),
        rows.len() == 0 ==> matrix_2d(kind, rows) == Seq::<char>::empty(),
        forall|r: int| 0 <= r < rows.len() ==> one_line(#[trigger] matrix_rows(kind, rows)[r]),
        rows.len() >= 2 && !(kind is Plain) ==> forall|r: int|
            0 <= r < rows.len() ==> (#[trigger] matrix_rows(kind, rows)[r]).take(3) == "  "@ + (
            if r == 0 {
                matrix_glyphs(kind).0
            } else if r == rows.len() - 1 {
                matrix_glyphs(kind).2
            } else {
                matrix_glyphs(kind).1
            }),
{
    let g = grid(rows);
    let n = rows.len() as int;
    lemma_matrix_lines_join(kind, g, n);
    lemma_grid_cells_one_line(rows);
    assert forall|r: int| 0 <= r < n implies one_line(#[trigger] matrix_rows(kind, rows)[r]) by {
        lemma_matrix_line_one_line(kind, g, r);
    }
    if n >= 2 && !(kind is Plain) {
        assert forall|r: int| 0 <= r < n implies (#[trigger] matrix_rows(kind, rows)[r]).take(3)
            == "  "@ + (if r == 0 {
            matrix_glyphs(kind).0
        } else if r == n - 1 {
            matrix_glyphs(kind).2
        } else {
            matrix_glyphs(kind).1
        }) by {
            lemma_bracket_glyphs(kind, r, n);
            let (left, right) = row_brackets(kind, r, n);
            let x = "  "@ + left + " "@ + row_content(g, g[r], g[r].len() as int) + " "@ + right;
            reveal_strlit("  ");
            assert(x[2] == left[0]);
            lemma_trim_end_keeps(x, 2);
            assert(x.take(3) == "  "@ + left);
        }
    }
}

/// The width of the first `n` padded cells of a row, with their separators.
pub open spec fn content_width(g: Seq<Seq<Seq<char>>>, n: int) -> int
    decreases n,
{
    if n <= 0 {
        0
    } else if n == 1 {
        col_width(g, 0)
    } else {
        content_width(g, n - 1) + 3 + col_width(g, n - 1)
    }
}

proof fn lemma_row_content_width(g: Seq<Seq<Seq<char>>>, r: int, n: int)
    requires
        0 <= r < g.len(),
        n <= g[r].len(),
    ensures
        row_content(g, g[r], n).len() == content_width(g, n),
    decreases n,
{
    if n >= 1 {
        lemma_col_width(g, n - 1);
        assert(padded_cell(g, g[r], n - 1).len() == col_width(g, n - 1));
        if n > 1 {
            lemma_row_content_width(g, r, n - 1);
            reveal_strlit("   ");
        }
    }
}

/// In a display matrix with brackets on both sides (`pmatrix`, `bmatrix`,
/// `Bmatrix`, `vmatrix`, `Vmatrix`) whose rows have the same number of cells,
/// every line has the same width: cells are padded to their column's width.
pub proof fn law_matrix_block_equal_widths(kind: MatrixKind, rows: Seq<Seq<Seq<SpecNode>>>)
    requires
        !(kind is Plain),
        !(kind is Cases),
        forall|r: int| 0 <= r < rows.len() ==> (#[trigger] rows[r]).len() == rows[0].len(),
    ensures
        forall|r: int|
            0 <= r < rows.len() ==> (#[trigger] matrix_rows(kind, rows)[r]).len() == 6
                + content_width(grid(rows), rows[0].len() as int),
{
    let g = grid(rows);
    let n = rows.len() as int;
    assert forall|r: int| 0 <= r < n implies (#[trigger] matrix_rows(kind, rows)[r]).len() == 6
        + content_width(g, rows[0].len() as int) by {
        lemma_bracket_glyphs(kind, r, n);
        let (left, right) = row_brackets(kind, r, n);
        assert(g[r] == cell_texts(rows[r]));
        assert(g[r].len() == rows[0].len());
        lemma_row_content_width(g, r, g[r].len() as int);
        let x = "  "@ + left + " "@ + row_content(g, g[r], g[r].len() as int) + " "@ + right;
        reveal_strlit("  ");
        reveal_strlit(" ");
        assert(x[x.len() - 1] == right[0]);
        assert(trim_end(x) == x);
    }
}


proof fn lemma_brace_bar_one_line(glyph: char, w: int)
    requires
        glyph != '\n',
    ensures
        one_line(brace_bar(glyph, w)),
{
    if w <= 3 {
        law_centered(seq![glyph], w);
        let c = centered(seq![glyph], w);
        let left = if 1 >= w {
            0
        } else {
            (w - 1) / 2
        };
        assert forall|i: int| 0 <= i < c.len() implies #[trigger] c[i] != '\n' by {
            if left <= i < left + 1 {
                assert(c.subrange(left, left + 1)[i - left] == seq![glyph][i - left]);
            }
        }
    } else {
        lemma_spaces_one_line(0);
        assert forall|i: int| 0 <= i < w implies #[trigger] repeat_char('─', w as nat)[i] != '\n' by {
            assert(repeat_char('─', w as nat)[i] == '─');
        }
    }
}

/// The three columns that one node contributes have the same width, and the
/// middle one (brace or blanks) is one line.
proof fn lemma_brace_piece(n: SpecNode)
    ensures
        brace_piece(n).0.len() == brace_piece(n).1.len(),
        brace_piece(n).2.len() == brace_piece(n).1.len(),
        one_line(brace_piece(n).1),
{
    match n {
        SpecNode::Underbrace { body, label } => {
            law_brace_lines_equal_width(*body, label, '⏟');
            let w = brace_width(inline_of(*body), label_text(label));
            lemma_brace_bar_one_line('⏟', w);
        },
        SpecNode::Overbrace { body, label } => {
            law_brace_lines_equal_width(*body, label, '⏞');
            let w = brace_width(inline_of(*body), label_text(label));
            lemma_brace_bar_one_line('⏞', w);
        },
        other => {
            lemma_spaces_one_line(inline_of(other).len());
        },
    }
}

proof fn lemma_brace_columns(ns: Seq<SpecNode>)
    ensures
        brace_columns(ns).0.len() == brace_columns(ns).1.len(),
        brace_columns(ns).2.len() == brace_columns(ns).1.len(),
        one_line(brace_columns(ns).1),
    decreases ns.len(),
{
    if ns.len() > 0 {
        lemma_brace_columns(ns.drop_last());
        lemma_brace_piece(ns.last());
        lemma_one_line_concat(brace_columns(ns.drop_last()).1, brace_piece(ns.last()).1);
    }
}

/// A display expression that mixes braces with other nodes is three lines,
/// each indented by two spaces and all of the same width: the bodies, the
/// braces (which never hold a line break), and the labels, with the labels on
/// top when some brace is an overbrace. When the rendered bodies and labels
/// hold no line break, the whole holds exactly two.
pub proof fn law_brace_block_three_lines(ns: Seq<SpecNode>)
    requires
        has_brace(ns),
    ensures
        ({
            let (b, r, l) = brace_columns(ns);
            let (top, bottom) = if has_overbrace(ns) {
                (l, b)
            } else {
                (b, l)
            };
            &&& with_braces(ns) == join_lines(seq!["  "@ + top, "  "@ + r, "  "@ + bottom])
            &&& top.len() == r.len() && bottom.len() == r.len()
            &&& one_line(r)
            &&& (one_line(b) && one_line(l)) ==> newline_count(with_braces(ns)) == 2
        }),
{
    let (b, r, l) = brace_columns(ns);
    let (top, bottom) = if has_overbrace(ns) {
        (l, b)
    } else {
        (b, l)
    };
    lemma_brace_columns(ns);
    reveal_strlit("  ");
    reveal_strlit("\n  ");
    let x = "  "@ + top;
    let y = "  "@ + r;
    let z = "  "@ + bottom;
    let ls = seq![x, y, z];
    assert(ls.drop_last() == seq![x, y]);
    assert(seq![x, y].drop_last() == seq![x]);
    assert(seq![x][0] == x);
    assert(join_lines(seq![x]) == x);
    assert(seq![x, y].last() == y);
    assert(join_lines(seq![x, y]) == x + seq!['\n'] + y);
    assert(ls.last() == z);
    assert(join_lines(ls) == x + seq!['\n'] + y + seq!['\n'] + z);
    assert("\n  "@ == seq!['\n'] + "  "@);
    assert(with_braces(ns) == join_lines(ls));
    if one_line(b) && one_line(l) {
        lemma_one_line_concat("  "@, top);
        lemma_one_line_concat("  "@, r);
        lemma_one_line_concat("  "@, bottom);
        lemma_one_line_count(x);
        lemma_one_line_count(y);
        lemma_one_line_count(z);
        assert(newline_count(seq!['\n']) == 1) by {
            assert(seq!['\n'].drop_last() == Seq::<char>::empty());
            assert(newline_count(Seq::<char>::empty()) == 0);
        }
        lemma_newline_count_concat(x, seq!['\n']);
        lemma_newline_count_concat(x + seq!['\n'], y);
        lemma_newline_count_concat(x + seq!['\n'] + y, seq!['\n']);
        lemma_newline_count_concat(x + seq!['\n'] + y + seq!['\n'], z);
    }
}


/// No text of the tree holds a line break: its texts, symbols and spaces,
/// its `\left`/`\right` delimiters and its accents.
pub open spec fn no_break_text(n: SpecNode) -> bool
    decreases n,
{
    match n {
        SpecNode::Text(t) => one_line(t),
        SpecNode::Symbol(t) => one_line(t),
        SpecNode::Space(t) => one_line(t),
        SpecNode::Group(_) => true,
        SpecNode::Matrix { .. } => true,
        SpecNode::Delimited { left, right, .. } => one_line(left) && one_line(right),
        SpecNode::Superscript { base, exp } => (match base {
            Some(x) => no_break_text(*x),
            None => true,
        }) && no_break_text(*exp),
        SpecNode::Subscript { base, sub } => (match base {
            Some(x) => no_break_text(*x),
            None => true,
        }) && no_break_text(*sub),
        SpecNode::SubSup { base, sub, exp } => (match base {
            Some(x) => no_break_text(*x),
            None => true,
        }) && no_break_text(*sub) && no_break_text(*exp),
        SpecNode::Frac { num, den } => no_break_text(*num) && no_break_text(*den),
        SpecNode::Sqrt { index, radicand } => (match index {
            Some(x) => no_break_text(*x),
            None => true,
        }) && no_break_text(*radicand),
        SpecNode::Binom { n, k } => no_break_text(*n) && no_break_text(*k),
        SpecNode::Accent { accent, base } => accent != '\n' && no_break_text(*base),
        SpecNode::Boxed(x) => no_break_text(*x),
        SpecNode::Overline(x) => no_break_text(*x),
        SpecNode::Underline(x) => no_break_text(*x),
        SpecNode::Underbrace { body, label } => no_break_text(*body) && (match label {
            Some(x) => no_break_text(*x),
            None => true,
        }),
        SpecNode::Overbrace { body, label } => no_break_text(*body) && (match label {
            Some(x) => no_break_text(*x),
            None => true,
        }),
    }
}

proof fn lemma_literals_one_line()
    ensures
        one_line("/"@) && one_line("("@) && one_line(")"@) && one_line("√"@) && one_line("C("@)
            && one_line(", "@) && one_line("| "@) && one_line(" |"@) && one_line("¯("@) && one_line(
            ")¯"@) && one_line("_("@) && one_line(")_"@) && one_line("⏟"@) && one_line("⏞"@)
            && one_line("^∞"@) && one_line("⁺^∞"@) && one_line("⁻^∞"@) && one_line("^("@)
            && one_line("_∞"@) && one_line("₊_∞"@) && one_line("₋_∞"@),
        forall|k: MatrixKind| one_line(#[trigger] inline_brackets(k).0) && one_line(inline_brackets(k).1),
{
    reveal_strlit("/");
    reveal_strlit("(");
    reveal_strlit(")");
    reveal_strlit("√");
    reveal_strlit("C(");
    reveal_strlit(", ");
    reveal_strlit("| ");
    reveal_strlit(" |");
    reveal_strlit("¯(");
    reveal_strlit(")¯");
    reveal_strlit("_(");
    reveal_strlit(")_");
    reveal_strlit("⏟");
    reveal_strlit("⏞");
    reveal_strlit("^∞");
    reveal_strlit("⁺^∞");
    reveal_strlit("⁻^∞");
    reveal_strlit("^(");
    reveal_strlit("_∞");
    reveal_strlit("₊_∞");
    reveal_strlit("₋_∞");
    reveal_strlit("[");
    reveal_strlit("]");
    reveal_strlit("{");
    reveal_strlit("}");
    reveal_strlit("|");
    reveal_strlit("‖");
    reveal_strlit("");
}

proof fn lemma_to_sup_one_line(x: Seq<char>)
    requires
        one_line(x),
    ensures
        one_line(to_sup(x)),
{
    lemma_literals_one_line();
    if all_sup(x) {
        let m = sup_map(x);
        assert forall|i: int| 0 <= i < m.len() implies #[trigger] m[i] != '\n' by {
            assert(sup_form(x[i]) is Some);
        }
    }
    lemma_one_line_concat("^("@, x);
    lemma_one_line_concat("^("@ + x, ")"@);
}

proof fn lemma_to_sub_one_line(x: Seq<char>)
    requires
        one_line(x),
    ensures
        one_line(to_sub(x)),
{
    lemma_literals_one_line();
    let m = sub_map(x);
    assert forall|i: int| 0 <= i < m.len() implies #[trigger] m[i] != '\n' by {
        assert(x[i] != '\n');
        if subscript_char(x[i]) is Some {
            assert(subscript_char(x[i])->0 != '\n');
        }
    }
    lemma_one_line_concat("_("@, x);
    lemma_one_line_concat("_("@ + x, ")"@);
}

proof fn lemma_inline_list_one_line(ns: Seq<SpecNode>)
    ensures
        one_line(inline_list(ns)),
{
    law_normalized_is_clean_line(inline_concat(ns));
    let t = inline_list(ns);
    assert forall|i: int| 0 <= i < t.len() implies #[trigger] t[i] != '\n' by {
        if t[i] == '\n' {
            assert(is_white_space(t[i]));
        }
    }
}

proof fn lemma_frac_side_one_line(x: Seq<char>)
    requires
        one_line(x),
    ensures
        one_line(frac_side(x)),
{
    lemma_literals_one_line();
    lemma_one_line_concat("("@, x);
    lemma_one_line_concat("("@ + x, ")"@);
}

proof fn lemma_opt_base_one_line(base: Option<Box<SpecNode>>)
    requires
        match base {
            Some(x) => no_break_text(*x),
            None => true,
        },
    ensures
        one_line(
            match base {
                Some(x) => inline_of(*x),
                None => Seq::empty(),
            },
        ),
    decreases base,
{
    if let Some(x) = base {
        lemma_inline_of_one_line(*x);
    }
}

/// The inline rendering of a node whose texts hold no line break holds none.
pub proof fn lemma_inline_of_one_line(n: SpecNode)
    requires
        no_break_text(n),
    ensures
        one_line(inline_of(n)),
    decreases n,
{
    lemma_literals_one_line();
    match n {
        SpecNode::Group(ch) => lemma_inline_list_one_line(ch),
        SpecNode::Superscript { base, exp } => {
            lemma_opt_base_one_line(base);
            lemma_inline_of_one_line(*exp);
            lemma_to_sup_one_line(inline_of(*exp));
            let b = match base {
                Some(x) => inline_of(*x),
                None => Seq::empty(),
            };
            lemma_one_line_concat(b, to_sup(inline_of(*exp)));
        },
        SpecNode::Subscript { base, sub } => {
            lemma_opt_base_one_line(base);
            lemma_inline_of_one_line(*sub);
            lemma_to_sub_one_line(inline_of(*sub));
            let b = match base {
                Some(x) => inline_of(*x),
                None => Seq::empty(),
            };
            lemma_one_line_concat(b, to_sub(inline_of(*sub)));
        },
        SpecNode::SubSup { base, sub, exp } => {
            lemma_opt_base_one_line(base);
            lemma_inline_of_one_line(*sub);
            lemma_inline_of_one_line(*exp);
            lemma_to_sub_one_line(inline_of(*sub));
            lemma_to_sup_one_line(inline_of(*exp));
            let b = match base {
                Some(x) => inline_of(*x),
                None => Seq::empty(),
            };
            lemma_one_line_concat(b, to_sub(inline_of(*sub)));
            lemma_one_line_concat(b + to_sub(inline_of(*sub)), to_sup(inline_of(*exp)));
        },
        SpecNode::Frac { num, den } => {
            lemma_inline_of_one_line(*num);
            lemma_inline_of_one_line(*den);
            lemma_frac_side_one_line(inline_of(*num));
            lemma_frac_side_one_line(inline_of(*den));
            lemma_one_line_concat(frac_side(inline_of(*num)), "/"@);
            lemma_one_line_concat(frac_side(inline_of(*num)) + "/"@, frac_side(inline_of(*den)));
        },
        SpecNode::Sqrt { index, radicand } => {
            let r = inline_of(*radicand);
            lemma_inline_of_one_line(*radicand);
            lemma_one_line_concat("("@, r);
            lemma_one_line_concat("("@ + r, ")"@);
            let rf = if compound(r, false) {
                "("@ + r + ")"@
            } else {
                r
            };
            lemma_one_line_concat("√"@, rf);
            if let Some(i) = index {
                lemma_inline_of_one_line(*i);
                lemma_to_sup_one_line(inline_of(*i));
                lemma_one_line_concat(to_sup(inline_of(*i)), "√"@);
                lemma_one_line_concat(to_sup(inline_of(*i)) + "√"@, rf);
            }
        },
        SpecNode::Binom { n: a, k } => {
            lemma_inline_of_one_line(*a);
            lemma_inline_of_one_line(*k);
            lemma_one_line_concat("C("@, inline_of(*a));
            lemma_one_line_concat("C("@ + inline_of(*a), ", "@);
            lemma_one_line_concat("C("@ + inline_of(*a) + ", "@, inline_of(*k));
            lemma_one_line_concat("C("@ + inline_of(*a) + ", "@ + inline_of(*k), ")"@);
        },
        SpecNode::Accent { accent, base } => {
            lemma_inline_of_one_line(*base);
            let b = inline_of(*base);
            if b.len() > 0 {
                assert(b.skip(1) == b.subrange(1, b.len() as int));
                assert(one_line(b.skip(1))) by {
                    assert forall|i: int| 0 <= i < b.skip(1).len() implies #[trigger] b.skip(1)[i]
                        != '\n' by {
                        assert(b.skip(1)[i] == b[i + 1]);
                    }
                }
                assert(one_line(seq![b[0], accent])) by {
                    assert(b[0] != '\n');
                }
                lemma_one_line_concat(seq![b[0], accent], b.skip(1));
            }
        },
        SpecNode::Delimited { left, body, right } => {
            lemma_inline_list_one_line(body);
            lemma_one_line_concat(left, inline_list(body));
            lemma_one_line_concat(left + inline_list(body), right);
        },
        SpecNode::Matrix { kind, rows } => {
            lemma_inline_rows_one_line(rows);
            lemma_one_line_concat(inline_brackets(kind).0, crate::layout::inline_rows(rows));
            lemma_one_line_concat(
                inline_brackets(kind).0 + crate::layout::inline_rows(rows),
                inline_brackets(kind).1,
            );
        },
        SpecNode::Boxed(i) => {
            lemma_inline_of_one_line(*i);
            lemma_one_line_concat("| "@, inline_of(*i));
            lemma_one_line_concat("| "@ + inline_of(*i), " |"@);
        },
        SpecNode::Overline(i) => {
            lemma_inline_of_one_line(*i);
            lemma_one_line_concat("¯("@, inline_of(*i));
            lemma_one_line_concat("¯("@ + inline_of(*i), ")¯"@);
        },
        SpecNode::Underline(i) => {
            lemma_inline_of_one_line(*i);
            lemma_one_line_concat("_("@, inline_of(*i));
            lemma_one_line_concat("_("@ + inline_of(*i), ")_"@);
        },
        SpecNode::Underbrace { body, label } => {
            lemma_inline_of_one_line(*body);
            lemma_one_line_concat(inline_of(*body), "⏟"@);
            if let Some(l) = label {
                lemma_inline_of_one_line(*l);
                lemma_to_sub_one_line(inline_of(*l));
                lemma_one_line_concat(inline_of(*body) + "⏟"@, to_sub(inline_of(*l)));
            }
        },
        SpecNode::Overbrace { body, label } => {
            lemma_inline_of_one_line(*body);
            lemma_one_line_concat(inline_of(*body), "⏞"@);
            lemma_one_line_concat("⏞"@, inline_of(*body));
            if let Some(l) = label {
                lemma_inline_of_one_line(*l);
                lemma_to_sup_one_line(inline_of(*l));
                lemma_one_line_concat(inline_of(*body) + "⏞"@, to_sup(inline_of(*l)));
            }
        },
        _ => {},
    }
}

proof fn lemma_inline_rows_one_line(rows: Seq<Seq<Seq<SpecNode>>>)
    ensures
        one_line(crate::layout::inline_rows(rows)),
    decreases rows.len(),
{
    reveal_strlit("; ");
    reveal_strlit(", ");
    if rows.len() == 1 {
        lemma_inline_cells_one_line(rows[0]);
    } else if rows.len() > 1 {
        lemma_inline_rows_one_line(rows.drop_last());
        lemma_inline_cells_one_line(rows.last());
        lemma_one_line_concat(crate::layout::inline_rows(rows.drop_last()), "; "@);
        lemma_one_line_concat(
            crate::layout::inline_rows(rows.drop_last()) + "; "@,
            crate::layout::inline_cells(rows.last()),
        );
    }
}

proof fn lemma_inline_cells_one_line(cells: Seq<Seq<SpecNode>>)
    ensures
        one_line(crate::layout::inline_cells(cells)),
    decreases cells.len(),
{
    reveal_strlit(", ");
    if cells.len() == 1 {
        lemma_inline_list_one_line(cells[0]);
    } else if cells.len() > 1 {
        lemma_inline_cells_one_line(cells.drop_last());
        lemma_inline_list_one_line(cells.last());
        lemma_one_line_concat(crate::layout::inline_cells(cells.drop_last()), ", "@);
        lemma_one_line_concat(
            crate::layout::inline_cells(cells.drop_last()) + ", "@,
            inline_list(cells.last()),
        );
    }
}


proof fn lemma_centered_one_line(x: Seq<char>, w: int)
    requires
        one_line(x),
    ensures
        one_line(centered(x, w)),
{
    law_centered(x, w);
    let c = centered(x, w);
    let left = if x.len() >= w {
        0
    } else {
        (w - x.len()) / 2
    };
    assert forall|i: int| 0 <= i < c.len() implies #[trigger] c[i] != '\n' by {
        if left <= i < left + x.len() {
            assert(c.subrange(left, left + x.len())[i - left] == x[i - left]);
        }
    }
}

/// The body and label columns a node contributes hold no line break when its
/// texts hold none.
proof fn lemma_brace_piece_text(n: SpecNode)
    requires
        no_break_text(n),
    ensures
        one_line(brace_piece(n).0),
        one_line(brace_piece(n).2),
{
    match n {
        SpecNode::Underbrace { body, label } | SpecNode::Overbrace { body, label } => {
            lemma_inline_of_one_line(*body);
            if let Some(l) = label {
                lemma_inline_of_one_line(*l);
            }
            let w = brace_width(inline_of(*body), label_text(label));
            lemma_centered_one_line(inline_of(*body), w);
            lemma_centered_one_line(label_text(label), w);
        },
        other => {
            lemma_inline_of_one_line(other);
            lemma_spaces_one_line(inline_of(other).len());
        },
    }
}

proof fn lemma_brace_columns_text(ns: Seq<SpecNode>)
    requires
        forall|i: int| 0 <= i < ns.len() ==> no_break_text(#[trigger] ns[i]),
    ensures
        one_line(brace_columns(ns).0),
        one_line(brace_columns(ns).2),
    decreases ns.len(),
{
    if ns.len() > 0 {
        assert forall|i: int| 0 <= i < ns.drop_last().len() implies no_break_text(
            #[trigger] ns.drop_last()[i],
        ) by {
            assert(ns.drop_last()[i] == ns[i]);
        }
        lemma_brace_columns_text(ns.drop_last());
        assert(no_break_text(ns[ns.len() - 1]));
        lemma_brace_piece_text(ns.last());
        lemma_one_line_concat(brace_columns(ns.drop_last()).0, brace_piece(ns.last()).0);
        lemma_one_line_concat(brace_columns(ns.drop_last()).2, brace_piece(ns.last()).2);
    }
}

/// A display expression that mixes braces with other nodes, none of whose
/// texts holds a line break, is exactly three lines.
pub proof fn law_brace_block_newlines(ns: Seq<SpecNode>)
    requires
        has_brace(ns),
        forall|i: int| 0 <= i < ns.len() ==> no_break_text(#[trigger] ns[i]),
    ensures
        newline_count(with_braces(ns)) == 2,
{
    lemma_brace_columns_text(ns);
    law_brace_block_three_lines(ns);
}


/// Superscript text: every character in its superscript form where each has
/// one, else the whole text as `^(…)`; infinity, alone or signed, keeps a
/// readable form instead.
pub proof fn law_superscript_text(s: Seq<char>)
    requires
        s != "∞"@,
        s != "+∞"@,
        s != "-∞"@,
    ensures
        to_sup(s) == if forall|i: int| 0 <= i < s.len() ==> (#[trigger] sup_form(s[i])) is Some {
            Seq::new(s.len(), |i: int| sup_form(s[i])->0)
        } else {
            "^("@ + s + ")"@
        },
{
}

} // verus!
