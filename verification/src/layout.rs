//! The meaning of rendering: spec functions that say which Unicode text each
//! tree renders to, inline (one line) and as a display block (2D, several lines).

use vstd::prelude::*;
use crate::ast::{MatrixKind, SpecNode};
use crate::symbols::{subscript_char, superscript_char};
use crate::text::{is_white_space, repeat_char, trim, trim_end};

verus! {

// ---------------------------------------------------------------------------
// Text helpers
// ---------------------------------------------------------------------------

/// Runs of whitespace become one space, left to right.
pub open spec fn squeeze_ws(s: Seq<char>) -> Seq<char>
    decreases s.len(),
{
    if s.len() == 0 {
        Seq::empty()
    } else {
        let r = squeeze_ws(s.drop_last());
        if is_white_space(s.last()) {
            if r.len() > 0 && r.last() == ' ' {
                r
            } else {
                r.push(' ')
            }
        } else {
            r.push(s.last())
        }
    }
}

/// Whitespace runs squeezed to one space, and no space at either end.
pub open spec fn normalized(s: Seq<char>) -> Seq<char> {
    trim(squeeze_ws(s))
}

/// The characters that make an expression compound (it needs parentheses
/// as a fraction side or under a root): a space or an operator, and, where
/// `root_sign` holds (for fraction sides), the root sign too.
pub open spec fn compound_char(c: char, root_sign: bool) -> bool {
    c == ' ' || c == '+' || c == '-' || c == '=' || c == '/' || c == '·' || c == '×' || (root_sign
        && c == '√')
}

/// Whether `s` is a compound expression: once trimmed, it is not empty and holds
/// a compound character (see `compound_char`).
pub open spec fn compound(s: Seq<char>, root_sign: bool) -> bool {
    let t = trim(s);
    t.len() > 0 && exists|i: int| 0 <= i < t.len() && #[trigger] compound_char(t[i], root_sign)
}

/// The superscript form of `c`: its Unicode superscript, or `c` itself when it
/// is a superscript digit or sign already.
pub open spec fn sup_form(c: char) -> Option<char> {
    match superscript_char(c) {
        Some(x) => Some(x),
        None => if c == '²' || c == '³' || c == '¹' || c == '⁰' || c == '⁴' || c == '⁵' || c
            == '⁶' || c == '⁷' || c == '⁸' || c == '⁹' || c == '⁻' || c == '⁺' {
            Some(c)
        } else {
            None
        },
    }
}

/// Whether every character of `s` has a superscript form.
pub open spec fn all_sup(s: Seq<char>) -> bool {
    forall|i: int| 0 <= i < s.len() ==> (#[trigger] sup_form(s[i])) is Some
}

/// The superscript forms of the characters of `s`.
pub open spec fn sup_map(s: Seq<char>) -> Seq<char> {
    Seq::new(s.len(), |i: int| sup_form(s[i])->0)
}

/// `s` as a superscript: Unicode superscripts where every character has one,
/// `^(s)` otherwise; infinity stays readable as `^∞`.
pub open spec fn to_sup(s: Seq<char>) -> Seq<char> {
    if s == "∞"@ {
        "^∞"@
    } else if s == "+∞"@ {
        "⁺^∞"@
    } else if s == "-∞"@ {
        "⁻^∞"@
    } else if all_sup(s) {
        sup_map(s)
    } else {
        "^("@ + s + ")"@
    }
}

/// Whether every character of `s` has a subscript form.
pub open spec fn all_sub(s: Seq<char>) -> bool {
    forall|i: int| 0 <= i < s.len() ==> (#[trigger] subscript_char(s[i])) is Some
}

/// Whether some character of `s` has a subscript form.
pub open spec fn any_sub(s: Seq<char>) -> bool {
    exists|i: int| 0 <= i < s.len() && (#[trigger] subscript_char(s[i])) is Some
}

/// Subscripts may be partial unless `s` is a phrase (spaces or arrows).
pub open spec fn partial_sub_ok(s: Seq<char>) -> bool {
    !(s.contains(' ') || s.contains('→') || s.contains('←') || s.contains('⟶'))
}

/// Each character of `s` in subscript form where it has one, as it is otherwise.
pub open spec fn sub_map(s: Seq<char>) -> Seq<char> {
    Seq::new(
        s.len(),
        |i: int|
            match subscript_char(s[i]) {
                Some(x) => x,
                None => s[i],
            },
    )
}

/// `s` as a subscript: Unicode subscripts where every character has one, or
/// where some do and `s` is no phrase (the others stay as they are); `_(s)`
/// otherwise; infinity stays readable as `_∞`.
pub open spec fn to_sub(s: Seq<char>) -> Seq<char> {
    if s == "∞"@ {
        "_∞"@
    } else if s == "+∞"@ {
        "₊_∞"@
    } else if s == "-∞"@ {
        "₋_∞"@
    } else if all_sub(s) || (partial_sub_ok(s) && any_sub(s)) {
        sub_map(s)
    } else {
        "_("@ + s + ")"@
    }
}

/// A fraction side, in parentheses when it is compound and does not start with one.
pub open spec fn frac_side(x: Seq<char>) -> Seq<char> {
    if compound(x, true) && !(x.len() > 0 && x[0] == '(') {
        "("@ + x + ")"@
    } else {
        x
    }
}

/// The opening and closing brackets of an inline matrix.
pub open spec fn inline_brackets(kind: MatrixKind) -> (Seq<char>, Seq<char>) {
    match kind {
        MatrixKind::Plain => (""@, ""@),
        MatrixKind::Paren => ("("@, ")"@),
        MatrixKind::Bracket => ("["@, "]"@),
        MatrixKind::Brace => ("{"@, "}"@),
        MatrixKind::Vbar => ("|"@, "|"@),
        MatrixKind::VVbar => ("‖"@, "‖"@),
        MatrixKind::Cases => ("{"@, ""@),
    }
}

// ---------------------------------------------------------------------------
// Inline rendering
// ---------------------------------------------------------------------------

/// The one-line rendering of a node (spaces not yet normalized).
pub open spec fn inline_of(n: SpecNode) -> Seq<char>
    decreases n, 0int,
{
    match n {
        SpecNode::Text(s) => s,
        SpecNode::Symbol(s) => s,
        SpecNode::Space(s) => s,
        SpecNode::Group(ch) => inline_list(ch),
        SpecNode::Superscript { base, exp } => {
            let b = match base {
                Some(x) => inline_of(*x),
                None => Seq::empty(),
            };
            b + to_sup(inline_of(*exp))
        },
        SpecNode::Subscript { base, sub } => {
            let b = match base {
                Some(x) => inline_of(*x),
                None => Seq::empty(),
            };
            b + to_sub(inline_of(*sub))
        },
        SpecNode::SubSup { base, sub, exp } => {
            let b = match base {
                Some(x) => inline_of(*x),
                None => Seq::empty(),
            };
            b + to_sub(inline_of(*sub)) + to_sup(inline_of(*exp))
        },
        SpecNode::Frac { num, den } => frac_side(inline_of(*num)) + "/"@ + frac_side(inline_of(*den)),
        SpecNode::Sqrt { index, radicand } => {
            let r = inline_of(*radicand);
            let rf = if compound(r, false) {
                "("@ + r + ")"@
            } else {
                r
            };
            match index {
                Some(i) => to_sup(inline_of(*i)) + "√"@ + rf,
                None => "√"@ + rf,
            }
        },
        SpecNode::Binom { n, k } => "C("@ + inline_of(*n) + ", "@ + inline_of(*k) + ")"@,
        SpecNode::Accent { accent, base } => {
            let b = inline_of(*base);
            if b.len() > 0 {
                seq![b[0], accent] + b.skip(1)
            } else {
                seq![accent]
            }
        },
        SpecNode::Delimited { left, body, right } => left + inline_list(body) + right,
        SpecNode::Matrix { kind, rows } => inline_brackets(kind).0 + inline_rows(rows)
            + inline_brackets(kind).1,
        SpecNode::Boxed(i) => "| "@ + inline_of(*i) + " |"@,
        SpecNode::Overline(i) => "¯("@ + inline_of(*i) + ")¯"@,
        SpecNode::Underline(i) => "_("@ + inline_of(*i) + ")_"@,
        SpecNode::Underbrace { body, label } => match label {
            Some(l) => inline_of(*body) + "⏟"@ + to_sub(inline_of(*l)),
            None => inline_of(*body) + "⏟"@,
        },
        SpecNode::Overbrace { body, label } => match label {
            Some(l) => inline_of(*body) + "⏞"@ + to_sup(inline_of(*l)),
            None => "⏞"@ + inline_of(*body),
        },
    }
}

/// The renderings of the nodes, one after the other.
pub open spec fn inline_concat(ns: Seq<SpecNode>) -> Seq<char>
    decreases ns, 0int,
{
    if ns.len() == 0 {
        Seq::empty()
    } else {
        inline_concat(ns.drop_last()) + inline_of(ns.last())
    }
}

/// The one-line rendering of a node list, spaces normalized.
pub open spec fn inline_list(ns: Seq<SpecNode>) -> Seq<char>
    decreases ns, 1int,
{
    normalized(inline_concat(ns))
}

/// The rows of an inline matrix, separated by `; `.
pub open spec fn inline_rows(rows: Seq<Seq<Seq<SpecNode>>>) -> Seq<char>
    decreases rows, 0int,
{
    if rows.len() == 0 {
        Seq::empty()
    } else if rows.len() == 1 {
        inline_cells(rows[0])
    } else {
        inline_rows(rows.drop_last()) + "; "@ + inline_cells(rows.last())
    }
}

/// The cells of an inline matrix row, separated by `, `.
pub open spec fn inline_cells(cells: Seq<Seq<SpecNode>>) -> Seq<char>
    decreases cells, 0int,
{
    if cells.len() == 0 {
        Seq::empty()
    } else if cells.len() == 1 {
        inline_list(cells[0])
    } else {
        inline_cells(cells.drop_last()) + ", "@ + inline_list(cells.last())
    }
}


// ---------------------------------------------------------------------------
// Block (2D) rendering
// ---------------------------------------------------------------------------

/// The larger of two integers.
pub open spec fn imax(a: int, b: int) -> int {
    if a >= b {
        a
    } else {
        b
    }
}

/// `s` centered in `width` columns (left padding rounded down); unchanged
/// when it is already as wide.
pub open spec fn centered(s: Seq<char>, width: int) -> Seq<char> {
    if s.len() >= width {
        s
    } else {
        let pad = width - s.len();
        let left = pad / 2;
        repeat_char(' ', left as nat) + s + repeat_char(' ', (pad - left) as nat)
    }
}

/// The rendering of an optional brace label (empty when there is none).
pub open spec fn label_text(label: Option<Box<SpecNode>>) -> Seq<char> {
    match label {
        Some(l) => inline_of(*l),
        None => Seq::empty(),
    }
}

/// The line of a 2D brace `w` columns wide: the brace glyph centered when it is
/// narrow, a rule otherwise.
pub open spec fn brace_bar(glyph: char, w: int) -> Seq<char> {
    if w <= 3 {
        centered(seq![glyph], w)
    } else {
        repeat_char('─', w as nat)
    }
}

/// The width of a 2D brace over `b` labelled `l`.
pub open spec fn brace_width(b: Seq<char>, l: Seq<char>) -> int {
    imax(imax(b.len() as int, l.len() as int), 1)
}

/// A lone underbrace (`under`) or overbrace as lines: body, brace and label,
/// centered on each other; the label line is left out when there is no label.
pub open spec fn brace_2d(body: SpecNode, label: Option<Box<SpecNode>>, under: bool) -> Seq<char> {
    let b = inline_of(body);
    let l = label_text(label);
    let w = brace_width(b, l);
    let glyph = if under {
        '⏟'
    } else {
        '⏞'
    };
    let body_line = "  "@ + centered(b, w);
    let bar_line = "  "@ + brace_bar(glyph, w);
    let label_line = "  "@ + centered(l, w);
    let label_part = if l.len() > 0 {
        "\n"@ + label_line
    } else {
        Seq::empty()
    };
    let label_top = if l.len() > 0 {
        label_line + "\n"@
    } else {
        Seq::empty()
    };
    if under {
        body_line + "\n"@ + bar_line + label_part
    } else {
        label_top + bar_line + "\n"@ + body_line
    }
}

/// A lone binomial coefficient as two lines in tall parentheses.
pub open spec fn binom_2d(n: SpecNode, k: SpecNode) -> Seq<char> {
    let a = inline_of(n);
    let c = inline_of(k);
    let w = imax(a.len() as int, c.len() as int);
    "  ⎛ "@ + centered(a, w) + " ⎞\n  ⎝ "@ + centered(c, w) + " ⎠"@
}

/// A lone fraction as three lines: numerator, rule, denominator.
pub open spec fn frac_2d(num: SpecNode, den: SpecNode) -> Seq<char> {
    let a = inline_of(num);
    let c = inline_of(den);
    let w = imax(imax(a.len() as int, c.len() as int), 1);
    "  "@ + centered(a, w) + "\n  "@ + repeat_char('─', w as nat) + "\n  "@ + centered(c, w)
}

/// The body, brace and label columns that one node contributes to a line of
/// braces: a brace is centered over its width; other nodes are rendered inline
/// on the body line, with blanks below.
pub open spec fn brace_piece(n: SpecNode) -> (Seq<char>, Seq<char>, Seq<char>) {
    match n {
        SpecNode::Underbrace { body, label } => {
            let b = inline_of(*body);
            let l = label_text(label);
            let w = brace_width(b, l);
            (centered(b, w), brace_bar('⏟', w), centered(l, w))
        },
        SpecNode::Overbrace { body, label } => {
            let b = inline_of(*body);
            let l = label_text(label);
            let w = brace_width(b, l);
            (centered(b, w), brace_bar('⏞', w), centered(l, w))
        },
        other => {
            let t = inline_of(other);
            (t, repeat_char(' ', t.len()), repeat_char(' ', t.len()))
        },
    }
}

/// The three lines of a brace expression, column by column.
pub open spec fn brace_columns(ns: Seq<SpecNode>) -> (Seq<char>, Seq<char>, Seq<char>)
    decreases ns.len(),
{
    if ns.len() == 0 {
        (Seq::empty(), Seq::empty(), Seq::empty())
    } else {
        let (b, r, l) = brace_columns(ns.drop_last());
        let (pb, pr, pl) = brace_piece(ns.last());
        (b + pb, r + pr, l + pl)
    }
}

/// Whether some node is an underbrace or an overbrace.
pub open spec fn has_brace(ns: Seq<SpecNode>) -> bool {
    exists|i: int|
        0 <= i < ns.len() && ((#[trigger] ns[i]) is Underbrace || ns[i] is Overbrace)
}

/// Whether some node is an overbrace.
pub open spec fn has_overbrace(ns: Seq<SpecNode>) -> bool {
    exists|i: int| 0 <= i < ns.len() && (#[trigger] ns[i]) is Overbrace
}

/// An expression that mixes braces with other nodes, as three lines: labels go
/// below when every brace is an underbrace, above otherwise.
pub open spec fn with_braces(ns: Seq<SpecNode>) -> Seq<char> {
    if !has_brace(ns) {
        "  "@ + inline_list(ns)
    } else {
        let (b, r, l) = brace_columns(ns);
        if !has_overbrace(ns) {
            "  "@ + b + "\n  "@ + r + "\n  "@ + l
        } else {
            "  "@ + l + "\n  "@ + r + "\n  "@ + b
        }
    }
}

/// The first matrix among the nodes.
pub open spec fn first_matrix(ns: Seq<SpecNode>) -> Option<(MatrixKind, Seq<Seq<Seq<SpecNode>>>)>
    decreases ns.len(),
{
    if ns.len() == 0 {
        None
    } else {
        match ns[0] {
            SpecNode::Matrix { kind, rows } => Some((kind, rows)),
            _ => first_matrix(ns.drop_first()),
        }
    }
}

/// The rendered cells of a matrix row.
pub open spec fn cell_texts(row: Seq<Seq<SpecNode>>) -> Seq<Seq<char>> {
    Seq::new(row.len(), |j: int| inline_list(row[j]))
}

/// The rendered cells of a matrix.
pub open spec fn grid(rows: Seq<Seq<Seq<SpecNode>>>) -> Seq<Seq<Seq<char>>> {
    Seq::new(rows.len(), |i: int| cell_texts(rows[i]))
}

/// The width of column `c`: its widest cell.
pub open spec fn col_width(g: Seq<Seq<Seq<char>>>, c: int) -> int
    decreases g.len(),
{
    if g.len() == 0 {
        0
    } else {
        imax(
            col_width(g.drop_last(), c),
            if 0 <= c < g.last().len() {
                g.last()[c].len() as int
            } else {
                0
            },
        )
    }
}

/// Cell `j` of `row`, padded on the right to the width of its column.
pub open spec fn padded_cell(g: Seq<Seq<Seq<char>>>, row: Seq<Seq<char>>, j: int) -> Seq<char> {
    row[j] + repeat_char(' ', (col_width(g, j) - row[j].len()) as nat)
}

/// The first `n` padded cells of `row`, separated by three spaces.
pub open spec fn row_content(g: Seq<Seq<Seq<char>>>, row: Seq<Seq<char>>, n: int) -> Seq<char>
    decreases n,
{
    if n <= 0 {
        Seq::empty()
    } else if n == 1 {
        padded_cell(g, row, 0)
    } else {
        row_content(g, row, n - 1) + "   "@ + padded_cell(g, row, n - 1)
    }
}

/// The six bracket pieces of a tall matrix: top, middle and bottom on the
/// left, then on the right.
pub open spec fn matrix_glyphs(kind: MatrixKind) -> (
    Seq<char>,
    Seq<char>,
    Seq<char>,
    Seq<char>,
    Seq<char>,
    Seq<char>,
) {
    match kind {
        MatrixKind::Plain => (" "@, " "@, " "@, " "@, " "@, " "@),
        MatrixKind::Paren => ("⎛"@, "⎜"@, "⎝"@, "⎞"@, "⎟"@, "⎠"@),
        MatrixKind::Bracket => ("⎡"@, "⎢"@, "⎣"@, "⎤"@, "⎥"@, "⎦"@),
        MatrixKind::Brace => ("⎧"@, "⎨"@, "⎩"@, "⎫"@, "⎬"@, "⎭"@),
        MatrixKind::Vbar => ("│"@, "│"@, "│"@, "│"@, "│"@, "│"@),
        MatrixKind::VVbar => ("║"@, "║"@, "║"@, "║"@, "║"@, "║"@),
        MatrixKind::Cases => ("⎧"@, "⎨"@, "⎩"@, ""@, ""@, ""@),
    }
}

/// The left and right brackets of row `r` of a matrix of `n` rows: plain
/// brackets for a single row, tall pieces otherwise.
pub open spec fn row_brackets(kind: MatrixKind, r: int, n: int) -> (Seq<char>, Seq<char>) {
    if n == 1 {
        match kind {
            MatrixKind::Paren => ("("@, ")"@),
            MatrixKind::Bracket => ("["@, "]"@),
            MatrixKind::Brace => ("{"@, "}"@),
            MatrixKind::Vbar => ("|"@, "|"@),
            MatrixKind::VVbar => ("‖"@, "‖"@),
            _ => (""@, ""@),
        }
    } else {
        let (tl, ml, bl, tr, mr, br) = matrix_glyphs(kind);
        if r == 0 {
            (tl, tr)
        } else if r == n - 1 {
            (bl, br)
        } else {
            (ml, mr)
        }
    }
}

/// Line `r` of a 2D matrix, without trailing whitespace.
pub open spec fn matrix_line(kind: MatrixKind, g: Seq<Seq<Seq<char>>>, r: int) -> Seq<char> {
    let (left, right) = row_brackets(kind, r, g.len() as int);
    trim_end(
        "  "@ + left + " "@ + row_content(g, g[r], g[r].len() as int) + " "@ + right,
    )
}

/// The first `n` lines of a 2D matrix, joined by newlines.
pub open spec fn matrix_lines(kind: MatrixKind, g: Seq<Seq<Seq<char>>>, n: int) -> Seq<char>
    decreases n,
{
    if n <= 0 {
        Seq::empty()
    } else if n == 1 {
        matrix_line(kind, g, 0)
    } else {
        matrix_lines(kind, g, n - 1) + "\n"@ + matrix_line(kind, g, n - 1)
    }
}

/// A matrix as aligned lines: cells padded to their column's width, tall
/// brackets by kind; nothing for a matrix without rows.
pub open spec fn matrix_2d(kind: MatrixKind, rows: Seq<Seq<Seq<SpecNode>>>) -> Seq<char> {
    matrix_lines(kind, grid(rows), rows.len() as int)
}

/// The 2D rendering of a lone brace, binomial or fraction.
pub open spec fn single_2d(n: SpecNode) -> Option<Seq<char>> {
    match n {
        SpecNode::Underbrace { body, label } => Some(brace_2d(*body, label, true)),
        SpecNode::Overbrace { body, label } => Some(brace_2d(*body, label, false)),
        SpecNode::Binom { n, k } => Some(binom_2d(*n, *k)),
        SpecNode::Frac { num, den } => Some(frac_2d(*num, *den)),
        _ => None,
    }
}

/// The display-block rendering of a node list: the first matrix, if any, in
/// 2D; else a lone brace, binomial or fraction in 2D; else an expression with
/// braces on three lines; else the inline rendering, indented.
pub open spec fn block(ns: Seq<SpecNode>) -> Seq<char> {
    match first_matrix(ns) {
        Some((kind, rows)) => matrix_2d(kind, rows),
        None => {
            if ns.len() == 1 && single_2d(ns[0]) is Some {
                single_2d(ns[0])->0
            } else if has_brace(ns) {
                with_braces(ns)
            } else {
                "  "@ + inline_list(ns)
            }
        },
    }
}


// ---------------------------------------------------------------------------
// Lemmas used by the renderer
// ---------------------------------------------------------------------------

pub proof fn lemma_has_brace_step(m: Seq<SpecNode>, i: int)
    requires
        0 <= i < m.len(),
    ensures
        has_brace(m.take(i + 1)) == (has_brace(m.take(i)) || m[i] is Underbrace
            || m[i] is Overbrace),
        has_overbrace(m.take(i + 1)) == (has_overbrace(m.take(i)) || m[i] is Overbrace),
{
    let a = m.take(i);
    let b = m.take(i + 1);
    assert(b[i] == m[i]);
    if has_brace(a) {
        let k = choose|k: int| 0 <= k < a.len() && ((#[trigger] a[k]) is Underbrace || a[k] is Overbrace);
        assert(b[k] == a[k]);
    }
    if has_brace(b) {
        let k = choose|k: int| 0 <= k < b.len() && ((#[trigger] b[k]) is Underbrace || b[k] is Overbrace);
        if k < i {
            assert(a[k] == b[k]);
        }
    }
    if has_overbrace(a) {
        let k = choose|k: int| 0 <= k < a.len() && (#[trigger] a[k]) is Overbrace;
        assert(b[k] == a[k]);
    }
    if has_overbrace(b) {
        let k = choose|k: int| 0 <= k < b.len() && (#[trigger] b[k]) is Overbrace;
        if k < i {
            assert(a[k] == b[k]);
        }
    }
}

pub proof fn lemma_has_brace_prefix(m: Seq<SpecNode>, n: int)
    requires
        0 <= n <= m.len(),
        has_brace(m.take(n)),
    ensures
        has_brace(m),
{
    let a = m.take(n);
    let k = choose|k: int| 0 <= k < a.len() && ((#[trigger] a[k]) is Underbrace || a[k] is Overbrace);
    assert(m[k] == a[k]);
}

/// Adding row `r` to the first `r` rows widens column `c` to that row's cell.
pub proof fn lemma_col_width_step(g: Seq<Seq<Seq<char>>>, r: int, c: int)
    requires
        0 <= r < g.len(),
    ensures
        col_width(g.take(r + 1), c) == imax(
            col_width(g.take(r), c),
            if 0 <= c < g[r].len() {
                g[r][c].len() as int
            } else {
                0
            },
        ),
{
    assert(g.take(r + 1).drop_last() == g.take(r));
    assert(g.take(r + 1).last() == g[r]);
}

pub proof fn lemma_col_width(g: Seq<Seq<Seq<char>>>, c: int)
    ensures
        col_width(g, c) >= 0,
        forall|r: int|
            0 <= r < g.len() && 0 <= c < g[r].len() ==> col_width(g, c) >= (#[trigger] g[r])[c].len(),
    decreases g.len(),
{
    if g.len() > 0 {
        lemma_col_width(g.drop_last(), c);
        assert forall|r: int| 0 <= r < g.len() && 0 <= c < g[r].len() implies col_width(g, c)
            >= (#[trigger] g[r])[c].len() by {
            if r < g.len() - 1 {
                assert(g.drop_last()[r] == g[r]);
            }
        }
    }
}

} // verus!
