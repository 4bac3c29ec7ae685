//! Converts LaTeX math into Unicode text: inline formulas become one line of
//! Unicode, display formulas may be laid out over several lines, and Markdown
//! documents have their math spans converted in place.

pub mod ast;
pub mod text;
pub mod symbols;
pub mod grammar;
pub mod layout;
pub mod parser;
pub mod renderer;
pub mod document;
pub mod laws;
pub mod markdown_laws;
pub mod notation_laws;

use vstd::prelude::*;
use crate::document::{
    close_dollar, close_pair, delimiter_widths, display_formula, display_wrapped, inline_formula,
    inline_wrapped, lemma_close_dollar, lemma_close_pair, lemma_prepend_prepend, markdown,
    markdown_from, prepend, strip_defined, stripped,
};
use crate::grammar::parse_formula;
use crate::layout::{block, inline_list};
use crate::parser::Parser;
use crate::renderer::{RenderMode, Renderer};
use crate::text::{chars_to_string, copy_range, push_all, str_chars, trim, trim_range};

verus! {

/// The widths of the opening and closing math delimiters of `t`, and whether
/// it is wrapped in math delimiters at all.
fn delimiter_widths_of(t: &Vec<char>) -> (r: (usize, usize, bool))
    ensures
        (r.0 as int, r.1 as int) == delimiter_widths(t@),
        r.2 == (display_wrapped(t@) || inline_wrapped(t@)),
        r.0 <= 2,
        r.1 <= 2,
{
    let n = t.len();
    let display = n >= 2 && ((t[0] == '$' && t[1] == '$' && t[n - 2] == '$' && t[n - 1] == '$')
        || (t[0] == '\\' && t[1] == '[' && t[n - 2] == '\\' && t[n - 1] == ']'));
    let inline = (n >= 1 && t[0] == '$' && t[n - 1] == '$') || (n >= 2 && t[0] == '\\' && t[1]
        == '(' && t[n - 2] == '\\' && t[n - 1] == ')');
    if display {
        (2, 2, true)
    } else if inline {
        let lo: usize = if t[0] == '$' {
            1
        } else {
            2
        };
        let hi: usize = if t[n - 1] == '$' {
            1
        } else {
            2
        };
        (lo, hi, true)
    } else {
        (0, 0, false)
    }
}

/// Whether the math delimiters of the trimmed `v` can be stripped.
fn strip_chars_defined(v: &Vec<char>) -> (r: bool)
    ensures
        r == strip_defined(v@),
{
    let (a, b) = trim_range(v);
    let t = copy_range(v, a, b);
    let (lo, hi, _) = delimiter_widths_of(&t);
    lo + hi <= t.len()
}

/// The bounds of `v[from..to]` without leading and trailing whitespace.
fn trim_range_in(v: &Vec<char>, from: usize, to: usize) -> (r: (usize, usize))
    requires
        from <= to <= v.len(),
    ensures
        from <= r.0 <= r.1 <= to,
        v@.subrange(r.0 as int, r.1 as int) == trim(v@.subrange(from as int, to as int)),
{
    let inner = copy_range(v, from, to);
    let (c, d) = trim_range(&inner);
    assert(v@.subrange(from + c, from + d) == inner@.subrange(c as int, d as int));
    (from + c, from + d)
}

/// The bounds, in `v`, of `v` trimmed and without its math delimiters.
fn strip_range(v: &Vec<char>) -> (r: (usize, usize))
    requires
        strip_defined(v@),
    ensures
        r.0 <= r.1 <= v.len(),
        v@.subrange(r.0 as int, r.1 as int) == stripped(v@),
{
    let (a, b) = trim_range(v);
    let t = copy_range(v, a, b);
    let (lo, hi, wrapped) = delimiter_widths_of(&t);
    if wrapped {
        assert(v@.subrange(a + lo, b - hi) == t@.subrange(lo as int, t.len() - hi));
        trim_range_in(v, a + lo, b - hi)
    } else {
        (a, b)
    }
}

/// Whether `strip_delimiters` accepts `latex`: it refuses a formula that
/// trims to `$`, `$$` or `$$$`, whose delimiters overlap.
pub fn strip_delimiters_defined(latex: &str) -> (r: bool)
    ensures
        r == strip_defined(latex@),
{
    strip_chars_defined(&str_chars(latex))
}

/// Strip standard LaTeX delimiters: `$ ... $`, `$$ ... $$`, `\[ ... \]`,
/// `\( ... \)`; the input and what lies between the delimiters are trimmed.
pub fn strip_delimiters(latex: &str) -> (r: &str)
    requires
        strip_defined(latex@),
    ensures
        r@ == stripped(latex@),
{
    let (a, b) = strip_range(&str_chars(latex));
    latex.substring_char(a, b)
}

/// Convert a single inline LaTeX math formula into clean Unicode text.
pub fn latex_to_unicode(latex: &str) -> (r: String)
    requires
        strip_defined(latex@),
    ensures
        r@ == inline_list(parse_formula(stripped(latex@))),
{
    let raw = strip_delimiters(latex);
    let mut parser = Parser::new(raw);
    let nodes = parser.parse();
    let renderer = Renderer::new(RenderMode::Inline);
    renderer.render(nodes.as_slice())
}

/// Convert a display block LaTeX formula into 2D / multi-line formatted
/// Unicode text.
pub fn latex_to_unicode_block(latex: &str) -> (r: String)
    requires
        strip_defined(latex@),
    ensures
        r@ == block(parse_formula(stripped(latex@))),
{
    let raw = strip_delimiters(latex);
    let mut parser = Parser::new(raw);
    let nodes = parser.parse();
    let renderer = Renderer::new(RenderMode::Block);
    renderer.render(nodes.as_slice())
}

/// The characters of an optional vector.
pub open spec fn opt_chars(o: Option<Vec<char>>) -> Option<Seq<char>> {
    match o {
        Some(v) => Some(v@),
        None => None,
    }
}

/// The characters of an optional string.
pub open spec fn opt_string(o: Option<String>) -> Option<Seq<char>> {
    match o {
        Some(v) => Some(v@),
        None => None,
    }
}

/// The rendering of the formula `f` (display or inline); nothing when its
/// delimiters cannot be stripped.
fn convert_formula(f: &Vec<char>, display: bool) -> (r: Option<Vec<char>>)
    ensures
        opt_chars(r) == if display {
            display_formula(f@)
        } else {
            inline_formula(f@)
        },
{
    if !strip_chars_defined(f) {
        return None;
    }
    let (a, b) = strip_range(f);
    let raw = chars_to_string(&copy_range(f, a, b));
    let mut parser = Parser::new(raw.as_str());
    let nodes = parser.parse();
    let mode = if display {
        RenderMode::Block
    } else {
        RenderMode::Inline
    };
    let out = Renderer::new(mode).render(nodes.as_slice());
    Some(str_chars(out.as_str()))
}

/// The position where the pair `a`, `b` closes a span opened before `j`
/// (see `close_pair`).
fn find_close_pair(v: &Vec<char>, j: usize, a: char, b: char, unescaped: bool, one_line: bool) -> (r:
    Option<usize>)
    requires
        j <= v.len(),
    ensures
        match r {
            Some(k) => close_pair(v@, j as int, a, b, unescaped, one_line) == Some(k as int),
            None => close_pair(v@, j as int, a, b, unescaped, one_line) is None,
        },
{
    let mut k = j;
    while k < v.len() && k + 1 < v.len()
        invariant
            j <= k <= v.len(),
            close_pair(v@, j as int, a, b, unescaped, one_line) == close_pair(
                v@,
                k as int,
                a,
                b,
                unescaped,
                one_line,
            ),
        decreases v.len() - k,
    {
        if v[k] == a && v[k + 1] == b && (!unescaped || k == 0 || v[k - 1] != '\\') {
            return Some(k);
        }
        if one_line && v[k] == '\n' {
            return None;
        }
        k += 1;
    }
    None
}

/// The position of the `$` that closes an inline span opened before `j`
/// (see `close_dollar`).
fn find_close_dollar(v: &Vec<char>, j: usize) -> (r: Option<usize>)
    requires
        1 <= j <= v.len(),
    ensures
        match r {
            Some(k) => close_dollar(v@, j as int) == Some(k as int),
            None => close_dollar(v@, j as int) is None,
        },
{
    let mut k = j;
    while k < v.len()
        invariant
            1 <= j <= k <= v.len(),
            close_dollar(v@, j as int) == close_dollar(v@, k as int),
        decreases v.len() - k,
    {
        if v[k] == '$' && v[k - 1] != '\\' {
            return Some(k);
        }
        if v[k] == '\n' {
            return None;
        }
        k += 1;
    }
    None
}

/// One step of the document scan at position `i`: the text it emits and the
/// position after it, such that the transformed rest of the document from `i`
/// is that text followed by the transformed rest from the new position;
/// `None` where a formula's delimiters cannot be stripped.
#[verifier::rlimit(40)]
#[verifier::spinoff_prover]
fn markdown_step(chars: &Vec<char>, i: usize) -> (r: Option<(Vec<char>, usize)>)
    requires
        i < chars.len(),
    ensures
        match r {
            Some((piece, next)) => i < next <= chars.len() && markdown_from(chars@, i as int)
                == prepend(piece@, markdown_from(chars@, next as int)),
            None => markdown_from(chars@, i as int) is None,
        },
{
    let ghost s = chars@;
    let ghost i0 = i as int;
    let n = chars.len();
    let mut piece: Vec<char> = Vec::new();
    if chars[i] == '\\' && i + 1 < n && chars[i + 1] == '[' {
        match find_close_pair(chars, i + 2, '\\', ']', false, false) {
            Some(k) => {
                proof {
                    lemma_close_pair(s, i0 + 2, '\\', ']', false, false);
                }
                let f = copy_range(chars, i + 2, k);
                match convert_formula(&f, true) {
                    Some(c) => {
                        piece.push('\n');
                        push_all(&mut piece, &c);
                        piece.push('\n');
                        proof {
                            lemma_prepend_prepend(seq!['\n'] + c@, seq!['\n'], markdown_from(s, k + 2));
                            assert(piece@ == (seq!['\n'] + c@) + seq!['\n']);
                        }
                        Some((piece, k + 2))
                    },
                    None => None,
                }
            },
            None => {
                let rest = copy_range(chars, i, n);
                proof {
                    assert(rest@ + Seq::<char>::empty() == rest@);
                }
                Some((rest, n))
            },
        }
    } else if chars[i] == '\\' && i + 1 < n && chars[i + 1] == '(' {
        match find_close_pair(chars, i + 2, '\\', ')', false, true) {
            Some(k) => {
                proof {
                    lemma_close_pair(s, i0 + 2, '\\', ')', false, true);
                }
                let f = copy_range(chars, i + 2, k);
                match convert_formula(&f, false) {
                    Some(c) => Some((c, k + 2)),
                    None => None,
                }
            },
            None => {
                piece.push(chars[i]);
                Some((piece, i + 1))
            },
        }
    } else if chars[i] == '$' && i + 1 < n && chars[i + 1] == '$' {
        match find_close_pair(chars, i + 2, '$', '$', true, false) {
            Some(k) => {
                proof {
                    lemma_close_pair(s, i0 + 2, '$', '$', true, false);
                }
                let f = copy_range(chars, i + 2, k);
                match convert_formula(&f, true) {
                    Some(c) => {
                        piece.push('\n');
                        push_all(&mut piece, &c);
                        piece.push('\n');
                        proof {
                            lemma_prepend_prepend(seq!['\n'] + c@, seq!['\n'], markdown_from(s, k + 2));
                            assert(piece@ == (seq!['\n'] + c@) + seq!['\n']);
                        }
                        Some((piece, k + 2))
                    },
                    None => None,
                }
            },
            None => {
                let rest = copy_range(chars, i, n);
                proof {
                    assert(rest@ + Seq::<char>::empty() == rest@);
                }
                Some((rest, n))
            },
        }
    } else if chars[i] == '$' && (i == 0 || chars[i - 1] != '\\') {
        match find_close_dollar(chars, i + 1) {
            Some(k) => {
                proof {
                    lemma_close_dollar(s, i0 + 1);
                }
                let f = copy_range(chars, i + 1, k);
                match convert_formula(&f, false) {
                    Some(c) => Some((c, k + 1)),
                    None => None,
                }
            },
            None => {
                piece.push(chars[i]);
                Some((piece, i + 1))
            },
        }
    } else {
        piece.push(chars[i]);
        Some((piece, i + 1))
    }
}

/// Transform a Markdown document as `transform_markdown` does; `None` when
/// one of its formulas trims to `$`, `$$` or `$$$`, on which the conversion
/// fails.
pub fn try_transform_markdown(markdown_text: &str) -> (r: Option<String>)
    ensures
        opt_string(r) == markdown(markdown_text@),
{
    let chars = str_chars(markdown_text);
    let ghost s = chars@;
    let n = chars.len();
    let mut result: Vec<char> = Vec::new();
    let mut i: usize = 0;
    proof {
        lemma_prepend_prepend(Seq::empty(), Seq::empty(), markdown_from(s, 0));
        assert(Seq::<char>::empty() + Seq::<char>::empty() == Seq::<char>::empty());
        assert(prepend(Seq::empty(), markdown_from(s, 0)) == markdown_from(s, 0)) by {
            if let Some(x) = markdown_from(s, 0) {
                assert(Seq::<char>::empty() + x == x);
            }
        }
    }
    while i < n
        invariant
            s == chars@,
            s == markdown_text@,
            n == chars.len(),
            i <= n,
            markdown_from(s, 0) == prepend(result@, markdown_from(s, i as int)),
        decreases n - i,
    {
        match markdown_step(&chars, i) {
            Some((piece, next)) => {
                proof {
                    lemma_prepend_prepend(result@, piece@, markdown_from(s, next as int));
                }
                push_all(&mut result, &piece);
                i = next;
            },
            None => {
                return None;
            },
        }
    }
    proof {
        assert(result@ + Seq::<char>::empty() == result@);
    }
    Some(chars_to_string(&result))
}

/// Transform entire markdown documents by finding and converting math blocks
/// (`$$`, `$`, `\[`, `\(`) into Unicode.
pub fn transform_markdown(markdown_text: &str) -> (r: String)
    requires
        markdown(markdown_text@) is Some,
    ensures
        markdown(markdown_text@) == Some(r@),
{
    match try_transform_markdown(markdown_text) {
        Some(out) => out,
        None => {
            proof {
                assert(false);
            }
            String::new()
        },
    }
}

} // verus!
