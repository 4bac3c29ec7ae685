use latex_to_unicode::ast::MathNode;
use latex_to_unicode::parser::Parser;
use latex_to_unicode::renderer::{RenderMode, Renderer};
use latex_to_unicode::{
    latex_to_unicode, latex_to_unicode_block, strip_delimiters, strip_delimiters_defined,
    transform_markdown, try_transform_markdown,
};

fn is_clean_line(s: &str) -> bool {
    !s.contains('\n')
        && !s.contains("  ")
        && s.trim() == s
        && s.chars().all(|c| !c.is_whitespace() || c == ' ')
}

#[test]
fn inline_output_is_one_clean_line() {
    let inputs = [
        r"a \quad b",
        "x  +\n y",
        r"\begin{pmatrix} 1 & 2 \\ 3 & 4 \end{pmatrix}",
        r"\text{  spaced   words  }",
        "   ",
        r"\frac{a}{b} \, \; c",
    ];
    for input in inputs {
        let out = latex_to_unicode(input);
        assert!(is_clean_line(&out), "{input:?} gave {out:?}");
    }
}

#[test]
fn strip_each_delimiter_pair() {
    assert_eq!(strip_delimiters("  $$ x + y $$ "), "x + y");
    assert_eq!(strip_delimiters(r"\( a \)"), "a");
    assert_eq!(strip_delimiters(r"\[b\]"), "b");
    assert_eq!(strip_delimiters("$ c $"), "c");
    assert_eq!(strip_delimiters("  d  "), "d");
    assert_eq!(strip_delimiters("$$$$"), "");
    assert_eq!(strip_delimiters("$x"), "$x");
}

#[test]
fn strip_refuses_overlapping_dollars() {
    assert!(!strip_delimiters_defined("$"));
    assert!(!strip_delimiters_defined(" $$ "));
    assert!(!strip_delimiters_defined("$$$"));
    assert!(strip_delimiters_defined("$$$$"));
    assert!(strip_delimiters_defined("x"));
    assert!(strip_delimiters_defined(""));
}

#[test]
fn delimited_and_bare_formulas_convert_alike() {
    let bare = latex_to_unicode(r"\alpha^2");
    assert_eq!(bare, "α²");
    assert_eq!(latex_to_unicode(r"$\alpha^2$"), bare);
    assert_eq!(latex_to_unicode(r"$$\alpha^2$$"), bare);
    assert_eq!(latex_to_unicode(r"\(\alpha^2\)"), bare);
    assert_eq!(latex_to_unicode(r"\[\alpha^2\]"), bare);
}

#[test]
fn markdown_copies_plain_text() {
    let doc = "# Title\n\nJust words, (parens) and [brackets].\n";
    assert_eq!(transform_markdown(doc), doc);
    assert_eq!(transform_markdown(""), "");
}

#[test]
fn markdown_inline_span_in_place() {
    assert_eq!(transform_markdown("a $x^2$ b"), "a x² b");
    assert_eq!(transform_markdown(r"a \(x^2\) b"), "a x² b");
}

#[test]
fn markdown_display_span_on_own_lines() {
    assert_eq!(transform_markdown("a $$x^2$$ b"), "a \n  x²\n b");
    assert_eq!(transform_markdown(r"a \[x^2\] b"), "a \n  x²\n b");
}

#[test]
fn markdown_unclosed_spans_are_copied() {
    assert_eq!(transform_markdown("cost $5"), "cost $5");
    assert_eq!(transform_markdown("a $$ b"), "a $$ b");
    assert_eq!(transform_markdown(r"a \[ b"), r"a \[ b");
    assert_eq!(transform_markdown(r"a \( b"), r"a \( b");
    assert_eq!(transform_markdown("a $x\ny$ b"), "a $x\ny$ b");
}

#[test]
fn markdown_escaped_dollar_is_text() {
    assert_eq!(transform_markdown(r"\$x$"), r"\$x$");
}

#[test]
fn markdown_refuses_overlapping_dollars() {
    assert_eq!(try_transform_markdown("$$ $ $$"), None);
    assert_eq!(try_transform_markdown("a $x$").as_deref(), Some("a x"));
}

#[test]
fn fraction_block_lines_share_width() {
    assert_eq!(latex_to_unicode_block(r"\frac{a}{bcd}"), "   a \n  ───\n  bcd");
}

#[test]
fn underbrace_block_lines_share_width() {
    assert_eq!(latex_to_unicode_block(r"\underbrace{abc}_{x}"), "  abc\n   ⏟ \n   x ");
}

#[test]
fn overbrace_block_puts_label_on_top() {
    assert_eq!(latex_to_unicode_block(r"\overbrace{a}^{b}"), "  b\n  ⏞\n  a");
}

#[test]
fn binomial_block_two_lines() {
    assert_eq!(latex_to_unicode_block(r"\binom{n}{k}"), "  ⎛ n ⎞\n  ⎝ k ⎠");
}

#[test]
fn matrix_block_rows_aligned() {
    let out = latex_to_unicode_block(r"\begin{bmatrix} 1 & 22 \\ 333 & 4 \end{bmatrix}");
    assert_eq!(out, "  ⎡ 1     22 ⎤\n  ⎣ 333   4  ⎦");
}

#[test]
fn inline_matrix_rows_separated() {
    let out = latex_to_unicode(r"\begin{pmatrix} a & b \\ c & d \end{pmatrix}");
    assert_eq!(out, "(a, b; c, d)");
}

#[test]
fn plain_block_is_indented_inline() {
    assert_eq!(latex_to_unicode_block("x + y"), "  x + y");
}

#[test]
fn styled_letters_and_digits() {
    assert_eq!(latex_to_unicode(r"\mathbb{x}"), "𝕩");
    assert_eq!(latex_to_unicode(r"\mathbb{N}"), "ℕ");
    assert_eq!(latex_to_unicode(r"\mathfrak{A}"), "𝔄");
}

#[test]
fn superscript_falls_back_to_caret() {
    assert_eq!(latex_to_unicode(r"x^{Q}"), "x^(Q)");
    assert_eq!(latex_to_unicode(r"e^{\infty}"), "e^∞");
}

#[test]
fn parser_and_renderer_directly() {
    let mut parser = Parser::new(r"\beta_1");
    let nodes = parser.parse();
    let inline = Renderer::new(RenderMode::Inline).render(&nodes);
    assert_eq!(inline, "β₁");
    let block = Renderer::new(RenderMode::Block).render(&nodes);
    assert_eq!(block, "  β₁");
}

#[test]
fn unknown_command_kept_readable() {
    let out = latex_to_unicode(r"\foo x");
    assert!(out.contains("foo"), "{out}");
}


#[test]
fn matrix_block_has_one_line_per_row() {
    let out = latex_to_unicode_block(r"\begin{matrix} a \\ b \\ c \end{matrix}");
    assert_eq!(out.matches('\n').count(), 2, "{out:?}");
    let mut code = String::from("\\begin{vmatrix}");
    for i in 0..40 {
        if i > 0 {
            code.push_str(" \\\\ ");
        }
        code.push_str(&format!("x_{{{}}} & \\text{{a  b}}", i));
    }
    code.push_str("\\end{vmatrix}");
    let out = latex_to_unicode_block(&code);
    assert_eq!(out.matches('\n').count(), 39);
}

#[test]
fn scripts_attach_to_the_node_before() {
    let nodes = Parser::new("x^2_1").parse();
    assert_eq!(nodes.len(), 1);
    assert!(matches!(nodes[0], MathNode::SubSup { base: Some(_), .. }), "{nodes:?}");
    let nodes = Parser::new("^2 y").parse();
    assert!(matches!(nodes[0], MathNode::Superscript { base: None, .. }), "{nodes:?}");
    for node in &nodes[1..] {
        let detached = matches!(node, MathNode::Superscript { base: None, .. })
            || matches!(node, MathNode::Subscript { base: None, .. });
        assert!(!detached, "{nodes:?}");
    }
    assert_eq!(latex_to_unicode("x_1^2"), "x₁²");
}

#[test]
fn stripped_formula_has_no_outer_whitespace() {
    for input in ["  $ a + b $  ", "\t\\[\n x \n\\]\n", " plain ", "$$  $$"] {
        let out = strip_delimiters(input);
        assert_eq!(out, out.trim(), "{input:?}");
    }
}

#[test]
fn nested_roots_need_no_parentheses() {
    assert_eq!(latex_to_unicode(r"\sqrt{\sqrt{x}}"), "√√x");
    assert_eq!(latex_to_unicode(r"\sqrt{a + b}"), "√(a + b)");
    assert_eq!(latex_to_unicode(r"\frac{\sqrt{2}}{2}"), "(√2)/2");
}

#[test]
fn markdown_spans_beside_backslash_text() {
    assert_eq!(transform_markdown(r"see \alpha and $x^2$ end"), r"see \alpha and x² end");
    assert_eq!(transform_markdown(r"see \alpha $$x^2$$ end"), "see \\alpha \n  x²\n end");
    assert_eq!(transform_markdown(r"\b \(x^2\) \c"), r"\b x² \c");
    assert_eq!(transform_markdown(r"\b \[x^2\] \c"), "\\b \n  x²\n \\c");
}

#[test]
fn markdown_unclosed_display_copies_rest() {
    let doc = r"intro \x $$ then $a$ and more";
    assert_eq!(transform_markdown(doc), doc);
}

#[test]
fn script_order_gives_same_tree() {
    let a = Parser::new("x_1^2").parse();
    let b = Parser::new("x^2_1").parse();
    assert_eq!(a, b);
    assert!(matches!(a[0], MathNode::SubSup { base: Some(_), .. }), "{a:?}");
    let c = Parser::new("_1^2 y").parse();
    assert!(matches!(c[0], MathNode::SubSup { base: None, .. }), "{c:?}");
}

#[test]
fn matrix_lines_start_with_bracket_pieces_and_share_width() {
    let out = latex_to_unicode_block(r"\begin{bmatrix} 1 & 22 \\ 333 & 4 \\ 5 & 6 \end{bmatrix}");
    let lines: Vec<&str> = out.split('\n').collect();
    assert_eq!(lines.len(), 3);
    assert!(lines[0].starts_with("  ⎡"), "{out}");
    assert!(lines[1].starts_with("  ⎢"), "{out}");
    assert!(lines[2].starts_with("  ⎣"), "{out}");
    let w = lines[0].chars().count();
    assert!(lines.iter().all(|l| l.chars().count() == w), "{out}");
}

#[test]
fn brace_block_is_three_equal_lines() {
    let out = latex_to_unicode_block(r"a + \underbrace{b + c}_{n} + d");
    let lines: Vec<&str> = out.split('\n').collect();
    assert_eq!(lines.len(), 3, "{out:?}");
    let w = lines[0].chars().count();
    assert!(lines.iter().all(|l| l.starts_with("  ") && l.chars().count() == w), "{out:?}");
    let over = latex_to_unicode_block(r"\overbrace{x}^{top} = y");
    assert!(over.split('\n').next().unwrap().contains("top"), "{over:?}");
}
