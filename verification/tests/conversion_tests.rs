use latex_to_unicode::{latex_to_unicode, latex_to_unicode_block, transform_markdown};

#[test]
fn test_basic_symbols() {
    assert_eq!(latex_to_unicode(r"E = mc^2"), "E = mc²");
    assert_eq!(latex_to_unicode(r"\alpha + \beta = \gamma"), "α + β = γ");
}

#[test]
fn test_integral_and_fractions() {
    let input = r"\int_0^\infty e^{-x^2} dx = \frac{\sqrt{\pi}}{2}";
    let res = latex_to_unicode(input);
    assert_eq!(res, "∫₀^∞ e⁻ˣ² dx = (√π)/2");
}

#[test]
fn test_sub_sup() {
    let input = r"\sum_{i=0}^{n} x_i \cdot \vec{v} \approx \alpha \pm \beta";
    let res = latex_to_unicode(input);
    assert_eq!(res, "∑ᵢ₌₀ⁿ xᵢ · v⃗ ≈ α ± β");
}

#[test]
fn test_alphabets() {
    assert_eq!(
        latex_to_unicode(r"\forall x \in \mathbb{R}, \exists y \in \mathbb{C}"),
        "∀ x ∈ ℝ, ∃ y ∈ ℂ"
    );
    assert_eq!(
        latex_to_unicode(r"\mathcal{H} \otimes \mathcal{F}"),
        "ℋ ⊗ ℱ"
    );
    assert_eq!(
        latex_to_unicode(r"\mathfrak{g} \oplus \mathfrak{h}"),
        "𝔤 ⊕ 𝔥"
    );
}

#[test]
fn test_nested_fractions() {
    let input = r"\frac{a + \frac{1}{b}}{c + d}";
    let res = latex_to_unicode(input);
    assert_eq!(res, "(a + 1/b)/(c + d)");
}

#[test]
fn test_2d_matrix_rendering() {
    let input = r"\begin{pmatrix} 1 & 0 \\ 0 & 1 \end{pmatrix}";
    let res = latex_to_unicode_block(input);
    assert!(res.contains("⎛"));
    assert!(res.contains("1"));
    assert!(res.contains("0"));
    assert!(res.contains("⎠"));
}

#[test]
fn test_markdown_transformation_multi_line() {
    let md = "Here is an equation:\n$$\n\\int_a^b f(x)dx = F(b) - F(a)\n$$\nDone!";
    let out = transform_markdown(md);
    assert!(out.contains("∫ₐᵇ f(x)dx = F(b) - F(a)"));
}
