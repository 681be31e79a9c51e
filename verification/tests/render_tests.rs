use printable::AsPrintable;
use printable::Printable;
use printable::i64_to_string;
use printable::u64_to_string;

fn texts(items: &[&str]) -> Vec<String> {
    items.iter().map(|s| String::from(*s)).collect()
}

#[test]
fn empty_sequence_renders_as_bare_bounds() {
    let v: Vec<u64> = vec![];
    assert_eq!(v.printable().render(), "[]");
    let w: Vec<String> = vec![];
    assert_eq!(w.printable().render(), "[]");
}

#[test]
fn single_element_renders_without_separator() {
    let v: Vec<u64> = vec![1];
    assert_eq!(v.printable().render(), "[1]");
    assert_eq!(texts(&["x"]).printable().render(), "[x]");
}

#[test]
fn three_elements_default_configuration() {
    let v: Vec<u64> = vec![1, 2, 3];
    assert_eq!(v.printable().render(), "[1, 2, 3]");
}

#[test]
fn order_is_preserved() {
    assert_eq!(texts(&["a", "b", "c"]).printable().render(), "[a, b, c]");
}

#[test]
fn default_render_starts_and_ends_with_bounds() {
    let v: Vec<u64> = vec![7, 8, 9, 10];
    let s = v.printable().render();
    assert!(s.starts_with("["));
    assert!(s.ends_with("]"));
}

#[test]
fn default_render_has_one_separator_less_than_elements() {
    let v: Vec<u64> = vec![4, 5, 6, 7, 8];
    let s = v.printable().render();
    assert_eq!(s.matches(", ").count(), 4);
}

#[test]
fn element_text_is_rendered_verbatim_without_quoting() {
    assert_eq!(texts(&["a, b", "c"]).printable().render(), "[a, b, c]");
}

#[test]
fn wrap_uses_default_configuration() {
    assert_eq!(Printable::wrap(texts(&["x", "y"])).render(), "[x, y]");
}

#[test]
fn render_is_idempotent() {
    let v: Vec<u64> = vec![1, 2, 3];
    let p = v.printable();
    let first = p.render();
    let second = p.render();
    assert_eq!(first, second);
    assert_eq!(first, "[1, 2, 3]");
}

#[test]
fn signed_elements_render_with_minus_signs() {
    let v: Vec<i64> = vec![-1, 0, 2];
    assert_eq!(v.printable().render(), "[-1, 0, 2]");
}

#[test]
fn decimal_text_of_signed_integers() {
    assert_eq!(i64_to_string(0), "0");
    assert_eq!(i64_to_string(-7), "-7");
    assert_eq!(i64_to_string(42), "42");
    assert_eq!(i64_to_string(i64::MIN), "-9223372036854775808");
    assert_eq!(i64_to_string(i64::MAX), "9223372036854775807");
}

#[test]
fn decimal_text_of_integers() {
    assert_eq!(u64_to_string(0), "0");
    assert_eq!(u64_to_string(9), "9");
    assert_eq!(u64_to_string(10), "10");
    assert_eq!(u64_to_string(12345), "12345");
    assert_eq!(u64_to_string(u64::MAX), "18446744073709551615");
}
