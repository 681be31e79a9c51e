use printable::AsPrintable;

fn one_two_three() -> Vec<u64> {
    vec![1, 2, 3]
}

#[test]
fn separator_alone_changes_only_the_separator() {
    let p = one_two_three().printable().with_separator(".");
    assert_eq!(p.render(), "[1.2.3]");
}

#[test]
fn left_bound_alone_changes_only_the_left_bound() {
    let p = one_two_three().printable().with_left_bound("{");
    assert_eq!(p.render(), "{1, 2, 3]");
}

#[test]
fn right_bound_alone_changes_only_the_right_bound() {
    let p = one_two_three().printable().with_right_bound("}");
    assert_eq!(p.render(), "[1, 2, 3}");
}

#[test]
fn all_three_configurations_compose() {
    let p = one_two_three()
        .printable()
        .with_separator(".")
        .with_left_bound("{")
        .with_right_bound("}");
    assert_eq!(p.render(), "{1.2.3}");
}

#[test]
fn configuration_order_does_not_matter() {
    let a = one_two_three()
        .printable()
        .with_separator(".")
        .with_left_bound("{")
        .with_right_bound("}")
        .render();
    let b = one_two_three()
        .printable()
        .with_right_bound("}")
        .with_separator(".")
        .with_left_bound("{")
        .render();
    let c = one_two_three()
        .printable()
        .with_left_bound("{")
        .with_right_bound("}")
        .with_separator(".")
        .render();
    assert_eq!(a, "{1.2.3}");
    assert_eq!(a, b);
    assert_eq!(a, c);
}

#[test]
fn last_separator_written_wins() {
    let p = one_two_three().printable().with_separator(" - ").with_separator(".");
    assert_eq!(p.render(), "[1.2.3]");
}

#[test]
fn empty_separator_and_bounds_are_allowed() {
    let p = one_two_three()
        .printable()
        .with_separator("")
        .with_left_bound("")
        .with_right_bound("");
    assert_eq!(p.render(), "123");
}

#[test]
fn reconfiguring_leaves_an_earlier_rendering_unchanged() {
    let p = one_two_three().printable();
    let before = p.render();
    let reconfigured = p.with_separator(".");
    let after = reconfigured.render();
    assert_eq!(before, "[1, 2, 3]");
    assert_eq!(after, "[1.2.3]");
}
