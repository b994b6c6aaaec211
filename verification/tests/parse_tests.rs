use nova::parse::{field_attr, AttrArgs, FieldAttr};

fn attr(is_field: bool, literal: Option<&str>, ident: Option<&str>) -> AttrArgs {
    AttrArgs { is_field, literal: literal.map(str::to_string), ident: ident.map(str::to_string) }
}

#[test]
fn fields_without_attributes_keep_their_name() {
    assert!(matches!(field_attr(&[]), FieldAttr::Default));
    assert!(matches!(field_attr(&[attr(false, Some("x"), None)]), FieldAttr::Default));
    assert!(matches!(field_attr(&[attr(true, None, Some("other"))]), FieldAttr::Default));
}

#[test]
fn a_string_argument_renames_the_field() {
    assert!(matches!(field_attr(&[attr(true, Some("alias"), None)]), FieldAttr::Alias(ref a) if a == "alias"));
}

#[test]
fn ignore_leaves_the_field_out() {
    assert!(matches!(field_attr(&[attr(true, None, Some("ignore"))]), FieldAttr::Ignore));
}

#[test]
fn the_first_deciding_attribute_wins() {
    let attrs = [attr(true, None, Some("other")), attr(true, Some("late"), None), attr(true, None, Some("ignore"))];
    assert!(matches!(field_attr(&attrs), FieldAttr::Alias(ref a) if a == "late"));
    let attrs = [attr(false, Some("skip"), None), attr(true, None, Some("ignore")), attr(true, Some("x"), None)];
    assert!(matches!(field_attr(&attrs), FieldAttr::Ignore));
}
