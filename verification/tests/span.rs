use style_resolve::span::SpanKey;

#[test]
fn span_key_equality_depends_on_both_offsets() {
    assert_eq!(SpanKey::new(3, 9), SpanKey::new(3, 9));
    assert_ne!(SpanKey::new(3, 9), SpanKey::new(3, 10));
    assert_ne!(SpanKey::new(2, 9), SpanKey::new(3, 9));
}
