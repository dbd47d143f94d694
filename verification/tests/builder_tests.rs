use example_pdf::{BuildError, ContentBuilder, ContentOp, ContentOps, Value};

#[test]
fn it_works() {
    assert_eq!(2 + 2, 4);
}

fn expected_ops(resource: &str, size: i64, x: i64, y: i64, text: &str) -> ContentOps {
    ContentOps {
        operations: vec![
            ContentOp { operator: "BT".to_string(), operands: vec![] },
            ContentOp {
                operator: "Tf".to_string(),
                operands: vec![Value::Name(resource.to_string()), Value::Integer(size)],
            },
            ContentOp {
                operator: "Td".to_string(),
                operands: vec![Value::Integer(x), Value::Integer(y)],
            },
            ContentOp { operator: "Tj".to_string(), operands: vec![Value::Text(text.to_string())] },
            ContentOp { operator: "ET".to_string(), operands: vec![] },
        ],
    }
}

#[test]
fn build_emits_five_operations_in_order() {
    let content = ContentBuilder::new()
        .font("F1", 48)
        .position((100, 600))
        .text("good")
        .text(" bye")
        .build()
        .unwrap();
    assert_eq!(content.operations.len(), 5);
    let operators: Vec<&str> =
        content.operations.iter().map(|op| op.operator.as_str()).collect();
    assert_eq!(operators, vec!["BT", "Tf", "Td", "Tj", "ET"]);
}

#[test]
fn show_text_concatenates_fragments_without_separator() {
    let content = ContentBuilder::new()
        .font("F1", 48)
        .position((100, 600))
        .text("good")
        .text(" bye")
        .build()
        .unwrap();
    assert_eq!(content, expected_ops("F1", 48, 100, 600, "good bye"));
}

#[test]
fn show_text_repeats_fragment_appended_twice() {
    let content = ContentBuilder::new()
        .font("F1", 12)
        .position((0, 0))
        .text("Hello World!")
        .text("Hello World!")
        .build()
        .unwrap();
    assert_eq!(content, expected_ops("F1", 12, 0, 0, "Hello World!Hello World!"));
}

#[test]
fn build_with_no_fragments_shows_empty_text() {
    let content = ContentBuilder::new().font("F1", 10).position((5, 7)).build().unwrap();
    assert_eq!(content, expected_ops("F1", 10, 5, 7, ""));
}

#[test]
fn build_without_font_fails() {
    let r = ContentBuilder::new().position((100, 600)).text("x").build();
    assert_eq!(r, Err(BuildError::FontNotSet));
}

#[test]
fn build_without_position_fails() {
    let r = ContentBuilder::new().font("F1", 48).text("x").build();
    assert_eq!(r, Err(BuildError::PositionNotSet));
}

#[test]
fn build_without_anything_fails_on_position_first() {
    let r = ContentBuilder::new().build();
    assert_eq!(r, Err(BuildError::PositionNotSet));
}

#[test]
fn last_font_and_position_win() {
    let content = ContentBuilder::new()
        .font("F9", 8)
        .position((1, 2))
        .font("F1", 48)
        .position((100, 600))
        .text("t")
        .build()
        .unwrap();
    assert_eq!(content, expected_ops("F1", 48, 100, 600, "t"));
}

#[test]
fn largest_font_size_and_position_are_kept_exactly() {
    let content = ContentBuilder::new()
        .font("F1", u16::MAX)
        .position((u32::MAX, u32::MAX))
        .text("m")
        .build()
        .unwrap();
    assert_eq!(content, expected_ops("F1", 65535, 4294967295, 4294967295, "m"));
}

#[test]
fn degenerate_zero_font_size_is_accepted() {
    let content = ContentBuilder::new().font("F1", 0).position((0, 0)).text("z").build().unwrap();
    assert_eq!(content, expected_ops("F1", 0, 0, 0, "z"));
}
