use log_file::structured::{StatementKind, StructuredElement, StructuredLog};
use log_file::LogError;

#[test]
fn variable_context_renders_exactly() {
    let kind = StatementKind::Variable(String::from("x"), String::from("9"));
    assert_eq!(kind.to_string(), "x = 9");
}

#[test]
fn function_call_context_renders_exactly() {
    let kind = StatementKind::FunctionCall(String::from("println"), String::from("\"hi\""));
    assert_eq!(kind.to_string(), "call println(\"hi\")");
}

#[test]
fn remaining_contexts_render_exactly() {
    assert_eq!(StatementKind::IfStatement(String::from("a < b")).to_string(), "if a < b");
    assert_eq!(
        StatementKind::ElseIfStatement(String::from("a == b")).to_string(),
        "else if a == b"
    );
    assert_eq!(StatementKind::ElseStatement.to_string(), "else");
    assert_eq!(StatementKind::ReturnStatement(String::from("1")).to_string(), "return 1");
    assert_eq!(StatementKind::Loops.to_string(), "Loops()");
}

#[test]
fn structured_scenario_with_trailing_newline() {
    let mut log = StructuredLog::new(false, String::from(":"), 0);
    log.add_variable("main", "num", "2", 10);
    log.add_return_statement("f", "1", 20);
    assert_eq!(log.to_string().unwrap(), "main()\t:\tnum = 2\nf()\t:\treturn 1\n");
}

#[test]
fn empty_structured_log_renders_to_empty_text() {
    let log = StructuredLog::new(true, String::from(":"), 0);
    assert_eq!(log.to_string().unwrap(), "");
}

#[test]
fn newlines_equal_entry_count() {
    let mut log = StructuredLog::new(false, String::from(":"), 0);
    for n in 1usize..4 {
        log.add_else_statement("f", 0);
        let text = log.to_string().unwrap();
        assert_eq!(text.matches('\n').count(), n);
    }
}

#[test]
fn every_tag_maps_to_its_variant() {
    let cases = [
        ("V", "num = 2"),
        ("FC", "call num(2)"),
        ("IF", "if 2"),
        ("ELIF", "else if 2"),
        ("ELSE", "else"),
        ("R", "return 2"),
    ];
    for (tag, expected) in cases {
        let element = StructuredElement::new("main", "num", "2", tag, 0).unwrap();
        let line = element.to_string(":", 0, false).unwrap();
        assert_eq!(line, format!("main()\t:\t{}", expected));
    }
}

#[test]
fn unrecognized_tag_is_invalid_kind() {
    assert_eq!(
        StructuredElement::new("main", "num", "2", "XX", 0).err(),
        Some(LogError::InvalidKind)
    );
}

#[test]
fn unrecognized_tag_adds_no_entry() {
    let mut log = StructuredLog::new(false, String::from(":"), 0);
    log.add_variable("main", "num", "2", 0);
    let before = log.to_string().unwrap();
    assert_eq!(log.add_tagged("main", "x", "y", "XX", 0), Err(LogError::InvalidKind));
    assert_eq!(log.to_string().unwrap(), before);
}

#[test]
fn tagged_append_matches_typed_append() {
    let mut tagged = StructuredLog::new(false, String::from(":"), 0);
    tagged.add_tagged("main", "num", "2", "V", 0).unwrap();
    let mut typed = StructuredLog::new(false, String::from(":"), 0);
    typed.add_variable("main", "num", "2", 0);
    assert_eq!(tagged.to_string().unwrap(), typed.to_string().unwrap());
}

#[test]
fn shown_timestamp_is_unbracketed_and_four_component() {
    let start: usize = 500;
    let mut log = StructuredLog::new(true, String::from(":"), start);
    log.add_if_statement("main", "x > 0", start + 2_000_000_001);
    // elapsed 2_000_000_001 ns: every component trims down to 2.
    assert_eq!(log.to_string().unwrap(), "2:2:2:2\tmain()\t:\tif x > 0\n");
}

#[test]
fn timestamps_off_hides_capture_instants() {
    let mut log = StructuredLog::new(false, String::from("::"), 0);
    log.add_function_call("main", "f", "1, 2", 123_456_789);
    assert_eq!(log.to_string().unwrap(), "main()\t::\tcall f(1, 2)\n");
}

#[test]
fn structured_entry_before_start_is_clock_skew_when_shown() {
    let mut shown = StructuredLog::new(true, String::from(":"), 100);
    shown.add_loops("main", 50);
    assert_eq!(shown.to_string(), Err(LogError::ClockSkew));

    let mut hidden = StructuredLog::new(false, String::from(":"), 100);
    hidden.add_loops("main", 50);
    assert_eq!(hidden.to_string().unwrap(), "main()\t:\tLoops()\n");
}

#[test]
fn else_if_and_loops_append_in_order() {
    let mut log = StructuredLog::new(false, String::from(":"), 0);
    log.add_else_if_statement("main", "y == 1", 0);
    log.add_loops("main", 0);
    assert_eq!(log.to_string().unwrap(), "main()\t:\telse if y == 1\nmain()\t:\tLoops()\n");
}
