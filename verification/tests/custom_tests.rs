use log_file::custom::{Log, LogElement};
use log_file::LogError;

#[test]
fn empty_log_renders_to_empty_text() {
    let log = Log::new(false, ':', 0);
    assert_eq!(log.to_string().unwrap(), "");
}

#[test]
fn two_untimed_entries_scenario() {
    let mut log = Log::new(false, ':', 0);
    log.add_str("T1", "C1", 5);
    log.add_str("T2", "C2", 6);
    assert_eq!(log.to_string().unwrap(), "T1\t:\tC1\nT2\t:\tC2");
}

#[test]
fn add_owned_and_borrowed_context_agree() {
    let mut log_owned = Log::new(false, ';', 0);
    log_owned.add("Title", String::from("Context"), 1);
    let mut log_borrowed = Log::new(false, ';', 0);
    log_borrowed.add_str("Title", "Context", 1);
    assert_eq!(log_owned.to_string().unwrap(), log_borrowed.to_string().unwrap());
}

#[test]
fn untimed_entry_has_no_time_field() {
    let mut log = Log::new(false, ':', 100);
    log.add_str("T", "C", 999_999_999);
    let text = log.to_string().unwrap();
    assert_eq!(text, "T\t:\tC");
    assert!(!text.contains('['));
}

#[test]
fn untimed_element_renders_without_time_whatever_the_instant() {
    let a = LogElement::new_str("T", "C", false, 0);
    let b = LogElement::new_str("T", "C", false, 123_456_789);
    assert_eq!(a.to_string(&':', 50).unwrap(), "T\t:\tC");
    assert_eq!(b.to_string(&':', 50).unwrap(), "T\t:\tC");
}

#[test]
fn order_of_appends_is_preserved() {
    let mut log = Log::new(false, ':', 0);
    log.add_str("A", "1", 0);
    log.add_str("B", "2", 0);
    log.add_str("C", "3", 0);
    let text = log.to_string().unwrap();
    assert_eq!(text, "A\t:\t1\nB\t:\t2\nC\t:\t3");
    let a = text.find('A').unwrap();
    let b = text.find('B').unwrap();
    let c = text.find('C').unwrap();
    assert!(a < b && b < c);
}

#[test]
fn newline_joiners_are_one_fewer_than_entries() {
    let mut log = Log::new(false, ':', 0);
    for (title, n) in [("A", 1usize), ("B", 2), ("C", 3)] {
        log.add_str(title, "x", n);
        let text = log.to_string().unwrap();
        assert_eq!(text.matches('\n').count(), n - 1);
    }
}

#[test]
fn timed_element_renders_bracketed_four_component_timestamp() {
    let start: usize = 1_000_000_000;
    let e = LogElement::new_str("T", "C", true, start + 12_345_678_901);
    // elapsed 12_345_678_901 ns: seconds 12, milliseconds 12345 -> 12,
    // microseconds 12_345_678 -> 12, nanoseconds 12_345_678_901 -> 12.
    assert_eq!(e.to_string(&':', start).unwrap(), "[12:12:12:12]\tT\t:\tC");
}

#[test]
fn zero_elapsed_renders_all_zero_components() {
    let e = LogElement::new_str("T", "C", true, 7_000);
    assert_eq!(e.to_string(&':', 7_000).unwrap(), "[0:0:0:0]\tT\t:\tC");
}

#[test]
fn component_exactly_1000_is_not_divided_further() {
    // elapsed 1000 ns: nanosecond component stays 1000.
    let e = LogElement::new_str("T", "C", true, 1_000);
    assert_eq!(e.to_string(&':', 0).unwrap(), "[0:0:1:1000]\tT\t:\tC");
}

#[test]
fn element_before_start_is_clock_skew() {
    let e = LogElement::new_str("T", "C", true, 5);
    assert_eq!(e.to_string(&':', 10), Err(LogError::ClockSkew));
}

#[test]
fn log_with_skewed_entry_fails_whole_render() {
    let mut log = Log::new(true, ':', 100);
    log.add_str("ok", "x", 150);
    log.add_str("early", "x", 50);
    assert_eq!(log.to_string(), Err(LogError::ClockSkew));
}

#[test]
fn separator_is_inserted_verbatim() {
    let mut log = Log::new(false, '|', 0);
    log.add_str("T", "C", 0);
    assert_eq!(log.to_string().unwrap(), "T\t|\tC");
}
