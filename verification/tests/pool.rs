use xcopr::pool::slot_payloads;

fn batch_lines(items: &[&str]) -> Vec<String> {
    items.iter().map(|p| p.to_string()).collect()
}

#[test]
fn each_slot_holds_its_line_and_a_line_feed() {
    let payloads = slot_payloads(&batch_lines(&["foo", "bar"]));
    assert_eq!(payloads, batch_lines(&["foo\n", "bar\n"]));
}

#[test]
fn empty_batch_has_no_payload() {
    assert_eq!(slot_payloads(&batch_lines(&[])), batch_lines(&[]));
}

#[test]
fn empty_line_is_a_line_feed() {
    assert_eq!(slot_payloads(&batch_lines(&[""])), batch_lines(&["\n"]));
}

#[test]
fn lines_are_not_trimmed() {
    assert_eq!(slot_payloads(&batch_lines(&[" a \r", "é\t"])), batch_lines(&[" a \r\n", "é\t\n"]));
}

#[test]
fn shorter_batch_holds_nothing_of_the_longer_one_before() {
    let first = slot_payloads(&batch_lines(&["one", "two", "three"]));
    assert_eq!(first, batch_lines(&["one\n", "two\n", "three\n"]));
    let second = slot_payloads(&batch_lines(&["x"]));
    assert_eq!(second, batch_lines(&["x\n"]));
}
