use xcopr::correlate::correlate;
use xcopr::correlate::Record;

fn output_lines(items: &[&str]) -> Vec<String> {
    items.iter().map(|p| p.to_string()).collect()
}

fn record(line: usize, text: &str) -> Record {
    Record { line, text: text.to_string() }
}

#[test]
fn output_is_paired_by_position() {
    let records = correlate(4, 2, output_lines(&["a", "b"]));
    assert_eq!(records, vec![record(4, "a"), record(5, "b")]);
}

#[test]
fn lines_without_output_get_no_record() {
    let records = correlate(0, 3, output_lines(&["a"]));
    assert_eq!(records, vec![record(0, "a")]);
    assert_eq!(correlate(0, 3, output_lines(&[])), vec![]);
}

#[test]
fn output_beyond_the_batch_is_dropped() {
    let records = correlate(2, 2, output_lines(&["a", "b", "c", "d"]));
    assert_eq!(records, vec![record(2, "a"), record(3, "b")]);
    assert_eq!(correlate(2, 0, output_lines(&["a"])), vec![]);
}

#[test]
fn last_lines_of_the_largest_input() {
    let records = correlate(usize::MAX - 2, 2, output_lines(&["a", "b", "c"]));
    assert_eq!(records, vec![record(usize::MAX - 2, "a"), record(usize::MAX - 1, "b")]);
}
