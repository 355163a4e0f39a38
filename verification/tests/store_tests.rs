use log_ship::dedup::DedupRuns;
use log_ship::double_buf::{DoubleBufWriter, WriterCommand};
use log_ship::query::SearchComparator;

#[test]
fn dedup_runs() {
    // runs of length two and longer come out once each
    let mut it = DedupRuns::new(vec![1, 1, 2, 2, 2, 3], 2);
    assert_eq!(it.next(), Some(1));
    assert_eq!(it.next(), Some(2));
    assert_eq!(it.next(), None);

    // a target of one yields every change of value
    let mut it = DedupRuns::new(vec![5, 5, 6, 7], 1);
    assert_eq!(it.next(), Some(6));
    assert_eq!(it.next(), Some(7));
    assert_eq!(it.next(), None);
}

#[test]
fn buffered_writer_hands_everything_over() {
    let mut writer = DoubleBufWriter::with_capacity(4);

    // six bytes: four fit, the full buffer becomes one write command
    let accepted = writer.write(b"abcdef");
    assert_eq!(accepted, 4);
    let accepted = writer.write(b"ef");
    assert_eq!(accepted, 2);

    writer.flush();
    let commands = writer.take_commands();
    let mut written: Vec<u8> = Vec::new();
    let mut saw_flush = false;
    for command in commands {
        match command {
            WriterCommand::Write(bytes) => written.extend_from_slice(&bytes),
            WriterCommand::Flush => saw_flush = true,
            _ => {}
        }
    }
    assert_eq!(written, b"abcdef".to_vec());
    assert!(saw_flush);

    // finishing queues the stop command last
    writer.write(b"xy");
    writer.finish();
    let commands = writer.take_commands();
    assert!(matches!(commands.last(), Some(WriterCommand::Finish)));
    let mut written: Vec<u8> = Vec::new();
    for command in &commands {
        if let WriterCommand::Write(bytes) = command {
            written.extend_from_slice(bytes);
        }
    }
    assert_eq!(written, b"xy".to_vec());
}

#[test]
fn comparator_tokens() {
    let cases = [
        (SearchComparator::Equal, "="),
        (SearchComparator::NotEqual, "!="),
        (SearchComparator::Regex, "~="),
        (SearchComparator::GreaterThan, ">"),
        (SearchComparator::LessThan, "<"),
        (SearchComparator::GreaterEqual, ">="),
        (SearchComparator::LessEqual, "<="),
    ];
    for (comparator, token) in cases {
        assert_eq!(comparator.as_token(), token);
        assert_eq!(SearchComparator::try_from(token), Some(comparator));
    }
    assert_eq!(SearchComparator::try_from("=="), None);
}
