use jade_tui::circular_buffer::CircularBuffer;
use jade_tui::logs::{LogLevel, LogLine, LogMessage, Logs};

fn print_logs(logs: &Logs) {
    for line in logs.render_lines() {
        println!("{:?}", line);
    }
}

fn texts(lines: &[LogLine]) -> Vec<String> {
    lines.iter().map(|l| l.text.clone()).collect()
}

#[test]
fn creation() {
    println!("ciao");
    let mut circular_buffer = CircularBuffer::with_capacity(3).unwrap();
    circular_buffer.push(LogMessage::new(LogLevel::Info, "Questa e' una info"));
    circular_buffer.push(LogMessage::new(LogLevel::Warning, "Questo e' un warning"));
    circular_buffer.push(LogMessage::new(LogLevel::Error, "Questo e' un errore"));
    let logs = Logs::new(circular_buffer);
    print_logs(&logs);
    assert_eq!(logs.len(), 3);
    let lines = logs.render_lines();
    assert_eq!(
        texts(&lines),
        vec!["Questa e' una info", "Questo e' un warning", "Questo e' un errore"]
    );
}

#[test]
fn lines_carry_level_tags_in_order() {
    let mut logs = Logs::new(CircularBuffer::with_capacity(5).unwrap());
    logs.append(LogMessage::new(LogLevel::Info, "started"));
    logs.append(LogMessage::new(LogLevel::Warning, "slow frame"));
    logs.append(LogMessage::new(LogLevel::Error, "lost input"));
    let lines = logs.render_lines();
    assert_eq!(lines.len(), 3);
    assert_eq!(lines[0].level, LogLevel::Info);
    assert_eq!(lines[1].level, LogLevel::Warning);
    assert_eq!(lines[2].level, LogLevel::Error);
    assert_eq!(lines[0].level.tag(), "[Info]: ");
    assert_eq!(lines[1].level.tag(), "[Warning]: ");
    assert_eq!(lines[2].level.tag(), "[Error]: ");
    assert_eq!(texts(&lines), vec!["started", "slow frame", "lost input"]);
}

#[test]
fn level_tags_are_distinct() {
    let tags = [LogLevel::Info.tag(), LogLevel::Warning.tag(), LogLevel::Error.tag()];
    assert_ne!(tags[0], tags[1]);
    assert_ne!(tags[1], tags[2]);
    assert_ne!(tags[0], tags[2]);
}

#[test]
fn rendering_twice_gives_the_same_lines() {
    let mut logs = Logs::new(CircularBuffer::with_capacity(2).unwrap());
    logs.append(LogMessage::new(LogLevel::Info, "a"));
    logs.append(LogMessage::new(LogLevel::Error, "b"));
    logs.append(LogMessage::new(LogLevel::Warning, "c"));
    let first = logs.render_lines();
    let second = logs.render_lines();
    assert_eq!(texts(&first), texts(&second));
    assert_eq!(first[0].level, second[0].level);
    assert_eq!(first[1].level, second[1].level);
    assert_eq!(texts(&first), vec!["b", "c"]);
    assert_eq!(logs.len(), 2);
}

#[test]
fn logs_keep_the_most_recent_messages() {
    let mut logs = Logs::default();
    for i in 0..40 {
        logs.append(LogMessage::new(LogLevel::Info, &format!("message {}", i)));
    }
    assert_eq!(logs.len(), 32);
    let lines = logs.render_lines();
    assert_eq!(lines[0].text, "message 8");
    assert_eq!(lines[31].text, "message 39");
}

#[test]
fn empty_logs_render_nothing() {
    let logs = Logs::new(CircularBuffer::with_capacity(4).unwrap());
    assert_eq!(logs.len(), 0);
    assert!(logs.render_lines().is_empty());
}
