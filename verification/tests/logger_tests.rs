use yutai_watch::logger::{init, log, to_chunks, Logger};
use yutai_watch::text::split_lines;

fn logged(messages: &[&str]) -> yutai_watch::logger::LogBuffer {
    let mut buffer = init();
    for m in messages {
        log(&mut buffer, m);
    }
    buffer
}

#[test]
fn log_appends_message_and_newline() {
    let buffer = logged(&["first", "second"]);
    assert_eq!(buffer.as_str(), "first\nsecond\n");
}

#[test]
fn empty_log_has_no_chunks() {
    let buffer = init();
    assert!(to_chunks(&buffer, 2000).is_empty());
}

#[test]
fn chunks_fill_up_to_the_limit() {
    let buffer = logged(&["aaa", "bbb", "ccc"]);
    assert_eq!(to_chunks(&buffer, 8), vec!["aaa\nbbb\n".to_string(), "ccc\n".to_string()]);
}

#[test]
fn everything_fits_in_one_chunk() {
    let buffer = logged(&["aaa", "bbb", "ccc"]);
    assert_eq!(to_chunks(&buffer, 2000), vec!["aaa\nbbb\nccc\n".to_string()]);
}

#[test]
fn a_too_long_line_is_cut_at_the_limit() {
    let buffer = logged(&["toolong", "x"]);
    assert_eq!(
        to_chunks(&buffer, 3),
        vec!["too".to_string(), "lon".to_string(), "g\n".to_string(), "x\n".to_string()]
    );
}

#[test]
fn a_line_that_fits_alone_is_not_cut() {
    let buffer = logged(&["ab", "cdef", "g"]);
    assert_eq!(
        to_chunks(&buffer, 5),
        vec!["ab\n".to_string(), "cdef\n".to_string(), "g\n".to_string()]
    );
}

#[test]
fn chunk_limit_counts_characters() {
    let buffer = logged(&["あ", "い"]);
    assert_eq!(to_chunks(&buffer, 4), vec!["あ\nい\n".to_string()]);
    assert_eq!(to_chunks(&buffer, 3), vec!["あ\n".to_string(), "い\n".to_string()]);
}

#[test]
fn a_zero_limit_gives_no_chunks() {
    let buffer = logged(&["abc"]);
    assert!(to_chunks(&buffer, 0).is_empty());
}

#[test]
fn chunks_put_together_give_back_the_log() {
    let buffer = logged(&["Webhook送信失敗", "state.json更新失敗", "abc", "", "def"]);
    for limit in [1usize, 2, 5, 10, 30, 2000] {
        let chunks = to_chunks(&buffer, limit);
        assert_eq!(chunks.concat(), buffer.as_str());
        for c in &chunks {
            let n = c.chars().count();
            assert!(n >= 1 && n <= limit, "chunk {:?} for limit {}", c, limit);
        }
    }
}

#[test]
fn a_multi_line_message_becomes_several_lines() {
    let buffer = logged(&["one\ntwo"]);
    assert_eq!(to_chunks(&buffer, 4), vec!["one\n".to_string(), "two\n".to_string()]);
}

#[test]
fn carriage_return_before_newline_is_dropped() {
    let buffer = logged(&["a\r"]);
    assert_eq!(to_chunks(&buffer, 2000), vec!["a\n".to_string()]);
}

#[test]
fn split_lines_follows_str_lines() {
    for text in ["", "a", "a\n", "a\nb", "a\r\nb\r\n", "a\r", "\n\n", "x\r\r\ny", "\r", "\r\n"] {
        let expected: Vec<String> = text.lines().map(|l| l.to_string()).collect();
        assert_eq!(split_lines(text), expected, "text {:?}", text);
    }
}

#[test]
fn discord_chunks_are_code_blocks() {
    let mut logger = Logger::new();
    logger.log("hello");
    logger.log("world");
    assert_eq!(logger.to_discord_chunks(), vec!["```\nhello\nworld\n\n```".to_string()]);
}

#[test]
fn discord_chunks_leave_room_for_the_fences() {
    let mut logger = Logger::new();
    let line = "x".repeat(999);
    logger.log(&line);
    logger.log(&line);
    logger.log(&line);
    let chunks = logger.to_discord_chunks();
    let block = format!("```\n{}\n\n```", line);
    assert_eq!(chunks, vec![block.clone(), block.clone(), block]);
    for c in &chunks {
        assert_eq!(c.chars().count(), 1008);
    }
}

#[test]
fn discord_chunks_keep_to_two_thousand_characters() {
    let mut logger = Logger::new();
    logger.log(&"a".repeat(1000));
    logger.log(&"b".repeat(998));
    logger.log(&"株".repeat(5000));
    let chunks = logger.to_discord_chunks();
    assert_eq!(chunks.len(), 5);
    for c in &chunks {
        assert!(c.chars().count() <= 2000, "chunk of {} characters", c.chars().count());
    }
    assert_eq!(chunks[2], format!("```\n{}\n```", "株".repeat(1992)));
    let inner: String = chunks
        .iter()
        .map(|c| c.strip_prefix("```\n").unwrap().strip_suffix("\n```").unwrap().to_string())
        .collect();
    assert_eq!(inner, format!("{}\n{}\n{}\n", "a".repeat(1000), "b".repeat(998), "株".repeat(5000)));
}

#[test]
fn empty_logger_has_no_discord_chunks() {
    assert!(Logger::new().to_discord_chunks().is_empty());
}

#[test]
fn discord_chunks_are_the_plain_chunks_fenced_when_they_fit() {
    let long = "z".repeat(1500);
    let messages = ["first line", "second", long.as_str(), "last"];
    let mut logger = Logger::new();
    let buffer = logged(&messages);
    for m in messages {
        logger.log(m);
    }
    let plain = to_chunks(&buffer, 2000);
    assert!(plain.iter().all(|c| c.chars().count() <= 1992));
    let fenced: Vec<String> = plain.iter().map(|c| format!("```\n{}\n```", c)).collect();
    assert_eq!(logger.to_discord_chunks(), fenced);
}
