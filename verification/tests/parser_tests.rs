use vote_bot::parser::{classify, split_lines, Classified};
use vote_bot::protocol::{build_cmd_marker, build_privmsg_line};

fn tokens_ab() -> Vec<Vec<u8>> {
    vec![b"a".to_vec(), b"ab".to_vec()]
}

#[test]
fn classify_probe() {
    let marker = build_cmd_marker(b"chan", b"");
    let c = classify(b"PING :tmi.twitch.tv", &marker, &tokens_ab());
    assert!(matches!(c, Classified::KeepAliveProbe));
}

#[test]
fn classify_command() {
    let marker = build_cmd_marker(b"chan", b"");
    let c = classify(b"PRIVMSG #chan :ab", &marker, &tokens_ab());
    assert!(matches!(c, Classified::ChatCommand { idx: 0 }));
}

#[test]
fn classify_prefix_overlap_takes_first_configured() {
    let marker = build_cmd_marker(b"chan", b"");
    let tokens = vec![b"ab".to_vec(), b"a".to_vec()];
    let c = classify(b"PRIVMSG #chan :a", &marker, &tokens);
    assert!(matches!(c, Classified::ChatCommand { idx: 1 }));
    let c = classify(b"PRIVMSG #chan :ab", &marker, &tokens);
    assert!(matches!(c, Classified::ChatCommand { idx: 0 }));
}

#[test]
fn classify_other() {
    let marker = build_cmd_marker(b"chan", b"");
    let c = classify(b"JOIN #chan", &marker, &tokens_ab());
    assert!(matches!(c, Classified::Other));
    let c = classify(b"PRIVMSG #chan :zzz", &marker, &tokens_ab());
    assert!(matches!(c, Classified::Other));
}

#[test]
fn classify_is_case_sensitive() {
    let marker = build_cmd_marker(b"chan", b"");
    let c = classify(b"PRIVMSG #chan :A", &marker, &tokens_ab());
    assert!(matches!(c, Classified::Other));
}

#[test]
fn split_lines_on_crlf() {
    let buf = b"one\r\ntwo\r\nthree";
    let lines = split_lines(buf);
    assert_eq!(lines, vec![b"one".to_vec(), b"two".to_vec(), b"three".to_vec()]);
}

#[test]
fn split_lines_trailing_terminator_gives_empty_tail() {
    let buf = b"one\r\n";
    let lines = split_lines(buf);
    assert_eq!(lines, vec![b"one".to_vec(), b"".to_vec()]);
}

#[test]
fn split_lines_empty_buffer() {
    let lines = split_lines(b"");
    assert_eq!(lines, vec![b"".to_vec()]);
}

#[test]
fn built_line_classifies_back_as_its_own_command() {
    let marker = build_cmd_marker(b"chan", b"");
    let line = build_privmsg_line(b"chan", b"a");
    let c = classify(&line, &marker, &tokens_ab());
    assert!(matches!(c, Classified::ChatCommand { idx: 0 }));
}
