use vote_bot::engine::{Engine, Phase, DRAIN_MARGIN_MILLIS, MAX_ROUND_SECS};
use vote_bot::tally::ConfigError;

fn catalog_ab() -> (Vec<Vec<u8>>, Vec<Vec<u8>>) {
    let tokens = vec![b"a".to_vec(), b"b".to_vec()];
    let keys = vec![b"K1".to_vec(), b"K2".to_vec()];
    (tokens, keys)
}

fn engine_ab() -> Engine {
    let (tokens, keys) = catalog_ab();
    Engine::new(
        tokens,
        keys,
        b"chan".to_vec(),
        b"".to_vec(),
        b"secret".to_vec(),
        b"botnick".to_vec(),
        b"no command received".to_vec(),
        1,
    )
    .unwrap()
}

#[test]
fn handshake_lines_in_strict_order() {
    let e = engine_ab();
    let lines = e.handshake_lines();
    assert_eq!(lines.len(), 3);
    assert_eq!(lines[0], b"PASS secret\n".to_vec());
    assert_eq!(lines[1], b"NICK botnick\n".to_vec());
    assert_eq!(lines[2], b"JOIN #chan\n".to_vec());
}

#[test]
fn privmsg_format_round_trip() {
    let (tokens, keys) = catalog_ab();
    let e = Engine::new(
        tokens,
        keys,
        b"foo".to_vec(),
        b"".to_vec(),
        b"p".to_vec(),
        b"n".to_vec(),
        b"none".to_vec(),
        5,
    )
    .unwrap();
    let line = e.chat_line(b"bar");
    assert_eq!(line, b"PRIVMSG #foo :bar\r\n".to_vec());
}

#[test]
fn probe_line_yields_one_reply_and_no_votes() {
    let mut e = engine_ab();
    e.handshake_done();
    let lines = vec![b"PING :tmi.twitch.tv".to_vec()];
    let replies = e.collect(&lines);
    assert_eq!(replies.len(), 1);
    assert_eq!(replies[0], b"PONG :tmi.twitch.tv\r\n".to_vec());
    assert_eq!(e.decide(), None);
}

#[test]
fn winning_round_scenario() {
    let mut e = engine_ab();
    e.handshake_done();
    let lines = vec![
        b"PRIVMSG #chan :a".to_vec(),
        b"PRIVMSG #chan :a".to_vec(),
        b"PRIVMSG #chan :b".to_vec(),
    ];
    let replies = e.collect(&lines);
    assert_eq!(replies.len(), 0);
    let winner = e.decide();
    assert_eq!(winner, Some((b"a".to_vec(), 2)));
    let key = e.dispatch_key();
    assert_eq!(key, Some(b"K1".to_vec()));
    let announce = e.announce();
    assert_eq!(announce, b"PRIVMSG #chan :selected: a\r\n".to_vec());
    assert_eq!(e.phase(), Phase::AwaitingHandshake);
}

#[test]
fn empty_round_scenario() {
    let mut e = engine_ab();
    e.handshake_done();
    let lines = vec![b"PRIVMSG #chan :zzz".to_vec(), b"something else".to_vec()];
    let replies = e.collect(&lines);
    assert_eq!(replies.len(), 0);
    assert_eq!(e.decide(), None);
    assert_eq!(e.dispatch_key(), None);
    let announce = e.announce();
    assert_eq!(announce, b"PRIVMSG #chan :no command received\r\n".to_vec());
}

#[test]
fn vote_for_other_channel_is_ignored() {
    let mut e = engine_ab();
    e.handshake_done();
    let lines = vec![b"PRIVMSG #elsewhere :a".to_vec()];
    e.collect(&lines);
    assert_eq!(e.decide(), None);
}

#[test]
fn full_inbound_line_with_sender_prefix_counts() {
    let mut e = engine_ab();
    e.handshake_done();
    let lines = vec![b":nick!user@host PRIVMSG #chan :b".to_vec()];
    e.collect(&lines);
    assert_eq!(e.decide(), Some((b"b".to_vec(), 1)));
}

#[test]
fn tie_breaks_to_first_configured() {
    let mut e = engine_ab();
    e.handshake_done();
    let lines = vec![b"PRIVMSG #chan :b".to_vec(), b"PRIVMSG #chan :a".to_vec()];
    e.collect(&lines);
    assert_eq!(e.decide(), Some((b"a".to_vec(), 1)));
}

#[test]
fn counts_reset_between_rounds() {
    let mut e = engine_ab();
    e.handshake_done();
    e.collect(&vec![b"PRIVMSG #chan :a".to_vec()]);
    assert_eq!(e.decide(), Some((b"a".to_vec(), 1)));
    e.dispatch_key();
    e.announce();
    e.handshake_done();
    e.collect(&vec![]);
    assert_eq!(e.decide(), None);
}

#[test]
fn command_prefix_is_required_when_configured() {
    let (tokens, keys) = catalog_ab();
    let mut e = Engine::new(
        tokens,
        keys,
        b"chan".to_vec(),
        b"!".to_vec(),
        b"p".to_vec(),
        b"n".to_vec(),
        b"none".to_vec(),
        2,
    )
    .unwrap();
    e.handshake_done();
    let lines = vec![b"PRIVMSG #chan :a".to_vec(), b"PRIVMSG #chan :!a".to_vec()];
    e.collect(&lines);
    assert_eq!(e.decide(), Some((b"a".to_vec(), 1)));
}

#[test]
fn bad_duration_is_rejected() {
    let (tokens, keys) = catalog_ab();
    let r = Engine::new(
        tokens,
        keys,
        b"chan".to_vec(),
        b"".to_vec(),
        b"p".to_vec(),
        b"n".to_vec(),
        b"none".to_vec(),
        0,
    );
    assert_eq!(r.err(), Some(ConfigError::BadDuration));
    let (tokens, keys) = catalog_ab();
    let r = Engine::new(
        tokens,
        keys,
        b"chan".to_vec(),
        b"".to_vec(),
        b"p".to_vec(),
        b"n".to_vec(),
        b"none".to_vec(),
        MAX_ROUND_SECS + 1,
    );
    assert_eq!(r.err(), Some(ConfigError::BadDuration));
}

#[test]
fn sleep_keeps_the_drain_margin() {
    let e = engine_ab();
    assert_eq!(e.sleep_millis(), 1000 - DRAIN_MARGIN_MILLIS);
}
