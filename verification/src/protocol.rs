//! The wire protocol's fixed text and outbound line builders.
//!
//! Outbound handshake lines end with `\n`; chat lines and the liveness reply
//! end with `\r\n`. Every builder's result is pinned byte for byte.

use vstd::prelude::*;
use crate::bytes::push_all;

verus! {

/// `:tmi.twitch.tv`, the server tag shared by the probe and its reply.
pub open spec fn server_tag() -> Seq<u8> {
    seq![58u8, 116u8, 109u8, 105u8, 46u8, 116u8, 119u8, 105u8, 116u8, 99u8, 104u8, 46u8, 116u8, 118u8]
}

/// The liveness probe marker the server sends: `PING :tmi.twitch.tv`.
pub open spec fn probe_marker() -> Seq<u8> {
    seq![80u8, 73u8, 78u8, 71u8, 32u8] + server_tag()
}

/// The line terminator of chat lines: `\r\n`.
pub open spec fn crlf() -> Seq<u8> {
    seq![13u8, 10u8]
}

/// The liveness reply line: `PONG :tmi.twitch.tv\r\n`.
pub open spec fn reply_line() -> Seq<u8> {
    seq![80u8, 79u8, 78u8, 71u8, 32u8] + server_tag() + crlf()
}

/// `PRIVMSG #`, the chat-message marker up to the channel name.
pub open spec fn privmsg_head() -> Seq<u8> {
    seq![80u8, 82u8, 73u8, 86u8, 77u8, 83u8, 71u8, 32u8, 35u8]
}

/// An outbound chat line: `PRIVMSG #<channel> :<text>\r\n`.
pub open spec fn privmsg_line(channel: Seq<u8>, text: Seq<u8>) -> Seq<u8> {
    privmsg_head() + channel + seq![32u8, 58u8] + text + crlf()
}

/// What an inbound chat-command line must contain right before a token:
/// `PRIVMSG #<channel> :<command prefix>`.
pub open spec fn cmd_marker_spec(channel: Seq<u8>, prefix: Seq<u8>) -> Seq<u8> {
    privmsg_head() + channel + seq![32u8, 58u8] + prefix
}

/// The credential line: `PASS <token>\n`.
pub open spec fn pass_line(token: Seq<u8>) -> Seq<u8> {
    seq![80u8, 65u8, 83u8, 83u8, 32u8] + token + seq![10u8]
}

/// The identity line: `NICK <name>\n`.
pub open spec fn nick_line(name: Seq<u8>) -> Seq<u8> {
    seq![78u8, 73u8, 67u8, 75u8, 32u8] + name + seq![10u8]
}

/// The channel-join line: `JOIN #<channel>\n`.
pub open spec fn join_line(channel: Seq<u8>) -> Seq<u8> {
    seq![74u8, 79u8, 73u8, 78u8, 32u8, 35u8] + channel + seq![10u8]
}

/// The announce text for a winning token: `selected: <token>`.
pub open spec fn selected_text(token: Seq<u8>) -> Seq<u8> {
    seq![115u8, 101u8, 108u8, 101u8, 99u8, 116u8, 101u8, 100u8, 58u8, 32u8] + token
}

pub fn crlf_bytes() -> (r: Vec<u8>)
    ensures
        r@ == crlf(),
{
    let mut v: Vec<u8> = Vec::new();
    v.push(13u8);
    v.push(10u8);
    assert(v@ =~= crlf());
    v
}

pub fn probe_marker_bytes() -> (r: Vec<u8>)
    ensures
        r@ == probe_marker(),
{
    let mut v: Vec<u8> = Vec::new();
    v.push(80u8);
    v.push(73u8);
    v.push(78u8);
    v.push(71u8);
    v.push(32u8);
    v = push_server_tag(v);
    assert(v@ =~= probe_marker());
    v
}

fn push_server_tag(acc: Vec<u8>) -> (r: Vec<u8>)
    ensures
        r@ == acc@ + server_tag(),
{
    let mut v = acc;
    v.push(58u8);
    v.push(116u8);
    v.push(109u8);
    v.push(105u8);
    v.push(46u8);
    v.push(116u8);
    v.push(119u8);
    v.push(105u8);
    v.push(116u8);
    v.push(99u8);
    v.push(104u8);
    v.push(46u8);
    v.push(116u8);
    v.push(118u8);
    assert(v@ =~= acc@ + server_tag());
    v
}

pub fn reply_line_bytes() -> (r: Vec<u8>)
    ensures
        r@ == reply_line(),
{
    let mut v: Vec<u8> = Vec::new();
    v.push(80u8);
    v.push(79u8);
    v.push(78u8);
    v.push(71u8);
    v.push(32u8);
    v = push_server_tag(v);
    v.push(13u8);
    v.push(10u8);
    assert(v@ =~= reply_line());
    v
}

fn push_privmsg_head(acc: Vec<u8>) -> (r: Vec<u8>)
    ensures
        r@ == acc@ + privmsg_head(),
{
    let mut v = acc;
    v.push(80u8);
    v.push(82u8);
    v.push(73u8);
    v.push(86u8);
    v.push(77u8);
    v.push(83u8);
    v.push(71u8);
    v.push(32u8);
    v.push(35u8);
    assert(v@ =~= acc@ + privmsg_head());
    v
}

pub fn build_privmsg_line(channel: &[u8], text: &[u8]) -> (r: Vec<u8>)
    ensures
        r@ == privmsg_line(channel@, text@),
{
    let mut v = push_privmsg_head(Vec::new());
    v = push_all(v, channel);
    v.push(32u8);
    v.push(58u8);
    v = push_all(v, text);
    v.push(13u8);
    v.push(10u8);
    assert(v@ =~= privmsg_line(channel@, text@));
    v
}

pub fn build_cmd_marker(channel: &[u8], prefix: &[u8]) -> (r: Vec<u8>)
    ensures
        r@ == cmd_marker_spec(channel@, prefix@),
{
    let mut v = push_privmsg_head(Vec::new());
    v = push_all(v, channel);
    v.push(32u8);
    v.push(58u8);
    v = push_all(v, prefix);
    assert(v@ =~= cmd_marker_spec(channel@, prefix@));
    v
}

pub fn build_pass_line(token: &[u8]) -> (r: Vec<u8>)
    ensures
        r@ == pass_line(token@),
{
    let mut v: Vec<u8> = Vec::new();
    v.push(80u8);
    v.push(65u8);
    v.push(83u8);
    v.push(83u8);
    v.push(32u8);
    v = push_all(v, token);
    v.push(10u8);
    assert(v@ =~= pass_line(token@));
    v
}

pub fn build_nick_line(name: &[u8]) -> (r: Vec<u8>)
    ensures
        r@ == nick_line(name@),
{
    let mut v: Vec<u8> = Vec::new();
    v.push(78u8);
    v.push(73u8);
    v.push(67u8);
    v.push(75u8);
    v.push(32u8);
    v = push_all(v, name);
    v.push(10u8);
    assert(v@ =~= nick_line(name@));
    v
}

pub fn build_join_line(channel: &[u8]) -> (r: Vec<u8>)
    ensures
        r@ == join_line(channel@),
{
    let mut v: Vec<u8> = Vec::new();
    v.push(74u8);
    v.push(79u8);
    v.push(73u8);
    v.push(78u8);
    v.push(32u8);
    v.push(35u8);
    v = push_all(v, channel);
    v.push(10u8);
    assert(v@ =~= join_line(channel@));
    v
}

pub fn build_selected_text(token: &[u8]) -> (r: Vec<u8>)
    ensures
        r@ == selected_text(token@),
{
    let mut v: Vec<u8> = Vec::new();
    v.push(115u8);
    v.push(101u8);
    v.push(108u8);
    v.push(101u8);
    v.push(99u8);
    v.push(116u8);
    v.push(101u8);
    v.push(100u8);
    v.push(58u8);
    v.push(32u8);
    v = push_all(v, token);
    assert(v@ =~= selected_text(token@));
    v
}

} // verus!
