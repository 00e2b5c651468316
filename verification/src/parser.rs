//! Classifies one inbound protocol line as a liveness probe, a chat command
//! vote for a catalog entry, or noise.
//!
//! A line is a chat command when it contains the command marker
//! (`PRIVMSG #<channel> :<command prefix>`) and the text right after the
//! first occurrence of that marker begins with a catalog token. Tokens are
//! matched case-sensitively; when several tokens are prefixes of the same
//! text, the first-configured one wins.

use vstd::prelude::*;
use crate::bytes::{
    contains_seq, copy_bytes, find_first, find_from, find_spec, first_match_from,
    lemma_first_match_from_sound, lemma_vecs_view_push, match_at, slice_starts_with, starts_with,
    vecs_view,
};
use crate::protocol::{crlf, crlf_bytes, probe_marker, probe_marker_bytes};
use vstd::slice::slice_subrange;

verus! {

/// Classification of one inbound protocol line.
#[derive(PartialEq, Eq, Structural, Clone, Copy, Debug)]
pub enum Classified {
    /// The line carries the liveness probe; it must be answered at once.
    KeepAliveProbe,
    /// The line votes for the catalog entry at this index.
    ChatCommand { idx: usize },
    /// Anything else; ignored.
    Other,
}

/// Index of the first token at or after `k` that is a prefix of `rest`.
pub open spec fn first_prefix_from(rest: Seq<u8>, tokens: Seq<Seq<u8>>, k: int) -> Option<int>
    decreases tokens.len() - k,
{
    if k < 0 || k >= tokens.len() {
        None
    } else if starts_with(rest, tokens[k]) {
        Some(k)
    } else {
        first_prefix_from(rest, tokens, k + 1)
    }
}

/// A found token index is in range and is a genuine prefix, and no
/// earlier-configured token is one.
pub proof fn lemma_first_prefix_from_sound(rest: Seq<u8>, tokens: Seq<Seq<u8>>, k: int)
    requires
        0 <= k,
    ensures
        first_prefix_from(rest, tokens, k) matches Some(j) ==> k <= j < tokens.len()
            && starts_with(rest, tokens[j])
            && (forall|m: int| k <= m < j ==> !starts_with(rest, tokens[m])),
        first_prefix_from(rest, tokens, k) is None ==> (forall|m: int|
            k <= m < tokens.len() ==> !starts_with(rest, tokens[m])),
    decreases tokens.len() - k,
{
    if k < tokens.len() && !starts_with(rest, tokens[k]) {
        lemma_first_prefix_from_sound(rest, tokens, k + 1);
    }
}

/// How one line is classified, given the command marker and the catalog's
/// tokens in configured order. The probe check comes first; a chat command
/// is recognized at the first occurrence of the marker.
pub open spec fn spec_classify(line: Seq<u8>, marker: Seq<u8>, tokens: Seq<Seq<u8>>) -> Classified {
    if contains_seq(line, probe_marker()) {
        Classified::KeepAliveProbe
    } else {
        match find_spec(line, marker) {
            Some(p) => {
                let rest = line.subrange(p + marker.len(), line.len() as int);
                match first_prefix_from(rest, tokens, 0) {
                    Some(j) => Classified::ChatCommand { idx: j as usize },
                    None => Classified::Other,
                }
            },
            None => Classified::Other,
        }
    }
}

/// A chat-command classification always points into the catalog.
pub proof fn lemma_classify_idx_in_range(line: Seq<u8>, marker: Seq<u8>, tokens: Seq<Seq<u8>>)
    ensures
        spec_classify(line, marker, tokens) matches Classified::ChatCommand { idx }
            ==> idx < tokens.len(),
{
    if !contains_seq(line, probe_marker()) && find_spec(line, marker) is Some {
        let p = find_spec(line, marker)->Some_0;
        let rest = line.subrange(p + marker.len(), line.len() as int);
        lemma_first_prefix_from_sound(rest, tokens, 0);
    }
}

/// The pieces of `buf` from `start` on, split on each `\r\n` terminator.
/// Text after the last terminator (or the whole rest, if none occurs) is
/// the final piece, so a buffer ending in `\r\n` ends with an empty piece.
pub open spec fn split_from(buf: Seq<u8>, start: int) -> Seq<Seq<u8>>
    decreases buf.len() - start,
{
    if start < 0 || start > buf.len() {
        seq![]
    } else {
        match first_match_from(buf, crlf(), start) {
            Some(p) => if start <= p && p + 2 <= buf.len() {
                seq![buf.subrange(start, p)] + split_from(buf, p + 2)
            } else {
                seq![]
            },
            None => seq![buf.subrange(start, buf.len() as int)],
        }
    }
}

/// Split a drained buffer into lines on the `\r\n` terminator.
pub fn split_lines(buf: &[u8]) -> (r: Vec<Vec<u8>>)
    ensures
        vecs_view(r@) == split_from(buf@, 0),
{
    let sep = crlf_bytes();
    let mut out: Vec<Vec<u8>> = Vec::new();
    let mut start: usize = 0;
    loop
        invariant
            start <= buf@.len(),
            sep@ == crlf(),
            split_from(buf@, 0) == vecs_view(out@) + split_from(buf@, start as int),
        decreases buf@.len() - start,
    {
        let ghost out0 = out@;
        match find_from(buf, sep.as_slice(), start) {
            Some(p) => {
                let buf_len = buf.len();
                proof {
                    lemma_first_match_from_sound(buf@, crlf(), start as int);
                    assert(match_at(buf@, crlf(), p as int));
                    assert(p + 2 <= buf_len);
                }
                let piece = copy_bytes(slice_subrange(buf, start, p));
                out.push(piece);
                proof {
                    lemma_vecs_view_push(out0, piece);
                    assert(split_from(buf@, start as int) == seq![buf@.subrange(
                        start as int,
                        p as int,
                    )] + split_from(buf@, p + 2));
                    assert(vecs_view(out@) + split_from(buf@, p + 2) =~= vecs_view(out0)
                        + split_from(buf@, start as int));
                }
                start = p + 2;
            },
            None => {
                let piece = copy_bytes(slice_subrange(buf, start, buf.len()));
                out.push(piece);
                proof {
                    lemma_vecs_view_push(out0, piece);
                    assert(split_from(buf@, start as int) == seq![buf@.subrange(
                        start as int,
                        buf@.len() as int,
                    )]);
                    assert(vecs_view(out@) =~= vecs_view(out0) + split_from(buf@, start as int));
                }
                return out;
            },
        }
    }
}

/// Classify one line against the command marker and the catalog tokens.
pub fn classify(line: &[u8], marker: &[u8], tokens: &Vec<Vec<u8>>) -> (c: Classified)
    ensures
        c == spec_classify(line@, marker@, vecs_view(tokens@)),
{
    let probe = probe_marker_bytes();
    if find_first(line, probe.as_slice()).is_some() {
        return Classified::KeepAliveProbe;
    }
    match find_first(line, marker) {
        Some(p) => {
            let line_len = line.len();
            proof {
                lemma_first_match_from_sound(line@, marker@, 0);
                assert(match_at(line@, marker@, p as int));
            }
            let start = p + marker.len();
            let rest = slice_subrange(line, start, line.len());
            let ghost rest_view = line@.subrange(p + marker@.len(), line@.len() as int);
            let mut k: usize = 0;
            loop
                invariant
                    k <= tokens@.len(),
                    rest@ == rest_view,
                    rest_view == line@.subrange(p + marker@.len(), line@.len() as int),
                    first_prefix_from(rest_view, vecs_view(tokens@), 0)
                        == first_prefix_from(rest_view, vecs_view(tokens@), k as int),
                    !contains_seq(line@, probe_marker()),
                    find_spec(line@, marker@) == Some(p as int),
                decreases tokens@.len() - k,
            {
                if k == tokens.len() {
                    return Classified::Other;
                }
                if slice_starts_with(rest, tokens[k].as_slice()) {
                    assert(starts_with(rest_view, vecs_view(tokens@)[k as int]));
                    return Classified::ChatCommand { idx: k };
                }
                assert(first_prefix_from(rest_view, vecs_view(tokens@), k as int)
                    == first_prefix_from(rest_view, vecs_view(tokens@), k + 1));
                k += 1;
            }
        },
        None => Classified::Other,
    }
}

} // verus!
