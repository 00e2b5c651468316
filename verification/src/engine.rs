//! The round scheduler: a state machine driving the repeating cycle
//! handshake -> collect -> decide -> dispatch -> announce.
//!
//! The engine owns the catalog, the vote board and the session
//! configuration, and plans every outbound line; the caller performs the
//! I/O around it (connect, sleep, drain, send) and feeds the drained lines
//! back in. Collection is the close-and-drain strategy: the caller sleeps
//! for the round duration less a fixed safety margin, half-closes the
//! transport, drains it, and reconnects for a fresh handshake each round —
//! so a finished round returns the machine to `AwaitingHandshake`.

use vstd::prelude::*;
use crate::bytes::{copy_bytes, vecs_view};
use crate::parser::{classify, lemma_classify_idx_in_range, spec_classify, Classified};
use crate::protocol::{
    build_cmd_marker, build_join_line, build_nick_line, build_pass_line, build_privmsg_line,
    build_selected_text, cmd_marker_spec, join_line, nick_line, pass_line, privmsg_line,
    reply_line, reply_line_bytes, selected_text,
};
use crate::tally::{bump, winner_at, zero_counts, Catalog, ConfigError, VoteTally};

verus! {

/// Longest accepted round duration, in seconds: one day.
pub const MAX_ROUND_SECS: u64 = 86400;

/// How much sooner than the round's end the caller must stop reading, so
/// that draining and reconnecting fit inside the round.
pub const DRAIN_MARGIN_MILLIS: u64 = 200;

/// Where the scheduler stands in the round cycle.
#[derive(PartialEq, Eq, Structural, Clone, Copy, Debug)]
pub enum Phase {
    /// The transport is fresh; the handshake lines must be sent next.
    AwaitingHandshake,
    /// The round is open; lines are being collected.
    CollectingVotes,
    /// The window is closed; the winner is to be selected.
    Deciding,
    /// A winner (or none) is chosen; the key action is to be issued.
    Dispatching,
    /// The status line is to be sent; the cycle then restarts.
    Announcing,
}

/// The counts after one line: a vote bumps its entry, everything else
/// leaves the board alone.
pub open spec fn step_counts(
    counts: Seq<u64>,
    line: Seq<u8>,
    marker: Seq<u8>,
    tokens: Seq<Seq<u8>>,
) -> Seq<u64> {
    match spec_classify(line, marker, tokens) {
        Classified::ChatCommand { idx } => if idx < counts.len() {
            counts.update(idx as int, bump(counts[idx as int]))
        } else {
            counts
        },
        _ => counts,
    }
}

/// The counts after replaying `lines[k..]` in order.
pub open spec fn replay_from(
    counts: Seq<u64>,
    lines: Seq<Seq<u8>>,
    marker: Seq<u8>,
    tokens: Seq<Seq<u8>>,
    k: int,
) -> Seq<u64>
    decreases lines.len() - k,
{
    if k < 0 || k >= lines.len() {
        counts
    } else {
        replay_from(step_counts(counts, lines[k], marker, tokens), lines, marker, tokens, k + 1)
    }
}

/// The counts after replaying a whole window of lines.
pub open spec fn replay(
    counts: Seq<u64>,
    lines: Seq<Seq<u8>>,
    marker: Seq<u8>,
    tokens: Seq<Seq<u8>>,
) -> Seq<u64> {
    replay_from(counts, lines, marker, tokens, 0)
}

/// The liveness replies owed for `lines[k..]`: one reply line per probe,
/// in order.
pub open spec fn replies_from(
    lines: Seq<Seq<u8>>,
    marker: Seq<u8>,
    tokens: Seq<Seq<u8>>,
    k: int,
) -> Seq<Seq<u8>>
    decreases lines.len() - k,
{
    if k < 0 || k >= lines.len() {
        seq![]
    } else {
        let rest = replies_from(lines, marker, tokens, k + 1);
        if spec_classify(lines[k], marker, tokens) is KeepAliveProbe {
            seq![reply_line()] + rest
        } else {
            rest
        }
    }
}

/// The liveness replies owed for a whole window of lines.
pub open spec fn replies_spec(lines: Seq<Seq<u8>>, marker: Seq<u8>, tokens: Seq<Seq<u8>>) -> Seq<
    Seq<u8>,
> {
    replies_from(lines, marker, tokens, 0)
}

/// How many of `lines[k..]` vote for catalog entry `idx`.
pub open spec fn occ_from(
    lines: Seq<Seq<u8>>,
    marker: Seq<u8>,
    tokens: Seq<Seq<u8>>,
    idx: usize,
    k: int,
) -> nat
    decreases lines.len() - k,
{
    if k < 0 || k >= lines.len() {
        0
    } else {
        (if spec_classify(lines[k], marker, tokens) == (Classified::ChatCommand { idx }) {
            1nat
        } else {
            0nat
        }) + occ_from(lines, marker, tokens, idx, k + 1)
    }
}

/// How many lines of a whole window vote for catalog entry `idx`.
pub open spec fn occurrences(
    lines: Seq<Seq<u8>>,
    marker: Seq<u8>,
    tokens: Seq<Seq<u8>>,
    idx: usize,
) -> nat {
    occ_from(lines, marker, tokens, idx, 0)
}

/// LAW: replaying a window adds to each entry exactly the number of lines
/// that vote for it — an entry no line votes for is unchanged. Counts stay
/// exact as long as the total fits the counter.
pub proof fn lemma_replay_adds_occurrences(
    counts: Seq<u64>,
    lines: Seq<Seq<u8>>,
    marker: Seq<u8>,
    tokens: Seq<Seq<u8>>,
    idx: usize,
    k: int,
)
    requires
        0 <= k <= lines.len(),
        (idx as int) < counts.len(),
        counts[idx as int] + occ_from(lines, marker, tokens, idx, k) <= u64::MAX,
    ensures
        replay_from(counts, lines, marker, tokens, k).len() == counts.len(),
        replay_from(counts, lines, marker, tokens, k)[idx as int] == counts[idx as int]
            + occ_from(lines, marker, tokens, idx, k),
    decreases lines.len() - k,
{
    if k < lines.len() {
        let c1 = step_counts(counts, lines[k], marker, tokens);
        lemma_replay_adds_occurrences(c1, lines, marker, tokens, idx, k + 1);
    }
}

/// LAW: over a whole window, an entry's count grows by exactly the number
/// of lines that vote for it — so from a fresh board, count equals
/// occurrences, and an entry with no votes keeps its old count.
pub proof fn lemma_window_counts(
    counts: Seq<u64>,
    lines: Seq<Seq<u8>>,
    marker: Seq<u8>,
    tokens: Seq<Seq<u8>>,
    idx: usize,
)
    requires
        (idx as int) < counts.len(),
        counts[idx as int] + occurrences(lines, marker, tokens, idx) <= u64::MAX,
    ensures
        replay(counts, lines, marker, tokens).len() == counts.len(),
        replay(counts, lines, marker, tokens)[idx as int] == counts[idx as int] + occurrences(
            lines,
            marker,
            tokens,
            idx,
        ),
{
    lemma_replay_adds_occurrences(counts, lines, marker, tokens, idx, 0);
}

/// LAW: a probe line draws exactly one reply and leaves the vote board
/// untouched.
pub proof fn lemma_probe_line(
    counts: Seq<u64>,
    line: Seq<u8>,
    marker: Seq<u8>,
    tokens: Seq<Seq<u8>>,
)
    requires
        spec_classify(line, marker, tokens) is KeepAliveProbe,
    ensures
        replay(counts, seq![line], marker, tokens) == counts,
        replies_spec(seq![line], marker, tokens) =~= seq![reply_line()],
{
    assert(replay_from(counts, seq![line], marker, tokens, 1) == counts);
    assert(replies_from(seq![line], marker, tokens, 1) =~= Seq::<Seq<u8>>::empty());
}

/// The session and voting engine for one channel.
pub struct Engine {
    catalog: Catalog,
    tally: VoteTally,
    channel: Vec<u8>,
    prefix: Vec<u8>,
    pass: Vec<u8>,
    nick: Vec<u8>,
    no_cmd_msg: Vec<u8>,
    round_secs: u64,
    cmd_marker: Vec<u8>,
    phase: Phase,
    pending: Option<(usize, u64)>,
}

impl Engine {
    /// The engine's catalog.
    pub closed spec fn catalog_spec(self) -> Catalog {
        self.catalog
    }

    /// The catalog's tokens, in configured order.
    pub closed spec fn tokens(self) -> Seq<Seq<u8>> {
        self.catalog.tokens_view()
    }

    /// The catalog's key identifiers, beside the tokens.
    pub closed spec fn keys(self) -> Seq<Seq<u8>> {
        self.catalog.keys_view()
    }

    /// The vote board's counts, in catalog order.
    pub closed spec fn counts(self) -> Seq<u64> {
        self.tally.counts_view()
    }

    pub closed spec fn channel_view(self) -> Seq<u8> {
        self.channel@
    }

    pub closed spec fn prefix_view(self) -> Seq<u8> {
        self.prefix@
    }

    pub closed spec fn pass_view(self) -> Seq<u8> {
        self.pass@
    }

    pub closed spec fn nick_view(self) -> Seq<u8> {
        self.nick@
    }

    pub closed spec fn no_cmd_view(self) -> Seq<u8> {
        self.no_cmd_msg@
    }

    pub closed spec fn round_secs_spec(self) -> u64 {
        self.round_secs
    }

    /// The precomputed inbound command marker.
    pub closed spec fn marker_view(self) -> Seq<u8> {
        self.cmd_marker@
    }

    /// Where the scheduler stands.
    pub closed spec fn phase_spec(self) -> Phase {
        self.phase
    }

    /// The decided winner (entry index and count) carried from `decide` to
    /// `dispatch_key` and `announce`.
    pub closed spec fn pending_spec(self) -> Option<(usize, u64)> {
        self.pending
    }

    /// The engine's invariant: a well-formed catalog, one count per entry,
    /// the marker derived from channel and prefix, a positive bounded round
    /// duration, and a pending winner that points into the catalog.
    pub open spec fn wf(self) -> bool {
        &&& self.catalog_spec().wf()
        &&& self.counts().len() == self.tokens().len()
        &&& self.marker_view() == cmd_marker_spec(self.channel_view(), self.prefix_view())
        &&& 1 <= self.round_secs_spec() <= MAX_ROUND_SECS
        &&& match self.pending_spec() {
            Some(p) => (p.0 as int) < self.tokens().len(),
            None => true,
        }
    }

    /// The configuration half of the state: everything a round never
    /// changes.
    pub open spec fn same_config(self, other: Engine) -> bool {
        &&& other.tokens() == self.tokens()
        &&& other.keys() == self.keys()
        &&& other.channel_view() == self.channel_view()
        &&& other.prefix_view() == self.prefix_view()
        &&& other.pass_view() == self.pass_view()
        &&& other.nick_view() == self.nick_view()
        &&& other.no_cmd_view() == self.no_cmd_view()
        &&& other.round_secs_spec() == self.round_secs_spec()
        &&& other.marker_view() == self.marker_view()
    }

    /// Build an engine from the typed configuration. The duration is
    /// checked first: it must be a whole-second value between one second
    /// and a day, so the collection sleep (duration minus the drain
    /// margin) is always positive. Then the catalog must be non-empty with
    /// unique tokens.
    pub fn new(
        tokens: Vec<Vec<u8>>,
        keys: Vec<Vec<u8>>,
        channel: Vec<u8>,
        prefix: Vec<u8>,
        pass: Vec<u8>,
        nick: Vec<u8>,
        no_cmd_msg: Vec<u8>,
        round_secs: u64,
    ) -> (r: Result<Engine, ConfigError>)
        requires
            tokens@.len() == keys@.len(),
        ensures
            match r {
                Ok(e) => {
                    &&& e.wf()
                    &&& e.phase_spec() == Phase::AwaitingHandshake
                    &&& e.pending_spec() is None
                    &&& e.tokens() == vecs_view(tokens@)
                    &&& e.keys() == vecs_view(keys@)
                    &&& e.channel_view() == channel@
                    &&& e.prefix_view() == prefix@
                    &&& e.pass_view() == pass@
                    &&& e.nick_view() == nick@
                    &&& e.no_cmd_view() == no_cmd_msg@
                    &&& e.round_secs_spec() == round_secs
                    &&& e.counts() == zero_counts(tokens@.len())
                },
                Err(err) => {
                    &&& (err == ConfigError::BadDuration <==> !(1 <= round_secs
                        <= MAX_ROUND_SECS))
                    &&& (err == ConfigError::EmptyCatalog <==> (1 <= round_secs <= MAX_ROUND_SECS
                        && tokens@.len() == 0))
                    &&& (err == ConfigError::DuplicateToken <==> (1 <= round_secs
                        <= MAX_ROUND_SECS && tokens@.len() > 0 && exists|i: int, j: int|
                        0 <= i < j < tokens@.len() && vecs_view(tokens@)[i] == vecs_view(
                            tokens@,
                        )[j]))
                },
            },
            r is Ok <==> (1 <= round_secs <= MAX_ROUND_SECS && tokens@.len() > 0 && (forall|
                i: int,
                j: int,
            |
                0 <= i < j < tokens@.len() ==> vecs_view(tokens@)[i] != vecs_view(tokens@)[j])),
    {
        if round_secs < 1 || round_secs > MAX_ROUND_SECS {
            return Err(ConfigError::BadDuration);
        }
        let catalog = match Catalog::new(tokens, keys) {
            Ok(c) => c,
            Err(e) => {
                return Err(e);
            },
        };
        let tally = VoteTally::new(&catalog);
        let cmd_marker = build_cmd_marker(channel.as_slice(), prefix.as_slice());
        Ok(
            Engine {
                catalog,
                tally,
                channel,
                prefix,
                pass,
                nick,
                no_cmd_msg,
                round_secs,
                cmd_marker,
                phase: Phase::AwaitingHandshake,
                pending: None,
            },
        )
    }

    /// Where the scheduler stands, for the caller driving the cycle.
    pub fn phase(&self) -> (p: Phase)
        ensures
            p == self.phase_spec(),
    {
        self.phase
    }

    /// How long the caller sleeps while the round collects: the round
    /// duration less the drain margin, in milliseconds.
    pub fn sleep_millis(&self) -> (ms: u64)
        requires
            self.wf(),
        ensures
            ms == self.round_secs_spec() * 1000 - DRAIN_MARGIN_MILLIS,
            ms >= 800,
    {
        self.round_secs * 1000 - DRAIN_MARGIN_MILLIS
    }

    /// The handshake: credential line, identity line, channel-join line,
    /// in exactly that order.
    pub fn handshake_lines(&self) -> (r: Vec<Vec<u8>>)
        ensures
            vecs_view(r@) =~= seq![
                pass_line(self.pass_view()),
                nick_line(self.nick_view()),
                join_line(self.channel_view()),
            ],
    {
        let mut r: Vec<Vec<u8>> = Vec::new();
        r.push(build_pass_line(self.pass.as_slice()));
        r.push(build_nick_line(self.nick.as_slice()));
        r.push(build_join_line(self.channel.as_slice()));
        r
    }

    /// An outbound chat line carrying `text` to the engine's channel.
    pub fn chat_line(&self, text: &[u8]) -> (r: Vec<u8>)
        ensures
            r@ == privmsg_line(self.channel_view(), text@),
    {
        build_privmsg_line(self.channel.as_slice(), text)
    }

    /// The handshake went out: the round opens and every count is reset to
    /// zero — exactly once per round.
    pub fn handshake_done(&mut self)
        requires
            old(self).wf(),
            old(self).phase_spec() == Phase::AwaitingHandshake,
        ensures
            final(self).wf(),
            old(self).same_config(*final(self)),
            final(self).phase_spec() == Phase::CollectingVotes,
            final(self).counts() == zero_counts(old(self).counts().len()),
            final(self).pending_spec() == old(self).pending_spec(),
    {
        self.tally.reset();
        self.phase = Phase::CollectingVotes;
    }

    /// The window closed and the transport was drained: replay the
    /// collected lines against the board and return the liveness replies
    /// owed, one per probe line, in order.
    pub fn collect(&mut self, lines: &Vec<Vec<u8>>) -> (replies: Vec<Vec<u8>>)
        requires
            old(self).wf(),
            old(self).phase_spec() == Phase::CollectingVotes,
        ensures
            final(self).wf(),
            old(self).same_config(*final(self)),
            final(self).phase_spec() == Phase::Deciding,
            final(self).pending_spec() == old(self).pending_spec(),
            final(self).counts() == replay(
                old(self).counts(),
                vecs_view(lines@),
                old(self).marker_view(),
                old(self).tokens(),
            ),
            vecs_view(replies@) == replies_spec(
                vecs_view(lines@),
                old(self).marker_view(),
                old(self).tokens(),
            ),
    {
        let ghost l = vecs_view(lines@);
        let ghost m = self.cmd_marker@;
        let ghost t = self.catalog.tokens_view();
        let ghost counts0 = self.tally.counts_view();
        let mut replies: Vec<Vec<u8>> = Vec::new();
        let n = lines.len();
        let mut k: usize = 0;
        while k < n
            invariant
                n == lines@.len(),
                k <= n,
                l == vecs_view(lines@),
                m == self.cmd_marker@,
                t == self.catalog.tokens_view(),
                counts0 == old(self).counts(),
                self.catalog == old(self).catalog,
                self.channel == old(self).channel,
                self.prefix == old(self).prefix,
                self.pass == old(self).pass,
                self.nick == old(self).nick,
                self.no_cmd_msg == old(self).no_cmd_msg,
                self.round_secs == old(self).round_secs,
                self.cmd_marker == old(self).cmd_marker,
                self.phase == old(self).phase,
                self.pending == old(self).pending,
                old(self).wf(),
                self.tally.counts_view().len() == t.len(),
                replay_from(counts0, l, m, t, 0) == replay_from(
                    self.tally.counts_view(),
                    l,
                    m,
                    t,
                    k as int,
                ),
                replies_spec(l, m, t) == vecs_view(replies@) + replies_from(l, m, t, k as int),
            decreases n - k,
        {
            let ghost replies0 = replies@;
            let ghost counts_k = self.tally.counts_view();
            let c = classify(
                lines[k].as_slice(),
                self.cmd_marker.as_slice(),
                self.catalog.tokens_ref(),
            );
            proof {
                assert(lines[k as int]@ == l[k as int]);
                lemma_classify_idx_in_range(l[k as int], m, t);
            }
            match c {
                Classified::KeepAliveProbe => {
                    let reply = reply_line_bytes();
                    replies.push(reply);
                    proof {
                        crate::bytes::lemma_vecs_view_push(replies0, reply);
                        assert(vecs_view(replies@) + replies_from(l, m, t, k + 1) =~= vecs_view(
                            replies0,
                        ) + replies_from(l, m, t, k as int));
                    }
                },
                Classified::ChatCommand { idx } => {
                    self.tally.record_idx(idx);
                    assert(self.tally.counts_view() == step_counts(counts_k, l[k as int], m, t));
                },
                Classified::Other => {
                    assert(self.tally.counts_view() == step_counts(counts_k, l[k as int], m, t));
                },
            }
            k += 1;
        }
        self.phase = Phase::Deciding;
        replies
    }

    /// Select the round's winner: `None` exactly when every count is zero,
    /// else the first-configured entry with the greatest count, with its
    /// count. The choice is carried for dispatch and announcement.
    pub fn decide(&mut self) -> (r: Option<(Vec<u8>, u64)>)
        requires
            old(self).wf(),
            old(self).phase_spec() == Phase::Deciding,
        ensures
            final(self).wf(),
            old(self).same_config(*final(self)),
            final(self).phase_spec() == Phase::Dispatching,
            final(self).counts() == old(self).counts(),
            r is None <==> (forall|i: int|
                0 <= i < old(self).counts().len() ==> old(self).counts()[i] == 0),
            r is None <==> final(self).pending_spec() is None,
            r matches Some((tok, c)) ==> (final(self).pending_spec() matches Some((i, c2))
                && winner_at(old(self).counts(), i as int) && c2 == c
                && c == old(self).counts()[i as int]
                && tok@ == old(self).tokens()[i as int]),
    {
        let r = self.tally.winner_idx();
        self.phase = Phase::Dispatching;
        match r {
            None => {
                self.pending = None;
                None
            },
            Some((i, c)) => {
                self.pending = Some((i, c));
                Some((self.catalog.token_at(i), c))
            },
        }
    }

    /// The key identifier to press for the decided winner, or `None` when
    /// no command was voted — then nothing is dispatched.
    pub fn dispatch_key(&mut self) -> (k: Option<Vec<u8>>)
        requires
            old(self).wf(),
            old(self).phase_spec() == Phase::Dispatching,
        ensures
            final(self).wf(),
            old(self).same_config(*final(self)),
            final(self).phase_spec() == Phase::Announcing,
            final(self).counts() == old(self).counts(),
            final(self).pending_spec() == old(self).pending_spec(),
            match old(self).pending_spec() {
                Some(p) => k matches Some(key) && key@ == old(self).keys()[p.0 as int],
                None => k is None,
            },
    {
        self.phase = Phase::Announcing;
        match self.pending {
            Some((i, _c)) => Some(self.catalog.key_at(i)),
            None => None,
        }
    }

    /// The round's status line: `selected: <token>` for a winner, else the
    /// configured no-command message, as an outbound chat line. The cycle
    /// returns to `AwaitingHandshake` for the next round's fresh handshake.
    pub fn announce(&mut self) -> (line: Vec<u8>)
        requires
            old(self).wf(),
            old(self).phase_spec() == Phase::Announcing,
        ensures
            final(self).wf(),
            old(self).same_config(*final(self)),
            final(self).phase_spec() == Phase::AwaitingHandshake,
            final(self).counts() == old(self).counts(),
            final(self).pending_spec() is None,
            line@ == privmsg_line(
                old(self).channel_view(),
                match old(self).pending_spec() {
                    Some(p) => selected_text(old(self).tokens()[p.0 as int]),
                    None => old(self).no_cmd_view(),
                },
            ),
    {
        let text: Vec<u8> = match self.pending {
            Some((i, _c)) => {
                let tok = self.catalog.token_at(i);
                build_selected_text(tok.as_slice())
            },
            None => copy_bytes(self.no_cmd_msg.as_slice()),
        };
        self.pending = None;
        self.phase = Phase::AwaitingHandshake;
        build_privmsg_line(self.channel.as_slice(), text.as_slice())
    }
}

} // verus!
