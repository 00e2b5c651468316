//! The command catalog and the per-round vote board.
//!
//! The catalog maps command tokens to abstract key identifiers; it is fixed
//! after construction, its tokens are unique and it is never empty. The vote
//! board keeps one count per catalog entry, in configured order. The winner
//! is the entry with the strictly greatest count; on a tie the
//! first-configured entry wins (the documented deterministic tie-break).

use vstd::prelude::*;
use crate::bytes::{bytes_eq, copy_bytes, vecs_view};

verus! {

/// Why a configuration is rejected.
#[derive(PartialEq, Eq, Structural, Clone, Copy, Debug)]
pub enum ConfigError {
    /// The command catalog is empty.
    EmptyCatalog,
    /// Two catalog entries share a token.
    DuplicateToken,
    /// The round duration is zero or over the supported bound.
    BadDuration,
}

/// The command catalog: one token and one abstract key identifier per
/// entry, in configured order.
pub struct Catalog {
    tokens: Vec<Vec<u8>>,
    keys: Vec<Vec<u8>>,
}

/// Index of the first entry of `ts` at or after `k` that equals `t`.
pub open spec fn idx_of_from(ts: Seq<Seq<u8>>, t: Seq<u8>, k: int) -> Option<int>
    decreases ts.len() - k,
{
    if k < 0 || k >= ts.len() {
        None
    } else if ts[k] == t {
        Some(k)
    } else {
        idx_of_from(ts, t, k + 1)
    }
}

/// Index of the first entry of `ts` that equals `t`.
pub open spec fn idx_of(ts: Seq<Seq<u8>>, t: Seq<u8>) -> Option<int> {
    idx_of_from(ts, t, 0)
}

impl Catalog {
    /// The tokens, in configured order.
    pub closed spec fn tokens_view(self) -> Seq<Seq<u8>> {
        vecs_view(self.tokens@)
    }

    /// The key identifiers, entry by entry beside the tokens.
    pub closed spec fn keys_view(self) -> Seq<Seq<u8>> {
        vecs_view(self.keys@)
    }

    /// Number of catalog entries.
    pub open spec fn len_spec(self) -> nat {
        self.tokens_view().len()
    }

    /// A catalog holds at least one entry, one key per token, and no token
    /// twice.
    pub open spec fn wf(self) -> bool {
        &&& self.tokens_view().len() == self.keys_view().len()
        &&& self.tokens_view().len() > 0
        &&& forall|i: int, j: int|
            0 <= i < j < self.tokens_view().len() ==> self.tokens_view()[i] != self.tokens_view()[j]
    }

    /// Build a catalog from parallel token and key lists. Rejects an empty
    /// mapping and a repeated token; accepts everything else.
    pub fn new(tokens: Vec<Vec<u8>>, keys: Vec<Vec<u8>>) -> (r: Result<Catalog, ConfigError>)
        requires
            tokens@.len() == keys@.len(),
        ensures
            match r {
                Ok(c) => c.wf() && c.tokens_view() == vecs_view(tokens@)
                    && c.keys_view() == vecs_view(keys@),
                Err(e) => {
                    &&& (e == ConfigError::EmptyCatalog <==> tokens@.len() == 0)
                    &&& (e == ConfigError::DuplicateToken <==> (tokens@.len() > 0
                        && exists|i: int, j: int|
                        0 <= i < j < tokens@.len()
                            && vecs_view(tokens@)[i] == vecs_view(tokens@)[j]))
                    &&& (e == ConfigError::EmptyCatalog || e == ConfigError::DuplicateToken)
                },
            },
            r is Ok <==> (tokens@.len() > 0 && (forall|i: int, j: int|
                0 <= i < j < tokens@.len()
                    ==> vecs_view(tokens@)[i] != vecs_view(tokens@)[j])),
    {
        if tokens.len() == 0 {
            return Err(ConfigError::EmptyCatalog);
        }
        let n = tokens.len();
        let mut i: usize = 0;
        while i < n
            invariant
                n == tokens@.len(),
                i <= n,
                forall|a: int, b: int|
                    0 <= a < i && a < b < n ==> vecs_view(tokens@)[a] != vecs_view(tokens@)[b],
            decreases n - i,
        {
            let mut j: usize = i + 1;
            while j < n
                invariant
                    n == tokens@.len(),
                    i < n,
                    i < j <= n,
                    forall|b: int| i < b < j ==> vecs_view(tokens@)[i as int] != vecs_view(tokens@)[b],
                decreases n - j,
            {
                if bytes_eq(tokens[i].as_slice(), tokens[j].as_slice()) {
                    assert(vecs_view(tokens@)[i as int] == vecs_view(tokens@)[j as int]);
                    return Err(ConfigError::DuplicateToken);
                }
                j += 1;
            }
            i += 1;
        }
        Ok(Catalog { tokens, keys })
    }

    /// The token list, for classification.
    pub fn tokens_ref(&self) -> (r: &Vec<Vec<u8>>)
        ensures
            vecs_view(r@) == self.tokens_view(),
    {
        &self.tokens
    }

    /// A copy of the token at `i`.
    pub fn token_at(&self, i: usize) -> (r: Vec<u8>)
        requires
            i < self.len_spec(),
        ensures
            r@ == self.tokens_view()[i as int],
    {
        copy_bytes(self.tokens[i].as_slice())
    }

    /// A copy of the key identifier at `i`.
    pub fn key_at(&self, i: usize) -> (r: Vec<u8>)
        requires
            self.wf(),
            i < self.len_spec(),
        ensures
            r@ == self.keys_view()[i as int],
    {
        copy_bytes(self.keys[i].as_slice())
    }

    /// Number of catalog entries.
    pub fn len(&self) -> (n: usize)
        ensures
            n == self.len_spec(),
    {
        self.tokens.len()
    }
}

/// `n` counts, all zero: a vote board at round start.
pub open spec fn zero_counts(n: nat) -> Seq<u64> {
    Seq::new(n, |i: int| 0u64)
}

/// One more vote, saturating at the counter's bound.
pub open spec fn bump(c: u64) -> u64 {
    if c < u64::MAX {
        (c + 1) as u64
    } else {
        c
    }
}

/// The counts after one vote for `t`: the first catalog entry holding `t`
/// is bumped; a token outside the catalog changes nothing.
pub open spec fn record_spec(counts: Seq<u64>, tokens: Seq<Seq<u8>>, t: Seq<u8>) -> Seq<u64> {
    match idx_of(tokens, t) {
        Some(i) => if 0 <= i < counts.len() {
            counts.update(i, bump(counts[i]))
        } else {
            counts
        },
        None => counts,
    }
}

/// Entry `i` wins: its count is positive, no count is greater, and every
/// earlier entry's count is strictly smaller (first-configured tie-break).
pub open spec fn winner_at(counts: Seq<u64>, i: int) -> bool {
    &&& 0 <= i < counts.len()
    &&& counts[i] > 0
    &&& forall|j: int| 0 <= j < counts.len() ==> counts[j] <= counts[i]
    &&& forall|j: int| 0 <= j < i ==> counts[j] < counts[i]
}

/// LAW: the winner is unique — two winning indices are the same index.
pub proof fn lemma_winner_at_unique(counts: Seq<u64>, i: int, j: int)
    requires
        winner_at(counts, i),
        winner_at(counts, j),
    ensures
        i == j,
{
}

/// Per-command vote counts for the active round, entry by entry beside the
/// catalog's tokens.
pub struct VoteTally {
    counts: Vec<u64>,
}

impl VoteTally {
    /// The counts, in catalog order.
    pub closed spec fn counts_view(self) -> Seq<u64> {
        self.counts@
    }

    /// A fresh board: every catalog entry at zero.
    pub fn new(cat: &Catalog) -> (t: VoteTally)
        ensures
            t.counts_view() == zero_counts(cat.len_spec()),
    {
        let n = cat.len();
        let mut counts: Vec<u64> = Vec::new();
        let mut k: usize = 0;
        while k < n
            invariant
                k <= n,
                counts@ == zero_counts(k as nat),
            decreases n - k,
        {
            counts.push(0);
            assert(counts@ =~= zero_counts((k + 1) as nat));
            k += 1;
        }
        VoteTally { counts }
    }

    /// Zero every entry; the key set (the board's length) is untouched.
    pub fn reset(&mut self)
        ensures
            final(self).counts_view() == zero_counts(old(self).counts_view().len()),
    {
        let n = self.counts.len();
        let mut k: usize = 0;
        while k < n
            invariant
                k <= n,
                n == self.counts@.len(),
                forall|j: int| 0 <= j < k ==> self.counts@[j] == 0,
            decreases n - k,
        {
            self.counts[k] = 0;
            k += 1;
        }
        assert(self.counts@ =~= zero_counts(self.counts@.len()));
    }

    /// One vote for `token`: the matching catalog entry is bumped; a token
    /// outside the catalog is a no-op.
    pub fn record(&mut self, token: &[u8], cat: &Catalog)
        requires
            old(self).counts_view().len() == cat.len_spec(),
        ensures
            final(self).counts_view()
                == record_spec(old(self).counts_view(), cat.tokens_view(), token@),
    {
        let n = cat.len();
        let mut k: usize = 0;
        while k < n
            invariant
                k <= n,
                n == cat.len_spec(),
                self.counts@.len() == cat.len_spec(),
                self.counts@ == old(self).counts_view(),
                idx_of(cat.tokens_view(), token@)
                    == idx_of_from(cat.tokens_view(), token@, k as int),
            decreases n - k,
        {
            if bytes_eq(token, cat.tokens[k].as_slice()) {
                self.record_idx(k);
                return;
            }
            k += 1;
        }
    }

    /// One vote for the catalog entry at `idx`.
    pub fn record_idx(&mut self, idx: usize)
        requires
            idx < old(self).counts_view().len(),
        ensures
            final(self).counts_view()
                == old(self).counts_view().update(idx as int, bump(old(self).counts_view()[idx as int])),
    {
        let c = self.counts[idx];
        if c < u64::MAX {
            self.counts[idx] = c + 1;
        }
        assert(self.counts@ =~= old(self).counts@.update(
            idx as int,
            bump(old(self).counts@[idx as int]),
        ));
    }

    /// The winning entry's index and count: `None` exactly when every count
    /// is zero, else the first entry with the greatest count.
    pub fn winner_idx(&self) -> (r: Option<(usize, u64)>)
        ensures
            r is None <==> (forall|i: int|
                0 <= i < self.counts_view().len() ==> self.counts_view()[i] == 0),
            r matches Some((i, c)) ==> winner_at(self.counts_view(), i as int)
                && c == self.counts_view()[i as int],
    {
        let n = self.counts.len();
        if n == 0 {
            return None;
        }
        let mut best: usize = 0;
        let mut k: usize = 1;
        while k < n
            invariant
                n == self.counts@.len(),
                best < k <= n,
                forall|j: int| 0 <= j < k ==> self.counts@[j] <= self.counts@[best as int],
                forall|j: int| 0 <= j < best ==> self.counts@[j] < self.counts@[best as int],
            decreases n - k,
        {
            if self.counts[k] > self.counts[best] {
                best = k;
            }
            k += 1;
        }
        let top = self.counts[best];
        if top == 0 {
            return None;
        }
        assert(!(forall|i: int|
            0 <= i < self.counts_view().len() ==> self.counts_view()[i] == 0)) by {
            assert(self.counts_view()[best as int] != 0);
        }
        Some((best, top))
    }

    /// Number of board entries.
    pub fn len(&self) -> (n: usize)
        ensures
            n == self.counts_view().len(),
    {
        self.counts.len()
    }

    /// The count at `i`.
    pub fn count_at(&self, i: usize) -> (c: u64)
        requires
            i < self.counts_view().len(),
        ensures
            c == self.counts_view()[i as int],
    {
        self.counts[i]
    }
}

/// The count the board holds for token `t` (zero off the catalog).
pub open spec fn count_of(tokens: Seq<Seq<u8>>, counts: Seq<u64>, t: Seq<u8>) -> u64 {
    match idx_of(tokens, t) {
        Some(i) => if 0 <= i < counts.len() {
            counts[i]
        } else {
            0
        },
        None => 0,
    }
}

/// The vote board as a mapping from token to count.
pub open spec fn board(tokens: Seq<Seq<u8>>, counts: Seq<u64>) -> Map<Seq<u8>, u64> {
    Map::new(|t: Seq<u8>| tokens.contains(t), |t: Seq<u8>| count_of(tokens, counts, t))
}

/// LAW: the board's key set equals the catalog's key set — whatever the
/// counts, so in particular right after a reset.
pub proof fn lemma_board_keys_match_catalog(tokens: Seq<Seq<u8>>, counts: Seq<u64>)
    ensures
        board(tokens, counts).dom() =~= tokens.to_set(),
{
}

/// LAW: a reset is idempotent — a second reset with no recording between
/// leaves the board exactly where the first left it, all entries zero.
pub proof fn lemma_reset_idempotent(n: nat)
    ensures
        zero_counts(n).len() == n,
        forall|i: int| 0 <= i < n ==> zero_counts(n)[i] == 0,
        zero_counts(zero_counts(n).len()) == zero_counts(n),
{
}

} // verus!
