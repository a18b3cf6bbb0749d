//! Deterministic pseudo-random selection of one candidate among many.
//!
//! This is deterministic pseudo-randomness, not cryptographic randomness:
//! anyone who knows the inputs can compute the outcome. The selection is
//! scoring-based rather than `hash % n`:
//!
//! ```text
//! 1. seed_hash = SHA256(domain || context || external_seed)
//! 2. score_i   = SHA256(seed_hash || candidate_i)
//! 3. the winner is the candidate with the highest score
//! ```
//!
//! where `domain`, `external_seed`, `seed_hash` and the candidates enter by
//! their XDR encodings, and scores are compared as byte strings. On equal
//! scores the earliest candidate wins.

use crate::address::{encodings, EncodedAddress};
use crate::host::{
    be32, bytes32_xdr, encode_bytes32, encode_symbol, is_symbol_text, sha256, sha256_digest,
    symbol_xdr, xdr_padding,
};
use vstd::prelude::*;

verus! {

/// Result of a deterministic selection: the winner's index, and the hashes
/// that decided it, for audit and replay.
#[derive(Clone, Copy, Debug, PartialEq, Eq)]
pub struct DeterministicSelection {
    /// Index of the winning candidate in the input.
    pub index: u32,
    /// SHA256(domain || context || external_seed).
    pub seed_hash: [u8; 32],
    /// SHA256(seed_hash || winner), the highest score.
    pub winner_score: [u8; 32],
}

/// How one byte string compares with another.
#[derive(Clone, Copy, Debug, PartialEq, Eq, Structural)]
pub enum ByteOrder {
    Less,
    Equal,
    Greater,
}

/// Lexicographic order of byte strings, a proper prefix coming first.
pub open spec fn lex_order(a: Seq<u8>, b: Seq<u8>) -> ByteOrder
    decreases a.len(),
{
    if a.len() == 0 || b.len() == 0 {
        if a.len() < b.len() {
            ByteOrder::Less
        } else if a.len() > b.len() {
            ByteOrder::Greater
        } else {
            ByteOrder::Equal
        }
    } else if a[0] < b[0] {
        ByteOrder::Less
    } else if a[0] > b[0] {
        ByteOrder::Greater
    } else {
        lex_order(a.drop_first(), b.drop_first())
    }
}

/// Score `a` ranks strictly above score `b`.
pub open spec fn outranks(a: Seq<u8>, b: Seq<u8>) -> bool {
    lex_order(a, b) is Greater
}

/// SHA256(domain || context || external_seed), each by its encoding.
pub open spec fn seed_hash_of(domain: Seq<char>, context: Seq<u8>, external_seed: Seq<u8>) -> Seq<
    u8,
> {
    sha256_digest(symbol_xdr(domain) + context + bytes32_xdr(external_seed))
}

/// SHA256(seed_hash || candidate), each by its encoding.
pub open spec fn candidate_score(seed_hash: Seq<u8>, candidate: Seq<u8>) -> Seq<u8> {
    sha256_digest(bytes32_xdr(seed_hash) + candidate)
}

/// The score of every candidate.
pub open spec fn scores_of(seed_hash: Seq<u8>, candidates: Seq<Seq<u8>>) -> Seq<Seq<u8>> {
    candidates.map_values(|c: Seq<u8>| candidate_score(seed_hash, c))
}

/// The index that a scan of the first `n` scores keeps: a later score
/// replaces the kept one only when it ranks strictly above it.
pub open spec fn best_index(scores: Seq<Seq<u8>>, n: nat) -> nat
    decreases n,
{
    if n <= 1 {
        0
    } else {
        let b = best_index(scores, (n - 1) as nat);
        if outranks(scores[n - 1], scores[b as int]) {
            (n - 1) as nat
        } else {
            b
        }
    }
}

/// What a selection among `candidates` (by their encodings) gives.
pub open spec fn selection_of(
    domain: Seq<char>,
    context: Seq<u8>,
    external_seed: Seq<u8>,
    candidates: Seq<Seq<u8>>,
) -> Option<(nat, Seq<u8>, Seq<u8>)> {
    if candidates.len() == 0 {
        None
    } else {
        let seed_hash = seed_hash_of(domain, context, external_seed);
        let scores = scores_of(seed_hash, candidates);
        let best = best_index(scores, candidates.len());
        Some((best, seed_hash, scores[best as int]))
    }
}

/// A selection result as the triple (index, seed hash, winner score).
pub open spec fn selection_view(s: Option<DeterministicSelection>) -> Option<
    (nat, Seq<u8>, Seq<u8>),
> {
    match s {
        None => None,
        Some(sel) => Some((sel.index as nat, sel.seed_hash@, sel.winner_score@)),
    }
}

proof fn lemma_lex_prefix(p: Seq<u8>, a: Seq<u8>, b: Seq<u8>)
    ensures
        lex_order(p + a, p + b) == lex_order(a, b),
    decreases p.len(),
{
    if p.len() > 0 {
        assert((p + a).drop_first() =~= p.drop_first() + a);
        assert((p + b).drop_first() =~= p.drop_first() + b);
        lemma_lex_prefix(p.drop_first(), a, b);
    } else {
        assert(p + a =~= a);
        assert(p + b =~= b);
    }
}

/// `lex_order` is antisymmetric, and `Equal` only for equal strings.
pub proof fn lemma_lex_flip(a: Seq<u8>, b: Seq<u8>)
    ensures
        lex_order(a, b) is Less <==> lex_order(b, a) is Greater,
        lex_order(a, b) is Equal <==> a == b,
    decreases a.len(),
{
    if a.len() > 0 && b.len() > 0 && a[0] == b[0] {
        lemma_lex_flip(a.drop_first(), b.drop_first());
        if a.drop_first() == b.drop_first() {
            assert(a =~= seq![a[0]] + a.drop_first());
            assert(b =~= seq![b[0]] + b.drop_first());
        }
    }
    if a.len() == 0 && b.len() == 0 {
        assert(a =~= b);
    }
}

/// `lex_order` ranks transitively.
pub proof fn lemma_lex_transitive(a: Seq<u8>, b: Seq<u8>, c: Seq<u8>)
    requires
        lex_order(a, b) is Greater,
        lex_order(b, c) is Greater,
    ensures
        lex_order(a, c) is Greater,
    decreases a.len(),
{
    if a.len() > 0 && b.len() > 0 && c.len() > 0 && a[0] == b[0] && b[0] == c[0] {
        lemma_lex_transitive(a.drop_first(), b.drop_first(), c.drop_first());
    }
}

/// Of two strings, one ranks above the other or they are equal.
pub proof fn lemma_lex_total(a: Seq<u8>, b: Seq<u8>)
    ensures
        lex_order(a, b) is Greater || lex_order(b, a) is Greater || a == b,
{
    lemma_lex_flip(a, b);
}

/// The kept index is the first of the highest-ranked scores: no score
/// ranks above it, and it ranks strictly above every earlier score.
pub proof fn lemma_best_index_is_first_maximum(scores: Seq<Seq<u8>>, n: nat)
    requires
        1 <= n <= scores.len(),
    ensures
        best_index(scores, n) < n,
        forall|j: int| 0 <= j < n ==> !outranks(#[trigger] scores[j], scores[best_index(scores, n) as int]),
        forall|j: int|
            0 <= j < best_index(scores, n) ==> outranks(
                scores[best_index(scores, n) as int],
                #[trigger] scores[j],
            ),
    decreases n,
{
    if n > 1 {
        let b = best_index(scores, (n - 1) as nat);
        lemma_best_index_is_first_maximum(scores, (n - 1) as nat);
        let last = scores[n - 1];
        if outranks(last, scores[b as int]) {
            assert forall|j: int| 0 <= j < n - 1 implies outranks(last, #[trigger] scores[j]) by {
                lemma_lex_total(scores[j], scores[b as int]);
                if lex_order(scores[b as int], scores[j]) is Greater {
                    lemma_lex_transitive(last, scores[b as int], scores[j]);
                }
            }
            assert forall|j: int| 0 <= j < n implies !outranks(
                #[trigger] scores[j],
                scores[n - 1],
            ) by {
                lemma_lex_flip(scores[j], last);
                lemma_lex_flip(last, scores[j]);
            }
        } else {
            assert(!outranks(scores[n - 1], scores[b as int]));
        }
    } else {
        lemma_lex_flip(scores[0], scores[0]);
    }
}

/// Order does not decide the winner: two candidate lists holding the same
/// addresses pick the same address, provided different addresses score
/// differently.
pub proof fn lemma_selection_order_independent(
    seed_hash: Seq<u8>,
    a: Seq<Seq<u8>>,
    b: Seq<Seq<u8>>,
)
    requires
        a.len() > 0,
        b.len() > 0,
        forall|x: Seq<u8>| a.contains(x) <==> b.contains(x),
        forall|x: Seq<u8>, y: Seq<u8>|
            a.contains(x) && a.contains(y) && x != y ==> candidate_score(seed_hash, x)
                != candidate_score(seed_hash, y),
    ensures
        a[best_index(scores_of(seed_hash, a), a.len()) as int] == b[best_index(
            scores_of(seed_hash, b),
            b.len(),
        ) as int],
{
    let ia = best_index(scores_of(seed_hash, a), a.len());
    lemma_best_index_is_first_maximum(scores_of(seed_hash, a), a.len());
    assert(a.contains(a[ia as int]));
    lemma_selection_order_independent_without_top_tie(seed_hash, a, b);
}

/// Order does not decide the winner: two candidate lists holding the same
/// addresses pick the same address, provided no other candidate ties the
/// winner's top score.
pub proof fn lemma_selection_order_independent_without_top_tie(
    seed_hash: Seq<u8>,
    a: Seq<Seq<u8>>,
    b: Seq<Seq<u8>>,
)
    requires
        a.len() > 0,
        b.len() > 0,
        forall|x: Seq<u8>| a.contains(x) <==> b.contains(x),
        forall|x: Seq<u8>|
            a.contains(x) && x != a[best_index(scores_of(seed_hash, a), a.len()) as int]
                ==> candidate_score(seed_hash, x) != candidate_score(
                seed_hash,
                a[best_index(scores_of(seed_hash, a), a.len()) as int],
            ),
    ensures
        a[best_index(scores_of(seed_hash, a), a.len()) as int] == b[best_index(
            scores_of(seed_hash, b),
            b.len(),
        ) as int],
        scores_of(seed_hash, a)[best_index(scores_of(seed_hash, a), a.len()) as int]
            == scores_of(seed_hash, b)[best_index(scores_of(seed_hash, b), b.len()) as int],
{
    let sa = scores_of(seed_hash, a);
    let sb = scores_of(seed_hash, b);
    let ia = best_index(sa, a.len());
    let ib = best_index(sb, b.len());
    lemma_best_index_is_first_maximum(sa, a.len());
    lemma_best_index_is_first_maximum(sb, b.len());
    let wa = a[ia as int];
    let wb = b[ib as int];
    assert(a.contains(wa));
    assert(b.contains(wb));
    let ka = choose|k: int| 0 <= k < b.len() && b[k] == wa;
    let kb = choose|k: int| 0 <= k < a.len() && a[k] == wb;
    assert(sb[ka] == candidate_score(seed_hash, wa));
    assert(sa[kb] == candidate_score(seed_hash, wb));
    assert(!outranks(sa[kb], sa[ia as int]));
    assert(!outranks(sb[ka], sb[ib as int]));
    lemma_lex_total(candidate_score(seed_hash, wa), candidate_score(seed_hash, wb));
}

/// `a` comes after `b` byte by byte: at the first position where they
/// differ `a` holds the larger byte, or `b` is a proper prefix of `a`.
pub open spec fn bytes_above(a: Seq<u8>, b: Seq<u8>) -> bool {
    (exists|k: int|
        0 <= k < a.len() && k < b.len() && #[trigger] a[k] > b[k] && forall|j: int|
            0 <= j < k ==> a[j] == b[j]) || (b.len() < a.len() && forall|j: int|
        0 <= j < b.len() ==> a[j] == b[j])
}

/// The hash of the seed: SHA-256 over the domain symbol's encoding, the
/// context, and the seed's `BytesN<32>` encoding (tag 13, length 32, all
/// 32 seed bytes).
pub open spec fn seed_hash_law(domain: Seq<char>, context: Seq<u8>, external_seed: Seq<u8>) -> Seq<
    u8,
> {
    sha256_digest(symbol_xdr(domain) + context + (be32(13) + be32(32) + external_seed))
}

/// The score of a candidate: SHA-256 over the seed hash's `BytesN<32>`
/// encoding followed by the candidate's encoding.
pub open spec fn score_law(seed_hash: Seq<u8>, candidate: Seq<u8>) -> Seq<u8> {
    sha256_digest(be32(13) + be32(32) + seed_hash + candidate)
}

/// Scores rank by the byte-wise order: `outranks` is `bytes_above`.
pub proof fn lemma_outranks_is_bytes_above(a: Seq<u8>, b: Seq<u8>)
    ensures
        outranks(a, b) <==> bytes_above(a, b),
    decreases a.len(),
{
    if a.len() == 0 {
        assert(!bytes_above(a, b));
    } else if b.len() == 0 {
        assert(bytes_above(a, b));
    } else if a[0] > b[0] {
        assert(bytes_above(a, b)) by {
            assert(0 < a.len() && 0 < b.len() && a[0] > b[0]);
        }
    } else if a[0] < b[0] {
        if bytes_above(a, b) {
            if exists|k: int|
                0 <= k < a.len() && k < b.len() && #[trigger] a[k] > b[k] && forall|j: int|
                    0 <= j < k ==> a[j] == b[j] {
                let k = choose|k: int|
                    0 <= k < a.len() && k < b.len() && #[trigger] a[k] > b[k] && forall|j: int|
                        0 <= j < k ==> a[j] == b[j];
                if k > 0 {
                    assert(a[0] == b[0]);
                }
            } else {
                assert(a[0] == b[0]);
            }
        }
    } else {
        let a1 = a.drop_first();
        let b1 = b.drop_first();
        lemma_outranks_is_bytes_above(a1, b1);
        if bytes_above(a1, b1) {
            if exists|k: int|
                0 <= k < a1.len() && k < b1.len() && #[trigger] a1[k] > b1[k] && forall|j: int|
                    0 <= j < k ==> a1[j] == b1[j] {
                let k = choose|k: int|
                    0 <= k < a1.len() && k < b1.len() && #[trigger] a1[k] > b1[k] && forall|j: int|
                        0 <= j < k ==> a1[j] == b1[j];
                assert(a[k + 1] > b[k + 1]);
                assert forall|j: int| 0 <= j < k + 1 implies a[j] == b[j] by {
                    if j > 0 {
                        assert(a1[j - 1] == b1[j - 1]);
                    }
                }
            } else {
                assert forall|j: int| 0 <= j < b.len() implies a[j] == b[j] by {
                    if j > 0 {
                        assert(a1[j - 1] == b1[j - 1]);
                    }
                }
            }
        }
        if bytes_above(a, b) {
            if exists|k: int|
                0 <= k < a.len() && k < b.len() && #[trigger] a[k] > b[k] && forall|j: int|
                    0 <= j < k ==> a[j] == b[j] {
                let k = choose|k: int|
                    0 <= k < a.len() && k < b.len() && #[trigger] a[k] > b[k] && forall|j: int|
                        0 <= j < k ==> a[j] == b[j];
                assert(k > 0);
                assert(a1[k - 1] > b1[k - 1]);
                assert forall|j: int| 0 <= j < k - 1 implies a1[j] == b1[j] by {
                    assert(a[j + 1] == b[j + 1]);
                }
                assert(bytes_above(a1, b1));
            } else {
                assert forall|j: int| 0 <= j < b1.len() implies a1[j] == b1[j] by {
                    assert(a[j + 1] == b[j + 1]);
                }
                assert(bytes_above(a1, b1));
            }
        }
    }
}

/// What a selection is, stated over the whole candidate list: `None`
/// exactly when there are no candidates; otherwise the seed hash is the
/// digest of the domain, context and all 32 seed bytes, the winner's score
/// is its digest, no candidate's score is above it, and it is above every
/// earlier candidate's score.
pub proof fn lemma_selection_picks_top_score(
    domain: Seq<char>,
    context: Seq<u8>,
    external_seed: Seq<u8>,
    candidates: Seq<Seq<u8>>,
)
    ensures
        selection_of(domain, context, external_seed, candidates) is None <==> candidates.len()
            == 0,
        selection_of(domain, context, external_seed, candidates) matches Some((i, sh, ws)) ==> {
            &&& i < candidates.len()
            &&& sh == seed_hash_law(domain, context, external_seed)
            &&& ws == score_law(sh, candidates[i as int])
            &&& forall|j: int|
                0 <= j < candidates.len() ==> !bytes_above(
                    #[trigger] score_law(sh, candidates[j]),
                    ws,
                )
            &&& forall|j: int|
                0 <= j < i ==> bytes_above(ws, #[trigger] score_law(sh, candidates[j]))
        },
{
    if candidates.len() > 0 {
        let sh = seed_hash_of(domain, context, external_seed);
        let scores = scores_of(sh, candidates);
        let n = candidates.len();
        lemma_best_index_is_first_maximum(scores, n);
        let i = best_index(scores, n);
        assert forall|j: int| 0 <= j < n implies !bytes_above(
            #[trigger] score_law(sh, candidates[j]),
            scores[i as int],
        ) by {
            assert(scores[j] == score_law(sh, candidates[j]));
            lemma_outranks_is_bytes_above(scores[j], scores[i as int]);
        }
        assert forall|j: int| 0 <= j < i implies bytes_above(
            scores[i as int],
            #[trigger] score_law(sh, candidates[j]),
        ) by {
            assert(scores[j] == score_law(sh, candidates[j]));
            lemma_outranks_is_bytes_above(scores[i as int], scores[j]);
        }
    }
}

/// The kept index of the first `n` scores depends on those scores alone.
proof fn lemma_best_index_prefix(s1: Seq<Seq<u8>>, s2: Seq<Seq<u8>>, n: nat)
    requires
        n <= s1.len(),
        n <= s2.len(),
        forall|i: int| 0 <= i < n ==> s1[i] == s2[i],
    ensures
        best_index(s1, n) == best_index(s2, n),
    decreases n,
{
    if n > 1 {
        lemma_best_index_prefix(s1, s2, (n - 1) as nat);
        lemma_best_index_is_first_maximum(s1, (n - 1) as nat);
    }
}

/// Adding one candidate at the end either keeps the winner or makes the
/// newcomer win.
pub proof fn lemma_appended_candidate_keeps_or_wins(
    seed_hash: Seq<u8>,
    candidates: Seq<Seq<u8>>,
    newcomer: Seq<u8>,
)
    requires
        candidates.len() > 0,
    ensures
        ({
            let grown = candidates.push(newcomer);
            let winner = grown[best_index(scores_of(seed_hash, grown), grown.len()) as int];
            winner == candidates[best_index(scores_of(seed_hash, candidates), candidates.len())
                as int] || winner == newcomer
        }),
{
    let grown = candidates.push(newcomer);
    let s1 = scores_of(seed_hash, candidates);
    let s2 = scores_of(seed_hash, grown);
    let n = candidates.len();
    assert forall|i: int| 0 <= i < n implies s1[i] == s2[i] by {
        assert(grown[i] == candidates[i]);
    }
    lemma_best_index_prefix(s1, s2, n);
    lemma_best_index_is_first_maximum(s1, n);
    assert(grown[n as int] == newcomer);
}

fn append_bytes(dst: &mut Vec<u8>, src: &[u8])
    ensures
        final(dst)@ == old(dst)@ + src@,
{
    let n = src.len();
    let mut i: usize = 0;
    while i < n
        invariant
            n == src@.len(),
            i <= n,
            dst@ == old(dst)@ + src@.subrange(0, i as int),
        decreases n - i,
    {
        dst.push(src[i]);
        i = i + 1;
        assert(dst@ =~= old(dst)@ + src@.subrange(0, i as int));
    }
    assert(src@.subrange(0, n as int) =~= src@);
}

/// Compare two hashes through their XDR encodings, byte by byte.
///
/// The encodings share their first eight bytes, so this is the byte-wise
/// order of the hashes themselves.
pub fn compare_hashes(env: &soroban_sdk::Env, a: &[u8; 32], b: &[u8; 32]) -> (o: ByteOrder)
    ensures
        o == lex_order(a@, b@),
        o is Greater <==> bytes_above(a@, b@),
        o is Less <==> bytes_above(b@, a@),
        o is Equal <==> a@ == b@,
{
    proof {
        lemma_outranks_is_bytes_above(a@, b@);
        lemma_outranks_is_bytes_above(b@, a@);
        lemma_lex_flip(a@, b@);
    }
    let ax = encode_bytes32(env, a);
    let bx = encode_bytes32(env, b);
    proof {
        lemma_lex_prefix(be32(13) + be32(32), a@, b@);
    }
    let n = ax.len();
    let m = bx.len();
    let mut i: usize = 0;
    assert(ax@.skip(0) =~= ax@);
    assert(bx@.skip(0) =~= bx@);
    while i < n && i < m
        invariant
            n == ax@.len(),
            m == bx@.len(),
            i <= n,
            i <= m,
            lex_order(ax@, bx@) == lex_order(a@, b@),
            outranks(a@, b@) <==> bytes_above(a@, b@),
            outranks(b@, a@) <==> bytes_above(b@, a@),
            lex_order(a@, b@) is Less <==> lex_order(b@, a@) is Greater,
            lex_order(a@, b@) is Equal <==> a@ == b@,
            lex_order(ax@, bx@) == lex_order(ax@.skip(i as int), bx@.skip(i as int)),
        decreases n - i,
    {
        let av = ax[i];
        let bv = bx[i];
        assert(ax@.skip(i as int)[0] == av);
        assert(bx@.skip(i as int)[0] == bv);
        if av < bv {
            return ByteOrder::Less;
        }
        if av > bv {
            return ByteOrder::Greater;
        }
        assert(ax@.skip(i as int).drop_first() =~= ax@.skip(i + 1));
        assert(bx@.skip(i as int).drop_first() =~= bx@.skip(i + 1));
        i = i + 1;
    }
    assert(ax@.skip(i as int).len() == 0 || bx@.skip(i as int).len() == 0);
    if n < m {
        ByteOrder::Less
    } else if n > m {
        ByteOrder::Greater
    } else {
        ByteOrder::Equal
    }
}

/// Build the base seed hash: SHA256(domain || context || external_seed).
pub fn build_seed_hash(
    env: &soroban_sdk::Env,
    domain: &str,
    context: &[u8],
    external_seed: &[u8; 32],
) -> (h: [u8; 32])
    requires
        is_symbol_text(domain@),
        context@.len() + 80 <= u32::MAX,
    ensures
        h@ == seed_hash_of(domain@, context@, external_seed@),
        h@ == seed_hash_law(domain@, context@, external_seed@),
{
    let mut seed_material = encode_symbol(env, domain);
    append_bytes(&mut seed_material, context);
    let seed_xdr = encode_bytes32(env, external_seed);
    append_bytes(&mut seed_material, seed_xdr.as_slice());
    proof {
        assert(xdr_padding(domain@.len()).len() <= 3);
        assert(symbol_xdr(domain@).len() <= 43);
    }
    sha256(env, seed_material.as_slice())
}

fn score_candidate(env: &soroban_sdk::Env, seed_hash: &[u8; 32], candidate: &EncodedAddress) -> (s: [u8; 32])
    requires
        candidate@.len() + 40 <= u32::MAX,
    ensures
        s@ == candidate_score(seed_hash@, candidate@),
{
    let mut score_material = encode_bytes32(env, seed_hash);
    append_bytes(&mut score_material, candidate.encoding());
    sha256(env, score_material.as_slice())
}

fn index_u32(i: usize) -> (r: u32)
    requires
        i <= u32::MAX,
    ensures
        r == i,
{
    i as u32
}

/// Derive a deterministic winner from candidates using hash scoring.
///
/// Returns `None` exactly when there are no candidates; otherwise the
/// winner is the first candidate whose score no other score ranks above,
/// together with the seed hash and the winning score.
pub fn derive_selection(
    env: &soroban_sdk::Env,
    domain: &str,
    context: &[u8],
    external_seed: &[u8; 32],
    candidates: &Vec<EncodedAddress>,
) -> (r: Option<DeterministicSelection>)
    requires
        is_symbol_text(domain@),
        context@.len() + 80 <= u32::MAX,
        candidates@.len() <= u32::MAX,
        forall|i: int| 0 <= i < candidates@.len() ==> #[trigger] candidates@[i]@.len() + 40 <= u32::MAX,
    ensures
        selection_view(r) == selection_of(domain@, context@, external_seed@, encodings(candidates@)),
        r is None <==> candidates@.len() == 0,
        r matches Some(s) ==> s.index < candidates@.len(),
        r matches Some(s) ==> {
            &&& s.seed_hash@ == seed_hash_law(domain@, context@, external_seed@)
            &&& s.winner_score@ == score_law(s.seed_hash@, candidates@[s.index as int]@)
            &&& forall|j: int|
                0 <= j < candidates@.len() ==> !bytes_above(
                    #[trigger] score_law(s.seed_hash@, candidates@[j]@),
                    s.winner_score@,
                )
            &&& forall|j: int|
                0 <= j < s.index ==> bytes_above(
                    s.winner_score@,
                    #[trigger] score_law(s.seed_hash@, candidates@[j]@),
                )
        },
{
    if candidates.len() == 0 {
        return None;
    }
    let seed_hash = build_seed_hash(env, domain, context, external_seed);
    let ghost cands = encodings(candidates@);
    let ghost scores = scores_of(seed_hash@, cands);

    let n = candidates.len();
    let mut best_idx: usize = 0;
    let mut best_score: Option<[u8; 32]> = None;
    let mut i: usize = 0;

    while i < n
        invariant
            n == candidates@.len(),
            n > 0,
            i <= n,
            cands == encodings(candidates@),
            scores == scores_of(seed_hash@, cands),
            forall|k: int| 0 <= k < candidates@.len() ==> #[trigger] candidates@[k]@.len() + 40 <= u32::MAX,
            i == 0 ==> best_score is None,
            i > 0 ==> (best_score matches Some(s) && s@ == scores[best_idx as int]),
            i > 0 ==> best_idx == best_index(scores, i as nat) && best_idx < i,
        decreases n - i,
    {
        let score = score_candidate(env, &seed_hash, &candidates[i]);
        assert(score@ == scores[i as int]);
        match best_score {
            None => {
                best_score = Some(score);
                best_idx = i;
            },
            Some(current_best) => {
                let o = compare_hashes(env, &score, &current_best);
                match o {
                    ByteOrder::Greater => {
                        best_score = Some(score);
                        best_idx = i;
                    },
                    _ => {},
                }
            },
        }
        i = i + 1;
    }
    proof {
        lemma_best_index_is_first_maximum(scores, n as nat);
        lemma_selection_picks_top_score(domain@, context@, external_seed@, encodings(candidates@));
        assert forall|j: int| 0 <= j < candidates@.len() implies #[trigger] encodings(
            candidates@,
        )[j] == candidates@[j]@ by {}
        assert(seed_hash@ == seed_hash_law(domain@, context@, external_seed@));
        assert(scores[best_idx as int] == score_law(seed_hash@, candidates@[best_idx as int]@));
        assert forall|j: int| 0 <= j < candidates@.len() implies scores[j] == #[trigger] score_law(
            seed_hash@,
            candidates@[j]@,
        ) by {
            assert(encodings(candidates@)[j] == candidates@[j]@);
        }
    }
    match best_score {
        Some(winner_score) => Some(
            DeterministicSelection { index: index_u32(best_idx), seed_hash, winner_score },
        ),
        None => None,
    }
}

} // verus!
