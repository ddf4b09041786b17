use crate::bytes::{compare_bytes, lemma_lex_lt_asymmetric, lemma_lex_lt_transitive, lex_lt};
use crate::types::{Outpoint, TxInput};
use vstd::prelude::*;

verus! {

/// The four little-endian bytes of `v`.
pub open spec fn le32(v: u32) -> Seq<u8> {
    seq![
        (v % 256) as u8,
        ((v / 256) % 256) as u8,
        ((v / 65536) % 256) as u8,
        ((v / 16777216) % 256) as u8,
    ]
}

/// The 36-byte encoding of an outpoint: the transaction id, then the output
/// index in little-endian order.
pub open spec fn outpoint_bytes(o: Outpoint) -> Seq<u8> {
    o.txid@ + le32(o.vout)
}

/// The outpoints that the inputs spend.
pub open spec fn spent_outpoints(inputs: Seq<TxInput>) -> Seq<Outpoint> {
    inputs.map_values(|i: TxInput| i.prev_out)
}

/// The outpoint at position `k` of `s` encodes strictly below every other one.
pub open spec fn unique_min_at(s: Seq<Outpoint>, k: int) -> bool {
    0 <= k < s.len() && forall|j: int|
        0 <= j < s.len() && j != k ==> lex_lt(outpoint_bytes(s[k]), #[trigger] outpoint_bytes(s[j]))
}

/// The outpoint whose encoding is the least, when exactly one outpoint
/// holds the least encoding; `None` when `s` is empty or the least encoding
/// occurs twice.
pub open spec fn smallest_of(s: Seq<Outpoint>) -> Option<Outpoint> {
    if exists|k: int| unique_min_at(s, k) {
        Some(s[choose|k: int| unique_min_at(s, k)])
    } else {
        None
    }
}

/// Two positions that both hold the unique least encoding are the same.
pub proof fn lemma_unique_min_unique(s: Seq<Outpoint>, k1: int, k2: int)
    requires
        unique_min_at(s, k1),
        unique_min_at(s, k2),
    ensures
        k1 == k2,
{
    if k1 != k2 {
        assert(lex_lt(outpoint_bytes(s[k1]), outpoint_bytes(s[k2])));
        assert(lex_lt(outpoint_bytes(s[k2]), outpoint_bytes(s[k1])));
        lemma_lex_lt_asymmetric(outpoint_bytes(s[k1]), outpoint_bytes(s[k2]));
    }
}

/// `perm` and `inv` are mutually inverse maps of `0..n` onto itself.
pub open spec fn is_bijection(perm: Seq<int>, inv: Seq<int>, n: int) -> bool {
    perm.len() == n && inv.len() == n && (forall|i: int|
        0 <= i < n ==> 0 <= #[trigger] perm[i] < n && inv[perm[i]] == i) && (forall|i: int|
        0 <= i < n ==> 0 <= #[trigger] inv[i] < n && perm[inv[i]] == i)
}

proof fn lemma_unique_min_moves(a: Seq<Outpoint>, b: Seq<Outpoint>, perm: Seq<int>, inv: Seq<int>, k: int)
    requires
        a.len() == b.len(),
        is_bijection(perm, inv, a.len() as int),
        forall|i: int| 0 <= i < b.len() ==> b[i] == a[#[trigger] perm[i]],
        unique_min_at(a, k),
    ensures
        unique_min_at(b, inv[k]),
{
    let k2 = inv[k];
    assert(b[k2] == a[k]);
    assert forall|j: int| 0 <= j < b.len() && j != k2 implies lex_lt(
        outpoint_bytes(b[k2]),
        #[trigger] outpoint_bytes(b[j]),
    ) by {
        assert(b[j] == a[perm[j]]);
        assert(perm[j] != k);
        assert(lex_lt(outpoint_bytes(a[k]), outpoint_bytes(a[perm[j]])));
    };
}

/// The smallest outpoint does not depend on the order of the inputs: when
/// `b` lists the inputs of `a` in another order, both give the same result.
pub proof fn lemma_smallest_outpoint_reorder(
    a: Seq<TxInput>,
    b: Seq<TxInput>,
    perm: Seq<int>,
    inv: Seq<int>,
)
    requires
        a.len() == b.len(),
        is_bijection(perm, inv, a.len() as int),
        forall|i: int| 0 <= i < b.len() ==> b[i] == a[#[trigger] perm[i]],
    ensures
        smallest_of(spent_outpoints(a)) == smallest_of(spent_outpoints(b)),
{
    let sa = spent_outpoints(a);
    let sb = spent_outpoints(b);
    assert forall|i: int| 0 <= i < sb.len() implies sb[i] == sa[#[trigger] perm[i]] by {
        assert(b[i] == a[perm[i]]);
    };
    assert forall|i: int| 0 <= i < sa.len() implies sa[i] == sb[#[trigger] inv[i]] by {
        assert(b[inv[i]] == a[perm[inv[i]]]);
    };
    assert(is_bijection(inv, perm, a.len() as int));
    if exists|k: int| unique_min_at(sa, k) {
        let k = choose|k: int| unique_min_at(sa, k);
        lemma_unique_min_moves(sa, sb, perm, inv, k);
        let k2 = choose|k: int| unique_min_at(sb, k);
        lemma_unique_min_unique(sb, k2, inv[k]);
    } else if exists|k: int| unique_min_at(sb, k) {
        let k = choose|k: int| unique_min_at(sb, k);
        lemma_unique_min_moves(sb, sa, inv, perm, k);
    }
}

/// Encodes an outpoint as its 36 bytes.
pub fn serialize_outpoint(o: &Outpoint) -> (r: Vec<u8>)
    ensures
        r@ == outpoint_bytes(*o),
        r@.len() == 36,
{
    let mut r: Vec<u8> = Vec::new();
    let mut i: usize = 0;
    while i < 32
        invariant
            i <= 32,
            r@ == o.txid@.subrange(0, i as int),
        decreases 32 - i,
    {
        r.push(o.txid[i]);
        proof {
            assert(o.txid@.subrange(0, i + 1) =~= o.txid@.subrange(0, i as int).push(o.txid@[i as int]));
        }
        i = i + 1;
    }
    let v = o.vout;
    r.push((v % 256) as u8);
    r.push(((v / 256) % 256) as u8);
    r.push(((v / 65536) % 256) as u8);
    r.push(((v / 16777216) % 256) as u8);
    assert(o.txid@.subrange(0, 32) =~= o.txid@);
    assert(r@ =~= outpoint_bytes(*o));
    r
}

/// The outpoint, among all those that the inputs spend, with the least
/// encoding; `None` when there are no inputs or the least encoding is spent
/// twice.
pub fn smallest_outpoint(inputs: &Vec<TxInput>) -> (r: Option<Outpoint>)
    ensures
        r == smallest_of(spent_outpoints(inputs@)),
{
    let ghost s = spent_outpoints(inputs@);
    if inputs.len() == 0 {
        return None;
    }
    let mut best: usize = 0;
    let mut best_bytes = serialize_outpoint(&inputs[0].prev_out);
    let mut tie = false;
    let mut i: usize = 1;
    while i < inputs.len()
        invariant
            s == spent_outpoints(inputs@),
            s.len() == inputs@.len(),
            1 <= i <= inputs@.len(),
            best < i,
            best_bytes@ == outpoint_bytes(s[best as int]),
            forall|j: int|
                0 <= j < i && j != best ==> (lex_lt(best_bytes@, #[trigger] outpoint_bytes(s[j]))
                    || outpoint_bytes(s[j]) == best_bytes@),
            tie <==> exists|j: int| 0 <= j < i && j != best && outpoint_bytes(s[j]) == best_bytes@,
        decreases inputs.len() - i,
    {
        let cur = serialize_outpoint(&inputs[i].prev_out);
        assert(s[i as int] == inputs@[i as int].prev_out);
        let c = compare_bytes(&cur, &best_bytes);
        if c == -1 {
            proof {
                assert forall|j: int| 0 <= j < i + 1 && j != i implies (lex_lt(cur@, #[trigger] outpoint_bytes(s[j]))
                    || outpoint_bytes(s[j]) == cur@) by {
                    if j != best {
                        if lex_lt(best_bytes@, outpoint_bytes(s[j])) {
                            lemma_lex_lt_transitive(cur@, best_bytes@, outpoint_bytes(s[j]));
                        }
                    }
                };
                assert forall|j: int| 0 <= j < i + 1 && j != i implies outpoint_bytes(#[trigger] s[j]) != cur@ by {
                    if j != best {
                        if lex_lt(best_bytes@, outpoint_bytes(s[j])) {
                            lemma_lex_lt_transitive(cur@, best_bytes@, outpoint_bytes(s[j]));
                            crate::bytes::lemma_lex_lt_irreflexive(cur@);
                        } else {
                            crate::bytes::lemma_lex_lt_irreflexive(cur@);
                        }
                    } else {
                        crate::bytes::lemma_lex_lt_irreflexive(cur@);
                    }
                };
            }
            best = i;
            best_bytes = cur;
            tie = false;
        } else if c == 0 {
            tie = true;
        } else {
            proof {
                crate::bytes::lemma_lex_lt_irreflexive(best_bytes@);
            }
        }
        i = i + 1;
    }
    if tie {
        proof {
            let j = choose|j: int| 0 <= j < s.len() && j != best && outpoint_bytes(s[j]) == best_bytes@;
            if exists|k: int| unique_min_at(s, k) {
                let k = choose|k: int| unique_min_at(s, k);
                if k == best as int {
                    assert(lex_lt(outpoint_bytes(s[k]), outpoint_bytes(s[j])));
                    crate::bytes::lemma_lex_lt_irreflexive(best_bytes@);
                } else {
                    assert(lex_lt(outpoint_bytes(s[k]), outpoint_bytes(s[best as int])));
                    if k == j {
                        crate::bytes::lemma_lex_lt_irreflexive(best_bytes@);
                    } else {
                        assert(lex_lt(outpoint_bytes(s[k]), outpoint_bytes(s[j])));
                        assert(lex_lt(best_bytes@, outpoint_bytes(s[k])) || outpoint_bytes(s[k]) == best_bytes@);
                        lemma_lex_lt_asymmetric(best_bytes@, outpoint_bytes(s[k]));
                        crate::bytes::lemma_lex_lt_irreflexive(best_bytes@);
                    }
                }
            }
        }
        None
    } else {
        proof {
            assert(unique_min_at(s, best as int));
            let k = choose|k: int| unique_min_at(s, k);
            lemma_unique_min_unique(s, k, best as int);
        }
        Some(inputs[best].prev_out)
    }
}

} // verus!
