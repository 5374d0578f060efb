use vstd::prelude::*;
use vstd::multiset::Multiset;
use vstd::utf8::encode_utf8;
use crate::participant::{Participant, ParticipantView};

verus! {

/// Lexicographic order of byte strings: `a` comes before `b`.
pub open spec fn bytes_lt(a: Seq<u8>, b: Seq<u8>) -> bool
    decreases a.len(),
{
    if a.len() == 0 {
        b.len() > 0
    } else if b.len() == 0 {
        false
    } else if a[0] != b[0] {
        a[0] < b[0]
    } else {
        bytes_lt(a.drop_first(), b.drop_first())
    }
}

/// The order of participants: by identifier, then by the UTF-8 bytes of
/// the name, then by points.
pub open spec fn participant_lt(a: ParticipantView, b: ParticipantView) -> bool {
    let ea = encode_utf8(a.username);
    let eb = encode_utf8(b.username);
    ||| a.id < b.id
    ||| a.id == b.id && bytes_lt(ea, eb)
    ||| a.id == b.id && ea == eb && a.score < b.score
}

/// The order of leaderboard slots: an empty slot comes before any
/// participant, participants are ordered by `participant_lt`.
pub open spec fn slot_lt(a: Option<ParticipantView>, b: Option<ParticipantView>) -> bool {
    match (a, b) {
        (None, Some(_)) => true,
        (Some(x), Some(y)) => participant_lt(x, y),
        _ => false,
    }
}

/// The plain value of a leaderboard slot.
pub open spec fn slot_view(slot: Option<Participant>) -> Option<ParticipantView> {
    match slot {
        Some(p) => Some(p@),
        None => None,
    }
}

/// No slot of `s` comes before a slot that follows it.
pub open spec fn sorted_descending(s: Seq<Option<Participant>>) -> bool {
    forall|i: int, j: int|
        0 <= i < j < s.len() ==> !slot_lt(#[trigger] slot_view(s[i]), #[trigger] slot_view(s[j]))
}

pub proof fn lemma_bytes_lt_irreflexive(a: Seq<u8>)
    ensures
        !bytes_lt(a, a),
    decreases a.len(),
{
    if a.len() > 0 {
        lemma_bytes_lt_irreflexive(a.drop_first());
    }
}

pub proof fn lemma_bytes_lt_transitive(a: Seq<u8>, b: Seq<u8>, c: Seq<u8>)
    requires
        bytes_lt(a, b),
        bytes_lt(b, c),
    ensures
        bytes_lt(a, c),
    decreases a.len(),
{
    if a.len() > 0 && b.len() > 0 && c.len() > 0 && a[0] == b[0] && b[0] == c[0] {
        lemma_bytes_lt_transitive(a.drop_first(), b.drop_first(), c.drop_first());
    }
}

pub proof fn lemma_bytes_lt_total(a: Seq<u8>, b: Seq<u8>)
    requires
        !bytes_lt(a, b),
        !bytes_lt(b, a),
    ensures
        a == b,
    decreases a.len(),
{
    if a.len() > 0 && b.len() > 0 {
        lemma_bytes_lt_total(a.drop_first(), b.drop_first());
        assert(a == seq![a[0]] + a.drop_first());
        assert(b == seq![b[0]] + b.drop_first());
    }
}

pub proof fn lemma_slot_lt_irreflexive(a: Option<ParticipantView>)
    ensures
        !slot_lt(a, a),
{
    if let Some(x) = a {
        lemma_bytes_lt_irreflexive(encode_utf8(x.username));
    }
}

pub proof fn lemma_slot_lt_transitive(
    a: Option<ParticipantView>,
    b: Option<ParticipantView>,
    c: Option<ParticipantView>,
)
    requires
        slot_lt(a, b),
        slot_lt(b, c),
    ensures
        slot_lt(a, c),
{
    if let (Some(x), Some(y), Some(z)) = (a, b, c) {
        let ex = encode_utf8(x.username);
        let ey = encode_utf8(y.username);
        let ez = encode_utf8(z.username);
        if x.id == y.id && y.id == z.id && bytes_lt(ex, ey) && bytes_lt(ey, ez) {
            lemma_bytes_lt_transitive(ex, ey, ez);
        }
    }
}

/// Compares two byte strings lexicographically.
fn bytes_less(a: &[u8], b: &[u8]) -> (r: bool)
    ensures
        r == bytes_lt(a@, b@),
{
    let mut i: usize = 0;
    assert(a@.skip(0) == a@);
    assert(b@.skip(0) == b@);
    while i < a.len() && i < b.len()
        invariant
            i <= a@.len(),
            i <= b@.len(),
            bytes_lt(a@, b@) == bytes_lt(a@.skip(i as int), b@.skip(i as int)),
        decreases a@.len() - i,
    {
        if a[i] != b[i] {
            return a[i] < b[i];
        }
        assert(a@.skip(i as int).drop_first() == a@.skip(i + 1));
        assert(b@.skip(i as int).drop_first() == b@.skip(i + 1));
        i += 1;
    }
    i < b.len()
}

/// Compares two participants by `participant_lt`.
pub fn participant_less(a: &Participant, b: &Participant) -> (r: bool)
    ensures
        r == participant_lt(a@, b@),
{
    let ida = a.id().value();
    let idb = b.id().value();
    if ida < idb {
        return true;
    }
    if ida > idb {
        return false;
    }
    let ea: &[u8] = a.username().as_str().as_bytes();
    let eb: &[u8] = b.username().as_str().as_bytes();
    if bytes_less(ea, eb) {
        return true;
    }
    if bytes_less(eb, ea) {
        return false;
    }
    proof {
        lemma_bytes_lt_total(ea@, eb@);
    }
    a.score().value() < b.score().value()
}

/// Compares two leaderboard slots by `slot_lt`.
pub fn slot_less(a: &Option<Participant>, b: &Option<Participant>) -> (r: bool)
    ensures
        r == slot_lt(slot_view(*a), slot_view(*b)),
{
    match (a, b) {
        (None, Some(_)) => true,
        (Some(x), Some(y)) => participant_less(x, y),
        _ => false,
    }
}

/// The index of a greatest slot of the non-empty `s`.
fn index_of_greatest(s: &Vec<Option<Participant>>) -> (m: usize)
    requires
        s@.len() > 0,
    ensures
        m < s@.len(),
        forall|j: int| 0 <= j < s@.len() ==> !slot_lt(slot_view(s@[m as int]), #[trigger] slot_view(s@[j])),
{
    let mut best: usize = 0;
    let mut k: usize = 1;
    proof {
        lemma_slot_lt_irreflexive(slot_view(s@[0]));
    }
    while k < s.len()
        invariant
            1 <= k <= s@.len(),
            best < k,
            forall|j: int| 0 <= j < k ==> !slot_lt(slot_view(s@[best as int]), #[trigger] slot_view(s@[j])),
        decreases s@.len() - k,
    {
        if slot_less(&s[best], &s[k]) {
            proof {
                let old_best = slot_view(s@[best as int]);
                let cand = slot_view(s@[k as int]);
                lemma_slot_lt_irreflexive(cand);
                assert forall|j: int| 0 <= j <= k implies !slot_lt(cand, #[trigger] slot_view(s@[j])) by {
                    if j < k && slot_lt(cand, slot_view(s@[j])) {
                        lemma_slot_lt_transitive(old_best, cand, slot_view(s@[j]));
                    }
                }
            }
            best = k;
        }
        k += 1;
    }
    best
}

/// The slots of `slots`, rearranged so that no slot comes before a slot
/// that follows it.
pub fn sort_descending(slots: Vec<Option<Participant>>) -> (sorted: Vec<Option<Participant>>)
    ensures
        sorted@.to_multiset() == slots@.to_multiset(),
        sorted_descending(sorted@),
{
    broadcast use vstd::seq_lib::group_to_multiset_ensures;

    let mut rest = slots;
    let mut out: Vec<Option<Participant>> = Vec::new();
    while rest.len() > 0
        invariant
            out@.to_multiset().add(rest@.to_multiset()) == slots@.to_multiset(),
            sorted_descending(out@),
            forall|i: int, j: int|
                0 <= i < out@.len() && 0 <= j < rest@.len() ==> !slot_lt(
                    #[trigger] slot_view(out@[i]),
                    #[trigger] slot_view(rest@[j]),
                ),
        decreases rest@.len(),
    {
        let m = index_of_greatest(&rest);
        let ghost before = rest@;
        let ghost out_before = out@;
        let x = rest.remove(m);
        proof {
            before.to_multiset_ensures();
            assert(before.remove(m as int).to_multiset() == before.to_multiset().remove(x));
            assert forall|j: int| 0 <= j < rest@.len() implies #[trigger] slot_view(rest@[j]) == slot_view(before[if j < m { j } else { j + 1 }]) by {}
        }
        out.push(x);
        proof {
            out_before.to_multiset_ensures();
            assert(out@.to_multiset() == out_before.to_multiset().insert(x));
            assert(out@.to_multiset().add(rest@.to_multiset()) == slots@.to_multiset());
            assert forall|i: int, j: int| 0 <= i < j < out@.len() implies !slot_lt(
                #[trigger] slot_view(out@[i]),
                #[trigger] slot_view(out@[j]),
            ) by {
                if j < out@.len() - 1 {
                    assert(out@[i] == out_before[i]);
                    assert(out@[j] == out_before[j]);
                } else {
                    assert(out@[i] == out_before[i]);
                    assert(slot_view(before[m as int]) == slot_view(x));
                }
            }
            assert forall|i: int, j: int| 0 <= i < out@.len() && 0 <= j < rest@.len() implies !slot_lt(
                #[trigger] slot_view(out@[i]),
                #[trigger] slot_view(rest@[j]),
            ) by {
                let jj = if j < m { j } else { j + 1 };
                assert(slot_view(rest@[j]) == slot_view(before[jj]));
                if i < out@.len() - 1 {
                    assert(out@[i] == out_before[i]);
                } else {
                    assert(out@[i] == x);
                }
            }
        }
    }
    proof {
        assert(rest@.to_multiset() =~= Multiset::empty());
        assert(out@.to_multiset().add(Multiset::empty()) =~= out@.to_multiset());
    }
    out
}

} // verus!
