//! The viewer's inbox of raw detection messages and how parsed messages are
//! taken out of it.

use vstd::multiset::Multiset;
use vstd::prelude::*;

verus! {

/// `s` after `Vec::swap_remove(i)`: the last element takes the place of
/// element `i`, and the sequence shrinks by one.
pub open spec fn swap_removed<A>(s: Seq<A>, i: int) -> Seq<A> {
    s.update(i, s.last()).drop_last()
}

/// `s` after `swap_remove` at every index of `idx`, the last index first.
pub open spec fn swap_removed_from_back<A>(s: Seq<A>, idx: Seq<usize>) -> Seq<A>
    decreases idx.len(),
{
    if idx.len() == 0 {
        s
    } else {
        swap_removed_from_back(swap_removed(s, idx.last() as int), idx.drop_last())
    }
}

/// The positions, in increasing order, of the messages that parsed.
pub open spec fn parsed_positions<T>(outcomes: Seq<Option<Vec<T>>>) -> Seq<usize>
    decreases outcomes.len(),
{
    if outcomes.len() == 0 {
        Seq::empty()
    } else {
        let rest = parsed_positions(outcomes.drop_last());
        if outcomes.last() is Some {
            rest.push((outcomes.len() - 1) as usize)
        } else {
            rest
        }
    }
}

/// The objects of all messages that parsed, message by message in inbox order.
pub open spec fn parsed_objects<T>(outcomes: Seq<Option<Vec<T>>>) -> Seq<T>
    decreases outcomes.len(),
{
    if outcomes.len() == 0 {
        Seq::empty()
    } else {
        parsed_objects(outcomes.drop_last()) + match outcomes.last() {
            Some(objs) => objs@,
            None => Seq::empty(),
        }
    }
}

/// The objects of the messages are carried whole: with no message there are
/// none, one more message that parsed adds all of its objects at the end,
/// and one more that did not parse adds none.
pub proof fn lemma_parsed_objects_carried_whole<T>(outcomes: Seq<Option<Vec<T>>>, next: Option<Vec<T>>)
    ensures
        parsed_objects(Seq::<Option<Vec<T>>>::empty()).len() == 0,
        next matches Some(v) ==> parsed_objects(outcomes.push(next)) == parsed_objects(outcomes) + v@,
        next is None ==> parsed_objects(outcomes.push(next)) == parsed_objects(outcomes),
        parsed_objects(outcomes.push(next)).len() == parsed_objects(outcomes).len() + match next {
            Some(v) => v@.len(),
            None => 0,
        },
{
    assert(outcomes.push(next).drop_last() =~= outcomes);
    assert(parsed_objects(outcomes) + Seq::<T>::empty() =~= parsed_objects(outcomes));
}

/// The messages that did not parse, in inbox order.
pub open spec fn unparsed_messages<M, T>(msgs: Seq<M>, outcomes: Seq<Option<Vec<T>>>) -> Seq<M>
    recommends
        msgs.len() == outcomes.len(),
    decreases msgs.len(),
{
    if msgs.len() == 0 || outcomes.len() == 0 {
        Seq::empty()
    } else {
        let rest = unparsed_messages(msgs.drop_last(), outcomes.drop_last());
        if outcomes.last() is Some {
            rest
        } else {
            rest.push(msgs.last())
        }
    }
}

/// The positions that parsed are strictly increasing and within the inbox.
proof fn lemma_parsed_positions_increasing<T>(outcomes: Seq<Option<Vec<T>>>)
    requires
        outcomes.len() <= usize::MAX,
    ensures
        forall|i: int, j: int|
            0 <= i < j < parsed_positions(outcomes).len() ==> parsed_positions(outcomes)[i]
                < parsed_positions(outcomes)[j],
        forall|i: int|
            0 <= i < parsed_positions(outcomes).len() ==> parsed_positions(outcomes)[i]
                < outcomes.len(),
    decreases outcomes.len(),
{
    if outcomes.len() > 0 {
        let rest = parsed_positions(outcomes.drop_last());
        lemma_parsed_positions_increasing(outcomes.drop_last());
        let p = parsed_positions(outcomes);
        if outcomes.last() is Some {
            assert(p == rest.push((outcomes.len() - 1) as usize));
            assert forall|i: int, j: int| 0 <= i < j < p.len() implies p[i] < p[j] by {
                if j < rest.len() {
                    assert(p[i] == rest[i] && p[j] == rest[j]);
                } else {
                    assert(p[i] == rest[i]);
                }
            }
        } else {
            assert(p == rest);
        }
    }
}

/// In a strictly increasing sequence below `bound`, each element leaves room
/// for the elements after it.
proof fn lemma_increasing_room(p: Seq<usize>, bound: nat)
    requires
        forall|i: int, j: int| 0 <= i < j < p.len() ==> p[i] < p[j],
        forall|i: int| 0 <= i < p.len() ==> p[i] < bound,
    ensures
        forall|j: int| 0 <= j < p.len() ==> p[j] + p.len() - j <= bound,
    decreases p.len(),
{
    if p.len() > 0 {
        let q = p.drop_last();
        lemma_increasing_room(q, p.last() as nat);
        assert forall|j: int| 0 <= j < p.len() implies p[j] + p.len() - j <= bound by {
            if j < p.len() - 1 {
                assert(q[j] + q.len() - j <= p.last());
            }
        }
    }
}

/// The elements of `s` at the positions `idx`, in that order.
pub open spec fn picked<A>(s: Seq<A>, idx: Seq<usize>) -> Seq<A> {
    idx.map_values(|i: usize| s[i as int])
}

/// `swap_remove` loses exactly the element it removes.
proof fn lemma_swap_removed_multiset<A>(s: Seq<A>, i: int)
    requires
        0 <= i < s.len(),
    ensures
        swap_removed(s, i).to_multiset().insert(s[i]) =~= s.to_multiset(),
{
    broadcast use vstd::multiset::group_multiset_axioms;
    broadcast use vstd::seq_lib::group_to_multiset_ensures;

    let n = s.len();
    let a = s.subrange(0, i);
    let b = s.subrange(i + 1, n - 1);
    if i == n - 1 {
        assert(swap_removed(s, i) =~= s.drop_last());
        assert(s =~= s.drop_last().push(s[i]));
    } else {
        let l = s[n - 1];
        assert(swap_removed(s, i) =~= a + (seq![l] + b));
        assert(s.remove(i) =~= a + (b + seq![l]));
        vstd::seq_lib::lemma_multiset_commutative(a, seq![l] + b);
        vstd::seq_lib::lemma_multiset_commutative(a, b + seq![l]);
        vstd::seq_lib::lemma_seq_union_to_multiset_commutative(seq![l], b);
        assert(s.remove(i).to_multiset() =~= s.to_multiset().remove(s[i]));
    }
}

/// Removing the positions `idx` from the back loses exactly the elements at
/// those positions.
proof fn lemma_swap_removed_from_back_multiset<A>(s: Seq<A>, idx: Seq<usize>)
    requires
        forall|i: int, j: int| 0 <= i < j < idx.len() ==> idx[i] < idx[j],
        forall|i: int| 0 <= i < idx.len() ==> idx[i] < s.len(),
    ensures
        swap_removed_from_back(s, idx).to_multiset().add(picked(s, idx).to_multiset())
            =~= s.to_multiset(),
    decreases idx.len(),
{
    broadcast use vstd::multiset::group_multiset_axioms;

    broadcast use vstd::seq_lib::group_to_multiset_ensures;

    if idx.len() == 0 {
        assert(picked(s, idx) =~= Seq::<A>::empty());
        assert(picked(s, idx).to_multiset() =~= Multiset::<A>::empty());
    } else {
        let i = idx.last() as int;
        let s2 = swap_removed(s, i);
        let rest = idx.drop_last();
        lemma_swap_removed_from_back_multiset(s2, rest);
        lemma_swap_removed_multiset(s, i);
        assert(picked(s2, rest) =~= picked(s, rest));
        assert(picked(s, idx) =~= picked(s, rest).push(s[i]));
        let r = swap_removed_from_back(s, idx);
        assert(r == swap_removed_from_back(s2, rest));
        assert forall|x: A| #[trigger] r.to_multiset().add(picked(s, idx).to_multiset()).count(x)
            == s.to_multiset().count(x) by {
            assert(r.to_multiset().add(picked(s2, rest).to_multiset()).count(x)
                == s2.to_multiset().count(x));
            assert(s2.to_multiset().insert(s[i]).count(x) == s.to_multiset().count(x));
        }
    }
}

/// Every message is either kept as unparsed or picked as parsed.
proof fn lemma_unparsed_and_parsed_multiset<M, T>(s: Seq<M>, o: Seq<Option<Vec<T>>>)
    requires
        s.len() == o.len(),
        o.len() <= usize::MAX,
    ensures
        unparsed_messages(s, o).to_multiset().add(picked(s, parsed_positions(o)).to_multiset())
            =~= s.to_multiset(),
    decreases s.len(),
{
    broadcast use vstd::multiset::group_multiset_axioms;

    broadcast use vstd::seq_lib::group_to_multiset_ensures;

    if s.len() == 0 {
        assert(picked(s, parsed_positions(o)) =~= Seq::<M>::empty());
        assert(s.to_multiset() =~= Multiset::<M>::empty());
        assert(picked(s, parsed_positions(o)).to_multiset() =~= Multiset::<M>::empty());
        assert(unparsed_messages(s, o).to_multiset() =~= Multiset::<M>::empty());
    } else {
        let s2 = s.drop_last();
        let o2 = o.drop_last();
        lemma_unparsed_and_parsed_multiset(s2, o2);
        lemma_parsed_positions_increasing(o2);
        let p2 = parsed_positions(o2);
        assert(picked(s, p2) =~= picked(s2, p2));
        assert(s =~= s2.push(s.last()));
        vstd::seq_lib::to_multiset_build(s2, s.last());
        let u2 = unparsed_messages(s2, o2);
        if o.last() is Some {
            assert(picked(s, parsed_positions(o)) =~= picked(s, p2).push(s.last()));
            assert(unparsed_messages(s, o) == u2);
            vstd::seq_lib::to_multiset_build(picked(s, p2), s.last());
        } else {
            assert(parsed_positions(o) == p2);
            assert(unparsed_messages(s, o) == u2.push(s.last()));
            vstd::seq_lib::to_multiset_build(u2, s.last());
        }
        assert forall|x: M| #[trigger] unparsed_messages(s, o).to_multiset().add(
            picked(s, parsed_positions(o)).to_multiset(),
        ).count(x) == s.to_multiset().count(x) by {
            assert(u2.to_multiset().add(picked(s2, p2).to_multiset()).count(x)
                == s2.to_multiset().count(x));
        }
    }
}

/// No message is lost or duplicated: removing the parsed messages from the
/// back leaves exactly the messages that did not parse, each as often as it
/// was there, though not necessarily in inbox order.
pub proof fn lemma_inbox_keeps_exactly_unparsed<T>(msgs: Seq<String>, outcomes: Seq<Option<Vec<T>>>)
    requires
        msgs.len() == outcomes.len(),
        outcomes.len() <= usize::MAX,
    ensures
        swap_removed_from_back(msgs, parsed_positions(outcomes)).to_multiset()
            == unparsed_messages(msgs, outcomes).to_multiset(),
{
    broadcast use vstd::multiset::group_multiset_axioms;

    let positions = parsed_positions(outcomes);
    let kept = swap_removed_from_back(msgs, positions);
    lemma_parsed_positions_increasing(outcomes);
    lemma_swap_removed_from_back_multiset(msgs, positions);
    lemma_unparsed_and_parsed_multiset(msgs, outcomes);
    let x = picked(msgs, positions).to_multiset();
    assert forall|m: String| #[trigger] kept.to_multiset().count(m)
        == unparsed_messages(msgs, outcomes).to_multiset().count(m) by {
        assert(kept.to_multiset().add(x).count(m) == msgs.to_multiset().count(m));
        assert(unparsed_messages(msgs, outcomes).to_multiset().add(x).count(m)
            == msgs.to_multiset().count(m));
    }
    assert(kept.to_multiset() =~= unparsed_messages(msgs, outcomes).to_multiset());
}

/// Takes every message that parsed out of the inbox and returns the objects
/// they carry. `outcomes[i]` is the parse of `shared_data[i]`: `Some` with its
/// objects, or `None` where it did not parse. Messages that did not parse
/// stay in the inbox for a later call; the parsed ones are removed with
/// `swap_remove`, the highest position first.
pub fn get_detected_objs<T>(shared_data: &mut Vec<String>, outcomes: Vec<Option<Vec<T>>>) -> (objects: Vec<T>)
    requires
        outcomes.len() == old(shared_data).len(),
    ensures
        objects@ == parsed_objects(outcomes@),
        final(shared_data)@ == swap_removed_from_back(old(shared_data)@, parsed_positions(outcomes@)),
        final(shared_data)@.to_multiset() == unparsed_messages(old(shared_data)@, outcomes@).to_multiset(),
{
    let ghost all = outcomes@;
    let mut objects: Vec<T> = Vec::new();
    let mut indexes_to_remove: Vec<usize> = Vec::new();
    let mut index: usize = 0;
    for outcome in it: outcomes.into_iter()
        invariant
            index == it.index(),
            it.seq() == all,
            all.len() == shared_data.len(),
            objects@ == parsed_objects(all.take(index as int)),
            indexes_to_remove@ == parsed_positions(all.take(index as int)),
    {
        assert(all.take(index + 1).drop_last() == all.take(index as int));
        match outcome {
            Some(mut objs) => {
                objects.append(&mut objs);
                indexes_to_remove.push(index);
            },
            None => {},
        }
        index = index + 1;
    }
    assert(all.take(all.len() as int) == all);
    let mut k: usize = indexes_to_remove.len();
    let ghost positions = indexes_to_remove@;
    proof {
        lemma_parsed_positions_increasing(all);
        lemma_increasing_room(positions, old(shared_data)@.len());
        assert(positions.take(k as int) == positions);
    }
    while k > 0
        invariant
            k <= positions.len(),
            positions == indexes_to_remove@,
            shared_data@.len() + positions.len() == old(shared_data)@.len() + k,
            forall|j: int| 0 <= j < positions.len() ==> positions[j] + positions.len() - j
                <= old(shared_data)@.len(),
            swap_removed_from_back(shared_data@, positions.take(k as int))
                == swap_removed_from_back(old(shared_data)@, positions),
        decreases k,
    {
        k = k - 1;
        let i = indexes_to_remove[k];
        assert(positions.take(k + 1).drop_last() == positions.take(k as int));
        shared_data.swap_remove(i);
    }
    proof {
        lemma_inbox_keeps_exactly_unparsed(old(shared_data)@, all);
    }
    objects
}

} // verus!
