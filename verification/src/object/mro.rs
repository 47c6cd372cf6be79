use vstd::prelude::*;
use crate::object::ObjId;

verus! {

/// The lists that `v` holds.
pub open spec fn lists_of(v: Seq<Vec<ObjId>>) -> Seq<Seq<ObjId>> {
    Seq::new(v.len(), |i: int| v[i]@)
}

/// Every list has an item.
pub open spec fn all_nonempty(lists: Seq<Seq<ObjId>>) -> bool {
    forall|k: int| 0 <= k < lists.len() ==> (#[trigger] lists[k]).len() > 0
}

/// `c` occurs in `l` behind the first item.
pub open spec fn in_tail(l: Seq<ObjId>, c: ObjId) -> bool {
    exists|j: int| 1 <= j < l.len() && l[j] == c
}

/// `c` occurs in the tail of no list.
pub open spec fn is_winner(lists: Seq<Seq<ObjId>>, c: ObjId) -> bool {
    forall|k: int| 0 <= k < lists.len() ==> !in_tail(#[trigger] lists[k], c)
}

/// The head of the first list, from list `k` on, whose head is in no tail.
pub open spec fn pick_from(lists: Seq<Seq<ObjId>>, k: int) -> Option<ObjId>
    decreases lists.len() - k,
{
    if k < 0 || k >= lists.len() {
        None
    } else if lists[k].len() > 0 && is_winner(lists, lists[k][0]) {
        Some(lists[k][0])
    } else {
        pick_from(lists, k + 1)
    }
}

/// The next class of the linearization: the head of the first list whose head
/// is in the tail of no list.
pub open spec fn spec_pick_winner(lists: Seq<Seq<ObjId>>) -> Option<ObjId> {
    pick_from(lists, 0)
}

/// The list `l` without the occurrences of `w`.
pub open spec fn without(l: Seq<ObjId>, w: ObjId) -> Seq<ObjId>
    decreases l.len(),
{
    if l.len() == 0 {
        l
    } else if l.last() == w {
        without(l.drop_last(), w)
    } else {
        without(l.drop_last(), w).push(l.last())
    }
}

/// The lists without the occurrences of `w`, and without the lists that this
/// leaves empty.
pub open spec fn spec_remove_winner(lists: Seq<Seq<ObjId>>, w: ObjId) -> Seq<Seq<ObjId>>
    decreases lists.len(),
{
    if lists.len() == 0 {
        lists
    } else {
        let rest = spec_remove_winner(lists.drop_last(), w);
        let l = without(lists.last(), w);
        if l.len() > 0 {
            rest.push(l)
        } else {
            rest
        }
    }
}

/// The number of items of all lists together.
pub open spec fn total_len(lists: Seq<Seq<ObjId>>) -> nat
    decreases lists.len(),
{
    if lists.len() == 0 {
        0
    } else {
        total_len(lists.drop_last()) + lists.last().len()
    }
}

/// The merge of the lists: as long as a list is left, the next class is picked,
/// put at the end of the result and taken out of the lists. There is no merge
/// where no class can be picked.
pub open spec fn spec_linearize(lists: Seq<Seq<ObjId>>) -> Option<Seq<ObjId>>
    decreases total_len(lists),
{
    if lists.len() == 0 {
        Some(Seq::empty())
    } else {
        match spec_pick_winner(lists) {
            None => None,
            Some(w) => {
                proof {
                    lemma_pick_from(lists, 0);
                    lemma_remove_shrinks(lists, w);
                }
                match spec_linearize(spec_remove_winner(lists, w)) {
                    None => None,
                    Some(rest) => Some(seq![w] + rest),
                }
            },
        }
    }
}

/// `a` can be had from `b` by leaving items out.
pub open spec fn is_subseq(a: Seq<ObjId>, b: Seq<ObjId>) -> bool
    decreases b.len(),
{
    if a.len() == 0 {
        true
    } else if b.len() == 0 {
        false
    } else if a[0] == b[0] {
        is_subseq(a.drop_first(), b.drop_first())
    } else {
        is_subseq(a, b.drop_first())
    }
}

/// A picked class is the head of a list and in the tail of none.
pub proof fn lemma_pick_from(lists: Seq<Seq<ObjId>>, k: int)
    requires
        0 <= k,
    ensures
        pick_from(lists, k) matches Some(w) ==> is_winner(lists, w) && exists|j: int|
            k <= j < lists.len() && (#[trigger] lists[j]).len() > 0 && lists[j][0] == w,
        pick_from(lists, k) is None ==> forall|j: int|
            k <= j < lists.len() && (#[trigger] lists[j]).len() > 0 ==> !is_winner(
                lists,
                lists[j][0],
            ),
    decreases lists.len() - k,
{
    if k < lists.len() {
        if lists[k].len() > 0 && is_winner(lists, lists[k][0]) {
        } else {
            lemma_pick_from(lists, k + 1);
        }
    }
}

/// Taking a class out of a list does not make it longer, makes it shorter
/// where the class occurs, and leaves it as it is where it does not.
pub proof fn lemma_without(l: Seq<ObjId>, w: ObjId)
    ensures
        without(l, w).len() <= l.len(),
        l.contains(w) ==> without(l, w).len() < l.len(),
        !l.contains(w) ==> without(l, w) == l,
        forall|x: ObjId| without(l, w).contains(x) ==> l.contains(x) && x != w,
    decreases l.len(),
{
    if l.len() > 0 {
        let p = l.drop_last();
        lemma_without(p, w);
        if l.contains(w) && l.last() != w {
            let j = choose|j: int| 0 <= j < l.len() && l[j] == w;
            assert(p[j] == w);
        }
        if !l.contains(w) {
            assert forall|j: int| 0 <= j < p.len() implies p[j] != w by {
                assert(l[j] == p[j]);
            }
            assert(!p.contains(w));
            assert(without(l, w) =~= l);
        }
        assert forall|x: ObjId| without(l, w).contains(x) implies l.contains(x) && x != w by {
            let r = without(l, w);
            let q = without(p, w);
            let j = choose|j: int| 0 <= j < r.len() && r[j] == x;
            if l.last() != w && j == q.len() {
                assert(r == q.push(l.last()));
                assert(l[l.len() - 1] == x);
            } else {
                if l.last() != w {
                    assert(r == q.push(l.last()));
                } else {
                    assert(r == q);
                }
                assert(q[j] == x);
                assert(q.contains(x));
                assert(p.contains(x) && x != w);
                let i = choose|i: int| 0 <= i < p.len() && p[i] == x;
                assert(l[i] == x);
            }
        }
    }
}

/// A list whose head is `w`, and whose tail does not hold `w`, is left with
/// its tail when `w` is taken out.
pub proof fn lemma_without_head(l: Seq<ObjId>, w: ObjId)
    requires
        l.len() > 0,
        l[0] == w,
        !in_tail(l, w),
    ensures
        without(l, w) == l.drop_first(),
    decreases l.len(),
{
    if l.len() == 1 {
        assert(without(l.drop_last(), w) =~= Seq::<ObjId>::empty());
        assert(l.drop_first() =~= Seq::<ObjId>::empty());
    } else {
        let p = l.drop_last();
        assert(l.last() != w) by {
            if l.last() == w {
                assert(l[l.len() - 1] == w);
            }
        }
        assert(!in_tail(p, w)) by {
            if in_tail(p, w) {
                let j = choose|j: int| 1 <= j < p.len() && p[j] == w;
                assert(l[j] == w);
            }
        }
        lemma_without_head(p, w);
        assert(without(l, w) =~= l.drop_first());
    }
}

/// Taking a class out of the lists leaves no list empty and does not add
/// items; it takes an item away where the class is the head of a list.
pub proof fn lemma_remove_shrinks(lists: Seq<Seq<ObjId>>, w: ObjId)
    ensures
        all_nonempty(spec_remove_winner(lists, w)),
        total_len(spec_remove_winner(lists, w)) <= total_len(lists),
        (exists|j: int| 0 <= j < lists.len() && (#[trigger] lists[j]).len() > 0 && lists[j][0] == w)
            ==> total_len(spec_remove_winner(lists, w)) < total_len(lists),
    decreases lists.len(),
{
    if lists.len() > 0 {
        let p = lists.drop_last();
        lemma_remove_shrinks(p, w);
        lemma_without(lists.last(), w);
        let rest = spec_remove_winner(p, w);
        let l = without(lists.last(), w);
        if l.len() > 0 {
            assert(rest.push(l).drop_last() =~= rest);
        }
        if exists|j: int| 0 <= j < lists.len() && (#[trigger] lists[j]).len() > 0 && lists[j][0] == w {
            let j = choose|j: int|
                0 <= j < lists.len() && (#[trigger] lists[j]).len() > 0 && lists[j][0] == w;
            if j < p.len() {
                assert(p[j] == lists[j]);
            } else {
                assert(lists.last()[0] == w);
                assert(lists.last().contains(w));
            }
        }
    }
}

/// Every list that is not left empty when a class is taken out is among the
/// lists that are left.
pub proof fn lemma_remove_keeps(lists: Seq<Seq<ObjId>>, w: ObjId, k: int)
    requires
        0 <= k < lists.len(),
        without(lists[k], w).len() > 0,
    ensures
        exists|j: int|
            0 <= j < spec_remove_winner(lists, w).len() && #[trigger] spec_remove_winner(lists, w)[j]
                == without(lists[k], w),
    decreases lists.len(),
{
    let p = lists.drop_last();
    let rest = spec_remove_winner(p, w);
    let l = without(lists.last(), w);
    let r = spec_remove_winner(lists, w);
    if k == lists.len() - 1 {
        assert(r[r.len() - 1] == l);
    } else {
        assert(p[k] == lists[k]);
        lemma_remove_keeps(p, w, k);
        let j = choose|j: int| 0 <= j < rest.len() && #[trigger] rest[j] == without(p[k], w);
        assert(r[j] == rest[j]);
    }
}

/// A subsequence of a list is a subsequence of the list with an item put in
/// front.
pub proof fn lemma_subseq_cons(a: Seq<ObjId>, b: Seq<ObjId>, x: ObjId)
    requires
        is_subseq(a, b),
    ensures
        is_subseq(a, seq![x] + b),
    decreases b.len(), 1nat,
{
    let c = seq![x] + b;
    assert(c.drop_first() =~= b);
    if a.len() > 0 && a[0] == x {
        // The match takes the new head; the rest of `a` must fit into `b`.
        lemma_subseq_drop_first(a, b);
    }
}

/// The tail of a subsequence of a list is a subsequence of that list.
pub proof fn lemma_subseq_drop_first(a: Seq<ObjId>, b: Seq<ObjId>)
    requires
        is_subseq(a, b),
        a.len() > 0,
    ensures
        is_subseq(a.drop_first(), b),
    decreases b.len(), 0nat,
{
    if b.len() > 0 {
        if a[0] == b[0] {
            lemma_subseq_cons(a.drop_first(), b.drop_first(), b[0]);
            assert(seq![b[0]] + b.drop_first() =~= b);
        } else {
            lemma_subseq_drop_first(a, b.drop_first());
            let t = a.drop_first();
            if t.len() > 0 && t[0] == b[0] {
                lemma_subseq_drop_first(t, b.drop_first());
            }
        }
    }
}

/// Every list is a subsequence of itself.
pub proof fn lemma_subseq_refl(a: Seq<ObjId>)
    ensures
        is_subseq(a, a),
    decreases a.len(),
{
    if a.len() > 0 {
        lemma_subseq_refl(a.drop_first());
    }
}

/// The merge keeps the order of every list it is made of: each of the lists
/// is a subsequence of the merge.
pub proof fn lemma_linearize_keeps_order(lists: Seq<Seq<ObjId>>, k: int)
    requires
        0 <= k < lists.len(),
        spec_linearize(lists) is Some,
    ensures
        is_subseq(lists[k], spec_linearize(lists)->Some_0),
    decreases total_len(lists),
{
    let l = lists[k];
    let w = spec_pick_winner(lists)->Some_0;
    let rem = spec_remove_winner(lists, w);
    let rest = spec_linearize(rem)->Some_0;
    let out = seq![w] + rest;
    lemma_pick_from(lists, 0);
    lemma_remove_shrinks(lists, w);
    lemma_without(l, w);
    assert(spec_linearize(lists) == Some(out));
    assert(out.drop_first() =~= rest);
    assert(out[0] == w);
    if l.len() > 0 {
        assert(!in_tail(l, w));
        if l[0] == w {
            lemma_without_head(l, w);
            if l.drop_first().len() > 0 {
                lemma_remove_keeps(lists, w, k);
                let j = choose|j: int| 0 <= j < rem.len() && #[trigger] rem[j] == without(l, w);
                lemma_linearize_keeps_order(rem, j);
            }
            assert(is_subseq(l.drop_first(), rest));
            assert(is_subseq(l, out));
        } else {
            assert(!l.contains(w)) by {
                if l.contains(w) {
                    let i = choose|i: int| 0 <= i < l.len() && l[i] == w;
                    assert(i >= 1);
                }
            }
            lemma_remove_keeps(lists, w, k);
            let j = choose|j: int| 0 <= j < rem.len() && #[trigger] rem[j] == without(l, w);
            lemma_linearize_keeps_order(rem, j);
            assert(is_subseq(l, rest));
            assert(is_subseq(l, out));
        }
    }
}

/// Every class of the merge is a class of one of the lists.
pub proof fn lemma_linearize_members(lists: Seq<Seq<ObjId>>, x: ObjId)
    requires
        spec_linearize(lists) is Some,
        spec_linearize(lists)->Some_0.contains(x),
    ensures
        exists|k: int| 0 <= k < lists.len() && (#[trigger] lists[k]).contains(x),
    decreases total_len(lists),
{
    if lists.len() > 0 {
        let w = spec_pick_winner(lists)->Some_0;
        let rem = spec_remove_winner(lists, w);
        let rest = spec_linearize(rem)->Some_0;
        let out = seq![w] + rest;
        lemma_pick_from(lists, 0);
        lemma_remove_shrinks(lists, w);
        let i = choose|i: int| 0 <= i < out.len() && out[i] == x;
        if i == 0 {
            let j = choose|j: int|
                0 <= j < lists.len() && (#[trigger] lists[j]).len() > 0 && lists[j][0] == w;
            assert(lists[j][0] == x);
        } else {
            assert(rest[i - 1] == x);
            lemma_linearize_members(rem, x);
            let k = choose|k: int| 0 <= k < rem.len() && (#[trigger] rem[k]).contains(x);
            lemma_remove_from(lists, w, k);
            let j = choose|j: int| 0 <= j < lists.len() && rem[k] == without(#[trigger] lists[j], w);
            lemma_without(lists[j], w);
        }
    }
}

/// Every list that is left when a class is taken out comes from one of the lists.
pub proof fn lemma_remove_from(lists: Seq<Seq<ObjId>>, w: ObjId, k: int)
    requires
        0 <= k < spec_remove_winner(lists, w).len(),
    ensures
        exists|j: int|
            0 <= j < lists.len() && spec_remove_winner(lists, w)[k] == without(
                #[trigger] lists[j],
                w,
            ),
    decreases lists.len(),
{
    if lists.len() > 0 {
        let p = lists.drop_last();
        let rest = spec_remove_winner(p, w);
        let l = without(lists.last(), w);
        if k < rest.len() {
            lemma_remove_from(p, w, k);
            let j = choose|j: int| 0 <= j < p.len() && rest[k] == without(#[trigger] p[j], w);
            assert(p[j] == lists[j]);
        } else {
            assert(spec_remove_winner(lists, w)[k] == without(lists[lists.len() - 1], w));
        }
    }
}

/// Whether `c` occurs in `l` behind the first item.
fn tail_contains(l: &Vec<ObjId>, c: ObjId) -> (r: bool)
    ensures
        r == in_tail(l@, c),
{
    let mut j: usize = 1;
    while j < l.len()
        invariant
            1 <= j,
            forall|i: int| 1 <= i < j && i < l@.len() ==> l@[i] != c,
        decreases l@.len() - j,
    {
        if l[j] == c {
            return true;
        }
        j = j + 1;
    }
    false
}

/// Whether `c` occurs in the tail of no list.
fn wins(mro_list: &Vec<Vec<ObjId>>, c: ObjId) -> (r: bool)
    ensures
        r == is_winner(lists_of(mro_list@), c),
{
    let mut k: usize = 0;
    while k < mro_list.len()
        invariant
            k <= mro_list@.len(),
            forall|i: int| 0 <= i < k ==> !in_tail(#[trigger] lists_of(mro_list@)[i], c),
        decreases mro_list@.len() - k,
    {
        if tail_contains(&mro_list[k], c) {
            assert(in_tail(lists_of(mro_list@)[k as int], c));
            return false;
        }
        k = k + 1;
    }
    true
}

/// Picks the next class of the linearization: the head of the first list
/// whose head is in the tail of no list; `None` if there is no such list.
pub fn pick_winner(mro_list: &Vec<Vec<ObjId>>) -> (r: Option<ObjId>)
    requires
        all_nonempty(lists_of(mro_list@)),
    ensures
        r == spec_pick_winner(lists_of(mro_list@)),
{
    let ghost lists = lists_of(mro_list@);
    let mut k: usize = 0;
    while k < mro_list.len()
        invariant
            k <= mro_list@.len(),
            lists == lists_of(mro_list@),
            all_nonempty(lists),
            pick_from(lists, 0) == pick_from(lists, k as int),
        decreases mro_list@.len() - k,
    {
        assert(lists[k as int].len() > 0);
        let cand = mro_list[k][0];
        if wins(mro_list, cand) {
            return Some(cand);
        }
        k = k + 1;
    }
    None
}

/// Takes the class `winner` out of every list, and drops the lists that this
/// leaves empty.
pub fn remove_winner(winner: ObjId, mro_list: Vec<Vec<ObjId>>) -> (r: Vec<Vec<ObjId>>)
    ensures
        lists_of(r@) == spec_remove_winner(lists_of(mro_list@), winner),
{
    let ghost lists = lists_of(mro_list@);
    let mut new_list: Vec<Vec<ObjId>> = Vec::new();
    let mut k: usize = 0;
    proof {
        assert(lists.take(0) =~= Seq::<Seq<ObjId>>::empty());
        assert(lists_of(new_list@) =~= Seq::<Seq<ObjId>>::empty());
    }
    while k < mro_list.len()
        invariant
            k <= mro_list@.len(),
            lists == lists_of(mro_list@),
            lists_of(new_list@) == spec_remove_winner(lists.take(k as int), winner),
        decreases mro_list@.len() - k,
    {
        let mro = &mro_list[k];
        let mut new_mro: Vec<ObjId> = Vec::new();
        let mut i: usize = 0;
        proof {
            assert(mro@.take(0) =~= Seq::<ObjId>::empty());
        }
        while i < mro.len()
            invariant
                i <= mro@.len(),
                new_mro@ == without(mro@.take(i as int), winner),
            decreases mro@.len() - i,
        {
            proof {
                assert(mro@.take(i + 1).drop_last() =~= mro@.take(i as int));
            }
            if mro[i] != winner {
                new_mro.push(mro[i]);
            }
            i = i + 1;
        }
        proof {
            assert(mro@.take(mro@.len() as int) =~= mro@);
            assert(lists.take(k + 1).drop_last() =~= lists.take(k as int));
            assert(lists.take(k + 1).last() == mro@);
        }
        let ghost before = lists_of(new_list@);
        if new_mro.len() > 0 {
            new_list.push(new_mro);
            proof {
                assert(lists_of(new_list@) =~= before.push(new_mro@));
            }
        }
        k = k + 1;
    }
    proof {
        assert(lists.take(mro_list@.len() as int) =~= lists);
    }
    new_list
}

/// Merges the lists into one linearization; `None` where no class can be
/// picked while a list is left.
pub fn linearlize(arg: Vec<Vec<ObjId>>) -> (r: Option<Vec<ObjId>>)
    requires
        all_nonempty(lists_of(arg@)),
    ensures
        crate::object::typeobj::opt_seq(r) == spec_linearize(lists_of(arg@)),
{
    let mut mro_list = arg;
    let mut mro: Vec<ObjId> = Vec::new();
    let ghost start = lists_of(arg@);
    loop
        invariant
            start == lists_of(arg@),
            all_nonempty(lists_of(mro_list@)),
            spec_linearize(start) == match spec_linearize(lists_of(mro_list@)) {
                Some(rest) => Some(mro@ + rest),
                None => None,
            },
        decreases total_len(lists_of(mro_list@)),
    {
        let ghost lists = lists_of(mro_list@);
        if mro_list.len() == 0 {
            proof {
                assert(mro@ + Seq::<ObjId>::empty() =~= mro@);
            }
            return Some(mro);
        }
        let winner = match pick_winner(&mro_list) {
            Some(w) => w,
            None => {
                return None;
            },
        };
        proof {
            lemma_pick_from(lists, 0);
            lemma_remove_shrinks(lists, winner);
            match spec_linearize(spec_remove_winner(lists, winner)) {
                Some(rest) => {
                    assert(mro@.push(winner) + rest =~= mro@ + (seq![winner] + rest));
                },
                None => {},
            }
        }
        mro.push(winner);
        mro_list = remove_winner(winner, mro_list);
    }
}

} // verus!
