//! Stable ordering by descending priority, used for discovered skills and for
//! the daemon's triggered results.
use vstd::prelude::*;

use crate::skills::manifest::Skill;
use crate::skills::types::TriggeredSkill;

verus! {

/// Something that carries a priority.
pub trait Prioritized: Sized {
    spec fn key(&self) -> i32;

    fn priority_of(&self) -> (p: i32)
        ensures
            p == self.key(),
    ;
}

impl Prioritized for Skill {
    open spec fn key(&self) -> i32 {
        self.priority
    }

    fn priority_of(&self) -> (p: i32) {
        self.priority
    }
}

impl Prioritized for TriggeredSkill {
    open spec fn key(&self) -> i32 {
        self.priority
    }

    fn priority_of(&self) -> (p: i32) {
        self.priority
    }
}

/// Highest priority first.
pub open spec fn sorted_desc<T: Prioritized>(s: Seq<T>) -> bool {
    forall|i: int, j: int| 0 <= i < j < s.len() ==> s[i].key() >= s[j].key()
}

/// Whether an item has priority `k`.
pub open spec fn has_key<T: Prioritized>(k: i32) -> spec_fn(T) -> bool {
    |x: T| x.key() == k
}

/// The items of priority `k`, in their order.
pub open spec fn with_priority<T: Prioritized>(s: Seq<T>, k: i32) -> Seq<T> {
    s.filter(has_key(k))
}

/// `a` and `b` hold the same items of each priority, in the same order.
pub open spec fn same_per_priority<T: Prioritized>(a: Seq<T>, b: Seq<T>) -> bool {
    forall|k: i32| #[trigger] with_priority(a, k) == with_priority(b, k)
}

proof fn lemma_insert_keeps_classes<T: Prioritized>(r: Seq<T>, j: int, x: T, k: i32)
    requires
        0 <= j <= r.len(),
        forall|i: int| j <= i < r.len() ==> r[i].key() < x.key(),
    ensures
        with_priority(r.insert(j, x), k) == with_priority(r.push(x), k),
{
    let p = has_key::<T>(k);
    let a = r.take(j);
    let b = r.skip(j);
    assert(r == a + b);
    assert(r.insert(j, x) == a + seq![x] + b);
    Seq::filter_distributes_over_add(a + seq![x], b, p);
    Seq::filter_distributes_over_add(a, seq![x], p);
    Seq::filter_distributes_over_add(a, b, p);
    r.lemma_filter_push(x, p);
    assert(seq![x].filter(p) == (if p(x) {
        seq![x]
    } else {
        Seq::<T>::empty()
    })) by {
        assert(Seq::<T>::empty().push(x) == seq![x]);
        Seq::<T>::empty().lemma_filter_push(x, p);
        reveal(Seq::filter);
        assert(Seq::<T>::empty().filter(p) =~= Seq::<T>::empty());
    }
    if p(x) {
        assert forall|i: int| 0 <= i < b.len() implies !p(#[trigger] b[i]) by {
            assert(b[i] == r[j + i]);
        }
        assert(b.all(|y: T| !p(y)));
        b.lemma_all_neg_filter_empty(p);
        assert(b.filter(p) =~= Seq::<T>::empty());
        assert(a.filter(p) + seq![x] + Seq::<T>::empty() =~= (a.filter(p) + Seq::<T>::empty()).push(x));
        assert(r.insert(j, x).filter(p) == r.push(x).filter(p));
    } else {
        assert(a.filter(p) + Seq::<T>::empty() + b.filter(p) =~= a.filter(p) + b.filter(p));
        assert(r.insert(j, x).filter(p) == r.push(x).filter(p));
    }
    assert(with_priority(r.insert(j, x), k) == r.insert(j, x).filter(p));
    assert(with_priority(r.push(x), k) == r.push(x).filter(p));
}

/// Sorts by descending priority, keeping the input order among items of
/// equal priority (a stable sort, as `sort_by` with `b.cmp(a)` on priorities).
pub fn sort_by_priority_desc<T: Prioritized>(v: Vec<T>) -> (r: Vec<T>)
    ensures
        sorted_desc(r@),
        same_per_priority(r@, v@),
        r@.len() == v@.len(),
{
    let ghost orig = v@;
    let mut rest = v;
    let mut out: Vec<T> = Vec::new();
    let mut done: usize = 0;
    let total = rest.len();
    proof {
        assert forall|k: i32| #[trigger] with_priority(out@, k) == with_priority(orig.take(0), k) by {
            reveal(Seq::filter);
            assert(orig.take(0) =~= Seq::<T>::empty());
            assert(out@ =~= Seq::<T>::empty());
        }
        assert(orig.skip(0) == orig);
    }
    while rest.len() > 0
        invariant
            done + rest@.len() == orig.len(),
            orig.len() == total,
            rest@ == orig.skip(done as int),
            sorted_desc(out@),
            same_per_priority(out@, orig.take(done as int)),
            out@.len() == done,
        decreases rest@.len(),
    {
        let x = rest.remove(0);
        let kx = x.priority_of();
        let mut j: usize = 0;
        while j < out.len() && out[j].priority_of() >= kx
            invariant
                j <= out.len(),
                kx == x.key(),
                forall|i: int| 0 <= i < j ==> out@[i].key() >= kx,
            decreases out.len() - j,
        {
            j += 1;
        }
        let ghost before = out@;
        proof {
            assert forall|i: int| j <= i < before.len() implies before[i].key() < x.key() by {
                if i > j {
                    assert(before[j as int].key() >= before[i].key());
                }
            }
            assert forall|k: i32| #[trigger] with_priority(before.insert(j as int, x), k)
                == with_priority(orig.take(done + 1), k) by {
                lemma_insert_keeps_classes(before, j as int, x, k);
                assert(orig.take(done + 1) == orig.take(done as int).push(x));
                orig.take(done as int).lemma_filter_push(x, has_key::<T>(k));
                before.lemma_filter_push(x, has_key::<T>(k));
                assert(with_priority(before, k) == with_priority(orig.take(done as int), k));
            }
        }
        out.insert(j, x);
        assert(out@ == before.insert(j as int, x));
        assert(rest@ == orig.skip(done + 1));
        done += 1;
    }
    assert(orig.take(done as int) == orig);
    out
}

/// Whether a skill is enabled.
pub open spec fn is_enabled() -> spec_fn(Skill) -> bool {
    |s: Skill| s.enabled
}

/// The skills that discovery keeps of those found in the pools: the enabled
/// ones, highest priority first, ties in the order they were found.
pub fn select_discovered(found: Vec<Skill>) -> (r: Vec<Skill>)
    ensures
        sorted_desc(r@),
        same_per_priority(r@, found@.filter(is_enabled())),
        r@.len() == found@.filter(is_enabled()).len(),
{
    let ghost orig = found@;
    let mut rest = found;
    let mut kept: Vec<Skill> = Vec::new();
    let ghost mut i: int = 0;
    assert(orig.skip(0) == orig);
    assert(orig.take(0) == Seq::<Skill>::empty());
    assert(Seq::<Skill>::empty().filter(is_enabled()) == Seq::<Skill>::empty()) by {
        reveal(Seq::filter);
    }
    while rest.len() > 0
        invariant
            0 <= i <= orig.len(),
            rest@ == orig.skip(i),
            kept@ == orig.take(i).filter(is_enabled()),
        decreases rest.len(),
    {
        let s = rest.remove(0);
        assert(s == orig[i]);
        assert(orig.take(i + 1) == orig.take(i).push(s));
        proof {
            orig.take(i).lemma_filter_push(s, is_enabled());
        }
        if s.enabled {
            kept.push(s);
        }
        assert(orig.skip(i).remove(0) == orig.skip(i + 1));
        proof {
            i = i + 1;
        }
    }
    assert(orig.take(orig.len() as int) == orig);
    sort_by_priority_desc(kept)
}

} // verus!
