//! A verified stable insertion sort, parameterized by an ordering relation.
//!
//! The sort's contract is constructive: the result equals `spec_sort_by`,
//! a specification-level insertion sort under a given `leq` relation.
//! Stability is proved on top of it: for every class of elements whose keys
//! compare equal in both directions, sorting keeps the class's relative
//! order (`lemma_sort_by_stable`).

use vstd::prelude::*;

verus! {

/// `x` inserted into `r` after every element that sorts no later than it
/// under `leq`.
pub open spec fn spec_insert_by<T>(leq: spec_fn(T, T) -> bool, r: Seq<T>, x: T) -> Seq<T>
    decreases r.len(),
{
    if r.len() == 0 {
        seq![x]
    } else if leq(r.last(), x) {
        r.push(x)
    } else {
        spec_insert_by(leq, r.drop_last(), x).push(r.last())
    }
}

/// The stable insertion sort of `s` under `leq`: elements are inserted
/// left to right, each after every already placed element that sorts no
/// later than it.
pub open spec fn spec_sort_by<T>(leq: spec_fn(T, T) -> bool, s: Seq<T>) -> Seq<T>
    decreases s.len(),
{
    if s.len() == 0 {
        Seq::empty()
    } else {
        spec_insert_by(leq, spec_sort_by(leq, s.drop_last()), s.last())
    }
}

fn insert_by<T, F: Fn(&T, &T) -> bool>(
    Ghost(leq): Ghost<spec_fn(T, T) -> bool>,
    cmp: &F,
    out: &mut Vec<T>,
    x: T,
)
    requires
        forall|a: &T, b: &T| cmp.requires((a, b)),
        forall|a: &T, b: &T, r: bool| cmp.ensures((a, b), r) ==> r == leq(*a, *b),
    ensures
        final(out)@ == spec_insert_by(leq, old(out)@, x),
{
    let ghost whole: Seq<T> = out@;
    let mut j: usize = out.len();
    proof {
        assert(whole.subrange(0, j as int) =~= whole);
        assert(spec_insert_by(leq, whole, x) =~= spec_insert_by(
            leq,
            whole.subrange(0, j as int),
            x,
        ) + whole.skip(j as int));
    }
    loop
        invariant
            j <= out.len(),
            out@ == whole,
            forall|a: &T, b: &T| cmp.requires((a, b)),
            forall|a: &T, b: &T, r: bool| cmp.ensures((a, b), r) ==> r == leq(*a, *b),
            spec_insert_by(leq, whole, x) =~= spec_insert_by(
                leq,
                whole.subrange(0, j as int),
                x,
            ) + whole.skip(j as int),
        ensures
            j <= whole.len(),
            out@ == whole,
            spec_insert_by(leq, whole, x) =~= spec_insert_by(
                leq,
                whole.subrange(0, j as int),
                x,
            ) + whole.skip(j as int),
            j == 0 || leq(whole[j as int - 1], x),
        decreases j,
    {
        if j == 0 {
            break ;
        }
        if cmp(&out[j - 1], &x) {
            break ;
        }
        proof {
            let pre = whole.subrange(0, j as int);
            assert(pre.last() == whole[j as int - 1]);
            assert(pre.drop_last() =~= whole.subrange(0, j as int - 1));
            assert(spec_insert_by(leq, pre, x) == spec_insert_by(leq, pre.drop_last(), x).push(
                whole[j as int - 1],
            ));
            assert(spec_insert_by(leq, pre.drop_last(), x).push(whole[j as int - 1]) + whole.skip(
                j as int,
            ) =~= spec_insert_by(leq, whole.subrange(0, j as int - 1), x) + whole.skip(
                j as int - 1,
            ));
        }
        j = j - 1;
    }
    proof {
        let pre = whole.subrange(0, j as int);
        if j == 0 {
            assert(pre =~= Seq::<T>::empty());
            assert(spec_insert_by(leq, pre, x) =~= seq![x]);
        } else {
            assert(pre.last() == whole[j as int - 1]);
            assert(spec_insert_by(leq, pre, x) == pre.push(x));
        }
        assert(whole.insert(j as int, x) =~= spec_insert_by(leq, pre, x) + whole.skip(j as int));
    }
    out.insert(j, x);
}

/// Sorts `v` stably under the relation `leq`, decided by `cmp`.
pub fn sort_by<T, F: Fn(&T, &T) -> bool>(
    Ghost(leq): Ghost<spec_fn(T, T) -> bool>,
    cmp: &F,
    v: Vec<T>,
) -> (r: Vec<T>)
    requires
        forall|a: &T, b: &T| cmp.requires((a, b)),
        forall|a: &T, b: &T, r: bool| cmp.ensures((a, b), r) ==> r == leq(*a, *b),
    ensures
        r@ == spec_sort_by(leq, v@),
{
    let ghost input: Seq<T> = v@;
    let mut rest: Vec<T> = v;
    let mut out: Vec<T> = Vec::new();
    let ghost k: int = 0;
    proof {
        assert(input.take(0) =~= Seq::<T>::empty());
        assert(rest@ =~= input.skip(0));
    }
    while rest.len() > 0
        invariant
            0 <= k <= input.len(),
            rest@ == input.skip(k),
            out@ == spec_sort_by(leq, input.take(k)),
            forall|a: &T, b: &T| cmp.requires((a, b)),
            forall|a: &T, b: &T, r: bool| cmp.ensures((a, b), r) ==> r == leq(*a, *b),
        decreases rest.len(),
    {
        let x: T = rest.remove(0);
        proof {
            assert(input.skip(k).drop_first() =~= input.skip(k + 1));
            assert(input.take(k + 1) =~= input.take(k).push(input[k]));
            assert(input.take(k + 1).drop_last() =~= input.take(k));
        }
        insert_by(Ghost(leq), cmp, &mut out, x);
        proof {
            k = k + 1;
        }
    }
    proof {
        assert(input.take(input.len() as int) =~= input);
    }
    out
}

proof fn lemma_insert_by_filter_stable<T>(
    leq: spec_fn(T, T) -> bool,
    r: Seq<T>,
    x: T,
    p: spec_fn(T) -> bool,
)
    requires
        forall|a: T, b: T| (#[trigger] p(a)) && (#[trigger] p(b)) ==> leq(a, b),
    ensures
        p(x) ==> spec_insert_by(leq, r, x).filter(p) == r.filter(p).push(x),
        !p(x) ==> spec_insert_by(leq, r, x).filter(p) == r.filter(p),
    decreases r.len(),
{
    reveal_with_fuel(Seq::filter, 2);
    if r.len() == 0 {
        assert(seq![x].drop_last() =~= Seq::<T>::empty());
        if p(x) {
            assert(spec_insert_by(leq, r, x).filter(p) =~= r.filter(p).push(x));
        } else {
            assert(spec_insert_by(leq, r, x).filter(p) =~= r.filter(p));
        }
    } else if leq(r.last(), x) {
        let s = r.push(x);
        assert(s.drop_last() =~= r);
        assert(s.last() == x);
        if p(x) {
            assert(s.filter(p) =~= r.filter(p).push(x));
        } else {
            assert(s.filter(p) =~= r.filter(p));
        }
    } else {
        lemma_insert_by_filter_stable(leq, r.drop_last(), x, p);
        let inner = spec_insert_by(leq, r.drop_last(), x);
        let s = inner.push(r.last());
        assert(s.drop_last() =~= inner);
        assert(s.last() == r.last());
        if p(x) {
            // `x` may not jump over any element of its own class: the class
            // orders both ways, while everything jumped over is not `le x`.
            assert(!p(r.last())) by {
                if p(r.last()) {
                    assert(leq(r.last(), x));
                }
            }
            assert(s.filter(p) =~= inner.filter(p));
            assert(r.filter(p) =~= r.drop_last().filter(p));
        } else {
            if p(r.last()) {
                assert(s.filter(p) =~= inner.filter(p).push(r.last()));
                assert(r.drop_last().filter(p).push(r.last()) =~= r.filter(p));
            } else {
                assert(s.filter(p) =~= inner.filter(p));
                assert(r.drop_last().filter(p) =~= r.filter(p));
            }
        }
    }
}

/// The sort is stable: for every class of elements under `p` whose members
/// all sort no later than one another, the sorted sequence holds exactly
/// the class members the input held, in the input's order.
pub proof fn lemma_sort_by_stable<T>(leq: spec_fn(T, T) -> bool, s: Seq<T>, p: spec_fn(T) -> bool)
    requires
        forall|a: T, b: T| (#[trigger] p(a)) && (#[trigger] p(b)) ==> leq(a, b),
    ensures
        spec_sort_by(leq, s).filter(p) == s.filter(p),
    decreases s.len(),
{
    reveal_with_fuel(Seq::filter, 2);
    if s.len() == 0 {
        assert(spec_sort_by(leq, s).filter(p) =~= s.filter(p));
    } else {
        lemma_sort_by_stable(leq, s.drop_last(), p);
        lemma_insert_by_filter_stable(leq, spec_sort_by(leq, s.drop_last()), s.last(), p);
        assert(s.drop_last().push(s.last()) =~= s);
        if p(s.last()) {
            assert(s.filter(p) == s.drop_last().filter(p).push(s.last()));
        } else {
            assert(s.filter(p) == s.drop_last().filter(p));
        }
    }
}

proof fn lemma_insert_by_map<T, V>(
    leq: spec_fn(T, T) -> bool,
    vleq: spec_fn(V, V) -> bool,
    f: spec_fn(T) -> V,
    r: Seq<T>,
    x: T,
)
    requires
        forall|a: T, b: T| #[trigger] leq(a, b) == vleq(f(a), f(b)),
    ensures
        spec_insert_by(leq, r, x).map_values(f) == spec_insert_by(vleq, r.map_values(f), f(x)),
    decreases r.len(),
{
    let rm = r.map_values(f);
    if r.len() == 0 {
        assert(spec_insert_by(leq, r, x).map_values(f) =~= seq![f(x)]);
        assert(spec_insert_by(vleq, rm, f(x)) =~= seq![f(x)]);
    } else {
        assert(rm.last() == f(r.last()));
        if leq(r.last(), x) {
            assert(r.push(x).map_values(f) =~= rm.push(f(x)));
        } else {
            lemma_insert_by_map(leq, vleq, f, r.drop_last(), x);
            assert(rm.drop_last() =~= r.drop_last().map_values(f));
            assert(spec_insert_by(leq, r.drop_last(), x).push(r.last()).map_values(f)
                =~= spec_insert_by(leq, r.drop_last(), x).map_values(f).push(f(r.last())));
        }
    }
}

/// Sorting commutes with a per-element abstraction `f`, when the ordering
/// only looks at elements through `f`.
pub proof fn lemma_sort_by_map<T, V>(
    leq: spec_fn(T, T) -> bool,
    vleq: spec_fn(V, V) -> bool,
    f: spec_fn(T) -> V,
    s: Seq<T>,
)
    requires
        forall|a: T, b: T| #[trigger] leq(a, b) == vleq(f(a), f(b)),
    ensures
        spec_sort_by(leq, s).map_values(f) == spec_sort_by(vleq, s.map_values(f)),
    decreases s.len(),
{
    let sm = s.map_values(f);
    if s.len() == 0 {
        assert(spec_sort_by(leq, s).map_values(f) =~= spec_sort_by(vleq, sm));
    } else {
        lemma_sort_by_map(leq, vleq, f, s.drop_last());
        lemma_insert_by_map(leq, vleq, f, spec_sort_by(leq, s.drop_last()), s.last());
        assert(sm.last() == f(s.last()));
        assert(sm.drop_last() =~= s.drop_last().map_values(f));
    }
}

} // verus!
