//! Bilinear maps on vectors over modules, and how they behave under the
//! fold: the algebra that makes an honest proof verify.
use vstd::prelude::*;
use crate::fold::fold_halves_spec;
use crate::interfaces::{Field, Module};

verus! {

/// The first half of a sequence.
pub open spec fn lower<T>(v: Seq<T>) -> Seq<T> {
    v.subrange(0, (v.len() / 2) as int)
}

/// The second half of a sequence.
pub open spec fn upper<T>(v: Seq<T>) -> Seq<T> {
    v.subrange((v.len() / 2) as int, v.len() as int)
}

/// Every entry multiplied by `c`.
pub open spec fn scale_vec<S, E: Module<S>>(v: Seq<E>, c: S) -> Seq<E> {
    Seq::new(v.len(), |i: int| v[i].scaled_spec(c))
}

/// The entry-wise sum of two sequences of one length.
pub open spec fn add_vec<S, E: Module<S>>(u: Seq<E>, v: Seq<E>) -> Seq<E> {
    Seq::new(u.len(), |i: int| u[i].plus_spec(v[i]))
}

pub open spec fn commutes<S, O: Module<S>>(x: O, y: O) -> bool {
    x.plus_spec(y) == y.plus_spec(x)
}

pub open spec fn associates<S, O: Module<S>>(x: O, y: O, z: O) -> bool {
    x.plus_spec(y).plus_spec(z) == x.plus_spec(y.plus_spec(z))
}

/// Addition in `O` is commutative and associative.
pub open spec fn abelian<S, O: Module<S>>() -> bool {
    &&& forall|x: O, y: O| #[trigger] commutes::<S, O>(x, y)
    &&& forall|x: O, y: O, z: O| #[trigger] associates::<S, O>(x, y, z)
}

/// The value on two vectors is the sum of the values on their halves.
pub open spec fn splits<S, U, V, O: Module<S>>(
    f: spec_fn(Seq<U>, Seq<V>) -> O,
    u: Seq<U>,
    v: Seq<V>,
) -> bool {
    f(u, v) == f(lower(u), lower(v)).plus_spec(f(upper(u), upper(v)))
}

pub open spec fn adds_left<S, U: Module<S>, V, O: Module<S>>(
    f: spec_fn(Seq<U>, Seq<V>) -> O,
    u1: Seq<U>,
    u2: Seq<U>,
    v: Seq<V>,
) -> bool {
    f(add_vec::<S, U>(u1, u2), v) == f(u1, v).plus_spec(f(u2, v))
}

pub open spec fn adds_right<S, U, V: Module<S>, O: Module<S>>(
    f: spec_fn(Seq<U>, Seq<V>) -> O,
    u: Seq<U>,
    v1: Seq<V>,
    v2: Seq<V>,
) -> bool {
    f(u, add_vec::<S, V>(v1, v2)) == f(u, v1).plus_spec(f(u, v2))
}

pub open spec fn scales_left<S, U: Module<S>, V, O: Module<S>>(
    f: spec_fn(Seq<U>, Seq<V>) -> O,
    u: Seq<U>,
    v: Seq<V>,
    c: S,
) -> bool {
    f(scale_vec::<S, U>(u, c), v) == f(u, v).scaled_spec(c)
}

pub open spec fn scales_right<S, U, V: Module<S>, O: Module<S>>(
    f: spec_fn(Seq<U>, Seq<V>) -> O,
    u: Seq<U>,
    v: Seq<V>,
    c: S,
) -> bool {
    f(u, scale_vec::<S, V>(v, c)) == f(u, v).scaled_spec(c)
}

/// Multiplying one side by a scalar and the other by its inverse changes
/// nothing.
pub open spec fn cancels<S, U: Module<S>, V: Module<S>, O>(
    f: spec_fn(Seq<U>, Seq<V>) -> O,
    u: Seq<U>,
    v: Seq<V>,
    c: S,
    c_inv: S,
) -> bool {
    f(scale_vec::<S, U>(u, c), scale_vec::<S, V>(v, c_inv)) == f(u, v)
}

/// `c` and `d` are inverses of each other.
pub open spec fn inverses<S: Field>(c: S, d: S) -> bool {
    c.inverse_spec() == Some(d) || d.inverse_spec() == Some(c)
}

/// `f` is additive and homogeneous in its second argument, and takes its
/// values in an abelian group: on vectors of one length.
pub open spec fn linear_right<S, U, V: Module<S>, O: Module<S>>(
    f: spec_fn(Seq<U>, Seq<V>) -> O,
) -> bool {
    &&& abelian::<S, O>()
    &&& forall|u: Seq<U>, v1: Seq<V>, v2: Seq<V>|
        v1.len() == u.len() && v2.len() == u.len() ==> #[trigger] adds_right::<S, U, V, O>(
            f,
            u,
            v1,
            v2,
        )
    &&& forall|u: Seq<U>, v: Seq<V>, c: S|
        u.len() == v.len() ==> #[trigger] scales_right::<S, U, V, O>(f, u, v, c)
}

/// `f` is additive and homogeneous in each argument, splits over halves,
/// is unchanged where one argument is multiplied by a scalar and the other
/// by its inverse, and takes its values in an abelian group: on vectors of
/// one length.
pub open spec fn bilinear<S: Field, U: Module<S>, V: Module<S>, O: Module<S>>(
    f: spec_fn(Seq<U>, Seq<V>) -> O,
) -> bool {
    &&& linear_right::<S, U, V, O>(f)
    &&& forall|u: Seq<U>, v: Seq<V>|
        u.len() == v.len() ==> #[trigger] splits::<S, U, V, O>(f, u, v)
    &&& forall|u1: Seq<U>, u2: Seq<U>, v: Seq<V>|
        u1.len() == v.len() && u2.len() == v.len() ==> #[trigger] adds_left::<S, U, V, O>(
            f,
            u1,
            u2,
            v,
        )
    &&& forall|u: Seq<U>, v: Seq<V>, c: S|
        u.len() == v.len() ==> #[trigger] scales_left::<S, U, V, O>(f, u, v, c)
    &&& forall|u: Seq<U>, v: Seq<V>, c: S, d: S|
        u.len() == v.len() && inverses(c, d) ==> #[trigger] cancels::<S, U, V, O>(f, u, v, c, d)
}

/// In an abelian group `(p + a) + (b + q)` and `(p + b) + (a + q)` are both
/// `(b + (q + p)) + a`.
pub proof fn lemma_rearrange<S, O: Module<S>>(p: O, a: O, b: O, q: O)
    requires
        abelian::<S, O>(),
    ensures
        p.plus_spec(a).plus_spec(b.plus_spec(q)) == b.plus_spec(q.plus_spec(p)).plus_spec(a),
        p.plus_spec(b).plus_spec(a.plus_spec(q)) == b.plus_spec(q.plus_spec(p)).plus_spec(a),
{
    let bq = b.plus_spec(q);
    assert(commutes::<S, O>(p, a));
    assert(associates::<S, O>(a, p, bq));
    assert(commutes::<S, O>(a, p.plus_spec(bq)));
    assert(commutes::<S, O>(p, bq));
    assert(associates::<S, O>(b, q, p));
    assert(p.plus_spec(a).plus_spec(bq) == b.plus_spec(q.plus_spec(p)).plus_spec(a));
    let aq = a.plus_spec(q);
    assert(associates::<S, O>(p, b, aq));
    assert(associates::<S, O>(b, a, q));
    assert(commutes::<S, O>(b, a));
    assert(associates::<S, O>(a, b, q));
    assert(associates::<S, O>(p, a, bq));
}

/// The value of a bilinear map on two folded vectors, where the two
/// scalars are inverses of each other: the sum of its values on the four
/// pairs of halves, the mixed ones multiplied by the scalars.
pub proof fn lemma_fold_bilinear<S: Field, U: Module<S>, V: Module<S>, O: Module<S>>(
    f: spec_fn(Seq<U>, Seq<V>) -> O,
    u: Seq<U>,
    v: Seq<V>,
    s: S,
    t: S,
)
    requires
        bilinear::<S, U, V, O>(f),
        u.len() == v.len(),
        u.len() % 2 == 0,
        inverses(s, t),
    ensures
        f(fold_halves_spec(u, s), fold_halves_spec(v, t)) == f(upper(u), upper(v)).plus_spec(
            f(upper(u), lower(v)).scaled_spec(s),
        ).plus_spec(f(lower(u), upper(v)).scaled_spec(t).plus_spec(f(lower(u), lower(v)))),
        f(u, v) == f(lower(u), lower(v)).plus_spec(f(upper(u), upper(v))),
{
    let hu = upper(u);
    let lu = lower(u);
    let hv = upper(v);
    let lv = lower(v);
    let su = scale_vec::<S, U>(hu, s);
    let tv = scale_vec::<S, V>(hv, t);
    let fv = add_vec::<S, V>(tv, lv);
    assert(fold_halves_spec(u, s) =~= add_vec::<S, U>(su, lu));
    assert(fold_halves_spec(v, t) =~= fv);
    assert(adds_left::<S, U, V, O>(f, su, lu, fv));
    assert(adds_right::<S, U, V, O>(f, su, tv, lv));
    assert(adds_right::<S, U, V, O>(f, lu, tv, lv));
    assert(cancels::<S, U, V, O>(f, hu, hv, s, t));
    assert(scales_left::<S, U, V, O>(f, hu, lv, s));
    assert(scales_right::<S, U, V, O>(f, lu, hv, t));
    assert(splits::<S, U, V, O>(f, u, v));
}

} // verus!
