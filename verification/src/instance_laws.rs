//! The instances over the field of order 2^61 - 1 meet what completeness
//! asks of commitments and inner product.
use vstd::prelude::*;
use vstd::arithmetic::div_mod::{lemma_add_mod_noop, lemma_mul_mod_noop_general};
use crate::bilinear::{
    abelian, add_vec, adds_left, adds_right, associates, bilinear, cancels, commutes, inverses,
    lower, scale_vec, scales_left, scales_right, splits, upper,
};
use crate::gipa::GIPA;
use crate::instances::{
    dot_spec, IdentityCommitment, LinearCommitment, Placeholder, ScalarInnerProduct,
};
use crate::interfaces::{Digest, Module};
use crate::prime_field::{add_mod, mul_mod, Fp61, MODULUS};

verus! {

/// The sum of the products of the residues, not reduced.
pub open spec fn dot_int(a: Seq<Fp61>, b: Seq<Fp61>) -> int
    decreases a.len(),
{
    if a.len() == 0 || b.len() == 0 {
        0
    } else {
        dot_int(a.drop_last(), b.drop_last()) + a.last().value * b.last().value
    }
}

pub proof fn lemma_add_value(x: u64, y: u64)
    ensures
        add_mod(x, y) == (x + y) % (MODULUS as int),
{
    lemma_add_mod_noop(x as int, y as int, MODULUS as int);
}

pub proof fn lemma_mul_value(x: u64, y: u64)
    ensures
        mul_mod(x, y) == (x * y) % (MODULUS as int),
{
    lemma_mul_mod_noop_general(x as int, y as int, MODULUS as int);
}

/// Sums of congruent numbers are congruent.
pub proof fn lemma_mod_sum(x: int, y: int, x2: int, y2: int)
    requires
        x % (MODULUS as int) == x2 % (MODULUS as int),
        y % (MODULUS as int) == y2 % (MODULUS as int),
    ensures
        (x + y) % (MODULUS as int) == (x2 + y2) % (MODULUS as int),
{
    lemma_add_mod_noop(x, y, MODULUS as int);
    lemma_add_mod_noop(x2, y2, MODULUS as int);
}

/// Products of congruent numbers are congruent.
pub proof fn lemma_mod_prod(x: int, y: int, x2: int, y2: int)
    requires
        x % (MODULUS as int) == x2 % (MODULUS as int),
        y % (MODULUS as int) == y2 % (MODULUS as int),
    ensures
        (x * y) % (MODULUS as int) == (x2 * y2) % (MODULUS as int),
{
    lemma_mul_mod_noop_general(x, y, MODULUS as int);
    lemma_mul_mod_noop_general(x2, y2, MODULUS as int);
}

/// The dot product is the residue of the unreduced sum.
pub proof fn lemma_dot_value(a: Seq<Fp61>, b: Seq<Fp61>)
    requires
        a.len() == b.len(),
    ensures
        dot_spec(a, b).value == dot_int(a, b) % (MODULUS as int),
    decreases a.len(),
{
    if a.len() > 0 {
        lemma_dot_value(a.drop_last(), b.drop_last());
        let rest = dot_spec(a.drop_last(), b.drop_last()).value;
        let term = mul_mod(a.last().value, b.last().value);
        lemma_mul_value(a.last().value, b.last().value);
        lemma_add_value(rest, term);
        lemma_mod_sum(
            rest as int,
            term as int,
            dot_int(a.drop_last(), b.drop_last()),
            a.last().value * b.last().value,
        );
    }
}

pub proof fn lemma_dot_int_split(u: Seq<Fp61>, v: Seq<Fp61>, k: int)
    requires
        u.len() == v.len(),
        0 <= k <= u.len(),
    ensures
        dot_int(u, v) == dot_int(u.subrange(0, k), v.subrange(0, k)) + dot_int(
            u.subrange(k, u.len() as int),
            v.subrange(k, v.len() as int),
        ),
    decreases u.len(),
{
    let n = u.len() as int;
    if k == n {
        assert(u.subrange(0, k) =~= u);
        assert(v.subrange(0, k) =~= v);
    } else {
        lemma_dot_int_split(u.drop_last(), v.drop_last(), k);
        assert(u.drop_last().subrange(0, k) =~= u.subrange(0, k));
        assert(v.drop_last().subrange(0, k) =~= v.subrange(0, k));
        assert(u.drop_last().subrange(k, n - 1) =~= u.subrange(k, n).drop_last());
        assert(v.drop_last().subrange(k, n - 1) =~= v.subrange(k, n).drop_last());
        assert(u.subrange(k, n).last() == u.last());
        assert(v.subrange(k, n).last() == v.last());
    }
}

pub proof fn lemma_dot_int_symmetric(a: Seq<Fp61>, b: Seq<Fp61>)
    requires
        a.len() == b.len(),
    ensures
        dot_int(a, b) == dot_int(b, a),
    decreases a.len(),
{
    if a.len() > 0 {
        lemma_dot_int_symmetric(a.drop_last(), b.drop_last());
        assert(a.last().value * b.last().value == b.last().value * a.last().value)
            by (nonlinear_arith);
    }
}

pub proof fn lemma_dot_int_adds(u1: Seq<Fp61>, u2: Seq<Fp61>, v: Seq<Fp61>)
    requires
        u1.len() == v.len(),
        u2.len() == v.len(),
    ensures
        dot_int(add_vec::<Fp61, Fp61>(u1, u2), v) % (MODULUS as int) == (dot_int(u1, v) + dot_int(
            u2,
            v,
        )) % (MODULUS as int),
    decreases v.len(),
{
    let x = add_vec::<Fp61, Fp61>(u1, u2);
    if v.len() > 0 {
        lemma_dot_int_adds(u1.drop_last(), u2.drop_last(), v.drop_last());
        assert(x.drop_last() =~= add_vec::<Fp61, Fp61>(u1.drop_last(), u2.drop_last()));
        let a = u1.last().value as int;
        let b = u2.last().value as int;
        let w = v.last().value as int;
        lemma_add_value(u1.last().value, u2.last().value);
        assert(x.last().value == (a + b) % (MODULUS as int));
        lemma_mul_mod_noop_general(a + b, w, MODULUS as int);
        assert((a + b) * w == a * w + b * w) by (nonlinear_arith);
        lemma_mod_sum(
            dot_int(x.drop_last(), v.drop_last()),
            x.last().value * w,
            dot_int(u1.drop_last(), v.drop_last()) + dot_int(u2.drop_last(), v.drop_last()),
            a * w + b * w,
        );
    }
}

pub proof fn lemma_dot_int_scales(u: Seq<Fp61>, v: Seq<Fp61>, c: Fp61)
    requires
        u.len() == v.len(),
    ensures
        dot_int(scale_vec::<Fp61, Fp61>(u, c), v) % (MODULUS as int) == (dot_int(u, v) * c.value)
            % (MODULUS as int),
    decreases v.len(),
{
    let x = scale_vec::<Fp61, Fp61>(u, c);
    if v.len() > 0 {
        lemma_dot_int_scales(u.drop_last(), v.drop_last(), c);
        assert(x.drop_last() =~= scale_vec::<Fp61, Fp61>(u.drop_last(), c));
        let a = u.last().value as int;
        let w = v.last().value as int;
        let k = c.value as int;
        let rest = dot_int(u.drop_last(), v.drop_last());
        lemma_mul_value(u.last().value, c.value);
        assert(x.last().value == (a * k) % (MODULUS as int));
        lemma_mul_mod_noop_general(a * k, w, MODULUS as int);
        assert((rest + a * w) * k == rest * k + (a * k) * w) by (nonlinear_arith);
        lemma_mod_sum(
            dot_int(x.drop_last(), v.drop_last()),
            x.last().value * w,
            rest * k,
            (a * k) * w,
        );
    } else {
        assert(dot_int(u, v) * c.value == 0) by (nonlinear_arith)
            requires
                dot_int(u, v) == 0,
        ;
    }
}

pub proof fn lemma_dot_int_cancels(u: Seq<Fp61>, v: Seq<Fp61>, c: Fp61, d: Fp61)
    requires
        u.len() == v.len(),
        (c.value * d.value) % (MODULUS as int) == 1,
    ensures
        dot_int(scale_vec::<Fp61, Fp61>(u, c), scale_vec::<Fp61, Fp61>(v, d)) % (MODULUS as int)
            == dot_int(u, v) % (MODULUS as int),
    decreases v.len(),
{
    let x = scale_vec::<Fp61, Fp61>(u, c);
    let y = scale_vec::<Fp61, Fp61>(v, d);
    if v.len() > 0 {
        lemma_dot_int_cancels(u.drop_last(), v.drop_last(), c, d);
        assert(x.drop_last() =~= scale_vec::<Fp61, Fp61>(u.drop_last(), c));
        assert(y.drop_last() =~= scale_vec::<Fp61, Fp61>(v.drop_last(), d));
        let a = u.last().value as int;
        let w = v.last().value as int;
        let k = c.value as int;
        let l = d.value as int;
        lemma_mul_value(u.last().value, c.value);
        lemma_mul_value(v.last().value, d.value);
        assert(x.last().value == (a * k) % (MODULUS as int));
        assert(y.last().value == (w * l) % (MODULUS as int));
        lemma_mul_mod_noop_general(a * k, w * l, MODULUS as int);
        assert((a * k) * (w * l) == (a * w) * (k * l)) by (nonlinear_arith);
        lemma_mul_mod_noop_general(a * w, k * l, MODULUS as int);
        assert((a * w) * 1 == a * w) by (nonlinear_arith);
        assert((x.last().value * y.last().value) % (MODULUS as int) == (a * w) % (
        MODULUS as int));
        lemma_mod_sum(
            dot_int(x.drop_last(), y.drop_last()),
            x.last().value * y.last().value,
            dot_int(u.drop_last(), v.drop_last()),
            a * w,
        );
    }
}

/// Addition in the field is commutative and associative.
pub proof fn lemma_field_abelian()
    ensures
        abelian::<Fp61, Fp61>(),
{
    assert forall|x: Fp61, y: Fp61| #[trigger] commutes::<Fp61, Fp61>(x, y) by {}
    assert forall|x: Fp61, y: Fp61, z: Fp61| #[trigger] associates::<Fp61, Fp61>(x, y, z) by {
        lemma_add_value(x.value, y.value);
        lemma_add_value(y.value, z.value);
        lemma_add_value(add_mod(x.value, y.value), z.value);
        lemma_add_value(x.value, add_mod(y.value, z.value));
        lemma_mod_sum(
            add_mod(x.value, y.value) as int,
            z.value as int,
            x.value + y.value,
            z.value as int,
        );
        lemma_mod_sum(
            x.value as int,
            add_mod(y.value, z.value) as int,
            x.value as int,
            y.value + z.value,
        );
    }
}

/// A scalar and its inverse multiply to one.
pub proof fn lemma_inverses_multiply_to_one(c: Fp61, d: Fp61)
    requires
        inverses(c, d),
    ensures
        (c.value * d.value) % (MODULUS as int) == 1,
{
    lemma_mul_value(c.value, d.value);
    lemma_mul_value(d.value, c.value);
    assert(c.value * d.value == d.value * c.value) by (nonlinear_arith);
}

pub proof fn lemma_dot_splits(u: Seq<Fp61>, v: Seq<Fp61>)
    requires
        u.len() == v.len(),
    ensures
        dot_spec(u, v) == dot_spec(lower(u), lower(v)).plus_spec(dot_spec(upper(u), upper(v))),
{
    lemma_dot_value(u, v);
    lemma_dot_value(lower(u), lower(v));
    lemma_dot_value(upper(u), upper(v));
    lemma_dot_int_split(u, v, (u.len() / 2) as int);
    lemma_add_value(dot_spec(lower(u), lower(v)).value, dot_spec(upper(u), upper(v)).value);
    lemma_mod_sum(
        dot_spec(lower(u), lower(v)).value as int,
        dot_spec(upper(u), upper(v)).value as int,
        dot_int(lower(u), lower(v)),
        dot_int(upper(u), upper(v)),
    );
}

pub proof fn lemma_dot_adds_left(u1: Seq<Fp61>, u2: Seq<Fp61>, v: Seq<Fp61>)
    requires
        u1.len() == v.len(),
        u2.len() == v.len(),
    ensures
        dot_spec(add_vec::<Fp61, Fp61>(u1, u2), v) == dot_spec(u1, v).plus_spec(dot_spec(u2, v)),
{
    lemma_dot_value(add_vec::<Fp61, Fp61>(u1, u2), v);
    lemma_dot_value(u1, v);
    lemma_dot_value(u2, v);
    lemma_dot_int_adds(u1, u2, v);
    lemma_add_value(dot_spec(u1, v).value, dot_spec(u2, v).value);
    lemma_mod_sum(
        dot_spec(u1, v).value as int,
        dot_spec(u2, v).value as int,
        dot_int(u1, v),
        dot_int(u2, v),
    );
}

pub proof fn lemma_dot_adds_right(u: Seq<Fp61>, v1: Seq<Fp61>, v2: Seq<Fp61>)
    requires
        v1.len() == u.len(),
        v2.len() == u.len(),
    ensures
        dot_spec(u, add_vec::<Fp61, Fp61>(v1, v2)) == dot_spec(u, v1).plus_spec(dot_spec(u, v2)),
{
    let s = add_vec::<Fp61, Fp61>(v1, v2);
    lemma_dot_value(u, s);
    lemma_dot_value(u, v1);
    lemma_dot_value(u, v2);
    lemma_dot_int_symmetric(u, s);
    lemma_dot_int_symmetric(u, v1);
    lemma_dot_int_symmetric(u, v2);
    lemma_dot_int_adds(v1, v2, u);
    lemma_add_value(dot_spec(u, v1).value, dot_spec(u, v2).value);
    lemma_mod_sum(
        dot_spec(u, v1).value as int,
        dot_spec(u, v2).value as int,
        dot_int(u, v1),
        dot_int(u, v2),
    );
}

pub proof fn lemma_dot_scales_left(u: Seq<Fp61>, v: Seq<Fp61>, c: Fp61)
    requires
        u.len() == v.len(),
    ensures
        dot_spec(scale_vec::<Fp61, Fp61>(u, c), v) == dot_spec(u, v).scaled_spec(c),
{
    lemma_dot_value(scale_vec::<Fp61, Fp61>(u, c), v);
    lemma_dot_value(u, v);
    lemma_dot_int_scales(u, v, c);
    lemma_mul_value(dot_spec(u, v).value, c.value);
    lemma_mod_prod(dot_spec(u, v).value as int, c.value as int, dot_int(u, v), c.value as int);
}

pub proof fn lemma_dot_scales_right(u: Seq<Fp61>, v: Seq<Fp61>, c: Fp61)
    requires
        u.len() == v.len(),
    ensures
        dot_spec(u, scale_vec::<Fp61, Fp61>(v, c)) == dot_spec(u, v).scaled_spec(c),
{
    let s = scale_vec::<Fp61, Fp61>(v, c);
    lemma_dot_value(u, s);
    lemma_dot_value(u, v);
    lemma_dot_int_symmetric(u, s);
    lemma_dot_int_symmetric(u, v);
    lemma_dot_int_scales(v, u, c);
    lemma_mul_value(dot_spec(u, v).value, c.value);
    lemma_mod_prod(dot_spec(u, v).value as int, c.value as int, dot_int(u, v), c.value as int);
}

pub proof fn lemma_dot_cancels(u: Seq<Fp61>, v: Seq<Fp61>, c: Fp61, d: Fp61)
    requires
        u.len() == v.len(),
        inverses(c, d),
    ensures
        dot_spec(scale_vec::<Fp61, Fp61>(u, c), scale_vec::<Fp61, Fp61>(v, d)) == dot_spec(u, v),
{
    lemma_inverses_multiply_to_one(c, d);
    lemma_dot_value(scale_vec::<Fp61, Fp61>(u, c), scale_vec::<Fp61, Fp61>(v, d));
    lemma_dot_value(u, v);
    lemma_dot_int_cancels(u, v, c, d);
}

/// A map that is the dot product is bilinear.
pub proof fn lemma_dot_is_bilinear(f: spec_fn(Seq<Fp61>, Seq<Fp61>) -> Fp61)
    requires
        forall|u: Seq<Fp61>, v: Seq<Fp61>| #[trigger] f(u, v) == dot_spec(u, v),
    ensures
        bilinear::<Fp61, Fp61, Fp61, Fp61>(f),
{
    lemma_field_abelian();
    assert forall|u: Seq<Fp61>, v: Seq<Fp61>| u.len() == v.len() implies #[trigger] splits::<
        Fp61,
        Fp61,
        Fp61,
        Fp61,
    >(f, u, v) by {
        lemma_dot_splits(u, v);
    }
    assert forall|u1: Seq<Fp61>, u2: Seq<Fp61>, v: Seq<Fp61>|
        u1.len() == v.len() && u2.len() == v.len() implies #[trigger] adds_left::<
        Fp61,
        Fp61,
        Fp61,
        Fp61,
    >(f, u1, u2, v) by {
        lemma_dot_adds_left(u1, u2, v);
    }
    assert forall|u: Seq<Fp61>, v1: Seq<Fp61>, v2: Seq<Fp61>|
        v1.len() == u.len() && v2.len() == u.len() implies #[trigger] adds_right::<
        Fp61,
        Fp61,
        Fp61,
        Fp61,
    >(f, u, v1, v2) by {
        lemma_dot_adds_right(u, v1, v2);
    }
    assert forall|u: Seq<Fp61>, v: Seq<Fp61>, c: Fp61| u.len() == v.len() implies #[trigger] scales_left::<
        Fp61,
        Fp61,
        Fp61,
        Fp61,
    >(f, u, v, c) by {
        lemma_dot_scales_left(u, v, c);
    }
    assert forall|u: Seq<Fp61>, v: Seq<Fp61>, c: Fp61| u.len() == v.len() implies #[trigger] scales_right::<
        Fp61,
        Fp61,
        Fp61,
        Fp61,
    >(f, u, v, c) by {
        lemma_dot_scales_right(u, v, c);
    }
    assert forall|u: Seq<Fp61>, v: Seq<Fp61>, c: Fp61, d: Fp61|
        u.len() == v.len() && inverses(c, d) implies #[trigger] cancels::<Fp61, Fp61, Fp61, Fp61>(
        f,
        u,
        v,
        c,
        d,
    ) by {
        lemma_dot_cancels(u, v, c, d);
    }
}

/// The scalar inner product with linear commitments to the messages and the
/// identity commitment to the product is an instance of which completeness
/// holds.
pub proof fn lemma_scalar_instance_is_doubly_homomorphic<D: Digest>()
    ensures
        GIPA::<
            ScalarInnerProduct,
            LinearCommitment,
            LinearCommitment,
            IdentityCommitment,
            D,
        >::doubly_homomorphic(),
{
    lemma_field_abelian();
    lemma_dot_is_bilinear(
        GIPA::<
            ScalarInnerProduct,
            LinearCommitment,
            LinearCommitment,
            IdentityCommitment,
            D,
        >::left_commit_fn(),
    );
    lemma_dot_is_bilinear(
        GIPA::<
            ScalarInnerProduct,
            LinearCommitment,
            LinearCommitment,
            IdentityCommitment,
            D,
        >::right_commit_fn(),
    );
    lemma_dot_is_bilinear(
        GIPA::<
            ScalarInnerProduct,
            LinearCommitment,
            LinearCommitment,
            IdentityCommitment,
            D,
        >::inner_product_fn(),
    );
    let g = GIPA::<
        ScalarInnerProduct,
        LinearCommitment,
        LinearCommitment,
        IdentityCommitment,
        D,
    >::product_commit_fn();
    assert forall|u: Seq<Placeholder>, v1: Seq<Fp61>, v2: Seq<Fp61>|
        v1.len() == u.len() && v2.len() == u.len() implies #[trigger] adds_right::<
        Fp61,
        Placeholder,
        Fp61,
        Fp61,
    >(g, u, v1, v2) by {}
    assert forall|u: Seq<Placeholder>, v: Seq<Fp61>, c: Fp61|
        u.len() == v.len() implies #[trigger] scales_right::<
        Fp61,
        Placeholder,
        Fp61,
        Fp61,
    >(g, u, v, c) by {
        lemma_mul_value(0, c.value);
    }
}

} // verus!
