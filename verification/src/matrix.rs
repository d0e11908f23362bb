//! The 2D affine transform carried by a component reference: six
//! coefficients, applied to point coordinates and composed with the
//! transforms of nested components. Arithmetic wraps around the coordinate
//! type's range; composition is exact in that modular ring, so applying a
//! composed transform equals applying the inner and then the outer one.

use vstd::prelude::*;
use vstd::arithmetic::div_mod::lemma_add_mod_noop;
use vstd::arithmetic::div_mod::lemma_mod_add_multiples_vanish;
use vstd::arithmetic::div_mod::lemma_mod_sub_multiples_vanish;
use vstd::arithmetic::div_mod::lemma_mod_twice;
use vstd::arithmetic::div_mod::lemma_mul_mod_noop_left;
use vstd::arithmetic::div_mod::lemma_mul_mod_noop_right;
use vstd::arithmetic::div_mod::lemma_small_mod;

verus! {

/// The modulus of the coordinate ring: one past the span of `i64`.
pub open spec fn coord_modulus() -> int {
    0x1_0000_0000_0000_0000
}

/// Reduce a mathematical integer into the `i64` range, wrapping around.
pub open spec fn wrap(x: int) -> i64 {
    vstd::wrapping::i64_specs::signed_crop(x)
}

/// Wrapping a value already in range is the identity.
pub proof fn lemma_wrap_in_range(x: int)
    requires
        i64::MIN <= x <= i64::MAX,
    ensures
        wrap(x) == x,
{
    let m = coord_modulus();
    if x >= 0 {
        lemma_small_mod(x as nat, m as nat);
    } else {
        lemma_mod_add_multiples_vanish(x, m);
        lemma_small_mod((x + m) as nat, m as nat);
    }
}

/// Two integers congruent modulo the coordinate ring wrap to the same value.
pub proof fn lemma_wrap_of_congruent(a: int, b: int)
    requires
        a % coord_modulus() == b % coord_modulus(),
    ensures
        wrap(a) == wrap(b),
{
}

/// A wrapped value is congruent to the value it came from.
pub proof fn lemma_cong_wrap(a: int)
    ensures
        (wrap(a) as int) % coord_modulus() == a % coord_modulus(),
{
    let m = coord_modulus();
    lemma_mod_twice(a, m);
    lemma_mod_sub_multiples_vanish(a % m, m);
}

/// Replacing one addend by a congruent one does not change the wrapped sum.
pub proof fn lemma_wrap_swap_term(a: int, a2: int, t: int)
    requires
        a % coord_modulus() == a2 % coord_modulus(),
    ensures
        wrap(a + t) == wrap(a2 + t),
{
    let m = coord_modulus();
    lemma_add_mod_noop(a, t, m);
    lemma_add_mod_noop(a2, t, m);
    lemma_wrap_of_congruent(a + t, a2 + t);
}

/// Replacing the left factor by a congruent one keeps the product congruent.
pub proof fn lemma_mul_cong_left(a: int, a2: int, b: int)
    requires
        a % coord_modulus() == a2 % coord_modulus(),
    ensures
        (a * b) % coord_modulus() == (a2 * b) % coord_modulus(),
{
    let m = coord_modulus();
    lemma_mul_mod_noop_left(a, b, m);
    lemma_mul_mod_noop_left(a2, b, m);
}

/// Replacing the right factor by a congruent one keeps the product congruent.
pub proof fn lemma_mul_cong_right(a: int, b: int, b2: int)
    requires
        b % coord_modulus() == b2 % coord_modulus(),
    ensures
        (a * b) % coord_modulus() == (a * b2) % coord_modulus(),
{
    let m = coord_modulus();
    lemma_mul_mod_noop_right(a, b, m);
    lemma_mul_mod_noop_right(a, b2, m);
}

/// Wrapping an addend before the sum equals wrapping only the sum.
pub proof fn lemma_wrap_add_left(a: int, t: int)
    ensures
        wrap(wrap(a) + t) == wrap(a + t),
{
    lemma_cong_wrap(a);
    lemma_wrap_swap_term(wrap(a) as int, a, t);
}

/// The stepwise wrapping addition of two in-range values equals wrapping
/// their exact sum.
pub proof fn lemma_wrapping_add_is_wrap(u: i64, v: i64)
    ensures
        vstd::wrapping::i64_specs::wrapping_add(u, v) == wrap(u + v),
{
    let m = coord_modulus();
    let s = u + v;
    if i64::MIN <= s <= i64::MAX {
        lemma_wrap_in_range(s);
    } else if s > i64::MAX {
        lemma_small_mod(s as nat, m as nat);
    } else {
        lemma_mod_add_multiples_vanish(s, m);
        lemma_small_mod((s + m) as nat, m as nat);
    }
}

/// An affine transform: coefficients `(a, b, c, d, e, f)` mapping a point
/// `(x, y)` to `(a*x + c*y + e, b*x + d*y + f)` in the coordinate ring.
#[derive(Debug, Copy, Clone, PartialEq, Eq, Structural)]
pub struct GlifMatrix(pub i64, pub i64, pub i64, pub i64, pub i64, pub i64);

impl GlifMatrix {
    /// The identity transform.
    pub open spec fn spec_identity() -> GlifMatrix {
        GlifMatrix(1, 0, 0, 1, 0, 0)
    }

    /// The x coordinate this transform sends `(x, y)` to.
    pub open spec fn spec_apply_x(self, x: i64, y: i64) -> i64 {
        wrap(self.0 * x + self.2 * y + self.4)
    }

    /// The y coordinate this transform sends `(x, y)` to.
    pub open spec fn spec_apply_y(self, x: i64, y: i64) -> i64 {
        wrap(self.1 * x + self.3 * y + self.5)
    }

    /// The transform that applies `inner` first and then `self`.
    pub open spec fn spec_compose(self, inner: GlifMatrix) -> GlifMatrix {
        GlifMatrix(
            wrap(self.0 * inner.0 + self.2 * inner.1),
            wrap(self.1 * inner.0 + self.3 * inner.1),
            wrap(self.0 * inner.2 + self.2 * inner.3),
            wrap(self.1 * inner.2 + self.3 * inner.3),
            wrap(self.0 * inner.4 + self.2 * inner.5 + self.4),
            wrap(self.1 * inner.4 + self.3 * inner.5 + self.5),
        )
    }

    pub fn identity() -> (r: GlifMatrix)
        ensures
            r == GlifMatrix::spec_identity(),
    {
        GlifMatrix(1, 0, 0, 1, 0, 0)
    }

    /// A transform that only moves points by `(dx, dy)`.
    pub fn translation(dx: i64, dy: i64) -> (r: GlifMatrix)
        ensures
            r == GlifMatrix(1, 0, 0, 1, dx, dy),
    {
        GlifMatrix(1, 0, 0, 1, dx, dy)
    }

    /// Apply this transform to a position.
    pub fn apply(&self, x: i64, y: i64) -> (r: (i64, i64))
        ensures
            r.0 == self.spec_apply_x(x, y),
            r.1 == self.spec_apply_y(x, y),
    {
        proof {
            lemma_apply_steps(self.0, self.2, self.4, x, y);
            lemma_apply_steps(self.1, self.3, self.5, x, y);
        }
        let rx = self.0.wrapping_mul(x).wrapping_add(self.2.wrapping_mul(y)).wrapping_add(self.4);
        let ry = self.1.wrapping_mul(x).wrapping_add(self.3.wrapping_mul(y)).wrapping_add(self.5);
        (rx, ry)
    }

    /// Compose this transform with `inner`: the result applies `inner` first,
    /// then `self`.
    pub fn compose(&self, inner: &GlifMatrix) -> (r: GlifMatrix)
        ensures
            r == self.spec_compose(*inner),
    {
        proof {
            lemma_compose_entry(self.0, inner.0, self.2, inner.1);
            lemma_compose_entry(self.1, inner.0, self.3, inner.1);
            lemma_compose_entry(self.0, inner.2, self.2, inner.3);
            lemma_compose_entry(self.1, inner.2, self.3, inner.3);
            lemma_apply_steps(self.0, self.2, self.4, inner.4, inner.5);
            lemma_apply_steps(self.1, self.3, self.5, inner.4, inner.5);
        }
        GlifMatrix(
            self.0.wrapping_mul(inner.0).wrapping_add(self.2.wrapping_mul(inner.1)),
            self.1.wrapping_mul(inner.0).wrapping_add(self.3.wrapping_mul(inner.1)),
            self.0.wrapping_mul(inner.2).wrapping_add(self.2.wrapping_mul(inner.3)),
            self.1.wrapping_mul(inner.2).wrapping_add(self.3.wrapping_mul(inner.3)),
            self.0.wrapping_mul(inner.4).wrapping_add(self.2.wrapping_mul(inner.5)).wrapping_add(
                self.4,
            ),
            self.1.wrapping_mul(inner.4).wrapping_add(self.3.wrapping_mul(inner.5)).wrapping_add(
                self.5,
            ),
        )
    }
}

/// The stepwise wrapped evaluation of `a*x + c*y + e` equals the wrap of the
/// exact value.
proof fn lemma_apply_steps(a: i64, c: i64, e: i64, x: i64, y: i64)
    ensures
        vstd::wrapping::i64_specs::wrapping_add(
            vstd::wrapping::i64_specs::wrapping_add(wrap(a * x), wrap(c * y)),
            e,
        ) == wrap(a * x + c * y + e),
{
    lemma_wrapping_add_is_wrap(wrap(a * x), wrap(c * y));
    lemma_wrap_add_left(a * x, wrap(c * y) as int);
    lemma_cong_wrap(c * y);
    lemma_wrap_swap_term(wrap(c * y) as int, c * y, a * x);
    lemma_wrapping_add_is_wrap(wrap(a * x + c * y), e);
    lemma_wrap_add_left(a * x + c * y, e as int);
}

/// The stepwise wrapped evaluation of `a*b + c*d` equals the wrap of the
/// exact value.
proof fn lemma_compose_entry(a: i64, b: i64, c: i64, d: i64)
    ensures
        vstd::wrapping::i64_specs::wrapping_add(wrap(a * b), wrap(c * d)) == wrap(a * b + c * d),
{
    lemma_wrapping_add_is_wrap(wrap(a * b), wrap(c * d));
    lemma_wrap_add_left(a * b, wrap(c * d) as int);
    lemma_cong_wrap(c * d);
    lemma_wrap_swap_term(wrap(c * d) as int, c * d, a * b);
}

/// Transform composition law: the composed transform sends a point where the
/// outer transform sends the inner transform's image of it.
pub proof fn lemma_apply_compose(outer: GlifMatrix, inner: GlifMatrix, x: i64, y: i64)
    ensures
        outer.spec_compose(inner).spec_apply_x(x, y) == outer.spec_apply_x(
            inner.spec_apply_x(x, y),
            inner.spec_apply_y(x, y),
        ),
        outer.spec_compose(inner).spec_apply_y(x, y) == outer.spec_apply_y(
            inner.spec_apply_x(x, y),
            inner.spec_apply_y(x, y),
        ),
{
    lemma_apply_compose_row(outer.0, outer.2, outer.4, inner, x, y);
    lemma_apply_compose_row(outer.1, outer.3, outer.5, inner, x, y);
}

/// One row of the composition law: with outer row `(p, q, r)`, evaluating the
/// composed row equals evaluating `(p, q, r)` on the inner transform's image.
proof fn lemma_apply_compose_row(p: i64, q: i64, r: i64, inner: GlifMatrix, x: i64, y: i64)
    ensures
        wrap(
            wrap(p * inner.0 + q * inner.1) * x + wrap(p * inner.2 + q * inner.3) * y + wrap(
                p * inner.4 + q * inner.5 + r,
            ),
        ) == wrap(
            p * wrap(inner.0 * x + inner.2 * y + inner.4) + q * wrap(
                inner.1 * x + inner.3 * y + inner.5,
            ) + r,
        ),
{
    let ca = p * inner.0 + q * inner.1;
    let cc = p * inner.2 + q * inner.3;
    let ce = p * inner.4 + q * inner.5 + r;
    let u = inner.0 * x + inner.2 * y + inner.4;
    let v = inner.1 * x + inner.3 * y + inner.5;
    // Left side: drop the inner wraps one term at a time.
    lemma_cong_wrap(ca);
    lemma_mul_cong_left(wrap(ca) as int, ca, x as int);
    lemma_wrap_swap_term(wrap(ca) * x, ca * x, wrap(cc) * y + wrap(ce));
    lemma_cong_wrap(cc);
    lemma_mul_cong_left(wrap(cc) as int, cc, y as int);
    lemma_wrap_swap_term(wrap(cc) * y, cc * y, ca * x + wrap(ce));
    lemma_cong_wrap(ce);
    lemma_wrap_swap_term(wrap(ce) as int, ce, ca * x + cc * y);
    // Right side: drop the inner wraps one term at a time.
    lemma_cong_wrap(u);
    lemma_mul_cong_right(p as int, wrap(u) as int, u);
    lemma_wrap_swap_term(p * wrap(u), p * u, q * wrap(v) + r);
    lemma_cong_wrap(v);
    lemma_mul_cong_right(q as int, wrap(v) as int, v);
    lemma_wrap_swap_term(q * wrap(v), q * v, p * u + r);
    // Both sides now wrap exact integer values; those values agree, by
    // distributing each product of sums.
    assert(ca * x == p * inner.0 * x + q * inner.1 * x) by (nonlinear_arith)
        requires
            ca == p * inner.0 + q * inner.1,
    ;
    assert(cc * y == p * inner.2 * y + q * inner.3 * y) by (nonlinear_arith)
        requires
            cc == p * inner.2 + q * inner.3,
    ;
    assert(p * u == p * inner.0 * x + p * inner.2 * y + p * inner.4) by (nonlinear_arith)
        requires
            u == inner.0 * x + inner.2 * y + inner.4,
    ;
    assert(q * v == q * inner.1 * x + q * inner.3 * y + q * inner.5) by (nonlinear_arith)
        requires
            v == inner.1 * x + inner.3 * y + inner.5,
    ;
    assert(ca * x + cc * y + ce == p * u + q * v + r);
}

} // verus!
