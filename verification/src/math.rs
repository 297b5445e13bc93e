//! Fixed-point numbers and vectors.
//!
//! A number stands for its value divided by [`ONE`]. Products and quotients
//! are rounded toward zero. Lengths are taken with the square root rounded
//! up, so that a vector brought to a length is never longer than that length.

use vstd::arithmetic::div_mod::{lemma_fundamental_div_mod, lemma_mod_bound};
use vstd::prelude::*;

verus! {

/// One whole unit in the fixed-point representation.
pub const ONE: i64 = 1_000_000;

/// The largest magnitude of a component that the products of two vectors
/// accept: a million units.
pub const COMPONENT_LIMIT: i64 = 1_000_000_000_000;

/// The largest magnitude of a component of an intermediate vector: ten to
/// the nineteenth, so that the squared length of such a vector fits in 128
/// bits.
const WIDE_LIMIT: i128 = 10_000_000_000_000_000_000;

/// A vector of mathematical integers, in fixed-point units. It is the model
/// of a [`Vec3`] and of every intermediate value that may not fit in one.
pub struct Vector {
    pub x: int,
    pub y: int,
    pub z: int,
}

/// A vector with fixed-point components.
#[derive(Debug, Clone, Copy, PartialEq, Eq, Structural)]
pub struct Vec3 {
    pub x: i64,
    pub y: i64,
    pub z: i64,
}

/// A rotation as a quaternion with fixed-point components.
#[derive(Debug, Clone, Copy, PartialEq, Eq, Structural)]
pub struct Quat {
    pub x: i64,
    pub y: i64,
    pub z: i64,
    pub w: i64,
}

impl View for Vec3 {
    type V = Vector;

    open spec fn view(&self) -> Vector {
        Vector { x: self.x as int, y: self.y as int, z: self.z as int }
    }
}

/// The quotient of `a` by a positive `b`, rounded toward zero.
pub open spec fn div_toward_zero(a: int, b: int) -> int {
    if a >= 0 {
        a / b
    } else {
        -((-a) / b)
    }
}

/// The product of two fixed-point numbers, rounded toward zero.
pub open spec fn fixed_mul(a: int, b: int) -> int {
    div_toward_zero(a * b, ONE as int)
}

/// The magnitude of a number.
pub open spec fn magnitude(c: int) -> int {
    if c >= 0 {
        c
    } else {
        -c
    }
}

/// The least natural number whose square is at least `n`.
pub open spec fn ceil_sqrt(n: nat) -> nat
    decreases n,
{
    if n == 0 {
        0
    } else {
        let below = ceil_sqrt((n - 1) as nat);
        if below * below >= n {
            below
        } else {
            below + 1
        }
    }
}

/// Whether `root` is the least natural number whose square is at least `n`.
pub open spec fn is_ceil_sqrt(n: nat, root: nat) -> bool {
    &&& root * root >= n
    &&& root > 0 ==> (root - 1) * (root - 1) < n
}

impl Vector {
    /// The vector whose components are all zero.
    pub open spec fn zero() -> Vector {
        Vector { x: 0, y: 0, z: 0 }
    }

    /// The upward axis: one unit along `y`.
    pub open spec fn unit_y() -> Vector {
        Vector { x: 0, y: ONE as int, z: 0 }
    }

    /// The sum of two vectors.
    pub open spec fn plus(self, rhs: Vector) -> Vector {
        Vector { x: self.x + rhs.x, y: self.y + rhs.y, z: self.z + rhs.z }
    }

    /// The opposite vector.
    pub open spec fn negated(self) -> Vector {
        Vector { x: -self.x, y: -self.y, z: -self.z }
    }

    /// The dot product, in squared fixed-point units.
    pub open spec fn dot(self, rhs: Vector) -> int {
        self.x * rhs.x + self.y * rhs.y + self.z * rhs.z
    }

    /// The square of the length, in squared fixed-point units.
    pub open spec fn length_squared(self) -> int {
        self.dot(self)
    }

    /// Whether no component exceeds `bound` in magnitude.
    pub open spec fn within(self, bound: int) -> bool {
        &&& -bound <= self.x <= bound
        &&& -bound <= self.y <= bound
        &&& -bound <= self.z <= bound
    }

    /// The vector times the fixed-point number `factor`.
    pub open spec fn scaled(self, factor: int) -> Vector {
        Vector {
            x: fixed_mul(self.x, factor),
            y: fixed_mul(self.y, factor),
            z: fixed_mul(self.z, factor),
        }
    }

    /// The cross product of two fixed-point vectors.
    pub open spec fn cross(self, rhs: Vector) -> Vector {
        Vector {
            x: div_toward_zero(self.y * rhs.z - self.z * rhs.y, ONE as int),
            y: div_toward_zero(self.z * rhs.x - self.x * rhs.z, ONE as int),
            z: div_toward_zero(self.x * rhs.y - self.y * rhs.x, ONE as int),
        }
    }

    /// The vector turned by a quarter turn about the upward axis.
    pub open spec fn quarter_turn_y(self) -> Vector {
        Vector { x: self.z, y: self.y, z: -self.x }
    }

    /// The vector stretched or shrunk toward the given length: every
    /// component times `length`, over the length of the vector rounded up,
    /// rounded toward zero. The result is never longer than `length`.
    pub open spec fn with_length(self, length: int) -> Vector {
        let root = ceil_sqrt(self.length_squared() as nat) as int;
        Vector {
            x: div_toward_zero(self.x * length, root),
            y: div_toward_zero(self.y * length, root),
            z: div_toward_zero(self.z * length, root),
        }
    }

    /// The direction of the vector, of length one unit at most. The zero
    /// vector has no direction and is its own normalization.
    pub open spec fn normalized(self) -> Vector {
        if self.length_squared() == 0 {
            Vector::zero()
        } else {
            self.with_length(ONE as int)
        }
    }

    /// The vector, shrunk to length `max` if it is longer.
    pub open spec fn clamped(self, max: int) -> Vector {
        if self.length_squared() <= max * max {
            self
        } else {
            self.with_length(max)
        }
    }

    /// Whether every component fits in 64 bits.
    pub open spec fn fits(self) -> bool {
        &&& i64::MIN <= self.x <= i64::MAX
        &&& i64::MIN <= self.y <= i64::MAX
        &&& i64::MIN <= self.z <= i64::MAX
    }

    /// The vector with these components; it is meant for one that
    /// [`fits`](Vector::fits), and then its view is the vector again.
    pub open spec fn to_vec3(self) -> Vec3
        recommends
            self.fits(),
    {
        Vec3 { x: self.x as i64, y: self.y as i64, z: self.z as i64 }
    }
}

/// The least root whose square reaches `n`.
pub fn ceil_sqrt_u128(n: u128) -> (root: u128)
    ensures
        root == ceil_sqrt(n as nat),
{
    if n == 0 {
        return 0;
    }
    let mut low: u128 = 0;
    let mut high: u128 = 0x1_0000_0000_0000_0000;
    assert(high * high >= n) by (nonlinear_arith)
        requires
            high == 0x1_0000_0000_0000_0000,
            n <= u128::MAX,
    ;
    while high - low > 1
        invariant
            low < high <= 0x1_0000_0000_0000_0000,
            low * low < n,
            high * high >= n,
        decreases high - low,
    {
        let middle: u128 = low + (high - low) / 2;
        assert(middle * middle <= u128::MAX) by (nonlinear_arith)
            requires
                0 <= middle <= 0xffff_ffff_ffff_ffff,
        ;
        if middle * middle >= n {
            high = middle;
        } else {
            low = middle;
        }
    }
    proof {
        lemma_ceil_sqrt_unique(n as nat, high as nat);
    }
    high
}

/// The quotient of `a` by `b`, rounded toward zero.
fn div_toward_zero_i128(a: i128, b: u128) -> (q: i128)
    requires
        b > 0,
        a > i128::MIN,
    ensures
        q == div_toward_zero(a as int, b as int),
{
    if a >= 0 {
        let n = a as u128;
        assert(n / b <= n) by (nonlinear_arith)
            requires
                b > 0,
                n >= 0,
        ;
        (n / b) as i128
    } else {
        let n = (-a) as u128;
        assert(n / b <= n) by (nonlinear_arith)
            requires
                b > 0,
                n >= 0,
        ;
        -((n / b) as i128)
    }
}

/// The squared length of an intermediate vector.
fn length_squared_wide(x: i128, y: i128, z: i128) -> (n: u128)
    requires
        (Vector { x: x as int, y: y as int, z: z as int }).within(WIDE_LIMIT as int),
    ensures
        n == (Vector { x: x as int, y: y as int, z: z as int }).length_squared(),
{
    proof {
        lemma_product_bound(x as int, x as int, WIDE_LIMIT as int, WIDE_LIMIT as int);
        lemma_product_bound(y as int, y as int, WIDE_LIMIT as int, WIDE_LIMIT as int);
        lemma_product_bound(z as int, z as int, WIDE_LIMIT as int, WIDE_LIMIT as int);
        lemma_sum_of_squares(x as int, y as int, z as int);
    }
    let xx = (x * x) as u128;
    let yy = (y * y) as u128;
    let zz = (z * z) as u128;
    xx + yy + zz
}

/// An intermediate vector resized toward `length`.
fn resized(x: i128, y: i128, z: i128, length: i64) -> (v: Vec3)
    requires
        (Vector { x: x as int, y: y as int, z: z as int }).within(WIDE_LIMIT as int),
        (Vector { x: x as int, y: y as int, z: z as int }).length_squared() > 0,
        length >= 0,
    ensures
        v@ == (Vector { x: x as int, y: y as int, z: z as int }).with_length(length as int),
{
    let ghost wide = Vector { x: x as int, y: y as int, z: z as int };
    let root = ceil_sqrt_u128(length_squared_wide(x, y, z));
    proof {
        lemma_with_length(wide, length as int);
        lemma_ceil_sqrt(wide.length_squared() as nat);
        lemma_product_bound(x as int, length as int, WIDE_LIMIT as int, i64::MAX as int);
        lemma_product_bound(y as int, length as int, WIDE_LIMIT as int, i64::MAX as int);
        lemma_product_bound(z as int, length as int, WIDE_LIMIT as int, i64::MAX as int);
    }
    let length = length as i128;
    Vec3 {
        x: div_toward_zero_i128(x * length, root) as i64,
        y: div_toward_zero_i128(y * length, root) as i64,
        z: div_toward_zero_i128(z * length, root) as i64,
    }
}

impl Vec3 {
    /// The vector whose components are all zero.
    pub open spec fn spec_zero() -> Vec3 {
        Vec3 { x: 0, y: 0, z: 0 }
    }

    /// The vector whose components are all one unit.
    pub open spec fn spec_one() -> Vec3 {
        Vec3 { x: ONE, y: ONE, z: ONE }
    }

    /// The vector whose components are all zero.
    #[verifier::when_used_as_spec(spec_zero)]
    pub fn zero() -> (v: Vec3)
        ensures
            v == Vec3::spec_zero(),
    {
        Vec3 { x: 0, y: 0, z: 0 }
    }

    /// The vector whose components are all one unit.
    #[verifier::when_used_as_spec(spec_one)]
    pub fn one() -> (v: Vec3)
        ensures
            v == Vec3::spec_one(),
    {
        Vec3 { x: ONE, y: ONE, z: ONE }
    }

    /// One unit along the upward axis.
    pub fn unit_y() -> (v: Vec3)
        ensures
            v@ == Vector::unit_y(),
    {
        Vec3 { x: 0, y: ONE, z: 0 }
    }

    /// The direction of the vector; the zero vector is its own direction.
    pub fn normalize(self) -> (v: Vec3)
        ensures
            v@ == self@.normalized(),
    {
        proof {
            lemma_sum_of_squares(self.x as int, self.y as int, self.z as int);
        }
        if self.x == 0 && self.y == 0 && self.z == 0 {
            Vec3::zero()
        } else {
            resized(self.x as i128, self.y as i128, self.z as i128, ONE)
        }
    }

    /// The opposite vector.
    pub fn negated(self) -> (v: Vec3)
        requires
            self@.within(i64::MAX as int),
        ensures
            v@ == self@.negated(),
    {
        Vec3 { x: -self.x, y: -self.y, z: -self.z }
    }

    /// The vector turned by a quarter turn about the upward axis.
    pub fn quarter_turn_y(self) -> (v: Vec3)
        requires
            self.x > i64::MIN,
        ensures
            v@ == self@.quarter_turn_y(),
    {
        Vec3 { x: self.z, y: self.y, z: -self.x }
    }

    /// The vector times the fixed-point number `factor`.
    pub fn scaled(self, factor: i64) -> (v: Vec3)
        requires
            self@.within(COMPONENT_LIMIT as int),
            -COMPONENT_LIMIT <= factor <= COMPONENT_LIMIT,
        ensures
            v@ == self@.scaled(factor as int),
    {
        let ghost limit = COMPONENT_LIMIT as int;
        proof {
            lemma_product_bound(self.x as int, factor as int, limit, limit);
            lemma_product_bound(self.y as int, factor as int, limit, limit);
            lemma_product_bound(self.z as int, factor as int, limit, limit);
        }
        let factor = factor as i128;
        Vec3 {
            x: div_toward_zero_i128(self.x as i128 * factor, ONE as u128) as i64,
            y: div_toward_zero_i128(self.y as i128 * factor, ONE as u128) as i64,
            z: div_toward_zero_i128(self.z as i128 * factor, ONE as u128) as i64,
        }
    }

    /// The cross product with `rhs`.
    pub fn cross(self, rhs: Vec3) -> (v: Vec3)
        requires
            self@.within(COMPONENT_LIMIT as int),
            rhs@.within(COMPONENT_LIMIT as int),
        ensures
            v@ == self@.cross(rhs@),
    {
        let ghost limit = COMPONENT_LIMIT as int;
        proof {
            lemma_product_bound(self.y as int, rhs.z as int, limit, limit);
            lemma_product_bound(self.z as int, rhs.y as int, limit, limit);
            lemma_product_bound(self.z as int, rhs.x as int, limit, limit);
            lemma_product_bound(self.x as int, rhs.z as int, limit, limit);
            lemma_product_bound(self.x as int, rhs.y as int, limit, limit);
            lemma_product_bound(self.y as int, rhs.x as int, limit, limit);
        }
        let (ax, ay, az) = (self.x as i128, self.y as i128, self.z as i128);
        let (bx, by, bz) = (rhs.x as i128, rhs.y as i128, rhs.z as i128);
        Vec3 {
            x: div_toward_zero_i128(ay * bz - az * by, ONE as u128) as i64,
            y: div_toward_zero_i128(az * bx - ax * bz, ONE as u128) as i64,
            z: div_toward_zero_i128(ax * by - ay * bx, ONE as u128) as i64,
        }
    }

    /// The sum with `delta`, shrunk to length `max` if it is longer. The sum
    /// is taken exactly: it cannot overflow.
    pub fn plus_clamped(self, delta: Vec3, max: i64) -> (v: Vec3)
        requires
            delta@.within(COMPONENT_LIMIT as int),
            max >= 0,
        ensures
            v@ == self@.plus(delta@).clamped(max as int),
    {
        let x = self.x as i128 + delta.x as i128;
        let y = self.y as i128 + delta.y as i128;
        let z = self.z as i128 + delta.z as i128;
        let bound = max as u128;
        proof {
            lemma_product_bound(max as int, max as int, i64::MAX as int, i64::MAX as int);
            lemma_sum_of_squares(x as int, y as int, z as int);
        }
        if length_squared_wide(x, y, z) <= bound * bound {
            proof {
                lemma_component_within(x as int, max as int);
                lemma_component_within(y as int, max as int);
                lemma_component_within(z as int, max as int);
            }
            Vec3 { x: x as i64, y: y as i64, z: z as i64 }
        } else {
            resized(x, y, z, max)
        }
    }
}

impl Quat {
    /// The rotation that turns nothing.
    pub open spec fn spec_identity() -> Quat {
        Quat { x: 0, y: 0, z: 0, w: ONE }
    }

    /// The rotation that turns nothing.
    #[verifier::when_used_as_spec(spec_identity)]
    pub fn identity() -> (q: Quat)
        ensures
            q == Quat::spec_identity(),
    {
        Quat { x: 0, y: 0, z: 0, w: ONE }
    }
}

/// [`ceil_sqrt`] is the least root whose square reaches `n`.
pub proof fn lemma_ceil_sqrt(n: nat)
    ensures
        is_ceil_sqrt(n, ceil_sqrt(n)),
    decreases n,
{
    if n > 0 {
        lemma_ceil_sqrt((n - 1) as nat);
        let below = ceil_sqrt((n - 1) as nat);
        if below * below < n {
            assert((below + 1) * (below + 1) >= n) by (nonlinear_arith)
                requires
                    below * below >= n - 1,
            ;
        }
    }
}

/// Only one number is the least root whose square reaches `n`.
pub proof fn lemma_ceil_sqrt_unique(n: nat, root: nat)
    requires
        is_ceil_sqrt(n, root),
    ensures
        root == ceil_sqrt(n),
{
    lemma_ceil_sqrt(n);
    let other = ceil_sqrt(n);
    if root < other {
        assert(root * root <= (other - 1) * (other - 1)) by (nonlinear_arith)
            requires
                0 <= root <= other - 1,
        ;
    }
    if other < root {
        assert(other * other <= (root - 1) * (root - 1)) by (nonlinear_arith)
            requires
                0 <= other <= root - 1,
        ;
    }
}

/// A number whose square is at most the square of `root` is at most `root`.
pub proof fn lemma_square_order(a: int, root: int)
    requires
        0 <= a,
        0 <= root,
        a * a <= root * root,
    ensures
        a <= root,
{
    if a > root {
        assert(a * a > root * root) by (nonlinear_arith)
            requires
                0 <= root < a,
        ;
    }
}

/// A component whose square is at most the square of `bound` lies within
/// `bound`.
pub proof fn lemma_component_within(c: int, bound: int)
    requires
        bound >= 0,
        c * c <= bound * bound,
    ensures
        -bound <= c <= bound,
{
    let a = magnitude(c);
    assert(a * a == c * c) by (nonlinear_arith)
        requires
            a == c || a == -c,
    ;
    lemma_square_order(a, bound);
}

/// The product of two bounded numbers is bounded by the product of the bounds.
proof fn lemma_product_bound(a: int, b: int, bound_a: int, bound_b: int)
    by (nonlinear_arith)
    requires
        -bound_a <= a <= bound_a,
        -bound_b <= b <= bound_b,
    ensures
        -(bound_a * bound_b) <= a * b <= bound_a * bound_b,
{
}

/// Squares are not negative, none of three squares is larger than their sum,
/// and the sum is zero only if each number is zero.
proof fn lemma_sum_of_squares(x: int, y: int, z: int)
    by (nonlinear_arith)
    ensures
        x * x >= 0,
        y * y >= 0,
        z * z >= 0,
        x * x <= x * x + y * y + z * z,
        y * y <= x * x + y * y + z * z,
        z * z <= x * x + y * y + z * z,
        x * x + y * y + z * z == 0 <==> x == 0 && y == 0 && z == 0,
{
}

/// A vector whose components lie within `bound` is at most the diagonal of
/// the cube long.
pub proof fn lemma_within_length(v: Vector, bound: int)
    requires
        v.within(bound),
    ensures
        0 <= v.length_squared() <= 3 * (bound * bound),
{
    lemma_product_bound(v.x, v.x, bound, bound);
    lemma_product_bound(v.y, v.y, bound, bound);
    lemma_product_bound(v.z, v.z, bound, bound);
    lemma_sum_of_squares(v.x, v.y, v.z);
}

/// The squared length of a sum: the squared lengths of both vectors and
/// twice their dot product.
pub proof fn lemma_length_of_sum(a: Vector, b: Vector)
    ensures
        a.plus(b).length_squared() == a.length_squared() + 2 * a.dot(b) + b.length_squared(),
{
    assert((a.x + b.x) * (a.x + b.x) == a.x * a.x + 2 * (a.x * b.x) + b.x * b.x)
        by (nonlinear_arith);
    assert((a.y + b.y) * (a.y + b.y) == a.y * a.y + 2 * (a.y * b.y) + b.y * b.y)
        by (nonlinear_arith);
    assert((a.z + b.z) * (a.z + b.z) == a.z * a.z + 2 * (a.z * b.z) + b.z * b.z)
        by (nonlinear_arith);
}

/// The cross product of the upward axis with a vector lies in the horizontal
/// plane, a quarter turn away from the vector's own horizontal part.
pub proof fn lemma_cross_unit_y(v: Vector)
    ensures
        Vector::unit_y().cross(v) == (Vector { x: v.z, y: 0, z: -v.x }),
{
    let one = ONE as int;
    let up = Vector::unit_y();
    assert(up.y * v.z - up.z * v.y == one * v.z) by (nonlinear_arith)
        requires
            up.y == one,
            up.z == 0,
    ;
    assert(up.z * v.x - up.x * v.z == 0) by (nonlinear_arith)
        requires
            up.x == 0,
            up.z == 0,
    ;
    assert(up.x * v.y - up.y * v.x == -(one * v.x)) by (nonlinear_arith)
        requires
            up.x == 0,
            up.y == one,
    ;
}

/// Rounding toward zero works on magnitudes: the quotient of `c * length` by
/// `root` has the sign of `c`, and its magnitude is the quotient of the
/// magnitudes, rounded down.
proof fn lemma_quotient_magnitude(c: int, length: int, root: int)
    requires
        root > 0,
        length >= 0,
    ensures
        ({
            let q = div_toward_zero(c * length, root);
            let floor = (magnitude(c) * length) / root;
            &&& magnitude(q) == floor
            &&& c >= 0 ==> q >= 0
            &&& c <= 0 ==> q <= 0
            &&& floor * root <= magnitude(c) * length < floor * root + root
            &&& q * q == floor * floor
            &&& magnitude(c) * magnitude(c) == c * c
        }),
{
    let a = magnitude(c);
    assert(a * a == c * c) by (nonlinear_arith)
        requires
            a == c || a == -c,
    ;
    let p = a * length;
    assert(p >= 0) by (nonlinear_arith)
        requires
            p == a * length,
            a >= 0,
            length >= 0,
    ;
    let floor = p / root;
    lemma_fundamental_div_mod(p, root);
    lemma_mod_bound(p, root);
    let rest = p % root;
    assert(floor >= 0 && floor * root <= p < floor * root + root) by (nonlinear_arith)
        requires
            p == root * floor + rest,
            0 <= rest < root,
            p >= 0,
    ;
    if c == 0 {
        assert(p == 0) by (nonlinear_arith)
            requires
                p == a * length,
                a == 0,
        ;
        assert(0int / root == 0) by (nonlinear_arith)
            requires
                root > 0,
        ;
    } else if c > 0 {
        assert(c * length == p);
    } else {
        assert(c * length == -p) by (nonlinear_arith)
            requires
                p == a * length,
                a == -c,
        ;
        if p == 0 {
            assert(0int / root == 0) by (nonlinear_arith)
                requires
                    root > 0,
            ;
        }
    }
    let q = div_toward_zero(c * length, root);
    assert(q == floor || q == -floor);
    assert(q * q == floor * floor) by (nonlinear_arith)
        requires
            q == floor || q == -floor,
    ;
}

/// One component of a resized vector: it keeps its sign, is at most `length`
/// in magnitude, and its square is bounded as the component's share of the
/// squared length.
proof fn lemma_resized_component(c: int, length: int, root: int)
    requires
        root > 0,
        length >= 0,
        c * c <= root * root,
    ensures
        ({
            let q = div_toward_zero(c * length, root);
            &&& -length <= q <= length
            &&& c >= 0 ==> q >= 0
            &&& c <= 0 ==> q <= 0
            &&& (q * q) * (root * root) <= (c * c) * (length * length)
        }),
{
    let a = magnitude(c);
    let floor = (a * length) / root;
    lemma_quotient_magnitude(c, length, root);
    lemma_square_order(a, root);
    assert(floor <= length) by (nonlinear_arith)
        requires
            floor * root <= a * length,
            0 <= a <= root,
            root > 0,
            length >= 0,
            floor >= 0,
    ;
    assert((floor * floor) * (root * root) <= (a * a) * (length * length)) by (nonlinear_arith)
        requires
            0 <= floor * root <= a * length,
            floor >= 0,
            root > 0,
    ;
}

/// One component of a resized vector loses less than one to rounding: its
/// magnitude plus one, squared, exceeds the component's share of the squared
/// length.
proof fn lemma_resized_component_rounding(c: int, length: int, root: int)
    requires
        root > 0,
        length >= 0,
    ensures
        ({
            let next = magnitude(div_toward_zero(c * length, root)) + 1;
            (next * next) * (root * root) >= (c * c) * (length * length) + 1
        }),
{
    let a = magnitude(c);
    let p = a * length;
    let next = p / root + 1;
    lemma_quotient_magnitude(c, length, root);
    assert(next * root >= p + 1) by (nonlinear_arith)
        requires
            p < (next - 1) * root + root,
    ;
    assert((next * next) * (root * root) >= p * p + 1) by (nonlinear_arith)
        requires
            next * root >= p + 1,
            p >= 0,
    ;
    assert(p * p == (a * a) * (length * length)) by (nonlinear_arith)
        requires
            p == a * length,
    ;
}

/// A resized vector is never longer than the length asked for, and none of
/// its components exceeds that length.
pub proof fn lemma_with_length(v: Vector, length: int)
    requires
        v.length_squared() > 0,
        length >= 0,
    ensures
        v.with_length(length).within(length),
        v.with_length(length).length_squared() <= length * length,
{
    let n = v.length_squared();
    let root = ceil_sqrt(n as nat) as int;
    lemma_ceil_sqrt(n as nat);
    let r2 = root * root;
    let l2 = length * length;
    let (xx, yy, zz) = (v.x * v.x, v.y * v.y, v.z * v.z);
    assert(xx >= 0 && yy >= 0 && zz >= 0) by (nonlinear_arith)
        requires
            xx == v.x * v.x,
            yy == v.y * v.y,
            zz == v.z * v.z,
    ;
    assert(root > 0) by (nonlinear_arith)
        requires
            root * root >= n,
            n > 0,
            root >= 0,
    ;
    lemma_resized_component(v.x, length, root);
    lemma_resized_component(v.y, length, root);
    lemma_resized_component(v.z, length, root);
    let w = v.with_length(length);
    let (wx, wy, wz) = (w.x * w.x, w.y * w.y, w.z * w.z);
    assert(w.length_squared() == wx + wy + wz);
    assert((wx + wy + wz) * r2 <= (xx + yy + zz) * l2) by (nonlinear_arith)
        requires
            wx * r2 <= xx * l2,
            wy * r2 <= yy * l2,
            wz * r2 <= zz * l2,
    ;
    assert(l2 >= 0) by (nonlinear_arith)
        requires
            l2 == length * length,
    ;
    assert(wx + wy + wz <= l2) by (nonlinear_arith)
        requires
            (wx + wy + wz) * r2 <= n * l2,
            n <= r2,
            r2 > 0,
            l2 >= 0,
    ;
}

/// Resizing a longer vector loses little to rounding: the result is less than
/// three short of the length asked for.
pub proof fn lemma_with_length_is_close(v: Vector, length: int)
    requires
        length >= 3,
        v.length_squared() > length * length,
    ensures
        v.with_length(length).length_squared() >= (length - 3) * (length - 3),
{
    let n = v.length_squared();
    let root = ceil_sqrt(n as nat) as int;
    lemma_ceil_sqrt(n as nat);
    let r2 = root * root;
    let l2 = length * length;
    if root <= length {
        assert(root * root <= length * length) by (nonlinear_arith)
            requires
                0 <= root <= length,
        ;
    }
    assert(root > length);
    let w = v.with_length(length);
    let (qx, qy, qz) = (magnitude(w.x), magnitude(w.y), magnitude(w.z));
    let (ex, ey, ez) = ((qx + 1) * (qx + 1), (qy + 1) * (qy + 1), (qz + 1) * (qz + 1));
    let (xx, yy, zz) = (v.x * v.x, v.y * v.y, v.z * v.z);
    lemma_resized_component_rounding(v.x, length, root);
    lemma_resized_component_rounding(v.y, length, root);
    lemma_resized_component_rounding(v.z, length, root);
    let e = ex + ey + ez;
    assert(e * r2 >= n * l2 + 3) by (nonlinear_arith)
        requires
            ex * r2 >= xx * l2 + 1,
            ey * r2 >= yy * l2 + 1,
            ez * r2 >= zz * l2 + 1,
            e == ex + ey + ez,
            n == xx + yy + zz,
    ;
    // The roots: (length - 1) * root < (root - 1) * length, and so for the squares.
    let low = (length - 1) * root;
    let high = (root - 1) * length;
    assert(0 <= low < high) by (nonlinear_arith)
        requires
            low == (length - 1) * root,
            high == (root - 1) * length,
            root > length,
            length >= 3,
    ;
    assert(low * low <= high * high) by (nonlinear_arith)
        requires
            0 <= low < high,
    ;
    let t1 = (length - 1) * (length - 1);
    let below = (root - 1) * (root - 1);
    assert(low * low == t1 * r2) by (nonlinear_arith)
        requires
            low == (length - 1) * root,
            t1 == (length - 1) * (length - 1),
            r2 == root * root,
    ;
    assert(high * high == below * l2) by (nonlinear_arith)
        requires
            high == (root - 1) * length,
            below == (root - 1) * (root - 1),
            l2 == length * length,
    ;
    assert(below * l2 <= n * l2) by (nonlinear_arith)
        requires
            below < n,
            l2 == length * length,
    ;
    assert(e > t1) by (nonlinear_arith)
        requires
            e * r2 >= n * l2 + 3,
            t1 * r2 <= n * l2,
            r2 == root * root,
            root > 0,
    ;
    // From the magnitudes plus one back to the magnitudes.
    let q = qx * qx + qy * qy + qz * qz;
    let sum = qx + qy + qz;
    assert(e == q + 2 * sum + 3) by (nonlinear_arith)
        requires
            e == (qx + 1) * (qx + 1) + (qy + 1) * (qy + 1) + (qz + 1) * (qz + 1),
            q == qx * qx + qy * qy + qz * qz,
            sum == qx + qy + qz,
    ;
    assert(sum * sum <= 3 * q) by (nonlinear_arith)
        requires
            q == qx * qx + qy * qy + qz * qz,
            sum == qx + qy + qz,
    ;
    let u = length - 3;
    assert(t1 == u * u + 4 * u + 4) by (nonlinear_arith)
        requires
            t1 == (length - 1) * (length - 1),
            u == length - 3,
    ;
    if q < u * u {
        if sum >= 2 * u {
            assert(sum * sum >= 4 * (u * u)) by (nonlinear_arith)
                requires
                    sum >= 2 * u,
                    u >= 0,
            ;
        }
        assert(sum <= 2 * u - 1);
        assert(e <= u * u + 4 * u);
    }
    assert(w.x * w.x == qx * qx && w.y * w.y == qy * qy && w.z * w.z == qz * qz)
        by (nonlinear_arith)
        requires
            qx == w.x || qx == -w.x,
            qy == w.y || qy == -w.y,
            qz == w.z || qz == -w.z,
    ;
}

/// A direction is at most one unit long, and so is each of its components.
pub proof fn lemma_normalized(v: Vector)
    ensures
        v.normalized().within(ONE as int),
        v.normalized().length_squared() <= ONE * ONE,
{
    lemma_sum_of_squares(v.x, v.y, v.z);
    if v.length_squared() != 0 {
        lemma_with_length(v, ONE as int);
    }
}

/// Clamping bounds the length: whatever the vector, the clamped vector is no
/// longer than `max`.
pub proof fn lemma_clamped_length(v: Vector, max: int)
    requires
        max >= 0,
    ensures
        v.clamped(max).length_squared() <= max * max,
{
    if v.length_squared() > max * max {
        assert(max * max >= 0) by (nonlinear_arith);
        lemma_with_length(v, max);
    }
}

} // verus!
