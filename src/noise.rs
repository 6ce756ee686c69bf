use vstd::prelude::*;

verus! {

/// One full unit of a lattice corner value: corners hold the top 24 bits of a hash.
pub const CORNER_UNIT: u128 = 0x100_0000;

/// The coordinate mixer, bit for bit: the value every other layer is drawn from.
pub open spec fn hash_value(seed: u32, x: i32, y: i32, salt: u32) -> u32 {
    let h0 = seed ^ salt ^ (x as u32);
    let h1 = h0.wrapping_mul(0x9C2F_9653u32);
    let h2 = (h1 << 16u32) | (h1 >> 16u32);
    let h3 = h2 ^ (y as u32);
    let h4 = h3.wrapping_mul(0xFA10_CDDFu32);
    let h5 = (h4 << 13u32) | (h4 >> 19u32);
    let h6 = h5 ^ (h5 >> 16u32);
    let h7 = h6.wrapping_mul(0xC2B2_AE35u32);
    h7 ^ (h7 >> 16u32)
}

/// Mixes a seed, a coordinate and a salt into a well-spread 32-bit value.
pub fn hash(seed: u32, x: i32, y: i32, salt: u32) -> (r: u32)
    ensures
        r == hash_value(seed, x, y, salt),
{
    let mut h: u32 = seed ^ salt;
    h = h ^ (x as u32);
    h = h.wrapping_mul(0x9C2F_9653u32);
    h = (h << 16u32) | (h >> 16u32);
    h = h ^ (y as u32);
    h = h.wrapping_mul(0xFA10_CDDFu32);
    h = (h << 13u32) | (h >> 19u32);
    h = h ^ (h >> 16u32);
    h = h.wrapping_mul(0xC2B2_AE35u32);
    h = h ^ (h >> 16u32);
    h
}

/// The value of a lattice corner: the hash with its low 8 bits dropped, in `[0, CORNER_UNIT)`.
pub open spec fn corner(seed: u32, cx: int, cy: int, salt: u32) -> int {
    (hash_value(seed, cx as i32, cy as i32, salt) >> 8u32) as int
}

/// Smoothstep `3t^2 - 2t^3` at `t = r / c`, scaled by `c^3`.
pub open spec fn ease(r: int, c: int) -> int {
    r * r * (3 * c - 2 * r)
}

/// The complementary weight `c^3 - ease(r, c)`, in its factored form.
pub open spec fn ease_rest(r: int, c: int) -> int {
    (c - r) * (c - r) * (c + 2 * r)
}

/// The denominator of a noise value for cells of side `c`.
pub open spec fn noise_scale(c: int) -> int {
    CORNER_UNIT * (c * c * c) * (c * c * c)
}

/// Bilinear interpolation of four corners with eased weights, as a numerator over
/// `noise_scale(c)`.
#[verifier::opaque]
pub open spec fn blend(v00: int, v10: int, v01: int, v11: int, wx: int, rx: int, wy: int, ry: int) -> int {
    (v00 * rx + v10 * wx) * ry + (v01 * rx + v11 * wx) * wy
}

/// Value noise at `(x, y)` for cells of side `c`: the numerator of a fraction over
/// `noise_scale(c)`, which lies in `[0, 1)`.
#[verifier::opaque]
pub open spec fn noise_value(seed: u32, x: int, y: int, c: int, salt: u32) -> int {
    let cx = x / c;
    let cy = y / c;
    let fx = x - cx * c;
    let fy = y - cy * c;
    blend(
        corner(seed, cx, cy, salt),
        corner(seed, cx + 1, cy, salt),
        corner(seed, cx, cy + 1, salt),
        corner(seed, cx + 1, cy + 1, salt),
        ease(fx, c),
        ease_rest(fx, c),
        ease(fy, c),
        ease_rest(fy, c),
    )
}

/// Whether a noise value lies strictly below the fraction `p / q`.
pub open spec fn noise_below(n: int, c: int, p: int, q: int) -> bool {
    n * q < p * noise_scale(c)
}

/// Whether a noise value lies strictly above the fraction `p / q`.
pub open spec fn noise_above(n: int, c: int, p: int, q: int) -> bool {
    n * q > p * noise_scale(c)
}

/// Floor division: rounds toward negative infinity, also for negative `a`.
pub fn div_floor(a: i32, b: i32) -> (r: i32)
    requires
        b > 0,
    ensures
        r as int == a as int / b as int,
{
    if a >= 0 {
        a / b
    } else {
        // floor(a / b) == -1 - floor((-a - 1) / b) for a < 0 < b
        let n: i32 = -(a + 1);
        let q: i32 = n / b;
        proof {
            let ai = a as int;
            let bi = b as int;
            let qi = q as int;
            assert(qi == (-ai - 1) / bi);
            vstd::arithmetic::div_mod::lemma_fundamental_div_mod(-ai - 1, bi);
            vstd::arithmetic::div_mod::lemma_fundamental_div_mod(ai, bi);
            let m = (-ai - 1) % bi;
            assert(0 <= m < bi);
            assert(ai == bi * (-1 - qi) + (bi - 1 - m)) by (nonlinear_arith)
                requires
                    -ai - 1 == bi * qi + m,
            ;
            vstd::arithmetic::div_mod::lemma_fundamental_div_mod_converse(ai, bi, -1 - qi, bi - 1 - m);
        }
        -1 - q
    }
}

proof fn lemma_ease_split(r: int, c: int)
    requires
        0 <= r < c,
    ensures
        ease(r, c) + ease_rest(r, c) == c * c * c,
        0 <= ease(r, c) <= c * c * c,
        0 <= ease_rest(r, c) <= c * c * c,
{
    assert(ease(r, c) + ease_rest(r, c) == c * c * c) by (nonlinear_arith);
    assert(0 <= ease(r, c)) by (nonlinear_arith)
        requires
            0 <= r < c,
    ;
    assert(0 <= ease_rest(r, c)) by (nonlinear_arith)
        requires
            0 <= r < c,
    ;
}

proof fn lemma_lerp_bound(a: int, b: int, wa: int, wb: int, top: int)
    requires
        0 <= a < top,
        0 <= b < top,
        0 <= wa,
        0 <= wb,
        wa + wb > 0,
    ensures
        0 <= a * wa + b * wb < top * (wa + wb),
{
    assert(0 <= a * wa + b * wb < top * (wa + wb)) by (nonlinear_arith)
        requires
            0 <= a < top,
            0 <= b < top,
            0 <= wa,
            0 <= wb,
            wa + wb > 0,
    ;
}

/// The corner value of an exec hash, as `u128`.
fn corner_at(seed: u32, cx: i32, cy: i32, salt: u32) -> (r: u128)
    ensures
        r as int == corner(seed, cx as int, cy as int, salt),
        r < CORNER_UNIT,
{
    let h = hash(seed, cx, cy, salt);
    assert((h >> 8u32) < 0x100_0000u32) by (bit_vector);
    (h >> 8u32) as u128
}

/// `c^3` for a cell side that keeps every noise term within `u128`.
fn cube(c: u128) -> (r: u128)
    requires
        2 <= c <= 1024,
    ensures
        r as int == c * c * c,
        0 < r <= 0x4000_0000,
{
    assert(0 < c * c * c) by (nonlinear_arith)
        requires
            2 <= c,
    ;
    assert(c * c <= 0x10_0000) by (nonlinear_arith)
        requires
            c <= 1024,
    ;
    assert(c * c * c <= 0x4000_0000) by (nonlinear_arith)
        requires
            c <= 1024,
            c * c <= 0x10_0000,
    ;
    c * c * c
}

/// The denominator of [`value_noise_2d`] for cells of side `cell_size`.
pub fn noise_denominator(cell_size: i32) -> (r: u128)
    requires
        2 <= cell_size <= 1024,
    ensures
        r as int == noise_scale(cell_size as int),
        r <= 0x1000_0000_0000_0000_0000_0000,
{
    let d = cube(cell_size as u128);
    proof {
        lemma_mul_bounded(d as int, d as int, 0x4000_0000);
        assert(CORNER_UNIT * (d * d) == CORNER_UNIT * d * d) by (nonlinear_arith);
    }
    CORNER_UNIT * (d * d)
}

proof fn lemma_mul_bounded(a: int, b: int, m: int)
    requires
        0 <= a <= m,
        0 <= b <= m,
    ensures
        0 <= a * b <= m * m,
{
    assert(0 <= a * b <= m * m) by (nonlinear_arith)
        requires
            0 <= a <= m,
            0 <= b <= m,
    ;
}

proof fn lemma_mul_le(a: int, b: int, ma: int, mb: int)
    requires
        0 <= a <= ma,
        0 <= b <= mb,
    ensures
        a * b <= ma * mb,
{
    assert(a * b <= ma * mb) by (nonlinear_arith)
        requires
            0 <= a <= ma,
            0 <= b <= mb,
    ;
}

/// The eased weight of an offset `f` inside a cell of side `c`, and its complement.
fn ease_weights(f: u128, c: u128) -> (r: (u128, u128))
    requires
        f < c,
        2 <= c <= 1024,
    ensures
        r.0 as int == ease(f as int, c as int),
        r.1 as int == ease_rest(f as int, c as int),
        r.0 + r.1 == c * c * c,
{
    proof {
        lemma_ease_split(f as int, c as int);
    }
    let d = cube(c);
    assert(f * f <= 0x10_0000) by (nonlinear_arith)
        requires
            f < c <= 1024,
    ;
    assert((c - f) * (c - f) <= 0x10_0000) by (nonlinear_arith)
        requires
            f < c <= 1024,
    ;
    let s = f * f * (3 * c - 2 * f);
    let rest = (c - f) * (c - f) * (c + 2 * f);
    (s, rest)
}

/// `a * wa + b * wb`, for values below `top` and weights that sum to `w`.
fn mix_weighted(a: u128, b: u128, wa: u128, wb: u128, Ghost(top): Ghost<int>, Ghost(w): Ghost<int>) -> (r: u128)
    requires
        a < top,
        b < top,
        wa + wb == w,
        w > 0,
        top * w <= 0x1_0000_0000_0000_0000_0000_0000,
    ensures
        r == a * wa + b * wb,
        r < top * w,
{
    proof {
        lemma_lerp_bound(a as int, b as int, wa as int, wb as int, top);
    }
    a * wa + b * wb
}

/// Smoothly interpolated value noise: the result is the numerator of a fraction in `[0, 1)`
/// over `noise_denominator(cell_size)`. Cells are found by floor division, so the field
/// runs on without a seam across zero; `salt` picks an independent channel.
pub fn value_noise_2d(seed: u32, x: i32, y: i32, cell_size: i32, salt: u32) -> (r: u128)
    requires
        2 <= cell_size <= 1024,
    ensures
        r as int == noise_value(seed, x as int, y as int, cell_size as int, salt),
        r < noise_scale(cell_size as int),
{
    let cx = div_floor(x, cell_size);
    let cy = div_floor(y, cell_size);
    let ghost ci = cell_size as int;
    proof {
        reveal(noise_value);
        reveal(blend);
        vstd::arithmetic::div_mod::lemma_fundamental_div_mod(x as int, ci);
        vstd::arithmetic::div_mod::lemma_fundamental_div_mod(y as int, ci);
        // a cell index is at most i32::MAX / 2, so the next one stays in range
        vstd::arithmetic::div_mod::lemma_div_is_ordered(x as int, 0x7fff_ffff, ci);
        vstd::arithmetic::div_mod::lemma_div_is_ordered(y as int, 0x7fff_ffff, ci);
        vstd::arithmetic::div_mod::lemma_div_is_ordered_by_denominator(0x7fff_ffff, 2, ci);
        let (xi, yi) = (x as int, y as int);
        assert(cx as int * ci == xi - xi % ci) by (nonlinear_arith)
            requires
                xi == ci * (xi / ci) + xi % ci,
                cx as int == xi / ci,
        ;
        assert(cy as int * ci == yi - yi % ci) by (nonlinear_arith)
            requires
                yi == ci * (yi / ci) + yi % ci,
                cy as int == yi / ci,
        ;
    }
    let fx = (x as i64 - (cx as i64) * (cell_size as i64)) as u128;
    let fy = (y as i64 - (cy as i64) * (cell_size as i64)) as u128;
    let c = cell_size as u128;
    let (sx, rx) = ease_weights(fx, c);
    let (sy, ry) = ease_weights(fy, c);
    let v00 = corner_at(seed, cx, cy, salt);
    let v10 = corner_at(seed, cx + 1, cy, salt);
    let v01 = corner_at(seed, cx, cy + 1, salt);
    let v11 = corner_at(seed, cx + 1, cy + 1, salt);
    let d = cube(c);
    let ghost top = CORNER_UNIT * d;
    proof {
        assert(top * d <= 0x1_0000_0000_0000_0000_0000_0000) by (nonlinear_arith)
            requires
                top == CORNER_UNIT * d,
                d <= 0x4000_0000,
        ;
        assert(top * d == noise_scale(ci)) by (nonlinear_arith)
            requires
                top == CORNER_UNIT * d,
                d == ci * ci * ci,
        ;
    }
    let lo = mix_weighted(v00, v10, rx, sx, Ghost(CORNER_UNIT as int), Ghost(d as int));
    let hi = mix_weighted(v01, v11, rx, sx, Ghost(CORNER_UNIT as int), Ghost(d as int));
    mix_weighted(lo, hi, ry, sy, Ghost(top), Ghost(d as int))
}

/// Whether the noise value `n` for cells of side `cell_size` lies below `p / q`.
pub fn is_below(n: u128, cell_size: i32, p: u128, q: u128) -> (r: bool)
    requires
        2 <= cell_size <= 1024,
        n < noise_scale(cell_size as int),
        p <= 1000,
        q <= 1000,
    ensures
        r == noise_below(n as int, cell_size as int, p as int, q as int),
{
    let scale = noise_denominator(cell_size);
    proof {
        lemma_mul_le(n as int, q as int, scale as int, 1000);
        lemma_mul_le(scale as int, p as int, scale as int, 1000);
    }
    n * q < p * scale
}

/// Whether the noise value `n` for cells of side `cell_size` lies above `p / q`.
pub fn is_above(n: u128, cell_size: i32, p: u128, q: u128) -> (r: bool)
    requires
        2 <= cell_size <= 1024,
        n < noise_scale(cell_size as int),
        p <= 1000,
        q <= 1000,
    ensures
        r == noise_above(n as int, cell_size as int, p as int, q as int),
{
    let scale = noise_denominator(cell_size);
    proof {
        lemma_mul_le(n as int, q as int, scale as int, 1000);
        lemma_mul_le(scale as int, p as int, scale as int, 1000);
    }
    n * q > p * scale
}

/// The hash separates rows: for a fixed seed, column and salt, distinct `y` give distinct
/// values, so in particular a tile and the one just below it never share a hash.
pub proof fn lemma_hash_separates_rows(seed: u32, x: i32, salt: u32, y1: i32, y2: i32)
    requires
        y1 != y2,
    ensures
        hash_value(seed, x, y1, salt) != hash_value(seed, x, y2, salt),
{
    let h0 = seed ^ salt ^ (x as u32);
    let h1 = h0.wrapping_mul(0x9C2F_9653u32);
    let h2 = (h1 << 16u32) | (h1 >> 16u32);
    let (u1, u2) = (y1 as u32, y2 as u32);
    assert(u1 != u2) by (bit_vector)
        requires
            y1 != y2,
            u1 == y1 as u32,
            u2 == y2 as u32,
    ;
    let (a3, b3) = (h2 ^ u1, h2 ^ u2);
    assert(a3 != b3) by (bit_vector)
        requires
            u1 != u2,
            a3 == h2 ^ u1,
            b3 == h2 ^ u2,
    ;
    let (a4, b4) = (a3.wrapping_mul(0xFA10_CDDFu32), b3.wrapping_mul(0xFA10_CDDFu32));
    assert(a4 != b4) by (bit_vector)
        requires
            a3 != b3,
            a4 == a3.wrapping_mul(0xFA10_CDDFu32),
            b4 == b3.wrapping_mul(0xFA10_CDDFu32),
    ;
    let (a5, b5) = ((a4 << 13u32) | (a4 >> 19u32), (b4 << 13u32) | (b4 >> 19u32));
    assert(a5 != b5) by (bit_vector)
        requires
            a4 != b4,
            a5 == (a4 << 13u32) | (a4 >> 19u32),
            b5 == (b4 << 13u32) | (b4 >> 19u32),
    ;
    let (a6, b6) = (a5 ^ (a5 >> 16u32), b5 ^ (b5 >> 16u32));
    assert(a6 != b6) by (bit_vector)
        requires
            a5 != b5,
            a6 == a5 ^ (a5 >> 16u32),
            b6 == b5 ^ (b5 >> 16u32),
    ;
    let (a7, b7) = (a6.wrapping_mul(0xC2B2_AE35u32), b6.wrapping_mul(0xC2B2_AE35u32));
    assert(a7 != b7) by (bit_vector)
        requires
            a6 != b6,
            a7 == a6.wrapping_mul(0xC2B2_AE35u32),
            b7 == b6.wrapping_mul(0xC2B2_AE35u32),
    ;
    let (a8, b8) = (a7 ^ (a7 >> 16u32), b7 ^ (b7 >> 16u32));
    assert(a8 != b8) by (bit_vector)
        requires
            a7 != b7,
            a8 == a7 ^ (a7 >> 16u32),
            b8 == b7 ^ (b7 >> 16u32),
    ;
}

/// A blend is affine in its eased weight `e` (with complement `w - e`).
proof fn lemma_blend_linear(a: int, b: int, c: int, d: int, e: int, w: int, wy: int, ry: int)
    ensures
        blend(a, b, c, d, e, w - e, wy, ry) == a * w * ry + c * w * wy + e * ((b - a) * ry + (d - c) * wy),
{
    let p = a * (w - e) + b * e;
    let q = c * (w - e) + d * e;
    reveal(blend);
    assert(blend(a, b, c, d, e, w - e, wy, ry) == p * ry + q * wy);
    vstd::arithmetic::mul::lemma_mul_is_distributive_sub(a, w, e);
    vstd::arithmetic::mul::lemma_mul_is_distributive_sub_other_way(e, b, a);
    vstd::arithmetic::mul::lemma_mul_is_distributive_sub(c, w, e);
    vstd::arithmetic::mul::lemma_mul_is_distributive_sub_other_way(e, d, c);
    assert(p == a * w + (b - a) * e);
    assert(q == c * w + (d - c) * e);
    vstd::arithmetic::mul::lemma_mul_is_distributive_add_other_way(ry, a * w, (b - a) * e);
    vstd::arithmetic::mul::lemma_mul_is_distributive_add_other_way(wy, c * w, (d - c) * e);
    vstd::arithmetic::mul::lemma_mul_is_commutative(b - a, e);
    vstd::arithmetic::mul::lemma_mul_is_commutative(d - c, e);
    vstd::arithmetic::mul::lemma_mul_is_associative(e, b - a, ry);
    vstd::arithmetic::mul::lemma_mul_is_associative(e, d - c, wy);
    vstd::arithmetic::mul::lemma_mul_is_distributive_add(e, (b - a) * ry, (d - c) * wy);
}

/// Moving the eased weight of a blend from `e0` to `e1` moves the blend by
/// `(e1 - e0)` times a factor of size below `CORNER_UNIT * d`.
proof fn lemma_blend_shift(a: int, b: int, c: int, d: int, e0: int, e1: int, wy: int, ry: int, w: int)
    requires
        0 <= a < CORNER_UNIT,
        0 <= b < CORNER_UNIT,
        0 <= c < CORNER_UNIT,
        0 <= d < CORNER_UNIT,
        0 <= wy,
        0 <= ry,
        wy + ry == w,
        0 <= e0 <= e1,
    ensures
        ({
            let delta = blend(a, b, c, d, e1, w - e1, wy, ry) - blend(a, b, c, d, e0, w - e0, wy, ry);
            &&& delta <= (e1 - e0) * (CORNER_UNIT * w)
            &&& -((e1 - e0) * (CORNER_UNIT * w)) <= delta
        }),
{
    let k = (b - a) * ry + (d - c) * wy;
    let u = CORNER_UNIT as int;
    lemma_blend_linear(a, b, c, d, e0, w, wy, ry);
    lemma_blend_linear(a, b, c, d, e1, w, wy, ry);
    assert(e1 * k - e0 * k == (e1 - e0) * k) by (nonlinear_arith);
    assert(-(u * w) <= k <= u * w) by (nonlinear_arith)
        requires
            k == (b - a) * ry + (d - c) * wy,
            0 <= a < u,
            0 <= b < u,
            0 <= c < u,
            0 <= d < u,
            0 <= wy,
            0 <= ry,
            wy + ry == w,
    ;
    assert(-((e1 - e0) * (u * w)) <= (e1 - e0) * k <= (e1 - e0) * (u * w)) by (nonlinear_arith)
        requires
            -(u * w) <= k <= u * w,
            0 <= e1 - e0,
    ;
}

/// One step inside a cell raises the eased weight by at most `3c^2 / 2`.
proof fn lemma_ease_step(f: int, c: int)
    requires
        0 <= f,
        f + 1 < c,
    ensures
        0 <= ease(f + 1, c) - ease(f, c),
        2 * c * (ease(f + 1, c) - ease(f, c)) <= 3 * (c * c * c),
{
    let delta = ease(f + 1, c) - ease(f, c);
    assert(delta == 6 * c * f + 3 * c - 6 * f * f - 6 * f - 2) by (nonlinear_arith)
        requires
            delta == (f + 1) * (f + 1) * (3 * c - 2 * (f + 1)) - f * f * (3 * c - 2 * f),
    ;
    assert(0 <= delta) by (nonlinear_arith)
        requires
            delta == 6 * c * f + 3 * c - 6 * f * f - 6 * f - 2,
            0 <= f,
            f + 1 < c,
    ;
    assert(3 * c * c - 2 * delta == 3 * ((c - 2 * f - 1) * (c - 2 * f - 1)) + 1) by (nonlinear_arith)
        requires
            delta == 6 * c * f + 3 * c - 6 * f * f - 6 * f - 2,
    ;
    assert(0 <= (c - 2 * f - 1) * (c - 2 * f - 1)) by (nonlinear_arith);
    assert(2 * c * delta <= 3 * (c * c * c)) by (nonlinear_arith)
        requires
            2 * delta <= 3 * c * c,
            c > 0,
    ;
}

proof fn lemma_corner_bound(seed: u32, cx: int, cy: int, salt: u32)
    ensures
        0 <= corner(seed, cx, cy, salt) < CORNER_UNIT,
{
    let h = hash_value(seed, cx as i32, cy as i32, salt);
    assert(h >> 8u32 < 0x100_0000u32) by (bit_vector);
}

/// Noise at a point written as the blend of its cell `(cx, cy)` at offsets `(fx, fy)`.
proof fn lemma_noise_unfold(seed: u32, x: int, y: int, c: int, salt: u32, cx: int, fx: int, cy: int, fy: int)
    requires
        2 <= c,
        x == cx * c + fx,
        y == cy * c + fy,
        0 <= fx < c,
        0 <= fy < c,
    ensures
        noise_value(seed, x, y, c, salt) == blend(
            corner(seed, cx, cy, salt),
            corner(seed, cx + 1, cy, salt),
            corner(seed, cx, cy + 1, salt),
            corner(seed, cx + 1, cy + 1, salt),
            ease(fx, c),
            c * c * c - ease(fx, c),
            ease(fy, c),
            ease_rest(fy, c),
        ),
{
    vstd::arithmetic::div_mod::lemma_fundamental_div_mod_converse(x, c, cx, fx);
    vstd::arithmetic::div_mod::lemma_fundamental_div_mod_converse(y, c, cy, fy);
    lemma_ease_split(fx, c);
    reveal(noise_value);
}

/// A blend at full weight on the right-hand corners equals the next cell's blend at
/// zero weight: both read only the shared corners.
proof fn lemma_blend_edge(a: int, b: int, c: int, d: int, b2: int, d2: int, w: int, wy: int, ry: int)
    ensures
        blend(b, b2, d, d2, 0, w, wy, ry) == blend(a, b, c, d, w, w - w, wy, ry),
{
    reveal(blend);
    assert(b2 * 0 == 0 && d2 * 0 == 0 && a * 0 == 0 && c * 0 == 0);
}

/// The eased weight at the next column, seen from the cell of `x`: the next offset's
/// weight inside the cell, or the full weight `c^3` when the step crosses into the next cell.
spec fn next_weight(fx: int, c: int) -> int {
    if fx + 1 < c {
        ease(fx + 1, c)
    } else {
        c * c * c
    }
}

/// Noise one column to the right, as a blend of the corners of the cell of `x`.
proof fn lemma_noise_next(seed: u32, x: int, y: int, c: int, salt: u32, cx: int, fx: int, cy: int, fy: int)
    requires
        2 <= c,
        x == cx * c + fx,
        y == cy * c + fy,
        0 <= fx < c,
        0 <= fy < c,
    ensures
        noise_value(seed, x + 1, y, c, salt) == blend(
            corner(seed, cx, cy, salt),
            corner(seed, cx + 1, cy, salt),
            corner(seed, cx, cy + 1, salt),
            corner(seed, cx + 1, cy + 1, salt),
            next_weight(fx, c),
            c * c * c - next_weight(fx, c),
            ease(fy, c),
            ease_rest(fy, c),
        ),
        0 <= next_weight(fx, c) - ease(fx, c),
        2 * c * (next_weight(fx, c) - ease(fx, c)) <= 3 * (c * c * c),
{
    let d = c * c * c;
    lemma_ease_split(fx, c);
    if fx + 1 < c {
        lemma_noise_unfold(seed, x + 1, y, c, salt, cx, fx + 1, cy, fy);
        lemma_ease_step(fx, c);
    } else {
        assert(x + 1 == (cx + 1) * c + 0) by (nonlinear_arith)
            requires
                x == cx * c + fx,
                fx == c - 1,
        ;
        lemma_noise_unfold(seed, x + 1, y, c, salt, cx + 1, 0, cy, fy);
        assert(ease(0, c) == 0);
        lemma_blend_edge(
            corner(seed, cx, cy, salt),
            corner(seed, cx + 1, cy, salt),
            corner(seed, cx, cy + 1, salt),
            corner(seed, cx + 1, cy + 1, salt),
            corner(seed, cx + 1 + 1, cy, salt),
            corner(seed, cx + 1 + 1, cy + 1, salt),
            d,
            ease(fy, c),
            ease_rest(fy, c),
        );
        assert(d - ease(fx, c) == 3 * c - 2) by (nonlinear_arith)
            requires
                d - ease(fx, c) == ease_rest(fx, c),
                fx == c - 1,
        ;
        assert(2 * c * (3 * c - 2) <= 3 * d) by (nonlinear_arith)
            requires
                d == c * c * c,
                2 <= c,
        ;
    }
}

/// The noise field has no seams: one step along `x`, inside a cell or across a cell
/// boundary (the one at zero included, thanks to floor division), moves it by at most
/// `3 / (2c)` of its range.
pub proof fn lemma_noise_step(seed: u32, x: int, y: int, c: int, salt: u32)
    requires
        2 <= c,
    ensures
        ({
            let step = noise_value(seed, x + 1, y, c, salt) - noise_value(seed, x, y, c, salt);
            &&& 2 * c * step <= 3 * noise_scale(c)
            &&& -(3 * noise_scale(c)) <= 2 * c * step
        }),
{
    let d = c * c * c;
    let cx = x / c;
    let cy = y / c;
    let fx = x % c;
    let fy = y % c;
    vstd::arithmetic::div_mod::lemma_fundamental_div_mod(x, c);
    vstd::arithmetic::div_mod::lemma_fundamental_div_mod(y, c);
    vstd::arithmetic::mul::lemma_mul_is_commutative(c, cx);
    vstd::arithmetic::mul::lemma_mul_is_commutative(c, cy);
    lemma_corner_bound(seed, cx, cy, salt);
    lemma_corner_bound(seed, cx + 1, cy, salt);
    lemma_corner_bound(seed, cx, cy + 1, salt);
    lemma_corner_bound(seed, cx + 1, cy + 1, salt);
    lemma_ease_split(fy, c);
    lemma_noise_unfold(seed, x, y, c, salt, cx, fx, cy, fy);
    lemma_noise_next(seed, x, y, c, salt, cx, fx, cy, fy);
    let e0 = ease(fx, c);
    let e1 = next_weight(fx, c);
    lemma_blend_shift(
        corner(seed, cx, cy, salt),
        corner(seed, cx + 1, cy, salt),
        corner(seed, cx, cy + 1, salt),
        corner(seed, cx + 1, cy + 1, salt),
        e0,
        e1,
        ease(fy, c),
        ease_rest(fy, c),
        d,
    );
    assert(0 < d) by (nonlinear_arith)
        requires
            d == c * c * c,
            2 <= c,
    ;
    let step = noise_value(seed, x + 1, y, c, salt) - noise_value(seed, x, y, c, salt);
    lemma_step_scaled(step, (e1 - e0) * (CORNER_UNIT * d), e1 - e0, c, d);
}

proof fn lemma_step_scaled(step: int, m: int, de: int, c: int, d: int)
    requires
        -m <= step <= m,
        m == de * (CORNER_UNIT * d),
        2 * c * de <= 3 * d,
        0 <= de,
        c > 0,
        d > 0,
        d == c * c * c,
    ensures
        2 * c * step <= 3 * noise_scale(c),
        -(3 * noise_scale(c)) <= 2 * c * step,
{
    let u = CORNER_UNIT as int;
    assert(noise_scale(c) == u * d * d);
    assert(2 * c * step <= 3 * (u * d * d) && -(3 * (u * d * d)) <= 2 * c * step) by (nonlinear_arith)
        requires
            -m <= step <= m,
            m == de * (u * d),
            2 * c * de <= 3 * d,
            0 <= de,
            c > 0,
            u > 0,
            d > 0,
    ;
}

} // verus!
