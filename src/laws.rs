use vstd::prelude::*;
use vstd::std_specs::ops::{AddSpec, MulSpec};
use core::ops::{Add, Mul};

use crate::convolution::{
    conv_acc, conv_at, convolved, kernel_channel, kernel_fits, lemma_convolved_at, output_channels, pad,
    tap,
};
use crate::image::{lemma_flat_decode, ImageModel};

verus! {

/// `zero` is an identity of `+` on both sides and absorbs products on both sides.
#[verifier::opaque]
pub open spec fn zero_laws<T: Add<Output = T> + Mul<Output = T>>(zero: T) -> bool {
    &&& forall|a: T| #[trigger] zero.add_spec(a) == a
    &&& forall|a: T| #[trigger] a.add_spec(zero) == a
    &&& forall|a: T| #[trigger] zero.mul_spec(a) == zero
    &&& forall|a: T| #[trigger] a.mul_spec(zero) == zero
}

/// `one` leaves every sample unchanged when it multiplies it from the left.
pub open spec fn unit_law<T: Mul<Output = T>>(one: T) -> bool {
    forall|a: T| #[trigger] one.mul_spec(a) == a
}

/// `+` and `*` are associative and `*` distributes over `+` from the left.
#[verifier::opaque]
pub open spec fn ring_laws<T: Add<Output = T> + Mul<Output = T>>() -> bool {
    &&& forall|a: T, b: T, c: T| #[trigger] a.add_spec(b.add_spec(c)) == a.add_spec(b).add_spec(c)
    &&& forall|a: T, b: T, c: T| #[trigger] a.mul_spec(b.mul_spec(c)) == a.mul_spec(b).mul_spec(c)
    &&& forall|a: T, b: T, c: T| #[trigger] a.mul_spec(b.add_spec(c)) == a.mul_spec(b).add_spec(a.mul_spec(c))
}

proof fn zero_facts<T: Add<Output = T> + Mul<Output = T>>(zero: T, a: T)
    requires
        zero_laws(zero),
    ensures
        zero.add_spec(a) == a,
        a.add_spec(zero) == a,
        zero.mul_spec(a) == zero,
        a.mul_spec(zero) == zero,
{
    reveal(zero_laws);
}

proof fn ring_facts<T: Add<Output = T> + Mul<Output = T>>(a: T, b: T, c: T)
    requires
        ring_laws::<T>(),
    ensures
        a.add_spec(b.add_spec(c)) == a.add_spec(b).add_spec(c),
        a.mul_spec(b.mul_spec(c)) == a.mul_spec(b).mul_spec(c),
        a.mul_spec(b.add_spec(c)) == a.mul_spec(b).add_spec(a.mul_spec(c)),
{
    reveal(ring_laws);
}

/// A kernel whose cell `((w - 1) / 2, (h - 1) / 2)`, the centre of an odd
/// kernel, holds `one` in every channel, and every other cell `zero`.
pub open spec fn identity_kernel<T>(k: ImageModel<T>, one: T, zero: T) -> bool {
    forall|fx: int, fy: int, c: int|
        0 <= fx < k.width && 0 <= fy < k.height && 0 <= c < k.channels ==> #[trigger] k.at(fx, fy, c)
            == if fx == pad(k.width) && fy == pad(k.height) {
            one
        } else {
            zero
        }
}

proof fn lemma_identity_acc<T: Add<Output = T> + Mul<Output = T>>(
    img: ImageModel<T>,
    k: ImageModel<T>,
    one: T,
    x: int,
    y: int,
    c: int,
    n: nat,
)
    requires
        img.valid(),
        k.valid(),
        kernel_fits(img, k),
        identity_kernel(k, one, img.zero),
        zero_laws(img.zero),
        unit_law(one),
        0 <= c < img.channels,
        n <= k.width * k.height,
    ensures
        conv_acc(img, k, x, y, c, n) == if n > pad(k.height) * k.width + pad(k.width) {
            img.at(x, y, c)
        } else {
            img.zero
        },
    decreases n,
{
    if n > 0 {
        let i = n - 1;
        lemma_identity_acc(img, k, one, x, y, c, (n - 1) as nat);
        let w = k.width as int;
        vstd::arithmetic::div_mod::lemma_fundamental_div_mod(i, w);
        vstd::arithmetic::div_mod::lemma_mod_pos_bound(i, w);
        vstd::arithmetic::div_mod::lemma_div_pos_is_pos(i, w);
        let q = i / w;
        let hh = k.height as int;
        assert(q < hh) by (nonlinear_arith)
            requires
                i == w * q + i % w,
                0 <= i % w,
                i < w * hh,
                w >= 1,
        ;
        let kc = if k.channels == 1 {
            0
        } else {
            c
        };
        let centre = pad(k.height) * w + pad(k.width);
        assert(0 <= pad(k.width) < w);
        assert(0 <= pad(k.height) < k.height);
        if i == centre {
            vstd::arithmetic::div_mod::lemma_fundamental_div_mod_converse(
                i,
                w,
                pad(k.height),
                pad(k.width),
            );
            assert(k.at(i % w, i / w, kc) == one);
            zero_facts(img.zero, img.at(x, y, c));
            assert(tap(img, k, x, y, c, i) == img.at(x, y, c));
        } else {
            if i % w == pad(k.width) && i / w == pad(k.height) {
                assert(i == w * pad(k.height) + pad(k.width));
                vstd::arithmetic::mul::lemma_mul_is_commutative(w, pad(k.height));
                assert(false);
            }
            assert(k.at(i % w, i / w, kc) == img.zero);
            let p = img.at(x + i % w - pad(k.width), y + i / w - pad(k.height), c);
            zero_facts(img.zero, p);
            assert(tap(img, k, x, y, c, i) == img.zero);
            zero_facts(img.zero, conv_acc(img, k, x, y, c, (n - 1) as nat));
        }
    }
}

/// Convolving with channels kept by a kernel that is one at its centre and
/// zero elsewhere gives back the image itself.
pub proof fn law_identity_kernel<T: Add<Output = T> + Mul<Output = T>>(
    img: ImageModel<T>,
    k: ImageModel<T>,
    one: T,
)
    requires
        img.valid(),
        k.valid(),
        kernel_fits(img, k),
        identity_kernel(k, one, img.zero),
        zero_laws(img.zero),
        unit_law(one),
    ensures
        convolved(img, k, true) == img,
{
    let out = convolved(img, k, true);
    let ch = img.channels as int;
    let w = img.width as int;
    assert forall|j: int| 0 <= j < img.samples.len() implies #[trigger] out.samples[j]
        == img.samples[j] by {
        lemma_flat_decode(w, img.height as int, ch, j);
        let x = (j / ch) % w;
        let y = (j / ch) / w;
        let c = j % ch;
        let pw = pad(k.width);
        let ph = pad(k.height);
        let kw = k.width as int;
        let kh = k.height as int;
        assert(0 <= pw < kw);
        assert(0 <= ph < kh);
        assert(ph * kw + pw < kw * kh) by (nonlinear_arith)
            requires
                0 <= pw < kw,
                0 <= ph < kh,
        ;
        lemma_identity_acc(img, k, one, x, y, c, k.width * k.height);
    }
    assert(out.samples =~= img.samples);
}

proof fn lemma_zero_row<T: Add<Output = T> + Mul<Output = T>>(
    img: ImageModel<T>,
    h: ImageModel<T>,
    x: int,
    y: int,
    c: int,
    m: nat,
)
    requires
        h.valid(),
        h.height == 1,
        m <= h.width,
        !(0 <= y < img.height),
        zero_laws(img.zero),
    ensures
        conv_acc(img, h, x, y, c, m) == img.zero,
    decreases m,
{
    if m > 0 {
        let j = m - 1;
        lemma_zero_row(img, h, x, y, c, (m - 1) as nat);
        vstd::arithmetic::div_mod::lemma_small_mod(j as nat, h.width);
        vstd::arithmetic::div_mod::lemma_basic_div(j, h.width as int);
        zero_facts(
            img.zero,
            h.at(j % (h.width as int), j / (h.width as int), kernel_channel(h, c)),
        );
        zero_facts(img.zero, img.zero);
    }
}

/// Along row `fy` of the outer-product kernel, the column weight times the
/// row pass adds up to the two-dimensional taps of that row.
proof fn lemma_row<T: Add<Output = T> + Mul<Output = T>>(
    img: ImageModel<T>,
    h: ImageModel<T>,
    v: ImageModel<T>,
    k: ImageModel<T>,
    x: int,
    y: int,
    c: int,
    fy: int,
    m: nat,
)
    requires
        h.valid(),
        v.valid(),
        k.valid(),
        h.height == 1,
        h.channels == 1,
        v.width == 1,
        v.channels == 1,
        k.width == h.width,
        k.height == v.height,
        k.channels == 1,
        forall|fx: int, gy: int|
            0 <= fx < k.width && 0 <= gy < k.height ==> #[trigger] k.at(fx, gy, 0) == v.at(
                0,
                gy,
                0,
            ).mul_spec(h.at(fx, 0, 0)),
        zero_laws(img.zero),
        ring_laws::<T>(),
        0 <= fy < k.height,
        m <= k.width,
    ensures
        conv_acc(img, k, x, y, c, (fy * k.width) as nat).add_spec(
            v.at(0, fy, 0).mul_spec(conv_acc(img, h, x, y + fy - pad(k.height), c, m)),
        ) == conv_acc(img, k, x, y, c, (fy * k.width + m) as nat),
    decreases m,
{
    let w = k.width as int;
    let a = conv_acc(img, k, x, y, c, (fy * w) as nat);
    let vv = v.at(0, fy, 0);
    let yr = y + fy - pad(k.height);
    assert(fy * w >= 0) by (nonlinear_arith)
        requires
            fy >= 0,
            w >= 1,
    ;
    if m == 0 {
        zero_facts(img.zero, vv);
        zero_facts(img.zero, a);
    } else {
        let j = m - 1;
        lemma_row(img, h, v, k, x, y, c, fy, (m - 1) as nat);
        let s = conv_acc(img, h, x, yr, c, j as nat);
        let p = img.at(x + j - pad(k.width), yr, c);
        let hj = h.at(j, 0, 0);
        // the row pass: tap `j` of the one-row kernel
        vstd::arithmetic::div_mod::lemma_small_mod(j as nat, w as nat);
        vstd::arithmetic::div_mod::lemma_basic_div(j, w);
        assert(tap(img, h, x, yr, c, j) == hj.mul_spec(p));
        // the same cell in the two-dimensional kernel
        vstd::arithmetic::div_mod::lemma_fundamental_div_mod_converse(fy * w + j, w, fy, j);
        assert(k.at(j, fy, 0) == vv.mul_spec(hj));
        assert(tap(img, k, x, y, c, fy * w + j) == vv.mul_spec(hj).mul_spec(p));
        assert(conv_acc(img, h, x, yr, c, m) == s.add_spec(hj.mul_spec(p)));
        ring_facts(vv, s, hj.mul_spec(p));
        ring_facts(vv, hj, p);
        ring_facts(a, vv.mul_spec(s), vv.mul_spec(hj).mul_spec(p));
        assert((fy * w + m) as nat - 1 == fy * w + j);
    }
}

/// Row by row, the column pass over the row-pass image sums what the
/// two-dimensional pass sums.
proof fn lemma_columns<T: Add<Output = T> + Mul<Output = T>>(
    img: ImageModel<T>,
    h: ImageModel<T>,
    v: ImageModel<T>,
    k: ImageModel<T>,
    x: int,
    y: int,
    c: int,
    n: nat,
)
    requires
        img.valid(),
        h.valid(),
        v.valid(),
        k.valid(),
        h.height == 1,
        h.channels == 1,
        v.width == 1,
        v.channels == 1,
        k.width == h.width,
        k.height == v.height,
        k.channels == 1,
        forall|fx: int, gy: int|
            0 <= fx < k.width && 0 <= gy < k.height ==> #[trigger] k.at(fx, gy, 0) == v.at(
                0,
                gy,
                0,
            ).mul_spec(h.at(fx, 0, 0)),
        zero_laws(img.zero),
        ring_laws::<T>(),
        img.in_bounds(x, y),
        0 <= c < img.channels,
        n <= k.height,
    ensures
        conv_acc(convolved(img, h, true), v, x, y, c, n) == conv_acc(
            img,
            k,
            x,
            y,
            c,
            (n * k.width) as nat,
        ),
    decreases n,
{
    let tmp = convolved(img, h, true);
    let w = k.width as int;
    if n > 0 {
        let fy = n - 1;
        lemma_columns(img, h, v, k, x, y, c, (n - 1) as nat);
        let yr = y + fy - pad(k.height);
        lemma_row(img, h, v, k, x, y, c, fy, k.width);
        assert(h.width * h.height == w);
        if 0 <= yr < img.height {
            lemma_convolved_at(img, h, true, x, yr, c);
            assert(tmp.at(x, yr, c) == conv_at(img, h, x, yr, c));
        } else {
            lemma_zero_row(img, h, x, yr, c, k.width);
            assert(tmp.at(x, yr, c) == img.zero);
        }
        assert(tmp.at(x, yr, c) == conv_acc(img, h, x, yr, c, k.width));
        vstd::arithmetic::div_mod::lemma_small_mod(0, 1);
        assert(fy % 1 == 0 && fy / 1 == fy);
        assert(tap(tmp, v, x, y, c, fy) == v.at(0, fy, 0).mul_spec(tmp.at(x, yr, c)));
        assert(fy * w + w == n * w) by (nonlinear_arith)
            requires
                fy == n - 1,
        ;
    }
}

/// A pass with a one-row kernel `h` (channels kept) followed by a pass with
/// a one-column kernel `v` equals one pass with their outer product, whose
/// cell `(fx, fy)` holds `v[fy] * h[fx]`.
pub proof fn law_separable<T: Add<Output = T> + Mul<Output = T>>(
    img: ImageModel<T>,
    h: ImageModel<T>,
    v: ImageModel<T>,
    k: ImageModel<T>,
    preserve: bool,
)
    requires
        img.valid(),
        h.valid(),
        v.valid(),
        k.valid(),
        h.height == 1,
        h.channels == 1,
        v.width == 1,
        v.channels == 1,
        k.width == h.width,
        k.height == v.height,
        k.channels == 1,
        forall|fx: int, fy: int|
            0 <= fx < k.width && 0 <= fy < k.height ==> #[trigger] k.at(fx, fy, 0) == v.at(
                0,
                fy,
                0,
            ).mul_spec(h.at(fx, 0, 0)),
        zero_laws(img.zero),
        ring_laws::<T>(),
    ensures
        convolved(convolved(img, h, true), v, preserve) == convolved(img, k, preserve),
{
    let tmp = convolved(img, h, true);
    let lhs = convolved(tmp, v, preserve);
    let rhs = convolved(img, k, preserve);
    let oc = output_channels(img, preserve) as int;
    let w = img.width as int;
    assert forall|x: int, y: int, c: int|
        img.in_bounds(x, y) && 0 <= c < img.channels implies #[trigger] conv_at(tmp, v, x, y, c)
        == conv_at(img, k, x, y, c) by {
        lemma_columns(img, h, v, k, x, y, c, k.height);
        assert(v.width * v.height == k.height);
        vstd::arithmetic::mul::lemma_mul_is_commutative(k.height as int, k.width as int);
    }
    assert forall|j: int| 0 <= j < lhs.samples.len() implies #[trigger] lhs.samples[j]
        == rhs.samples[j] by {
        lemma_flat_decode(w, img.height as int, oc, j);
        let x = (j / oc) % w;
        let y = (j / oc) / w;
        if !preserve {
            assert(Seq::new(tmp.channels, |ch: int| conv_at(tmp, v, x, y, ch)) =~= Seq::new(
                img.channels,
                |ch: int| conv_at(img, k, x, y, ch),
            ));
        }
    }
    assert(lhs.samples =~= rhs.samples);
}

} // verus!
