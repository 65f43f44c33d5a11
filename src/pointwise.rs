use vstd::prelude::*;
use vstd::std_specs::ops::{AddSpec, DivSpec, MulSpec, SubSpec};
use core::ops::{Add, Div, Mul, Sub};

use crate::image::{Image, ImageError, ImageModel};
use crate::sample::{seq_sum, sum_samples, total_add, total_div, total_mul, total_sub};

verus! {

/// `s` with `f` applied to every sample of channel `channel` (`ch` channels
/// per pixel) and the other samples kept.
pub open spec fn map_channel<T>(s: Seq<T>, ch: nat, channel: nat, f: spec_fn(T) -> T) -> Seq<T> {
    Seq::new(s.len(), |i: int| if i % (ch as int) == channel { f(s[i]) } else { s[i] })
}

/// The same image with other samples.
pub open spec fn with_samples<T>(m: ImageModel<T>, s: Seq<T>) -> ImageModel<T> {
    ImageModel { samples: s, ..m }
}

/// Replaces every sample of `channel` by what `f` makes of it.
fn update_channel<T: Copy, F: Fn(T, T) -> T>(img: &mut Image<T>, channel: u32, f: F, by: T)
    requires
        old(img).wf(),
        channel < old(img)@.channels,
        forall|v: T| #[trigger] f.requires((v, by)),
    ensures
        final(img).wf(),
        final(img)@ == with_samples(old(img)@, final(img)@.samples),
        final(img)@.samples.len() == old(img)@.samples.len(),
        forall|j: int|
            0 <= j < old(img)@.samples.len() ==> if j % (old(img)@.channels as int) == channel {
                f.ensures((old(img)@.samples[j], by), #[trigger] final(img)@.samples[j])
            } else {
                final(img)@.samples[j] == old(img)@.samples[j]
            },
{
    let ghost start = img@;
    let ch = img.channels() as usize;
    let n = img.array().len() / ch;
    proof {
        assert(start.samples.len() == (start.width * start.height) * ch) by (nonlinear_arith)
            requires
                start.samples.len() == start.width * start.height * start.channels,
                ch == start.channels,
        ;
        vstd::arithmetic::div_mod::lemma_div_multiples_vanish(
            (start.width * start.height) as int,
            ch as int,
        );
        assert(n == start.width * start.height);
    }
    let mut p: usize = 0;
    while p < n
        invariant
            p <= n,
            img.wf(),
            ch == start.channels,
            channel < ch,
            n * ch == start.samples.len(),
            img@ == with_samples(start, img@.samples),
            img@.samples.len() == start.samples.len(),
            forall|v: T| #[trigger] f.requires((v, by)),
            forall|j: int|
                0 <= j < start.samples.len() ==> if j % (ch as int) == channel && j / (ch as int)
                    < p {
                    f.ensures((start.samples[j], by), #[trigger] img@.samples[j])
                } else {
                    img@.samples[j] == start.samples[j]
                },
        decreases n - p,
    {
        proof {
            assert(p * ch + channel < n * ch) by (nonlinear_arith)
                requires
                    p < n,
                    channel < ch,
            ;
        }
        let i = p * ch + channel as usize;
        proof {
            vstd::arithmetic::div_mod::lemma_fundamental_div_mod_converse(
                i as int,
                ch as int,
                p as int,
                channel as int,
            );
        }
        let v = img.array()[i];
        let nv = f(v, by);
        let ghost mid = img@.samples;
        img.set_sample(i, nv);
        proof {
            assert forall|j: int| 0 <= j < start.samples.len() implies if j % (ch as int) == channel
                && j / (ch as int) < p + 1 {
                f.ensures((start.samples[j], by), #[trigger] img@.samples[j])
            } else {
                img@.samples[j] == start.samples[j]
            } by {
                if j != i {
                    assert(img@.samples[j] == mid[j]);
                    if j % (ch as int) == channel && j / (ch as int) == p {
                        vstd::arithmetic::div_mod::lemma_fundamental_div_mod(j, ch as int);
                        vstd::arithmetic::mul::lemma_mul_is_commutative(ch as int, p as int);
                        assert(j == i);
                    }
                }
            }
        }
        p = p + 1;
    }
    proof {
        assert forall|j: int| 0 <= j < start.samples.len() implies if j % (ch as int) == channel {
            f.ensures((start.samples[j], by), #[trigger] img@.samples[j])
        } else {
            img@.samples[j] == start.samples[j]
        } by {
            vstd::arithmetic::div_mod::lemma_fundamental_div_mod(j, ch as int);
            assert(j / (ch as int) < n) by (nonlinear_arith)
                requires
                    j == ch * (j / (ch as int)) + j % (ch as int),
                    0 <= j % (ch as int),
                    j < n * ch,
                    ch >= 1,
            ;
        }
    }
}

fn add_samples<T: Add<Output = T>>(a: T, b: T) -> (r: T)
    requires
        a.add_req(b),
    ensures
        T::obeys_add_spec() ==> r == a.add_spec(b),
{
    a + b
}

fn mul_samples<T: Mul<Output = T>>(a: T, b: T) -> (r: T)
    requires
        a.mul_req(b),
    ensures
        T::obeys_mul_spec() ==> r == a.mul_spec(b),
{
    a * b
}

/// Adds `shift_by` to channel `channel` of every pixel. An image without
/// that channel comes back as it was.
pub fn shift_image<T: Copy + Add<Output = T>>(img: Image<T>, channel: u32, shift_by: T) -> (r:
    Image<T>)
    requires
        img.wf(),
        total_add::<T>(),
    ensures
        r.wf(),
        channel >= img@.channels ==> r@ == img@,
        channel < img@.channels ==> r@.same_shape(img@) && r@.zero == img@.zero,
        channel < img@.channels && T::obeys_add_spec() ==> r@ == with_samples(
            img@,
            map_channel(img@.samples, img@.channels, channel as nat, |v: T| v.add_spec(shift_by)),
        ),
{
    if channel >= img.channels() {
        return img;
    }
    let mut img = img;
    let ghost start = img@;
    update_channel(
        &mut img,
        channel,
        add_samples::<T>,
        shift_by,
    );
    proof {
        if T::obeys_add_spec() {
            assert(img@.samples =~= map_channel(
                start.samples,
                start.channels,
                channel as nat,
                |v: T| v.add_spec(shift_by),
            ));
        }
    }
    img
}

/// Multiplies channel `channel` of every pixel by `scale_by`. An image
/// without that channel comes back as it was.
pub fn scale_image<T: Copy + Mul<Output = T>>(img: Image<T>, channel: u32, scale_by: T) -> (r:
    Image<T>)
    requires
        img.wf(),
        total_mul::<T>(),
    ensures
        r.wf(),
        channel >= img@.channels ==> r@ == img@,
        channel < img@.channels ==> r@.same_shape(img@) && r@.zero == img@.zero,
        channel < img@.channels && T::obeys_mul_spec() ==> r@ == with_samples(
            img@,
            map_channel(img@.samples, img@.channels, channel as nat, |v: T| v.mul_spec(scale_by)),
        ),
{
    if channel >= img.channels() {
        return img;
    }
    let mut img = img;
    let ghost start = img@;
    update_channel(
        &mut img,
        channel,
        mul_samples::<T>,
        scale_by,
    );
    proof {
        if T::obeys_mul_spec() {
            assert(img@.samples =~= map_channel(
                start.samples,
                start.channels,
                channel as nat,
                |v: T| v.mul_spec(scale_by),
            ));
        }
    }
    img
}

fn sub_samples<T: Sub<Output = T>>(a: T, b: T) -> (r: T)
    requires
        a.sub_req(b),
    ensures
        T::obeys_sub_spec() ==> r == a.sub_spec(b),
{
    a - b
}

fn div_samples<T: Div<Output = T>>(a: T, b: T) -> (r: T)
    requires
        a.div_req(b),
    ensures
        T::obeys_div_spec() ==> r == a.div_spec(b),
{
    a / b
}

/// Combines two images of one shape sample by sample: the result keeps the
/// shape and the zero of `a`.
fn zip_samples<T: Copy, F: Fn(T, T) -> T>(a: &Image<T>, b: &Image<T>, f: F) -> (r: Image<T>)
    requires
        a.wf(),
        b.wf(),
        a@.same_shape(b@),
        forall|u: T, v: T| #[trigger] f.requires((u, v)),
    ensures
        r.wf(),
        r@ == with_samples(a@, r@.samples),
        r@.samples.len() == a@.samples.len(),
        forall|i: int|
            0 <= i < a@.samples.len() ==> f.ensures(
                (a@.samples[i], b@.samples[i]),
                #[trigger] r@.samples[i],
            ),
{
    let xs = a.array();
    let ys = b.array();
    let mut out: Vec<T> = Vec::new();
    let mut i: usize = 0;
    while i < xs.len()
        invariant
            i <= xs@.len(),
            xs@ == a@.samples,
            ys@ == b@.samples,
            xs@.len() == ys@.len(),
            out@.len() == i,
            forall|u: T, v: T| #[trigger] f.requires((u, v)),
            forall|j: int| 0 <= j < i ==> f.ensures((xs@[j], ys@[j]), #[trigger] out@[j]),
        decreases xs@.len() - i,
    {
        let v = f(xs[i], ys[i]);
        out.push(v);
        i = i + 1;
    }
    Image::with_zero(a.width(), a.height(), a.channels(), out, a.zero())
}

/// The sample-by-sample sum of two images of one shape.
pub fn add_image<T: Copy + Add<Output = T>>(img1: Image<T>, img2: Image<T>) -> (r: Result<
    Image<T>,
    ImageError,
>)
    requires
        img1.wf(),
        img2.wf(),
        total_add::<T>(),
    ensures
        r is Ok <==> img1@.same_shape(img2@),
        r matches Err(e) ==> e == ImageError::ShapeMismatch,
        r matches Ok(out) ==> {
            &&& out.wf()
            &&& out@.same_shape(img1@)
            &&& out@.zero == img1@.zero
            &&& T::obeys_add_spec() ==> out@.samples == Seq::new(
                img1@.samples.len(),
                |i: int| img1@.samples[i].add_spec(img2@.samples[i]),
            )
        },
{
    if img1.channels() != img2.channels() || img1.height() != img2.height() || img1.width()
        != img2.width() {
        return Err(ImageError::ShapeMismatch);
    }
    let out = zip_samples(&img1, &img2, add_samples::<T>);
    proof {
        if T::obeys_add_spec() {
            assert(out@.samples =~= Seq::new(
                img1@.samples.len(),
                |i: int| img1@.samples[i].add_spec(img2@.samples[i]),
            ));
        }
    }
    Ok(out)
}

/// The sample-by-sample difference `img1 - img2` of two images of one shape.
pub fn sub_image<T: Copy + Sub<Output = T>>(img1: Image<T>, img2: Image<T>) -> (r: Result<
    Image<T>,
    ImageError,
>)
    requires
        img1.wf(),
        img2.wf(),
        total_sub::<T>(),
    ensures
        r is Ok <==> img1@.same_shape(img2@),
        r matches Err(e) ==> e == ImageError::ShapeMismatch,
        r matches Ok(out) ==> {
            &&& out.wf()
            &&& out@.same_shape(img1@)
            &&& out@.zero == img1@.zero
            &&& T::obeys_sub_spec() ==> out@.samples == Seq::new(
                img1@.samples.len(),
                |i: int| img1@.samples[i].sub_spec(img2@.samples[i]),
            )
        },
{
    if img1.channels() != img2.channels() || img1.height() != img2.height() || img1.width()
        != img2.width() {
        return Err(ImageError::ShapeMismatch);
    }
    let out = zip_samples(&img1, &img2, sub_samples::<T>);
    proof {
        if T::obeys_sub_spec() {
            assert(out@.samples =~= Seq::new(
                img1@.samples.len(),
                |i: int| img1@.samples[i].sub_spec(img2@.samples[i]),
            ));
        }
    }
    Ok(out)
}

/// Divides every sample by the sum of all samples, so that a kernel's
/// weights add up to one.
pub fn l1_norm<T: Copy + Add<Output = T> + Div<Output = T>>(img: Image<T>) -> (r: Image<T>)
    requires
        img.wf(),
        total_add::<T>(),
        total_div::<T>(),
    ensures
        r.wf(),
        r@.same_shape(img@),
        r@.zero == img@.zero,
        T::obeys_add_spec() && T::obeys_div_spec() ==> r@.samples == Seq::new(
            img@.samples.len(),
            |i: int| img@.samples[i].div_spec(seq_sum(img@.samples)),
        ),
{
    proof {
        assert(img@.samples.len() >= 1) by (nonlinear_arith)
            requires
                img@.samples.len() == img@.width * img@.height * img@.channels,
                img@.width >= 1,
                img@.height >= 1,
                img@.channels >= 1,
        ;
    }
    let total = sum_samples(img.array());
    let mut img = img;
    let ghost start = img@;
    let n = img.array().len();
    let mut i: usize = 0;
    while i < n
        invariant
            i <= n,
            n == start.samples.len(),
            img.wf(),
            img@ == with_samples(start, img@.samples),
            img@.samples.len() == n,
            total_div::<T>(),
            forall|j: int| i <= j < n ==> #[trigger] img@.samples[j] == start.samples[j],
            forall|j: int|
                0 <= j < i ==> #[trigger] img@.samples[j] == start.samples[j].div_spec(total)
                    || !T::obeys_div_spec(),
        decreases n - i,
    {
        let v = div_samples(img.array()[i], total);
        img.set_sample(i, v);
        i = i + 1;
    }
    proof {
        if T::obeys_add_spec() && T::obeys_div_spec() {
            assert(img@.samples =~= Seq::new(
                start.samples.len(),
                |i: int| start.samples[i].div_spec(seq_sum(start.samples)),
            ));
        }
    }
    img
}

} // verus!
