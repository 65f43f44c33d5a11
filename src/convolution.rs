use vstd::prelude::*;
use vstd::std_specs::ops::{AddSpec, MulSpec};
use core::ops::{Add, Mul};

use crate::image::{lemma_index_decode, Image, ImageError, ImageModel};
use crate::sample::{exact_add_mul, seq_sum, sum_samples, total_add, total_mul};

verus! {

/// Cells of a kernel `n` wide that lie before its centre: `(n - 1) / 2`,
/// so that an even kernel reaches one cell further right (or down).
pub open spec fn pad(n: nat) -> int {
    (n - 1) / 2
}

/// A kernel has either one channel, shared by all image channels, or one
/// channel per image channel.
pub open spec fn kernel_fits<T>(img: ImageModel<T>, k: ImageModel<T>) -> bool {
    k.channels == 1 || k.channels == img.channels
}

/// The kernel channel that weighs image channel `c`.
pub open spec fn kernel_channel<T>(k: ImageModel<T>, c: int) -> int {
    if k.channels == 1 {
        0
    } else {
        c
    }
}

/// The product that kernel cell `i` (row-major) contributes to channel `c`
/// of output pixel `(x, y)`.
pub open spec fn tap<T: Add<Output = T> + Mul<Output = T>>(
    img: ImageModel<T>,
    k: ImageModel<T>,
    x: int,
    y: int,
    c: int,
    i: int,
) -> T {
    let fx = i % (k.width as int);
    let fy = i / (k.width as int);
    k.at(fx, fy, kernel_channel(k, c)).mul_spec(
        img.at(x + fx - pad(k.width), y + fy - pad(k.height), c),
    )
}

/// The running sum of the first `n` taps, starting from the image's zero sample.
pub open spec fn conv_acc<T: Add<Output = T> + Mul<Output = T>>(
    img: ImageModel<T>,
    k: ImageModel<T>,
    x: int,
    y: int,
    c: int,
    n: nat,
) -> T
    decreases n,
{
    if n == 0 {
        img.zero
    } else {
        conv_acc(img, k, x, y, c, (n - 1) as nat).add_spec(tap(img, k, x, y, c, n - 1))
    }
}

/// Channel `c` of pixel `(x, y)` convolved with the whole kernel.
pub open spec fn conv_at<T: Add<Output = T> + Mul<Output = T>>(
    img: ImageModel<T>,
    k: ImageModel<T>,
    x: int,
    y: int,
    c: int,
) -> T {
    conv_acc(img, k, x, y, c, k.width * k.height)
}

pub open spec fn output_channels<T>(img: ImageModel<T>, preserve: bool) -> nat {
    if preserve {
        img.channels
    } else {
        1
    }
}

/// One output sample: the channel itself where channels are preserved, else
/// the sum over all channels of the pixel.
pub open spec fn conv_sample<T: Add<Output = T> + Mul<Output = T>>(
    img: ImageModel<T>,
    k: ImageModel<T>,
    preserve: bool,
    x: int,
    y: int,
    c: int,
) -> T {
    if preserve {
        conv_at(img, k, x, y, c)
    } else {
        seq_sum(Seq::new(img.channels, |ch: int| conv_at(img, k, x, y, ch)))
    }
}

/// The image that convolving `img` with `k` yields: same grid, same zero.
pub open spec fn convolved<T: Add<Output = T> + Mul<Output = T>>(
    img: ImageModel<T>,
    k: ImageModel<T>,
    preserve: bool,
) -> ImageModel<T> {
    let oc = output_channels(img, preserve) as int;
    let w = img.width as int;
    ImageModel {
        width: img.width,
        height: img.height,
        channels: oc as nat,
        samples: Seq::new(
            (img.width * img.height * oc) as nat,
            |j: int| conv_sample(img, k, preserve, (j / oc) % w, (j / oc) / w, j % oc),
        ),
        zero: img.zero,
    }
}

/// On the grid, the convolved image holds the convolved sample of each pixel.
pub proof fn lemma_convolved_at<T: Add<Output = T> + Mul<Output = T>>(
    img: ImageModel<T>,
    k: ImageModel<T>,
    preserve: bool,
    x: int,
    y: int,
    c: int,
)
    requires
        img.valid(),
        img.in_bounds(x, y),
        0 <= c < output_channels(img, preserve),
    ensures
        convolved(img, k, preserve).at(x, y, c) == conv_sample(img, k, preserve, x, y, c),
{
    let oc = output_channels(img, preserve) as int;
    lemma_index_decode(img.width as int, img.height as int, oc, x, y, c);
}

/// The direction of a one-dimensional pass.
#[derive(Clone, Copy)]
enum Axis {
    Horizontal,
    Vertical,
}

/// Per-channel sums of all taps of a two-dimensional kernel at `(x, y)`.
fn pixel_sums<T>(img: &Image<T>, filter: &Image<T>, x: u32, y: u32) -> (r: Vec<T>) where
    T: Copy + Add<Output = T> + Mul<Output = T>,

    requires
        img.wf(),
        filter.wf(),
        kernel_fits(img@, filter@),
        img@.in_bounds(x as int, y as int),
        total_add::<T>(),
        total_mul::<T>(),
    ensures
        r@.len() == img@.channels,
        exact_add_mul::<T>() ==> forall|c: int|
            0 <= c < img@.channels ==> #[trigger] r@[c] == conv_at(img@, filter@, x as int, y as int, c),
{
    let ic = img.channels() as usize;
    let fw = filter.width();
    let fh = filter.height();
    let single = filter.channels() == 1;
    let zero = img.zero();
    let mut sums: Vec<T> = Vec::new();
    let mut c: usize = 0;
    while c < ic
        invariant
            c <= ic,
            ic == img@.channels,
            zero == img@.zero,
            sums@.len() == c,
            forall|i: int| 0 <= i < c ==> #[trigger] sums@[i] == img@.zero,
        decreases ic - c,
    {
        sums.push(zero);
        c = c + 1;
    }
    let pad_left = ((fw - 1) / 2) as i64;
    let pad_top = ((fh - 1) / 2) as i64;
    let mut fy: u32 = 0;
    while fy < fh
        invariant
            fy <= fh,
            img.wf(),
            filter.wf(),
            kernel_fits(img@, filter@),
            ic == img@.channels,
            fw == filter@.width,
            fh == filter@.height,
            single == (filter@.channels == 1),
            pad_left == pad(filter@.width),
            pad_top == pad(filter@.height),
            total_add::<T>(),
            total_mul::<T>(),
            sums@.len() == ic,
            exact_add_mul::<T>() ==> forall|i: int|
                0 <= i < ic ==> #[trigger] sums@[i] == conv_acc(
                    img@,
                    filter@,
                    x as int,
                    y as int,
                    i,
                    (fy * fw) as nat,
                ),
        decreases fh - fy,
    {
        let mut fx: u32 = 0;
        while fx < fw
            invariant
                fx <= fw,
                fy < fh,
                img.wf(),
                filter.wf(),
                kernel_fits(img@, filter@),
                ic == img@.channels,
                fw == filter@.width,
                fh == filter@.height,
                single == (filter@.channels == 1),
                pad_left == pad(filter@.width),
                pad_top == pad(filter@.height),
                total_add::<T>(),
                total_mul::<T>(),
                sums@.len() == ic,
                exact_add_mul::<T>() ==> forall|i: int|
                    0 <= i < ic ==> #[trigger] sums@[i] == conv_acc(
                        img@,
                        filter@,
                        x as int,
                        y as int,
                        i,
                        (fy * fw + fx) as nat,
                    ),
            decreases fw - fx,
        {
            let n: Ghost<int> = Ghost(fy * fw + fx);
            proof {
                lemma_index_decode(fw as int, fh as int, 1, fx as int, fy as int, 0);
                assert(n@ % (fw as int) == fx as int);
                assert(n@ / (fw as int) == fy as int);
            }
            let pixel = img.pixel_at(
                x as i64 + fx as i64 - pad_left,
                y as i64 + fy as i64 - pad_top,
            );
            let weights = filter.get_pixel_unchecked(fx, fy);
            let ghost before = sums@;
            let mut chan: usize = 0;
            while chan < ic
                invariant
                    chan <= ic,
                    ic == img@.channels,
                    filter.wf(),
                    kernel_fits(img@, filter@),
                    single == (filter@.channels == 1),
                    total_add::<T>(),
                    total_mul::<T>(),
                    pixel@.len() == ic,
                    weights@.len() == filter@.channels,
                    sums@.len() == ic,
                    before.len() == ic,
                    forall|i: int| chan <= i < ic ==> #[trigger] sums@[i] == before[i],
                    forall|i: int|
                        0 <= i < chan ==> #[trigger] sums@[i] == before[i].add_spec(
                            weights@[kernel_channel(filter@, i)].mul_spec(pixel@[i]),
                        ) || !exact_add_mul::<T>(),
                decreases ic - chan,
            {
                let wgt = if single {
                    weights[0]
                } else {
                    weights[chan]
                };
                let s = sums[chan] + wgt * pixel[chan];
                sums.set(chan, s);
                chan = chan + 1;
            }
            proof {
                if exact_add_mul::<T>() {
                    assert forall|i: int| 0 <= i < ic implies #[trigger] sums@[i] == conv_acc(
                        img@,
                        filter@,
                        x as int,
                        y as int,
                        i,
                        (fy * fw + fx + 1) as nat,
                    ) by {
                        assert((fy * fw + fx + 1) as nat - 1 == n@);
                    }
                }
            }
            fx = fx + 1;
        }
        proof {
            assert(fy * fw + fw == (fy + 1) * fw) by (nonlinear_arith);
        }
        fy = fy + 1;
    }
    proof {
        assert(fh * fw == fw * fh) by (nonlinear_arith);
    }
    sums
}

/// Per-channel sums of all taps of a one-row or one-column kernel at `(x, y)`.
fn line_sums<T>(img: &Image<T>, filter: &Image<T>, x: u32, y: u32, axis: Axis) -> (r: Vec<T>) where
    T: Copy + Add<Output = T> + Mul<Output = T>,

    requires
        img.wf(),
        filter.wf(),
        filter@.channels == 1,
        match axis {
            Axis::Horizontal => filter@.height == 1,
            Axis::Vertical => filter@.width == 1,
        },
        img@.in_bounds(x as int, y as int),
        total_add::<T>(),
        total_mul::<T>(),
    ensures
        r@.len() == img@.channels,
        exact_add_mul::<T>() ==> forall|c: int|
            0 <= c < img@.channels ==> #[trigger] r@[c] == conv_at(img@, filter@, x as int, y as int, c),
{
    let ic = img.channels() as usize;
    let len = match axis {
        Axis::Horizontal => filter.width(),
        Axis::Vertical => filter.height(),
    };
    let zero = img.zero();
    let mut sums: Vec<T> = Vec::new();
    let mut c: usize = 0;
    while c < ic
        invariant
            c <= ic,
            ic == img@.channels,
            zero == img@.zero,
            sums@.len() == c,
            forall|i: int| 0 <= i < c ==> #[trigger] sums@[i] == img@.zero,
        decreases ic - c,
    {
        sums.push(zero);
        c = c + 1;
    }
    proof {
        assert(filter@.width * filter@.height == len) by (nonlinear_arith)
            requires
                filter@.width == 1 || filter@.height == 1,
                len == filter@.width || len == filter@.height,
                filter@.width == 1 ==> len == filter@.height,
                filter@.height == 1 ==> len == filter@.width,
        ;
    }
    let offset = ((len - 1) / 2) as i64;
    let mut k: u32 = 0;
    while k < len
        invariant
            k <= len,
            img.wf(),
            filter.wf(),
            filter@.channels == 1,
            ic == img@.channels,
            match axis {
                Axis::Horizontal => filter@.height == 1 && len == filter@.width,
                Axis::Vertical => filter@.width == 1 && len == filter@.height,
            },
            offset == (len - 1) / 2,
            total_add::<T>(),
            total_mul::<T>(),
            sums@.len() == ic,
            exact_add_mul::<T>() ==> forall|i: int|
                0 <= i < ic ==> #[trigger] sums@[i] == conv_acc(
                    img@,
                    filter@,
                    x as int,
                    y as int,
                    i,
                    k as nat,
                ),
        decreases len - k,
    {
        let (pixel, weights) = match axis {
            Axis::Horizontal => (
                img.pixel_at(x as i64 + k as i64 - offset, y as i64),
                filter.get_pixel_unchecked(k, 0),
            ),
            Axis::Vertical => (
                img.pixel_at(x as i64, y as i64 + k as i64 - offset),
                filter.get_pixel_unchecked(0, k),
            ),
        };
        proof {
            let fw = filter@.width as int;
            match axis {
                Axis::Horizontal => {
                    vstd::arithmetic::div_mod::lemma_small_mod(k as nat, fw as nat);
                    vstd::arithmetic::div_mod::lemma_basic_div(k as int, fw);
                },
                Axis::Vertical => {
                    assert(k as int % 1 == 0);
                    assert(k as int / 1 == k as int);
                },
            }
            assert(pixel@ == img@.pixel(
                x + (k as int) % fw - pad(filter@.width),
                y + (k as int) / fw - pad(filter@.height),
            ));
            assert(weights@ == filter@.pixel((k as int) % fw, (k as int) / fw));
        }
        let wgt = weights[0];
        let ghost before = sums@;
        let mut chan: usize = 0;
        while chan < ic
            invariant
                chan <= ic,
                ic == img@.channels,
                total_add::<T>(),
                total_mul::<T>(),
                pixel@.len() == ic,
                sums@.len() == ic,
                before.len() == ic,
                forall|i: int| chan <= i < ic ==> #[trigger] sums@[i] == before[i],
                forall|i: int|
                    0 <= i < chan ==> #[trigger] sums@[i] == before[i].add_spec(
                        wgt.mul_spec(pixel@[i]),
                    ) || !exact_add_mul::<T>(),
            decreases ic - chan,
        {
            let s = sums[chan] + wgt * pixel[chan];
            sums.set(chan, s);
            chan = chan + 1;
        }
        k = k + 1;
    }
    sums
}

/// Appends the output samples of one pixel.
fn emit<T: Copy + Add<Output = T>>(out: &mut Vec<T>, sums: &Vec<T>, preserve: bool)
    requires
        old(out)@.len() + sums@.len() <= usize::MAX,
        sums@.len() >= 1,
        total_add::<T>(),
    ensures
        preserve ==> final(out)@ == old(out)@ + sums@,
        !preserve ==> final(out)@.len() == old(out)@.len() + 1,
        !preserve ==> final(out)@.drop_last() == old(out)@,
        !preserve && T::obeys_add_spec() ==> final(out)@.last() == seq_sum(sums@),
{
    if preserve {
        let mut c: usize = 0;
        while c < sums.len()
            invariant
                c <= sums@.len(),
                out@ == old(out)@ + sums@.subrange(0, c as int),
            decreases sums@.len() - c,
        {
            out.push(sums[c]);
            proof {
                assert(sums@.subrange(0, c + 1) =~= sums@.subrange(0, c as int).push(sums@[c as int]));
            }
            c = c + 1;
        }
        proof {
            assert(sums@.subrange(0, sums@.len() as int) =~= sums@);
        }
    } else {
        let s = sum_samples(sums.as_slice());
        out.push(s);
        proof {
            assert(out@.drop_last() =~= old(out)@);
        }
    }
}

/// Runs the kernel over every pixel: a full two-dimensional pass, or a
/// one-dimensional pass along `axis`.
fn convolve_pass<T>(img: &Image<T>, filter: &Image<T>, axis: Option<Axis>, preserve: bool) -> (r: Image<T>) where
    T: Copy + Add<Output = T> + Mul<Output = T>,

    requires
        img.wf(),
        filter.wf(),
        match axis {
            None => kernel_fits(img@, filter@),
            Some(Axis::Horizontal) => filter@.channels == 1 && filter@.height == 1,
            Some(Axis::Vertical) => filter@.channels == 1 && filter@.width == 1,
        },
        total_add::<T>(),
        total_mul::<T>(),
    ensures
        r.wf(),
        r@.width == img@.width,
        r@.height == img@.height,
        r@.channels == output_channels(img@, preserve),
        r@.zero == img@.zero,
        exact_add_mul::<T>() ==> r@ == convolved(img@, filter@, preserve),
{
    let w = img.width();
    let h = img.height();
    let ic = img.channels();
    let oc: u32 = if preserve {
        ic
    } else {
        1
    };
    let ghost model = convolved(img@, filter@, preserve);
    let mut out: Vec<T> = Vec::new();
    let mut y: u32 = 0;
    while y < h
        invariant
            y <= h,
            img.wf(),
            filter.wf(),
            match axis {
                None => kernel_fits(img@, filter@),
                Some(Axis::Horizontal) => filter@.channels == 1 && filter@.height == 1,
                Some(Axis::Vertical) => filter@.channels == 1 && filter@.width == 1,
            },
            total_add::<T>(),
            total_mul::<T>(),
            w == img@.width,
            h == img@.height,
            ic == img@.channels,
            oc == output_channels(img@, preserve),
            model == convolved(img@, filter@, preserve),
            out@.len() == y * w * oc,
            exact_add_mul::<T>() ==> forall|j: int|
                0 <= j < out@.len() ==> #[trigger] out@[j] == model.samples[j],
        decreases h - y,
    {
        let mut x: u32 = 0;
        while x < w
            invariant
                x <= w,
                y < h,
                img.wf(),
                filter.wf(),
                match axis {
                    None => kernel_fits(img@, filter@),
                    Some(Axis::Horizontal) => filter@.channels == 1 && filter@.height == 1,
                    Some(Axis::Vertical) => filter@.channels == 1 && filter@.width == 1,
                },
                total_add::<T>(),
                total_mul::<T>(),
                w == img@.width,
                h == img@.height,
                ic == img@.channels,
                oc == output_channels(img@, preserve),
                model == convolved(img@, filter@, preserve),
                out@.len() == (y * w + x) * oc,
                exact_add_mul::<T>() ==> forall|j: int|
                    0 <= j < out@.len() ==> #[trigger] out@[j] == model.samples[j],
            decreases w - x,
        {
            let sums = match axis {
                None => pixel_sums(img, filter, x, y),
                Some(a) => line_sums(img, filter, x, y, a),
            };
            proof {
                lemma_index_decode(w as int, h as int, oc as int, x as int, y as int, oc - 1);
                assert((y * w + x) * oc + oc == (y * w + x + 1) * oc) by (nonlinear_arith);
                assert((y * w + x + 1) * oc <= (w * h) * oc) by (nonlinear_arith)
                    requires
                        y * w + x < w * h,
                ;
                assert(w * h * oc == img@.width * img@.height * oc);
                assert(img@.width * img@.height * ic <= usize::MAX);
                assert((y * w + x) * oc + ic <= (y * w + x + 1) * ic) by (nonlinear_arith)
                    requires
                        oc <= ic,
                        y * w + x >= 0,
                ;
                assert((y * w + x + 1) * ic <= (w * h) * ic) by (nonlinear_arith)
                    requires
                        y * w + x < w * h,
                ;
            }
            let ghost before = out@;
            emit(&mut out, &sums, preserve);
            proof {
                if exact_add_mul::<T>() {
                    assert forall|j: int| 0 <= j < out@.len() implies #[trigger] out@[j]
                        == model.samples[j] by {
                        if j >= before.len() {
                            let c = j - before.len();
                            lemma_index_decode(w as int, h as int, oc as int, x as int, y as int, c);
                            if preserve {
                                assert(out@[j] == sums@[c]);
                            } else {
                                assert(out@[j] == out@.last());
                                assert(sums@ =~= Seq::new(
                                    img@.channels,
                                    |ch: int| conv_at(img@, filter@, x as int, y as int, ch),
                                ));
                            }
                        } else {
                            if !preserve {
                                assert(out@[j] == out@.drop_last()[j]);
                            }
                        }
                    }
                }
            }
            x = x + 1;
        }
        proof {
            assert((y * w + w) * oc == (y + 1) * w * oc) by (nonlinear_arith);
        }
        y = y + 1;
    }
    proof {
        assert(out@.len() == img@.width * img@.height * oc) by (nonlinear_arith)
            requires
                out@.len() == h * w * oc,
                w == img@.width,
                h == img@.height,
        ;
        if exact_add_mul::<T>() {
            assert(out@ =~= model.samples);
        }
        assert(img@.width * img@.height * oc <= img@.width * img@.height * ic) by (nonlinear_arith)
            requires
                oc <= ic,
        ;
    }
    Image::with_zero(w, h, oc, out, img.zero())
}

/// Convolves `img` with `filter`, keeping the grid: each output pixel sums
/// kernel weight times source pixel over the kernel, the source read at
/// `(x + fx - (kw - 1) / 2, y + fy - (kh - 1) / 2)` and zero off the grid.
/// With `preserve` each channel stays apart, else the channels are summed
/// into one.
pub fn convolve_image<T>(img: Image<T>, filter: Image<T>, preserve: bool) -> (r: Result<
    Image<T>,
    ImageError,
>) where T: Copy + Add<Output = T> + Mul<Output = T>
    requires
        img.wf(),
        filter.wf(),
        total_add::<T>(),
        total_mul::<T>(),
    ensures
        r is Ok <==> kernel_fits(img@, filter@),
        r matches Err(e) ==> e == ImageError::KernelChannelMismatch,
        r matches Ok(out) ==> {
            &&& out.wf()
            &&& out@.width == img@.width
            &&& out@.height == img@.height
            &&& out@.channels == output_channels(img@, preserve)
            &&& out@.zero == img@.zero
            &&& exact_add_mul::<T>() ==> out@ == convolved(img@, filter@, preserve)
        },
{
    if !(filter.channels() == 1 || filter.channels() == img.channels()) {
        return Err(ImageError::KernelChannelMismatch);
    }
    Ok(convolve_pass(&img, &filter, None, preserve))
}

/// Convolves `img` with a one-row or one-column kernel, touching only the
/// row (or column) of each pixel. The result is the two-dimensional
/// convolution with that kernel.
pub fn convolve_image_separable<T>(img: Image<T>, filter_1d: Image<T>, preserve: bool) -> (r:
    Result<Image<T>, ImageError>) where T: Copy + Add<Output = T> + Mul<Output = T>
    requires
        img.wf(),
        filter_1d.wf(),
        total_add::<T>(),
        total_mul::<T>(),
    ensures
        !((filter_1d@.width == 1 && filter_1d@.height > 1) || (filter_1d@.height == 1
            && filter_1d@.width > 1)) ==> r == Err::<Image<T>, ImageError>(
            ImageError::NotSeparable,
        ),
        ((filter_1d@.width == 1 && filter_1d@.height > 1) || (filter_1d@.height == 1
            && filter_1d@.width > 1)) && filter_1d@.channels != 1 ==> r == Err::<
            Image<T>,
            ImageError,
        >(ImageError::KernelChannelMismatch),
        r is Ok <==> ((filter_1d@.width == 1 && filter_1d@.height > 1) || (filter_1d@.height == 1
            && filter_1d@.width > 1)) && filter_1d@.channels == 1,
        r matches Ok(out) ==> {
            &&& out.wf()
            &&& out@.width == img@.width
            &&& out@.height == img@.height
            &&& out@.channels == output_channels(img@, preserve)
            &&& out@.zero == img@.zero
            &&& exact_add_mul::<T>() ==> out@ == convolved(img@, filter_1d@, preserve)
        },
{
    let fw = filter_1d.width();
    let fh = filter_1d.height();
    let axis = if fw == 1 && fh > 1 {
        Axis::Vertical
    } else if fh == 1 && fw > 1 {
        Axis::Horizontal
    } else {
        return Err(ImageError::NotSeparable);
    };
    if filter_1d.channels() != 1 {
        return Err(ImageError::KernelChannelMismatch);
    }
    Ok(convolve_pass(&img, &filter_1d, Some(axis), preserve))
}

} // verus!
