use vstd::prelude::*;
use vstd::std_specs::convert::FromSpec;

use crate::image::{is_zero_sample, Image};

verus! {

/// The samples of a kernel given by small integer weights.
pub open spec fn weights_of<T: From<i8>>(w: Seq<i8>) -> Seq<T> {
    w.map_values(|v: i8| T::from_spec(v))
}

/// A one-channel 3x3 kernel with the given row-major weights.
fn kernel_3x3<T: Copy + Default + From<i8>>(weights: [i8; 9]) -> (r: Image<T>)
    ensures
        r.wf(),
        r@.width == 3,
        r@.height == 3,
        r@.channels == 1,
        is_zero_sample(r@.zero),
        T::obeys_from_spec() ==> r@.samples == weights_of::<T>(weights@),
{
    let mut data: Vec<T> = Vec::new();
    let mut i: usize = 0;
    while i < 9
        invariant
            i <= 9,
            weights@.len() == 9,
            data@.len() == i,
            forall|j: int|
                0 <= j < i ==> #[trigger] data@[j] == T::from_spec(weights@[j])
                    || !T::obeys_from_spec(),
        decreases 9 - i,
    {
        data.push(T::from(weights[i]));
        i = i + 1;
    }
    proof {
        if T::obeys_from_spec() {
            assert(data@ =~= weights_of::<T>(weights@));
        }
    }
    Image::with_zero(3, 3, 1, data, T::default())
}

/// The Laplacian high-pass kernel: 4 at the centre, -1 at the four
/// neighbours that share an edge with it.
pub fn make_high_pass_filter<T: Copy + Default + From<i8>>() -> (r: Image<T>)
    ensures
        r.wf(),
        r@.width == 3,
        r@.height == 3,
        r@.channels == 1,
        is_zero_sample(r@.zero),
        T::obeys_from_spec() ==> r@.samples == weights_of::<T>(seq![0i8, -1i8, 0i8, -1i8, 4i8, -1i8, 0i8, -1i8, 0i8]),
{
    let r = kernel_3x3([0, -1, 0, -1, 4, -1, 0, -1, 0]);
    proof {
        assert([0i8, -1i8, 0i8, -1i8, 4i8, -1i8, 0i8, -1i8, 0i8]@ =~= seq![0i8, -1i8, 0i8, -1i8, 4i8, -1i8, 0i8, -1i8, 0i8]);
    }
    r
}

/// The sharpening kernel: the high-pass kernel plus the identity.
pub fn make_sharpen_filter<T: Copy + Default + From<i8>>() -> (r: Image<T>)
    ensures
        r.wf(),
        r@.width == 3,
        r@.height == 3,
        r@.channels == 1,
        is_zero_sample(r@.zero),
        T::obeys_from_spec() ==> r@.samples == weights_of::<T>(seq![0i8, -1i8, 0i8, -1i8, 5i8, -1i8, 0i8, -1i8, 0i8]),
{
    let r = kernel_3x3([0, -1, 0, -1, 5, -1, 0, -1, 0]);
    proof {
        assert([0i8, -1i8, 0i8, -1i8, 5i8, -1i8, 0i8, -1i8, 0i8]@ =~= seq![0i8, -1i8, 0i8, -1i8, 5i8, -1i8, 0i8, -1i8, 0i8]);
    }
    r
}

/// The emboss kernel, lit from the top left.
pub fn make_emboss_filter<T: Copy + Default + From<i8>>() -> (r: Image<T>)
    ensures
        r.wf(),
        r@.width == 3,
        r@.height == 3,
        r@.channels == 1,
        is_zero_sample(r@.zero),
        T::obeys_from_spec() ==> r@.samples == weights_of::<T>(seq![-2i8, -1i8, 0i8, -1i8, 1i8, 1i8, 0i8, 1i8, 2i8]),
{
    let r = kernel_3x3([-2, -1, 0, -1, 1, 1, 0, 1, 2]);
    proof {
        assert([-2i8, -1i8, 0i8, -1i8, 1i8, 1i8, 0i8, 1i8, 2i8]@ =~= seq![-2i8, -1i8, 0i8, -1i8, 1i8, 1i8, 0i8, 1i8, 2i8]);
    }
    r
}

/// The Sobel kernel for the horizontal gradient.
pub fn make_sobel_x_filter<T: Copy + Default + From<i8>>() -> (r: Image<T>)
    ensures
        r.wf(),
        r@.width == 3,
        r@.height == 3,
        r@.channels == 1,
        is_zero_sample(r@.zero),
        T::obeys_from_spec() ==> r@.samples == weights_of::<T>(seq![-1i8, 0i8, 1i8, -2i8, 0i8, 2i8, -1i8, 0i8, 1i8]),
{
    let r = kernel_3x3([-1, 0, 1, -2, 0, 2, -1, 0, 1]);
    proof {
        assert([-1i8, 0i8, 1i8, -2i8, 0i8, 2i8, -1i8, 0i8, 1i8]@ =~= seq![-1i8, 0i8, 1i8, -2i8, 0i8, 2i8, -1i8, 0i8, 1i8]);
    }
    r
}

/// The Sobel kernel for the vertical gradient.
pub fn make_sobel_y_filter<T: Copy + Default + From<i8>>() -> (r: Image<T>)
    ensures
        r.wf(),
        r@.width == 3,
        r@.height == 3,
        r@.channels == 1,
        is_zero_sample(r@.zero),
        T::obeys_from_spec() ==> r@.samples == weights_of::<T>(seq![-1i8, -2i8, -1i8, 0i8, 0i8, 0i8, 1i8, 2i8, 1i8]),
{
    let r = kernel_3x3([-1, -2, -1, 0, 0, 0, 1, 2, 1]);
    proof {
        assert([-1i8, -2i8, -1i8, 0i8, 0i8, 0i8, 1i8, 2i8, 1i8]@ =~= seq![-1i8, -2i8, -1i8, 0i8, 0i8, 0i8, 1i8, 2i8, 1i8]);
    }
    r
}

} // verus!
