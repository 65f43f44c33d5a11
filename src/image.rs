use vstd::prelude::*;

verus! {

/// Why an image, or an operation on images, was refused.
#[derive(Debug, Clone, Copy, PartialEq, Eq, Structural)]
pub enum ImageError {
    /// A width, height or channel count of zero.
    ZeroDimension,
    /// The sample buffer does not hold `width * height * channels` samples.
    SampleCountMismatch,
    /// A kernel that has neither one channel nor as many as the image.
    KernelChannelMismatch,
    /// Two images that differ in width, height or channel count.
    ShapeMismatch,
    /// A kernel that is neither a single row nor a single column.
    NotSeparable,
    /// An image that has neither 1 nor 3 channels cannot be encoded.
    UnsupportedChannelCount,
    /// A source pixel format that has no floating-point layout here.
    UnsupportedFormat,
}

/// The mathematical content of an image: its grid, its interleaved samples
/// (channel fastest, then x, then y) and the sample that stands for "nothing"
/// outside the grid.
pub struct ImageModel<T> {
    pub width: nat,
    pub height: nat,
    pub channels: nat,
    pub samples: Seq<T>,
    pub zero: T,
}

impl<T> ImageModel<T> {
    pub open spec fn valid(self) -> bool {
        &&& 1 <= self.width <= u32::MAX
        &&& 1 <= self.height <= u32::MAX
        &&& 1 <= self.channels <= u32::MAX
        &&& self.samples.len() == self.width * self.height * self.channels
        &&& self.samples.len() <= usize::MAX
    }

    pub open spec fn in_bounds(self, x: int, y: int) -> bool {
        0 <= x < self.width && 0 <= y < self.height
    }

    /// Position of channel `c` of pixel `(x, y)` in the sample sequence.
    pub open spec fn index(self, x: int, y: int, c: int) -> int {
        (y * self.width + x) * self.channels + c
    }

    /// Channel `c` of pixel `(x, y)`, reading the zero sample off the grid.
    pub open spec fn at(self, x: int, y: int, c: int) -> T {
        if self.in_bounds(x, y) {
            self.samples[self.index(x, y, c)]
        } else {
            self.zero
        }
    }

    pub open spec fn pixel(self, x: int, y: int) -> Seq<T> {
        Seq::new(self.channels, |c: int| self.at(x, y, c))
    }

    pub open spec fn same_shape(self, o: ImageModel<T>) -> bool {
        self.width == o.width && self.height == o.height && self.channels == o.channels
    }
}

/// Channel `c` of pixel `(x, y)` lies inside a buffer of `w * h * ch` samples,
/// and its flat position decodes back to `(x, y, c)`.
pub proof fn lemma_index_decode(w: int, h: int, ch: int, x: int, y: int, c: int)
    requires
        0 <= x < w,
        0 <= y < h,
        0 <= c < ch,
    ensures
        0 <= (y * w + x) * ch + c < w * h * ch,
        ((y * w + x) * ch + c) / ch == y * w + x,
        ((y * w + x) * ch + c) % ch == c,
        (y * w + x) / w == y,
        (y * w + x) % w == x,
        0 <= y * w + x < w * h,
{
    assert(0 <= y * w + x < w * h) by (nonlinear_arith)
        requires
            0 <= x < w,
            0 <= y < h,
    ;
    assert(0 <= (y * w + x) * ch + c < w * h * ch) by (nonlinear_arith)
        requires
            0 <= y * w + x < w * h,
            0 <= c < ch,
    ;
    vstd::arithmetic::div_mod::lemma_fundamental_div_mod_converse((y * w + x) * ch + c, ch, y * w + x, c);
    vstd::arithmetic::div_mod::lemma_fundamental_div_mod_converse(y * w + x, w, y, x);
}

/// A flat position inside a buffer of `w * h * ch` samples is channel
/// `j % ch` of the pixel at `(j / ch % w, j / ch / w)`.
pub proof fn lemma_flat_decode(w: int, h: int, ch: int, j: int)
    requires
        w >= 1,
        h >= 1,
        ch >= 1,
        0 <= j < w * h * ch,
    ensures
        0 <= (j / ch) % w < w,
        0 <= (j / ch) / w < h,
        0 <= j % ch < ch,
        j == (((j / ch) / w) * w + (j / ch) % w) * ch + j % ch,
{
    let p = j / ch;
    vstd::arithmetic::div_mod::lemma_fundamental_div_mod(j, ch);
    vstd::arithmetic::div_mod::lemma_fundamental_div_mod(p, w);
    assert(0 <= p < w * h) by {
        vstd::arithmetic::div_mod::lemma_div_pos_is_pos(j, ch);
        assert(j == ch * p + j % ch);
        assert(p < w * h) by (nonlinear_arith)
            requires
                j == ch * p + j % ch,
                0 <= j % ch,
                j < w * h * ch,
                ch >= 1,
        ;
    }
    assert(0 <= p / w < h) by {
        vstd::arithmetic::div_mod::lemma_div_pos_is_pos(p, w);
        assert(p / w < h) by (nonlinear_arith)
            requires
                p == w * (p / w) + p % w,
                0 <= p % w,
                p < w * h,
                w >= 1,
        ;
    }
    assert(j == ((p / w) * w + p % w) * ch + j % ch) by (nonlinear_arith)
        requires
            j == ch * p + j % ch,
            p == w * (p / w) + p % w,
    ;
}

/// `z` is what `T::default()` returns: `0` for the integer types and `0.0`
/// for the floating-point ones. Off the grid every image reads this sample.
pub open spec fn is_zero_sample<T: Default>(z: T) -> bool {
    call_ensures(T::default, (), z)
}

/// A pixel buffer: `width * height` pixels of `channels` interleaved samples.
#[derive(Clone, Debug)]
pub struct Image<T> {
    width: u32,
    height: u32,
    channels: u32,
    array: Vec<T>,
    zero_pixel: Vec<T>,
}

impl<T> View for Image<T> {
    type V = ImageModel<T>;

    closed spec fn view(&self) -> ImageModel<T> {
        ImageModel {
            width: self.width as nat,
            height: self.height as nat,
            channels: self.channels as nat,
            samples: self.array@,
            zero: self.zero_pixel@[0],
        }
    }
}

impl<T: Copy> Image<T> {
    /// The stored zero pixel agrees with the model's zero sample.
    pub closed spec fn zero_pixel_ok(&self) -> bool {
        &&& self.zero_pixel@.len() == self.channels
        &&& forall|c: int| 0 <= c < self.channels ==> #[trigger] self.zero_pixel@[c] == self@.zero
    }

    pub open spec fn wf(&self) -> bool {
        self@.valid() && self.zero_pixel_ok()
    }

    /// Builds an image whose off-grid sample is `zero`.
    pub(crate) fn with_zero(width: u32, height: u32, channels: u32, array: Vec<T>, zero: T) -> (r: Image<T>)
        requires
            width >= 1,
            height >= 1,
            channels >= 1,
            array@.len() == width * height * channels,
        ensures
            r.wf(),
            r@.width == width,
            r@.height == height,
            r@.channels == channels,
            r@.samples == array@,
            r@.zero == zero,
    {
        proof {
            assert(array@.len() == array.len());
        }
        let mut zero_pixel: Vec<T> = Vec::new();
        let mut c: u32 = 0;
        while c < channels
            invariant
                c <= channels,
                zero_pixel@.len() == c,
                forall|i: int| 0 <= i < c ==> #[trigger] zero_pixel@[i] == zero,
            decreases channels - c,
        {
            zero_pixel.push(zero);
            c = c + 1;
        }
        Image { width, height, channels, array, zero_pixel }
    }

    /// Builds an image from its dimensions and interleaved samples; the
    /// off-grid sample is `T::default()`.
    pub fn new(width: u32, height: u32, channels: u32, array: Vec<T>) -> (r: Result<
        Image<T>,
        ImageError,
    >) where T: Default
        ensures
            (width == 0 || height == 0 || channels == 0) ==> r == Err::<Image<T>, ImageError>(
                ImageError::ZeroDimension,
            ),
            (width >= 1 && height >= 1 && channels >= 1 && array@.len() != width * height
                * channels) ==> r == Err::<Image<T>, ImageError>(ImageError::SampleCountMismatch),
            r is Ok <==> (width >= 1 && height >= 1 && channels >= 1 && array@.len() == width
                * height * channels),
            r matches Ok(img) ==> {
                &&& img.wf()
                &&& img@.width == width
                &&& img@.height == height
                &&& img@.channels == channels
                &&& img@.samples == array@
                &&& is_zero_sample(img@.zero)
            },
    {
        if width == 0 || height == 0 || channels == 0 {
            return Err(ImageError::ZeroDimension);
        }
        proof {
            assert(array@.len() == array.len());
        }
        let wh = (width as usize).checked_mul(height as usize);
        let total = match wh {
            Some(p) => p.checked_mul(channels as usize),
            None => None,
        };
        match total {
            Some(n) => {
                if array.len() != n {
                    return Err(ImageError::SampleCountMismatch);
                }
            },
            None => {
                proof {
                    assert(array@.len() != width * height * channels) by (nonlinear_arith)
                        requires
                            array@.len() <= usize::MAX,
                            wh is None ==> width * height > usize::MAX,
                            wh matches Some(p) ==> p == width * height && p * channels
                                > usize::MAX,
                            width >= 1,
                            height >= 1,
                            channels >= 1,
                    ;
                }
                return Err(ImageError::SampleCountMismatch);
            },
        }
        Ok(Image::with_zero(width, height, channels, array, T::default()))
    }

    pub fn width(&self) -> (r: u32)
        ensures
            r == self@.width,
    {
        self.width
    }

    pub fn height(&self) -> (r: u32)
        ensures
            r == self@.height,
    {
        self.height
    }

    pub fn channels(&self) -> (r: u32)
        ensures
            r == self@.channels,
    {
        self.channels
    }

    /// The interleaved samples.
    pub fn array(&self) -> (r: &[T])
        ensures
            r@ == self@.samples,
    {
        self.array.as_slice()
    }

    /// The off-grid sample.
    pub fn zero(&self) -> (r: T)
        requires
            self.wf(),
        ensures
            r == self@.zero,
    {
        self.zero_pixel[0]
    }

    /// Gives up the image and hands back its samples.
    pub fn into_array(self) -> (r: Vec<T>)
        ensures
            r@ == self@.samples,
    {
        self.array
    }

    /// Overwrites the sample at flat position `index`.
    pub fn set_sample(&mut self, index: usize, value: T)
        requires
            old(self).wf(),
            index < old(self)@.samples.len(),
        ensures
            final(self).wf(),
            final(self)@ == (ImageModel { samples: old(self)@.samples.update(index as int, value), ..old(self)@ }),
    {
        self.array.set(index, value);
    }

    /// The pixel at `(x, y)`, or the zero pixel where `(x, y)` is off the grid.
    pub fn pixel_at(&self, x: i64, y: i64) -> (r: &[T])
        requires
            self.wf(),
        ensures
            r@ == self@.pixel(x as int, y as int),
    {
        if x < 0 || y < 0 || x >= self.width as i64 || y >= self.height as i64 {
            proof {
                assert(self.zero_pixel@ =~= self@.pixel(x as int, y as int));
            }
            return self.zero_pixel.as_slice();
        }
        self.pixel_in_grid(x as u32, y as u32)
    }

    fn pixel_in_grid(&self, x: u32, y: u32) -> (r: &[T])
        requires
            self.wf(),
            x < self@.width,
            y < self@.height,
        ensures
            r@ == self@.pixel(x as int, y as int),
    {
        let w = self.width as usize;
        let ch = self.channels as usize;
        proof {
            lemma_index_decode(w as int, self.height as int, ch as int, x as int, y as int, 0);
            lemma_index_decode(
                w as int,
                self.height as int,
                ch as int,
                x as int,
                y as int,
                ch - 1,
            );
            assert((y * w + x) * ch + ch == (y * w + x) * ch + (ch - 1) + 1);
        }
        let start = (y as usize * w + x as usize) * ch;
        let r = vstd::slice::slice_subrange(self.array.as_slice(), start, start + ch);
        proof {
            assert(r@ =~= self@.pixel(x as int, y as int));
        }
        r
    }

    /// The pixel at `(x, y)`: off the grid it reads as the zero pixel.
    pub fn get_pixel(&self, x: i32, y: i32) -> (r: &[T])
        requires
            self.wf(),
        ensures
            r@ == self@.pixel(x as int, y as int),
    {
        self.pixel_at(x as i64, y as i64)
    }

    /// The pixel at `(x, y)`, which the caller has already placed on the grid.
    pub fn get_pixel_unchecked(&self, x: u32, y: u32) -> (r: &[T])
        requires
            self.wf(),
            self@.in_bounds(x as int, y as int),
        ensures
            r@ == self@.pixel(x as int, y as int),
    {
        self.pixel_in_grid(x, y)
    }

    /// Writes a whole pixel. Refused, with the image left as it was, where
    /// `(x, y)` is off the grid or `pixel` has not one sample per channel.
    pub fn put_pixel(&mut self, x: u32, y: u32, pixel: Vec<T>) -> (r: bool)
        requires
            old(self).wf(),
        ensures
            final(self).wf(),
            r == (old(self)@.in_bounds(x as int, y as int) && pixel@.len()
                == old(self)@.channels),
            final(self)@.width == old(self)@.width,
            final(self)@.height == old(self)@.height,
            final(self)@.channels == old(self)@.channels,
            final(self)@.zero == old(self)@.zero,
            !r ==> final(self)@ == old(self)@,
            r ==> forall|i: int|
                0 <= i < old(self)@.samples.len() ==> #[trigger] final(self)@.samples[i] == if
                    old(self)@.index(x as int, y as int, 0) <= i < old(self)@.index(
                        x as int,
                        y as int,
                        0,
                    ) + old(self)@.channels {
                    pixel@[i - old(self)@.index(x as int, y as int, 0)]
                } else {
                    old(self)@.samples[i]
                },
            final(self)@.samples.len() == old(self)@.samples.len(),
    {
        if x >= self.width || y >= self.height || pixel.len() != self.channels as usize {
            return false;
        }
        let w = self.width as usize;
        let ch = self.channels as usize;
        proof {
            lemma_index_decode(w as int, self.height as int, ch as int, x as int, y as int, 0);
            lemma_index_decode(
                w as int,
                self.height as int,
                ch as int,
                x as int,
                y as int,
                ch - 1,
            );
        }
        let start = (y as usize * w + x as usize) * ch;
        let ghost before = self.array@;
        let mut c: usize = 0;
        while c < ch
            invariant
                c <= ch,
                self.width == old(self).width,
                self.height == old(self).height,
                self.channels == old(self).channels,
                self.zero_pixel == old(self).zero_pixel,
                ch == self.channels,
                ch == pixel@.len(),
                start + ch <= self.array@.len(),
                self.array@.len() == before.len(),
                before.len() <= usize::MAX,
                forall|i: int|
                    0 <= i < before.len() ==> #[trigger] self.array@[i] == if start <= i < start
                        + c {
                        pixel@[i - start]
                    } else {
                        before[i]
                    },
            decreases ch - c,
        {
            self.array.set(start + c, pixel[c]);
            c = c + 1;
        }
        true
    }
}

} // verus!
