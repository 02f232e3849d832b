//! The image a render fills: `width * height` values, one per pixel, kept
//! row after row.
use vstd::prelude::*;

verus! {

/// Where pixel `(x, y)` stands among the values of a row-major image of the
/// given width.
pub open spec fn pixel_index(x: int, y: int, width: int) -> int {
    y * width + x
}

proof fn lemma_index_in_bounds(x: int, y: int, width: int, height: int)
    requires
        0 <= x < width,
        0 <= y < height,
    ensures
        0 <= y * width <= pixel_index(x, y, width) < width * height,
{
    assert(0 <= y * width <= y * width + x < width * height) by (nonlinear_arith)
        requires
            0 <= x < width,
            0 <= y < height,
    ;
}

/// A two-dimensional image of `width` columns and `height` rows.
pub struct Buffer2D<T> {
    width: usize,
    height: usize,
    data: Vec<T>,
}

impl<T> View for Buffer2D<T> {
    type V = Seq<T>;

    /// The pixel values, row after row.
    closed spec fn view(&self) -> Seq<T> {
        self.data@
    }
}

impl<T: Copy> Buffer2D<T> {
    pub closed spec fn spec_width(&self) -> nat {
        self.width as nat
    }

    pub closed spec fn spec_height(&self) -> nat {
        self.height as nat
    }

    /// One value for each pixel.
    pub closed spec fn wf(&self) -> bool {
        self.data@.len() == self.width * self.height
    }

    /// The value at column `x` of row `y`.
    pub open spec fn at(&self, x: int, y: int) -> T {
        self@[pixel_index(x, y, self.spec_width() as int)]
    }

    /// An image whose pixel `(x, y)` is `shade(x, y)`, for every column `x`
    /// below `width` and every row `y` below `height`.
    pub fn from_fn<F: Fn(usize, usize) -> T>(width: usize, height: usize, shade: F) -> (r: Self)
        requires
            width * height <= usize::MAX,
            forall|x: usize, y: usize| x < width && y < height ==> shade.requires((x, y)),
        ensures
            r.wf(),
            r.spec_width() == width,
            r.spec_height() == height,
            forall|x: usize, y: usize|
                x < width && y < height ==> shade.ensures((x, y), #[trigger] r.at(x as int, y as int)),
    {
        let mut data: Vec<T> = Vec::new();
        let mut y: usize = 0;
        while y < height
            invariant
                width * height <= usize::MAX,
                y <= height,
                forall|x: usize, y: usize| x < width && y < height ==> shade.requires((x, y)),
                data@.len() == y * width,
                forall|xx: usize, yy: usize|
                    xx < width && yy < y ==> shade.ensures(
                        (xx, yy),
                        #[trigger] data@[pixel_index(xx as int, yy as int, width as int)],
                    ),
            decreases height - y,
        {
            let mut x: usize = 0;
            while x < width
                invariant
                    width * height <= usize::MAX,
                    y < height,
                    x <= width,
                    forall|x: usize, y: usize| x < width && y < height ==> shade.requires((x, y)),
                    data@.len() == y * width + x,
                    forall|xx: usize, yy: usize|
                        (xx < width && yy < y) || (xx < x && yy == y) ==> shade.ensures(
                            (xx, yy),
                            #[trigger] data@[pixel_index(xx as int, yy as int, width as int)],
                        ),
                decreases width - x,
            {
                proof {
                    lemma_index_in_bounds(x as int, y as int, width as int, height as int);
                }
                let v = shade(x, y);
                let ghost before = data@;
                data.push(v);
                proof {
                    assert forall|xx: usize, yy: usize|
                        (xx < width && yy < y) || (xx < x + 1 && yy == y) implies shade.ensures(
                            (xx, yy),
                            #[trigger] data@[pixel_index(xx as int, yy as int, width as int)],
                        ) by {
                        if xx == x && yy == y {
                        } else {
                            if yy < y {
                                lemma_index_in_bounds(xx as int, yy as int, width as int, y as int);
                                assert(width * y == y * width) by (nonlinear_arith);
                            }
                            assert(pixel_index(xx as int, yy as int, width as int) < before.len());
                            assert(data@[pixel_index(xx as int, yy as int, width as int)]
                                == before[pixel_index(xx as int, yy as int, width as int)]);
                        }
                    }
                }
                x = x + 1;
            }
            assert((y + 1) * width == y * width + width) by (nonlinear_arith);
            y = y + 1;
        }
        assert(height * width == width * height) by (nonlinear_arith);
        Buffer2D { width, height, data }
    }

    pub fn width(&self) -> (r: usize)
        ensures
            r == self.spec_width(),
    {
        self.width
    }

    pub fn height(&self) -> (r: usize)
        ensures
            r == self.spec_height(),
    {
        self.height
    }

    /// The value at column `x` of row `y`.
    pub fn get(&self, x: usize, y: usize) -> (r: T)
        requires
            self.wf(),
            x < self.spec_width(),
            y < self.spec_height(),
        ensures
            r == self.at(x as int, y as int),
    {
        proof {
            lemma_index_in_bounds(x as int, y as int, self.width as int, self.height as int);
        }
        assert(self.data@.len() == self.data.len());
        self.data[y * self.width + x]
    }

    /// Sets the value at column `x` of row `y`; every other pixel keeps its value.
    pub fn set(&mut self, x: usize, y: usize, value: T)
        requires
            old(self).wf(),
            x < old(self).spec_width(),
            y < old(self).spec_height(),
        ensures
            final(self).wf(),
            final(self).spec_width() == old(self).spec_width(),
            final(self).spec_height() == old(self).spec_height(),
            final(self)@ == old(self)@.update(
                pixel_index(x as int, y as int, old(self).spec_width() as int),
                value,
            ),
    {
        proof {
            lemma_index_in_bounds(x as int, y as int, self.width as int, self.height as int);
        }
        assert(self.data@.len() == self.data.len());
        let i: usize = y * self.width + x;
        self.data.set(i, value);
    }

    /// The values of all pixels, row after row.
    pub fn pixels(&self) -> (r: &Vec<T>)
        ensures
            r@ == self@,
    {
        &self.data
    }
}

} // verus!
