//! A rectangular grid of pixels.

use vstd::prelude::*;

verus! {

/// A grid of `width` by `height` pixels of any type. Pixel `(x, y)` is the
/// one in column `x` of row `y`; row 0 is the top row.
#[derive(Debug)]
pub struct Canvas<T> {
    width: usize,
    height: usize,
    pixels: Vec<Vec<T>>,
}

impl<T: Copy> Canvas<T> {
    /// Whether the canvas holds one pixel for every position: every canvas
    /// that this module hands out does, and every method keeps it so.
    pub closed spec fn wf(&self) -> bool {
        &&& self.pixels@.len() == self.height
        &&& forall|y: int|
            0 <= y < self.pixels@.len() ==> (#[trigger] self.pixels@[y])@.len() == self.width
    }

    /// The number of columns.
    pub closed spec fn spec_width(&self) -> nat {
        self.width as nat
    }

    /// The number of rows.
    pub closed spec fn spec_height(&self) -> nat {
        self.height as nat
    }

    /// The pixel in column `x` of row `y`.
    pub closed spec fn spec_pixel(&self, x: int, y: int) -> T {
        self.pixels@[y]@[x]
    }

    /// Row `y` of the canvas, from the left.
    pub open spec fn spec_row(&self, y: int) -> Seq<T> {
        Seq::new(self.spec_width(), |x: int| self.spec_pixel(x, y))
    }

    /// The rows of the canvas, from the top.
    pub open spec fn spec_rows(&self) -> Seq<Seq<T>> {
        Seq::new(self.spec_height(), |y: int| self.spec_row(y))
    }

    /// A canvas of the given size with every pixel set to `fill`.
    pub fn new(width: usize, height: usize, fill: T) -> (r: Canvas<T>)
        ensures
            r.wf(),
            r.spec_width() == width,
            r.spec_height() == height,
            forall|x: int, y: int| 0 <= x < width && 0 <= y < height ==> r.spec_pixel(x, y) == fill,
    {
        let mut pixels: Vec<Vec<T>> = Vec::new();
        let mut y: usize = 0;
        while y < height
            invariant
                0 <= y <= height,
                pixels@.len() == y,
                forall|j: int| 0 <= j < y ==> (#[trigger] pixels@[j])@.len() == width,
                forall|i: int, j: int| 0 <= i < width && 0 <= j < y ==> pixels@[j]@[i] == fill,
            decreases height - y,
        {
            let mut row: Vec<T> = Vec::new();
            let mut x: usize = 0;
            while x < width
                invariant
                    0 <= x <= width,
                    row@.len() == x,
                    forall|i: int| 0 <= i < x ==> row@[i] == fill,
                decreases width - x,
            {
                row.push(fill);
                x = x + 1;
            }
            pixels.push(row);
            y = y + 1;
        }
        Canvas { width, height, pixels }
    }

    /// The number of columns.
    pub fn width(&self) -> (r: usize)
        ensures
            r == self.spec_width(),
    {
        self.width
    }

    /// The number of rows.
    pub fn height(&self) -> (r: usize)
        ensures
            r == self.spec_height(),
    {
        self.height
    }

    /// The pixel in column `x` of row `y`, if the canvas has one there.
    pub fn pixel_at(&self, x: usize, y: usize) -> (r: Option<T>)
        requires
            self.wf(),
        ensures
            r == if x < self.spec_width() && y < self.spec_height() {
                Some(self.spec_pixel(x as int, y as int))
            } else {
                None
            },
    {
        if x < self.width && y < self.height {
            Some(self.pixels[y][x])
        } else {
            None
        }
    }

    /// The pixel in column `x` of row `y` of a canvas that has one there.
    pub fn pixel(&self, x: usize, y: usize) -> (r: T)
        requires
            self.wf(),
            x < self.spec_width(),
            y < self.spec_height(),
        ensures
            r == self.spec_pixel(x as int, y as int),
    {
        self.pixels[y][x]
    }

    /// The canvas with every pixel changed by `change`, which is asked once
    /// for each pixel, row by row from the top and within a row from the
    /// left.
    pub fn map<U: Copy, F: Fn(T) -> U>(&self, change: F) -> (r: Canvas<U>)
        requires
            self.wf(),
            forall|x: int, y: int|
                0 <= x < self.spec_width() && 0 <= y < self.spec_height() ==> call_requires(
                    change,
                    (#[trigger] self.spec_pixel(x, y),),
                ),
        ensures
            r.wf(),
            r.spec_width() == self.spec_width(),
            r.spec_height() == self.spec_height(),
            forall|x: int, y: int|
                0 <= x < self.spec_width() && 0 <= y < self.spec_height() ==> call_ensures(
                    change,
                    (self.spec_pixel(x, y),),
                    #[trigger] r.spec_pixel(x, y),
                ),
    {
        let mut pixels: Vec<Vec<U>> = Vec::new();
        let mut y: usize = 0;
        while y < self.height
            invariant
                self.wf(),
                0 <= y <= self.height,
                pixels@.len() == y,
                forall|x: int, y: int|
                    0 <= x < self.spec_width() && 0 <= y < self.spec_height() ==> call_requires(
                        change,
                        (#[trigger] self.spec_pixel(x, y),),
                    ),
                forall|j: int| 0 <= j < y ==> (#[trigger] pixels@[j])@.len() == self.width,
                forall|i: int, j: int|
                    0 <= i < self.width && 0 <= j < y ==> call_ensures(
                        change,
                        (self.spec_pixel(i, j),),
                        #[trigger] pixels@[j]@[i],
                    ),
            decreases self.height - y,
        {
            let mut row: Vec<U> = Vec::new();
            let mut x: usize = 0;
            while x < self.width
                invariant
                    self.wf(),
                    y < self.height,
                    0 <= x <= self.width,
                    row@.len() == x,
                    forall|x: int, y: int|
                        0 <= x < self.spec_width() && 0 <= y < self.spec_height()
                            ==> call_requires(change, (#[trigger] self.spec_pixel(x, y),)),
                    forall|i: int|
                        0 <= i < x ==> call_ensures(
                            change,
                            (self.spec_pixel(i, y as int),),
                            #[trigger] row@[i],
                        ),
                decreases self.width - x,
            {
                assert(call_requires(change, (self.spec_pixel(x as int, y as int),)));
                let pixel = change(self.pixels[y][x]);
                row.push(pixel);
                x = x + 1;
            }
            pixels.push(row);
            y = y + 1;
        }
        Canvas { width: self.width, height: self.height, pixels }
    }

    /// Sets the pixel in column `x` of row `y`. A position outside the canvas
    /// is passed over: the canvas stays as it is.
    pub fn write_pixel(&mut self, x: usize, y: usize, color: T)
        requires
            old(self).wf(),
        ensures
            final(self).wf(),
            final(self).spec_width() == old(self).spec_width(),
            final(self).spec_height() == old(self).spec_height(),
            forall|i: int, j: int|
                0 <= i < old(self).spec_width() && 0 <= j < old(self).spec_height()
                    ==> final(self).spec_pixel(i, j) == if i == x && j == y {
                    color
                } else {
                    old(self).spec_pixel(i, j)
                },
    {
        if x < self.width && y < self.height {
            self.pixels[y][x] = color;
        }
    }
}

} // verus!
