//! Driving a render: one colour per pixel, worked out one after the other or
//! by a pool of workers whose results come back in any order.

use vstd::prelude::*;
use crate::canvas::Canvas;
use crate::scalar::{Scalar, ONE_BITS};

verus! {

/// Half the width and half the height of the canvas, which stands one unit
/// before the camera.
///
/// `aspect` is the width of the image divided by its height. An image at
/// least as wide as it is high has the halves `wide`, in which the view
/// spans the width; every other image has the halves `tall`, in which it
/// spans the height.
pub fn half_extent(aspect: Scalar, wide: (Scalar, Scalar), tall: (Scalar, Scalar)) -> (r: (
    Scalar,
    Scalar,
))
    ensures
        r == if (Scalar { bits: ONE_BITS }).le(aspect) {
            wide
        } else {
            tall
        },
{
    if Scalar::one().at_most(&aspect) {
        wide
    } else {
        tall
    }
}

/// Renders an image of `h_size` by `v_size` pixels: `shade` is asked once
/// for every pixel, row by row from the top and within a row from the left,
/// and what it returns for `(x, y)` becomes pixel `(x, y)`.
///
/// `background` is what the canvas holds before the first pixel is written;
/// nothing of it is left in the result.
pub fn render<C: Copy, F: Fn(usize, usize) -> C>(
    h_size: usize,
    v_size: usize,
    background: C,
    shade: F,
) -> (canvas: Canvas<C>)
    requires
        forall|x: usize, y: usize| x < h_size && y < v_size ==> call_requires(shade, (x, y)),
    ensures
        canvas.wf(),
        canvas.spec_width() == h_size,
        canvas.spec_height() == v_size,
        forall|x: usize, y: usize|
            x < h_size && y < v_size ==> call_ensures(
                shade,
                (x, y),
                #[trigger] canvas.spec_pixel(x as int, y as int),
            ),
{
    let mut canvas = Canvas::new(h_size, v_size, background);
    let mut y: usize = 0;
    while y < v_size
        invariant
            0 <= y <= v_size,
            canvas.wf(),
            canvas.spec_width() == h_size,
            canvas.spec_height() == v_size,
            forall|x: usize, y: usize| x < h_size && y < v_size ==> call_requires(shade, (x, y)),
            forall|i: usize, j: usize|
                i < h_size && j < y ==> call_ensures(
                    shade,
                    (i, j),
                    #[trigger] canvas.spec_pixel(i as int, j as int),
                ),
        decreases v_size - y,
    {
        let mut x: usize = 0;
        while x < h_size
            invariant
                0 <= x <= h_size,
                y < v_size,
                canvas.wf(),
                canvas.spec_width() == h_size,
                canvas.spec_height() == v_size,
                forall|x: usize, y: usize|
                    x < h_size && y < v_size ==> call_requires(shade, (x, y)),
                forall|i: usize, j: usize|
                    i < h_size && (j < y || (j == y && i < x)) ==> call_ensures(
                        shade,
                        (i, j),
                        #[trigger] canvas.spec_pixel(i as int, j as int),
                    ),
            decreases h_size - x,
        {
            let color = shade(x, y);
            canvas.write_pixel(x, y, color);
            x = x + 1;
        }
        y = y + 1;
    }
    canvas
}

/// Asks `num_cpus::get` for the number of processors that this process can
/// use. The answer depends on the machine; the contract claims of it what
/// the documentation of `num_cpus::get` promises, that it is at least one.
#[verifier::external_body]
fn available_cpus() -> (r: usize)
    ensures
        r >= 1,
{
    num_cpus::get()
}

/// The number of workers for a count of processors: one for each, and one
/// where none was counted, since a pool needs a worker.
pub fn workers_for(cpus: usize) -> (r: usize)
    ensures
        r == if cpus == 0 {
            1usize
        } else {
            cpus
        },
{
    if cpus == 0 {
        1
    } else {
        cpus
    }
}

/// The number of workers that a parallel render starts on this machine:
/// one for each processor that it can use.
pub fn workers() -> (r: usize)
    ensures
        r >= 1,
{
    workers_for(available_cpus())
}

/// The number of pixels of an image, which is the number of results that a
/// parallel render has to wait for; nothing when the number does not fit.
pub fn pixel_count(h_size: usize, v_size: usize) -> (r: Option<usize>)
    ensures
        r == if h_size * v_size <= usize::MAX {
            Some((h_size * v_size) as usize)
        } else {
            None
        },
{
    h_size.checked_mul(v_size)
}

/// The colour that pixel `(x, y)` has after the `results` were written onto
/// a canvas of `background`, one after the other: that of the last result
/// for this pixel, and the background where there is none.
pub open spec fn painted<C>(results: Seq<(usize, usize, C)>, x: int, y: int, background: C) -> C
    decreases results.len(),
{
    if results.len() == 0 {
        background
    } else if results.last().0 == x && results.last().1 == y {
        results.last().2
    } else {
        painted(results.drop_last(), x, y, background)
    }
}

/// Whether no two of the `results` are for the same pixel.
pub open spec fn disjoint_pixels<C>(results: Seq<(usize, usize, C)>) -> bool {
    forall|i: int, j: int|
        0 <= i < j < results.len() ==> !((#[trigger] results[i]).0 == (#[trigger] results[j]).0
            && results[i].1 == results[j].1)
}

/// Puts the results of the workers together: a canvas of `background` onto
/// which each result `(x, y, colour)` is written in the order of the list.
/// A result for a pixel outside the image is passed over.
pub fn assemble<C: Copy>(
    h_size: usize,
    v_size: usize,
    background: C,
    results: &Vec<(usize, usize, C)>,
) -> (canvas: Canvas<C>)
    ensures
        canvas.wf(),
        canvas.spec_width() == h_size,
        canvas.spec_height() == v_size,
        forall|x: int, y: int|
            0 <= x < h_size && 0 <= y < v_size ==> #[trigger] canvas.spec_pixel(x, y) == painted(
                results@,
                x,
                y,
                background,
            ),
{
    let mut canvas = Canvas::new(h_size, v_size, background);
    let n: usize = results.len();
    let mut k: usize = 0;
    while k < n
        invariant
            n == results@.len(),
            0 <= k <= n,
            canvas.wf(),
            canvas.spec_width() == h_size,
            canvas.spec_height() == v_size,
            forall|x: int, y: int|
                0 <= x < h_size && 0 <= y < v_size ==> #[trigger] canvas.spec_pixel(x, y)
                    == painted(results@.subrange(0, k as int), x, y, background),
        decreases n - k,
    {
        let (x, y, color) = results[k];
        proof {
            let next = results@.subrange(0, k + 1);
            assert(next.drop_last() == results@.subrange(0, k as int));
            assert(next.last() == results@[k as int]);
        }
        canvas.write_pixel(x, y, color);
        k = k + 1;
    }
    assert(results@.subrange(0, n as int) == results@);
    canvas
}

/// Where no two results are for the same pixel, each result decides its own
/// pixel, wherever in the list it stands.
pub proof fn lemma_painted_own_pixel<C>(results: Seq<(usize, usize, C)>, i: int, background: C)
    requires
        disjoint_pixels(results),
        0 <= i < results.len(),
    ensures
        painted(results, results[i].0 as int, results[i].1 as int, background) == results[i].2,
    decreases results.len(),
{
    let n = results.len() as int;
    if i < n - 1 {
        let rest = results.drop_last();
        assert(results[i].0 != results[n - 1].0 || results[i].1 != results[n - 1].1);
        assert(rest[i] == results[i]);
        assert forall|a: int, b: int| 0 <= a < b < rest.len() implies !((#[trigger] rest[a]).0 == (
        #[trigger] rest[b]).0 && rest[a].1 == rest[b].1) by {
            assert(rest[a] == results[a]);
            assert(rest[b] == results[b]);
        }
        lemma_painted_own_pixel(rest, i, background);
    }
}

/// A pixel for which there is no result keeps the background.
pub proof fn lemma_painted_untouched<C>(
    results: Seq<(usize, usize, C)>,
    x: int,
    y: int,
    background: C,
)
    requires
        forall|i: int|
            0 <= i < results.len() ==> !((#[trigger] results[i]).0 == x && results[i].1 == y),
    ensures
        painted(results, x, y, background) == background,
    decreases results.len(),
{
    if results.len() > 0 {
        let rest = results.drop_last();
        assert(results[results.len() - 1] == results.last());
        assert forall|i: int| 0 <= i < rest.len() implies !((#[trigger] rest[i]).0 == x && rest[i].1
            == y) by {
            assert(rest[i] == results[i]);
        }
        lemma_painted_untouched(rest, x, y, background);
    }
}

/// The order in which the workers finish does not show in the image: two
/// lists that hold the same results, each with no pixel twice, paint every
/// pixel alike.
pub proof fn lemma_painted_order_irrelevant<C>(
    a: Seq<(usize, usize, C)>,
    b: Seq<(usize, usize, C)>,
    x: int,
    y: int,
    background: C,
)
    requires
        a.to_multiset() == b.to_multiset(),
        disjoint_pixels(a),
        disjoint_pixels(b),
    ensures
        painted(a, x, y, background) == painted(b, x, y, background),
{
    a.to_multiset_ensures();
    b.to_multiset_ensures();
    if exists|i: int| 0 <= i < a.len() && (#[trigger] a[i]).0 == x && a[i].1 == y {
        let i = choose|i: int| 0 <= i < a.len() && (#[trigger] a[i]).0 == x && a[i].1 == y;
        assert(a.contains(a[i]));
        assert(b.to_multiset().count(a[i]) > 0);
        assert(b.contains(a[i]));
        let j = choose|j: int| 0 <= j < b.len() && b[j] == a[i];
        lemma_painted_own_pixel(a, i, background);
        lemma_painted_own_pixel(b, j, background);
    } else {
        assert forall|j: int| 0 <= j < b.len() implies !((#[trigger] b[j]).0 == x && b[j].1
            == y) by {
            if b[j].0 == x && b[j].1 == y {
                assert(b.contains(b[j]));
                assert(a.to_multiset().count(b[j]) > 0);
                assert(a.contains(b[j]));
                let i = choose|i: int| 0 <= i < a.len() && a[i] == b[j];
                assert(a[i].0 == x && a[i].1 == y);
            }
        }
        lemma_painted_untouched(a, x, y, background);
        lemma_painted_untouched(b, x, y, background);
    }
}

} // verus!
