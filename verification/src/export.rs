//! Writing an image as a PNG file.

use vstd::prelude::*;
use crate::canvas::Canvas;
use crate::ppm::Rgb;

verus! {

/// The error type of the `png` encoder. Nothing is read from it.
#[verifier::external_type_specification]
#[verifier::external_body]
pub struct ExEncodingError(png::EncodingError);

/// Why an image could not be written as PNG.
#[derive(Clone, Copy, Debug, PartialEq, Eq, Structural)]
pub enum ExportError {
    /// The image has no pixels: its width or its height is zero.
    Empty,
    /// The width or the height does not fit the 32 bits that the PNG header
    /// has for it.
    TooLarge,
    /// The encoder gave up.
    Encoder,
}

/// The bytes of the PNG file that the `png` encoder writes for an image of
/// `width` by `height` pixels with 8-bit RGB samples `data`, when it is left
/// at its defaults and succeeds.
pub uninterp spec fn png_rgb8(width: u32, height: u32, data: Seq<u8>) -> Seq<u8>;

/// Encodes 8-bit RGB samples with the `png` crate: `Encoder::new` on a
/// buffer in memory, `set_color` with `ColorType::Rgb`, `set_depth` with
/// `BitDepth::Eight`, `write_header`, `Writer::write_image_data` and
/// `Writer::finish`.
///
/// The contract claims that what is written on success depends on the size
/// and the samples alone, and gives that result its name. It does not claim
/// that the encoder succeeds. The size is not zero and `data` holds three
/// bytes for each pixel, row by row, as the encoder asks.
#[verifier::external_body]
fn encode_rgb8(width: u32, height: u32, data: &Vec<u8>) -> (r: Result<
    Vec<u8>,
    png::EncodingError,
>)
    requires
        width > 0,
        height > 0,
        data@.len() == 3 * width * height,
    ensures
        r matches Ok(bytes) ==> bytes@ == png_rgb8(width, height, data@),
{
    let mut out: Vec<u8> = Vec::new();
    let mut encoder = png::Encoder::new(&mut out, width, height);
    encoder.set_color(png::ColorType::Rgb);
    encoder.set_depth(png::BitDepth::Eight);
    let mut writer = encoder.write_header()?;
    writer.write_image_data(data)?;
    writer.finish()?;
    Ok(out)
}

/// The samples of a row of pixels: red, green and blue of each pixel, from
/// the left.
pub open spec fn row_bytes(row: Seq<Rgb>) -> Seq<u8>
    decreases row.len(),
{
    if row.len() == 0 {
        Seq::empty()
    } else {
        row_bytes(row.drop_last()).push(row.last().red).push(row.last().green).push(
            row.last().blue,
        )
    }
}

/// The samples of an image: those of each row, from the top.
pub open spec fn image_bytes(rows: Seq<Seq<Rgb>>) -> Seq<u8>
    decreases rows.len(),
{
    if rows.len() == 0 {
        Seq::empty()
    } else {
        image_bytes(rows.drop_last()) + row_bytes(rows.last())
    }
}

/// A row of pixels has three samples for each pixel.
pub proof fn lemma_row_bytes_len(row: Seq<Rgb>)
    ensures
        row_bytes(row).len() == 3 * row.len(),
    decreases row.len(),
{
    if row.len() > 0 {
        lemma_row_bytes_len(row.drop_last());
    }
}

/// An image whose rows are all `width` long has three samples for each of
/// its pixels.
pub proof fn lemma_image_bytes_len(rows: Seq<Seq<Rgb>>, width: nat)
    requires
        forall|y: int| 0 <= y < rows.len() ==> (#[trigger] rows[y]).len() == width,
    ensures
        image_bytes(rows).len() == 3 * width * rows.len(),
    decreases rows.len(),
{
    if rows.len() > 0 {
        let rest = rows.drop_last();
        assert forall|y: int| 0 <= y < rest.len() implies (#[trigger] rest[y]).len() == width by {
            assert(rest[y] == rows[y]);
        }
        lemma_image_bytes_len(rest, width);
        lemma_row_bytes_len(rows.last());
        assert(rows.last() == rows[rows.len() - 1]);
        assert(3 * width * rows.len() == 3 * width * rest.len() + 3 * width) by (nonlinear_arith)
            requires
                rows.len() == rest.len() + 1,
        ;
    }
}

/// Lays the samples of an image out in one run of bytes, as encoders of
/// 8-bit RGB images take them.
pub fn rgb_bytes(canvas: &Canvas<Rgb>) -> (r: Vec<u8>)
    requires
        canvas.wf(),
    ensures
        r@ == image_bytes(canvas.spec_rows()),
        r@.len() == 3 * canvas.spec_width() * canvas.spec_height(),
{
    let width: usize = canvas.width();
    let height: usize = canvas.height();
    let ghost rows = canvas.spec_rows();
    let mut data: Vec<u8> = Vec::new();
    let mut y: usize = 0;
    proof {
        assert(rows.subrange(0, 0) =~= Seq::<Seq<Rgb>>::empty());
    }
    while y < height
        invariant
            canvas.wf(),
            width == canvas.spec_width(),
            height == canvas.spec_height(),
            rows == canvas.spec_rows(),
            0 <= y <= height,
            data@ == image_bytes(rows.subrange(0, y as int)),
        decreases height - y,
    {
        let ghost row = canvas.spec_row(y as int);
        let ghost before = data@;
        let mut x: usize = 0;
        proof {
            let next = rows.subrange(0, y + 1);
            assert(next.drop_last() =~= rows.subrange(0, y as int));
            assert(next.last() == row);
            assert(row.subrange(0, 0) =~= Seq::<Rgb>::empty());
            assert(before + Seq::<u8>::empty() =~= before);
        }
        while x < width
            invariant
                canvas.wf(),
                width == canvas.spec_width(),
                y < canvas.spec_height(),
                row == canvas.spec_row(y as int),
                0 <= x <= width,
                data@ == before + row_bytes(row.subrange(0, x as int)),
            decreases width - x,
        {
            let pixel: Rgb = canvas.pixel(x, y);
            proof {
                let next = row.subrange(0, x + 1);
                assert(next.drop_last() =~= row.subrange(0, x as int));
                assert(next.last() == pixel);
            }
            data.push(pixel.red);
            data.push(pixel.green);
            data.push(pixel.blue);
            assert(data@ =~= before + row_bytes(row.subrange(0, x + 1)));
            x = x + 1;
        }
        assert(row.subrange(0, width as int) =~= row);
        y = y + 1;
    }
    assert(rows.subrange(0, height as int) =~= rows);
    proof {
        lemma_image_bytes_len(rows, width as nat);
    }
    data
}

/// What becomes of the encoder's answer: its bytes are handed on, and
/// whatever error it gave is reported as [`ExportError::Encoder`].
pub fn encoded(answer: Result<Vec<u8>, png::EncodingError>) -> (r: Result<Vec<u8>, ExportError>)
    ensures
        r == match answer {
            Ok(bytes) => Ok::<Vec<u8>, ExportError>(bytes),
            Err(_) => Err::<Vec<u8>, ExportError>(ExportError::Encoder),
        },
{
    match answer {
        Ok(bytes) => Ok(bytes),
        Err(_) => Err(ExportError::Encoder),
    }
}

impl Canvas<Rgb> {
    /// Writes the image as a PNG file with 8-bit RGB samples, in memory.
    ///
    /// An image without pixels and one too large for a PNG header are
    /// refused. Otherwise the encoder decides: its bytes are those that
    /// [`png_rgb8`] names for the size and the samples of the image, and
    /// its failure is reported as such.
    pub fn to_png(&self) -> (r: Result<Vec<u8>, ExportError>)
        requires
            self.wf(),
        ensures
            self.spec_width() == 0 || self.spec_height() == 0 ==> r == Err::<Vec<u8>, ExportError>(
                ExportError::Empty,
            ),
            self.spec_width() > 0 && self.spec_height() > 0 && (self.spec_width() > u32::MAX
                || self.spec_height() > u32::MAX) ==> r == Err::<Vec<u8>, ExportError>(
                ExportError::TooLarge,
            ),
            0 < self.spec_width() <= u32::MAX && 0 < self.spec_height() <= u32::MAX ==> match r {
                Ok(bytes) => bytes@ == png_rgb8(
                    self.spec_width() as u32,
                    self.spec_height() as u32,
                    image_bytes(self.spec_rows()),
                ),
                Err(e) => e == ExportError::Encoder,
            },
    {
        let width: usize = self.width();
        let height: usize = self.height();
        if width == 0 || height == 0 {
            return Err(ExportError::Empty);
        }
        if width > u32::MAX as usize || height > u32::MAX as usize {
            return Err(ExportError::TooLarge);
        }
        let data = rgb_bytes(self);
        encoded(encode_rgb8(width as u32, height as u32, &data))
    }
}

} // verus!
