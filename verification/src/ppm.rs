//! Writing an image as plain PPM text.

use vstd::prelude::*;
use vstd::string::StringExecFns;
use vstd::string::StrSliceExecFns;
use vstd::utf8::is_ascii_chars;
use crate::canvas::Canvas;
use crate::decimal::{decimal, decimal_string, lemma_decimal_ascii, lemma_decimal_of_byte};

verus! {

/// A pixel of three channels with eight bits each.
#[derive(Clone, Copy, Debug, PartialEq, Eq, Structural)]
pub struct Rgb {
    pub red: u8,
    pub green: u8,
    pub blue: u8,
}

/// The longest that a line may be before the next sample starts a new one.
pub const LINE_LIMIT: usize = 67;

/// What [`ppm_push`] makes of the lines written so far, the line being
/// written and the next sample: a line that has grown past the limit is
/// closed without the blank at its end, and the sample starts a new one;
/// else the sample goes onto the line. Either way a blank follows it.
pub open spec fn pushed(lines: Seq<Seq<char>>, line: Seq<char>, sample: Seq<char>) -> (
    Seq<Seq<char>>,
    Seq<char>,
) {
    if line.len() > LINE_LIMIT {
        (lines.push(line.drop_last()), sample.push(' '))
    } else {
        (lines, (line + sample).push(' '))
    }
}

/// Adds one sample to the pixel data of a PPM file.
///
/// `data` holds the lines that are closed, `line` the one being written,
/// which is plain ASCII as all of a PPM file is. See [`pushed`].
pub fn ppm_push(data: &mut Vec<String>, line: &mut String, col_str: String)
    requires
        is_ascii_chars(old(line)@),
    ensures
        (final(data).deep_view(), final(line)@) == pushed(
            old(data).deep_view(),
            old(line)@,
            col_str@,
        ),
        is_ascii_chars(col_str@) ==> is_ascii_chars(final(line)@),
{
    broadcast use vstd::utf8::is_ascii_chars_encode_utf8;

    let length: usize = line.as_str().as_bytes().len();
    proof {
        vstd::utf8::is_ascii_chars_encode_utf8(line@);
    }
    assert(length == line@.len());
    if length > LINE_LIMIT {
        let closed: String = String::from_str(line.as_str().substring_ascii(0, length - 1));
        assert(closed@ =~= old(line)@.drop_last());
        data.push(closed);
        assert(data.deep_view() =~= old(data).deep_view().push(old(line)@.drop_last()));
        *line = String::new();
        assert(line@ + col_str@ =~= col_str@);
    } else {
        assert(data.deep_view() =~= old(data).deep_view());
    }
    line.append(col_str.as_str());
    proof {
        reveal_strlit(" ");
        assert(" "@ =~= seq![' ']);
    }
    line.append(" ");
    assert(line@ =~= if old(line)@.len() > LINE_LIMIT {
        col_str@.push(' ')
    } else {
        (old(line)@ + col_str@).push(' ')
    });
}

/// The samples of a row of pixels in the order in which they are written:
/// red, green and blue of each pixel, from the left.
pub open spec fn samples(row: Seq<Rgb>) -> Seq<Seq<char>>
    decreases row.len(),
{
    if row.len() == 0 {
        Seq::empty()
    } else {
        samples(row.drop_last()).push(decimal(row.last().red as nat)).push(
            decimal(row.last().green as nat),
        ).push(decimal(row.last().blue as nat))
    }
}

/// The lines that are closed and the line being written once the `samples`
/// were added one after the other, starting from nothing.
pub open spec fn laid_out(samples: Seq<Seq<char>>) -> (Seq<Seq<char>>, Seq<char>)
    decreases samples.len(),
{
    if samples.len() == 0 {
        (Seq::empty(), Seq::empty())
    } else {
        let (lines, line) = laid_out(samples.drop_last());
        pushed(lines, line, samples.last())
    }
}

/// A line without the blank after its last sample.
pub open spec fn closed_line(line: Seq<char>) -> Seq<char> {
    if line.len() > 0 {
        line.drop_last()
    } else {
        line
    }
}

/// The lines that a run of samples takes: the lines that are closed on the
/// way, and the last one, closed at the end. Without samples it is one
/// empty line.
pub open spec fn lines_of(samples: Seq<Seq<char>>) -> Seq<Seq<char>> {
    let (lines, line) = laid_out(samples);
    lines.push(closed_line(line))
}

/// The lines that a row of pixels takes. A row without pixels takes one
/// empty line.
pub open spec fn row_lines(row: Seq<Rgb>) -> Seq<Seq<char>> {
    lines_of(samples(row))
}

/// Pieces of text in a row, each followed by a blank.
pub open spec fn spaced(pieces: Seq<Seq<char>>) -> Seq<char>
    decreases pieces.len(),
{
    if pieces.len() == 0 {
        Seq::empty()
    } else {
        (spaced(pieces.drop_last()) + pieces.last()).push(' ')
    }
}

/// The lines of the pixel data: those of each row, from the top. Every row
/// starts a new line.
pub open spec fn body_lines(rows: Seq<Seq<Rgb>>) -> Seq<Seq<char>>
    decreases rows.len(),
{
    if rows.len() == 0 {
        Seq::empty()
    } else {
        body_lines(rows.drop_last()) + row_lines(rows.last())
    }
}

/// Lines as running text: each line is followed by a line feed.
pub open spec fn text_of(lines: Seq<Seq<char>>) -> Seq<char>
    decreases lines.len(),
{
    if lines.len() == 0 {
        Seq::empty()
    } else {
        (text_of(lines.drop_last()) + lines.last()).push('\n')
    }
}

/// The header of a plain PPM file: the magic number, the size of the image
/// and the largest value of a sample, each on a line of its own. The last
/// line is left open.
pub open spec fn header(width: nat, height: nat) -> Seq<char> {
    seq!['P', '3', '\n'] + decimal(width) + seq![' '] + decimal(height) + seq![
        '\n',
        '2',
        '5',
        '5',
    ]
}

/// An image as a plain PPM file: the header, followed by the pixel data.
pub open spec fn ppm_text(width: nat, height: nat, rows: Seq<Seq<Rgb>>) -> Seq<char> {
    header(width, height).push('\n') + text_of(body_lines(rows))
}

/// Whether every sample has one to three characters, as the samples of
/// eight bits have.
pub open spec fn short_samples(samples: Seq<Seq<char>>) -> bool {
    forall|i: int| 0 <= i < samples.len() ==> 1 <= (#[trigger] samples[i]).len() <= 3
}

/// Whether no line is longer than 70 characters.
pub open spec fn within_line_length(lines: Seq<Seq<char>>) -> bool {
    forall|i: int| 0 <= i < lines.len() ==> (#[trigger] lines[i]).len() <= 70
}

/// Laying out short samples never closes a line of more than 70 characters,
/// and the line being written never grows beyond 71, the blank at its end
/// counted.
pub proof fn lemma_laid_out_line_length(samples: Seq<Seq<char>>)
    requires
        short_samples(samples),
    ensures
        within_line_length(laid_out(samples).0),
        laid_out(samples).1.len() <= 71,
    decreases samples.len(),
{
    if samples.len() > 0 {
        let rest = samples.drop_last();
        assert forall|i: int| 0 <= i < rest.len() implies 1 <= (#[trigger] rest[i]).len() <= 3 by {
            assert(rest[i] == samples[i]);
        }
        lemma_laid_out_line_length(rest);
        assert(1 <= samples[samples.len() - 1].len() <= 3);
    }
}

/// The samples of a row of pixels are short.
pub proof fn lemma_samples_short(row: Seq<Rgb>)
    ensures
        short_samples(samples(row)),
    decreases row.len(),
{
    if row.len() > 0 {
        lemma_samples_short(row.drop_last());
        lemma_decimal_of_byte(row.last().red as nat);
        lemma_decimal_of_byte(row.last().green as nat);
        lemma_decimal_of_byte(row.last().blue as nat);
    }
}

/// No line of the pixel data of an image is longer than 70 characters.
pub proof fn lemma_body_line_length(rows: Seq<Seq<Rgb>>)
    ensures
        within_line_length(body_lines(rows)),
    decreases rows.len(),
{
    if rows.len() > 0 {
        lemma_body_line_length(rows.drop_last());
        lemma_samples_short(rows.last());
        lemma_laid_out_line_length(samples(rows.last()));
    }
}

/// Laying samples out loses nothing and adds nothing: the closed lines and
/// the line being written, read one after the other with a blank for each
/// line break, are the samples, each followed by a blank. The line being
/// written ends with a blank, unless it is empty.
pub proof fn lemma_laid_out_keeps_samples(samples: Seq<Seq<char>>)
    ensures
        spaced(laid_out(samples).0) + laid_out(samples).1 == spaced(samples),
        laid_out(samples).1.len() > 0 ==> laid_out(samples).1.last() == ' ',
        samples.len() > 0 ==> laid_out(samples).1.len() > 0,
    decreases samples.len(),
{
    if samples.len() == 0 {
        assert(spaced(laid_out(samples).0) + laid_out(samples).1 =~= spaced(samples));
    } else {
        let rest = samples.drop_last();
        let sample = samples.last();
        lemma_laid_out_keeps_samples(rest);
        let (lines, line) = laid_out(rest);
        if line.len() > LINE_LIMIT {
            let closed = lines.push(line.drop_last());
            assert(closed.drop_last() =~= lines);
            assert(closed.last() == line.drop_last());
            assert(line.drop_last().push(' ') =~= line);
            assert(spaced(closed) =~= spaced(lines) + line);
            assert(spaced(closed) + sample.push(' ') =~= (spaced(rest) + sample).push(' '));
        } else {
            assert(spaced(lines) + (line + sample).push(' ') =~= (spaced(rest) + sample).push(' '));
        }
    }
}

/// The lines of a run of samples, read one after the other with a blank for
/// each line break and one at the end, are the samples, each followed by a
/// blank.
pub proof fn lemma_lines_keep_samples(samples: Seq<Seq<char>>)
    requires
        samples.len() > 0,
    ensures
        spaced(lines_of(samples)) == spaced(samples),
{
    lemma_laid_out_keeps_samples(samples);
    let (lines, line) = laid_out(samples);
    let all = lines.push(closed_line(line));
    assert(all.drop_last() =~= lines);
    assert(all.last() == line.drop_last());
    assert(line.drop_last().push(' ') =~= line);
    assert(spaced(all) =~= spaced(lines) + line);
}

/// A plain PPM file ends with a line feed, whatever the image.
pub proof fn lemma_ppm_ends_with_line_feed(width: nat, height: nat, rows: Seq<Seq<Rgb>>)
    ensures
        ppm_text(width, height, rows).len() > 0,
        ppm_text(width, height, rows).last() == '\n',
{
    let lines = body_lines(rows);
    if lines.len() == 0 {
        assert(text_of(lines) =~= Seq::<char>::empty());
        assert(ppm_text(width, height, rows) =~= header(width, height).push('\n'));
    }
}

/// Lines that were closed before stay as they are when a sample is added.
proof fn lemma_pushed_after(
    before: Seq<Seq<char>>,
    lines: Seq<Seq<char>>,
    line: Seq<char>,
    sample: Seq<char>,
)
    ensures
        pushed(before + lines, line, sample).0 == before + pushed(lines, line, sample).0,
        pushed(before + lines, line, sample).1 == pushed(lines, line, sample).1,
{
    assert((before + lines).push(line.drop_last()) =~= before + lines.push(line.drop_last()));
}

/// Writes the header of a plain PPM file.
pub fn ppm_header(width: usize, height: usize) -> (r: String)
    ensures
        r@ == header(width as nat, height as nat),
{
    proof {
        reveal_strlit("P3\n");
        reveal_strlit(" ");
        reveal_strlit("\n255");
    }
    let mut r = String::from_str("P3\n");
    assert(r@ =~= seq!['P', '3', '\n']);
    r.append(decimal_string(width).as_str());
    r.append(" ");
    r.append(decimal_string(height).as_str());
    r.append("\n255");
    assert(" "@ =~= seq![' ']);
    assert("\n255"@ =~= seq!['\n', '2', '5', '5']);
    r
}

/// Writes the three samples of the pixels of one row onto `lines`.
fn ppm_row(canvas: &Canvas<Rgb>, y: usize, lines: &mut Vec<String>)
    requires
        canvas.wf(),
        y < canvas.spec_height(),
    ensures
        final(lines).deep_view() == old(lines).deep_view() + row_lines(canvas.spec_row(y as int)),
{
    let width: usize = canvas.width();
    let ghost before = lines.deep_view();
    let ghost row = canvas.spec_row(y as int);
    let mut line = String::new();
    let mut x: usize = 0;
    proof {
        assert(row.subrange(0, 0) =~= Seq::<Rgb>::empty());
        assert(before + Seq::<Seq<char>>::empty() =~= before);
    }
    while x < width
        invariant
            canvas.wf(),
            width == canvas.spec_width(),
            y < canvas.spec_height(),
            row == canvas.spec_row(y as int),
            0 <= x <= width,
            is_ascii_chars(line@),
            lines.deep_view() == before + laid_out(samples(row.subrange(0, x as int))).0,
            line@ == laid_out(samples(row.subrange(0, x as int))).1,
        decreases width - x,
    {
        let pixel: Rgb = canvas.pixel(x, y);
        let ghost done = samples(row.subrange(0, x as int));
        let ghost red = decimal(pixel.red as nat);
        let ghost green = decimal(pixel.green as nat);
        let ghost blue = decimal(pixel.blue as nat);
        proof {
            let next = row.subrange(0, x + 1);
            assert(next.drop_last() =~= row.subrange(0, x as int));
            assert(next.last() == pixel);
            assert(samples(next) == done.push(red).push(green).push(blue));
            assert(done.push(red).drop_last() =~= done);
            assert(done.push(red).push(green).drop_last() =~= done.push(red));
            assert(done.push(red).push(green).push(blue).drop_last() =~= done.push(red).push(
                green,
            ));
            lemma_decimal_ascii(pixel.red as nat);
            lemma_decimal_ascii(pixel.green as nat);
            lemma_decimal_ascii(pixel.blue as nat);
            lemma_pushed_after(before, laid_out(done).0, laid_out(done).1, red);
            lemma_pushed_after(
                before,
                laid_out(done.push(red)).0,
                laid_out(done.push(red)).1,
                green,
            );
            lemma_pushed_after(
                before,
                laid_out(done.push(red).push(green)).0,
                laid_out(done.push(red).push(green)).1,
                blue,
            );
        }
        ppm_push(lines, &mut line, decimal_string(pixel.red as usize));
        ppm_push(lines, &mut line, decimal_string(pixel.green as usize));
        ppm_push(lines, &mut line, decimal_string(pixel.blue as usize));
        x = x + 1;
    }
    assert(row.subrange(0, width as int) =~= row);
    proof {
        vstd::utf8::is_ascii_chars_encode_utf8(line@);
    }
    let length: usize = line.as_str().as_bytes().len();
    let closed: String = if length > 0 {
        String::from_str(line.as_str().substring_ascii(0, length - 1))
    } else {
        line
    };
    assert(closed@ =~= closed_line(laid_out(samples(row)).1));
    let ghost open_lines = lines.deep_view();
    lines.push(closed);
    assert(lines.deep_view() =~= open_lines.push(closed@));
    assert(open_lines.push(closed@) =~= before + laid_out(samples(row)).0.push(closed@));
    assert(lines.deep_view() =~= before + row_lines(row));
}

/// Writes the pixel data of a plain PPM file.
pub fn ppm_body(canvas: &Canvas<Rgb>) -> (r: String)
    requires
        canvas.wf(),
    ensures
        r@ == text_of(body_lines(canvas.spec_rows())),
{
    let height: usize = canvas.height();
    let ghost rows = canvas.spec_rows();
    let mut lines: Vec<String> = Vec::new();
    let mut y: usize = 0;
    proof {
        assert(rows.subrange(0, 0) =~= Seq::<Seq<Rgb>>::empty());
        assert(lines.deep_view() =~= Seq::<Seq<char>>::empty());
    }
    while y < height
        invariant
            canvas.wf(),
            height == canvas.spec_height(),
            rows == canvas.spec_rows(),
            0 <= y <= height,
            lines.deep_view() == body_lines(rows.subrange(0, y as int)),
        decreases height - y,
    {
        proof {
            let next = rows.subrange(0, y + 1);
            assert(next.drop_last() =~= rows.subrange(0, y as int));
            assert(next.last() == canvas.spec_row(y as int));
        }
        ppm_row(canvas, y, &mut lines);
        y = y + 1;
    }
    assert(rows.subrange(0, height as int) =~= rows);
    let mut text = String::new();
    let n: usize = lines.len();
    let mut i: usize = 0;
    proof {
        assert(lines.deep_view().subrange(0, 0) =~= Seq::<Seq<char>>::empty());
        reveal_strlit("\n");
        assert("\n"@ =~= seq!['\n']);
    }
    while i < n
        invariant
            n == lines@.len(),
            0 <= i <= n,
            "\n"@ == seq!['\n'],
            text@ == text_of(lines.deep_view().subrange(0, i as int)),
        decreases n - i,
    {
        proof {
            let next = lines.deep_view().subrange(0, i + 1);
            assert(next.drop_last() =~= lines.deep_view().subrange(0, i as int));
            assert(next.last() == lines@[i as int]@);
        }
        text.append(lines[i].as_str());
        text.append("\n");
        assert(text@ =~= text_of(lines.deep_view().subrange(0, i + 1)));
        i = i + 1;
    }
    assert(lines.deep_view().subrange(0, n as int) =~= lines.deep_view());
    text
}

impl Canvas<Rgb> {
    /// Writes the image as a plain PPM file. No line of the pixel data is
    /// longer than 70 characters.
    pub fn to_ppm(&self) -> (r: String)
        requires
            self.wf(),
        ensures
            r@ == ppm_text(self.spec_width(), self.spec_height(), self.spec_rows()),
    {
        let mut text = ppm_header(self.width(), self.height());
        proof {
            reveal_strlit("\n");
            assert("\n"@ =~= seq!['\n']);
        }
        text.append("\n");
        text.append(ppm_body(self).as_str());
        assert(text@ =~= ppm_text(self.spec_width(), self.spec_height(), self.spec_rows()));
        text
    }
}

} // verus!
