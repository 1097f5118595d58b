//! Plain-text PPM ("P3") image encoding.
use vstd::prelude::*;

verus! {

/// ASCII code of the digit `0`.
pub const ZERO: u8 = 48;

/// ASCII space, between the numbers of one line.
pub const SPACE: u8 = 32;

/// ASCII line feed, at the end of every line.
pub const NEWLINE: u8 = 10;

/// The largest channel value, as written in the header.
pub const MAX_CHANNEL: u32 = 255;

/// One pixel: its red, green and blue bytes.
pub type Rgb = (u8, u8, u8);

/// The decimal digits of `n`, most significant first, without leading zeros.
pub open spec fn decimal(n: nat) -> Seq<u8>
    decreases n,
{
    if n < 10 {
        seq![(ZERO + n) as u8]
    } else {
        decimal(n / 10).push((ZERO + n % 10) as u8)
    }
}

/// The three header lines: `P3`, then `<width> <height>`, then `255`.
pub open spec fn header(width: nat, height: nat) -> Seq<u8> {
    seq![80u8, 51u8, NEWLINE] + decimal(width) + seq![SPACE] + decimal(height) + seq![NEWLINE]
        + decimal(MAX_CHANNEL as nat) + seq![NEWLINE]
}

/// The line of one pixel: `<r> <g> <b>`.
pub open spec fn pixel_line(p: Rgb) -> Seq<u8> {
    decimal(p.0 as nat) + seq![SPACE] + decimal(p.1 as nat) + seq![SPACE] + decimal(p.2 as nat)
        + seq![NEWLINE]
}

/// The lines of a sequence of pixels, one after the other.
pub open spec fn pixel_lines(ps: Seq<Rgb>) -> Seq<u8>
    decreases ps.len(),
{
    if ps.len() == 0 {
        Seq::empty()
    } else {
        pixel_lines(ps.drop_last()) + pixel_line(ps.last())
    }
}

/// A whole image: the header, then one line per pixel in row-major order.
pub open spec fn image(width: nat, height: nat, ps: Seq<Rgb>) -> Seq<u8> {
    header(width, height) + pixel_lines(ps)
}

/// How many line feeds `s` holds.
pub open spec fn line_count(s: Seq<u8>) -> nat
    decreases s.len(),
{
    if s.len() == 0 {
        0
    } else {
        line_count(s.drop_last()) + if s.last() == NEWLINE { 1nat } else { 0nat }
    }
}

/// The line feeds of two pieces add up.
pub proof fn lemma_line_count_add(a: Seq<u8>, b: Seq<u8>)
    ensures
        line_count(a + b) == line_count(a) + line_count(b),
    decreases b.len(),
{
    if b.len() == 0 {
        assert(a + b =~= a);
    } else {
        lemma_line_count_add(a, b.drop_last());
        assert((a + b).drop_last() =~= a + b.drop_last());
    }
}

/// A number's digits hold no line feed.
pub proof fn lemma_decimal_no_newline(n: nat)
    ensures
        line_count(decimal(n)) == 0,
    decreases n,
{
    if n < 10 {
        lemma_single((ZERO + n) as u8);
    } else {
        lemma_decimal_no_newline(n / 10);
        assert(decimal(n).drop_last() =~= decimal(n / 10));
    }
}

proof fn lemma_single(b: u8)
    ensures
        line_count(seq![b]) == if b == NEWLINE { 1nat } else { 0nat },
{
    assert(seq![b].drop_last() =~= Seq::<u8>::empty());
    assert(line_count(Seq::<u8>::empty()) == 0);
}

/// Each pixel takes exactly one line.
pub proof fn lemma_pixel_line_count(p: Rgb)
    ensures
        line_count(pixel_line(p)) == 1,
{
    let (r, g, b) = (decimal(p.0 as nat), decimal(p.1 as nat), decimal(p.2 as nat));
    lemma_decimal_no_newline(p.0 as nat);
    lemma_decimal_no_newline(p.1 as nat);
    lemma_decimal_no_newline(p.2 as nat);
    lemma_single(SPACE);
    lemma_single(NEWLINE);
    lemma_line_count_add(r, seq![SPACE]);
    lemma_line_count_add(r + seq![SPACE], g);
    lemma_line_count_add(r + seq![SPACE] + g, seq![SPACE]);
    lemma_line_count_add(r + seq![SPACE] + g + seq![SPACE], b);
    lemma_line_count_add(r + seq![SPACE] + g + seq![SPACE] + b, seq![NEWLINE]);
}

/// The lines of `n` pixels are `n` lines.
pub proof fn lemma_pixel_lines_count(ps: Seq<Rgb>)
    ensures
        line_count(pixel_lines(ps)) == ps.len(),
    decreases ps.len(),
{
    if ps.len() > 0 {
        lemma_pixel_lines_count(ps.drop_last());
        lemma_pixel_line_count(ps.last());
        lemma_line_count_add(pixel_lines(ps.drop_last()), pixel_line(ps.last()));
    }
}

/// The header takes exactly three lines.
pub proof fn lemma_header_line_count(width: nat, height: nat)
    ensures
        line_count(header(width, height)) == 3,
{
    let pre = seq![80u8, 51u8, NEWLINE];
    let (w, h, m) = (decimal(width), decimal(height), decimal(MAX_CHANNEL as nat));
    lemma_decimal_no_newline(width);
    lemma_decimal_no_newline(height);
    lemma_decimal_no_newline(MAX_CHANNEL as nat);
    lemma_single(SPACE);
    lemma_single(NEWLINE);
    assert(pre.drop_last() =~= seq![80u8, 51u8]);
    assert(seq![80u8, 51u8].drop_last() =~= seq![80u8]);
    lemma_single(80u8);
    assert(line_count(seq![80u8, 51u8]) == 0);
    assert(line_count(pre) == 1);
    lemma_line_count_add(pre, w);
    lemma_line_count_add(pre + w, seq![SPACE]);
    lemma_line_count_add(pre + w + seq![SPACE], h);
    lemma_line_count_add(pre + w + seq![SPACE] + h, seq![NEWLINE]);
    lemma_line_count_add(pre + w + seq![SPACE] + h + seq![NEWLINE], m);
    lemma_line_count_add(pre + w + seq![SPACE] + h + seq![NEWLINE] + m, seq![NEWLINE]);
}

/// An encoded image has three header lines and then one line per pixel, so
/// a `width` by `height` image has `3 + width * height` lines.
pub proof fn lemma_image_line_count(width: nat, height: nat, ps: Seq<Rgb>)
    requires
        ps.len() == width * height,
    ensures
        line_count(image(width, height, ps)) == 3 + width * height,
{
    lemma_header_line_count(width, height);
    lemma_pixel_lines_count(ps);
    lemma_line_count_add(header(width, height), pixel_lines(ps));
}

/// Appends the decimal digits of `n`.
pub fn push_decimal(out: &mut Vec<u8>, n: u32)
    ensures
        final(out)@ == old(out)@ + decimal(n as nat),
    decreases n,
{
    if n < 10 {
        out.push(ZERO + n as u8);
    } else {
        push_decimal(out, n / 10);
        out.push(ZERO + (n % 10) as u8);
    }
    assert(out@ =~= old(out)@ + decimal(n as nat));
}

/// Appends the three header lines of a `width` by `height` image.
pub fn write_header(out: &mut Vec<u8>, width: u32, height: u32)
    ensures
        final(out)@ == old(out)@ + header(width as nat, height as nat),
{
    out.push(80u8);
    out.push(51u8);
    out.push(NEWLINE);
    push_decimal(out, width);
    out.push(SPACE);
    push_decimal(out, height);
    out.push(NEWLINE);
    push_decimal(out, MAX_CHANNEL);
    out.push(NEWLINE);
    assert(out@ =~= old(out)@ + header(width as nat, height as nat));
}

/// Appends the line of one pixel.
pub fn write_color(out: &mut Vec<u8>, p: Rgb)
    ensures
        final(out)@ == old(out)@ + pixel_line(p),
{
    push_decimal(out, p.0 as u32);
    out.push(SPACE);
    push_decimal(out, p.1 as u32);
    out.push(SPACE);
    push_decimal(out, p.2 as u32);
    out.push(NEWLINE);
    assert(out@ =~= old(out)@ + pixel_line(p));
}

} // verus!
