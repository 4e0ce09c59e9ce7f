//! The icon: decoding, scaling, and the status dot on it.

use vstd::prelude::*;

use crate::app_state::ListeningState;
use crate::capture_worker::{part_end, part_start, parts_lie_in_a_row};

verus! {

/// Side of the tray icon.
pub const TRAY: u32 = 32;

/// Longest side of a picture that is decoded.
pub const MAX_SIDE: u32 = 4096;

/// Code of the colour type with red, green, blue and alpha in a PNG.
pub const RGBA: u8 = 6;

/// Bits of a channel that is decoded.
pub const CHANNEL_BITS: u8 = 8;

/// What the header of a PNG says: width, height, and the code of the colour type
/// and the bits per channel that its pixels are given out with. `None` where the
/// bytes are no PNG.
pub uninterp spec fn png_header(bytes: Seq<u8>) -> Option<(u32, u32, u8, u8)>;

/// The bytes of the first picture in a PNG; `None` where it is broken.
pub uninterp spec fn png_pixels(bytes: Seq<u8>) -> Option<Seq<u8>>;

/// `Decoder::read_info` of `png`, with the size, colour type and bit depth that
/// its reader tells, each as the number that PNG has for it: see
/// [`png_header`].
#[verifier::external_body]
fn read_header(bytes: &[u8]) -> (r: Option<(u32, u32, u8, u8)>)
    ensures
        r == png_header(bytes@),
{
    let reader = png::Decoder::new(std::io::Cursor::new(bytes)).read_info().ok()?;
    let (width, height) = reader.info().size();
    let (color, depth) = reader.output_color_type();
    Some((width, height, color as u8, depth as u8))
}

/// `Reader::next_frame` of `png` into a buffer of the size that the reader asks
/// for: see [`png_pixels`]. Only for pictures whose sides are bounded, so that
/// the buffer is.
#[verifier::external_body]
fn read_pixels(bytes: &[u8]) -> (r: Option<Vec<u8>>)
    requires
        png_header(bytes@) matches Some((w, h, _, _)) && w <= MAX_SIDE && h <= MAX_SIDE,
    ensures
        match png_pixels(bytes@) {
            Some(p) => r matches Some(v) && v@ == p,
            None => r is None,
        },
{
    let mut reader = png::Decoder::new(std::io::Cursor::new(bytes)).read_info().ok()?;
    let mut buf = vec![0u8; reader.output_buffer_size()?];
    let info = reader.next_frame(&mut buf).ok()?;
    buf.truncate(info.buffer_size());
    Some(buf)
}

/// A decoded picture: four bytes per pixel, row by row.
#[derive(Clone, Debug)]
pub struct Picture {
    pub rgba: Vec<u8>,
    pub width: u32,
    pub height: u32,
}

impl Picture {
    /// There are pixels, and as many bytes as they take.
    pub open spec fn wf(&self) -> bool {
        &&& self.width > 0
        &&& self.height > 0
        &&& self.rgba@.len() == 4 * self.width * self.height
    }
}

/// `r` is the picture for a header and pixels: red, green, blue and alpha of one
/// byte each, with sides that are positive and not too long, and complete.
pub open spec fn decoded(
    header: Option<(u32, u32, u8, u8)>,
    pixels: Option<Seq<u8>>,
    r: Option<Picture>,
) -> bool {
    match (header, pixels) {
        (Some((w, h, color, depth)), Some(p)) if color == RGBA && depth == CHANNEL_BITS && 0 < w
            <= MAX_SIDE && 0 < h <= MAX_SIDE && p.len() == 4 * w * h => r matches Some(pic)
            && pic.rgba@ == p && pic.width == w && pic.height == h && pic.wf(),
        _ => r is None,
    }
}

/// Decode a PNG of four channels.
pub fn decode_icon(bytes: &[u8]) -> (r: Option<Picture>)
    ensures
        decoded(png_header(bytes@), png_pixels(bytes@), r),
{
    let header = read_header(bytes);
    match header {
        Some((w, h, color, depth)) => {
            if color != RGBA || depth != CHANNEL_BITS || w > MAX_SIDE || h > MAX_SIDE {
                return None;
            }
            let pixels = read_pixels(bytes);
            assemble(header, pixels)
        },
        _ => None,
    }
}

/// The picture for a header and pixels: see [`decoded`].
pub fn assemble(header: Option<(u32, u32, u8, u8)>, pixels: Option<Vec<u8>>) -> (r: Option<Picture>)
    ensures
        decoded(
            header,
            match pixels {
                Some(v) => Some(v@),
                None => None,
            },
            r,
        ),
{
    match (header, pixels) {
        (Some((width, height, color, depth)), Some(rgba)) => {
            if color == RGBA && depth == CHANNEL_BITS && 0 < width && width <= MAX_SIDE && 0
                < height && height <= MAX_SIDE {
                proof {
                    assert(width * height <= MAX_SIDE * MAX_SIDE) by (nonlinear_arith)
                        requires
                            width <= MAX_SIDE,
                            height <= MAX_SIDE,
                    ;
                    assert(4 * width * height == 4 * (width * height)) by (nonlinear_arith);
                }
                if rgba.len() as u64 == 4 * (width as u64 * height as u64) {
                    return Some(Picture { rgba, width, height });
                }
            }
            None
        },
        _ => None,
    }
}

/// Where the stretch of source pixels for target pixel `d` of `n` starts.
pub open spec fn span_start(d: int, size: int, n: int) -> int {
    d * size / n
}

/// Where it ends: at least one pixel on, and inside the source.
pub open spec fn span_end(d: int, size: int, n: int) -> int {
    let next = (d + 1) * size / n;
    let wide = if next > span_start(d, size, n) {
        next
    } else {
        span_start(d, size, n) + 1
    };
    if wide < size {
        wide
    } else {
        size
    }
}

/// The sum of a channel over part of a row.
pub open spec fn row_sum(src: Seq<u8>, width: int, y: int, x0: int, x1: int, channel: int) -> nat
    decreases x1 - x0,
{
    if x1 <= x0 {
        0
    } else {
        row_sum(src, width, y, x0, x1 - 1, channel) + src[(y * width + x1 - 1) * 4 + channel] as nat
    }
}

/// The sum of a channel over a rectangle.
pub open spec fn box_sum(
    src: Seq<u8>,
    width: int,
    y0: int,
    y1: int,
    x0: int,
    x1: int,
    channel: int,
) -> nat
    decreases y1 - y0,
{
    if y1 <= y0 {
        0
    } else {
        box_sum(src, width, y0, y1 - 1, x0, x1, channel) + row_sum(
            src,
            width,
            y1 - 1,
            x0,
            x1,
            channel,
        )
    }
}

/// The average of a channel over the source pixels of one target pixel, rounded
/// down.
pub open spec fn box_average(
    src: Seq<u8>,
    sw: int,
    sh: int,
    dw: int,
    dh: int,
    dx: int,
    dy: int,
    channel: int,
) -> int {
    let x0 = span_start(dx, sw, dw);
    let x1 = span_end(dx, sw, dw);
    let y0 = span_start(dy, sh, dh);
    let y1 = span_end(dy, sh, dh);
    box_sum(src, sw, y0, y1, x0, x1, channel) as int / ((x1 - x0) * (y1 - y0))
}

/// Every target pixel has at least one source pixel, and none beyond the edge.
pub proof fn spans_lie_inside(d: int, size: int, n: int)
    requires
        0 <= d < n,
        size > 0,
    ensures
        0 <= span_start(d, size, n) < span_end(d, size, n) <= size,
{
    assert(0 <= d * size / n < size) by (nonlinear_arith)
        requires
            0 <= d < n,
            size > 0,
    ;
}

proof fn row_sum_bounds(src: Seq<u8>, width: int, y: int, x0: int, x1: int, channel: int)
    requires
        x0 <= x1,
    ensures
        row_sum(src, width, y, x0, x1, channel) <= 255 * (x1 - x0),
    decreases x1 - x0,
{
    if x0 < x1 {
        row_sum_bounds(src, width, y, x0, x1 - 1, channel);
    }
}

proof fn box_sum_bounds(
    src: Seq<u8>,
    width: int,
    y0: int,
    y1: int,
    x0: int,
    x1: int,
    channel: int,
)
    requires
        x0 <= x1,
        y0 <= y1,
    ensures
        box_sum(src, width, y0, y1, x0, x1, channel) <= 255 * ((x1 - x0) * (y1 - y0)),
    decreases y1 - y0,
{
    if y0 < y1 {
        box_sum_bounds(src, width, y0, y1 - 1, x0, x1, channel);
        row_sum_bounds(src, width, y1 - 1, x0, x1, channel);
        assert((x1 - x0) * (y1 - y0) == (x1 - x0) * (y1 - 1 - y0) + (x1 - x0)) by (nonlinear_arith);
    } else {
        assert((x1 - x0) * (y1 - y0) == 0) by (nonlinear_arith)
            requires
                y1 == y0,
        ;
    }
}

/// A picture of one colour keeps it when scaled.
pub proof fn plain_pictures_stay_plain(
    src: Seq<u8>,
    sw: int,
    sh: int,
    dw: int,
    dh: int,
    dx: int,
    dy: int,
    channel: int,
    value: u8,
)
    requires
        sw > 0,
        sh > 0,
        0 <= dx < dw,
        0 <= dy < dh,
        0 <= channel < 4,
        src.len() == 4 * (sw * sh),
        forall|p: int| 0 <= p < sw * sh ==> #[trigger] src[p * 4 + channel] == value,
    ensures
        box_average(src, sw, sh, dw, dh, dx, dy, channel) == value,
{
    let x0 = span_start(dx, sw, dw);
    let x1 = span_end(dx, sw, dw);
    let y0 = span_start(dy, sh, dh);
    let y1 = span_end(dy, sh, dh);
    spans_lie_inside(dx, sw, dw);
    spans_lie_inside(dy, sh, dh);
    plain_box_sum(src, sw, sh, y0, y1, x0, x1, channel, value);
    let n = (x1 - x0) * (y1 - y0);
    assert(n > 0) by (nonlinear_arith)
        requires
            n == (x1 - x0) * (y1 - y0),
            x0 < x1,
            y0 < y1,
    ;
    assert((value * n) / n == value) by (nonlinear_arith)
        requires
            n > 0,
    ;
}

proof fn plain_row_sum(
    src: Seq<u8>,
    sw: int,
    sh: int,
    y: int,
    x0: int,
    x1: int,
    channel: int,
    value: u8,
)
    requires
        0 <= y < sh,
        0 <= x0 <= x1 <= sw,
        forall|p: int| 0 <= p < sw * sh ==> #[trigger] src[p * 4 + channel] == value,
    ensures
        row_sum(src, sw, y, x0, x1, channel) == value * (x1 - x0),
    decreases x1 - x0,
{
    if x0 < x1 {
        plain_row_sum(src, sw, sh, y, x0, x1 - 1, channel, value);
        let p = y * sw + x1 - 1;
        assert(0 <= p < sw * sh) by (nonlinear_arith)
            requires
                p == y * sw + x1 - 1,
                0 <= y < sh,
                1 <= x1 <= sw,
        ;
        assert(src[p * 4 + channel] == value);
        assert(value * (x1 - x0) == value * (x1 - 1 - x0) + value) by (nonlinear_arith);
    } else {
        assert(value * (x1 - x0) == 0) by (nonlinear_arith)
            requires
                x1 == x0,
        ;
    }
}

proof fn plain_box_sum(
    src: Seq<u8>,
    sw: int,
    sh: int,
    y0: int,
    y1: int,
    x0: int,
    x1: int,
    channel: int,
    value: u8,
)
    requires
        0 <= y0 <= y1 <= sh,
        0 <= x0 <= x1 <= sw,
        forall|p: int| 0 <= p < sw * sh ==> #[trigger] src[p * 4 + channel] == value,
    ensures
        box_sum(src, sw, y0, y1, x0, x1, channel) == value * ((x1 - x0) * (y1 - y0)),
    decreases y1 - y0,
{
    if y0 < y1 {
        plain_box_sum(src, sw, sh, y0, y1 - 1, x0, x1, channel, value);
        plain_row_sum(src, sw, sh, y1 - 1, x0, x1, channel, value);
        assert(value * ((x1 - x0) * (y1 - y0)) == value * ((x1 - x0) * (y1 - 1 - y0)) + value * (x1
            - x0)) by (nonlinear_arith);
    } else {
        assert(value * ((x1 - x0) * (y1 - y0)) == 0) by (nonlinear_arith)
            requires
                y1 == y0,
        ;
    }
}

proof fn pixel_is_inside(x: int, y: int, w: int, h: int)
    requires
        0 <= x < w,
        0 <= y < h,
    ensures
        0 <= y * w + x < w * h,
        y * w <= (h - 1) * w,
{
    assert(y * w <= (h - 1) * w) by (nonlinear_arith)
        requires
            0 <= y < h,
            0 <= w,
    ;
    assert((h - 1) * w == w * h - w) by (nonlinear_arith);
    assert(0 <= y * w) by (nonlinear_arith)
        requires
            0 <= y,
            0 <= w,
    ;
}

/// The average of one channel over a rectangle.
fn average(src: &[u8], sw: u32, sh: u32, xs: (u32, u32), ys: (u32, u32), channel: usize) -> (r: u8)
    requires
        src@.len() == 4 * (sw * sh),
        xs.0 < xs.1 <= sw,
        ys.0 < ys.1 <= sh,
        channel < 4,
    ensures
        r == box_sum(
            src@,
            sw as int,
            ys.0 as int,
            ys.1 as int,
            xs.0 as int,
            xs.1 as int,
            channel as int,
        ) as int / ((xs.1 - xs.0) * (ys.1 - ys.0)),
{
    let (x0, x1) = xs;
    let (y0, y1) = ys;
    let width: usize = sw as usize;
    let total: usize = src.len();
    let mut sum: u128 = 0;
    let mut y: u32 = y0;
    while y < y1
        invariant
            y0 <= y <= y1 <= sh,
            x0 < x1 <= sw,
            channel < 4,
            width == sw,
            total == src@.len(),
            src@.len() == 4 * (sw * sh),
            sum == box_sum(
                src@,
                sw as int,
                y0 as int,
                y as int,
                x0 as int,
                x1 as int,
                channel as int,
            ),
            sum <= 255 * ((x1 - x0) * (y - y0)),
        decreases y1 - y,
    {
        let mut x: u32 = x0;
        let ghost before = sum;
        proof {
            assert((x1 - x0) * (y - y0) <= 0x1_0000_0000 * 0x1_0000_0000) by (nonlinear_arith)
                requires
                    0 <= x1 - x0 <= 0x1_0000_0000,
                    0 <= y - y0 <= 0x1_0000_0000,
            ;
        }
        while x < x1
            invariant
                y0 <= y < y1 <= sh,
                x0 <= x <= x1 <= sw,
                channel < 4,
                width == sw,
                total == src@.len(),
                src@.len() == 4 * (sw * sh),
                before <= 255 * (0x1_0000_0000 * 0x1_0000_0000),
                sum == before + row_sum(
                    src@,
                    sw as int,
                    y as int,
                    x0 as int,
                    x as int,
                    channel as int,
                ),
                row_sum(src@, sw as int, y as int, x0 as int, x as int, channel as int) <= 255 * (x
                    - x0),
            decreases x1 - x,
        {
            proof {
                pixel_is_inside(x as int, y as int, sw as int, sh as int);
            }
            let at: usize = (y as usize * width + x as usize) * 4 + channel;
            sum += src[at] as u128;
            x += 1;
        }
        proof {
            box_sum_bounds(
                src@,
                sw as int,
                y0 as int,
                y + 1,
                x0 as int,
                x1 as int,
                channel as int,
            );
        }
        y += 1;
    }
    proof {
        assert((x1 - x0) * (y1 - y0) <= 0x1_0000_0000 * 0x1_0000_0000) by (nonlinear_arith)
            requires
                0 <= x1 - x0 <= 0x1_0000_0000,
                0 <= y1 - y0 <= 0x1_0000_0000,
        ;
        assert((x1 - x0) * (y1 - y0) >= 1) by (nonlinear_arith)
            requires
                x1 > x0,
                y1 > y0,
        ;
    }
    let n: u128 = (x1 - x0) as u128 * (y1 - y0) as u128;
    let mean: u128 = sum / n;
    proof {
        assert(mean <= 255) by (nonlinear_arith)
            requires
                mean == sum / n,
                sum <= 255 * n,
                n >= 1,
        ;
    }
    mean as u8
}

fn span(d: u32, size: u32, n: u32) -> (r: (u32, u32))
    requires
        d < n,
        size > 0,
    ensures
        r.0 == span_start(d as int, size as int, n as int),
        r.1 == span_end(d as int, size as int, n as int),
{
    proof {
        spans_lie_inside(d as int, size as int, n as int);
        assert((d + 1) * size <= 0x1_0000_0000 * 0x1_0000_0000 - 0x1_0000_0000) by (
            nonlinear_arith)
            requires
                d + 1 <= 0xffff_ffff,
                size <= 0xffff_ffff,
                d >= 0,
                size >= 0,
        ;
        assert(d * size <= (d + 1) * size) by (nonlinear_arith)
            requires
                d >= 0,
                size >= 0,
        ;
        assert((d + 1) * size / (n as int) >= 0) by (nonlinear_arith)
            requires
                d >= 0,
                size >= 0,
                n > 0,
        ;
    }
    let start: u64 = d as u64 * size as u64 / n as u64;
    let next: u64 = (d as u64 + 1) * size as u64 / n as u64;
    let wide: u64 = if next > start {
        next
    } else {
        start + 1
    };
    let end: u64 = if wide < size as u64 {
        wide
    } else {
        size as u64
    };
    (start as u32, end as u32)
}

/// Scale a picture by averaging: every target pixel is the average of the source
/// pixels under it.
pub fn downscale_rgba(src: &[u8], sw: u32, sh: u32, dw: u32, dh: u32) -> (out: Vec<u8>)
    requires
        sw > 0,
        sh > 0,
        src@.len() == 4 * (sw * sh),
        4 * (dw * dh) <= u32::MAX,
    ensures
        out@.len() == 4 * (dw * dh),
        forall|dx: int, dy: int, c: int|
            0 <= dx < dw && 0 <= dy < dh && 0 <= c < 4 ==> #[trigger] out@[index(
                dx,
                dy,
                dw as int,
                c,
            )] == box_average(src@, sw as int, sh as int, dw as int, dh as int, dx, dy, c),
{
    let mut out: Vec<u8> = Vec::new();
    let mut dy: u32 = 0;
    proof {
        assert(0 * dw == 0) by (nonlinear_arith);
    }
    while dy < dh
        invariant
            dy <= dh,
            sw > 0,
            sh > 0,
            src@.len() == 4 * (sw * sh),
            4 * (dw * dh) <= u32::MAX,
            out@.len() == 4 * (dy * dw),
            scaled(src@, sw as int, sh as int, dw as int, dh as int, out@),
        decreases dh - dy,
    {
        let ys: (u32, u32) = span(dy, sh, dh);
        let mut dx: u32 = 0;
        while dx < dw
            invariant
                dx <= dw,
                dy < dh,
                sw > 0,
                sh > 0,
                src@.len() == 4 * (sw * sh),
                4 * (dw * dh) <= u32::MAX,
                ys.0 == span_start(dy as int, sh as int, dh as int),
                ys.1 == span_end(dy as int, sh as int, dh as int),
                out@.len() == 4 * (dy * dw + dx),
                scaled(src@, sw as int, sh as int, dw as int, dh as int, out@),
            decreases dw - dx,
        {
            let xs: (u32, u32) = span(dx, sw, dw);
            proof {
                spans_lie_inside(dx as int, sw as int, dw as int);
                spans_lie_inside(dy as int, sh as int, dh as int);
            }
            let mut c: usize = 0;
            while c < 4
                invariant
                    c <= 4,
                    dx < dw,
                    dy < dh,
                    src@.len() == 4 * (sw * sh),
                    xs.0 == span_start(dx as int, sw as int, dw as int),
                    xs.1 == span_end(dx as int, sw as int, dw as int),
                    ys.0 == span_start(dy as int, sh as int, dh as int),
                    ys.1 == span_end(dy as int, sh as int, dh as int),
                    xs.0 < xs.1 <= sw,
                    ys.0 < ys.1 <= sh,
                    out@.len() == 4 * (dy * dw + dx) + c,
                    scaled(src@, sw as int, sh as int, dw as int, dh as int, out@),
                decreases 4 - c,
            {
                let ghost before = out@;
                out.push(average(src, sw, sh, xs, ys, c));
                proof {
                    assert(out@.drop_last() =~= before);
                    scaled_grows(
                        src@,
                        sw as int,
                        sh as int,
                        dw as int,
                        dh as int,
                        before,
                        out@,
                        dx as int,
                        dy as int,
                        c as int,
                    );
                }
                c += 1;
            }
            dx += 1;
        }
        dy += 1;
        proof {
            assert(dy * dw == (dy - 1) * dw + dw) by (nonlinear_arith);
        }
    }
    proof {
        assert(dw * dh == dh * dw) by (nonlinear_arith);
        assert forall|dx: int, dy: int, c: int|
            0 <= dx < dw && 0 <= dy < dh && 0 <= c < 4 implies #[trigger] out@[index(
            dx,
            dy,
            dw as int,
            c,
        )] == box_average(src@, sw as int, sh as int, dw as int, dh as int, dx, dy, c) by {
            pixel_is_inside(dx, dy, dw as int, dh as int);
        }
    }
    out
}

/// Place of a channel of a pixel among the bytes.
pub open spec fn index(x: int, y: int, width: int, channel: int) -> int {
    4 * (y * width + x) + channel
}

/// Every byte that is there is the average that belongs in its place.
spec fn scaled(src: Seq<u8>, sw: int, sh: int, dw: int, dh: int, out: Seq<u8>) -> bool {
    forall|dx: int, dy: int, c: int|
        0 <= dx < dw && 0 <= dy < dh && 0 <= c < 4 && index(dx, dy, dw, c) < out.len()
            ==> #[trigger] out[index(dx, dy, dw, c)] == box_average(
            src,
            sw,
            sh,
            dw,
            dh,
            dx,
            dy,
            c,
        )
}

proof fn index_is_unique(dx: int, dy: int, c: int, ex: int, ey: int, d: int, dw: int)
    requires
        0 <= dx < dw,
        0 <= ex < dw,
        0 <= c < 4,
        0 <= d < 4,
        index(dx, dy, dw, c) == index(ex, ey, dw, d),
    ensures
        dx == ex,
        dy == ey,
        c == d,
{
    let p = dy * dw + dx;
    let q = ey * dw + ex;
    assert(p == q && c == d);
    assert(dy == ey) by (nonlinear_arith)
        requires
            dy * dw + dx == ey * dw + ex,
            0 <= dx < dw,
            0 <= ex < dw,
    ;
}

proof fn scaled_grows(
    src: Seq<u8>,
    sw: int,
    sh: int,
    dw: int,
    dh: int,
    before: Seq<u8>,
    after: Seq<u8>,
    x: int,
    y: int,
    channel: int,
)
    requires
        scaled(src, sw, sh, dw, dh, before),
        0 <= x < dw,
        0 <= y < dh,
        0 <= channel < 4,
        before.len() == index(x, y, dw, channel),
        after.len() == before.len() + 1,
        after.drop_last() == before,
        after.last() == box_average(src, sw, sh, dw, dh, x, y, channel),
    ensures
        scaled(src, sw, sh, dw, dh, after),
{
    assert forall|dx: int, dy: int, c: int|
        0 <= dx < dw && 0 <= dy < dh && 0 <= c < 4 && index(dx, dy, dw, c)
            < after.len() implies #[trigger] after[index(dx, dy, dw, c)] == box_average(
        src,
        sw,
        sh,
        dw,
        dh,
        dx,
        dy,
        c,
    ) by {
        let i = index(dx, dy, dw, c);
        if i == before.len() {
            index_is_unique(dx, dy, c, x, y, channel, dw);
        } else {
            pixel_is_inside(dx, dy, dw, dh);
            assert(after[i] == before[i]);
        }
    }
}

/// What the status dot puts on a pixel: its colour inside the disc, a dark
/// outline around it, and nothing elsewhere. The disc has a radius of seven
/// pixels and sits one pixel off the lower right corner.
pub open spec fn dot_color(x: int, y: int, size: int, color: (u8, u8, u8)) -> Option<
    (u8, u8, u8),
> {
    let dx = x - (size - 8);
    let dy = y - (size - 8);
    let d = dx * dx + dy * dy;
    if d <= 49 {
        Some(color)
    } else if d <= 68 {
        Some((20u8, 24u8, 28u8))
    } else {
        None
    }
}

/// A channel of an opaque colour.
pub open spec fn channel_of(color: (u8, u8, u8), c: int) -> u8 {
    if c == 0 {
        color.0
    } else if c == 1 {
        color.1
    } else if c == 2 {
        color.2
    } else {
        255
    }
}

/// A byte of the picture with the dot on it.
pub open spec fn dotted(before: Seq<u8>, x: int, y: int, size: int, c: int, color: (u8, u8, u8)) -> u8 {
    match dot_color(x, y, size, color) {
        Some(paint) => channel_of(paint, c),
        None => before[index(x, y, size, c)],
    }
}

fn dot_paint(x: u32, y: u32, size: u32, color: (u8, u8, u8)) -> (r: Option<(u8, u8, u8)>)
    requires
        x < size <= 0x7fff,
        y < size,
    ensures
        r == dot_color(x as int, y as int, size as int, color),
{
    let dx: i64 = x as i64 - (size as i64 - 8);
    let dy: i64 = y as i64 - (size as i64 - 8);
    proof {
        assert(dx * dx <= 0x1_0000 * 0x1_0000 && dy * dy <= 0x1_0000 * 0x1_0000 && dx * dx >= 0
            && dy * dy >= 0) by (nonlinear_arith)
            requires
                -0x1_0000 <= dx <= 0x1_0000,
                -0x1_0000 <= dy <= 0x1_0000,
        ;
    }
    let d: i64 = dx * dx + dy * dy;
    if d <= 49 {
        Some(color)
    } else if d <= 68 {
        Some((20, 24, 28))
    } else {
        None
    }
}

/// Put the status dot on a square picture.
pub fn stamp_status_dot(rgba: &mut Vec<u8>, size: u32, r: u8, g: u8, b: u8)
    requires
        size <= 0x7fff,
        old(rgba)@.len() == 4 * (size * size),
    ensures
        final(rgba)@.len() == old(rgba)@.len(),
        forall|x: int, y: int, c: int|
            0 <= x < size && 0 <= y < size && 0 <= c < 4 ==> #[trigger] final(rgba)@[index(
                x,
                y,
                size as int,
                c,
            )] == dotted(old(rgba)@, x, y, size as int, c, (r, g, b)),
{
    let ghost before = rgba@;
    let side: usize = size as usize;
    let total: usize = rgba.len();
    let mut y: u32 = 0;
    while y < size
        invariant
            y <= size <= 0x7fff,
            side == size,
            total == before.len(),
            rgba@.len() == before.len(),
            before.len() == 4 * (size * size),
            stamped(before, rgba@, size as int, (r, g, b), y as int, 0),
        decreases size - y,
    {
        let mut x: u32 = 0;
        while x < size
            invariant
                y < size <= 0x7fff,
                x <= size,
                side == size,
                total == before.len(),
                rgba@.len() == before.len(),
                before.len() == 4 * (size * size),
                stamped(before, rgba@, size as int, (r, g, b), y as int, x as int),
            decreases size - x,
        {
            proof {
                pixel_is_inside(x as int, y as int, size as int, size as int);
            }
            let at: usize = (y as usize * side + x as usize) * 4;
            let ghost now = rgba@;
            match dot_paint(x, y, size, (r, g, b)) {
                Some((pr, pg, pb)) => {
                    rgba[at] = pr;
                    rgba[at + 1] = pg;
                    rgba[at + 2] = pb;
                    rgba[at + 3] = 255;
                },
                None => {},
            }
            proof {
                stamped_grows(
                    before,
                    now,
                    rgba@,
                    size as int,
                    (r, g, b),
                    y as int,
                    x as int,
                );
            }
            x += 1;
        }
        y += 1;
        proof {
            assert(stamped(before, rgba@, size as int, (r, g, b), y as int, 0)) by {
                assert forall|px: int, py: int, c: int|
                    0 <= px < size && 0 <= py < size && 0 <= c
                        < 4 implies #[trigger] rgba@[index(px, py, size as int, c)] == (if py < y
                    || (py == y && px < 0) {
                    dotted(before, px, py, size as int, c, (r, g, b))
                } else {
                    before[index(px, py, size as int, c)]
                }) by {}
            }
        }
    }
}

/// The pixels up to row `y`, column `x` carry the dot, the others are as before.
spec fn stamped(
    before: Seq<u8>,
    now: Seq<u8>,
    size: int,
    color: (u8, u8, u8),
    y: int,
    x: int,
) -> bool {
    forall|px: int, py: int, c: int|
        0 <= px < size && 0 <= py < size && 0 <= c < 4 ==> #[trigger] now[index(px, py, size, c)]
            == (if py < y || (py == y && px < x) {
            dotted(before, px, py, size, c, color)
        } else {
            before[index(px, py, size, c)]
        })
}

proof fn stamped_grows(
    before: Seq<u8>,
    now: Seq<u8>,
    next: Seq<u8>,
    size: int,
    color: (u8, u8, u8),
    y: int,
    x: int,
)
    requires
        0 <= x < size,
        0 <= y < size,
        now.len() == before.len(),
        before.len() == 4 * (size * size),
        stamped(before, now, size, color, y, x),
        match dot_color(x, y, size, color) {
            Some(paint) => next == now.update(index(x, y, size, 0), paint.0).update(
                index(x, y, size, 0) + 1,
                paint.1,
            ).update(index(x, y, size, 0) + 2, paint.2).update(index(x, y, size, 0) + 3, 255),
            None => next == now,
        },
    ensures
        stamped(before, next, size, color, y, x + 1),
{
    pixel_is_inside(x, y, size, size);
    assert forall|px: int, py: int, c: int|
        0 <= px < size && 0 <= py < size && 0 <= c < 4 implies #[trigger] next[index(
        px,
        py,
        size,
        c,
    )] == (if py < y || (py == y && px < x + 1) {
        dotted(before, px, py, size, c, color)
    } else {
        before[index(px, py, size, c)]
    }) by {
        pixel_is_inside(px, py, size, size);
        let i = index(px, py, size, c);
        assert(now[i] == (if py < y || (py == y && px < x) {
            dotted(before, px, py, size, c, color)
        } else {
            before[i]
        }));
        if px == x && py == y {
        } else {
            let k = i - index(x, y, size, 0);
            if 0 <= k < 4 {
                index_is_unique(px, py, c, x, y, k, size);
            }
        }
    }
}

/// The colour of the status dot.
pub open spec fn status_color(state: ListeningState) -> (u8, u8, u8) {
    match state {
        ListeningState::Listening => (0x35, 0xc4, 0x6b),
        ListeningState::Paused => (0x9a, 0xa6, 0xb2),
        ListeningState::Error => (0xf0, 0x6a, 0x6a),
    }
}

/// The picture at the size of the tray.
pub fn tray_base(picture: &Picture) -> (out: Vec<u8>)
    requires
        picture.wf(),
    ensures
        out@.len() == 4 * (TRAY * TRAY),
        forall|dx: int, dy: int, c: int|
            0 <= dx < TRAY && 0 <= dy < TRAY && 0 <= c < 4 ==> #[trigger] out@[index(
                dx,
                dy,
                TRAY as int,
                c,
            )] == box_average(
                picture.rgba@,
                picture.width as int,
                picture.height as int,
                TRAY as int,
                TRAY as int,
                dx,
                dy,
                c,
            ),
{
    proof {
        let w = picture.width as int;
        let h = picture.height as int;
        assert(4 * w * h == 4 * (w * h)) by (nonlinear_arith);
    }
    downscale_rgba(&picture.rgba, picture.width, picture.height, TRAY, TRAY)
}

/// The tray icon for a state: the small picture with the state's dot on it.
pub fn tray_rgba(state: ListeningState, base: &Vec<u8>) -> (r: (Vec<u8>, u32, u32))
    requires
        base@.len() == 4 * (TRAY * TRAY),
    ensures
        r.1 == TRAY,
        r.2 == TRAY,
        r.0@.len() == 4 * (TRAY * TRAY),
        forall|x: int, y: int, c: int|
            0 <= x < TRAY && 0 <= y < TRAY && 0 <= c < 4 ==> #[trigger] r.0@[index(
                x,
                y,
                TRAY as int,
                c,
            )] == dotted(base@, x, y, TRAY as int, c, status_color(state)),
{
    let mut rgba: Vec<u8> = Vec::new();
    let mut i: usize = 0;
    while i < base.len()
        invariant
            i <= base@.len(),
            rgba@ == base@.take(i as int),
        decreases base@.len() - i,
    {
        rgba.push(base[i]);
        i += 1;
        proof {
            assert(rgba@ =~= base@.take(i as int));
        }
    }
    proof {
        assert(base@.take(i as int) =~= base@);
    }
    let (r, g, b): (u8, u8, u8) = match state {
        ListeningState::Listening => (0x35, 0xc4, 0x6b),
        ListeningState::Paused => (0x9a, 0xa6, 0xb2),
        ListeningState::Error => (0xf0, 0x6a, 0x6a),
    };
    stamp_status_dot(&mut rgba, TRAY, r, g, b);
    (rgba, TRAY, TRAY)
}

/// The centre of the dot shows the state: no two states look alike there.
pub proof fn dots_tell_states_apart(base: Seq<u8>, a: ListeningState, b: ListeningState)
    ensures
        dot_color(24, 24, 32, status_color(a)) == Some(status_color(a)),
        a != b ==> dotted(base, 24, 24, 32, 0, status_color(a)) != dotted(
            base,
            24,
            24,
            32,
            0,
            status_color(b),
        ),
{
    assert((24 - (32 - 8)) * (24 - (32 - 8)) == 0) by (nonlinear_arith);
}

/// A picture is taken exactly where it has red, green, blue and alpha of eight bits
/// each, sides from one to 4096 pixels, and four bytes for each pixel. It is then
/// those bytes, unchanged.
pub proof fn complete_pictures_are_taken(
    header: Option<(u32, u32, u8, u8)>,
    pixels: Option<Vec<u8>>,
    r: Option<Picture>,
)
    requires
        call_ensures(assemble, (header, pixels), r),
    ensures
        r is Some <==> (header matches Some((w, h, color, depth)) && pixels matches Some(p) && color
            == 6 && depth == 8 && 1 <= w <= 4096 && 1 <= h <= 4096 && p@.len() == 4 * w * h),
        r matches Some(pic) ==> (header matches Some((w, h, color, depth)) && pixels matches Some(p)
            && pic.width == w && pic.height == h && pic.rgba@ == p@),
{
}

/// The stretches of the source under the pixels of a row lie one after the other
/// and cover it: the first starts at its start, the last ends at its end, and each
/// starts where the one before ends, where the source is at least as long.
pub proof fn spans_lie_in_a_row(d: int, size: int, n: int)
    requires
        0 <= d < n,
        size > 0,
    ensures
        span_start(0, size, n) == 0,
        span_end(n - 1, size, n) == size,
        size >= n ==> span_end(d, size, n) == span_start(d + 1, size, n),
        size >= n ==> n * (span_end(d, size, n) - span_start(d, size, n)) < size + n,
        size < n ==> span_end(d, size, n) == span_start(d, size, n) + 1,
{
    parts_lie_in_a_row(d, size, n);
    parts_lie_in_a_row(n - 1, size, n);
    assert(span_start(0, size, n) == part_start(0, size, n));
    assert(span_start(d, size, n) == part_start(d, size, n));
    assert(span_start(d + 1, size, n) == part_start(d + 1, size, n));
    assert(span_end(d, size, n) == part_end(d, size, n));
    assert(span_end(n - 1, size, n) == part_end(n - 1, size, n));
}

proof fn row_sums_add_up(
    src: Seq<u8>,
    width: int,
    y: int,
    x0: int,
    x1: int,
    x2: int,
    channel: int,
)
    requires
        x0 <= x1 <= x2,
    ensures
        row_sum(src, width, y, x0, x2, channel) == row_sum(src, width, y, x0, x1, channel)
            + row_sum(src, width, y, x1, x2, channel),
    decreases x2 - x1,
{
    if x1 < x2 {
        row_sums_add_up(src, width, y, x0, x1, x2 - 1, channel);
    }
}

/// Every source pixel of a rectangle counts once in its sum: the sum of a rectangle
/// is that of its two parts, however it is cut, and that of one pixel is the pixel.
pub proof fn every_source_pixel_counts_once(
    src: Seq<u8>,
    width: int,
    y0: int,
    y1: int,
    y2: int,
    x0: int,
    x1: int,
    x2: int,
    channel: int,
)
    requires
        y0 <= y1 <= y2,
        x0 <= x1 <= x2,
    ensures
        box_sum(src, width, y0, y2, x0, x2, channel) == box_sum(
            src,
            width,
            y0,
            y1,
            x0,
            x2,
            channel,
        ) + box_sum(src, width, y1, y2, x0, x2, channel),
        box_sum(src, width, y0, y2, x0, x2, channel) == box_sum(
            src,
            width,
            y0,
            y2,
            x0,
            x1,
            channel,
        ) + box_sum(src, width, y0, y2, x1, x2, channel),
        box_sum(src, width, y0, y0 + 1, x0, x0 + 1, channel) == src[4 * (y0 * width + x0)
            + channel],
    decreases y2 - y1, y2 - y0,
{
    let one = row_sum(src, width, y0, x0, x0 + 1, channel);
    assert(row_sum(src, width, y0, x0, x0, channel) == 0);
    assert(one == src[(y0 * width + x0 + 1 - 1) * 4 + channel]);
    assert(box_sum(src, width, y0, y0, x0, x0 + 1, channel) == 0);
    if y0 < y2 {
        row_sums_add_up(src, width, y2 - 1, x0, x1, x2, channel);
        if y1 < y2 {
            every_source_pixel_counts_once(src, width, y0, y1, y2 - 1, x0, x1, x2, channel);
        } else {
            every_source_pixel_counts_once(src, width, y0, y2 - 1, y2 - 1, x0, x1, x2, channel);
        }
    }
}

/// A pixel of the scaled picture is the average of all source pixels under it,
/// rounded down.
pub proof fn averages_are_rounded_down(
    src: Seq<u8>,
    sw: int,
    sh: int,
    dw: int,
    dh: int,
    dx: int,
    dy: int,
    channel: int,
)
    requires
        sw > 0,
        sh > 0,
        0 <= dx < dw,
        0 <= dy < dh,
    ensures
        ({
            let (x0, x1) = (span_start(dx, sw, dw), span_end(dx, sw, dw));
            let (y0, y1) = (span_start(dy, sh, dh), span_end(dy, sh, dh));
            let pixels = (x1 - x0) * (y1 - y0);
            let total = box_sum(src, sw, y0, y1, x0, x1, channel);
            let average = box_average(src, sw, sh, dw, dh, dx, dy, channel);
            pixels > 0 && pixels * average <= total < pixels * (average + 1)
        }),
{
    let (x0, x1) = (span_start(dx, sw, dw), span_end(dx, sw, dw));
    let (y0, y1) = (span_start(dy, sh, dh), span_end(dy, sh, dh));
    spans_lie_inside(dx, sw, dw);
    spans_lie_inside(dy, sh, dh);
    let pixels = (x1 - x0) * (y1 - y0);
    assert(pixels > 0) by (nonlinear_arith)
        requires
            pixels == (x1 - x0) * (y1 - y0),
            x1 > x0,
            y1 > y0,
    ;
    let total = box_sum(src, sw, y0, y1, x0, x1, channel) as int;
    let average = total / pixels;
    assert(pixels * average <= total < pixels * (average + 1)) by (nonlinear_arith)
        requires
            average == total / pixels,
            pixels > 0,
    ;
}

/// A picture that keeps its size keeps every pixel.
pub proof fn unscaled_pictures_stay(src: Seq<u8>, w: int, h: int, x: int, y: int, channel: int)
    requires
        0 <= x < w,
        0 <= y < h,
        0 <= channel < 4,
        src.len() == 4 * (w * h),
    ensures
        box_average(src, w, h, w, h, x, y, channel) == src[index(x, y, w, channel)],
{
    spans_of_the_same_size(x, w);
    spans_of_the_same_size(y, h);
    every_source_pixel_counts_once(src, w, y, y, y + 1, x, x, x + 1, channel);
    let total = box_sum(src, w, y, y + 1, x, x + 1, channel) as int;
    assert((x + 1 - x) * (y + 1 - y) == 1) by (nonlinear_arith);
    assert(total / 1 == total);
    assert(box_average(src, w, h, w, h, x, y, channel) == total / ((x + 1 - x) * (y + 1 - y)));
}

proof fn spans_of_the_same_size(d: int, n: int)
    requires
        0 <= d < n,
    ensures
        span_start(d, n, n) == d,
        span_end(d, n, n) == d + 1,
{
    assert(d * n / n == d) by (nonlinear_arith)
        requires
            n > 0,
    ;
    assert((d + 1) * n / n == d + 1) by (nonlinear_arith)
        requires
            n > 0,
    ;
}

/// The dot is a disc of radius seven around a point eight pixels off the lower right
/// corner, with an outline; it looks the same from all four sides, and what lies more
/// than eight pixels away in either direction is left alone.
pub proof fn dots_are_round(a: int, b: int, size: int, color: (u8, u8, u8))
    ensures
        a * a + b * b <= 7 * 7 ==> dot_color(size - 8 + a, size - 8 + b, size, color) == Some(
            color,
        ),
        7 * 7 < a * a + b * b <= 8 * 8 + 2 * 2 ==> dot_color(size - 8 + a, size - 8 + b, size, color)
            == Some((20u8, 24u8, 28u8)),
        a * a + b * b > 8 * 8 + 2 * 2 ==> dot_color(size - 8 + a, size - 8 + b, size, color)
            is None,
        a > 8 || a < -8 || b > 8 || b < -8 ==> dot_color(
            size - 8 + a,
            size - 8 + b,
            size,
            color,
        ) is None,
        dot_color(size - 8 + a, size - 8 + b, size, color) == dot_color(
            size - 8 - a,
            size - 8 + b,
            size,
            color,
        ),
        dot_color(size - 8 + a, size - 8 + b, size, color) == dot_color(
            size - 8 + b,
            size - 8 + a,
            size,
            color,
        ),
{
    assert((-a) * (-a) == a * a) by (nonlinear_arith);
    if a > 8 || a < -8 {
        assert(a * a >= 81) by (nonlinear_arith)
            requires
                a > 8 || a < -8,
        ;
        assert(b * b >= 0) by (nonlinear_arith);
    }
    if b > 8 || b < -8 {
        assert(b * b >= 81) by (nonlinear_arith)
            requires
                b > 8 || b < -8,
        ;
        assert(a * a >= 0) by (nonlinear_arith);
    }
}

/// A pixel under the dot becomes opaque and has the dot's colour; every other pixel
/// keeps all its bytes.
pub proof fn dots_leave_the_rest(
    before: Seq<u8>,
    x: int,
    y: int,
    size: int,
    c: int,
    color: (u8, u8, u8),
)
    ensures
        dot_color(x, y, size, color) is None ==> dotted(before, x, y, size, c, color)
            == before[4 * (y * size + x) + c],
        dot_color(x, y, size, color) matches Some(paint) ==> dotted(
            before,
            x,
            y,
            size,
            0,
            color,
        ) == paint.0 && dotted(before, x, y, size, 1, color) == paint.1 && dotted(
            before,
            x,
            y,
            size,
            2,
            color,
        ) == paint.2 && dotted(before, x, y, size, 3, color) == 255,
{
}

/// The dot is green while listening, red for an error, and has no colour while
/// paused.
pub proof fn dots_have_their_states_colour(state: ListeningState)
    ensures
        ({
            let (r, g, b) = status_color(state);
            &&& state is Listening <==> g > r + 0x40 && g > b + 0x40
            &&& state is Error <==> r > g + 0x40 && r > b + 0x40
            &&& state is Paused ==> r < g + 0x20 && g < r + 0x20 && g < b + 0x20 && b < g + 0x20
        }),
{
}

} // verus!
