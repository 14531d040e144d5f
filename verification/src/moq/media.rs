//! Captured media of the MOQT publisher and the pixel-format conversions that turn a
//! device frame into the I420 planes the encoder takes.

use vstd::prelude::*;

verus! {

/// A captured I420 frame. Each plane is packed: one byte per sample, no stride.
#[derive(Debug, Clone)]
pub struct CapturedVideoFrame {
    /// Y plane.
    pub y: Vec<u8>,
    /// U plane.
    pub u: Vec<u8>,
    /// V plane.
    pub v: Vec<u8>,
    /// Width (px).
    pub width: usize,
    /// Height (px).
    pub height: usize,
    /// Capture time (microseconds).
    pub timestamp_us: i64,
}

/// A captured audio frame.
#[derive(Debug, Clone)]
pub struct CapturedAudioFrame {
    /// Interleaved S16 PCM.
    pub pcm: Vec<i16>,
    /// Number of channels.
    pub channels: u8,
    /// Sampling rate (Hz).
    pub sample_rate: u32,
    /// Capture time (microseconds).
    pub timestamp_us: i64,
}

/// `n / 2` rounded up: the chroma size of an I420 plane side of `n` samples.
pub open spec fn half_up(n: int) -> int {
    (n + 1) / 2
}

fn half_up_exec(n: usize) -> (r: usize)
    ensures
        r == half_up(n as int),
        r <= n,
{
    n / 2 + n % 2
}

// ─── copy_plane ─────────────────────────────────────────────────────────────

/// Whether row `row` can be copied: `row_bytes` bytes from `row * src_stride` lie in the
/// source and `row_bytes` bytes from `row * dst_stride` lie in the destination.
pub open spec fn row_fits(src_len: int, src_stride: int, dst_len: int, dst_stride: int, row_bytes: int, row: int) -> bool {
    row * src_stride + row_bytes <= src_len && row * dst_stride + row_bytes <= dst_len
}

/// The number of leading rows among the first `rows` that can be copied (copying stops at
/// the first row that cannot).
pub open spec fn leading_rows(src_len: int, src_stride: int, dst_len: int, dst_stride: int, row_bytes: int, rows: nat) -> nat
    decreases rows,
{
    if rows == 0 {
        0
    } else {
        let k = leading_rows(src_len, src_stride, dst_len, dst_stride, row_bytes, (rows - 1) as nat);
        if k == rows - 1 && row_fits(src_len, src_stride, dst_len, dst_stride, row_bytes, rows - 1) {
            rows
        } else {
            k
        }
    }
}

/// `dst` after copying rows `0..n` of `row_bytes` bytes, row `r` going from `r * src_stride`
/// in `src` to `r * dst_stride` in `dst`, in order.
pub open spec fn copy_rows(src: Seq<u8>, src_stride: int, dst: Seq<u8>, dst_stride: int, row_bytes: int, n: nat) -> Seq<u8>
    decreases n,
{
    if n == 0 {
        dst
    } else {
        let prev = copy_rows(src, src_stride, dst, dst_stride, row_bytes, (n - 1) as nat);
        let r = n - 1;
        Seq::new(prev.len(), |i: int|
            if r * dst_stride <= i < r * dst_stride + row_bytes { src[r * src_stride + (i - r * dst_stride)] } else { prev[i] })
    }
}

/// `dst` after copying the leading rows of a strided plane that fit.
pub open spec fn copied_plane(src: Seq<u8>, src_stride: int, dst: Seq<u8>, dst_stride: int, row_bytes: int, rows: nat) -> Seq<u8> {
    copy_rows(src, src_stride, dst, dst_stride, row_bytes,
        leading_rows(src.len() as int, src_stride, dst.len() as int, dst_stride, row_bytes, rows))
}

proof fn lemma_leading_rows_stop(src_len: int, src_stride: int, dst_len: int, dst_stride: int, row_bytes: int, k: nat, n: nat)
    requires
        k <= n,
        leading_rows(src_len, src_stride, dst_len, dst_stride, row_bytes, k) == k,
        k < n ==> !row_fits(src_len, src_stride, dst_len, dst_stride, row_bytes, k as int),
    ensures
        leading_rows(src_len, src_stride, dst_len, dst_stride, row_bytes, n) == k,
    decreases n,
{
    if n > k {
        lemma_leading_rows_stop(src_len, src_stride, dst_len, dst_stride, row_bytes, k, (n - 1) as nat);
    }
}

/// `a * b + c`, or `None` when that does not fit in `usize`.
fn checked_offset(a: usize, b: usize, c: usize) -> (r: Option<usize>)
    ensures
        match r {
            Some(v) => v == a * b + c,
            None => a * b + c > usize::MAX,
        },
{
    match a.checked_mul(b) {
        Some(p) => p.checked_add(c),
        None => {
            assert(a * b + c >= a * b);
            None
        },
    }
}

/// Copies a strided plane into a packed one: row `r` (for `r < rows`) takes `row_bytes`
/// bytes from `r * src_stride` in `src` to `r * dst_stride` in `dst`. Copying stops at the
/// first row that does not lie wholly in both `src` and `dst`.
pub fn copy_plane(src: &[u8], src_stride: usize, dst: &mut [u8], dst_stride: usize, row_bytes: usize, rows: usize)
    ensures
        final(dst)@ == copied_plane(src@, src_stride as int, old(dst)@, dst_stride as int, row_bytes as int, rows as nat),
{
    let ghost start = dst@;
    let ghost ss = src_stride as int;
    let ghost ds = dst_stride as int;
    let ghost rb = row_bytes as int;
    let mut row: usize = 0;
    while row < rows
        invariant
            row <= rows,
            start == old(dst)@,
            dst@.len() == start.len(),
            ss == src_stride,
            ds == dst_stride,
            rb == row_bytes,
            leading_rows(src@.len() as int, ss, start.len() as int, ds, rb, row as nat) == row,
            dst@ == copy_rows(src@, ss, start, ds, rb, row as nat),
        decreases rows - row,
    {
        let src_end = checked_offset(row, src_stride, row_bytes);
        let dst_end = checked_offset(row, dst_stride, row_bytes);
        let fits = match src_end {
            Some(s) => match dst_end {
                Some(d) => s <= src.len() && d <= dst.len(),
                None => false,
            },
            None => false,
        };
        if !fits {
            proof {
                assert(src@.len() == src.len() && dst@.len() == dst.len());
                assert(!row_fits(src@.len() as int, ss, start.len() as int, ds, rb, row as int));
                lemma_leading_rows_stop(src@.len() as int, ss, start.len() as int, ds, rb, row as nat, rows as nat);
            }
            return;
        }
        let src_start = src_end.unwrap() - row_bytes;
        let dst_start = dst_end.unwrap() - row_bytes;
        let ghost prev = dst@;
        let mut j: usize = 0;
        while j < row_bytes
            invariant
                j <= row_bytes,
                src_start + row_bytes <= src.len(),
                dst_start + row_bytes <= dst.len(),
                dst@.len() == prev.len(),
                forall|i: int| 0 <= i < prev.len() ==> #[trigger] dst@[i] == (
                    if dst_start <= i < dst_start + j { src@[src_start + (i - dst_start)] } else { prev[i] }),
            decreases row_bytes - j,
        {
            dst[dst_start + j] = src[src_start + j];
            j = j + 1;
        }
        proof {
            assert(dst@ =~= copy_rows(src@, ss, start, ds, rb, (row + 1) as nat));
        }
        row = row + 1;
    }
}

// ─── NV12 ───────────────────────────────────────────────────────────────────

/// Whether the interleaved chroma pair at chroma row `row`, column `col` of an NV12 UV plane
/// with `stride`-byte rows lies in `len` bytes.
pub open spec fn nv12_pair_present(len: int, stride: int, row: int, col: int) -> bool {
    row * stride + 2 * col + 1 < len
}

/// One chroma plane (`offset` 0 for U, 1 for V) split out of an NV12 UV plane of a
/// `width` x `height` frame: a missing pair leaves 0.
pub open spec fn nv12_plane(uv: Seq<u8>, stride: int, width: int, height: int, offset: int) -> Seq<u8> {
    let cw = half_up(width);
    Seq::new((cw * half_up(height)) as nat, |i: int|
        if nv12_pair_present(uv.len() as int, stride, i / cw, i % cw) { uv[(i / cw) * stride + 2 * (i % cw) + offset] } else { 0u8 })
}

/// The byte offset of interleaved pair `col` of row `row`, when the pair (`width` bytes)
/// lies wholly in `len` bytes.
fn pair_offset(row: usize, stride: usize, col: usize, unit: usize, width: usize, len: usize) -> (r: Option<usize>)
    ensures
        match r {
            Some(o) => o == row * stride + unit * col && o + width <= len,
            None => !(row * stride + unit * col + width <= len),
        },
{
    let step = match col.checked_mul(unit) {
        Some(v) => v,
        None => {
            assert(row * stride + unit * col + width >= col * unit);
            return None;
        },
    };
    match checked_offset(row, stride, step) {
        Some(o) => if o <= len && width <= len - o { Some(o) } else { None },
        None => None,
    }
}

/// Splits the UV plane of an NV12 frame into I420 U and V planes (the colour space is
/// left as it is).
pub fn nv12_to_i420_planes(uv: &[u8], stride_uv: usize, width: usize, height: usize) -> (r: (Vec<u8>, Vec<u8>))
    requires
        half_up(width as int) * half_up(height as int) <= usize::MAX,
    ensures
        r.0@ == nv12_plane(uv@, stride_uv as int, width as int, height as int, 0),
        r.1@ == nv12_plane(uv@, stride_uv as int, width as int, height as int, 1),
{
    let chroma_width = half_up_exec(width);
    let chroma_height = half_up_exec(height);
    let total = chroma_width * chroma_height;
    let ghost eu = nv12_plane(uv@, stride_uv as int, width as int, height as int, 0);
    let ghost ev = nv12_plane(uv@, stride_uv as int, width as int, height as int, 1);
    let mut u: Vec<u8> = vec![0u8; total];
    let mut v: Vec<u8> = vec![0u8; total];
    let mut row: usize = 0;
    while row < chroma_height
        invariant
            row <= chroma_height,
            total == chroma_width * chroma_height,
            chroma_width == half_up(width as int),
            chroma_height == half_up(height as int),
            eu == nv12_plane(uv@, stride_uv as int, width as int, height as int, 0),
            ev == nv12_plane(uv@, stride_uv as int, width as int, height as int, 1),
            u@.len() == total,
            v@.len() == total,
            forall|i: int| 0 <= i < row * chroma_width ==> #[trigger] u@[i] == eu[i],
            forall|i: int| 0 <= i < row * chroma_width ==> #[trigger] v@[i] == ev[i],
            forall|i: int| row * chroma_width <= i < total ==> #[trigger] u@[i] == 0u8,
            forall|i: int| row * chroma_width <= i < total ==> #[trigger] v@[i] == 0u8,
        decreases chroma_height - row,
    {
        assert(row * chroma_width + chroma_width <= total) by (nonlinear_arith)
            requires row < chroma_height, total == chroma_width * chroma_height;
        let base = row * chroma_width;
        let mut col: usize = 0;
        while col < chroma_width
            invariant
                row < chroma_height,
                col <= chroma_width,
                base == row * chroma_width,
                base + chroma_width <= total,
                total == chroma_width * chroma_height,
                chroma_width == half_up(width as int),
                chroma_height == half_up(height as int),
                eu == nv12_plane(uv@, stride_uv as int, width as int, height as int, 0),
                ev == nv12_plane(uv@, stride_uv as int, width as int, height as int, 1),
                uv@.len() == uv.len(),
                u@.len() == total,
                v@.len() == total,
                forall|i: int| 0 <= i < base + col ==> #[trigger] u@[i] == eu[i],
                forall|i: int| 0 <= i < base + col ==> #[trigger] v@[i] == ev[i],
                forall|i: int| base + col <= i < total ==> #[trigger] u@[i] == 0u8,
                forall|i: int| base + col <= i < total ==> #[trigger] v@[i] == 0u8,
            decreases chroma_width - col,
        {
            proof {
                crate::bytes::lemma_row_index(row as int, col as int, chroma_width as int);
            }
            let ghost k = base + col;
            assert(k / chroma_width as int == row && k % chroma_width as int == col);
            match pair_offset(row, stride_uv, col, 2, 2, uv.len()) {
                Some(src) => {
                    u.set(base + col, uv[src]);
                    v.set(base + col, uv[src + 1]);
                    assert(u@[k] == eu[k] && v@[k] == ev[k]);
                },
                None => {
                    assert(eu[k] == 0u8 && ev[k] == 0u8);
                },
            }
            col = col + 1;
        }
        assert((row + 1) * chroma_width == base + chroma_width) by (nonlinear_arith)
            requires base == row * chroma_width;
        row = row + 1;
    }
    assert(eu.len() == total && ev.len() == total);
    assert(row * chroma_width == total) by (nonlinear_arith)
        requires row == chroma_height, total == chroma_width * chroma_height;
    assert(u@ =~= eu);
    assert(v@ =~= ev);
    (u, v)
}

// ─── YUY2 ───────────────────────────────────────────────────────────────────

/// Whether the 4-byte macropixel `pair` (`Y0 U Y1 V`, two pixels) of row `row` of a YUY2
/// frame with `stride`-byte rows lies in `len` bytes.
pub open spec fn yuy2_pair_present(len: int, stride: int, row: int, pair: int) -> bool {
    row * stride + 4 * pair + 3 < len
}

/// The luma of pixel `(row, col)` converted from a YUY2 frame `width` pixels wide.
///
/// A pixel whose macropixel is missing is 0, except the first pixel of a row of an
/// odd-width frame: the conversion writes the second luma of the previous row's last
/// macropixel there, and it stays when the row's own first macropixel is missing.
pub open spec fn yuy2_luma(data: Seq<u8>, stride: int, width: int, row: int, col: int) -> u8 {
    if yuy2_pair_present(data.len() as int, stride, row, col / 2) {
        data[row * stride + 2 * col]
    } else if col == 0 && width % 2 == 1 && row > 0 && yuy2_pair_present(data.len() as int, stride, row - 1, width / 2) {
        data[(row - 1) * stride + 2 * width]
    } else {
        0u8
    }
}

/// The Y plane converted from a YUY2 frame.
pub open spec fn yuy2_y_plane(data: Seq<u8>, stride: int, width: int, height: int) -> Seq<u8> {
    Seq::new((width * height) as nat, |i: int| yuy2_luma(data, stride, width, i / width, i % width))
}

/// A chroma plane (`offset` 1 for U, 3 for V) converted from a YUY2 frame: the chroma of
/// the even rows is taken as it is (no vertical averaging); a missing macropixel leaves 0.
pub open spec fn yuy2_chroma_plane(data: Seq<u8>, stride: int, width: int, height: int, offset: int) -> Seq<u8> {
    let cw = half_up(width);
    Seq::new((cw * half_up(height)) as nat, |i: int|
        if yuy2_pair_present(data.len() as int, stride, 2 * (i / cw), i % cw) {
            data[2 * (i / cw) * stride + 4 * (i % cw) + offset]
        } else {
            0u8
        })
}

/// What the first pixel of row `row` holds before the row is converted.
pub open spec fn yuy2_carry(data: Seq<u8>, stride: int, width: int, row: int) -> u8 {
    if width % 2 == 1 && row > 0 && yuy2_pair_present(data.len() as int, stride, row - 1, width / 2) {
        data[(row - 1) * stride + 2 * width]
    } else {
        0u8
    }
}

proof fn lemma_half_up_le_product(w: int, h: int)
    requires
        0 <= w,
        0 <= h,
    ensures
        0 <= half_up(w) * half_up(h) <= w * h,
{
    assert(0 <= half_up(w) <= w);
    assert(0 <= half_up(h) <= h);
    assert(0 <= half_up(w) * half_up(h) <= w * h) by (nonlinear_arith)
        requires 0 <= half_up(w) <= w, 0 <= half_up(h) <= h;
}

/// Converts a packed YUY2 frame (`Y0 U Y1 V`: 4 bytes for 2 pixels) to I420 planes. The
/// chroma of a 2x2 block is that of its even row.
pub fn yuy2_to_i420_planes(data: &[u8], stride: usize, width: usize, height: usize) -> (r: (Vec<u8>, Vec<u8>, Vec<u8>))
    requires
        width * height <= usize::MAX,
    ensures
        r.0@ == yuy2_y_plane(data@, stride as int, width as int, height as int),
        r.1@ == yuy2_chroma_plane(data@, stride as int, width as int, height as int, 1),
        r.2@ == yuy2_chroma_plane(data@, stride as int, width as int, height as int, 3),
{
    let chroma_width = half_up_exec(width);
    let chroma_height = half_up_exec(height);
    proof {
        lemma_half_up_le_product(width as int, height as int);
    }
    let total = width * height;
    let chroma_total = chroma_width * chroma_height;
    let ghost ey = yuy2_y_plane(data@, stride as int, width as int, height as int);
    let ghost eu = yuy2_chroma_plane(data@, stride as int, width as int, height as int, 1);
    let ghost ev = yuy2_chroma_plane(data@, stride as int, width as int, height as int, 3);
    let ghost len = data@.len() as int;
    let mut y: Vec<u8> = vec![0u8; total];
    let mut u: Vec<u8> = vec![0u8; chroma_total];
    let mut v: Vec<u8> = vec![0u8; chroma_total];
    assert(half_up(0int) == 0);
    assert(half_up(0int) * chroma_width == 0) by (nonlinear_arith)
        requires half_up(0int) == 0;
    let mut row: usize = 0;
    assert(0 < height && width > 0 ==> total > 0) by (nonlinear_arith)
        requires total == width * height;
    assert(0 < height && width > 0 ==> y@[0 * width] == 0u8);
    while row < height
        invariant
            row <= height,
            total == width * height,
            chroma_total == chroma_width * chroma_height,
            chroma_width == half_up(width as int),
            chroma_height == half_up(height as int),
            len == data@.len(),
            data@.len() == data.len(),
            ey == yuy2_y_plane(data@, stride as int, width as int, height as int),
            eu == yuy2_chroma_plane(data@, stride as int, width as int, height as int, 1),
            ev == yuy2_chroma_plane(data@, stride as int, width as int, height as int, 3),
            y@.len() == total,
            u@.len() == chroma_total,
            v@.len() == chroma_total,
            forall|i: int| 0 <= i < row * width ==> #[trigger] y@[i] == ey[i],
            row < height && width > 0 ==> y@[row * width] == yuy2_carry(data@, stride as int, width as int, row as int),
            forall|i: int| row * width < i < total ==> #[trigger] y@[i] == 0u8,
            forall|i: int| 0 <= i < half_up(row as int) * chroma_width ==> #[trigger] u@[i] == eu[i],
            forall|i: int| 0 <= i < half_up(row as int) * chroma_width ==> #[trigger] v@[i] == ev[i],
            forall|i: int| half_up(row as int) * chroma_width <= i < chroma_total ==> #[trigger] u@[i] == 0u8,
            forall|i: int| half_up(row as int) * chroma_width <= i < chroma_total ==> #[trigger] v@[i] == 0u8,
        decreases height - row,
    {
        assert(row * width + width <= total) by (nonlinear_arith)
            requires row < height, total == width * height;
        let base = row * width;
        assert(row + 1 < height ==> base + width + width <= total) by (nonlinear_arith)
            requires base == row * width, total == width * height;
        let even = row % 2 == 0;
        let chroma_row = row / 2;
        assert(chroma_row < chroma_height);
        assert(chroma_row * chroma_width + chroma_width <= chroma_total) by (nonlinear_arith)
            requires chroma_row < chroma_height, chroma_total == chroma_width * chroma_height;
        let chroma_base = chroma_row * chroma_width;
        let mut col: usize = 0;
        while col < chroma_width
            invariant
                row < height,
                col <= chroma_width,
                base == row * width,
                base + width <= total,
                row + 1 < height ==> base + width + width <= total,
                total == width * height,
                chroma_total == chroma_width * chroma_height,
                chroma_width == half_up(width as int),
                chroma_height == half_up(height as int),
                even == (row % 2 == 0),
                chroma_row == row / 2,
                chroma_base == chroma_row * chroma_width,
                chroma_base + chroma_width <= chroma_total,
                len == data@.len(),
                data@.len() == data.len(),
                ey == yuy2_y_plane(data@, stride as int, width as int, height as int),
                eu == yuy2_chroma_plane(data@, stride as int, width as int, height as int, 1),
                ev == yuy2_chroma_plane(data@, stride as int, width as int, height as int, 3),
                y@.len() == total,
                u@.len() == chroma_total,
                v@.len() == chroma_total,
                forall|i: int| 0 <= i < base ==> #[trigger] y@[i] == ey[i],
                forall|i: int| base <= i < base + 2 * col && i < base + width ==> #[trigger] y@[i] == ey[i],
                forall|i: int| base + 2 * col <= i < base + width ==> #[trigger] y@[i] == (
                    if i == base { yuy2_carry(data@, stride as int, width as int, row as int) } else { 0u8 }),
                width > 0 && row + 1 < height ==> y@[base + width] == (
                    if col == chroma_width { yuy2_carry(data@, stride as int, width as int, row + 1) } else { 0u8 }),
                forall|i: int| base + width < i < total ==> #[trigger] y@[i] == 0u8,
                forall|i: int| 0 <= i < half_up(row as int) * chroma_width ==> #[trigger] u@[i] == eu[i],
                forall|i: int| 0 <= i < half_up(row as int) * chroma_width ==> #[trigger] v@[i] == ev[i],
                even ==> forall|i: int| chroma_base <= i < chroma_base + col ==> #[trigger] u@[i] == eu[i],
                even ==> forall|i: int| chroma_base <= i < chroma_base + col ==> #[trigger] v@[i] == ev[i],
                forall|i: int| half_up(row as int) * chroma_width + (if even { col as int } else { 0 }) <= i < chroma_total
                    ==> #[trigger] u@[i] == 0u8,
                forall|i: int| half_up(row as int) * chroma_width + (if even { col as int } else { 0 }) <= i < chroma_total
                    ==> #[trigger] v@[i] == 0u8,
            decreases chroma_width - col,
        {
            let dst_y = base + 2 * col;
            let ghost kc = chroma_base + col;
            proof {
                crate::bytes::lemma_row_index(row as int, 2 * col, width as int);
                if 2 * col + 1 < width {
                    crate::bytes::lemma_row_index(row as int, 2 * col + 1, width as int);
                }
                crate::bytes::lemma_row_index(chroma_row as int, col as int, chroma_width as int);
            }
            match pair_offset(row, stride, col, 4, 4, data.len()) {
                Some(src) => {
                    if dst_y < total {
                        y.set(dst_y, data[src]);
                        if dst_y + 1 < total {
                            y.set(dst_y + 1, data[src + 2]);
                        }
                    }
                    if even {
                        u.set(chroma_base + col, data[src + 1]);
                        v.set(chroma_base + col, data[src + 3]);
                        assert(u@[kc] == eu[kc]);
                        assert(v@[kc] == ev[kc]);
                    }
                },
                None => {
                    assert(even ==> eu[kc] == 0u8 && ev[kc] == 0u8);
                },
            }
            col = col + 1;
        }
        assert((row + 1) * width == base + width) by (nonlinear_arith)
            requires base == row * width;
        assert(half_up(row + 1) * chroma_width
            == half_up(row as int) * chroma_width + (if even { chroma_width as int } else { 0 })) by (nonlinear_arith)
            requires even == (row % 2 == 0);
        assert(even ==> chroma_base == half_up(row as int) * chroma_width);
        row = row + 1;
    }
    assert(row * width == total) by (nonlinear_arith)
        requires row == height, total == width * height;
    assert(half_up(row as int) * chroma_width == chroma_total);
    assert(ey.len() == total && eu.len() == chroma_total && ev.len() == chroma_total);
    assert(y@ =~= ey);
    assert(u@ =~= eu);
    assert(v@ =~= ev);
    (y, u, v)
}

// ─── BGRA ───────────────────────────────────────────────────────────────────

/// `x` kept within `lo..=hi`.
pub open spec fn clamp(x: int, lo: int, hi: int) -> int {
    if x < lo { lo } else if x > hi { hi } else { x }
}

/// BT.601 limited-range luma of a pixel: `16 + ((66 R + 129 G + 25 B) >> 8)`, kept in 16..=235.
pub open spec fn bt601_y(b: int, g: int, r: int) -> u8 {
    clamp(16 + (66 * r + 129 * g + 25 * b) / 256, 16, 235) as u8
}

/// BT.601 limited-range Cb of a pixel: `128 + ((-38 R - 74 G + 112 B) >> 8)`, kept in 16..=240.
pub open spec fn bt601_u(b: int, g: int, r: int) -> u8 {
    clamp(128 + (-38 * r - 74 * g + 112 * b) / 256, 16, 240) as u8
}

/// BT.601 limited-range Cr of a pixel: `128 + ((112 R - 94 G - 18 B) >> 8)`, kept in 16..=240.
pub open spec fn bt601_v(b: int, g: int, r: int) -> u8 {
    clamp(128 + (112 * r - 94 * g - 18 * b) / 256, 16, 240) as u8
}

fn clamp_u8(x: i32, lo: i32, hi: i32) -> (r: u8)
    requires
        0 <= lo <= hi <= 255,
    ensures
        r == clamp(x as int, lo as int, hi as int),
{
    if x < lo {
        lo as u8
    } else if x > hi {
        hi as u8
    } else {
        x as u8
    }
}

proof fn lemma_shift_is_floor_div(x: i32)
    ensures
        (x >> 8u32) as int == x as int / 256,
{
    assert(x >> 8u32 == x / 256) by (bit_vector);
}

fn bt601_pixel(b: u8, g: u8, r: u8) -> (out: (u8, u8, u8))
    ensures
        out.0 == bt601_y(b as int, g as int, r as int),
        out.1 == bt601_u(b as int, g as int, r as int),
        out.2 == bt601_v(b as int, g as int, r as int),
{
    let b = b as i32;
    let g = g as i32;
    let r = r as i32;
    assert(0 <= r <= 255 && 0 <= g <= 255 && 0 <= b <= 255);
    let luma_sum = 66 * r + 129 * g + 25 * b;
    let u_sum = 112 * b - 38 * r - 74 * g;
    let v_sum = 112 * r - 94 * g - 18 * b;
    proof {
        lemma_shift_is_floor_div(luma_sum);
        lemma_shift_is_floor_div(u_sum);
        lemma_shift_is_floor_div(v_sum);
    }
    let luma = 16 + (luma_sum >> 8);
    let chroma_u = 128 + (u_sum >> 8);
    let chroma_v = 128 + (v_sum >> 8);
    (clamp_u8(luma, 16, 235), clamp_u8(chroma_u, 16, 240), clamp_u8(chroma_v, 16, 240))
}

/// Whether the B, G and R bytes of pixel number `index` lie in `len` bytes of BGRA.
pub open spec fn bgra_present(len: int, index: int) -> bool {
    4 * index + 2 < len
}

/// The Y plane converted from a `width` x `height` BGRA image: a missing pixel leaves 0.
pub open spec fn bgra_y_plane(bgra: Seq<u8>, width: int, height: int) -> Seq<u8> {
    Seq::new((width * height) as nat, |i: int|
        if bgra_present(bgra.len() as int, i) { bt601_y(bgra[4 * i] as int, bgra[4 * i + 1] as int, bgra[4 * i + 2] as int) } else { 0u8 })
}

/// A chroma plane (`cr` false for U, true for V) converted from a BGRA image: the chroma
/// of a 2x2 block is that of its top-left pixel.
pub open spec fn bgra_chroma_plane(bgra: Seq<u8>, width: int, height: int, cr: bool) -> Seq<u8> {
    let cw = half_up(width);
    Seq::new((cw * half_up(height)) as nat, |i: int| {
        let p = 2 * (i / cw) * width + 2 * (i % cw);
        if bgra_present(bgra.len() as int, p) {
            let (b, g, r) = (bgra[4 * p] as int, bgra[4 * p + 1] as int, bgra[4 * p + 2] as int);
            if cr { bt601_v(b, g, r) } else { bt601_u(b, g, r) }
        } else {
            0u8
        }
    })
}

/// Converts a BGRA image (as drawn by raden, `Prgb32`) to I420 planes, BT.601 limited range.
pub fn bgra_to_i420_planes(bgra: &[u8], width: usize, height: usize) -> (r: (Vec<u8>, Vec<u8>, Vec<u8>))
    requires
        width * height <= usize::MAX,
    ensures
        r.0@ == bgra_y_plane(bgra@, width as int, height as int),
        r.1@ == bgra_chroma_plane(bgra@, width as int, height as int, false),
        r.2@ == bgra_chroma_plane(bgra@, width as int, height as int, true),
{
    let chroma_width = half_up_exec(width);
    let chroma_height = half_up_exec(height);
    proof {
        lemma_half_up_le_product(width as int, height as int);
    }
    let total = width * height;
    let chroma_total = chroma_width * chroma_height;
    let ghost ey = bgra_y_plane(bgra@, width as int, height as int);
    let ghost eu = bgra_chroma_plane(bgra@, width as int, height as int, false);
    let ghost ev = bgra_chroma_plane(bgra@, width as int, height as int, true);
    let mut y: Vec<u8> = vec![0u8; total];
    let mut u: Vec<u8> = vec![0u8; chroma_total];
    let mut v: Vec<u8> = vec![0u8; chroma_total];
    assert(half_up(0int) == 0);
    assert(half_up(0int) * chroma_width == 0) by (nonlinear_arith)
        requires half_up(0int) == 0;
    let mut row: usize = 0;
    while row < height
        invariant
            row <= height,
            total == width * height,
            chroma_total == chroma_width * chroma_height,
            chroma_width == half_up(width as int),
            chroma_height == half_up(height as int),
            bgra@.len() == bgra.len(),
            ey == bgra_y_plane(bgra@, width as int, height as int),
            eu == bgra_chroma_plane(bgra@, width as int, height as int, false),
            ev == bgra_chroma_plane(bgra@, width as int, height as int, true),
            y@.len() == total,
            u@.len() == chroma_total,
            v@.len() == chroma_total,
            forall|i: int| 0 <= i < row * width ==> #[trigger] y@[i] == ey[i],
            forall|i: int| row * width <= i < total ==> #[trigger] y@[i] == 0u8,
            forall|i: int| 0 <= i < half_up(row as int) * chroma_width ==> #[trigger] u@[i] == eu[i],
            forall|i: int| 0 <= i < half_up(row as int) * chroma_width ==> #[trigger] v@[i] == ev[i],
            forall|i: int| half_up(row as int) * chroma_width <= i < chroma_total ==> #[trigger] u@[i] == 0u8,
            forall|i: int| half_up(row as int) * chroma_width <= i < chroma_total ==> #[trigger] v@[i] == 0u8,
        decreases height - row,
    {
        assert(row * width + width <= total) by (nonlinear_arith)
            requires row < height, total == width * height;
        let base = row * width;
        let even = row % 2 == 0;
        let chroma_row = row / 2;
        assert(chroma_row * chroma_width + chroma_width <= chroma_total) by (nonlinear_arith)
            requires chroma_row < chroma_height, chroma_total == chroma_width * chroma_height;
        let chroma_base = chroma_row * chroma_width;
        let mut col: usize = 0;
        while col < width
            invariant
                row < height,
                col <= width,
                base == row * width,
                base + width <= total,
                total == width * height,
                chroma_total == chroma_width * chroma_height,
                chroma_width == half_up(width as int),
                chroma_height == half_up(height as int),
                even == (row % 2 == 0),
                chroma_row == row / 2,
                chroma_base == chroma_row * chroma_width,
                chroma_base + chroma_width <= chroma_total,
                bgra@.len() == bgra.len(),
                ey == bgra_y_plane(bgra@, width as int, height as int),
                eu == bgra_chroma_plane(bgra@, width as int, height as int, false),
                ev == bgra_chroma_plane(bgra@, width as int, height as int, true),
                y@.len() == total,
                u@.len() == chroma_total,
                v@.len() == chroma_total,
                forall|i: int| 0 <= i < base + col ==> #[trigger] y@[i] == ey[i],
                forall|i: int| base + col <= i < total ==> #[trigger] y@[i] == 0u8,
                forall|i: int| 0 <= i < half_up(row as int) * chroma_width ==> #[trigger] u@[i] == eu[i],
                forall|i: int| 0 <= i < half_up(row as int) * chroma_width ==> #[trigger] v@[i] == ev[i],
                even ==> forall|i: int| chroma_base <= i < chroma_base + half_up(col as int) ==> #[trigger] u@[i] == eu[i],
                even ==> forall|i: int| chroma_base <= i < chroma_base + half_up(col as int) ==> #[trigger] v@[i] == ev[i],
                forall|i: int| half_up(row as int) * chroma_width + (if even { half_up(col as int) } else { 0 }) <= i < chroma_total
                    ==> #[trigger] u@[i] == 0u8,
                forall|i: int| half_up(row as int) * chroma_width + (if even { half_up(col as int) } else { 0 }) <= i < chroma_total
                    ==> #[trigger] v@[i] == 0u8,
            decreases width - col,
        {
            let index = base + col;
            let ghost kc = chroma_base + col / 2;
            proof {
                if even && col % 2 == 0 {
                    crate::bytes::lemma_row_index(chroma_row as int, (col / 2) as int, chroma_width as int);
                    assert(2 * chroma_row * width + 2 * (col / 2) == index);
                }
            }
            match pair_offset(index, 4, 0, 1, 3, bgra.len()) {
                Some(px) => {
                    let (luma, chroma_u, chroma_v) = bt601_pixel(bgra[px], bgra[px + 1], bgra[px + 2]);
                    y.set(index, luma);
                    if even && col % 2 == 0 {
                        u.set(chroma_base + col / 2, chroma_u);
                        v.set(chroma_base + col / 2, chroma_v);
                        assert(u@[kc] == eu[kc]);
                        assert(v@[kc] == ev[kc]);
                    }
                },
                None => {
                    assert(even && col % 2 == 0 ==> eu[kc] == 0u8 && ev[kc] == 0u8);
                },
            }
            col = col + 1;
        }
        assert((row + 1) * width == base + width) by (nonlinear_arith)
            requires base == row * width;
        assert(half_up(row + 1) * chroma_width
            == half_up(row as int) * chroma_width + (if even { chroma_width as int } else { 0 })) by (nonlinear_arith)
            requires even == (row % 2 == 0);
        assert(even ==> chroma_base == half_up(row as int) * chroma_width);
        row = row + 1;
    }
    assert(row * width == total) by (nonlinear_arith)
        requires row == height, total == width * height;
    assert(half_up(row as int) * chroma_width == chroma_total);
    assert(ey.len() == total && eu.len() == chroma_total && ev.len() == chroma_total);
    assert(y@ =~= ey);
    assert(u@ =~= eu);
    assert(v@ =~= ev);
    (y, u, v)
}

// ─── Device frames ──────────────────────────────────────────────────────────

/// The pixel format of a frame delivered by a capture device.
#[derive(Debug, Clone, Copy, PartialEq, Eq, Structural)]
pub enum DevicePixelFormat {
    /// YUV 4:2:0 semi-planar.
    Nv12,
    /// YUV 4:2:2 packed.
    Yuy2,
    /// YUV 4:2:0 planar.
    I420,
    /// Motion JPEG (compressed).
    Mjpeg,
    /// A format the device layer does not know, by its raw code.
    Unknown(u32),
}

/// A frame delivered by a capture device, borrowed for the duration of the callback.
pub struct DeviceFrame<'a> {
    /// The Y plane, or the interleaved data.
    pub data: &'a [u8],
    /// The UV planes (NV12 / I420 only).
    pub uv_data: Option<&'a [u8]>,
    /// Width (px).
    pub width: i32,
    /// Height (px).
    pub height: i32,
    /// Bytes per row of `data`.
    pub stride: i32,
    /// Bytes per row of `uv_data`.
    pub stride_uv: i32,
    /// Pixel format.
    pub pixel_format: DevicePixelFormat,
    /// Capture time (microseconds).
    pub timestamp_us: i64,
}

/// A stride as a byte count: negative strides count as 0.
pub open spec fn stride_bytes(stride: i32) -> int {
    if stride < 0 { 0 } else { stride as int }
}

/// A plane of `n` zero bytes.
pub open spec fn zero_plane(n: int) -> Seq<u8> {
    Seq::new(n as nat, |i: int| 0u8)
}

/// The uv planes of a frame, when its format carries them.
pub open spec fn uv_view(uv: Option<&[u8]>) -> Option<Seq<u8>> {
    match uv {
        Some(s) => Some(s@),
        None => None,
    }
}

/// Whether converting the frame allocates its planes (a supported format with its planes
/// present and no zero side).
pub open spec fn converts_planes(frame: DeviceFrame) -> bool {
    &&& frame.width != 0
    &&& frame.height != 0
    &&& match frame.pixel_format {
        DevicePixelFormat::I420 | DevicePixelFormat::Nv12 => frame.uv_data is Some,
        DevicePixelFormat::Yuy2 => true,
        _ => false,
    }
}

/// The I420 planes converted from a device frame, or `None` when it is not converted: a
/// zero side, an unsupported format (MJPEG, unknown), missing UV planes, or planes shorter
/// than their strides say. The Y plane and I420 chroma are copied row by row; NV12 chroma
/// is split; YUY2 is unpacked.
pub open spec fn converted_planes(
    format: DevicePixelFormat,
    data: Seq<u8>,
    uv: Option<Seq<u8>>,
    width: int,
    height: int,
    stride: int,
    stride_uv: int,
) -> Option<(Seq<u8>, Seq<u8>, Seq<u8>)> {
    let cw = half_up(width);
    let ch = half_up(height);
    if width == 0 || height == 0 {
        None
    } else {
        match format {
            DevicePixelFormat::I420 => match uv {
                None => None,
                Some(uv) => if uv.len() < stride_uv * ch * 2 {
                    None
                } else {
                    Some((
                        copied_plane(data, stride, zero_plane(width * height), width, width, height as nat),
                        copied_plane(uv.take(stride_uv * ch), stride_uv, zero_plane(cw * ch), cw, cw, ch as nat),
                        copied_plane(uv.skip(stride_uv * ch), stride_uv, zero_plane(cw * ch), cw, cw, ch as nat),
                    ))
                },
            },
            DevicePixelFormat::Nv12 => match uv {
                None => None,
                Some(uv) => if data.len() < stride * height || uv.len() < stride_uv * ch {
                    None
                } else {
                    Some((
                        copied_plane(data, stride, zero_plane(width * height), width, width, height as nat),
                        nv12_plane(uv, stride_uv, width, height, 0),
                        nv12_plane(uv, stride_uv, width, height, 1),
                    ))
                },
            },
            DevicePixelFormat::Yuy2 => if data.len() < stride * height {
                None
            } else {
                Some((
                    yuy2_y_plane(data, stride, width, height),
                    yuy2_chroma_plane(data, stride, width, height, 1),
                    yuy2_chroma_plane(data, stride, width, height, 3),
                ))
            },
            _ => None,
        }
    }
}

/// Whether `n` bytes lie in `len`: `n`, or `None` when it does not fit in `usize` (and so
/// exceeds every length).
fn fits_in(n: Option<usize>, len: usize) -> (r: bool)
    ensures
        r == (n matches Some(v) && v <= len),
{
    match n {
        Some(v) => v <= len,
        None => false,
    }
}

fn stride_of(stride: i32) -> (r: usize)
    ensures
        r == stride_bytes(stride),
{
    if stride < 0 { 0 } else { stride as usize }
}

/// Converts a device frame to packed I420 planes.
///
/// I420, NV12 and YUY2 are supported; any other format, a frame with a zero side, or one
/// whose planes are shorter than its strides say gives `None`.
pub fn convert_device_frame(frame: &DeviceFrame) -> (r: Option<CapturedVideoFrame>)
    requires
        converts_planes(*frame) ==> 0 < frame.width && 0 < frame.height
            && frame.width as int * frame.height as int <= usize::MAX,
    ensures
        match converted_planes(frame.pixel_format, frame.data@, uv_view(frame.uv_data),
            frame.width as int, frame.height as int, stride_bytes(frame.stride), stride_bytes(frame.stride_uv)) {
            None => r is None,
            Some(planes) => r matches Some(f) && f.y@ == planes.0 && f.u@ == planes.1 && f.v@ == planes.2
                && f.width == frame.width && f.height == frame.height && f.timestamp_us == frame.timestamp_us,
        },
{
    if frame.width == 0 || frame.height == 0 {
        return None;
    }
    let stride = stride_of(frame.stride);
    let stride_uv = stride_of(frame.stride_uv);
    match frame.pixel_format {
        DevicePixelFormat::I420 => {
            let uv = match frame.uv_data {
                Some(uv) => uv,
                None => return None,
            };
            let width = frame.width as usize;
            let height = frame.height as usize;
            let chroma_width = half_up_exec(width);
            let chroma_height = half_up_exec(height);
            proof {
                lemma_half_up_le_product(width as int, height as int);
            }
            let chroma_bytes = checked_offset(stride_uv, chroma_height, 0);
            let both = match chroma_bytes {
                Some(n) => n.checked_mul(2),
                None => None,
            };
            if !fits_in(both, uv.len()) {
                return None;
            }
            let chroma_bytes = chroma_bytes.unwrap();
            let mut y: Vec<u8> = vec![0u8; width * height];
            assert(y@ =~= zero_plane(width * height));
            copy_plane(frame.data, stride, y.as_mut_slice(), width, width, height);
            let mut u: Vec<u8> = vec![0u8; chroma_width * chroma_height];
            let mut v: Vec<u8> = vec![0u8; chroma_width * chroma_height];
            assert(u@ =~= zero_plane(chroma_width * chroma_height));
            assert(v@ =~= zero_plane(chroma_width * chroma_height));
            let uv_first = vstd::slice::slice_subrange(uv, 0, chroma_bytes);
            let uv_second = vstd::slice::slice_subrange(uv, chroma_bytes, uv.len());
            assert(uv_first@ =~= uv@.take(chroma_bytes as int));
            assert(uv_second@ =~= uv@.skip(chroma_bytes as int));
            copy_plane(uv_first, stride_uv, u.as_mut_slice(), chroma_width, chroma_width, chroma_height);
            copy_plane(uv_second, stride_uv, v.as_mut_slice(), chroma_width, chroma_width, chroma_height);
            Some(CapturedVideoFrame { y, u, v, width, height, timestamp_us: frame.timestamp_us })
        },
        DevicePixelFormat::Nv12 => {
            let uv = match frame.uv_data {
                Some(uv) => uv,
                None => return None,
            };
            let width = frame.width as usize;
            let height = frame.height as usize;
            let chroma_height = half_up_exec(height);
            proof {
                lemma_half_up_le_product(width as int, height as int);
            }
            if !fits_in(checked_offset(stride, height, 0), frame.data.len())
                || !fits_in(checked_offset(stride_uv, chroma_height, 0), uv.len()) {
                return None;
            }
            let mut y: Vec<u8> = vec![0u8; width * height];
            assert(y@ =~= zero_plane(width * height));
            copy_plane(frame.data, stride, y.as_mut_slice(), width, width, height);
            let (u, v) = nv12_to_i420_planes(uv, stride_uv, width, height);
            Some(CapturedVideoFrame { y, u, v, width, height, timestamp_us: frame.timestamp_us })
        },
        DevicePixelFormat::Yuy2 => {
            let width = frame.width as usize;
            let height = frame.height as usize;
            if !fits_in(checked_offset(stride, height, 0), frame.data.len()) {
                return None;
            }
            let (y, u, v) = yuy2_to_i420_planes(frame.data, stride, width, height);
            Some(CapturedVideoFrame { y, u, v, width, height, timestamp_us: frame.timestamp_us })
        },
        _ => None,
    }
}

} // verus!
