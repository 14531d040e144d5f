//! The receiving side's video display: frames copied out of decoded I420 buffers, the
//! list of displayed tracks, and the decisions of the window loop.

use vstd::prelude::*;

use crate::text::str_eq;

verus! {

/// A display frame: packed copies of the I420 planes.
#[derive(Debug, Clone)]
pub struct DisplayFrame {
    pub y: Vec<u8>,
    pub u: Vec<u8>,
    pub v: Vec<u8>,
    pub width: i32,
    pub height: i32,
}

/// What the display reads of a decoded I420 buffer: its planes, size and strides.
pub struct I420Planes<'a> {
    pub y_data: &'a [u8],
    pub u_data: &'a [u8],
    pub v_data: &'a [u8],
    pub width: i32,
    pub height: i32,
    pub stride_y: i32,
    pub stride_u: i32,
    pub stride_v: i32,
}

/// `n` rounded down to an even number (SDL's I420 textures take no odd sides).
pub open spec fn even_floor(n: int) -> int {
    n - n % 2
}

/// Whether `rows` rows of `row_bytes` bytes, `stride` bytes apart, can be read from `len`
/// bytes.
pub open spec fn plane_readable(len: int, stride: i32, rows: int, row_bytes: int) -> bool {
    rows == 0 || (rows == 1 && row_bytes <= len) || (stride >= 0 && (rows - 1) * stride + row_bytes <= len)
}

/// The packed `width` x `rows` plane read from `src` with `stride`-byte rows.
pub open spec fn packed_plane(src: Seq<u8>, stride: int, width: int, rows: int) -> Seq<u8> {
    Seq::new((width * rows) as nat, |i: int| src[(i / width) * stride + i % width])
}

fn copy_rows_packed(src: &[u8], stride: i32, width: usize, rows: usize) -> (r: Vec<u8>)
    requires
        width * rows <= usize::MAX,
        plane_readable(src@.len() as int, stride, rows as int, width as int),
    ensures
        r@ == packed_plane(src@, stride as int, width as int, rows as int),
{
    let ghost expected = packed_plane(src@, stride as int, width as int, rows as int);
    let total = width * rows;
    let mut out: Vec<u8> = vec![0u8; total];
    let mut row: usize = 0;
    while row < rows
        invariant
            row <= rows,
            total == width * rows,
            out@.len() == total,
            src@.len() == src.len(),
            plane_readable(src@.len() as int, stride, rows as int, width as int),
            expected == packed_plane(src@, stride as int, width as int, rows as int),
            forall|i: int| 0 <= i < row * width ==> #[trigger] out@[i] == expected[i],
        decreases rows - row,
    {
        assert(row * width + width <= total) by (nonlinear_arith)
            requires row < rows, total == width * rows;
        let base = row * width;
        proof {
            if row > 0 {
                assert(stride >= 0 && (rows - 1) * stride + width <= src@.len());
                assert(row * stride <= (rows - 1) * stride) by (nonlinear_arith)
                    requires row <= rows - 1, stride >= 0;
            }
        }
        let src_start: usize = if row == 0 { 0 } else { row * (stride as usize) };
        assert(src_start == row * stride);
        let mut col: usize = 0;
        while col < width
            invariant
                row < rows,
                col <= width,
                base == row * width,
                base + width <= total,
                src_start == row * stride,
                src_start + width <= src.len(),
                out@.len() == total,
                expected == packed_plane(src@, stride as int, width as int, rows as int),
                total == width * rows,
                forall|i: int| 0 <= i < base + col ==> #[trigger] out@[i] == expected[i],
            decreases width - col,
        {
            proof {
                crate::bytes::lemma_row_index(row as int, col as int, width as int);
            }
            out.set(base + col, src[src_start + col]);
            col = col + 1;
        }
        assert((row + 1) * width == base + width) by (nonlinear_arith)
            requires base == row * width;
        row = row + 1;
    }
    assert(row * width == total) by (nonlinear_arith)
        requires row == rows, total == width * rows;
    assert(out@ =~= expected);
    out
}

proof fn lemma_clear_low_bit(n: i32)
    requires
        n >= 0,
    ensures
        (n & !1i32) == even_floor(n as int),
        (n & !1i32) >= 0,
{
    assert((n & !1i32) == n - n % 2 && (n & !1i32) >= 0) by (bit_vector)
        requires n >= 0;
}

/// Copies the Y / U / V planes of a decoded I420 buffer, row by row past the strides, into
/// a display frame. The sides are rounded down to even numbers, since SDL's I420 textures
/// take no odd sides.
pub fn extract_display_frame(buf: &I420Planes) -> (r: DisplayFrame)
    requires
        buf.width >= 0,
        buf.height >= 0,
        even_floor(buf.width as int) * even_floor(buf.height as int) <= usize::MAX,
        plane_readable(buf.y_data@.len() as int, buf.stride_y, even_floor(buf.height as int), even_floor(buf.width as int)),
        plane_readable(buf.u_data@.len() as int, buf.stride_u, even_floor(buf.height as int) / 2, even_floor(buf.width as int) / 2),
        plane_readable(buf.v_data@.len() as int, buf.stride_v, even_floor(buf.height as int) / 2, even_floor(buf.width as int) / 2),
    ensures
        r.width == even_floor(buf.width as int),
        r.height == even_floor(buf.height as int),
        r.y@ == packed_plane(buf.y_data@, buf.stride_y as int, r.width as int, r.height as int),
        r.u@ == packed_plane(buf.u_data@, buf.stride_u as int, r.width / 2, r.height / 2),
        r.v@ == packed_plane(buf.v_data@, buf.stride_v as int, r.width / 2, r.height / 2),
{
    proof {
        lemma_clear_low_bit(buf.width);
        lemma_clear_low_bit(buf.height);
    }
    let width = buf.width & !1;
    let height = buf.height & !1;
    let chroma_w = width / 2;
    let chroma_h = height / 2;
    assert((chroma_w as int) * (chroma_h as int) <= (width as int) * (height as int)) by (nonlinear_arith)
        requires 0 <= chroma_w <= width, 0 <= chroma_h <= height;
    let y = copy_rows_packed(buf.y_data, buf.stride_y, width as usize, height as usize);
    let u = copy_rows_packed(buf.u_data, buf.stride_u, chroma_w as usize, chroma_h as usize);
    let v = copy_rows_packed(buf.v_data, buf.stride_v, chroma_w as usize, chroma_h as usize);
    DisplayFrame { y, u, v, width, height }
}

// ─── Tracks on display ──────────────────────────────────────────────────────

/// An operation sent to the display window; `R` receives the track's frames.
pub enum DisplayCommand<R> {
    /// A video track to show; its frames arrive through `rx`.
    AddTrack { id: String, rx: R },
    /// A video track to stop showing.
    RemoveTrack { id: String },
}

/// One cell of the grid: a track, the receiver of its frames, its latest frame and the
/// texture (`T`) it is drawn with.
pub struct Cell<R, T> {
    pub id: String,
    pub rx: R,
    pub latest: Option<DisplayFrame>,
    pub texture: Option<T>,
}

/// The track ids of the cells, in order.
pub open spec fn cell_ids<R, T>(cells: Seq<Cell<R, T>>) -> Seq<Seq<char>> {
    cells.map_values(|c: Cell<R, T>| c.id@)
}

/// The index of the first cell showing track `id`.
pub open spec fn cell_position<R, T>(cells: Seq<Cell<R, T>>, id: Seq<char>) -> Option<int>
    decreases cells.len(),
{
    if cells.len() == 0 {
        None
    } else {
        match cell_position(cells.drop_last(), id) {
            Some(i) => Some(i),
            None => if cells.last().id@ == id { Some(cells.len() - 1) } else { None },
        }
    }
}

/// The cells without the first one showing track `id`.
pub open spec fn without_track<R, T>(cells: Seq<Cell<R, T>>, id: Seq<char>) -> Seq<Cell<R, T>> {
    match cell_position(cells, id) {
        Some(i) => cells.remove(i),
        None => cells,
    }
}

/// The cells after a command: a track added again (after a renegotiation) replaces its
/// cell, and goes last with no frame and no texture yet; a removed track loses its cell.
pub open spec fn cells_after<R, T>(cells: Seq<Cell<R, T>>, cmd: DisplayCommand<R>) -> Seq<Cell<R, T>> {
    match cmd {
        DisplayCommand::AddTrack { id, rx } =>
            without_track(cells, id@).push(Cell { id, rx, latest: None, texture: None }),
        DisplayCommand::RemoveTrack { id } => without_track(cells, id@),
    }
}

proof fn lemma_cell_position_prefix<R, T>(cells: Seq<Cell<R, T>>, id: Seq<char>, k: nat)
    requires
        k <= cells.len(),
        cell_position(cells.take(k as int), id) is Some,
    ensures
        cell_position(cells, id) == cell_position(cells.take(k as int), id),
    decreases cells.len() - k,
{
    if k < cells.len() {
        assert(cells.take((k + 1) as int).drop_last() =~= cells.take(k as int));
        lemma_cell_position_prefix(cells, id, k + 1);
    } else {
        assert(cells.take(k as int) =~= cells);
    }
}

proof fn lemma_cell_position_bounds<R, T>(cells: Seq<Cell<R, T>>, id: Seq<char>)
    ensures
        cell_position(cells, id) matches Some(i) ==> 0 <= i < cells.len() && cells[i].id@ == id,
        cell_position(cells, id) is None ==> forall|j: int| 0 <= j < cells.len() ==> cells[j].id@ != id,
    decreases cells.len(),
{
    if cells.len() > 0 {
        lemma_cell_position_bounds(cells.drop_last(), id);
        assert forall|j: int| 0 <= j < cells.len() - 1 implies cells.drop_last()[j] == cells[j] by {}
    }
}

fn track_position<R, T>(cells: &Vec<Cell<R, T>>, id: &str) -> (r: Option<usize>)
    ensures
        match cell_position(cells@, id@) {
            Some(i) => 0 <= i < cells@.len() && r == Some(i as usize),
            None => r is None,
        },
{
    let mut i: usize = 0;
    while i < cells.len()
        invariant
            i <= cells@.len(),
            cell_position(cells@.take(i as int), id@) is None,
        decreases cells@.len() - i,
    {
        proof {
            assert(cells@.take((i + 1) as int).drop_last() =~= cells@.take(i as int));
        }
        if str_eq(cells[i].id.as_str(), id) {
            proof {
                lemma_cell_position_prefix(cells@, id@, (i + 1) as nat);
            }
            return Some(i);
        }
        i = i + 1;
    }
    assert(cells@.take(i as int) =~= cells@);
    None
}

/// Applies a track command to the cells of the grid.
pub fn handle_display_command<R, T>(cells: &mut Vec<Cell<R, T>>, cmd: DisplayCommand<R>)
    ensures
        final(cells)@ == cells_after(old(cells)@, cmd),
{
    let ghost command = cmd;
    match cmd {
        DisplayCommand::AddTrack { id, rx } => {
            if let Some(index) = track_position(cells, id.as_str()) {
                cells.remove(index);
            }
            cells.push(Cell { id, rx, latest: None, texture: None });
        },
        DisplayCommand::RemoveTrack { id } => {
            if let Some(index) = track_position(cells, id.as_str()) {
                cells.remove(index);
            }
        },
    }
}

// ─── Window events ──────────────────────────────────────────────────────────

/// An event of the display window.
#[derive(Debug, Clone, Copy, PartialEq, Eq, Structural)]
pub enum WindowEvent {
    Quit,
    KeyDown { keycode: u32 },
    KeyUp { keycode: u32 },
    WindowResized { width: i32, height: i32 },
    WindowClose,
    Other,
}

/// Whether an event asks to end the display: quitting, closing the window, or pressing
/// the key `escape_keycode`.
pub open spec fn requests_close(event: WindowEvent, escape_keycode: u32) -> bool {
    match event {
        WindowEvent::Quit | WindowEvent::WindowClose => true,
        WindowEvent::KeyDown { keycode } => keycode == escape_keycode,
        _ => false,
    }
}

/// Whether any of the pending window events asks to end the display.
pub fn window_close_requested(events: &[WindowEvent], escape_keycode: u32) -> (r: bool)
    ensures
        r == exists|i: int| 0 <= i < events@.len() && requests_close(#[trigger] events@[i], escape_keycode),
{
    let mut close = false;
    let mut i: usize = 0;
    while i < events.len()
        invariant
            i <= events@.len(),
            close == exists|j: int| 0 <= j < i && requests_close(#[trigger] events@[j], escape_keycode),
        decreases events@.len() - i,
    {
        let event = events[i];
        match event {
            WindowEvent::Quit | WindowEvent::WindowClose => close = true,
            WindowEvent::KeyDown { keycode } => {
                if keycode == escape_keycode {
                    close = true;
                }
            },
            _ => {},
        }
        proof {
            if requests_close(events@[i as int], escape_keycode) {
                assert(close);
            }
        }
        i = i + 1;
    }
    close
}

/// Whether no track id occurs twice.
pub open spec fn distinct_ids(ids: Seq<Seq<char>>) -> bool {
    forall|i: int, j: int| 0 <= i < j < ids.len() ==> ids[i] != ids[j]
}

/// Each track has at most one cell, whatever the commands: when the cells show distinct
/// tracks, they still do after any command; an added track is then shown exactly once
/// (last), and a removed track no longer.
pub proof fn lemma_tracks_stay_distinct<R, T>(cells: Seq<Cell<R, T>>, cmd: DisplayCommand<R>)
    requires
        distinct_ids(cell_ids(cells)),
    ensures
        distinct_ids(cell_ids(cells_after(cells, cmd))),
        match cmd {
            DisplayCommand::AddTrack { id, rx } => {
                let after = cell_ids(cells_after(cells, cmd));
                &&& after.last() == id@
                &&& forall|j: int| 0 <= j < after.len() - 1 ==> after[j] != id@
            },
            DisplayCommand::RemoveTrack { id } => !cell_ids(cells_after(cells, cmd)).contains(id@),
        },
{
    let id = match cmd {
        DisplayCommand::AddTrack { id, rx } => id,
        DisplayCommand::RemoveTrack { id } => id,
    };
    lemma_cell_position_bounds(cells, id@);
    let rest = without_track(cells, id@);
    assert(forall|j: int| 0 <= j < rest.len() ==> rest[j].id@ != id@) by {
        match cell_position(cells, id@) {
            Some(i) => {
                assert forall|j: int| 0 <= j < rest.len() implies rest[j].id@ != id@ by {
                    if j < i {
                        assert(rest[j] == cells[j]);
                        assert(cell_ids(cells)[j] != cell_ids(cells)[i]);
                    } else {
                        assert(rest[j] == cells[j + 1]);
                        assert(cell_ids(cells)[i] != cell_ids(cells)[j + 1]);
                    }
                }
            },
            None => {},
        }
    }
    assert(distinct_ids(cell_ids(rest))) by {
        match cell_position(cells, id@) {
            Some(i) => {
                assert forall|a: int, b: int| 0 <= a < b < rest.len() implies cell_ids(rest)[a] != cell_ids(rest)[b] by {
                    let a2 = if a < i { a } else { a + 1 };
                    let b2 = if b < i { b } else { b + 1 };
                    assert(rest[a] == cells[a2]);
                    assert(rest[b] == cells[b2]);
                    assert(cell_ids(cells)[a2] != cell_ids(cells)[b2]);
                }
            },
            None => {},
        }
    }
    match cmd {
        DisplayCommand::AddTrack { id, rx } => {
            let after = cells_after(cells, cmd);
            assert(after == rest.push(Cell { id, rx, latest: None, texture: None }));
            assert forall|a: int, b: int| 0 <= a < b < after.len() implies cell_ids(after)[a] != cell_ids(after)[b] by {
                if b == after.len() - 1 {
                    assert(after[a] == rest[a]);
                } else {
                    assert(after[a] == rest[a] && after[b] == rest[b]);
                    assert(cell_ids(rest)[a] != cell_ids(rest)[b]);
                }
            }
            assert forall|j: int| 0 <= j < cell_ids(after).len() - 1 implies cell_ids(after)[j] != id@ by {
                assert(after[j] == rest[j]);
            }
        },
        DisplayCommand::RemoveTrack { id } => {
            if cell_ids(rest).contains(id@) {
                let j = choose|j: int| 0 <= j < cell_ids(rest).len() && cell_ids(rest)[j] == id@;
                assert(rest[j].id@ == id@);
            }
        },
    }
}

} // verus!
