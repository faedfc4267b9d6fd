use vstd::prelude::*;

verus! {

/// A tightly packed RGBA8 raster: `width * height` pixels of four bytes,
/// row by row.
#[derive(Debug)]
pub struct Rgba8Canvas {
    pub width: usize,
    pub height: usize,
    pub data: Vec<u8>,
}

/// Bytes per pixel.
pub const CHANNELS: usize = 4;

/// Where byte `j` of row `r` of a `sw`-wide image placed at `(x, y)` lands in
/// a canvas `w` pixels wide.
pub open spec fn dst_index(w: int, x: int, y: int, r: int, j: int) -> int {
    ((y + r) * w + x) * 4 + j
}

/// Byte `j` of row `r` of an image `sw` pixels wide.
pub open spec fn src_index(sw: int, r: int, j: int) -> int {
    r * sw * 4 + j
}

/// Whether byte `i` of a `w`-wide canvas lies in one of the first `rows` rows
/// of an `sw`-wide image placed at `(x, y)`.
pub open spec fn covered(w: int, x: int, y: int, sw: int, rows: int, i: int) -> bool {
    exists|r: int| 0 <= r < rows && #[trigger] dst_index(w, x, y, r, 0) <= i < dst_index(w, x, y, r, 0) + sw * 4
}

impl Rgba8Canvas {
    /// The pixel buffer holds exactly `width * height` pixels.
    pub open spec fn wf(&self) -> bool {
        self.data@.len() == self.width * self.height * 4
    }

    /// A canvas of `width * height` transparent black pixels.
    pub fn new(width: usize, height: usize) -> (r: Rgba8Canvas)
        requires
            width * height * 4 <= usize::MAX,
        ensures
            r.wf(),
            r.width == width,
            r.height == height,
            forall|i: int| 0 <= i < r.data@.len() ==> r.data@[i] == 0,
    {
        let n = width * height * CHANNELS;
        let data = vec![0u8; n];
        Rgba8Canvas { width, height, data }
    }

    /// A canvas over the pixel bytes `data`.
    pub fn from_vec(width: usize, height: usize, data: Vec<u8>) -> (r: Rgba8Canvas)
        requires
            data@.len() == width * height * 4,
        ensures
            r.wf(),
            r.width == width,
            r.height == height,
            r.data@ == data@,
    {
        Rgba8Canvas { width, height, data }
    }

    /// Copies `src` into this canvas with its top-left pixel at `(x, y)`.
    ///
    /// Each byte of `src` lands at its place; every byte outside the copied
    /// rectangle keeps its value.
    pub fn replace(&mut self, src: &Rgba8Canvas, x: usize, y: usize)
        requires
            old(self).wf(),
            src.wf(),
            x + src.width <= old(self).width,
            y + src.height <= old(self).height,
        ensures
            final(self).wf(),
            final(self).width == old(self).width,
            final(self).height == old(self).height,
            forall|r: int, j: int|
                0 <= r < src.height && 0 <= j < src.width * 4 ==> final(self).data@[#[trigger] dst_index(
                    old(self).width as int,
                    x as int,
                    y as int,
                    r,
                    j,
                )] == src.data@[src_index(src.width as int, r, j)],
            forall|i: int|
                0 <= i < old(self).data@.len() && !covered(
                    old(self).width as int,
                    x as int,
                    y as int,
                    src.width as int,
                    src.height as int,
                    i,
                ) ==> #[trigger] final(self).data@[i] == old(self).data@[i],
    {
        let ghost before = self.data@;
        let w = self.width;
        let sw = src.width;
        let sh = src.height;
        let n = self.data.len();
        let sn = src.data.len();
        let mut r: usize = 0;
        while r < sh
            invariant
                self.wf(),
                self.width == w,
                self.height == old(self).height,
                self.data@.len() == before.len(),
                before == old(self).data@,
                w == old(self).width,
                sw == src.width,
                sh == src.height,
                n == before.len(),
                sn == src.data@.len(),
                src.wf(),
                x + sw <= w,
                y + sh <= self.height,
                r <= sh,
                forall|rr: int, j: int|
                    0 <= rr < r && 0 <= j < sw * 4 ==> self.data@[#[trigger] dst_index(
                        w as int,
                        x as int,
                        y as int,
                        rr,
                        j,
                    )] == src.data@[src_index(sw as int, rr, j)],
                forall|i: int|
                    0 <= i < before.len() && !covered(w as int, x as int, y as int, sw as int, r as int, i)
                        ==> #[trigger] self.data@[i] == before[i],
            decreases sh - r,
        {
            proof {
                lemma_row_fits(w as int, self.height as int, x as int, y as int, sw as int, r as int);
                lemma_src_row_fits(sw as int, sh as int, r as int);
            }
            let row_bytes = sw * CHANNELS;
            let base = ((y + r) * w + x) * CHANNELS;
            let sbase = r * row_bytes;
            let mut j: usize = 0;
            while j < row_bytes
                invariant
                    self.wf(),
                    self.width == w,
                    self.height == old(self).height,
                    self.data@.len() == before.len(),
                    before == old(self).data@,
                    w == old(self).width,
                    sw == src.width,
                    sh == src.height,
                    row_bytes == sw * 4,
                    n == before.len(),
                    sn == src.data@.len(),
                    src.wf(),
                    x + sw <= w,
                    y + sh <= self.height,
                    r < sh,
                    j <= row_bytes,
                    base == dst_index(w as int, x as int, y as int, r as int, 0),
                    sbase == src_index(sw as int, r as int, 0),
                    base + row_bytes <= before.len(),
                    sbase + row_bytes <= src.data@.len(),
                    forall|rr: int, jj: int|
                        0 <= rr < r && 0 <= jj < sw * 4 ==> self.data@[#[trigger] dst_index(
                            w as int,
                            x as int,
                            y as int,
                            rr,
                            jj,
                        )] == src.data@[src_index(sw as int, rr, jj)],
                    forall|jj: int|
                        0 <= jj < j ==> self.data@[#[trigger] dst_index(
                            w as int,
                            x as int,
                            y as int,
                            r as int,
                            jj,
                        )] == src.data@[src_index(sw as int, r as int, jj)],
                    forall|i: int|
                        0 <= i < before.len() && !covered(w as int, x as int, y as int, sw as int, r as int, i)
                            && !(base <= i < base + j) ==> #[trigger] self.data@[i] == before[i],
                decreases row_bytes - j,
            {
                let ghost prev = self.data@;
                let b = src.data[sbase + j];
                self.data.set(base + j, b);
                proof {
                    assert(dst_index(w as int, x as int, y as int, r as int, j as int) == base + j);
                    assert forall|rr: int, jj: int| 0 <= rr < r && 0 <= jj < sw * 4 implies
                        self.data@[#[trigger] dst_index(w as int, x as int, y as int, rr, jj)]
                            == src.data@[src_index(sw as int, rr, jj)] by {
                        lemma_rows_apart(w as int, x as int, y as int, sw as int, rr, r as int, jj, j as int);
                        assert(prev[dst_index(w as int, x as int, y as int, rr, jj)]
                            == src.data@[src_index(sw as int, rr, jj)]);
                    }
                }
                j = j + 1;
            }
            proof {
                assert forall|jj: int| 0 <= jj < sw * 4 implies self.data@[#[trigger] dst_index(
                    w as int,
                    x as int,
                    y as int,
                    r as int,
                    jj,
                )] == src.data@[src_index(sw as int, r as int, jj)] by {
                    assert(dst_index(w as int, x as int, y as int, r as int, jj) == base + jj);
                    assert(src_index(sw as int, r as int, jj) == sbase + jj);
                }
                assert forall|i: int|
                    0 <= i < before.len() && !covered(w as int, x as int, y as int, sw as int, r + 1, i)
                        implies #[trigger] self.data@[i] == before[i] by {
                    if covered(w as int, x as int, y as int, sw as int, r as int, i) {
                        let rr = choose|rr: int| 0 <= rr < r && #[trigger] dst_index(w as int, x as int, y as int, rr, 0) <= i < dst_index(w as int, x as int, y as int, rr, 0) + sw * 4;
                        assert(dst_index(w as int, x as int, y as int, rr, 0) <= i);
                        assert(covered(w as int, x as int, y as int, sw as int, r + 1, i));
                    }
                    if base <= i < base + row_bytes {
                        assert(dst_index(w as int, x as int, y as int, r as int, 0) == base);
                        assert(covered(w as int, x as int, y as int, sw as int, r + 1, i));
                    }
                }
            }
            r = r + 1;
        }
    }
}

/// Row `r` of the placed image lies inside the canvas.
proof fn lemma_row_fits(w: int, h: int, x: int, y: int, sw: int, r: int)
    requires
        0 <= x,
        0 <= y,
        0 <= sw,
        0 <= r,
        x + sw <= w,
        y + r < h,
    ensures
        0 <= dst_index(w, x, y, r, 0),
        dst_index(w, x, y, r, 0) + sw * 4 <= w * h * 4,
        ((y + r) * w + x) * 4 == dst_index(w, x, y, r, 0),
        0 <= (y + r) * w <= (y + r) * w + x,
        ((y + r) * w + x) * 4 <= w * h * 4,
{
    assert((y + r) * w + x + sw <= w * h) by (nonlinear_arith)
        requires x + sw <= w, y + r < h, 0 <= x, 0 <= y, 0 <= r, 0 <= sw;
    assert(0 <= (y + r) * w) by (nonlinear_arith)
        requires 0 <= y, 0 <= r, x + sw <= w, 0 <= x, 0 <= sw;
}

/// Row `r` of a `sw`-wide, `sh`-high image lies inside its buffer.
proof fn lemma_src_row_fits(sw: int, sh: int, r: int)
    requires
        0 <= sw,
        0 <= r < sh,
    ensures
        0 <= src_index(sw, r, 0),
        src_index(sw, r, 0) + sw * 4 <= sw * sh * 4,
        r * (sw * 4) == src_index(sw, r, 0),
        sw * 4 <= sw * sh * 4,
{
    assert(r * sw * 4 + sw * 4 <= sw * sh * 4) by (nonlinear_arith)
        requires 0 <= sw, 0 <= r < sh;
    assert(0 <= r * sw * 4) by (nonlinear_arith)
        requires 0 <= sw, 0 <= r;
    assert(r * (sw * 4) == r * sw * 4) by (nonlinear_arith);
    assert(sw * 4 <= sw * sh * 4) by (nonlinear_arith)
        requires 0 <= sw, 0 <= r < sh;
}

/// Bytes of two different rows of the placed image never meet.
proof fn lemma_rows_apart(w: int, x: int, y: int, sw: int, r1: int, r2: int, j1: int, j2: int)
    requires
        0 <= r1 < r2,
        0 <= j1 < sw * 4,
        0 <= j2,
        x + sw <= w,
        0 <= x,
    ensures
        dst_index(w, x, y, r1, j1) < dst_index(w, x, y, r2, j2),
{
    assert(((y + r1) * w + x) * 4 + j1 < ((y + r2) * w + x) * 4 + j2) by (nonlinear_arith)
        requires 0 <= r1 < r2, 0 <= j1 < sw * 4, 0 <= j2, x + sw <= w, 0 <= x;
}

} // verus!
