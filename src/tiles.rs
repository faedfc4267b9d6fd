use vstd::prelude::*;

use crate::canvas::{covered, dst_index, src_index, Rgba8Canvas, CHANNELS};
use crate::geometry::{spec_tile_position, tile_position};
use crate::ns_archive::NsArchiveError;
use crate::silica::SilicaLayer;
use crate::text::starts_with;
use crate::tiling::TilingMeta;

verus! {

/// What LZO decompression of `src` into a buffer of `capacity` bytes
/// writes: the output bytes, or `None` when the stream is corrupt or does not
/// fit.
pub uninterp spec fn lzo_decompressed(src: Seq<u8>, capacity: nat) -> Option<Seq<u8>>;

/// Relies on `lzokay::decompress::decompress`: it writes the decompressed
/// bytes at the start of `dst`, returns their count, and fails on a corrupt
/// stream or when the output would not fit; `dst` keeps its length.
#[verifier::external_body]
fn lzo_decompress(src: &[u8], dst: &mut Vec<u8>) -> (r: Option<usize>)
    ensures
        final(dst)@.len() == old(dst)@.len(),
        match r {
            Some(n) => n <= old(dst)@.len() && lzo_decompressed(src@, old(dst)@.len() as nat) == Some(
                final(dst)@.subrange(0, n as int),
            ),
            None => lzo_decompressed(src@, old(dst)@.len() as nat).is_none(),
        },
{
    lzokay::decompress::decompress(src, dst.as_mut_slice()).ok()
}

/// Whether `src` decompresses to exactly `len` bytes.
pub open spec fn lzo_fills(src: Seq<u8>, len: nat) -> bool {
    match lzo_decompressed(src, len) {
        Some(s) => s.len() == len,
        None => false,
    }
}

/// Decompresses a tile that must fill exactly `len` bytes.
pub fn decompress_tile(src: &[u8], len: usize) -> (r: Result<Vec<u8>, NsArchiveError>)
    ensures
        match r {
            Ok(v) => v@.len() == len && lzo_decompressed(src@, len as nat) == Some(v@),
            Err(e) => e == NsArchiveError::Decompress && !lzo_fills(src@, len as nat),
        },
{
    let mut dst = vec![0u8; len];
    match lzo_decompress(src, &mut dst) {
        Some(n) => {
            if n == len {
                assert(dst@.subrange(0, n as int) =~= dst@);
                Ok(dst)
            } else {
                Err(NsArchiveError::Decompress)
            }
        },
        None => Err(NsArchiveError::Decompress),
    }
}

/// Whether a canvas of `w * h` pixels can be held in memory.
pub open spec fn canvas_fits(w: u32, h: u32) -> bool {
    w * h * 4 <= usize::MAX
}

/// Why the container member `name` with bytes `data` cannot be a tile of the
/// layer `uuid`, whose canvas is `w * h` pixels, on the grid `meta`; `None`
/// when it can, or when it belongs to another layer.
///
/// A malformed name is `TypeMismatch`; a position outside the grid, or a tile
/// that would reach past the canvas, is `BadIndex`; a stream that does not
/// decompress to exactly the tile's bytes is `Decompress`.
pub open spec fn tile_error(
    uuid: Seq<char>,
    w: u32,
    h: u32,
    meta: TilingMeta,
    name: Seq<char>,
    data: Seq<u8>,
) -> Option<NsArchiveError> {
    match spec_tile_position(uuid, name) {
        None => None,
        Some(None) => Some(NsArchiveError::TypeMismatch),
        Some(Some((c, r))) => if !(c < meta.columns && r < meta.rows) {
            Some(NsArchiveError::BadIndex)
        } else {
            let tw = meta.spec_tile_width(c);
            let th = meta.spec_tile_height(r);
            if c * meta.tile_size + tw > w || r * meta.tile_size + th > h {
                Some(NsArchiveError::BadIndex)
            } else {
                match lzo_decompressed(data, (tw * th * 4) as nat) {
                    Some(s) => if s.len() == tw * th * 4 {
                        None
                    } else {
                        Some(NsArchiveError::Decompress)
                    },
                    None => Some(NsArchiveError::Decompress),
                }
            }
        },
    }
}

/// The error of the first member that cannot be a tile, in order.
pub open spec fn first_tile_error(
    uuid: Seq<char>,
    w: u32,
    h: u32,
    meta: TilingMeta,
    members: Seq<(String, Vec<u8>)>,
) -> Option<NsArchiveError>
    decreases members.len(),
{
    if members.len() == 0 {
        None
    } else {
        match first_tile_error(uuid, w, h, meta, members.drop_last()) {
            Some(e) => Some(e),
            None => tile_error(uuid, w, h, meta, members.last().0@, members.last().1@),
        }
    }
}

/// The grid position of a member that is a well-named tile of layer `uuid`.
pub open spec fn tile_pos(uuid: Seq<char>, name: Seq<char>) -> Option<(u32, u32)> {
    match spec_tile_position(uuid, name) {
        Some(Some(p)) => Some(p),
        _ => None,
    }
}

/// No member after the `k`-th, up to the `n`-th, is a tile at the same place.
pub open spec fn last_at(uuid: Seq<char>, members: Seq<(String, Vec<u8>)>, k: int, n: int) -> bool {
    forall|k2: int| k < k2 < n ==> tile_pos(uuid, #[trigger] members[k2].0@) != tile_pos(uuid, members[k].0@)
}

/// Byte `j` of row `rr` of the tile that `member` holds, if it is a tile of
/// layer `uuid`, appears in the canvas bytes `data` (`w` pixels wide) where
/// the grid `meta` puts it.
pub open spec fn tile_byte_placed(
    uuid: Seq<char>,
    w: u32,
    meta: TilingMeta,
    data: Seq<u8>,
    member: (String, Vec<u8>),
    rr: int,
    j: int,
) -> bool {
    match tile_pos(uuid, member.0@) {
        Some((c, r)) => {
            let tw = meta.spec_tile_width(c);
            let th = meta.spec_tile_height(r);
            (0 <= rr < th && 0 <= j < tw * 4) ==> match lzo_decompressed(member.1@, (tw * th * 4) as nat) {
                Some(bytes) => data[dst_index(w as int, c * meta.tile_size, r * meta.tile_size, rr, j)]
                    == bytes[src_index(tw, rr, j)],
                None => true,
            }
        },
        None => true,
    }
}

/// A byte of a tile that fits the canvas lies inside the canvas.
proof fn lemma_tile_byte_inside(w: int, h: int, t: int, c: int, r: int, tw: int, th: int, rr: int, j: int)
    requires
        t >= 1,
        0 <= c,
        0 <= r,
        0 <= tw,
        0 <= th,
        c * t + tw <= w,
        r * t + th <= h,
        0 <= rr < th,
        0 <= j < tw * 4,
    ensures
        0 <= dst_index(w, c * t, r * t, rr, j) < w * h * 4,
{
    assert(0 <= c * t && 0 <= r * t) by (nonlinear_arith)
        requires 0 <= c, 0 <= r, t >= 1;
    assert(((r * t + rr) * w + c * t) * 4 + j < w * h * 4) by (nonlinear_arith)
        requires c * t + tw <= w, r * t + th <= h, 0 <= rr < th, 0 <= j < tw * 4, 0 <= c * t, 0 <= r * t;
    assert(0 <= ((r * t + rr) * w + c * t) * 4 + j) by (nonlinear_arith)
        requires c * t + tw <= w, 0 <= rr, 0 <= j, 0 <= c * t, 0 <= r * t, 0 <= tw;
}

/// Whether byte `idx` of a canvas `w` pixels wide lies in the window of the
/// tile that `member` holds, if it is a tile of layer `uuid` on grid `meta`.
pub open spec fn in_tile_window(uuid: Seq<char>, w: u32, meta: TilingMeta, member: (String, Vec<u8>), idx: int) -> bool {
    match tile_pos(uuid, member.0@) {
        Some((c, r)) => covered(
            w as int,
            c * meta.tile_size,
            r * meta.tile_size,
            meta.spec_tile_width(c),
            meta.spec_tile_height(r),
            idx,
        ),
        None => false,
    }
}

/// Bytes of tiles at different grid places never meet.
proof fn lemma_tiles_apart(w: int, t: int, c: int, r: int, tw: int, th: int, rr: int, j: int, c2: int, r2: int, tw2: int, th2: int)
    requires
        t >= 1,
        0 <= c,
        0 <= r,
        0 <= c2,
        0 <= r2,
        0 <= tw <= t,
        0 <= th <= t,
        0 <= tw2 <= t,
        0 <= th2 <= t,
        c * t + tw <= w,
        c2 * t + tw2 <= w,
        0 <= rr < th,
        0 <= j < tw * 4,
        c != c2 || r != r2,
    ensures
        !covered(w, c2 * t, r2 * t, tw2, th2, dst_index(w, c * t, r * t, rr, j)),
{
    let a = dst_index(w, c * t, r * t, rr, j);
    if covered(w, c2 * t, r2 * t, tw2, th2, a) {
        let rr2 = choose|rr2: int| 0 <= rr2 < th2 && #[trigger] dst_index(w, c2 * t, r2 * t, rr2, 0) <= a
            < dst_index(w, c2 * t, r2 * t, rr2, 0) + tw2 * 4;
        let s = 4 * w;
        let py = r * t + rr;
        let py2 = r2 * t + rr2;
        let x = 4 * (c * t) + j;
        let x2 = 4 * (c2 * t);
        assert(a == py * s + x) by (nonlinear_arith)
            requires a == dst_index(w, c * t, r * t, rr, j), s == 4 * w, py == r * t + rr, x == 4 * (c * t) + j;
        assert(dst_index(w, c2 * t, r2 * t, rr2, 0) == py2 * s + x2) by (nonlinear_arith)
            requires s == 4 * w, py2 == r2 * t + rr2, x2 == 4 * (c2 * t);
        assert(0 <= x < s) by (nonlinear_arith)
            requires x == 4 * (c * t) + j, 0 <= j < tw * 4, c * t + tw <= w, s == 4 * w, c >= 0, t >= 1;
        assert(0 <= x2 && x2 + tw2 * 4 <= s) by (nonlinear_arith)
            requires x2 == 4 * (c2 * t), c2 * t + tw2 <= w, s == 4 * w, c2 >= 0, t >= 1;
        assert(py2 * s + x2 <= py * s + x < py2 * s + x2 + tw2 * 4);
        if py < py2 {
            assert(py * s + x < py2 * s) by (nonlinear_arith)
                requires py < py2, 0 <= x < s;
        } else if py > py2 {
            assert(py * s + x >= py2 * s + s) by (nonlinear_arith)
                requires py > py2, 0 <= x, s >= 0;
        }
        assert(py == py2);
        if c < c2 {
            assert(x < x2) by (nonlinear_arith)
                requires x == 4 * (c * t) + j, x2 == 4 * (c2 * t), c < c2, j < tw * 4, tw <= t, t >= 1;
        } else if c > c2 {
            assert(x >= x2 + tw2 * 4) by (nonlinear_arith)
                requires x == 4 * (c * t) + j, x2 == 4 * (c2 * t), c > c2, j >= 0, tw2 <= t, t >= 1;
        }
        assert(c == c2);
        if r < r2 {
            assert(r * t + t <= r2 * t) by (nonlinear_arith)
                requires r < r2, t >= 1;
        } else if r > r2 {
            assert(r2 * t + t <= r * t) by (nonlinear_arith)
                requires r > r2, t >= 1;
        }
    }
}

impl SilicaLayer {
    /// Whether the container member `name` holds a tile of this layer.
    pub fn owns_member(&self, name: &str) -> (r: bool)
        ensures
            r == spec_tile_position(self.uuid@, name@).is_some(),
    {
        starts_with(name, self.uuid.as_str())
    }

    /// Assembles this layer's raster from the container members `members`
    /// (name and compressed bytes), on the document's tile grid `meta`.
    ///
    /// Members of other layers are passed over. On success the layer holds a
    /// `size_width * size_height` raster; on failure it is left as it was.
    pub fn load_image(&mut self, meta: &TilingMeta, members: &Vec<(String, Vec<u8>)>) -> (r: Result<
        (),
        NsArchiveError,
    >)
        requires
            meta.diff.width <= meta.tile_size,
            meta.diff.height <= meta.tile_size,
        ensures
            final(self).model() == old(self).model(),
            final(self).mask == old(self).mask,
            r is Ok ==> forall|idx: int|
                0 <= idx < final(self).image->Some_0.data@.len() && (forall|k: int| 0 <= k < members@.len() ==> !#[trigger] in_tile_window(
                    old(self).uuid@,
                    old(self).size_width,
                    *meta,
                    members@[k],
                    idx,
                )) ==> #[trigger] final(self).image->Some_0.data@[idx] == 0,
            r is Ok ==> forall|k: int, rr: int, j: int|
                0 <= k < members@.len() && last_at(old(self).uuid@, members@, k, members@.len() as int)
                    ==> #[trigger] tile_byte_placed(
                    old(self).uuid@,
                    old(self).size_width,
                    *meta,
                    final(self).image->Some_0.data@,
                    members@[k],
                    rr,
                    j,
                ),
            match r {
                Ok(()) => canvas_fits(old(self).size_width, old(self).size_height) && first_tile_error(
                    old(self).uuid@,
                    old(self).size_width,
                    old(self).size_height,
                    *meta,
                    members@,
                ).is_none() && final(self).has_raster(),
                Err(e) => final(self).image == old(self).image && if canvas_fits(
                    old(self).size_width,
                    old(self).size_height,
                ) {
                    first_tile_error(
                        old(self).uuid@,
                        old(self).size_width,
                        old(self).size_height,
                        *meta,
                        members@,
                    ) == Some(e)
                } else {
                    e == NsArchiveError::TypeMismatch
                },
            },
    {
        let w = self.size_width as u64;
        let h = self.size_height as u64;
        assert(w * h <= u32::MAX as u64 * u32::MAX as u64) by (nonlinear_arith)
            requires w <= u32::MAX, h <= u32::MAX;
        let m = usize::MAX as u64 / 4;
        assert((w * h <= m) == (w * h * 4 <= usize::MAX)) by (nonlinear_arith)
            requires m == usize::MAX as u64 / 4, w >= 0, h >= 0;
        if w * h > m {
            return Err(NsArchiveError::TypeMismatch);
        }
        let mut canvas = Rgba8Canvas::new(w as usize, h as usize);
        let t = meta.tile_size as u64;
        let mut i: usize = 0;
        assert(members@.subrange(0, 0) =~= Seq::<(String, Vec<u8>)>::empty());
        while i < members.len()
            invariant
                i <= members@.len(),
                canvas.wf(),
                canvas.width == w,
                canvas.height == h,
                w == self.size_width,
                h == self.size_height,
                t == meta.tile_size,
                canvas_fits(self.size_width, self.size_height),
                meta.diff.width <= meta.tile_size,
                meta.diff.height <= meta.tile_size,
                first_tile_error(self.uuid@, self.size_width, self.size_height, *meta, members@.subrange(0, i as int)).is_none(),
                forall|k: int| 0 <= k < i ==> (#[trigger] tile_error(
                    self.uuid@,
                    self.size_width,
                    self.size_height,
                    *meta,
                    members@[k].0@,
                    members@[k].1@,
                )).is_none(),
                forall|idx: int| 0 <= idx < canvas.data@.len() && (forall|k: int| 0 <= k < i ==> !#[trigger] in_tile_window(self.uuid@, self.size_width, *meta, members@[k], idx))
                    ==> #[trigger] canvas.data@[idx] == 0,
                forall|k: int, rr: int, j: int| 0 <= k < i && last_at(self.uuid@, members@, k, i as int) ==>
                    #[trigger] tile_byte_placed(self.uuid@, self.size_width, *meta, canvas.data@, members@[k], rr, j),
            decreases members@.len() - i,
        {
            let ghost pre = members@.subrange(0, i as int);
            let ghost next = members@.subrange(0, i + 1);
            assert(next.drop_last() =~= pre);
            assert(next.last() == members@[i as int]);
            let name = members[i].0.as_str();
            let data = members[i].1.as_slice();
            let pos = match tile_position(self.uuid.as_str(), name) {
                Ok(p) => p,
                Err(e) => {
                    proof { lemma_first_error_stays(self.uuid@, self.size_width, self.size_height, *meta, members@, i + 1); }
                    return Err(e);
                },
            };
            if let Some((c, r)) = pos {
                if c >= meta.columns || r >= meta.rows {
                    proof { lemma_first_error_stays(self.uuid@, self.size_width, self.size_height, *meta, members@, i + 1); }
                    return Err(NsArchiveError::BadIndex);
                }
                let (tw, th) = meta.tile_extent(c, r);
                assert(c as u64 * t <= u32::MAX as u64 * u32::MAX as u64) by (nonlinear_arith)
                    requires c <= u32::MAX, t <= u32::MAX;
                assert(r as u64 * t <= u32::MAX as u64 * u32::MAX as u64) by (nonlinear_arith)
                    requires r <= u32::MAX, t <= u32::MAX;
                let x = c as u64 * t;
                let y = r as u64 * t;
                if x + tw as u64 > w || y + th as u64 > h {
                    proof { lemma_first_error_stays(self.uuid@, self.size_width, self.size_height, *meta, members@, i + 1); }
                    return Err(NsArchiveError::BadIndex);
                }
                assert(tw as u64 * th as u64 <= w * h) by (nonlinear_arith)
                    requires tw <= w, th <= h, x + tw <= w, y + th <= h, x >= 0, y >= 0;
                let len = tw as usize * th as usize * CHANNELS;
                let bytes = match decompress_tile(data, len) {
                    Ok(b) => b,
                    Err(e) => {
                        proof { lemma_first_error_stays(self.uuid@, self.size_width, self.size_height, *meta, members@, i + 1); }
                        return Err(e);
                    },
                };
                let tile = Rgba8Canvas::from_vec(tw as usize, th as usize, bytes);
                let ghost prev = canvas.data@;
                canvas.replace(&tile, x as usize, y as usize);
                proof {
                    let uuid = self.uuid@;
                    let tt = meta.tile_size as int;
                    assert(tile_error(uuid, self.size_width, self.size_height, *meta, members@[i as int].0@, members@[i as int].1@).is_none());
                    assert forall|idx: int| 0 <= idx < canvas.data@.len() && (forall|k: int| 0 <= k < i + 1 ==> !#[trigger] in_tile_window(uuid, self.size_width, *meta, members@[k], idx))
                        implies #[trigger] canvas.data@[idx] == 0 by {
                        assert(!in_tile_window(uuid, self.size_width, *meta, members@[i as int], idx));
                        assert(canvas.data@[idx] == prev[idx]);
                    }
                    assert forall|k: int, rr: int, j: int| 0 <= k < i + 1 && last_at(uuid, members@, k, i + 1) implies
                        #[trigger] tile_byte_placed(uuid, self.size_width, *meta, canvas.data@, members@[k], rr, j) by {
                        if k < i {
                            assert(last_at(uuid, members@, k, i as int));
                            assert(tile_byte_placed(uuid, self.size_width, *meta, prev, members@[k], rr, j));
                            assert(tile_pos(uuid, members@[i as int].0@) != tile_pos(uuid, members@[k].0@));
                            match tile_pos(uuid, members@[k].0@) {
                                Some((c0, r0)) => {
                                    let tw0 = meta.spec_tile_width(c0);
                                    let th0 = meta.spec_tile_height(r0);
                                    if 0 <= rr < th0 && 0 <= j < tw0 * 4 {
                                        assert(tile_error(uuid, self.size_width, self.size_height, *meta, members@[k].0@, members@[k].1@).is_none());
                                        lemma_tiles_apart(w as int, tt, c0 as int, r0 as int, tw0, th0, rr, j, c as int, r as int, tw as int, th as int);
                                        lemma_tile_byte_inside(w as int, h as int, tt, c0 as int, r0 as int, tw0, th0, rr, j);
                                        let idx = dst_index(w as int, c0 * tt, r0 * tt, rr, j);
                                        assert(canvas.data@[idx] == prev[idx]);
                                    }
                                },
                                None => {},
                            }
                        } else {
                            assert(tile_pos(uuid, members@[k].0@) == Some((c, r)));
                            assert(tile.data@ == lzo_decompressed(members@[k].1@, (tw * th * 4) as nat)->Some_0);
                            if 0 <= rr < th && 0 <= j < tw * 4 {
                                assert(canvas.data@[dst_index(w as int, x as int, y as int, rr, j)] == tile.data@[src_index(tw as int, rr, j)]);
                            }
                        }
                    }
                }
            } else {
                proof {
                    let uuid = self.uuid@;
                    assert forall|idx: int| 0 <= idx < canvas.data@.len() && (forall|k: int| 0 <= k < i + 1 ==> !#[trigger] in_tile_window(uuid, self.size_width, *meta, members@[k], idx))
                        implies #[trigger] canvas.data@[idx] == 0 by {
                        assert forall|k: int| 0 <= k < i implies !#[trigger] in_tile_window(uuid, self.size_width, *meta, members@[k], idx) by {
                            assert(!in_tile_window(uuid, self.size_width, *meta, members@[k], idx));
                        }
                    }
                    assert forall|k: int, rr: int, j: int| 0 <= k < i + 1 && last_at(uuid, members@, k, i + 1) implies
                        #[trigger] tile_byte_placed(uuid, self.size_width, *meta, canvas.data@, members@[k], rr, j) by {
                        if k < i {
                            assert(last_at(uuid, members@, k, i as int));
                        }
                    }
                }
            }
            i = i + 1;
        }
        assert(members@.subrange(0, members@.len() as int) =~= members@);
        self.image = Some(canvas);
        Ok(())
    }
}

/// Once a prefix of the members holds an error, the whole run reports it.
proof fn lemma_first_error_stays(
    uuid: Seq<char>,
    w: u32,
    h: u32,
    meta: TilingMeta,
    members: Seq<(String, Vec<u8>)>,
    k: int,
)
    requires
        0 <= k <= members.len(),
        first_tile_error(uuid, w, h, meta, members.subrange(0, k)).is_some(),
    ensures
        first_tile_error(uuid, w, h, meta, members) == first_tile_error(uuid, w, h, meta, members.subrange(0, k)),
    decreases members.len() - k,
{
    if k < members.len() {
        let next = members.subrange(0, k + 1);
        assert(next.drop_last() =~= members.subrange(0, k));
        lemma_first_error_stays(uuid, w, h, meta, members, k + 1);
    } else {
        assert(members.subrange(0, k) =~= members);
    }
}

} // verus!
