use vstd::prelude::*;

use crate::geometry::{decode_size, spec_decode_size, Size};
use crate::ns_archive::{
    decode_bool, decode_data, decode_opt_string, decode_u32, NsArchiveError, NsKeyedArchive,
};
use crate::silica::{
    children_decode, decode_nodes, layer_result, opt_view, spec_layer_value, LayerModel,
    SilicaGroup, SilicaLayer,
};
use crate::tiling::TilingMeta;
use crate::value::Dictionary;

verus! {

/// A decoded document.
///
/// `background_color` holds the bits of four binary32 reals (red, green,
/// blue, alpha).
#[derive(Debug)]
pub struct ProcreateFile {
    pub author_name: Option<String>,
    pub background_hidden: bool,
    pub background_color: [u32; 4],
    pub layers: SilicaGroup,
    pub name: Option<String>,
    pub tile_size: u32,
    pub composite: SilicaLayer,
    pub size: Size,
}

/// The little-endian 32-bit word at bytes `4 * i .. 4 * i + 4` of `b`.
pub open spec fn le_u32(b: Seq<u8>, i: int) -> u32 {
    (b[4 * i] as int + b[4 * i + 1] as int * 0x100 + b[4 * i + 2] as int * 0x10000 + b[4 * i
        + 3] as int * 0x1000000) as u32
}

/// The background color that raw bytes spell: exactly sixteen bytes, four
/// little-endian words.
pub open spec fn spec_background(b: Seq<u8>) -> Result<Seq<u32>, NsArchiveError> {
    if b.len() == 16 {
        Ok(Seq::new(4, |i: int| le_u32(b, i)))
    } else {
        Err(NsArchiveError::TypeMismatch)
    }
}

/// Reads the four little-endian words of a background color.
pub fn background_color_of(b: &Vec<u8>) -> (r: Result<[u32; 4], NsArchiveError>)
    ensures
        match r {
            Ok(c) => spec_background(b@) == Ok::<_, NsArchiveError>(c@),
            Err(e) => spec_background(b@) == Err::<Seq<u32>, _>(e),
        },
{
    if b.len() != 16 {
        return Err(NsArchiveError::TypeMismatch);
    }
    let mut out: [u32; 4] = [0, 0, 0, 0];
    let mut i: usize = 0;
    while i < 4
        invariant
            b@.len() == 16,
            i <= 4,
            forall|j: int| 0 <= j < i ==> out@[j] == le_u32(b@, j),
        decreases 4 - i,
    {
        let k = 4 * i;
        let word = b[k] as u32 + b[k + 1] as u32 * 0x100 + b[k + 2] as u32 * 0x10000 + b[k + 3] as u32
            * 0x1000000;
        out[i] = word;
        i = i + 1;
    }
    assert(out@ =~= Seq::new(4, |i: int| le_u32(b@, i)));
    Ok(out)
}

/// The first error among decoded fields, in the order given.
pub open spec fn first_err<A, B, C, D, E, F, G>(
    a: Result<A, NsArchiveError>,
    b: Result<B, NsArchiveError>,
    c: Result<C, NsArchiveError>,
    d: Result<D, NsArchiveError>,
    e: Result<E, NsArchiveError>,
    f: Result<F, NsArchiveError>,
    g: Result<G, NsArchiveError>,
) -> Option<NsArchiveError> {
    if a is Err {
        Some(a->Err_0)
    } else if b is Err {
        Some(b->Err_0)
    } else if c is Err {
        Some(c->Err_0)
    } else if d is Err {
        Some(d->Err_0)
    } else if e is Err {
        Some(e->Err_0)
    } else if f is Err {
        Some(f->Err_0)
    } else if g is Err {
        Some(g->Err_0)
    } else {
        None
    }
}

/// A zero tile size is no grid.
pub open spec fn spec_tile_size(t: Result<u32, NsArchiveError>) -> Result<u32, NsArchiveError> {
    match t {
        Ok(0) => Err(NsArchiveError::TypeMismatch),
        other => other,
    }
}

/// The background color field of a root dictionary.
pub open spec fn spec_background_field(nka: NsKeyedArchive, root: Dictionary) -> Result<Seq<u32>, NsArchiveError> {
    match nka.field_data(root, "backgroundColor"@) {
        Ok(b) => spec_background(b),
        Err(e) => Err(e),
    }
}

/// The composite layer of a root dictionary.
pub open spec fn spec_composite(nka: NsKeyedArchive, root: Dictionary) -> Result<LayerModel, NsArchiveError> {
    match nka.spec_decode_value(root, "composite"@) {
        Ok(v) => spec_layer_value(nka, v),
        Err(e) => Err(e),
    }
}

/// The size field of a root dictionary.
pub open spec fn spec_size_field(nka: NsKeyedArchive, root: Dictionary) -> Result<Size, NsArchiveError> {
    match nka.spec_decode_value(root, "size"@) {
        Ok(v) => spec_decode_size(v),
        Err(e) => Err(e),
    }
}

/// `r` is what decoding the document of a keyed archive yields.
///
/// From the root dictionary: `size`, `tileSize` (at least 1), `composite`,
/// `backgroundColor`, `authorName`, `backgroundHidden`, `name`, and last the
/// layer tree under `unwrappedLayers`, whose groups nest at most as deep as
/// the object pool is long. The first field that fails gives the error. The
/// top-level group is visible and unnamed; no layer holds a raster yet.
pub open spec fn doc_decodes(nka: NsKeyedArchive, r: Result<ProcreateFile, NsArchiveError>) -> bool {
    match nka.spec_root() {
        Err(e) => r == Err::<ProcreateFile, _>(e),
        Ok(root) => {
            let size = spec_size_field(nka, root);
            let ts = spec_tile_size(nka.field_u32(root, "tileSize"@));
            let comp = spec_composite(nka, root);
            let bg = spec_background_field(nka, root);
            let author = nka.field_opt_string(root, "authorName"@);
            let bh = nka.field_bool(root, "backgroundHidden"@);
            let name = nka.field_opt_string(root, "name"@);
            let hs = nka.field_wrapped(root, "unwrappedLayers"@);
            let fuel = nka.objects@.len();
            match first_err(size, ts, comp, bg, author, bh, name) {
                Some(e) => r == Err::<ProcreateFile, _>(e),
                None => if hs is Err {
                    r == Err::<ProcreateFile, _>(hs->Err_0)
                } else {
                    match r {
                        Ok(d) => {
                            &&& d.size == size->Ok_0
                            &&& d.tile_size == ts->Ok_0
                            &&& layer_result(Ok(d.composite), comp)
                            &&& d.background_color@ == bg->Ok_0
                            &&& opt_view(d.author_name) == author->Ok_0
                            &&& d.background_hidden == bh->Ok_0
                            &&& opt_view(d.name) == name->Ok_0
                            &&& !d.layers.hidden
                            &&& d.layers.name@ == Seq::<char>::empty()
                            &&& children_decode(nka, hs->Ok_0, fuel, Ok(d.layers.children@))
                        },
                        Err(e) => children_decode(nka, hs->Ok_0, fuel, Err(e)),
                    }
                },
            }
        },
    }
}

impl ProcreateFile {
    /// The document's invariant: tiles are at least one pixel wide.
    pub open spec fn wf(&self) -> bool {
        self.tile_size >= 1
    }

    /// Decodes the document of a keyed archive; layers hold no raster yet.
    pub fn from_ns(nka: &NsKeyedArchive) -> (r: Result<ProcreateFile, NsArchiveError>)
        ensures
            doc_decodes(*nka, r),
            r matches Ok(d) ==> d.wf(),
    {
        let root = nka.root()?;
        let size = decode_size(nka.decode_value(root, "size")?)?;
        let tile_size = decode_u32(nka.decode_value(root, "tileSize")?)?;
        if tile_size == 0 {
            return Err(NsArchiveError::TypeMismatch);
        }
        let composite = SilicaLayer::decode(nka, nka.decode_value(root, "composite")?)?;
        let background_color = background_color_of(decode_data(nka.decode_value(root, "backgroundColor")?)?)?;
        let author_name = decode_opt_string(nka.decode_value(root, "authorName")?)?;
        let background_hidden = decode_bool(nka.decode_value(root, "backgroundHidden")?)?;
        let name = decode_opt_string(nka.decode_value(root, "name")?)?;
        let raw = nka.decode_wrapped_raw(nka.decode_value(root, "unwrappedLayers")?)?;
        let layers = decode_nodes(nka, &raw.inner, nka.objects.len())?;
        Ok(ProcreateFile {
            author_name,
            background_hidden,
            background_color,
            layers: SilicaGroup { hidden: false, children: layers.objects, name: String::new() },
            name,
            tile_size,
            composite,
            size,
        })
    }

    /// The tile grid of this document.
    pub fn tiling(&self) -> (r: TilingMeta)
        requires
            self.wf(),
        ensures
            r.describes(self.size, self.tile_size),
            0 <= r.diff.width < self.tile_size,
            0 <= r.diff.height < self.tile_size,
    {
        TilingMeta::new(self.size, self.tile_size)
    }
}

} // verus!
