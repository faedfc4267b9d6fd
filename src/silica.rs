use vstd::prelude::*;

use crate::canvas::Rgba8Canvas;
use crate::ns_archive::{
    decode_bool, decode_dict, decode_opt_string, decode_real, decode_string, decode_u32,
    decode_u64, spec_decode_dict, NsArchiveError, NsKeyedArchive, WrappedArray,
};
use crate::value::{opt_deref, Dictionary, PlistValue};

verus! {

/// A pixel layer of a document.
///
/// `opacity` holds the bits of the binary64 real that the archive stores.
#[derive(Debug)]
pub struct SilicaLayer {
    pub blend: u32,
    pub clipped: bool,
    pub hidden: bool,
    pub mask: Option<Box<SilicaLayer>>,
    pub name: Option<String>,
    pub opacity: u64,
    pub size_width: u32,
    pub size_height: u32,
    pub uuid: String,
    pub version: u64,
    pub image: Option<Rgba8Canvas>,
}

/// The attributes of a layer that the archive holds.
pub struct LayerModel {
    pub blend: u32,
    pub clipped: bool,
    pub hidden: bool,
    pub name: Option<Seq<char>>,
    pub opacity: u64,
    pub size_width: u32,
    pub size_height: u32,
    pub uuid: Seq<char>,
    pub version: u64,
}

/// An optional string seen as its characters.
pub open spec fn opt_view(o: Option<String>) -> Option<Seq<char>> {
    match o {
        Some(s) => Some(s@),
        None => None,
    }
}

impl SilicaLayer {
    /// The archived attributes of this layer.
    pub open spec fn model(&self) -> LayerModel {
        LayerModel {
            blend: self.blend,
            clipped: self.clipped,
            hidden: self.hidden,
            name: opt_view(self.name),
            opacity: self.opacity,
            size_width: self.size_width,
            size_height: self.size_height,
            uuid: self.uuid@,
            version: self.version,
        }
    }

    /// The layer holds a raster of its own extent.
    pub open spec fn has_raster(&self) -> bool {
        match self.image {
            Some(c) => c.wf() && c.width == self.size_width && c.height == self.size_height,
            None => false,
        }
    }

    /// A layer as decoding leaves it: no mask, no raster yet.
    pub open spec fn unloaded(&self) -> bool {
        self.mask.is_none() && self.image.is_none()
    }
}

/// Decoding a layer from its dictionary: the fields in the order
/// `extendedBlend`, `clipped`, `hidden`, `name`, `opacity`, `UUID`, `version`,
/// `sizeWidth`, `sizeHeight`; the first that fails gives the error.
pub open spec fn spec_layer(nka: NsKeyedArchive, c: Dictionary) -> Result<LayerModel, NsArchiveError> {
    let blend = nka.field_u32(c, "extendedBlend"@);
    let clipped = nka.field_bool(c, "clipped"@);
    let hidden = nka.field_bool(c, "hidden"@);
    let name = nka.field_opt_string(c, "name"@);
    let opacity = nka.field_real(c, "opacity"@);
    let uuid = nka.field_string(c, "UUID"@);
    let version = nka.field_u64(c, "version"@);
    let w = nka.field_u32(c, "sizeWidth"@);
    let h = nka.field_u32(c, "sizeHeight"@);
    if blend is Err {
        Err(blend->Err_0)
    } else if clipped is Err {
        Err(clipped->Err_0)
    } else if hidden is Err {
        Err(hidden->Err_0)
    } else if name is Err {
        Err(name->Err_0)
    } else if opacity is Err {
        Err(opacity->Err_0)
    } else if uuid is Err {
        Err(uuid->Err_0)
    } else if version is Err {
        Err(version->Err_0)
    } else if w is Err {
        Err(w->Err_0)
    } else if h is Err {
        Err(h->Err_0)
    } else {
        Ok(
            LayerModel {
                blend: blend->Ok_0,
                clipped: clipped->Ok_0,
                hidden: hidden->Ok_0,
                name: name->Ok_0,
                opacity: opacity->Ok_0,
                size_width: w->Ok_0,
                size_height: h->Ok_0,
                uuid: uuid->Ok_0,
                version: version->Ok_0,
            },
        )
    }
}

/// Decoding a layer from a value, which must be a dictionary.
pub open spec fn spec_layer_value(nka: NsKeyedArchive, val: Option<PlistValue>) -> Result<
    LayerModel,
    NsArchiveError,
> {
    match spec_decode_dict(val) {
        Ok(c) => spec_layer(nka, c),
        Err(e) => Err(e),
    }
}

/// `r` is what decoding a layer yields, where `spec` says what that is.
pub open spec fn layer_result(r: Result<SilicaLayer, NsArchiveError>, spec: Result<LayerModel, NsArchiveError>) -> bool {
    match r {
        Ok(l) => spec == Ok::<_, NsArchiveError>(l.model()) && l.unloaded(),
        Err(e) => spec == Err::<LayerModel, _>(e),
    }
}

impl SilicaLayer {
    /// Decodes a layer from its dictionary.
    pub fn decode_fields(nka: &NsKeyedArchive, coder: &Dictionary) -> (r: Result<SilicaLayer, NsArchiveError>)
        ensures
            layer_result(r, spec_layer(*nka, *coder)),
    {
        let blend = decode_u32(nka.decode_value(coder, "extendedBlend")?)?;
        let clipped = decode_bool(nka.decode_value(coder, "clipped")?)?;
        let hidden = decode_bool(nka.decode_value(coder, "hidden")?)?;
        let name = decode_opt_string(nka.decode_value(coder, "name")?)?;
        let opacity = decode_real(nka.decode_value(coder, "opacity")?)?;
        let uuid = decode_string(nka.decode_value(coder, "UUID")?)?;
        let version = decode_u64(nka.decode_value(coder, "version")?)?;
        let size_width = decode_u32(nka.decode_value(coder, "sizeWidth")?)?;
        let size_height = decode_u32(nka.decode_value(coder, "sizeHeight")?)?;
        Ok(SilicaLayer {
            blend,
            clipped,
            hidden,
            mask: None,
            name,
            opacity,
            size_width,
            size_height,
            uuid,
            version,
            image: None,
        })
    }

    /// Decodes a layer from a value.
    pub fn decode(nka: &NsKeyedArchive, val: Option<&PlistValue>) -> (r: Result<SilicaLayer, NsArchiveError>)
        ensures
            layer_result(r, spec_layer_value(*nka, opt_deref(val))),
    {
        let coder = decode_dict(val)?;
        SilicaLayer::decode_fields(nka, coder)
    }
}

/// A named, possibly hidden container of layers and groups.
#[derive(Debug)]
pub struct SilicaGroup {
    pub hidden: bool,
    pub children: Vec<SilicaHierarchy>,
    pub name: String,
}

/// A node of the layer tree.
#[derive(Debug)]
pub enum SilicaHierarchy {
    Layer(SilicaLayer),
    Group(SilicaGroup),
}

/// `r` is what decoding the hierarchy node `val` yields, with groups nested
/// at most `fuel` deep (deeper nesting, as a cycle of handles gives, is
/// `BadIndex`).
///
/// The node's `$class` names its kind: `SilicaGroup` or `SilicaLayer`; any
/// other name is `TypeMismatch`.
pub open spec fn hier_decodes(
    nka: NsKeyedArchive,
    val: Option<PlistValue>,
    fuel: nat,
    r: Result<SilicaHierarchy, NsArchiveError>,
) -> bool
    decreases fuel, 0nat, 0nat,
{
    if fuel == 0 {
        r == Err::<SilicaHierarchy, _>(NsArchiveError::BadIndex)
    } else {
        match spec_decode_dict(val) {
            Err(e) => r == Err::<SilicaHierarchy, _>(e),
            Ok(c) => match nka.spec_class_name(c) {
                Err(e) => r == Err::<SilicaHierarchy, _>(e),
                Ok(name) => if name == "SilicaGroup"@ {
                    match r {
                        Ok(SilicaHierarchy::Group(g)) => group_decodes(nka, c, (fuel - 1) as nat, Ok(g)),
                        Ok(_) => false,
                        Err(e) => group_decodes(nka, c, (fuel - 1) as nat, Err(e)),
                    }
                } else if name == "SilicaLayer"@ {
                    match r {
                        Ok(SilicaHierarchy::Layer(l)) => layer_result(Ok(l), spec_layer(nka, c)),
                        Ok(_) => false,
                        Err(e) => spec_layer(nka, c) == Err::<LayerModel, _>(e),
                    }
                } else {
                    r == Err::<SilicaHierarchy, _>(NsArchiveError::TypeMismatch)
                },
            },
        }
    }
}

/// `r` is what decoding a group from its dictionary yields: `isHidden`,
/// `name`, then the wrapped array `children`, whose nodes may nest `fuel` deep.
pub open spec fn group_decodes(
    nka: NsKeyedArchive,
    c: Dictionary,
    fuel: nat,
    r: Result<SilicaGroup, NsArchiveError>,
) -> bool
    decreases fuel, 3nat, 0nat,
{
    let hidden = nka.field_bool(c, "isHidden"@);
    let name = nka.field_string(c, "name"@);
    let hs = nka.field_wrapped(c, "children"@);
    if hidden is Err {
        r == Err::<SilicaGroup, _>(hidden->Err_0)
    } else if name is Err {
        r == Err::<SilicaGroup, _>(name->Err_0)
    } else if hs is Err {
        r == Err::<SilicaGroup, _>(hs->Err_0)
    } else {
        match r {
            Ok(g) => g.hidden == hidden->Ok_0 && g.name@ == name->Ok_0 && children_decode(
                nka,
                hs->Ok_0,
                fuel,
                Ok(g.children@),
            ),
            Err(e) => children_decode(nka, hs->Ok_0, fuel, Err(e)),
        }
    }
}

/// `r` is what decoding the nodes behind the handles `hs`, in order, yields:
/// all of them, or the error of the first that fails.
pub open spec fn children_decode(
    nka: NsKeyedArchive,
    hs: Seq<u64>,
    fuel: nat,
    r: Result<Seq<SilicaHierarchy>, NsArchiveError>,
) -> bool
    decreases fuel, 2nat, hs.len(),
{
    if hs.len() == 0 {
        r == Ok::<_, NsArchiveError>(Seq::<SilicaHierarchy>::empty())
    } else {
        let init = hs.drop_last();
        match r {
            Ok(v) => v.len() == hs.len() && children_decode(nka, init, fuel, Ok(v.drop_last()))
                && item_decodes(nka, hs.last(), fuel, Ok(v.last())),
            Err(e) => children_decode(nka, init, fuel, Err(e)) || exists|v: Seq<SilicaHierarchy>|
                children_decode(nka, init, fuel, Ok(v)) && #[trigger] item_decodes(
                    nka,
                    hs.last(),
                    fuel,
                    Err(e),
                ) && v.len() == init.len(),
        }
    }
}

/// `r` is what decoding the node behind handle `h` yields; the nil handle is
/// `BadIndex`.
pub open spec fn item_decodes(
    nka: NsKeyedArchive,
    h: u64,
    fuel: nat,
    r: Result<SilicaHierarchy, NsArchiveError>,
) -> bool
    decreases fuel, 1nat, 0nat,
{
    match nka.spec_resolve(h as int) {
        Err(e) => r == Err::<SilicaHierarchy, _>(e),
        Ok(None) => r == Err::<SilicaHierarchy, _>(NsArchiveError::BadIndex),
        Ok(Some(v)) => hier_decodes(nka, Some(v), fuel, r),
    }
}

/// Once a prefix of the handles fails, the whole run fails the same way.
proof fn lemma_children_err(
    nka: NsKeyedArchive,
    hs: Seq<u64>,
    k: int,
    fuel: nat,
    e: NsArchiveError,
)
    requires
        0 <= k <= hs.len(),
        children_decode(nka, hs.subrange(0, k), fuel, Err(e)),
    ensures
        children_decode(nka, hs, fuel, Err(e)),
    decreases hs.len() - k,
{
    if k < hs.len() {
        let next = hs.subrange(0, k + 1);
        assert(next.drop_last() =~= hs.subrange(0, k));
        assert(hs.subrange(0, k + 1).subrange(0, k + 1) =~= next);
        lemma_children_err(nka, hs, k + 1, fuel, e);
    } else {
        assert(hs.subrange(0, k) =~= hs);
    }
}

impl SilicaHierarchy {
    /// The layer that this node is.
    pub fn unwrap_layer(self) -> (r: SilicaLayer)
        requires
            self is Layer,
        ensures
            self == SilicaHierarchy::Layer(r),
    {
        match self {
            SilicaHierarchy::Layer(layer) => layer,
            SilicaHierarchy::Group(_) => {
                assert(false);
                unreached()
            },
        }
    }

    /// Decodes a hierarchy node, with groups nested at most `fuel` deep.
    pub fn decode(nka: &NsKeyedArchive, val: Option<&PlistValue>, fuel: usize) -> (r: Result<SilicaHierarchy, NsArchiveError>)
        ensures
            hier_decodes(*nka, opt_deref(val), fuel as nat, r),
        decreases fuel, 0usize,
    {
        if fuel == 0 {
            return Err(NsArchiveError::BadIndex);
        }
        let coder = decode_dict(val)?;
        let class = nka.decode_class(nka.decode_value(coder, "$class")?)?;
        if crate::value::str_eq(class.class_name.as_str(), "SilicaGroup") {
            let g = SilicaGroup::decode_fields(nka, coder, fuel - 1)?;
            Ok(SilicaHierarchy::Group(g))
        } else if crate::value::str_eq(class.class_name.as_str(), "SilicaLayer") {
            let l = SilicaLayer::decode_fields(nka, coder)?;
            Ok(SilicaHierarchy::Layer(l))
        } else {
            Err(NsArchiveError::TypeMismatch)
        }
    }
}

impl SilicaGroup {
    /// Decodes a group from its dictionary, its nodes nested at most `fuel` deep.
    pub fn decode_fields(nka: &NsKeyedArchive, coder: &Dictionary, fuel: usize) -> (r: Result<SilicaGroup, NsArchiveError>)
        ensures
            group_decodes(*nka, *coder, fuel as nat, r),
        decreases fuel, 2usize,
    {
        let hidden = decode_bool(nka.decode_value(coder, "isHidden")?)?;
        let name = decode_string(nka.decode_value(coder, "name")?)?;
        let raw = nka.decode_wrapped_raw(nka.decode_value(coder, "children")?)?;
        let children = decode_nodes(nka, &raw.inner, fuel)?;
        Ok(SilicaGroup { hidden, children: children.objects, name })
    }
}

/// Decodes the nodes behind the handles `hs`, in order.
pub fn decode_nodes(nka: &NsKeyedArchive, hs: &Vec<u64>, fuel: usize) -> (r: Result<
    WrappedArray<SilicaHierarchy>,
    NsArchiveError,
>)
    ensures
        match r {
            Ok(w) => children_decode(*nka, hs@, fuel as nat, Ok(w.objects@)),
            Err(e) => children_decode(*nka, hs@, fuel as nat, Err(e)),
        },
    decreases fuel, 1usize,
{
    let mut objects: Vec<SilicaHierarchy> = Vec::new();
    let mut i: usize = 0;
    assert(hs@.subrange(0, 0) =~= Seq::<u64>::empty());
    assert(objects@ =~= Seq::<SilicaHierarchy>::empty());
    while i < hs.len()
        invariant
            i <= hs@.len(),
            children_decode(*nka, hs@.subrange(0, i as int), fuel as nat, Ok(objects@)),
            objects@.len() == i,
        decreases hs@.len() - i,
    {
        let ghost pre = hs@.subrange(0, i as int);
        let ghost next = hs@.subrange(0, i + 1);
        assert(next.drop_last() =~= pre);
        assert(next.last() == hs@[i as int]);
        let h = hs[i];
        let item: Result<SilicaHierarchy, NsArchiveError> = if h > usize::MAX as u64 {
            let n = nka.objects.len();
            assert(n < h);
            Err(NsArchiveError::BadIndex)
        } else {
            match nka.resolve_index(h as usize) {
                Err(e) => Err(e),
                Ok(None) => Err(NsArchiveError::BadIndex),
                Ok(Some(v)) => SilicaHierarchy::decode(nka, Some(v), fuel),
            }
        };
        assert(item_decodes(*nka, h, fuel as nat, item));
        match item {
            Ok(node) => {
                let ghost before = objects@;
                objects.push(node);
                assert(objects@.drop_last() =~= before);
            },
            Err(e) => {
                proof {
                    assert(children_decode(*nka, next, fuel as nat, Err(e)));
                    lemma_children_err(*nka, hs@, i + 1, fuel as nat, e);
                }
                return Err(e);
            },
        }
        i = i + 1;
    }
    assert(hs@.subrange(0, hs@.len() as int) =~= hs@);
    Ok(WrappedArray { objects })
}

} // verus!
