use silica::canvas::Rgba8Canvas;
use silica::document::{background_color_of, ProcreateFile};
use silica::geometry::Size;
use silica::ns_archive::{NsArchiveError, NsKeyedArchive};
use silica::silica::{SilicaHierarchy, SilicaLayer};
use silica::tiles::decompress_tile;
use silica::tiling::TilingMeta;
use silica::value::{Dictionary, Integer, PlistValue};

fn uint(n: u64) -> PlistValue {
    PlistValue::Integer(Integer { signed: Some(n as i64), unsigned: Some(n) })
}

fn text(s: &str) -> PlistValue {
    PlistValue::String(s.to_string())
}

fn dict(entries: Vec<(&str, PlistValue)>) -> PlistValue {
    PlistValue::Dictionary(Dictionary {
        entries: entries.into_iter().map(|(k, v)| (k.to_string(), v)).collect(),
    })
}

struct Pool {
    objects: Vec<PlistValue>,
}

impl Pool {
    fn new() -> Pool {
        Pool { objects: vec![text("$null")] }
    }

    fn add(&mut self, v: PlistValue) -> PlistValue {
        self.objects.push(v);
        PlistValue::Uid((self.objects.len() - 1) as u64)
    }

    fn class(&mut self, name: &str) -> PlistValue {
        let v = dict(vec![
            ("$classname", text(name)),
            ("$classes", PlistValue::Array(vec![text(name), text("NSObject")])),
        ]);
        self.add(v)
    }

    fn layer(&mut self, uuid: &str, w: u64, h: u64) -> PlistValue {
        let class = self.class("SilicaLayer");
        let uuid = self.add(text(uuid));
        let v = dict(vec![
            ("$class", class),
            ("extendedBlend", uint(0)),
            ("clipped", PlistValue::Boolean(false)),
            ("hidden", PlistValue::Boolean(false)),
            ("opacity", PlistValue::Real(0x3ff0000000000000)),
            ("UUID", uuid),
            ("version", uint(2)),
            ("sizeWidth", uint(w)),
            ("sizeHeight", uint(h)),
        ]);
        self.add(v)
    }

    fn wrapped(&mut self, items: Vec<PlistValue>) -> PlistValue {
        let v = dict(vec![("NS.objects", PlistValue::Array(items))]);
        self.add(v)
    }

    fn group(&mut self, name: &str, children: Vec<PlistValue>) -> PlistValue {
        let class = self.class("SilicaGroup");
        let children = self.wrapped(children);
        let v = dict(vec![
            ("$class", class),
            ("isHidden", PlistValue::Boolean(false)),
            ("name", text(name)),
            ("children", children),
        ]);
        self.add(v)
    }

    fn document(mut self, size: &str, tile: u64, bg: Vec<u8>, layers: Vec<PlistValue>) -> NsKeyedArchive {
        let composite = self.layer("COMPOSITE", 0, 0);
        let layers = self.wrapped(layers);
        let root = dict(vec![
            ("size", text(size)),
            ("tileSize", uint(tile)),
            ("composite", composite),
            ("backgroundColor", PlistValue::Data(bg)),
            ("backgroundHidden", PlistValue::Boolean(false)),
            ("unwrappedLayers", layers),
        ]);
        let root = self.add(root);
        let top = match dict(vec![("root", root)]) {
            PlistValue::Dictionary(d) => d,
            _ => unreachable!(),
        };
        NsKeyedArchive { top, objects: self.objects }
    }
}

fn leaves_of<'a>(node: &'a mut SilicaHierarchy, out: &mut Vec<&'a mut SilicaLayer>) {
    match node {
        SilicaHierarchy::Layer(l) => out.push(l),
        SilicaHierarchy::Group(g) => {
            for c in g.children.iter_mut() {
                leaves_of(c, out);
            }
        }
    }
}

fn load_all(doc: &mut ProcreateFile, members: &[(String, Vec<u8>)]) -> Result<(), NsArchiveError> {
    let meta = doc.tiling();
    let mut leaves: Vec<&mut SilicaLayer> = Vec::new();
    for c in doc.layers.children.iter_mut() {
        leaves_of(c, &mut leaves);
    }
    leaves.push(&mut doc.composite);
    for leaf in leaves {
        let mine: Vec<(String, Vec<u8>)> =
            members.iter().filter(|(n, _)| leaf.owns_member(n)).cloned().collect();
        leaf.load_image(&meta, &mine)?;
    }
    Ok(())
}

fn pattern(len: usize, seed: u8) -> Vec<u8> {
    (0..len).map(|i| (i as u8).wrapping_mul(31).wrapping_add(seed)).collect()
}

fn tile_member(name: &str, raw: &[u8]) -> (String, Vec<u8>) {
    (name.to_string(), lzokay::compress::compress(raw).unwrap())
}

#[test]
fn empty_group_document_loads() {
    let pool = Pool::new();
    let nka = pool.document("{64, 64}", 64, vec![0; 16], vec![]);
    let mut doc = ProcreateFile::from_ns(&nka).unwrap();
    assert!(doc.layers.children.is_empty());
    assert!(!doc.layers.hidden);
    assert_eq!(doc.layers.name, "");
    assert_eq!(doc.composite.uuid, "COMPOSITE");
    load_all(&mut doc, &[]).unwrap();
    let c = doc.composite.image.as_ref().unwrap();
    assert_eq!((c.width, c.height), (0, 0));
}

#[test]
fn single_tile_exact_fit() {
    let mut pool = Pool::new();
    let leaf = pool.layer("L1", 64, 64);
    let nka = pool.document("{64, 64}", 64, vec![0; 16], vec![leaf]);
    let mut doc = ProcreateFile::from_ns(&nka).unwrap();
    let meta = doc.tiling();
    assert_eq!((meta.columns, meta.rows), (1, 1));
    assert_eq!(meta.diff, Size { width: 0, height: 0 });
    let raw = pattern(16384, 7);
    load_all(&mut doc, &[tile_member("L10~0", &raw)]).unwrap();
    match &doc.layers.children[0] {
        SilicaHierarchy::Layer(l) => {
            let img = l.image.as_ref().unwrap();
            assert_eq!((img.width, img.height), (64, 64));
            assert_eq!(img.data, raw);
            assert_eq!(l.version, 2);
            assert_eq!(l.opacity, 0x3ff0000000000000);
        }
        _ => panic!("expected a layer"),
    }
}

#[test]
fn ragged_edge_tiles() {
    let mut pool = Pool::new();
    let leaf = pool.layer("R", 100, 100);
    let nka = pool.document("{100, 100}", 64, vec![0; 16], vec![leaf]);
    let mut doc = ProcreateFile::from_ns(&nka).unwrap();
    let meta = doc.tiling();
    assert_eq!((meta.columns, meta.rows), (2, 2));
    assert_eq!(meta.diff, Size { width: 28, height: 28 });
    assert_eq!(meta.tile_extent(0, 0), (64, 64));
    assert_eq!(meta.tile_extent(1, 0), (36, 64));
    assert_eq!(meta.tile_extent(0, 1), (64, 36));
    assert_eq!(meta.tile_extent(1, 1), (36, 36));
    let t00 = pattern(64 * 64 * 4, 1);
    let t10 = pattern(36 * 64 * 4, 2);
    let t01 = pattern(64 * 36 * 4, 3);
    let t11 = pattern(36 * 36 * 4, 4);
    assert_eq!(t11.len(), 5184);
    let members = vec![
        tile_member("R0~0", &t00),
        tile_member("R1~0.lz4", &t10),
        tile_member("R0~1", &t01),
        tile_member("R1~1", &t11),
    ];
    load_all(&mut doc, &members).unwrap();
    let img = match &doc.layers.children[0] {
        SilicaHierarchy::Layer(l) => l.image.as_ref().unwrap(),
        _ => panic!("expected a layer"),
    };
    assert_eq!((img.width, img.height), (100, 100));
    let px = |x: usize, y: usize| img.data[(y * 100 + x) * 4..(y * 100 + x) * 4 + 4].to_vec();
    assert_eq!(px(0, 0), t00[0..4].to_vec());
    assert_eq!(px(63, 63), t00[(63 * 64 + 63) * 4..(63 * 64 + 63) * 4 + 4].to_vec());
    assert_eq!(px(64, 0), t10[0..4].to_vec());
    assert_eq!(px(99, 63), t10[(63 * 36 + 35) * 4..(63 * 36 + 35) * 4 + 4].to_vec());
    assert_eq!(px(0, 64), t01[0..4].to_vec());
    assert_eq!(px(99, 99), t11[(35 * 36 + 35) * 4..(35 * 36 + 35) * 4 + 4].to_vec());
}

#[test]
fn nested_groups_keep_order() {
    let mut pool = Pool::new();
    let a = pool.layer("A", 64, 64);
    let b = pool.layer("B", 64, 64);
    let inner = pool.group("inner", vec![a, b]);
    let outer = pool.group("outer", vec![inner]);
    let c = pool.layer("C", 64, 64);
    let nka = pool.document("{64,64}", 64, vec![0; 16], vec![outer, c]);
    let mut doc = ProcreateFile::from_ns(&nka).unwrap();
    let raw = pattern(16384, 9);
    load_all(&mut doc, &[tile_member("B0~0", &raw)]).unwrap();
    assert_eq!(doc.layers.children.len(), 2);
    let outer = match &doc.layers.children[0] {
        SilicaHierarchy::Group(g) => g,
        _ => panic!("expected a group"),
    };
    assert_eq!(outer.name, "outer");
    let inner = match &outer.children[0] {
        SilicaHierarchy::Group(g) => g,
        _ => panic!("expected a group"),
    };
    assert_eq!(inner.name, "inner");
    let uuids: Vec<&str> = inner
        .children
        .iter()
        .map(|c| match c {
            SilicaHierarchy::Layer(l) => l.uuid.as_str(),
            _ => panic!("expected a layer"),
        })
        .collect();
    assert_eq!(uuids, vec!["A", "B"]);
    match &inner.children[1] {
        SilicaHierarchy::Layer(l) => assert_eq!(l.image.as_ref().unwrap().data, raw),
        _ => panic!("expected a layer"),
    }
    match &doc.layers.children[1] {
        SilicaHierarchy::Layer(l) => assert_eq!(l.uuid, "C"),
        _ => panic!("expected a layer"),
    }
}

#[test]
fn unknown_class_is_a_mismatch() {
    let mut pool = Pool::new();
    let class = pool.class("SilicaText");
    let odd = dict(vec![("$class", class)]);
    let odd = pool.add(odd);
    let nka = pool.document("{64, 64}", 64, vec![0; 16], vec![odd]);
    assert!(matches!(ProcreateFile::from_ns(&nka), Err(NsArchiveError::TypeMismatch)));
}

#[test]
fn background_color_length() {
    let pool = Pool::new();
    let nka = pool.document("{64, 64}", 64, vec![0; 12], vec![]);
    assert!(matches!(ProcreateFile::from_ns(&nka), Err(NsArchiveError::TypeMismatch)));
    let pool = Pool::new();
    let nka = pool.document("{64, 64}", 64, vec![0; 16], vec![]);
    let doc = ProcreateFile::from_ns(&nka).unwrap();
    let rgba: Vec<f32> = doc.background_color.iter().map(|b| f32::from_bits(*b)).collect();
    assert_eq!(rgba, vec![0.0, 0.0, 0.0, 0.0]);
}

#[test]
fn background_color_words_are_little_endian() {
    let mut bytes = Vec::new();
    for f in [1.0f32, 0.5, 0.25, 1.0] {
        bytes.extend_from_slice(&f.to_le_bytes());
    }
    let c = background_color_of(&bytes).unwrap();
    assert_eq!(c.map(f32::from_bits), [1.0, 0.5, 0.25, 1.0]);
    assert_eq!(background_color_of(&vec![0; 20]), Err(NsArchiveError::TypeMismatch));
}

#[test]
fn zero_tile_size_is_refused() {
    let pool = Pool::new();
    let nka = pool.document("{64, 64}", 0, vec![0; 16], vec![]);
    assert!(matches!(ProcreateFile::from_ns(&nka), Err(NsArchiveError::TypeMismatch)));
}

#[test]
fn cyclic_groups_are_refused() {
    let mut pool = Pool::new();
    let class = pool.class("SilicaGroup");
    // The group's children array points back at the group itself.
    let group_index = pool.objects.len() as u64 + 1;
    let children = pool.wrapped(vec![PlistValue::Uid(group_index)]);
    let g = dict(vec![
        ("$class", class),
        ("isHidden", PlistValue::Boolean(false)),
        ("name", text("loop")),
        ("children", children),
    ]);
    let g = pool.add(g);
    assert!(matches!(g, PlistValue::Uid(i) if i == group_index));
    let nka = pool.document("{64, 64}", 64, vec![0; 16], vec![g]);
    assert!(matches!(ProcreateFile::from_ns(&nka), Err(NsArchiveError::BadIndex)));
}

#[test]
fn nil_handle_in_wrapped_array_is_bad_index() {
    let pool = Pool::new();
    let nka = pool.document("{64, 64}", 64, vec![0; 16], vec![PlistValue::Uid(0)]);
    assert!(matches!(ProcreateFile::from_ns(&nka), Err(NsArchiveError::BadIndex)));
}

#[test]
fn tile_errors() {
    let mut pool = Pool::new();
    let leaf = pool.layer("T", 64, 64);
    let nka = pool.document("{64, 64}", 64, vec![0; 16], vec![leaf]);
    let doc = ProcreateFile::from_ns(&nka).unwrap();
    let meta = doc.tiling();
    let mut layer = match doc.layers.children.into_iter().next().unwrap() {
        SilicaHierarchy::Layer(l) => l,
        _ => panic!("expected a layer"),
    };
    let raw = pattern(16384, 0);
    let out_of_grid = vec![tile_member("T1~0", &raw)];
    assert_eq!(layer.load_image(&meta, &out_of_grid), Err(NsArchiveError::BadIndex));
    let malformed = vec![tile_member("Tzz", &raw)];
    assert_eq!(layer.load_image(&meta, &malformed), Err(NsArchiveError::TypeMismatch));
    let short = vec![tile_member("T0~0", &raw[..100])];
    assert_eq!(layer.load_image(&meta, &short), Err(NsArchiveError::Decompress));
    assert!(layer.image.is_none());
    let others = vec![tile_member("U0~0", &raw[..100])];
    assert_eq!(layer.load_image(&meta, &others), Ok(()));
    assert_eq!(layer.image.as_ref().unwrap().data, vec![0; 16384]);
}

#[test]
fn decompress_round_trip() {
    let raw = pattern(1000, 5);
    let packed = lzokay::compress::compress(&raw).unwrap();
    assert_eq!(decompress_tile(&packed, 1000), Ok(raw.clone()));
    assert_eq!(decompress_tile(&packed, 999), Err(NsArchiveError::Decompress));
    assert_eq!(decompress_tile(&packed, 1001), Err(NsArchiveError::Decompress));
    assert_eq!(decompress_tile(&[1, 2], 10), Err(NsArchiveError::Decompress));
}

#[test]
fn canvas_replace_places_rows() {
    let mut dst = Rgba8Canvas::new(3, 2);
    let src = Rgba8Canvas::from_vec(2, 1, vec![1, 2, 3, 4, 5, 6, 7, 8]);
    dst.replace(&src, 1, 1);
    let mut expected = vec![0u8; 24];
    expected[16..24].copy_from_slice(&[1, 2, 3, 4, 5, 6, 7, 8]);
    assert_eq!(dst.data, expected);
}

#[test]
fn tiling_grid_formula() {
    let m = TilingMeta::new(Size { width: 129, height: 0 }, 64);
    assert_eq!((m.columns, m.rows), (3, 0));
    assert_eq!(m.diff, Size { width: 63, height: 0 });
    assert_eq!(m.tile_extent(2, 0).0, 1);
    assert_eq!(m.tile_extent(1, 0).0, 64);
}
