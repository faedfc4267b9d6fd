use silica::document::ProcreateFile;
use silica::ns_archive::NsArchiveError;

fn keyed_archive_plist() -> Vec<u8> {
    let mut top = plist::Dictionary::new();
    top.insert("root".to_string(), plist::Value::Uid(plist::Uid::new(1)));
    let mut class = plist::Dictionary::new();
    class.insert("$classname".to_string(), plist::Value::String("SilicaLayer".to_string()));
    class.insert("$classes".to_string(), plist::Value::Array(vec![plist::Value::String("SilicaLayer".to_string())]));
    let mut comp = plist::Dictionary::new();
    comp.insert("$class".to_string(), plist::Value::Uid(plist::Uid::new(2)));
    comp.insert("extendedBlend".to_string(), plist::Value::Integer(3u64.into()));
    comp.insert("clipped".to_string(), plist::Value::Boolean(true));
    comp.insert("hidden".to_string(), plist::Value::Boolean(false));
    comp.insert("name".to_string(), plist::Value::String("Composite".to_string()));
    comp.insert("opacity".to_string(), plist::Value::Real(0.5));
    comp.insert("UUID".to_string(), plist::Value::String("U-1".to_string()));
    comp.insert("version".to_string(), plist::Value::Integer(1u64.into()));
    comp.insert("sizeWidth".to_string(), plist::Value::Integer(10u64.into()));
    comp.insert("sizeHeight".to_string(), plist::Value::Integer(20u64.into()));
    let mut layers = plist::Dictionary::new();
    layers.insert("NS.objects".to_string(), plist::Value::Array(vec![]));
    let mut root = plist::Dictionary::new();
    root.insert("size".to_string(), plist::Value::String("{10, 20}".to_string()));
    root.insert("tileSize".to_string(), plist::Value::Integer(256u64.into()));
    root.insert("composite".to_string(), plist::Value::Uid(plist::Uid::new(3)));
    root.insert("backgroundColor".to_string(), plist::Value::Data(vec![0; 16]));
    root.insert("backgroundHidden".to_string(), plist::Value::Boolean(true));
    root.insert("authorName".to_string(), plist::Value::String("Ann".to_string()));
    root.insert("unwrappedLayers".to_string(), plist::Value::Uid(plist::Uid::new(4)));
    let objects = vec![
        plist::Value::String("$null".to_string()),
        plist::Value::Dictionary(root),
        plist::Value::Dictionary(class),
        plist::Value::Dictionary(comp),
        plist::Value::Dictionary(layers),
    ];
    let mut archive = plist::Dictionary::new();
    archive.insert("$version".to_string(), plist::Value::Integer(100000u64.into()));
    archive.insert("$archiver".to_string(), plist::Value::String("NSKeyedArchiver".to_string()));
    archive.insert("$top".to_string(), plist::Value::Dictionary(top));
    archive.insert("$objects".to_string(), plist::Value::Array(objects));
    let mut out = Vec::new();
    plist::Value::Dictionary(archive).to_writer_binary(&mut out).unwrap();
    out
}

#[test]
fn archive_bytes_decode_to_document() {
    let doc = ProcreateFile::from_archive_bytes(&keyed_archive_plist()).unwrap();
    assert_eq!((doc.size.width, doc.size.height), (10, 20));
    assert_eq!(doc.tile_size, 256);
    assert_eq!(doc.author_name.as_deref(), Some("Ann"));
    assert!(doc.background_hidden);
    assert_eq!(doc.name, None);
    assert_eq!(doc.composite.uuid, "U-1");
    assert_eq!(doc.composite.blend, 3);
    assert!(doc.composite.clipped);
    assert_eq!(doc.composite.name.as_deref(), Some("Composite"));
    assert_eq!(f64::from_bits(doc.composite.opacity), 0.5);
    assert_eq!((doc.composite.size_width, doc.composite.size_height), (10, 20));
    assert!(doc.layers.children.is_empty());
}

#[test]
fn garbage_bytes_are_a_plist_error() {
    assert!(matches!(ProcreateFile::from_archive_bytes(b"not a plist"), Err(NsArchiveError::Plist)));
    let mut out = Vec::new();
    plist::Value::Array(vec![]).to_writer_binary(&mut out).unwrap();
    assert!(matches!(ProcreateFile::from_archive_bytes(&out), Err(NsArchiveError::Plist)));
}
