use wadbsp::bsp::Level;
use wadbsp::render::Camera;
use wadbsp::render::ViewSegment;
use wadbsp::render::render_view;
use wadbsp::resourcemanager::PackageLoadError;
use wadbsp::resourcemanager::ResourceManager;
use wadbsp::wadpackage::LumpHeader;
use wadbsp::wadpackage::WadError;
use wadbsp::wadpackage::WadPackage;
use wadbsp::wadpackage::is_map_lump;

fn p16(v: &mut Vec<u8>, x: u16) {
    v.push((x & 0xFF) as u8);
    v.push((x >> 8) as u8);
}

fn p32(v: &mut Vec<u8>, x: u32) {
    v.push((x & 0xFF) as u8);
    v.push(((x >> 8) & 0xFF) as u8);
    v.push(((x >> 16) & 0xFF) as u8);
    v.push(((x >> 24) & 0xFF) as u8);
}

fn pi16(v: &mut Vec<u8>, x: i16) {
    p16(v, x as u16);
}

fn pname(v: &mut Vec<u8>, name: &str) {
    let b = name.as_bytes();
    for i in 0..8 {
        v.push(if i < b.len() { b[i] } else { 0 });
    }
}

/// Builds an archive: an IWAD header, the lump payloads, and the
/// directory after them.
fn build_wad(lumps: &[(&str, Vec<u8>)]) -> Vec<u8> {
    let mut out = Vec::new();
    out.extend_from_slice(&[b'I', b'W', b'A', b'D']);
    p32(&mut out, lumps.len() as u32);
    let total: usize = lumps.iter().map(|l| l.1.len()).sum();
    p32(&mut out, (12 + total) as u32);
    let mut dir = Vec::new();
    let mut pos = 12usize;
    for (name, data) in lumps {
        p32(&mut dir, pos as u32);
        p32(&mut dir, data.len() as u32);
        pname(&mut dir, name);
        pos += data.len();
    }
    for (_, data) in lumps {
        out.extend_from_slice(data);
    }
    out.extend_from_slice(&dir);
    out
}

fn linedefs_payload() -> Vec<u8> {
    let mut d = Vec::new();
    for k in 0..4u16 {
        p16(&mut d, k); // v0
        p16(&mut d, (k + 1) % 4); // v1
        p16(&mut d, 1); // flags
        p16(&mut d, 0); // special
        p16(&mut d, 0); // sector tag
        p16(&mut d, 0); // side0
        p16(&mut d, 0xFFFF); // side1
    }
    d
}

fn sidedefs_payload() -> Vec<u8> {
    let mut d = Vec::new();
    pi16(&mut d, 0); // x offset
    pi16(&mut d, 0); // y offset
    for _ in 0..24 {
        d.push(0); // three 8-byte texture names
    }
    p16(&mut d, 0); // sector
    d
}

fn vertexes_payload(vs: &[(i16, i16)]) -> Vec<u8> {
    let mut d = Vec::new();
    for &(x, y) in vs {
        pi16(&mut d, x);
        pi16(&mut d, y);
    }
    d
}

fn square_vertexes() -> Vec<u8> {
    vertexes_payload(&[(0, 0), (0, 128), (128, 128), (128, 0)])
}

fn segs_payload(pairs: &[(u16, u16)]) -> Vec<u8> {
    let mut d = Vec::new();
    for &(v0, v1) in pairs {
        p16(&mut d, v0);
        p16(&mut d, v1);
        p16(&mut d, 0); // angle
        p16(&mut d, 0); // line
        p16(&mut d, 0); // side
        pi16(&mut d, 0); // offset
    }
    d
}

fn ssectors_payload() -> Vec<u8> {
    let mut d = Vec::new();
    p16(&mut d, 1); // leaf 0: one segment ...
    p16(&mut d, 0); // ... starting at 0
    p16(&mut d, 1); // leaf 1: one segment ...
    p16(&mut d, 1); // ... starting at 1
    d
}

fn nodes_payload() -> Vec<u8> {
    let mut d = Vec::new();
    pi16(&mut d, 64); // partition origin x = 64
    pi16(&mut d, 0);
    pi16(&mut d, 0); // vertical partition: dx = 0 ...
    pi16(&mut d, 1); // ... dy = 1 map unit (65536 fixed)
    for _ in 0..8 {
        pi16(&mut d, 0); // two bounding boxes
    }
    p16(&mut d, 0x8001); // child0: leaf 1
    p16(&mut d, 0x8000); // child1: leaf 0
    d
}

fn sectors_payload() -> Vec<u8> {
    let mut d = Vec::new();
    pi16(&mut d, 0); // floor
    pi16(&mut d, 128); // ceiling
    for _ in 0..16 {
        d.push(0); // two 8-byte texture names
    }
    p16(&mut d, 160); // light level
    p16(&mut d, 0); // type
    p16(&mut d, 0); // tag
    d
}

/// The minimal synthetic archive: one level named E1M1, a unit square
/// split by one vertical partition into two one-segment leaves.
fn minimal_wad() -> Vec<u8> {
    build_wad(&[
        ("E1M1", Vec::new()),
        ("THINGS", Vec::new()),
        ("LINEDEFS", linedefs_payload()),
        ("SIDEDEFS", sidedefs_payload()),
        ("VERTEXES", square_vertexes()),
        ("SEGS", segs_payload(&[(0, 1), (2, 3)])),
        ("SSECTORS", ssectors_payload()),
        ("NODES", nodes_payload()),
        ("SECTORS", sectors_payload()),
    ])
}

#[test]
fn end_to_end_minimal_archive() {
    let data = minimal_wad();
    let mut rm = ResourceManager::new();
    assert!(rm.load_package(&data).is_ok());

    let level = rm.find_map("E1M1").expect("level E1M1 must be in the catalog");
    assert_eq!(level.name, b"E1M1".to_vec());
    assert_eq!(level.lines.len(), 4);
    assert_eq!(level.sides.len(), 1);
    assert_eq!(level.sectors.len(), 1);
    assert_eq!(level.vertices.len(), 4);
    assert_eq!(level.segs.len(), 2);
    assert_eq!(level.subsectors.len(), 2);
    assert_eq!(level.nodes.len(), 1);
    assert!(level.check_wf());

    // decoded coordinates are map units shifted to 16.16 fixed point
    assert_eq!(level.vertices[1].x, 0);
    assert_eq!(level.vertices[1].y, 128 << 16);
    assert_eq!(level.nodes[0].x, 64 << 16);
    assert_eq!(level.nodes[0].dy, 1 << 16);
    assert_eq!(level.nodes[0].child0, 0x8000_0001);
    assert_eq!(level.nodes[0].child1, 0x8000_0000);
    // the light level is promoted by the same shift as positions
    assert_eq!(level.sectors[0].light_level, 160 << 16);

    // from the square's center, looking along +x, both walls face the
    // observer; the left half is the observer's side and comes first
    let cam = Camera::new((64 << 16, 64 << 16), 0, (1 << 16, 0));
    let out = render_view(level, &cam);
    assert_eq!(out.len(), 2);
    assert_eq!(
        out[0],
        ViewSegment { x0: 64 << 16, z0: -64 << 16, x1: -64 << 16, z1: -64 << 16 }
    );
    assert_eq!(
        out[1],
        ViewSegment { x0: -64 << 16, z0: 64 << 16, x1: 64 << 16, z1: 64 << 16 }
    );
}

fn levels_equal(a: &Level, b: &Level) -> bool {
    a.name == b.name && a.lines == b.lines && a.sides == b.sides && a.sectors == b.sectors
        && a.subsectors == b.subsectors && a.segs == b.segs && a.nodes == b.nodes
        && a.vertices == b.vertices
}

#[test]
fn decoding_twice_yields_identical_levels() {
    let data = minimal_wad();
    let p1 = WadPackage::new(&data).unwrap();
    let p2 = WadPackage::new(&data).unwrap();
    assert_eq!(p1.get_maps().len(), 1);
    assert_eq!(p2.get_maps().len(), 1);
    assert!(levels_equal(&p1.get_maps()[0], &p2.get_maps()[0]));
}

#[test]
fn i16_fields_round_trip_to_shifted_fixed_point() {
    let data = build_wad(&[
        ("E1M1", Vec::new()),
        ("LINEDEFS", Vec::new()),
        ("SIDEDEFS", Vec::new()),
        ("VERTEXES", vertexes_payload(&[(-2, 300), (i16::MIN, i16::MAX)])),
        ("SEGS", Vec::new()),
        ("SSECTORS", Vec::new()),
        ("NODES", Vec::new()),
        ("SECTORS", Vec::new()),
    ]);
    let p = WadPackage::new(&data).unwrap();
    let level = &p.get_maps()[0];
    assert_eq!(level.vertices[0].x, -2 << 16);
    assert_eq!(level.vertices[0].y, 300 << 16);
    assert_eq!(level.vertices[1].x, (i16::MIN as i32) << 16);
    assert_eq!(level.vertices[1].y, (i16::MAX as i32) << 16);
}

#[test]
fn unrecognized_signature_fails_the_load() {
    let data = vec![b'Z', b'W', b'A', b'D'];
    let mut rm = ResourceManager::new();
    let err = rm.load_package(&data).unwrap_err();
    assert!(matches!(err, PackageLoadError::UnknownPackage));
    assert!(rm.find_map("E1M1").is_none());
}

#[test]
fn missing_mandatory_lump_fails_the_whole_load() {
    // a level marker immediately followed by a lump that is not LINEDEFS
    // (THINGS being absent) aborts the load
    let data = build_wad(&[("MAP01", Vec::new()), ("DUMMY", Vec::new())]);
    let mut rm = ResourceManager::new();
    let err = rm.load_package(&data).unwrap_err();
    match err {
        PackageLoadError::WadError(WadError::LumpMissing(name)) => {
            assert_eq!(name, "LINEDEFS");
        },
        other => panic!("expected a missing LINEDEFS lump, got {:?}", other),
    }
}

#[test]
fn misaligned_lump_is_invalid() {
    let mut bad = linedefs_payload();
    bad.push(0); // 57 bytes: not a whole number of 14-byte records
    let data = build_wad(&[("E1M1", Vec::new()), ("LINEDEFS", bad)]);
    let mut rm = ResourceManager::new();
    let err = rm.load_package(&data).unwrap_err();
    match err {
        PackageLoadError::WadError(WadError::InvalidLump(name)) => {
            assert_eq!(name, "LINEDEFS");
        },
        other => panic!("expected an invalid LINEDEFS lump, got {:?}", other),
    }
}

#[test]
fn short_or_truncated_sources_are_read_failures() {
    // shorter than the 12-byte header
    let mut rm = ResourceManager::new();
    let err = rm.load_package(&[b'I', b'W', b'A', b'D', 1, 0, 0, 0]).unwrap_err();
    assert!(matches!(err, PackageLoadError::IoFailure));

    // a directory that lies beyond the end of the source
    let mut data = Vec::new();
    data.extend_from_slice(&[b'I', b'W', b'A', b'D']);
    p32(&mut data, 1);
    p32(&mut data, 100);
    let err = rm.load_package(&data).unwrap_err();
    assert!(matches!(err, PackageLoadError::IoFailure));
}

#[test]
fn empty_archive_loads_no_levels() {
    let data = build_wad(&[]);
    let mut rm = ResourceManager::new();
    assert!(rm.load_package(&data).is_ok());
    assert!(rm.find_map("E1M1").is_none());
}

#[test]
fn failed_load_keeps_earlier_levels_and_clear_discards_them() {
    let mut rm = ResourceManager::new();
    assert!(rm.load_package(&minimal_wad()).is_ok());
    // a failing second load leaves the catalog as it was
    let bad = build_wad(&[("MAP01", Vec::new())]);
    assert!(rm.load_package(&bad).is_err());
    assert!(rm.find_map("E1M1").is_some());

    rm.clear_resources();
    assert!(rm.find_map("E1M1").is_none());
}

#[test]
fn lookup_returns_the_first_match_in_load_order() {
    // two levels named E1M1 whose first vertex differs
    let mk = |x0: i16| -> Vec<(&'static str, Vec<u8>)> {
        vec![
            ("E1M1", Vec::new()),
            ("LINEDEFS", Vec::new()),
            ("SIDEDEFS", Vec::new()),
            ("VERTEXES", vertexes_payload(&[(x0, 0)])),
            ("SEGS", Vec::new()),
            ("SSECTORS", Vec::new()),
            ("NODES", Vec::new()),
            ("SECTORS", Vec::new()),
        ]
    };
    let mut lumps = mk(11);
    lumps.extend(mk(22));
    let data = build_wad(&lumps);
    let mut rm = ResourceManager::new();
    assert!(rm.load_package(&data).is_ok());
    let level = rm.find_map("E1M1").unwrap();
    assert_eq!(level.vertices[0].x, 11 << 16);
    assert!(rm.find_map("E2M2").is_none());
}

#[test]
fn marker_detection_shapes() {
    let header = |size: u64, name: &[u8]| -> LumpHeader {
        let mut n = name.to_vec();
        while n.len() < 8 {
            n.push(0);
        }
        LumpHeader { pos: 0, size, name: n }
    };
    // Doom-1 style: E, digit up to 4, M, digit
    assert!(is_map_lump(&header(0, b"E1M1")));
    assert!(is_map_lump(&header(0, b"E4M9")));
    assert!(!is_map_lump(&header(0, b"E5M1")));
    assert!(!is_map_lump(&header(0, b"E1X1")));
    // only zero-size lumps mark levels
    assert!(!is_map_lump(&header(12, b"E1M1")));
    // Doom-2 style: MAP then a two-digit number at most 32
    assert!(is_map_lump(&header(0, b"MAP01")));
    assert!(is_map_lump(&header(0, b"MAP32")));
    assert!(!is_map_lump(&header(0, b"MAP33")));
    assert!(!is_map_lump(&header(0, b"MAPXX")));
    // the fifth byte always takes part in the number: a NUL there
    // corrupts it past the bound, so a one-digit MAP name is rejected
    assert!(!is_map_lump(&header(0, b"MAP1")));
    // ... and a byte 32 above the digit zero slips in under the bound
    assert!(is_map_lump(&header(0, b"MAP0P")));
}

#[test]
fn directory_name_comparison_stops_at_nul() {
    // a directory entry whose name is a NUL-terminated prefix of the
    // expected name is accepted for that lump
    let data = build_wad(&[
        ("E1M1", Vec::new()),
        ("LINE", linedefs_payload()),
        ("SIDEDEFS", sidedefs_payload()),
        ("VERTEXES", square_vertexes()),
        ("SEGS", segs_payload(&[(0, 1), (2, 3)])),
        ("SSECTORS", ssectors_payload()),
        ("NODES", nodes_payload()),
        ("SECTORS", sectors_payload()),
    ]);
    let p = WadPackage::new(&data).unwrap();
    assert_eq!(p.get_maps().len(), 1);
    assert_eq!(p.get_maps()[0].lines.len(), 4);
}

#[test]
fn lump_payload_past_the_end_is_a_read_failure() {
    // a directory entry whose payload range runs past the end of the
    // source cannot be loaded
    let mut data = build_wad(&[("E1M1", Vec::new()), ("THINGS", Vec::new())]);
    let dir_start = data.len() - 32;
    // rewrite the THINGS entry to claim a large payload at the end
    data[dir_start + 16] = 0xF0; // position low byte
    data[dir_start + 20] = 0xFF; // size low byte
    let mut rm = ResourceManager::new();
    let err = rm.load_package(&data).unwrap_err();
    assert!(matches!(err, PackageLoadError::IoFailure));
}

#[test]
fn patch_archives_load_like_initial_ones() {
    let mut data = minimal_wad();
    data[0] = b'P';
    let mut rm = ResourceManager::new();
    assert!(rm.load_package(&data).is_ok());
    assert!(rm.find_map("E1M1").is_some());
}

#[test]
fn things_content_is_consumed_and_discarded() {
    let data = build_wad(&[
        ("E1M1", Vec::new()),
        ("THINGS", vec![1, 2, 3, 4, 5, 6, 7, 8, 9, 10]),
        ("LINEDEFS", linedefs_payload()),
        ("SIDEDEFS", sidedefs_payload()),
        ("VERTEXES", square_vertexes()),
        ("SEGS", segs_payload(&[(0, 1), (2, 3)])),
        ("SSECTORS", ssectors_payload()),
        ("NODES", nodes_payload()),
        ("SECTORS", sectors_payload()),
    ]);
    let p = WadPackage::new(&data).unwrap();
    assert_eq!(p.get_maps().len(), 1);
    assert_eq!(p.get_maps()[0].lines.len(), 4);
}
