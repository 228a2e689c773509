//! The archive decoder: reads the binary container, walks its lump
//! directory, and decodes each level's lump group into a `Level`.
//!
//! The byte source is a random-access slice; a read past its end reports
//! `WadError::IoFailure`.  Every decoding step is specified by a spec
//! function of the bytes alone, so the decoder is deterministic by
//! contract.

use vstd::prelude::*;

use crate::bsp::Bounds;
use crate::bsp::Level;
use crate::bsp::LevelView;
use crate::bsp::LineDef;
use crate::bsp::LineSegment;
use crate::bsp::Node;
use crate::bsp::Sector;
use crate::bsp::SideDef;
use crate::bsp::Subsector;
use crate::bsp::Vertex;

verus! {

pub type WadResult<T> = Result<T, WadError>;

/// What can go wrong while decoding an archive: a read past the end of
/// the byte source, a mandatory lump of a level group not found where the
/// directory order demands it, or a lump whose byte length is not a whole
/// number of records.
#[derive(Debug)]
pub enum WadError {
    IoFailure,
    LumpMissing(&'static str),
    InvalidLump(&'static str),
}

/// The mathematical content of a `WadError`: the lump name as a character
/// sequence.
pub enum WadErrorView {
    IoFailure,
    LumpMissing(Seq<char>),
    InvalidLump(Seq<char>),
}

impl View for WadError {
    type V = WadErrorView;

    open spec fn view(&self) -> WadErrorView {
        match self {
            WadError::IoFailure => WadErrorView::IoFailure,
            WadError::LumpMissing(n) => WadErrorView::LumpMissing(n.view()),
            WadError::InvalidLump(n) => WadErrorView::InvalidLump(n.view()),
        }
    }
}

// ---------------------------------------------------------------------
// Little-endian field readers.

/// The unsigned 16-bit little-endian value at byte offset `i`.
pub open spec fn le16_at(d: Seq<u8>, i: int) -> int {
    d[i] + 0x100 * d[i + 1]
}

/// The unsigned 32-bit little-endian value at byte offset `i`.
pub open spec fn le32_at(d: Seq<u8>, i: int) -> int {
    d[i] + 0x100 * d[i + 1] + 0x1_0000 * d[i + 2] + 0x100_0000 * d[i + 3]
}

/// The signed 16-bit little-endian value at byte offset `i`.
pub open spec fn i16_at(d: Seq<u8>, i: int) -> int {
    if le16_at(d, i) < 0x8000 {
        le16_at(d, i)
    } else {
        le16_at(d, i) - 0x1_0000
    }
}

/// A signed 16-bit field promoted to 16.16 fixed point: the map-unit
/// value shifted left by 16.
pub open spec fn fixed_at(d: Seq<u8>, i: int) -> i32 {
    (i16_at(d, i) * 0x1_0000) as i32
}

fn read_u16(d: &[u8], i: usize) -> (r: u16)
    requires
        i + 2 <= d@.len(),
    ensures
        r == le16_at(d@, i as int),
{
    (d[i] as u16) + (d[i + 1] as u16) * 0x100
}

fn read_u32(d: &[u8], i: usize) -> (r: u32)
    requires
        i + 4 <= d@.len(),
    ensures
        r == le32_at(d@, i as int),
{
    (d[i] as u32) + (d[i + 1] as u32) * 0x100 + (d[i + 2] as u32) * 0x1_0000 + (d[i + 3] as u32)
        * 0x100_0000
}

fn read_fixed(d: &[u8], i: usize) -> (r: i32)
    requires
        i + 2 <= d@.len(),
    ensures
        r == fixed_at(d@, i as int),
{
    let v = read_u16(d, i);
    let s: i32 = if v < 0x8000 {
        v as i32
    } else {
        (v as i32) - 0x1_0000
    };
    s * 0x1_0000
}

// ---------------------------------------------------------------------
// Record layouts, one spec function and one parser per lump kind.  A
// lump whose byte length is not a whole number of records is invalid;
// otherwise every record is decoded in order, the record at index k
// starting at byte offset record-size times k.

/// The 14-byte line record at byte offset `i`.
pub open spec fn linedef_at(d: Seq<u8>, i: int) -> LineDef {
    LineDef {
        v0: le16_at(d, i) as u32,
        v1: le16_at(d, i + 2) as u32,
        flags: le16_at(d, i + 4) as u32,
        special_type: le16_at(d, i + 6) as u32,
        sector_tag: le16_at(d, i + 8) as u32,
        side0: le16_at(d, i + 10) as u32,
        side1: le16_at(d, i + 12) as u32,
    }
}

pub open spec fn parse_linedefs_spec(d: Seq<u8>) -> Result<Seq<LineDef>, WadErrorView> {
    if d.len() % 14 == 0 {
        Ok(Seq::new(d.len() / 14, |k: int| linedef_at(d, 14 * k)))
    } else {
        Err(WadErrorView::InvalidLump("LINEDEFS"@))
    }
}

fn parse_linedefs(d: &[u8]) -> (r: Result<Vec<LineDef>, WadError>)
    ensures
        match r {
            Ok(v) => parse_linedefs_spec(d@) == Ok::<Seq<LineDef>, WadErrorView>(v@),
            Err(e) => parse_linedefs_spec(d@) == Err::<Seq<LineDef>, WadErrorView>(e@),
        },
{
    if d.len() % 14 != 0 {
        return Err(WadError::InvalidLump("LINEDEFS"));
    }
    let num = d.len() / 14;
    proof {
        vstd::arithmetic::div_mod::lemma_fundamental_div_mod(d@.len() as int, 14);
    }
    let mut out: Vec<LineDef> = Vec::new();
    let mut k: usize = 0;
    while k < num
        invariant
            d@.len() % 14 == 0,
            num == d@.len() / 14,
            num * 14 == d@.len(),
            d@.len() <= usize::MAX,
            k <= num,
            out@.len() == k,
            forall|j: int| 0 <= j < k ==> out@[j] == linedef_at(d@, 14 * j),
        decreases num - k,
    {
        proof {
            assert(k * 14 + 14 <= num * 14) by (nonlinear_arith)
                requires
                    k < num,
            ;
        }
        let base = k * 14;
        out.push(
            LineDef {
                v0: read_u16(d, base) as u32,
                v1: read_u16(d, base + 2) as u32,
                flags: read_u16(d, base + 4) as u32,
                special_type: read_u16(d, base + 6) as u32,
                sector_tag: read_u16(d, base + 8) as u32,
                side0: read_u16(d, base + 10) as u32,
                side1: read_u16(d, base + 12) as u32,
            },
        );
        k += 1;
    }
    proof {
        assert(out@ =~= Seq::new(d@.len() / 14, |j: int| linedef_at(d@, 14 * j)));
    }
    Ok(out)
}

pub open spec fn sidedef_at(d: Seq<u8>, i: int) -> SideDef {
    SideDef {
        x_offset: fixed_at(d, i),
        y_offset: fixed_at(d, i + 2),
        sector: le16_at(d, i + 28) as u32,
    }
}

pub open spec fn parse_sidedefs_spec(d: Seq<u8>) -> Result<Seq<SideDef>, WadErrorView> {
    if d.len() % 30 == 0 {
        Ok(Seq::new(d.len() / 30, |k: int| sidedef_at(d, 30 * k)))
    } else {
        Err(WadErrorView::InvalidLump("SIDEDEFS"@))
    }
}

fn parse_sidedefs(d: &[u8]) -> (r: Result<Vec<SideDef>, WadError>)
    ensures
        match r {
            Ok(v) => parse_sidedefs_spec(d@) == Ok::<Seq<SideDef>, WadErrorView>(v@),
            Err(e) => parse_sidedefs_spec(d@) == Err::<Seq<SideDef>, WadErrorView>(e@),
        },
{
    if d.len() % 30 != 0 {
        return Err(WadError::InvalidLump("SIDEDEFS"));
    }
    let num = d.len() / 30;
    proof {
        vstd::arithmetic::div_mod::lemma_fundamental_div_mod(d@.len() as int, 30);
    }
    let mut out: Vec<SideDef> = Vec::new();
    let mut k: usize = 0;
    while k < num
        invariant
            d@.len() % 30 == 0,
            num == d@.len() / 30,
            num * 30 == d@.len(),
            d@.len() <= usize::MAX,
            k <= num,
            out@.len() == k,
            forall|j: int| 0 <= j < k ==> out@[j] == sidedef_at(d@, 30 * j),
        decreases num - k,
    {
        proof {
            assert(k * 30 + 30 <= num * 30) by (nonlinear_arith)
                requires
                    k < num,
            ;
        }
        let base = k * 30;
        // the three 8-byte texture names between the offsets and the
        // sector index are not part of the model and are skipped
        out.push(
            SideDef {
                x_offset: read_fixed(d, base),
                y_offset: read_fixed(d, base + 2),
                sector: read_u16(d, base + 28) as u32,
            },
        );
        k += 1;
    }
    proof {
        assert(out@ =~= Seq::new(d@.len() / 30, |j: int| sidedef_at(d@, 30 * j)));
    }
    Ok(out)
}

pub open spec fn vertex_at(d: Seq<u8>, i: int) -> Vertex {
    Vertex { x: fixed_at(d, i), y: fixed_at(d, i + 2) }
}

pub open spec fn parse_vertexes_spec(d: Seq<u8>) -> Result<Seq<Vertex>, WadErrorView> {
    if d.len() % 4 == 0 {
        Ok(Seq::new(d.len() / 4, |k: int| vertex_at(d, 4 * k)))
    } else {
        Err(WadErrorView::InvalidLump("VERTEXES"@))
    }
}

fn parse_vertexes(d: &[u8]) -> (r: Result<Vec<Vertex>, WadError>)
    ensures
        match r {
            Ok(v) => parse_vertexes_spec(d@) == Ok::<Seq<Vertex>, WadErrorView>(v@),
            Err(e) => parse_vertexes_spec(d@) == Err::<Seq<Vertex>, WadErrorView>(e@),
        },
{
    if d.len() % 4 != 0 {
        return Err(WadError::InvalidLump("VERTEXES"));
    }
    let num = d.len() / 4;
    proof {
        vstd::arithmetic::div_mod::lemma_fundamental_div_mod(d@.len() as int, 4);
    }
    let mut out: Vec<Vertex> = Vec::new();
    let mut k: usize = 0;
    while k < num
        invariant
            d@.len() % 4 == 0,
            num == d@.len() / 4,
            num * 4 == d@.len(),
            d@.len() <= usize::MAX,
            k <= num,
            out@.len() == k,
            forall|j: int| 0 <= j < k ==> out@[j] == vertex_at(d@, 4 * j),
        decreases num - k,
    {
        proof {
            assert(k * 4 + 4 <= num * 4) by (nonlinear_arith)
                requires
                    k < num,
            ;
        }
        let base = k * 4;
        out.push(Vertex { x: read_fixed(d, base), y: read_fixed(d, base + 2) });
        k += 1;
    }
    proof {
        assert(out@ =~= Seq::new(d@.len() / 4, |j: int| vertex_at(d@, 4 * j)));
    }
    Ok(out)
}

pub open spec fn seg_at(d: Seq<u8>, i: int) -> LineSegment {
    LineSegment {
        v0: le16_at(d, i) as u32,
        v1: le16_at(d, i + 2) as u32,
        angle: le16_at(d, i + 4) as u16,
        line: le16_at(d, i + 6) as u32,
        side: le16_at(d, i + 8) as u16,
        offset: fixed_at(d, i + 10),
    }
}

pub open spec fn parse_segs_spec(d: Seq<u8>) -> Result<Seq<LineSegment>, WadErrorView> {
    if d.len() % 12 == 0 {
        Ok(Seq::new(d.len() / 12, |k: int| seg_at(d, 12 * k)))
    } else {
        Err(WadErrorView::InvalidLump("SEGS"@))
    }
}

fn parse_segs(d: &[u8]) -> (r: Result<Vec<LineSegment>, WadError>)
    ensures
        match r {
            Ok(v) => parse_segs_spec(d@) == Ok::<Seq<LineSegment>, WadErrorView>(v@),
            Err(e) => parse_segs_spec(d@) == Err::<Seq<LineSegment>, WadErrorView>(e@),
        },
{
    if d.len() % 12 != 0 {
        return Err(WadError::InvalidLump("SEGS"));
    }
    let num = d.len() / 12;
    proof {
        vstd::arithmetic::div_mod::lemma_fundamental_div_mod(d@.len() as int, 12);
    }
    let mut out: Vec<LineSegment> = Vec::new();
    let mut k: usize = 0;
    while k < num
        invariant
            d@.len() % 12 == 0,
            num == d@.len() / 12,
            num * 12 == d@.len(),
            d@.len() <= usize::MAX,
            k <= num,
            out@.len() == k,
            forall|j: int| 0 <= j < k ==> out@[j] == seg_at(d@, 12 * j),
        decreases num - k,
    {
        proof {
            assert(k * 12 + 12 <= num * 12) by (nonlinear_arith)
                requires
                    k < num,
            ;
        }
        let base = k * 12;
        out.push(
            LineSegment {
                v0: read_u16(d, base) as u32,
                v1: read_u16(d, base + 2) as u32,
                angle: read_u16(d, base + 4),
                line: read_u16(d, base + 6) as u32,
                side: read_u16(d, base + 8),
                offset: read_fixed(d, base + 10),
            },
        );
        k += 1;
    }
    proof {
        assert(out@ =~= Seq::new(d@.len() / 12, |j: int| seg_at(d@, 12 * j)));
    }
    Ok(out)
}

pub open spec fn subsector_at(d: Seq<u8>, i: int) -> Subsector {
    Subsector { num_segs: le16_at(d, i) as u32, first_seg: le16_at(d, i + 2) as u32 }
}

pub open spec fn parse_ssectors_spec(d: Seq<u8>) -> Result<Seq<Subsector>, WadErrorView> {
    if d.len() % 4 == 0 {
        Ok(Seq::new(d.len() / 4, |k: int| subsector_at(d, 4 * k)))
    } else {
        Err(WadErrorView::InvalidLump("SSECTORS"@))
    }
}

fn parse_ssectors(d: &[u8]) -> (r: Result<Vec<Subsector>, WadError>)
    ensures
        match r {
            Ok(v) => parse_ssectors_spec(d@) == Ok::<Seq<Subsector>, WadErrorView>(v@),
            Err(e) => parse_ssectors_spec(d@) == Err::<Seq<Subsector>, WadErrorView>(e@),
        },
{
    if d.len() % 4 != 0 {
        return Err(WadError::InvalidLump("SSECTORS"));
    }
    let num = d.len() / 4;
    proof {
        vstd::arithmetic::div_mod::lemma_fundamental_div_mod(d@.len() as int, 4);
    }
    let mut out: Vec<Subsector> = Vec::new();
    let mut k: usize = 0;
    while k < num
        invariant
            d@.len() % 4 == 0,
            num == d@.len() / 4,
            num * 4 == d@.len(),
            d@.len() <= usize::MAX,
            k <= num,
            out@.len() == k,
            forall|j: int| 0 <= j < k ==> out@[j] == subsector_at(d@, 4 * j),
        decreases num - k,
    {
        proof {
            assert(k * 4 + 4 <= num * 4) by (nonlinear_arith)
                requires
                    k < num,
            ;
        }
        let base = k * 4;
        out.push(
            Subsector { num_segs: read_u16(d, base) as u32, first_seg: read_u16(d, base + 2) as u32 },
        );
        k += 1;
    }
    proof {
        assert(out@ =~= Seq::new(d@.len() / 4, |j: int| subsector_at(d@, 4 * j)));
    }
    Ok(out)
}

/// The raw 16-bit child value remapped to a 32-bit reference: a set top
/// bit moves to bit 31 (a leaf reference keeping the low 15 bits as the
/// subsector index), a clear top bit passes the value through.
pub open spec fn child_ref(c: int) -> u32 {
    if c >= 0x8000 {
        (c - 0x8000 + 0x8000_0000) as u32
    } else {
        c as u32
    }
}

pub open spec fn node_at(d: Seq<u8>, i: int) -> Node {
    Node {
        x: fixed_at(d, i),
        y: fixed_at(d, i + 2),
        dx: fixed_at(d, i + 4),
        dy: fixed_at(d, i + 6),
        bounds0: Bounds {
            top: fixed_at(d, i + 8),
            bottom: fixed_at(d, i + 10),
            left: fixed_at(d, i + 12),
            right: fixed_at(d, i + 14),
        },
        bounds1: Bounds {
            top: fixed_at(d, i + 16),
            bottom: fixed_at(d, i + 18),
            left: fixed_at(d, i + 20),
            right: fixed_at(d, i + 22),
        },
        child0: child_ref(le16_at(d, i + 24)),
        child1: child_ref(le16_at(d, i + 26)),
    }
}

pub open spec fn parse_nodes_spec(d: Seq<u8>) -> Result<Seq<Node>, WadErrorView> {
    if d.len() % 28 == 0 {
        Ok(Seq::new(d.len() / 28, |k: int| node_at(d, 28 * k)))
    } else {
        Err(WadErrorView::InvalidLump("NODES"@))
    }
}

fn read_child_ref(d: &[u8], i: usize) -> (r: u32)
    requires
        i + 2 <= d@.len(),
    ensures
        r == child_ref(le16_at(d@, i as int)),
{
    let c = read_u16(d, i);
    if c >= 0x8000 {
        ((c - 0x8000) as u32) + 0x8000_0000
    } else {
        c as u32
    }
}

fn parse_nodes(d: &[u8]) -> (r: Result<Vec<Node>, WadError>)
    ensures
        match r {
            Ok(v) => parse_nodes_spec(d@) == Ok::<Seq<Node>, WadErrorView>(v@),
            Err(e) => parse_nodes_spec(d@) == Err::<Seq<Node>, WadErrorView>(e@),
        },
{
    if d.len() % 28 != 0 {
        return Err(WadError::InvalidLump("NODES"));
    }
    let num = d.len() / 28;
    proof {
        vstd::arithmetic::div_mod::lemma_fundamental_div_mod(d@.len() as int, 28);
    }
    let mut out: Vec<Node> = Vec::new();
    let mut k: usize = 0;
    while k < num
        invariant
            d@.len() % 28 == 0,
            num == d@.len() / 28,
            num * 28 == d@.len(),
            d@.len() <= usize::MAX,
            k <= num,
            out@.len() == k,
            forall|j: int| 0 <= j < k ==> out@[j] == node_at(d@, 28 * j),
        decreases num - k,
    {
        proof {
            assert(k * 28 + 28 <= num * 28) by (nonlinear_arith)
                requires
                    k < num,
            ;
        }
        let base = k * 28;
        out.push(
            Node {
                x: read_fixed(d, base),
                y: read_fixed(d, base + 2),
                dx: read_fixed(d, base + 4),
                dy: read_fixed(d, base + 6),
                bounds0: Bounds {
                    top: read_fixed(d, base + 8),
                    bottom: read_fixed(d, base + 10),
                    left: read_fixed(d, base + 12),
                    right: read_fixed(d, base + 14),
                },
                bounds1: Bounds {
                    top: read_fixed(d, base + 16),
                    bottom: read_fixed(d, base + 18),
                    left: read_fixed(d, base + 20),
                    right: read_fixed(d, base + 22),
                },
                child0: read_child_ref(d, base + 24),
                child1: read_child_ref(d, base + 26),
            },
        );
        k += 1;
    }
    proof {
        assert(out@ =~= Seq::new(d@.len() / 28, |j: int| node_at(d@, 28 * j)));
    }
    Ok(out)
}

pub open spec fn sector_at(d: Seq<u8>, i: int) -> Sector {
    Sector {
        floor_height: fixed_at(d, i),
        ceiling_height: fixed_at(d, i + 2),
        light_level: (le16_at(d, i + 20) * 0x1_0000) as u32,
        sector_type: le16_at(d, i + 22) as u32,
        tag: le16_at(d, i + 24) as u32,
    }
}

pub open spec fn parse_sectors_spec(d: Seq<u8>) -> Result<Seq<Sector>, WadErrorView> {
    if d.len() % 26 == 0 {
        Ok(Seq::new(d.len() / 26, |k: int| sector_at(d, 26 * k)))
    } else {
        Err(WadErrorView::InvalidLump("SECTORS"@))
    }
}

fn parse_sectors(d: &[u8]) -> (r: Result<Vec<Sector>, WadError>)
    ensures
        match r {
            Ok(v) => parse_sectors_spec(d@) == Ok::<Seq<Sector>, WadErrorView>(v@),
            Err(e) => parse_sectors_spec(d@) == Err::<Seq<Sector>, WadErrorView>(e@),
        },
{
    if d.len() % 26 != 0 {
        return Err(WadError::InvalidLump("SECTORS"));
    }
    let num = d.len() / 26;
    proof {
        vstd::arithmetic::div_mod::lemma_fundamental_div_mod(d@.len() as int, 26);
    }
    let mut out: Vec<Sector> = Vec::new();
    let mut k: usize = 0;
    while k < num
        invariant
            d@.len() % 26 == 0,
            num == d@.len() / 26,
            num * 26 == d@.len(),
            d@.len() <= usize::MAX,
            k <= num,
            out@.len() == k,
            forall|j: int| 0 <= j < k ==> out@[j] == sector_at(d@, 26 * j),
        decreases num - k,
    {
        proof {
            assert(k * 26 + 26 <= num * 26) by (nonlinear_arith)
                requires
                    k < num,
            ;
        }
        let base = k * 26;
        // the two 8-byte texture names between the heights and the light
        // level are not part of the model and are skipped; the light
        // level is promoted by the same 16-bit shift as the positional
        // fields
        out.push(
            Sector {
                floor_height: read_fixed(d, base),
                ceiling_height: read_fixed(d, base + 2),
                light_level: (read_u16(d, base + 20) as u32) * 0x1_0000,
                sector_type: read_u16(d, base + 22) as u32,
                tag: read_u16(d, base + 24) as u32,
            },
        );
        k += 1;
    }
    proof {
        assert(out@ =~= Seq::new(d@.len() / 26, |j: int| sector_at(d@, 26 * j)));
    }
    Ok(out)
}

// ---------------------------------------------------------------------
// The lump directory cursor.

/// One directory entry: the lump's byte position and size, and its
/// 8-byte name, NUL-padded when shorter than eight characters.
pub struct LumpHeader {
    pub pos: u64,
    pub size: u64,
    pub name: Vec<u8>,
}

/// The mathematical content of a `LumpHeader`.
pub struct LumpHeaderView {
    pub pos: u64,
    pub size: u64,
    pub name: Seq<u8>,
}

impl View for LumpHeader {
    type V = LumpHeaderView;

    open spec fn view(&self) -> LumpHeaderView {
        LumpHeaderView { pos: self.pos, size: self.size, name: self.name@ }
    }
}

/// The directory entry whose 16 bytes start at offset `p`.
pub open spec fn lump_at(d: Seq<u8>, p: int) -> LumpHeaderView {
    LumpHeaderView {
        pos: le32_at(d, p) as u64,
        size: le32_at(d, p + 4) as u64,
        name: d.subrange(p + 8, p + 16),
    }
}

/// The state of the directory cursor: the byte offset of the entry under
/// it and how many entries are left.  The cursor only ever moves forward.
pub struct LumpReaderView {
    pub pos: u64,
    pub left: u32,
}

impl LumpReaderView {
    /// The cursor never runs its position out of 64 bits.
    pub open spec fn wf(self) -> bool {
        self.pos + 16 * self.left <= u64::MAX
    }

    /// The cursor after consuming the entry under it.
    pub open spec fn advance(self) -> LumpReaderView {
        if self.left == 0 {
            self
        } else {
            LumpReaderView { pos: (self.pos + 16) as u64, left: (self.left - 1) as u32 }
        }
    }

    /// What reading the entry under the cursor yields: nothing when the
    /// directory is exhausted, the entry when its 16 bytes lie inside the
    /// source, and a read failure otherwise.
    pub open spec fn get_spec(self, d: Seq<u8>) -> Result<Option<LumpHeaderView>, WadErrorView> {
        if self.left == 0 {
            Ok(None)
        } else if self.pos + 16 <= d.len() {
            Ok(Some(lump_at(d, self.pos as int)))
        } else {
            Err(WadErrorView::IoFailure)
        }
    }
}

struct LumpReader {
    pos: u64,
    lumps_left: u32,
}

impl View for LumpReader {
    type V = LumpReaderView;

    closed spec fn view(&self) -> LumpReaderView {
        LumpReaderView { pos: self.pos, left: self.lumps_left }
    }
}

impl LumpReader {
    fn new(pos: u64, num_lumps: u32) -> (r: LumpReader)
        requires
            pos + 16 * num_lumps <= u64::MAX,
        ensures
            r@ == (LumpReaderView { pos, left: num_lumps }),
            r@.wf(),
    {
        LumpReader { pos, lumps_left: num_lumps }
    }

    fn get(&self, d: &[u8]) -> (r: WadResult<Option<LumpHeader>>)
        requires
            self@.wf(),
        ensures
            match r {
                Ok(Some(h)) => self@.get_spec(d@) == Ok::<Option<LumpHeaderView>, WadErrorView>(
                    Some(h@),
                ) && h@.name.len() == 8,
                Ok(None) => self@.get_spec(d@) == Ok::<Option<LumpHeaderView>, WadErrorView>(None),
                Err(e) => self@.get_spec(d@) == Err::<Option<LumpHeaderView>, WadErrorView>(e@),
            },
    {
        if self.lumps_left == 0 {
            return Ok(None);
        }
        if self.pos + 16 > d.len() as u64 {
            return Err(WadError::IoFailure);
        }
        let off = self.pos as usize;
        let pos = read_u32(d, off) as u64;
        let size = read_u32(d, off + 4) as u64;
        let name = vstd::slice::slice_to_vec(&d[off + 8..off + 16]);
        Ok(Some(LumpHeader { pos, size, name }))
    }

    fn next(&mut self)
        requires
            old(self)@.wf(),
        ensures
            final(self)@ == old(self)@.advance(),
            final(self)@.wf(),
    {
        if self.lumps_left == 0 {
            return;
        }
        self.pos = self.pos + 16;
        self.lumps_left = self.lumps_left - 1;
    }
}

// ---------------------------------------------------------------------
// Level-marker detection.

/// The wrapped two-digit map number of a Doom-2-style name: ten times the
/// fourth byte's digit value plus the fifth byte less 48, all in wrapping
/// 8-bit arithmetic.  Any fifth byte takes part; one that is not a digit
/// corrupts the number rather than rejecting the name, and the bound of
/// 32 below then decides.
pub open spec fn map_number(n: Seq<u8>) -> u8 {
    vstd::wrapping::u8_specs::wrapping_add(
        (10 * (n[3] - 48)) as u8,
        vstd::wrapping::u8_specs::wrapping_sub(n[4], 48),
    )
}

/// A Doom-2-style level name: `MAP` then a digit, with the wrapped map
/// number at most 32.
pub open spec fn is_doom2_marker(n: Seq<u8>) -> bool {
    &&& n[0] == 77  // 'M'
    &&& n[1] == 65  // 'A'
    &&& n[2] == 80  // 'P'
    &&& 48 <= n[3] <= 57
    &&& map_number(n) <= 32
}

/// A Doom-1-style level name: `E` then a digit up to 4, then `M` and any
/// digit; no bound on the episode/map combination.
pub open spec fn is_doom1_marker(n: Seq<u8>) -> bool {
    &&& n[0] == 69  // 'E'
    &&& n[2] == 77  // 'M'
    &&& 48 <= n[1] <= 52
    &&& 48 <= n[3] <= 57
}

/// A directory entry marks a level exactly when its size is zero and its
/// name has one of the two level-name shapes.
pub open spec fn is_map_marker(h: LumpHeaderView) -> bool {
    h.size == 0 && (is_doom2_marker(h.name) || is_doom1_marker(h.name))
}

/// Decides whether a directory entry is a level marker.
pub fn is_map_lump(lump: &LumpHeader) -> (b: bool)
    requires
        lump@.name.len() == 8,
    ensures
        b == is_map_marker(lump@),
{
    if lump.size != 0 {
        return false;
    }
    let n = &lump.name;
    if n[0] == 77 && n[1] == 65 && n[2] == 80 {  // "MAP"
        if n[3] < 48 || n[3] > 57 {  // not a digit
            return false;
        }
        let map_num: u8 = (n[3] - 48) * 10;
        let map_num: u8 = map_num.wrapping_add(n[4].wrapping_sub(48));
        return map_num <= 32;
    }
    if n[0] == 69 && n[2] == 77 {  // 'E', 'M'
        if n[1] < 48 || n[1] > 52 {  // episode digit up to '4'
            return false;
        }
        if n[3] < 48 || n[3] > 57 {
            return false;
        }
        return true;
    }
    false
}

// ---------------------------------------------------------------------
// Lump names.

/// The expected-name comparison: expected bytes are compared in order
/// against the entry's 8-byte name; a NUL in the entry accepts the
/// expected name as a prefix, and entry bytes beyond the expected name's
/// length are not examined.
pub open spec fn name_matches_from(entry: Seq<u8>, want: Seq<u8>, k: int) -> bool
    decreases want.len() - k,
{
    if k >= want.len() {
        true
    } else if k >= entry.len() {
        true
    } else if entry[k] == 0 {
        true
    } else if entry[k] != want[k] {
        false
    } else {
        name_matches_from(entry, want, k + 1)
    }
}

pub open spec fn name_matches(entry: Seq<u8>, want: Seq<u8>) -> bool {
    name_matches_from(entry, want, 0)
}

fn lump_name_matches(entry: &Vec<u8>, want: &[u8]) -> (b: bool)
    ensures
        b == name_matches(entry@, want@),
{
    let mut k: usize = 0;
    while k < want.len()
        invariant
            k <= want@.len(),
            name_matches(entry@, want@) == name_matches_from(entry@, want@, k as int),
        decreases want@.len() - k,
    {
        if k >= entry.len() {
            return true;
        }
        if entry[k] == 0 {
            return true;
        }
        if entry[k] != want[k] {
            return false;
        }
        k += 1;
    }
    true
}

/// The significant prefix of an 8-byte lump name: the bytes before the
/// first NUL.
pub open spec fn name_prefix(n: Seq<u8>) -> Seq<u8>
    decreases n.len(),
{
    if n.len() == 0 {
        Seq::empty()
    } else if n[0] == 0 {
        Seq::empty()
    } else {
        seq![n[0]] + name_prefix(n.drop_first())
    }
}

proof fn lemma_name_prefix_take(n: Seq<u8>, k: int)
    requires
        0 <= k <= n.len(),
        forall|j: int| 0 <= j < k ==> n[j] != 0,
        k == n.len() || n[k] == 0,
    ensures
        name_prefix(n) == n.subrange(0, k),
    decreases k,
{
    if k == 0 {
        assert(name_prefix(n) =~= n.subrange(0, 0));
    } else {
        lemma_name_prefix_take(n.drop_first(), k - 1);
        assert(name_prefix(n) == seq![n[0]] + n.drop_first().subrange(0, k - 1));
        assert(seq![n[0]] + n.drop_first().subrange(0, k - 1) =~= n.subrange(0, k));
    }
}

fn take_name_prefix(n: &Vec<u8>) -> (r: Vec<u8>)
    ensures
        r@ == name_prefix(n@),
{
    let mut k: usize = 0;
    while k < n.len() && n[k] != 0
        invariant
            k <= n@.len(),
            forall|j: int| 0 <= j < k ==> n@[j] != 0,
        decreases n@.len() - k,
    {
        k += 1;
    }
    let r = vstd::slice::slice_to_vec(&n.as_slice()[0..k]);
    proof {
        lemma_name_prefix_take(n@, k as int);
    }
    r
}

// ---------------------------------------------------------------------
// The expected lump names of a level group, in their mandatory order.

/// "THINGS"
pub open spec fn things_name() -> Seq<u8> {
    seq![84u8, 72u8, 73u8, 78u8, 71u8, 83u8]
}

/// "LINEDEFS"
pub open spec fn linedefs_name() -> Seq<u8> {
    seq![76u8, 73u8, 78u8, 69u8, 68u8, 69u8, 70u8, 83u8]
}

/// "SIDEDEFS"
pub open spec fn sidedefs_name() -> Seq<u8> {
    seq![83u8, 73u8, 68u8, 69u8, 68u8, 69u8, 70u8, 83u8]
}

/// "VERTEXES"
pub open spec fn vertexes_name() -> Seq<u8> {
    seq![86u8, 69u8, 82u8, 84u8, 69u8, 88u8, 69u8, 83u8]
}

/// "SEGS"
pub open spec fn segs_name() -> Seq<u8> {
    seq![83u8, 69u8, 71u8, 83u8]
}

/// "SSECTORS"
pub open spec fn ssectors_name() -> Seq<u8> {
    seq![83u8, 83u8, 69u8, 67u8, 84u8, 79u8, 82u8, 83u8]
}

/// "NODES"
pub open spec fn nodes_name() -> Seq<u8> {
    seq![78u8, 79u8, 68u8, 69u8, 83u8]
}

/// "SECTORS"
pub open spec fn sectors_name() -> Seq<u8> {
    seq![83u8, 69u8, 67u8, 84u8, 79u8, 82u8, 83u8]
}

// ---------------------------------------------------------------------
// Reading one expected lump of a level group.

/// Reading an optional lump: when the entry under the cursor matches the
/// wanted name, its payload is loaded and the cursor advances; when it
/// does not, the entry is left unconsumed and there is no payload.
pub open spec fn read_optional_spec(d: Seq<u8>, rdr: LumpReaderView, want: Seq<u8>) -> Result<
    (Option<Seq<u8>>, LumpReaderView),
    WadErrorView,
> {
    match rdr.get_spec(d) {
        Err(e) => Err(e),
        Ok(None) => Ok((None, rdr)),
        Ok(Some(h)) => if name_matches(h.name, want) {
            if h.pos + h.size <= d.len() {
                Ok((Some(d.subrange(h.pos as int, h.pos + h.size)), rdr.advance()))
            } else {
                Err(WadErrorView::IoFailure)
            }
        } else {
            Ok((None, rdr))
        },
    }
}

/// Reading a mandatory lump: as the optional case, except that an entry
/// that does not match — or an exhausted directory — is a missing lump.
/// The decoder never searches ahead: the directory order is authoritative.
pub open spec fn read_required_spec(
    d: Seq<u8>,
    rdr: LumpReaderView,
    want: Seq<u8>,
    label: Seq<char>,
) -> Result<(Seq<u8>, LumpReaderView), WadErrorView> {
    match rdr.get_spec(d) {
        Err(e) => Err(e),
        Ok(None) => Err(WadErrorView::LumpMissing(label)),
        Ok(Some(h)) => if name_matches(h.name, want) {
            if h.pos + h.size <= d.len() {
                Ok((d.subrange(h.pos as int, h.pos + h.size), rdr.advance()))
            } else {
                Err(WadErrorView::IoFailure)
            }
        } else {
            Err(WadErrorView::LumpMissing(label))
        },
    }
}

fn read_optional(d: &[u8], rdr: &mut LumpReader, want: &Vec<u8>) -> (r: WadResult<Option<Vec<u8>>>)
    requires
        old(rdr)@.wf(),
    ensures
        final(rdr)@.wf(),
        final(rdr)@.left <= old(rdr)@.left,
        match r {
            Ok(Some(pl)) => read_optional_spec(d@, old(rdr)@, want@) == Ok::<
                (Option<Seq<u8>>, LumpReaderView),
                WadErrorView,
            >((Some(pl@), final(rdr)@)),
            Ok(None) => final(rdr)@ == old(rdr)@ && read_optional_spec(d@, old(rdr)@, want@)
                == Ok::<(Option<Seq<u8>>, LumpReaderView), WadErrorView>((None, old(rdr)@)),
            Err(e) => read_optional_spec(d@, old(rdr)@, want@) == Err::<
                (Option<Seq<u8>>, LumpReaderView),
                WadErrorView,
            >(e@),
        },
{
    let got = match rdr.get(d) {
        Ok(g) => g,
        Err(e) => {
            return Err(e);
        },
    };
    match got {
        None => Ok(None),
        Some(h) => {
            if lump_name_matches(&h.name, want.as_slice()) {
                if h.pos + h.size <= d.len() as u64 {
                    let a = h.pos as usize;
                    let b = (h.pos + h.size) as usize;
                    let pl = vstd::slice::slice_to_vec(&d[a..b]);
                    rdr.next();
                    Ok(Some(pl))
                } else {
                    Err(WadError::IoFailure)
                }
            } else {
                Ok(None)
            }
        },
    }
}

fn read_required(d: &[u8], rdr: &mut LumpReader, want: &Vec<u8>, label: &'static str) -> (r:
    WadResult<Vec<u8>>)
    requires
        old(rdr)@.wf(),
    ensures
        final(rdr)@.wf(),
        final(rdr)@.left <= old(rdr)@.left,
        match r {
            Ok(pl) => read_required_spec(d@, old(rdr)@, want@, label@) == Ok::<
                (Seq<u8>, LumpReaderView),
                WadErrorView,
            >((pl@, final(rdr)@)),
            Err(e) => read_required_spec(d@, old(rdr)@, want@, label@) == Err::<
                (Seq<u8>, LumpReaderView),
                WadErrorView,
            >(e@),
        },
{
    let got = match rdr.get(d) {
        Ok(g) => g,
        Err(e) => {
            return Err(e);
        },
    };
    match got {
        None => Err(WadError::LumpMissing(label)),
        Some(h) => {
            if lump_name_matches(&h.name, want.as_slice()) {
                if h.pos + h.size <= d.len() as u64 {
                    let a = h.pos as usize;
                    let b = (h.pos + h.size) as usize;
                    let pl = vstd::slice::slice_to_vec(&d[a..b]);
                    rdr.next();
                    Ok(pl)
                } else {
                    Err(WadError::IoFailure)
                }
            } else {
                Err(WadError::LumpMissing(label))
            }
        },
    }
}

// ---------------------------------------------------------------------
// Decoding one level's lump group.

/// Decoding the lump group that follows a level marker: the marker is
/// consumed, an optional `THINGS` lump is consumed if present (its
/// content is discarded), and then the seven mandatory lumps follow in
/// their fixed order, each decoded by its record layout.
pub open spec fn read_map_spec(d: Seq<u8>, marker: Seq<u8>, rdr0: LumpReaderView) -> Result<
    (LevelView, LumpReaderView),
    WadErrorView,
> {
    match read_optional_spec(d, rdr0.advance(), things_name()) {
        Err(e) => Err(e),
        Ok((_things, r1)) => match read_required_spec(d, r1, linedefs_name(), "LINEDEFS"@) {
            Err(e) => Err(e),
            Ok((pl, r2)) => match parse_linedefs_spec(pl) {
                Err(e) => Err(e),
                Ok(lines) => match read_required_spec(d, r2, sidedefs_name(), "SIDEDEFS"@) {
                    Err(e) => Err(e),
                    Ok((pl, r3)) => match parse_sidedefs_spec(pl) {
                        Err(e) => Err(e),
                        Ok(sides) => match read_required_spec(d, r3, vertexes_name(), "VERTEXES"@) {
                            Err(e) => Err(e),
                            Ok((pl, r4)) => match parse_vertexes_spec(pl) {
                                Err(e) => Err(e),
                                Ok(vertices) => match read_required_spec(
                                    d,
                                    r4,
                                    segs_name(),
                                    "SEGS"@,
                                ) {
                                    Err(e) => Err(e),
                                    Ok((pl, r5)) => match parse_segs_spec(pl) {
                                        Err(e) => Err(e),
                                        Ok(segs) => match read_required_spec(
                                            d,
                                            r5,
                                            ssectors_name(),
                                            "SSECTORS"@,
                                        ) {
                                            Err(e) => Err(e),
                                            Ok((pl, r6)) => match parse_ssectors_spec(pl) {
                                                Err(e) => Err(e),
                                                Ok(subsectors) => match read_required_spec(
                                                    d,
                                                    r6,
                                                    nodes_name(),
                                                    "NODES"@,
                                                ) {
                                                    Err(e) => Err(e),
                                                    Ok((pl, r7)) => match parse_nodes_spec(pl) {
                                                        Err(e) => Err(e),
                                                        Ok(nodes) => match read_required_spec(
                                                            d,
                                                            r7,
                                                            sectors_name(),
                                                            "SECTORS"@,
                                                        ) {
                                                            Err(e) => Err(e),
                                                            Ok((pl, r8)) => match parse_sectors_spec(
                                                                pl,
                                                            ) {
                                                                Err(e) => Err(e),
                                                                Ok(sectors) => Ok(
                                                                    (
                                                                        LevelView {
                                                                            name: name_prefix(
                                                                                marker,
                                                                            ),
                                                                            lines,
                                                                            sides,
                                                                            sectors,
                                                                            subsectors,
                                                                            segs,
                                                                            nodes,
                                                                            vertices,
                                                                        },
                                                                        r8,
                                                                    ),
                                                                ),
                                                            },
                                                        },
                                                    },
                                                },
                                            },
                                        },
                                    },
                                },
                            },
                        },
                    },
                },
            },
        },
    }
}

/// Decoding a level group consumes at least the marker entry.
proof fn lemma_read_map_left(d: Seq<u8>, marker: Seq<u8>, rdr0: LumpReaderView)
    requires
        rdr0.left >= 1,
    ensures
        match read_map_spec(d, marker, rdr0) {
            Ok(p) => p.1.left < rdr0.left,
            Err(_) => true,
        },
{
}

fn read_map(d: &[u8], name_bytes: Vec<u8>, rdr: &mut LumpReader) -> (r: WadResult<Level>)
    requires
        old(rdr)@.wf(),
        old(rdr)@.left >= 1,
    ensures
        final(rdr)@.wf(),
        match r {
            Ok(level) => read_map_spec(d@, name_bytes@, old(rdr)@) == Ok::<
                (LevelView, LumpReaderView),
                WadErrorView,
            >((level@, final(rdr)@)) && final(rdr)@.left < old(rdr)@.left,
            Err(e) => read_map_spec(d@, name_bytes@, old(rdr)@) == Err::<
                (LevelView, LumpReaderView),
                WadErrorView,
            >(e@),
        },
{
    rdr.next();
    let want: Vec<u8> = vec![84u8, 72u8, 73u8, 78u8, 71u8, 83u8];
    proof {
        assert(want@ =~= things_name());
    }
    let _things = match read_optional(d, rdr, &want) {
        Ok(o) => o,
        Err(e) => {
            return Err(e);
        },
    };
    let want: Vec<u8> = vec![76u8, 73u8, 78u8, 69u8, 68u8, 69u8, 70u8, 83u8];
    proof {
        assert(want@ =~= linedefs_name());
    }
    let pl = match read_required(d, rdr, &want, "LINEDEFS") {
        Ok(p) => p,
        Err(e) => {
            return Err(e);
        },
    };
    let lines = match parse_linedefs(pl.as_slice()) {
        Ok(v) => v,
        Err(e) => {
            return Err(e);
        },
    };
    let want: Vec<u8> = vec![83u8, 73u8, 68u8, 69u8, 68u8, 69u8, 70u8, 83u8];
    proof {
        assert(want@ =~= sidedefs_name());
    }
    let pl = match read_required(d, rdr, &want, "SIDEDEFS") {
        Ok(p) => p,
        Err(e) => {
            return Err(e);
        },
    };
    let sides = match parse_sidedefs(pl.as_slice()) {
        Ok(v) => v,
        Err(e) => {
            return Err(e);
        },
    };
    let want: Vec<u8> = vec![86u8, 69u8, 82u8, 84u8, 69u8, 88u8, 69u8, 83u8];
    proof {
        assert(want@ =~= vertexes_name());
    }
    let pl = match read_required(d, rdr, &want, "VERTEXES") {
        Ok(p) => p,
        Err(e) => {
            return Err(e);
        },
    };
    let vertices = match parse_vertexes(pl.as_slice()) {
        Ok(v) => v,
        Err(e) => {
            return Err(e);
        },
    };
    let want: Vec<u8> = vec![83u8, 69u8, 71u8, 83u8];
    proof {
        assert(want@ =~= segs_name());
    }
    let pl = match read_required(d, rdr, &want, "SEGS") {
        Ok(p) => p,
        Err(e) => {
            return Err(e);
        },
    };
    let segs = match parse_segs(pl.as_slice()) {
        Ok(v) => v,
        Err(e) => {
            return Err(e);
        },
    };
    let want: Vec<u8> = vec![83u8, 83u8, 69u8, 67u8, 84u8, 79u8, 82u8, 83u8];
    proof {
        assert(want@ =~= ssectors_name());
    }
    let pl = match read_required(d, rdr, &want, "SSECTORS") {
        Ok(p) => p,
        Err(e) => {
            return Err(e);
        },
    };
    let subsectors = match parse_ssectors(pl.as_slice()) {
        Ok(v) => v,
        Err(e) => {
            return Err(e);
        },
    };
    let want: Vec<u8> = vec![78u8, 79u8, 68u8, 69u8, 83u8];
    proof {
        assert(want@ =~= nodes_name());
    }
    let pl = match read_required(d, rdr, &want, "NODES") {
        Ok(p) => p,
        Err(e) => {
            return Err(e);
        },
    };
    let nodes = match parse_nodes(pl.as_slice()) {
        Ok(v) => v,
        Err(e) => {
            return Err(e);
        },
    };
    let want: Vec<u8> = vec![83u8, 69u8, 67u8, 84u8, 79u8, 82u8, 83u8];
    proof {
        assert(want@ =~= sectors_name());
    }
    let pl = match read_required(d, rdr, &want, "SECTORS") {
        Ok(p) => p,
        Err(e) => {
            return Err(e);
        },
    };
    let sectors = match parse_sectors(pl.as_slice()) {
        Ok(v) => v,
        Err(e) => {
            return Err(e);
        },
    };
    let name = take_name_prefix(&name_bytes);
    Ok(Level { name, lines, sides, sectors, subsectors, segs, nodes, vertices })
}

// ---------------------------------------------------------------------
// The whole archive.

/// Walking the directory from a cursor position: every zero-size entry
/// whose name has a level-name shape starts a level group, which is
/// decoded; every other entry is skipped.
pub open spec fn scan_lumps_spec(d: Seq<u8>, rdr: LumpReaderView) -> Result<
    Seq<LevelView>,
    WadErrorView,
>
    decreases rdr.left,
    via scan_lumps_spec_decreases
{
    match rdr.get_spec(d) {
        Err(e) => Err(e),
        Ok(None) => Ok(Seq::empty()),
        Ok(Some(h)) => if is_map_marker(h) {
            match read_map_spec(d, h.name, rdr) {
                Err(e) => Err(e),
                Ok((lv, rdr2)) => match scan_lumps_spec(d, rdr2) {
                    Err(e) => Err(e),
                    Ok(rest) => Ok(seq![lv] + rest),
                },
            }
        } else {
            scan_lumps_spec(d, rdr.advance())
        },
    }
}

#[via_fn]
proof fn scan_lumps_spec_decreases(d: Seq<u8>, rdr: LumpReaderView) {
    match rdr.get_spec(d) {
        Ok(Some(h)) => {
            lemma_read_map_left(d, h.name, rdr);
        },
        _ => {},
    }
}

/// What decoding a whole archive yields: the header gives the lump count
/// and the directory position, and the directory walk gives the levels
/// in archive order.  The 4-byte signature is read past, not interpreted:
/// its validation is the caller's.
pub open spec fn wad_package_spec(d: Seq<u8>) -> Result<Seq<LevelView>, WadErrorView> {
    if d.len() < 12 {
        Err(WadErrorView::IoFailure)
    } else {
        scan_lumps_spec(d, LumpReaderView { pos: le32_at(d, 8) as u64, left: le32_at(d, 4) as u32 })
    }
}

/// Zero or more decoded levels, in the order their markers stand in the
/// archive directory.
pub struct WadPackage {
    pub(crate) maps: Vec<Level>,
}

impl View for WadPackage {
    type V = Seq<LevelView>;

    closed spec fn view(&self) -> Seq<LevelView> {
        self.maps@.map_values(|l: Level| l@)
    }
}

impl WadPackage {
    /// Decodes every level of the archive whose bytes are `data`.  The
    /// 12-byte header is read (its signature having been validated by the
    /// caller), and the directory is walked once, strictly forward.
    #[verifier::rlimit(100)]
    pub fn new(data: &[u8]) -> (r: WadResult<WadPackage>)
        ensures
            match r {
                Ok(p) => wad_package_spec(data@) == Ok::<Seq<LevelView>, WadErrorView>(p@),
                Err(e) => wad_package_spec(data@) == Err::<Seq<LevelView>, WadErrorView>(e@),
            },
    {
        if data.len() < 12 {
            return Err(WadError::IoFailure);
        }
        let num_lumps = read_u32(data, 4);
        let lump_pos = read_u32(data, 8) as u64;
        let mut rdr = LumpReader::new(lump_pos, num_lumps);
        let mut maps: Vec<Level> = Vec::new();
        proof {
            assert(Seq::<LevelView>::empty() =~= maps@.map_values(|l: Level| l@));
        }
        loop
            invariant
                rdr@.wf(),
                ({
                    let full = wad_package_spec(data@);
                    match scan_lumps_spec(data@, rdr@) {
                        Ok(rest) => full == Ok::<Seq<LevelView>, WadErrorView>(
                            maps@.map_values(|l: Level| l@) + rest,
                        ),
                        Err(e) => full == Err::<Seq<LevelView>, WadErrorView>(e),
                    }
                }),
            decreases rdr@.left,
        {
            let got = match rdr.get(data) {
                Ok(g) => g,
                Err(e) => {
                    return Err(e);
                },
            };
            match got {
                None => {
                    proof {
                        assert(maps@.map_values(|l: Level| l@) + Seq::<LevelView>::empty()
                            =~= maps@.map_values(|l: Level| l@));
                    }
                    return Ok(WadPackage { maps });
                },
                Some(h) => {
                    if is_map_lump(&h) {
                        let ghost maps_before = maps@.map_values(|l: Level| l@);
                        let ghost rest_before = scan_lumps_spec(data@, rdr@);
                        let level = match read_map(data, h.name, &mut rdr) {
                            Ok(l) => l,
                            Err(e) => {
                                return Err(e);
                            },
                        };
                        let ghost lv = level@;
                        maps.push(level);
                        proof {
                            assert(maps@.map_values(|l: Level| l@) =~= maps_before.push(lv));
                            if let Ok(rest2) = scan_lumps_spec(data@, rdr@) {
                                assert(maps_before + (seq![lv] + rest2) =~= maps_before.push(lv)
                                    + rest2);
                            }
                        }
                    } else {
                        rdr.next();
                    }
                },
            }
        }
    }

    /// The decoded levels, in archive order.
    pub fn get_maps(&self) -> (r: &[Level])
        ensures
            r@.map_values(|l: Level| l@) == self@,
    {
        self.maps.as_slice()
    }
}


/// The view of a package is the element-wise view of its levels.
pub(crate) proof fn lemma_package_view(p: &WadPackage)
    ensures
        p@ == p.maps@.map_values(|l: Level| l@),
{
    assert(p@ =~= p.maps@.map_values(|l: Level| l@));
}


/// The two little-endian bytes of a signed 16-bit map unit.
pub open spec fn i16_bytes(n: i16) -> Seq<u8> {
    let u = if n < 0 {
        n + 0x1_0000
    } else {
        n as int
    };
    seq![(u % 0x100) as u8, (u / 0x100) as u8]
}

/// Round-trip of coordinate scaling: decoding the two bytes of any
/// signed 16-bit integer yields exactly that integer shifted left by 16
/// as the fixed-point value, and nothing else.
pub proof fn lemma_fixed_roundtrip(n: i16)
    ensures
        i16_at(i16_bytes(n), 0) == n,
        fixed_at(i16_bytes(n), 0) == n * 0x1_0000,
{
    let u = if n < 0 {
        n + 0x1_0000
    } else {
        n as int
    };
    vstd::arithmetic::div_mod::lemma_fundamental_div_mod(u, 0x100);
    assert(le16_at(i16_bytes(n), 0) == u);
}

/// The decoder is a pure function of the bytes: any two results that
/// meet the decode contract on the same byte sequence are one and the
/// same, so decoding the same bytes twice yields identical levels.
pub proof fn lemma_decode_deterministic(
    d: Seq<u8>,
    r1: Result<Seq<LevelView>, WadErrorView>,
    r2: Result<Seq<LevelView>, WadErrorView>,
)
    requires
        r1 == wad_package_spec(d),
        r2 == wad_package_spec(d),
    ensures
        r1 == r2,
{
}

} // verus!
