//! The resource catalog: owns the decoded levels of every archive loaded
//! so far, in load order, and answers name lookups with the first match.

use vstd::prelude::*;
use vstd::string::StringSliceAdditionalSpecFns;

use crate::bsp::Level;
use crate::bsp::LevelView;
use crate::wadpackage::WadError;
use crate::wadpackage::WadErrorView;
use crate::wadpackage::WadPackage;
use crate::wadpackage::WadResult;
use crate::wadpackage::wad_package_spec;

verus! {

pub type PackageLoadResult<T> = Result<T, PackageLoadError>;

enum PackageFormat {
    Unknown,
    IWad,
    PWad,
}

/// What can go wrong while loading an archive: a container whose
/// signature is not a known archive format, a read past the end of the
/// byte source, or a decoder failure.
#[derive(Debug)]
pub enum PackageLoadError {
    UnknownPackage,
    IoFailure,
    WadError(WadError),
}

/// The mathematical content of a `PackageLoadError`.
pub enum PackageLoadErrorView {
    UnknownPackage,
    IoFailure,
    WadError(WadErrorView),
}

impl View for PackageLoadError {
    type V = PackageLoadErrorView;

    open spec fn view(&self) -> PackageLoadErrorView {
        match self {
            PackageLoadError::UnknownPackage => PackageLoadErrorView::UnknownPackage,
            PackageLoadError::IoFailure => PackageLoadErrorView::IoFailure,
            PackageLoadError::WadError(e) => PackageLoadErrorView::WadError(e@),
        }
    }
}

/// How a decoder error surfaces from a load: a read failure keeps its
/// kind, any other decoder error is carried as such.
pub open spec fn wrap_error_view(e: WadErrorView) -> PackageLoadErrorView {
    match e {
        WadErrorView::IoFailure => PackageLoadErrorView::IoFailure,
        other => PackageLoadErrorView::WadError(other),
    }
}

/// A valid container signature: `I` or `P`, then the literal `WAD`.
pub open spec fn valid_signature(d: Seq<u8>) -> bool {
    &&& d.len() >= 4
    &&& d[1] == 87  // 'W'
    &&& d[2] == 65  // 'A'
    &&& d[3] == 68  // 'D'
    &&& (d[0] == 73 || d[0] == 80)  // 'I' or 'P'
}

fn wrap_wad_error<T>(r: WadResult<T>) -> (out: PackageLoadResult<T>)
    ensures
        match r {
            Ok(v) => out == Ok::<T, PackageLoadError>(v),
            Err(e) => match e {
                WadError::IoFailure => out == Err::<T, PackageLoadError>(
                    PackageLoadError::IoFailure,
                ),
                _ => out == Err::<T, PackageLoadError>(PackageLoadError::WadError(e)),
            },
        },
{
    match r {
        Ok(v) => Ok(v),
        Err(WadError::IoFailure) => Err(PackageLoadError::IoFailure),
        Err(e) => Err(PackageLoadError::WadError(e)),
    }
}

/// Classifies the 4-byte container signature; a source shorter than the
/// signature is a read failure, and any unknown signature is reported as
/// such, not an error of this function.
fn detect_package_format(data: &[u8]) -> (r: PackageLoadResult<PackageFormat>)
    ensures
        if data@.len() < 4 {
            r == Err::<PackageFormat, PackageLoadError>(PackageLoadError::IoFailure)
        } else if valid_signature(data@) {
            r == Ok::<PackageFormat, PackageLoadError>(
                if data@[0] == 73 {
                    PackageFormat::IWad
                } else {
                    PackageFormat::PWad
                },
            )
        } else {
            r == Ok::<PackageFormat, PackageLoadError>(PackageFormat::Unknown)
        },
{
    if data.len() < 4 {
        return Err(PackageLoadError::IoFailure);
    }
    if data[1] == 87 && data[2] == 65 && data[3] == 68 {  // "WAD"
        if data[0] == 73 {  // 'I'
            return Ok(PackageFormat::IWad);
        } else if data[0] == 80 {  // 'P'
            return Ok(PackageFormat::PWad);
        }
    }
    Ok(PackageFormat::Unknown)
}

fn bytes_eq(a: &[u8], b: &[u8]) -> (r: bool)
    ensures
        r == (a@ == b@),
{
    if a.len() != b.len() {
        return false;
    }
    let mut i: usize = 0;
    while i < a.len()
        invariant
            i <= a@.len(),
            a@.len() == b@.len(),
            forall|j: int| 0 <= j < i ==> a@[j] == b@[j],
        decreases a@.len() - i,
    {
        if a[i] != b[i] {
            return false;
        }
        i += 1;
    }
    proof {
        assert(a@ =~= b@);
    }
    true
}

/// The catalog of decoded levels.  Loads append, lookups borrow, and a
/// clear discards everything; nothing else mutates it.
pub struct ResourceManager {
    maps: Vec<Level>,
}

impl View for ResourceManager {
    type V = Seq<LevelView>;

    closed spec fn view(&self) -> Seq<LevelView> {
        self.maps@.map_values(|l: Level| l@)
    }
}

impl ResourceManager {
    /// An empty catalog.
    pub fn new() -> (r: ResourceManager)
        ensures
            r@ == Seq::<LevelView>::empty(),
    {
        let r = ResourceManager { maps: Vec::new() };
        proof {
            assert(r@ =~= Seq::<LevelView>::empty());
        }
        r
    }

    /// The first level, in load order, whose name bytes are exactly the
    /// bytes of `name`; a miss is a normal empty result, not an error.
    pub fn find_map(&self, name: &str) -> (r: Option<&Level>)
        ensures
            match r {
                Some(l) => exists|i: int|
                    {
                        &&& 0 <= i < self@.len()
                        &&& (#[trigger] self@[i]) == l@
                        &&& l@.name == name.spec_bytes()
                        &&& forall|j: int| 0 <= j < i ==> self@[j].name != name.spec_bytes()
                    },
                None => forall|i: int|
                    0 <= i < self@.len() ==> (#[trigger] self@[i]).name != name.spec_bytes(),
            },
    {
        let name_b = name.as_bytes();
        let mut i: usize = 0;
        while i < self.maps.len()
            invariant
                i <= self.maps@.len(),
                name_b@ == name.spec_bytes(),
                forall|j: int| 0 <= j < i ==> (#[trigger] self@[j]).name != name.spec_bytes(),
            decreases self.maps@.len() - i,
        {
            let level = &self.maps[i];
            proof {
                assert(self@[i as int] == self.maps@[i as int]@);
            }
            if bytes_eq(level.name.as_slice(), name_b) {
                return Some(level);
            }
            i += 1;
        }
        None
    }

    /// Loads every level of the archive whose bytes are `data`, appending
    /// to the catalog in archive order.  A failed load leaves the catalog
    /// exactly as it was: no partial levels are retained.
    pub fn load_package(&mut self, data: &[u8]) -> (r: PackageLoadResult<()>)
        ensures
            match r {
                Ok(_) => {
                    &&& valid_signature(data@)
                    &&& wad_package_spec(data@) matches Ok(levels) && final(self)@ == old(self)@
                        + levels
                },
                Err(e) => final(self)@ == old(self)@ && (if data@.len() < 4 {
                    e == PackageLoadError::IoFailure
                } else if !valid_signature(data@) {
                    e == PackageLoadError::UnknownPackage
                } else {
                    wad_package_spec(data@) matches Err(we) && e@ == wrap_error_view(we)
                }),
            },
    {
        let fmt = match detect_package_format(data) {
            Ok(f) => f,
            Err(e) => {
                return Err(e);
            },
        };
        match fmt {
            PackageFormat::IWad | PackageFormat::PWad => {
                match wrap_wad_error(WadPackage::new(data)) {
                    Ok(package) => {
                        self.add_package(package);
                        Ok(())
                    },
                    Err(e) => Err(e),
                }
            },
            PackageFormat::Unknown => Err(PackageLoadError::UnknownPackage),
        }
    }

    /// Discards every owned level.
    pub fn clear_resources(&mut self)
        ensures
            final(self)@ == Seq::<LevelView>::empty(),
    {
        self.maps.clear();
        proof {
            assert(self@ =~= Seq::<LevelView>::empty());
        }
    }

    /// Appends a decoded package's levels, in their archive order.
    fn add_package(&mut self, package: WadPackage)
        ensures
            final(self)@ == old(self)@ + package@,
    {
        let ghost before = self@;
        let ghost pkg = package@;
        let ghost bm = self.maps@;
        let ghost pm = package.maps@;
        proof {
            crate::wadpackage::lemma_package_view(&package);
        }
        let mut package = package;
        self.maps.append(&mut package.maps);
        proof {
            assert(self.maps@ == bm + pm);
            assert forall|i: int| 0 <= i < self@.len() implies self@[i] == (before + pkg)[i] by {
                assert(self@[i] == self.maps@[i]@);
                if i < bm.len() {
                    assert(self.maps@[i] == bm[i]);
                    assert(before[i] == bm[i]@);
                } else {
                    assert(self.maps@[i] == pm[i - bm.len()]);
                    assert(pkg[i - bm.len()] == pm[i - bm.len()]@);
                }
            };
            assert(self@ =~= before + pkg);
        }
    }
}

} // verus!
