//! Unit discovery decisions.
//!
//! The caller walks the immediate sub-directories of one root tree
//! and hands over each directory's path together with its manifest
//! text, when a manifest file is present.  The library decides which
//! directories are units, which are silently skipped as non-unit
//! directories, and which are excluded with a diagnostic, keeping the
//! walk's order so that artifact generation is deterministic for an
//! unchanged tree.

use vstd::prelude::*;

use crate::bytes::copy_vec;
use crate::bytes::lit;
use crate::bytes::lit_bytes;
use crate::bytes::push_all;

verus! {

/// The unit name a manifest text declares at `package.name`, if the
/// text parses and holds one.
pub uninterp spec fn manifest_name_of(text: Seq<u8>) -> Option<Seq<u8>>;

/// Relies on toml: `str::parse::<toml::Table>` and the lookups
/// `Map::get`, `Value::as_table` and `Value::as_str`.  The value at
/// `package.name` of the document is a function of the text alone.
#[verifier::external_body]
fn read_manifest_name(text: &[u8]) -> (r: Option<Vec<u8>>)
    ensures
        match r {
            Some(n) => manifest_name_of(text@) == Some(n@),
            None => manifest_name_of(text@) is None,
        },
{
    let s = match core::str::from_utf8(text) {
        Ok(s) => s,
        Err(_) => return None,
    };
    let table: toml::Table = match s.parse() {
        Ok(t) => t,
        Err(_) => return None,
    };
    table.get("package")
        .and_then(|p| p.as_table())
        .and_then(|t| t.get("name"))
        .and_then(|n| n.as_str())
        .map(|n| n.as_bytes().to_vec())
}

/// One discovered unit: its declared name and its directory.
#[derive(Debug)]
pub struct BuildUnit {
    pub name: Vec<u8>,
    pub dir: Vec<u8>,
}

/// The model of a discovered unit.
pub struct UnitModel {
    pub name: Seq<u8>,
    pub dir: Seq<u8>,
}

impl View for BuildUnit {
    type V = UnitModel;

    open spec fn view(&self) -> UnitModel {
        UnitModel { name: self.name@, dir: self.dir@ }
    }
}

/// The models of a unit list.
pub open spec fn units_view(us: Seq<BuildUnit>) -> Seq<UnitModel> {
    us.map(|i: int, u: BuildUnit| u@)
}

/// One scanned sub-directory: its path, and its manifest text when a
/// manifest file is present.
pub struct DirScan {
    pub dir: Vec<u8>,
    pub manifest: Option<Vec<u8>>,
}

/// The model of a scanned sub-directory.
pub struct DirScanModel {
    pub dir: Seq<u8>,
    pub manifest: Option<Seq<u8>>,
}

impl View for DirScan {
    type V = DirScanModel;

    open spec fn view(&self) -> DirScanModel {
        DirScanModel {
            dir: self.dir@,
            manifest: match self.manifest {
                Some(t) => Some(t@),
                None => None,
            },
        }
    }
}

/// The models of a scan list.
pub open spec fn scans_view(ds: Seq<DirScan>) -> Seq<DirScanModel> {
    ds.map(|i: int, d: DirScan| d@)
}

/// The entry-point source file of a unit, at a fixed path inside its
/// directory.
pub open spec fn entry_source_spec(dir: Seq<u8>) -> Seq<u8> {
    dir + lit("/src/actor.rs")
}

/// Computes the path of a unit's entry-point source file: exactly
/// [`entry_source_spec`].
pub fn entry_source_path(dir: &[u8]) -> (r: Vec<u8>)
    ensures
        r@ == entry_source_spec(dir@),
{
    let mut r = crate::bytes::sub_vec(dir, 0, dir.len());
    let tail = lit_bytes("/src/actor.rs");
    push_all(&mut r, tail.as_slice());
    proof {
        assert(dir@.subrange(0, dir@.len() as int) =~= dir@);
    }
    r
}

/// What discovery decides for one sub-directory.
#[derive(Debug)]
pub enum Decision {
    /// No manifest file: not a unit directory, silently skipped.
    Skip,
    /// A manifest that declares no recoverable name: the directory is
    /// excluded with a diagnostic.
    Excluded(Vec<u8>),
    /// A unit, under its declared name.
    Unit(BuildUnit),
}

/// The model of a discovery decision.
pub enum DecisionModel {
    Skip,
    Excluded(Seq<u8>),
    Unit(UnitModel),
}

impl View for Decision {
    type V = DecisionModel;

    open spec fn view(&self) -> DecisionModel {
        match self {
            Decision::Skip => DecisionModel::Skip,
            Decision::Excluded(d) => DecisionModel::Excluded(d@),
            Decision::Unit(u) => DecisionModel::Unit(u@),
        }
    }
}

/// The decision for one scanned sub-directory: skip it silently when
/// it has no manifest; exclude it with a diagnostic when its manifest
/// declares no name; otherwise it is a unit under the declared name.
pub open spec fn decision_spec(d: DirScanModel) -> DecisionModel {
    match d.manifest {
        None => DecisionModel::Skip,
        Some(text) => match manifest_name_of(text) {
            Some(name) => DecisionModel::Unit(UnitModel { name: name, dir: d.dir }),
            None => DecisionModel::Excluded(d.dir),
        },
    }
}

/// Decides what one scanned sub-directory is: exactly
/// [`decision_spec`].
pub fn classify_dir(d: &DirScan) -> (r: Decision)
    ensures
        r@ == decision_spec(d@),
{
    match &d.manifest {
        None => Decision::Skip,
        Some(text) => match read_manifest_name(text.as_slice()) {
            Some(name) => Decision::Unit(BuildUnit { name: name, dir: copy_vec(&d.dir) }),
            None => Decision::Excluded(copy_vec(&d.dir)),
        },
    }
}

/// The units among the scanned sub-directories, in scan order.
pub open spec fn units_of(ds: Seq<DirScanModel>) -> Seq<UnitModel>
    decreases ds.len(),
{
    if ds.len() == 0 {
        Seq::empty()
    } else {
        let rest = units_of(ds.drop_last());
        match decision_spec(ds.last()) {
            DecisionModel::Unit(u) => rest.push(u),
            _ => rest,
        }
    }
}

/// The excluded directories among the scanned sub-directories, in
/// scan order: the collected diagnostics of a best-effort pass.
pub open spec fn excluded_of(ds: Seq<DirScanModel>) -> Seq<Seq<u8>>
    decreases ds.len(),
{
    if ds.len() == 0 {
        Seq::empty()
    } else {
        let rest = excluded_of(ds.drop_last());
        match decision_spec(ds.last()) {
            DecisionModel::Excluded(d) => rest.push(d),
            _ => rest,
        }
    }
}

/// Runs discovery over the scanned sub-directories of one tree: the
/// units in scan order, and the diagnostics of the excluded
/// directories.  A directory without a manifest is skipped silently;
/// one whose manifest declares no name is excluded with a diagnostic
/// rather than aborting the pass.
pub fn discover_units(ds: &Vec<DirScan>) -> (r: (Vec<BuildUnit>, Vec<Vec<u8>>))
    ensures
        units_view(r.0@) == units_of(scans_view(ds@)),
        r.1.deep_view() == excluded_of(scans_view(ds@)),
{
    let mut units: Vec<BuildUnit> = Vec::new();
    let mut excluded: Vec<Vec<u8>> = Vec::new();
    let mut i: usize = 0;
    while i < ds.len()
        invariant
            i <= ds@.len(),
            units_view(units@) == units_of(scans_view(ds@).take(i as int)),
            excluded.deep_view() == excluded_of(scans_view(ds@).take(i as int)),
        decreases ds@.len() - i,
    {
        let ghost pre_units = units_view(units@);
        let ghost pre_excluded = excluded.deep_view();
        proof {
            assert(scans_view(ds@)[i as int] == ds@[i as int]@);
            assert(scans_view(ds@).take(i + 1).drop_last() =~= scans_view(ds@).take(i as int));
            assert(scans_view(ds@).take(i + 1).last() == scans_view(ds@)[i as int]);
        }
        match classify_dir(&ds[i]) {
            Decision::Skip => {
            },
            Decision::Excluded(d) => {
                excluded.push(d);
                proof {
                    assert(excluded.deep_view() =~~= pre_excluded.push(
                        decision_spec(ds@[i as int]@)->Excluded_0,
                    ));
                }
            },
            Decision::Unit(u) => {
                let ghost uv = u@;
                units.push(u);
                proof {
                    assert(units_view(units@) =~= pre_units.push(uv));
                }
            },
        }
        i += 1;
    }
    proof {
        assert(scans_view(ds@).take(ds@.len() as int) =~= scans_view(ds@));
    }
    (units, excluded)
}

} // verus!
