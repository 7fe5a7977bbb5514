//! Artifact naming and the destination directory's lifecycle.
//!
//! Each unit's bundle is placed under one canonical name: the unit
//! name with the compiler's hyphen-to-underscore substitution
//! reconciled when its compiled binary is looked up, the trailing test
//! token replaced by a short driver marker for test-driver units, and
//! the result rendered in one fixed casing convention.

use convert_case::Case;
use convert_case::Casing;
use vstd::prelude::*;

use crate::bytes::all_ascii;
use crate::bytes::check_all_ascii;
use crate::bytes::lit;
use crate::bytes::lit_bytes;
use crate::bytes::push_all;
use crate::bytes::sub_vec;

verus! {

/// How a unit is bundled: as a target to be tested, or as a
/// test-driver that exercises targets.
#[derive(Clone, Copy, PartialEq, Eq, Structural, Debug)]
pub enum UnitKind {
    Target,
    Test,
}

/// Why no artifact name exists for a unit.
#[derive(Clone, Copy, PartialEq, Eq, Structural, Debug)]
pub enum NameError {
    /// A test-driver unit's name holds no test token to replace.
    NoTestMarker,
    /// The name to be cased holds a byte outside ASCII.
    NotAscii,
}

/// The name with the compiler's substitution applied: hyphens become
/// underscores in output file names.
pub open spec fn underscored(s: Seq<u8>) -> Seq<u8> {
    s.map(|i: int, b: u8| if b == 45 { 95u8 } else { b })
}

/// The file name of a unit's compiled binary in the build output
/// directory: the declared name with the substitution reconciled,
/// then the binary extension.
pub open spec fn compiled_file_spec(name: Seq<u8>) -> Seq<u8> {
    underscored(name) + lit(".wasm")
}

/// Computes the compiled binary's file name for a unit: exactly
/// [`compiled_file_spec`].
pub fn compiled_file_name(name: &[u8]) -> (r: Vec<u8>)
    ensures
        r@ == compiled_file_spec(name@),
{
    let mut r: Vec<u8> = Vec::new();
    let mut i: usize = 0;
    while i < name.len()
        invariant
            i <= name@.len(),
            r@ == underscored(name@.take(i as int)),
        decreases name@.len() - i,
    {
        let b = name[i];
        if b == 45 {
            r.push(95);
        } else {
            r.push(b);
        }
        proof {
            assert(underscored(name@.take(i + 1)) =~= underscored(name@.take(i as int)).push(
                if name@[i as int] == 45 {
                    95u8
                } else {
                    name@[i as int]
                },
            ));
        }
        i += 1;
    }
    proof {
        assert(underscored(name@.take(name@.len() as int)) =~= underscored(name@));
    }
    let ext = lit_bytes(".wasm");
    push_all(&mut r, ext.as_slice());
    r
}

/// Index of the last occurrence of `p` in `s` starting at or below
/// `i`; `None` if there is none.
pub open spec fn last_match_at(s: Seq<u8>, p: Seq<u8>, i: int) -> Option<int>
    decreases i + 1,
{
    if i < 0 {
        None
    } else if i + p.len() <= s.len() && s.subrange(i, i + p.len() as int) == p {
        Some(i)
    } else {
        last_match_at(s, p, i - 1)
    }
}

fn match_at_exec(s: &[u8], p: &[u8], j: usize) -> (r: bool)
    requires
        j <= s@.len(),
    ensures
        r == (j + p@.len() <= s@.len() && s@.subrange(j as int, j + p@.len() as int) == p@),
{
    if s.len() - j < p.len() {
        return false;
    }
    let mut t: usize = 0;
    while t < p.len()
        invariant
            t <= p@.len(),
            j + p@.len() <= s@.len(),
            s@.len() <= usize::MAX,
            forall|q: int| 0 <= q < t ==> s@[j + q] == p@[q],
        decreases p@.len() - t,
    {
        if s[j + t] != p[t] {
            assert(s@.subrange(j as int, j + p@.len() as int)[t as int] != p@[t as int]);
            return false;
        }
        t += 1;
    }
    proof {
        assert(s@.subrange(j as int, j + p@.len() as int) =~= p@);
    }
    true
}

fn rfind(s: &[u8], p: &[u8]) -> (r: Option<usize>)
    ensures
        match r {
            Some(i) => last_match_at(s@, p@, s@.len() as int) == Some(i as int) && i + p@.len()
                <= s@.len(),
            None => last_match_at(s@, p@, s@.len() as int) is None,
        },
{
    let mut j: usize = s.len();
    loop
        invariant_except_break
            j <= s@.len(),
            last_match_at(s@, p@, s@.len() as int) == last_match_at(s@, p@, j as int),
        ensures
            last_match_at(s@, p@, s@.len() as int) is None,
        decreases j,
    {
        if match_at_exec(s, p, j) {
            return Some(j);
        }
        if j == 0 {
            proof {
                assert(last_match_at(s@, p@, -1) is None);
                assert(last_match_at(s@, p@, 0) is None);
            }
            break;
        }
        j -= 1;
    }
    None
}

/// The unit name with its role transform applied: unchanged for a
/// target unit; for a test-driver unit, the part before the last
/// occurrence of the test token, then the driver marker `.t`.
pub open spec fn base_name_spec(kind: UnitKind, name: Seq<u8>) -> Result<Seq<u8>, NameError> {
    match kind {
        UnitKind::Target => Ok(name),
        UnitKind::Test => match last_match_at(name, lit("test"), name.len() as int) {
            Some(i) => Ok(name.take(i) + lit(".t")),
            None => Err(NameError::NoTestMarker),
        },
    }
}

/// The Pascal-cased form of an ASCII byte string.
pub uninterp spec fn pascal_of(s: Seq<u8>) -> Seq<u8>;

/// Relies on convert_case's Pascal conversion: the result depends on
/// the characters alone.  The input is ASCII, which callers check, so
/// reading it as UTF-8 cannot fail.
#[verifier::external_body]
fn pascal_case(name: &[u8]) -> (r: Vec<u8>)
    requires
        all_ascii(name@),
    ensures
        r@ == pascal_of(name@),
{
    let s = core::str::from_utf8(name).unwrap();
    s.to_case(Case::Pascal).into_bytes()
}

/// The canonical artifact name of a unit: the role transform, then
/// the fixed casing convention, on ASCII names.
pub open spec fn dest_name_spec(kind: UnitKind, name: Seq<u8>) -> Result<Seq<u8>, NameError> {
    match base_name_spec(kind, name) {
        Ok(b) => if all_ascii(b) {
            Ok(pascal_of(b))
        } else {
            Err(NameError::NotAscii)
        },
        Err(e) => Err(e),
    }
}

/// Computes the canonical artifact name of a unit: exactly
/// [`dest_name_spec`], with an error exactly when a test-driver name
/// lacks the test token or the transformed name is not ASCII.
pub fn dest_name(kind: UnitKind, name: &[u8]) -> (r: Result<Vec<u8>, NameError>)
    ensures
        match r {
            Ok(n) => dest_name_spec(kind, name@) == Ok::<Seq<u8>, NameError>(n@),
            Err(e) => dest_name_spec(kind, name@) == Err::<Seq<u8>, NameError>(e),
        },
{
    let base: Vec<u8> = match kind {
        UnitKind::Target => sub_vec(name, 0, name.len()),
        UnitKind::Test => {
            let marker = lit_bytes("test");
            match rfind(name, marker.as_slice()) {
                Some(i) => {
                    let mut b = sub_vec(name, 0, i);
                    let tail = lit_bytes(".t");
                    push_all(&mut b, tail.as_slice());
                    b
                },
                None => {
                    return Err(NameError::NoTestMarker);
                },
            }
        },
    };
    proof {
        assert(name@.subrange(0, name@.len() as int) =~= name@);
        assert(base_name_spec(kind, name@) == Ok::<Seq<u8>, NameError>(base@));
    }
    if !check_all_ascii(base.as_slice()) {
        return Err(NameError::NotAscii);
    }
    Ok(pascal_case(base.as_slice()))
}

/// The two file names of a unit's artifact bundle under its canonical
/// name: the binary and the manifest.
pub open spec fn bundle_files_spec(dest: Seq<u8>) -> (Seq<u8>, Seq<u8>) {
    (dest + lit(".wasm"), dest + lit(".cbor"))
}

/// Computes the bundle's two file names: exactly
/// [`bundle_files_spec`].
pub fn bundle_files(dest: &[u8]) -> (r: (Vec<u8>, Vec<u8>))
    ensures
        r.0@ == bundle_files_spec(dest@).0,
        r.1@ == bundle_files_spec(dest@).1,
{
    let mut wasm = sub_vec(dest, 0, dest.len());
    let wasm_ext = lit_bytes(".wasm");
    push_all(&mut wasm, wasm_ext.as_slice());
    let mut manifest = sub_vec(dest, 0, dest.len());
    let manifest_ext = lit_bytes(".cbor");
    push_all(&mut manifest, manifest_ext.as_slice());
    proof {
        assert(dest@.subrange(0, dest@.len() as int) =~= dest@);
    }
    (wasm, manifest)
}

/// What to do with the artifacts directory before any bundle is
/// placed.
#[derive(Clone, Copy, PartialEq, Eq, Structural, Debug)]
pub enum DirAction {
    /// The directory does not exist yet: create it.
    Create,
    /// The directory exists and the run is additive: keep it as it is.
    Keep,
    /// The directory exists and a clean run is requested: delete it
    /// with everything in it, then recreate it empty.
    PurgeRecreate,
}

/// The required directory action: create an absent directory; an
/// existing one is benign and kept, unless purge semantics are
/// requested, in which case it is purged and recreated.
pub open spec fn dir_plan_spec(exists: bool, purge: bool) -> DirAction {
    if !exists {
        DirAction::Create
    } else if purge {
        DirAction::PurgeRecreate
    } else {
        DirAction::Keep
    }
}

/// Decides the directory action: exactly [`dir_plan_spec`].
pub fn dir_plan(exists: bool, purge: bool) -> (a: DirAction)
    ensures
        a == dir_plan_spec(exists, purge),
{
    if !exists {
        DirAction::Create
    } else if purge {
        DirAction::PurgeRecreate
    } else {
        DirAction::Keep
    }
}

/// The names present in the artifacts directory after the run: the
/// names placed by the run, joined with the prior contents only when
/// the directory was kept.
pub open spec fn dir_after(prior: Set<Seq<u8>>, a: DirAction, placed: Set<Seq<u8>>) -> Set<
    Seq<u8>,
> {
    match a {
        DirAction::Keep => prior.union(placed),
        _ => placed,
    }
}

/// When the directory already holds files and purge semantics are
/// requested, the directory holds exactly the files of the current
/// run afterwards: no stale file survives.
pub proof fn lemma_purge_leaves_only_current_run(prior: Set<Seq<u8>>, placed: Set<Seq<u8>>)
    ensures
        dir_after(prior, dir_plan_spec(true, true), placed) == placed,
{
}

} // verus!
