//! Orchestration of the per-unit work after the batch compile.
//!
//! A non-zero exit of the batch compile is fatal for the whole run:
//! no unit is planned.  After a successful compile each unit is
//! planned independently — dispatch extraction, selector derivation,
//! manifest encoding and artifact naming — and the outcomes are
//! aggregated into the run's report: the bundles placed and the
//! per-unit failures, so a caller sees every problem in one pass.

use vstd::prelude::*;

use crate::abi::Constructor;
use crate::abi::DispatchTable;
use crate::abi::MethodDescriptor;
use crate::abi::MethodModel;
use crate::abi::TableModel;
use crate::abi::encode_manifest;
use crate::abi::manifest_bytes;
use crate::assemble::NameError;
use crate::assemble::UnitKind;
use crate::assemble::bundle_files;
use crate::assemble::bundle_files_spec;
use crate::assemble::compiled_file_name;
use crate::assemble::compiled_file_spec;
use crate::assemble::dest_name;
use crate::assemble::dest_name_spec;
use crate::bytes::bytes_eq;
use crate::bytes::copy_vec;
use crate::bytes::lit_bytes;
use crate::bytes::sub_vec;
use crate::discover::BuildUnit;
use crate::discover::UnitModel;
use crate::discover::units_view;
use crate::extract::ExtractError;
use crate::extract::extract_keys_spec;
use crate::extract::extract_table;
use crate::extract::key_constructor;
use crate::extract::key_setup;
use crate::extract::plain_methods;
use crate::selector::SelectorError;
use crate::selector::method_selector;
use crate::selector::selector_spec;

verus! {

/// One unit's planned bundle: the compiled binary's file name in the
/// build output directory, the canonical artifact name with its two
/// bundle file names, and the manifest bytes to write.
pub struct BundlePlan {
    pub unit_name: Vec<u8>,
    pub compiled_file: Vec<u8>,
    pub dest_name: Vec<u8>,
    pub binary_file: Vec<u8>,
    pub manifest_file: Vec<u8>,
    pub manifest: Vec<u8>,
}

/// The model of a planned bundle.
#[verifier::ext_equal]
pub struct PlanModel {
    pub unit_name: Seq<u8>,
    pub compiled_file: Seq<u8>,
    pub dest_name: Seq<u8>,
    pub binary_file: Seq<u8>,
    pub manifest_file: Seq<u8>,
    pub manifest: Seq<u8>,
}

impl View for BundlePlan {
    type V = PlanModel;

    open spec fn view(&self) -> PlanModel {
        PlanModel {
            unit_name: self.unit_name@,
            compiled_file: self.compiled_file@,
            dest_name: self.dest_name@,
            binary_file: self.binary_file@,
            manifest_file: self.manifest_file@,
            manifest: self.manifest@,
        }
    }
}

/// Why one unit produced no bundle.
#[derive(Clone, Copy, PartialEq, Eq, Structural, Debug)]
pub enum UnitFault {
    /// Its dispatch table could not be extracted.
    Extraction(ExtractError),
    /// One of its method names yields no selector.
    Selector(SelectorError),
    /// No artifact name exists for it.
    Naming(NameError),
    /// Its artifact name is already taken by an earlier unit of the
    /// run.
    NameCollision,
    /// Its files could not be placed in the artifacts directory.
    Placement,
}

/// The descriptors of the ordinary methods, in order: each name with
/// its selector, or the fault of the first name without one.
pub open spec fn descriptors_spec(methods: Seq<Seq<u8>>) -> Result<Seq<MethodModel>, SelectorError>
    decreases methods.len(),
{
    if methods.len() == 0 {
        Ok(Seq::empty())
    } else {
        match descriptors_spec(methods.drop_last()) {
            Err(e) => Err(e),
            Ok(rest) => match selector_spec(methods.last()) {
                Ok(n) => Ok(rest.push(MethodModel { name: methods.last(), number: n })),
                Err(e) => Err(e),
            },
        }
    }
}

proof fn lemma_descriptors_err_extends(s: Seq<Seq<u8>>, k: int, j: int)
    requires
        0 <= k <= j <= s.len(),
        descriptors_spec(s.take(k)) is Err,
    ensures
        descriptors_spec(s.take(j)) == descriptors_spec(s.take(k)),
    decreases j - k,
{
    if j > k {
        lemma_descriptors_err_extends(s, k, j - 1);
        assert(s.take(j).drop_last() =~= s.take(j - 1));
    }
}

/// The views of a descriptor list.
pub open spec fn descriptors_view(ds: Seq<MethodDescriptor>) -> Seq<MethodModel> {
    ds.map(|i: int, d: MethodDescriptor| d@)
}

fn build_descriptors(methods: &Vec<Vec<u8>>) -> (r: Result<Vec<MethodDescriptor>, SelectorError>)
    ensures
        match r {
            Ok(ds) => descriptors_spec(methods.deep_view()) == Ok::<
                Seq<MethodModel>,
                SelectorError,
            >(descriptors_view(ds@)),
            Err(e) => descriptors_spec(methods.deep_view()) == Err::<
                Seq<MethodModel>,
                SelectorError,
            >(e),
        },
{
    let ghost mv = methods.deep_view();
    let mut ds: Vec<MethodDescriptor> = Vec::new();
    proof {
        assert(mv.take(0) =~= Seq::<Seq<u8>>::empty());
        assert(descriptors_view(ds@) =~= Seq::<MethodModel>::empty());
    }
    let mut i: usize = 0;
    while i < methods.len()
        invariant
            i <= methods@.len(),
            mv == methods.deep_view(),
            descriptors_spec(mv.take(i as int)) == Ok::<Seq<MethodModel>, SelectorError>(
                descriptors_view(ds@),
            ),
        decreases methods@.len() - i,
    {
        let ghost pre = descriptors_view(ds@);
        proof {
            assert(mv[i as int] == methods@[i as int].deep_view());
            assert(methods@[i as int].deep_view() =~= methods@[i as int]@);
            assert(mv.take(i + 1).drop_last() =~= mv.take(i as int));
            assert(mv.take(i + 1).last() == mv[i as int]);
        }
        let name = &methods[i];
        match method_selector(name.as_slice()) {
            Ok(n) => {
                ds.push(MethodDescriptor { name: copy_vec(name), number: n });
                proof {
                    assert(descriptors_view(ds@) =~= pre.push(
                        MethodModel { name: mv[i as int], number: n },
                    ));
                }
            },
            Err(e) => {
                proof {
                    assert(descriptors_spec(mv.take(i + 1)) == Err::<
                        Seq<MethodModel>,
                        SelectorError,
                    >(e));
                    lemma_descriptors_err_extends(mv, i + 1, mv.len() as int);
                    assert(mv.take(mv.len() as int) =~= mv);
                }
                return Err(e);
            },
        }
        i += 1;
    }
    proof {
        assert(mv.take(mv.len() as int) =~= mv);
    }
    Ok(ds)
}

/// The set-up role of a table: absent when the key is absent;
/// otherwise the reserved set-up name with its selector, or its
/// fault.
pub open spec fn setup_role_spec(has_setup: bool) -> Result<Option<MethodModel>, SelectorError> {
    if has_setup {
        match selector_spec(key_setup()) {
            Ok(n) => Ok(Some(MethodModel { name: key_setup(), number: n })),
            Err(e) => Err(e),
        }
    } else {
        Ok(None)
    }
}

/// The constructor role of a table: absent when the key is absent;
/// the dispatch convention pins the reserved name to selector 1.
pub open spec fn constructor_role_spec(has_constructor: bool) -> Option<MethodModel> {
    if has_constructor {
        Some(MethodModel { name: key_constructor(), number: 1 })
    } else {
        None
    }
}

/// The dispatch table built from the extracted keys: the two roles
/// and the ordinary methods with their selectors.
pub open spec fn table_spec(keys: Seq<Seq<u8>>) -> Result<TableModel, SelectorError> {
    match setup_role_spec(keys.contains(key_setup())) {
        Err(e) => Err(e),
        Ok(setup) => match descriptors_spec(plain_methods(keys)) {
            Err(e) => Err(e),
            Ok(ms) => Ok(
                TableModel {
                    constructor: constructor_role_spec(keys.contains(key_constructor())),
                    setup: setup,
                    methods: ms,
                },
            ),
        },
    }
}

/// The planned bundle of one unit, from its kind, its declared name
/// and its entry-point source text; or its first fault: extraction,
/// then selector derivation, then naming.
pub open spec fn plan_unit_spec(kind: UnitKind, name: Seq<u8>, src: Seq<u8>) -> Result<
    PlanModel,
    UnitFault,
> {
    match extract_keys_spec(src) {
        Err(e) => Err(UnitFault::Extraction(e)),
        Ok(keys) => match table_spec(keys) {
            Err(e) => Err(UnitFault::Selector(e)),
            Ok(t) => match dest_name_spec(kind, name) {
                Err(e) => Err(UnitFault::Naming(e)),
                Ok(d) => Ok(
                    PlanModel {
                        unit_name: name,
                        compiled_file: compiled_file_spec(name),
                        dest_name: d,
                        binary_file: bundle_files_spec(d).0,
                        manifest_file: bundle_files_spec(d).1,
                        manifest: manifest_bytes(t),
                    },
                ),
            },
        },
    }
}

/// Plans one unit's bundle: exactly [`plan_unit_spec`].
pub fn plan_unit(kind: UnitKind, name: &[u8], src: &[u8]) -> (r: Result<BundlePlan, UnitFault>)
    ensures
        match r {
            Ok(p) => plan_unit_spec(kind, name@, src@) == Ok::<PlanModel, UnitFault>(p@),
            Err(f) => plan_unit_spec(kind, name@, src@) == Err::<PlanModel, UnitFault>(f),
        },
{
    let keys = match extract_table(src) {
        Ok(t) => t,
        Err(e) => {
            return Err(UnitFault::Extraction(e));
        },
    };
    let ghost keys_spec = extract_keys_spec(src@)->Ok_0;
    let setup: Option<MethodDescriptor> = if keys.has_setup {
        let setup_name = lit_bytes("SetUp");
        match method_selector(setup_name.as_slice()) {
            Ok(n) => Some(MethodDescriptor { name: setup_name, number: n }),
            Err(e) => {
                return Err(UnitFault::Selector(e));
            },
        }
    } else {
        None
    };
    let ms = match build_descriptors(&keys.methods) {
        Ok(ds) => ds,
        Err(e) => {
            return Err(UnitFault::Selector(e));
        },
    };
    let cons: Option<MethodDescriptor> = if keys.has_constructor {
        Some(Constructor())
    } else {
        None
    };
    let table = DispatchTable { constructor: cons, setup: setup, methods: ms };
    proof {
        let sr = setup_role_spec(keys_spec.contains(key_setup()));
        let dr = descriptors_spec(plain_methods(keys_spec));
        assert(sr is Ok);
        assert(dr is Ok);
        assert(table_spec(keys_spec) == Ok::<TableModel, SelectorError>(
            TableModel {
                constructor: constructor_role_spec(keys_spec.contains(key_constructor())),
                setup: sr->Ok_0,
                methods: dr->Ok_0,
            },
        ));
        assert(table@ =~~= table_spec(keys_spec)->Ok_0);
    }
    let manifest = encode_manifest(&table);
    let dest = match dest_name(kind, name) {
        Ok(d) => d,
        Err(e) => {
            return Err(UnitFault::Naming(e));
        },
    };
    let files = bundle_files(dest.as_slice());
    let compiled = compiled_file_name(name);
    let plan = BundlePlan {
        unit_name: sub_vec(name, 0, name.len()),
        compiled_file: compiled,
        dest_name: dest,
        binary_file: files.0,
        manifest_file: files.1,
        manifest: manifest,
    };
    proof {
        assert(name@.subrange(0, name@.len() as int) =~= name@);
        assert(plan_unit_spec(kind, name@, src@) is Ok);
        assert(plan@ =~~= plan_unit_spec(kind, name@, src@)->Ok_0);
    }
    Ok(plan)
}

/// The outcome models of a run.
pub open spec fn results_view(rs: Seq<Result<BundlePlan, UnitFault>>) -> Seq<
    Result<PlanModel, UnitFault>,
> {
    rs.map(
        |i: int, r: Result<BundlePlan, UnitFault>|
            match r {
                Ok(p) => Ok(p@),
                Err(f) => Err(f),
            },
    )
}

/// The per-unit outcomes from unit `i` on, given the artifact names
/// already taken: each unit's plan, or its fault; a planned name
/// already taken by an earlier bundle of the run is a collision, and
/// only planned bundles take names.
pub open spec fn run_results_from(
    kind: UnitKind,
    units: Seq<UnitModel>,
    srcs: Seq<Seq<u8>>,
    i: int,
    used: Seq<Seq<u8>>,
) -> Seq<Result<PlanModel, UnitFault>>
    decreases units.len() - i,
{
    if i < 0 || i >= units.len() {
        Seq::empty()
    } else {
        let one = match plan_unit_spec(kind, units[i].name, srcs[i]) {
            Err(f) => Err(f),
            Ok(p) => if used.contains(p.dest_name) {
                Err(UnitFault::NameCollision)
            } else {
                Ok(p)
            },
        };
        let next_used = match one {
            Ok(p) => used.push(p.dest_name),
            Err(_) => used,
        };
        seq![one] + run_results_from(kind, units, srcs, i + 1, next_used)
    }
}

/// The per-unit outcomes of one run, over the units in discovery
/// order with their entry-point sources.
pub open spec fn run_results(kind: UnitKind, units: Seq<UnitModel>, srcs: Seq<Seq<u8>>) -> Seq<
    Result<PlanModel, UnitFault>,
> {
    run_results_from(kind, units, srcs, 0, Seq::empty())
}

/// Every unit of the run yields exactly one outcome.
pub proof fn lemma_one_outcome_per_unit(kind: UnitKind, units: Seq<UnitModel>, srcs: Seq<Seq<u8>>)
    ensures
        run_results(kind, units, srcs).len() == units.len(),
{
    lemma_run_results_len(kind, units, srcs, 0, Seq::empty());
}

proof fn lemma_run_results_len(
    kind: UnitKind,
    units: Seq<UnitModel>,
    srcs: Seq<Seq<u8>>,
    i: int,
    used: Seq<Seq<u8>>,
)
    requires
        0 <= i <= units.len(),
    ensures
        run_results_from(kind, units, srcs, i, used).len() == units.len() - i,
    decreases units.len() - i,
{
    if i < units.len() {
        let one = match plan_unit_spec(kind, units[i].name, srcs[i]) {
            Err(f) => Err(f),
            Ok(p) => if used.contains(p.dest_name) {
                Err(UnitFault::NameCollision)
            } else {
                Ok(p)
            },
        };
        let next_used = match one {
            Ok(p) => used.push(p.dest_name),
            Err(_) => used,
        };
        lemma_run_results_len(kind, units, srcs, i + 1, next_used);
    }
}

fn contains_name(used: &Vec<Vec<u8>>, n: &[u8]) -> (r: bool)
    ensures
        r == used.deep_view().contains(n@),
{
    let mut i: usize = 0;
    while i < used.len()
        invariant
            i <= used@.len(),
            forall|j: int| 0 <= j < i ==> used.deep_view()[j] != n@,
        decreases used@.len() - i,
    {
        proof {
            assert(used.deep_view()[i as int] == used@[i as int].deep_view());
            assert(used@[i as int].deep_view() =~= used@[i as int]@);
        }
        if bytes_eq(used[i].as_slice(), n) {
            assert(used.deep_view()[i as int] == n@);
            return true;
        }
        i += 1;
    }
    assert(!used.deep_view().contains(n@));
    false
}

/// Why a whole run fails before any unit is planned.
#[derive(Clone, Copy, PartialEq, Eq, Structural, Debug)]
pub enum BatchError {
    /// The batch compile exited with a non-zero status; binaries may
    /// be stale or missing, so no unit is planned.
    CompileFailed,
}

/// Plans the whole run: fatal when the batch compile failed, and one
/// outcome per unit in discovery order otherwise — exactly
/// [`run_results`].
pub fn plan_run(
    kind: UnitKind,
    compile_ok: bool,
    units: &Vec<BuildUnit>,
    srcs: &Vec<Vec<u8>>,
) -> (r: Result<Vec<Result<BundlePlan, UnitFault>>, BatchError>)
    requires
        units@.len() == srcs@.len(),
    ensures
        !compile_ok <==> r == Err::<Vec<Result<BundlePlan, UnitFault>>, BatchError>(
            BatchError::CompileFailed,
        ),
        match r {
            Ok(rs) => results_view(rs@) == run_results(kind, units_view(units@), srcs.deep_view()),
            Err(e) => e == BatchError::CompileFailed,
        },
{
    if !compile_ok {
        return Err(BatchError::CompileFailed);
    }
    let ghost um = units_view(units@);
    let ghost sm = srcs.deep_view();
    let mut out: Vec<Result<BundlePlan, UnitFault>> = Vec::new();
    let mut used: Vec<Vec<u8>> = Vec::new();
    proof {
        assert(results_view(out@) =~= Seq::<Result<PlanModel, UnitFault>>::empty());
        assert(used.deep_view() =~= Seq::<Seq<u8>>::empty());
        assert(run_results(kind, um, sm) =~= results_view(out@) + run_results_from(
            kind,
            um,
            sm,
            0,
            used.deep_view(),
        ));
    }
    let mut i: usize = 0;
    while i < units.len()
        invariant
            i <= units@.len(),
            units@.len() == srcs@.len(),
            um == units_view(units@),
            sm == srcs.deep_view(),
            run_results(kind, um, sm) == results_view(out@) + run_results_from(
                kind,
                um,
                sm,
                i as int,
                used.deep_view(),
            ),
        decreases units@.len() - i,
    {
        let ghost pre = results_view(out@);
        let ghost used_pre = used.deep_view();
        proof {
            assert(um[i as int] == units@[i as int]@);
            assert(sm[i as int] == srcs@[i as int].deep_view());
            assert(srcs@[i as int].deep_view() =~= srcs@[i as int]@);
        }
        let one: Result<BundlePlan, UnitFault> = match plan_unit(
            kind,
            units[i].name.as_slice(),
            srcs[i].as_slice(),
        ) {
            Ok(p) => {
                if contains_name(&used, p.dest_name.as_slice()) {
                    Err(UnitFault::NameCollision)
                } else {
                    used.push(copy_vec(&p.dest_name));
                    proof {
                        assert(used.deep_view() =~~= used_pre.push(p@.dest_name));
                    }
                    Ok(p)
                }
            },
            Err(f) => Err(f),
        };
        let ghost one_model = match &one {
            Ok(p) => Ok::<PlanModel, UnitFault>(p@),
            Err(f) => Err::<PlanModel, UnitFault>(*f),
        };
        out.push(one);
        proof {
            assert(results_view(out@) =~= pre.push(one_model));
            assert(run_results_from(kind, um, sm, i as int, used_pre) == seq![one_model]
                + run_results_from(kind, um, sm, i + 1, used.deep_view()));
            assert(pre + (seq![one_model] + run_results_from(kind, um, sm, i + 1, used.deep_view()))
                =~= pre.push(one_model) + run_results_from(kind, um, sm, i + 1, used.deep_view()));
        }
        i += 1;
    }
    proof {
        assert(results_view(out@) + run_results_from(kind, um, sm, units@.len() as int,
            used.deep_view()) =~= results_view(out@));
    }
    Ok(out)
}

/// One reported failure: the unit and its fault.
pub struct UnitFailure {
    pub unit_name: Vec<u8>,
    pub fault: UnitFault,
}

/// The model of a reported failure.
#[verifier::ext_equal]
pub struct FailureModel {
    pub unit_name: Seq<u8>,
    pub fault: UnitFault,
}

impl View for UnitFailure {
    type V = FailureModel;

    open spec fn view(&self) -> FailureModel {
        FailureModel { unit_name: self.unit_name@, fault: self.fault }
    }
}

/// The views of a bundle list.
pub open spec fn plans_view(ps: Seq<BundlePlan>) -> Seq<PlanModel> {
    ps.map(|i: int, p: BundlePlan| p@)
}

/// The views of a failure list.
pub open spec fn failures_view(fs: Seq<UnitFailure>) -> Seq<FailureModel> {
    fs.map(|i: int, f: UnitFailure| f@)
}

/// The bundles of the run: the planned units whose files were placed,
/// in order.
pub open spec fn bundle_models(rs: Seq<Result<PlanModel, UnitFault>>, placed: Seq<bool>) -> Seq<
    PlanModel,
>
    decreases rs.len(),
{
    if rs.len() == 0 {
        Seq::empty()
    } else {
        let rest = bundle_models(rs.drop_last(), placed.drop_last());
        match rs.last() {
            Ok(p) => if placed.len() > 0 && placed.last() {
                rest.push(p)
            } else {
                rest
            },
            Err(_) => rest,
        }
    }
}

/// The failures of the run: each unit that planned no bundle, or
/// whose files could not be placed, with its fault, in order.
pub open spec fn failure_models(
    units: Seq<UnitModel>,
    rs: Seq<Result<PlanModel, UnitFault>>,
    placed: Seq<bool>,
) -> Seq<FailureModel>
    decreases rs.len(),
{
    if rs.len() == 0 {
        Seq::empty()
    } else {
        let rest = failure_models(units.drop_last(), rs.drop_last(), placed.drop_last());
        match rs.last() {
            Ok(p) => if placed.len() > 0 && placed.last() {
                rest
            } else {
                rest.push(
                    FailureModel {
                        unit_name: if units.len() > 0 {
                            units.last().name
                        } else {
                            Seq::empty()
                        },
                        fault: UnitFault::Placement,
                    },
                )
            },
            Err(f) => rest.push(
                FailureModel {
                    unit_name: if units.len() > 0 {
                        units.last().name
                    } else {
                        Seq::empty()
                    },
                    fault: f,
                },
            ),
        }
    }
}

fn copy_plan(p: &BundlePlan) -> (r: BundlePlan)
    ensures
        r@ == p@,
{
    BundlePlan {
        unit_name: copy_vec(&p.unit_name),
        compiled_file: copy_vec(&p.compiled_file),
        dest_name: copy_vec(&p.dest_name),
        binary_file: copy_vec(&p.binary_file),
        manifest_file: copy_vec(&p.manifest_file),
        manifest: copy_vec(&p.manifest),
    }
}

/// Splits the run's outcomes into the bundles produced and the
/// failures to report, given which planned bundles the caller could
/// place.  Every unit lands in exactly one of the two lists: the
/// bundle count equals the number of units that passed both
/// extraction and assembly, and every other unit is absent from the
/// output but appears among the logged failures.
pub fn run_report(
    units: &Vec<BuildUnit>,
    results: &Vec<Result<BundlePlan, UnitFault>>,
    placed: &Vec<bool>,
) -> (r: (Vec<BundlePlan>, Vec<UnitFailure>))
    requires
        units@.len() == results@.len(),
        placed@.len() == results@.len(),
    ensures
        plans_view(r.0@) == bundle_models(results_view(results@), placed@),
        failures_view(r.1@) == failure_models(units_view(units@), results_view(results@), placed@),
        r.0@.len() + r.1@.len() == results@.len(),
{
    let ghost um = units_view(units@);
    let ghost rm = results_view(results@);
    let mut bundles: Vec<BundlePlan> = Vec::new();
    let mut failures: Vec<UnitFailure> = Vec::new();
    proof {
        assert(plans_view(bundles@) =~= Seq::<PlanModel>::empty());
        assert(failures_view(failures@) =~= Seq::<FailureModel>::empty());
        assert(rm.take(0) =~= Seq::<Result<PlanModel, UnitFault>>::empty());
    }
    let mut i: usize = 0;
    while i < results.len()
        invariant
            i <= results@.len(),
            units@.len() == results@.len(),
            placed@.len() == results@.len(),
            um == units_view(units@),
            rm == results_view(results@),
            plans_view(bundles@) == bundle_models(rm.take(i as int), placed@.take(i as int)),
            failures_view(failures@) == failure_models(
                um.take(i as int),
                rm.take(i as int),
                placed@.take(i as int),
            ),
            bundles@.len() + failures@.len() == i,
        decreases results@.len() - i,
    {
        let ghost pre_b = plans_view(bundles@);
        let ghost pre_f = failures_view(failures@);
        proof {
            assert(rm[i as int] == (match results@[i as int] {
                Ok(p) => Ok::<PlanModel, UnitFault>(p@),
                Err(f) => Err::<PlanModel, UnitFault>(f),
            }));
            assert(um[i as int] == units@[i as int]@);
            assert(rm.take(i + 1).drop_last() =~= rm.take(i as int));
            assert(placed@.take(i + 1).drop_last() =~= placed@.take(i as int));
            assert(um.take(i + 1).drop_last() =~= um.take(i as int));
            assert(rm.take(i + 1).last() == rm[i as int]);
            assert(placed@.take(i + 1).last() == placed@[i as int]);
            assert(um.take(i + 1).last() == um[i as int]);
        }
        match &results[i] {
            Ok(p) => {
                if placed[i] {
                    bundles.push(copy_plan(p));
                    proof {
                        assert(plans_view(bundles@) =~= pre_b.push(p@));
                    }
                } else {
                    failures.push(
                        UnitFailure {
                            unit_name: copy_vec(&units[i].name),
                            fault: UnitFault::Placement,
                        },
                    );
                    proof {
                        assert(failures_view(failures@) =~= pre_f.push(
                            FailureModel {
                                unit_name: um[i as int].name,
                                fault: UnitFault::Placement,
                            },
                        ));
                    }
                }
            },
            Err(f) => {
                failures.push(UnitFailure { unit_name: copy_vec(&units[i].name), fault: *f });
                proof {
                    assert(failures_view(failures@) =~= pre_f.push(
                        FailureModel { unit_name: um[i as int].name, fault: rm[i as int]->Err_0 },
                    ));
                }
            },
        }
        i += 1;
    }
    proof {
        assert(rm.take(results@.len() as int) =~= rm);
        assert(placed@.take(results@.len() as int) =~= placed@);
        assert(um.take(results@.len() as int) =~= um);
    }
    (bundles, failures)
}

/// The number of units that pass both planning and placement.
pub open spec fn count_passing(rs: Seq<Result<PlanModel, UnitFault>>, placed: Seq<bool>) -> int
    decreases rs.len(),
{
    if rs.len() == 0 {
        0
    } else {
        count_passing(rs.drop_last(), placed.drop_last()) + if rs.last() is Ok && placed.len() > 0
            && placed.last() {
            1int
        } else {
            0int
        }
    }
}

/// For any run, the number of bundles produced equals the number of
/// units that pass both extraction (with selector derivation and
/// naming) and assembly placement, and every unit is accounted for:
/// it appears either as a bundle or as a reported failure.
pub proof fn lemma_bundle_accounting(
    units: Seq<UnitModel>,
    rs: Seq<Result<PlanModel, UnitFault>>,
    placed: Seq<bool>,
)
    requires
        units.len() == rs.len(),
        placed.len() == rs.len(),
    ensures
        bundle_models(rs, placed).len() == count_passing(rs, placed),
        bundle_models(rs, placed).len() + failure_models(units, rs, placed).len() == rs.len(),
    decreases rs.len(),
{
    if rs.len() > 0 {
        lemma_bundle_accounting(units.drop_last(), rs.drop_last(), placed.drop_last());
    }
}

/// Re-running the pipeline on an unchanged tree yields byte-identical
/// manifests: a unit's plan — its manifest bytes included — is a
/// function of its kind, its declared name and its entry-point source
/// text alone, with no dependence on the run.
pub proof fn lemma_rerun_reproduces_plan(
    kind: UnitKind,
    name_first: Seq<u8>,
    src_first: Seq<u8>,
    name_again: Seq<u8>,
    src_again: Seq<u8>,
)
    requires
        name_first == name_again,
        src_first == src_again,
    ensures
        plan_unit_spec(kind, name_first, src_first) == plan_unit_spec(kind, name_again, src_again),
{
}

} // verus!
