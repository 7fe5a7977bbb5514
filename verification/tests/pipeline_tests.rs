use actor_bundler::abi::encode_manifest;
use actor_bundler::abi::Constructor;
use actor_bundler::abi::DispatchTable;
use actor_bundler::abi::MethodDescriptor;
use actor_bundler::assemble::UnitKind;
use actor_bundler::discover::BuildUnit;
use actor_bundler::extract::ExtractError;
use actor_bundler::pipeline::plan_run;
use actor_bundler::pipeline::plan_unit;
use actor_bundler::pipeline::run_report;
use actor_bundler::pipeline::BatchError;
use actor_bundler::pipeline::UnitFault;
use actor_bundler::selector::method_selector;

fn source_with_methods(methods: &[&str]) -> String {
    let mut arms = String::new();
    for m in methods {
        arms.push_str(&format!("        \"{m}\" => {{ handler() }},\n"));
    }
    format!(
        "fn invoke(_input: u32) -> u32 {{\n    match_method!(method_num, {{\n{arms}        _ => {{ abort() }}\n    }})\n}}\n"
    )
}

fn unit(name: &str, dir: &str) -> BuildUnit {
    BuildUnit { name: name.as_bytes().to_vec(), dir: dir.as_bytes().to_vec() }
}

#[test]
fn planned_bundle_names_and_manifest() {
    let src = source_with_methods(&["Constructor", "HelloWorld"]);
    let plan = plan_unit(UnitKind::Target, b"hello-world", src.as_bytes()).unwrap();
    assert_eq!(plan.unit_name, b"hello-world".to_vec());
    assert_eq!(plan.compiled_file, b"hello_world.wasm".to_vec());
    assert_eq!(plan.dest_name, b"HelloWorld".to_vec());
    assert_eq!(plan.binary_file, b"HelloWorld.wasm".to_vec());
    assert_eq!(plan.manifest_file, b"HelloWorld.cbor".to_vec());

    let expected_table = DispatchTable {
        constructor: Some(Constructor()),
        setup: None,
        methods: vec![MethodDescriptor {
            name: b"HelloWorld".to_vec(),
            number: method_selector(b"HelloWorld").unwrap(),
        }],
    };
    assert_eq!(plan.manifest, encode_manifest(&expected_table));
}

#[test]
fn setup_role_is_routed_out_of_the_method_list() {
    let src = source_with_methods(&["SetUp", "Check"]);
    let plan = plan_unit(UnitKind::Test, b"widget-test", src.as_bytes()).unwrap();
    let expected_table = DispatchTable {
        constructor: None,
        setup: Some(MethodDescriptor {
            name: b"SetUp".to_vec(),
            number: method_selector(b"SetUp").unwrap(),
        }),
        methods: vec![MethodDescriptor {
            name: b"Check".to_vec(),
            number: method_selector(b"Check").unwrap(),
        }],
    };
    assert_eq!(plan.manifest, encode_manifest(&expected_table));
    assert_eq!(plan.dest_name, b"Widget.t".to_vec());
}

#[test]
fn failed_batch_compile_is_fatal_for_the_run() {
    let units = vec![unit("a", "actors/a")];
    let srcs = vec![source_with_methods(&["Constructor"]).into_bytes()];
    let r = plan_run(UnitKind::Target, false, &units, &srcs);
    assert_eq!(r.err().unwrap(), BatchError::CompileFailed);
}

#[test]
fn a_failing_unit_does_not_stop_its_siblings() {
    let units = vec![unit("broken", "actors/broken"), unit("good", "actors/good")];
    let srcs = vec![
        b"fn main() { nothing_here() }".to_vec(),
        source_with_methods(&["Constructor"]).into_bytes(),
    ];
    let results = plan_run(UnitKind::Target, true, &units, &srcs).unwrap();
    assert_eq!(results.len(), 2);
    assert_eq!(
        *results[0].as_ref().err().unwrap(),
        UnitFault::Extraction(ExtractError::EntryPointNotFound)
    );
    let good = results[1].as_ref().unwrap();
    assert_eq!(good.dest_name, b"Good".to_vec());
}

#[test]
fn colliding_artifact_names_fail_the_later_unit() {
    let units = vec![unit("my-actor", "actors/a"), unit("my_actor", "actors/b")];
    let src = source_with_methods(&["Constructor"]).into_bytes();
    let srcs = vec![src.clone(), src];
    let results = plan_run(UnitKind::Target, true, &units, &srcs).unwrap();
    assert_eq!(results[0].as_ref().unwrap().dest_name, b"MyActor".to_vec());
    assert_eq!(*results[1].as_ref().err().unwrap(), UnitFault::NameCollision);
}

#[test]
fn every_unit_is_accounted_for_in_the_report() {
    let units = vec![
        unit("good", "actors/good"),
        unit("broken", "actors/broken"),
        unit("unplaced", "actors/unplaced"),
    ];
    let srcs = vec![
        source_with_methods(&["Constructor"]).into_bytes(),
        b"no entry point here".to_vec(),
        source_with_methods(&["Constructor", "Run"]).into_bytes(),
    ];
    let results = plan_run(UnitKind::Target, true, &units, &srcs).unwrap();
    let placed = vec![true, true, false];
    let (bundles, failures) = run_report(&units, &results, &placed);
    assert_eq!(bundles.len() + failures.len(), units.len());
    assert_eq!(bundles.len(), 1);
    assert_eq!(bundles[0].dest_name, b"Good".to_vec());
    assert_eq!(failures.len(), 2);
    assert_eq!(failures[0].unit_name, b"broken".to_vec());
    assert_eq!(
        failures[0].fault,
        UnitFault::Extraction(ExtractError::EntryPointNotFound)
    );
    assert_eq!(failures[1].unit_name, b"unplaced".to_vec());
    assert_eq!(failures[1].fault, UnitFault::Placement);
}

#[test]
fn rerunning_the_pipeline_reproduces_the_plan() {
    let src = source_with_methods(&["Constructor", "SetUp", "Foo", "Bar"]);
    let first = plan_unit(UnitKind::Target, b"hello-world", src.as_bytes()).unwrap();
    let again = plan_unit(UnitKind::Target, b"hello-world", src.as_bytes()).unwrap();
    assert_eq!(first.manifest, again.manifest);
    assert_eq!(first.dest_name, again.dest_name);
    assert_eq!(first.binary_file, again.binary_file);
    assert_eq!(first.manifest_file, again.manifest_file);
}
