use actor_bundler::compile::compile_args;
use actor_bundler::compile::compile_env;
use actor_bundler::discover::classify_dir;
use actor_bundler::discover::discover_units;
use actor_bundler::discover::entry_source_path;
use actor_bundler::discover::BuildUnit;
use actor_bundler::discover::Decision;
use actor_bundler::discover::DirScan;

fn scan(dir: &str, manifest: Option<&str>) -> DirScan {
    DirScan {
        dir: dir.as_bytes().to_vec(),
        manifest: manifest.map(|m| m.as_bytes().to_vec()),
    }
}

#[test]
fn manifest_name_becomes_the_unit_name() {
    let d = scan(
        "actors/hello-world",
        Some("[package]\nname = \"hello-world\"\nversion = \"0.1.0\"\n"),
    );
    match classify_dir(&d) {
        Decision::Unit(u) => {
            assert_eq!(u.name, b"hello-world".to_vec());
            assert_eq!(u.dir, b"actors/hello-world".to_vec());
        },
        other => panic!("expected a unit, got {other:?}"),
    }
}

#[test]
fn directory_without_manifest_is_skipped() {
    let d = scan("actors/notes", None);
    assert!(matches!(classify_dir(&d), Decision::Skip));
}

#[test]
fn manifest_without_name_is_excluded_with_a_diagnostic() {
    let d = scan("actors/broken", Some("[package]\nversion = \"0.1.0\"\n"));
    match classify_dir(&d) {
        Decision::Excluded(dir) => assert_eq!(dir, b"actors/broken".to_vec()),
        other => panic!("expected an exclusion, got {other:?}"),
    }
}

#[test]
fn unparsable_manifest_is_excluded_with_a_diagnostic() {
    let d = scan("actors/bad-toml", Some("this is not [ valid toml"));
    assert!(matches!(classify_dir(&d), Decision::Excluded(_)));
}

#[test]
fn discovery_keeps_scan_order_and_collects_diagnostics() {
    let scans = vec![
        scan("actors/a", Some("[package]\nname = \"a\"\n")),
        scan("actors/skipme", None),
        scan("actors/broken", Some("nope [")),
        scan("actors/b", Some("[package]\nname = \"b\"\n")),
    ];
    let (units, excluded) = discover_units(&scans);
    let names: Vec<Vec<u8>> = units.iter().map(|u| u.name.clone()).collect();
    assert_eq!(names, vec![b"a".to_vec(), b"b".to_vec()]);
    assert_eq!(excluded, vec![b"actors/broken".to_vec()]);
}

#[test]
fn entry_source_is_at_the_fixed_relative_path() {
    assert_eq!(
        entry_source_path(b"actors/hello-world"),
        b"actors/hello-world/src/actor.rs".to_vec()
    );
}

#[test]
fn batched_invocation_names_every_unit_once() {
    let units = vec![
        BuildUnit { name: b"hello-world".to_vec(), dir: b"actors/hello-world".to_vec() },
        BuildUnit { name: b"whitelist".to_vec(), dir: b"actors/whitelist".to_vec() },
    ];
    let args = compile_args(&units, b"/workspace/Cargo.toml");
    let expected: Vec<Vec<u8>> = [
        "build",
        "-p=hello-world",
        "-p=whitelist",
        "--target=wasm32-unknown-unknown",
        "--profile=wasm",
        "--locked",
        "--manifest-path=/workspace/Cargo.toml",
    ]
    .iter()
    .map(|a| a.as_bytes().to_vec())
    .collect();
    assert_eq!(args, expected);
}

#[test]
fn invocation_environment_isolates_outputs_and_strips_inherited_flags() {
    let env = compile_env(b"/tmp/out/bundle");
    assert_eq!(env.set_vars.len(), 1);
    assert_eq!(env.set_vars[0].0, b"CARGO_TARGET_DIR".to_vec());
    assert_eq!(env.set_vars[0].1, b"/tmp/out/bundle".to_vec());
    assert_eq!(env.unset_vars, vec![b"CARGO_ENCODED_RUSTFLAGS".to_vec()]);
}
