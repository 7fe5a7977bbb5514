use actor_bundler::assemble::bundle_files;
use actor_bundler::assemble::compiled_file_name;
use actor_bundler::assemble::dest_name;
use actor_bundler::assemble::dir_plan;
use actor_bundler::assemble::DirAction;
use actor_bundler::assemble::NameError;
use actor_bundler::assemble::UnitKind;

#[test]
fn compiled_file_reconciles_the_hyphen_substitution() {
    assert_eq!(compiled_file_name(b"hello-world"), b"hello_world.wasm".to_vec());
    assert_eq!(compiled_file_name(b"whitelist"), b"whitelist.wasm".to_vec());
}

#[test]
fn target_names_are_pascal_cased() {
    assert_eq!(dest_name(UnitKind::Target, b"hello-world").unwrap(), b"HelloWorld".to_vec());
    assert_eq!(dest_name(UnitKind::Target, b"whitelist").unwrap(), b"Whitelist".to_vec());
}

#[test]
fn test_driver_marker_replaces_the_trailing_test_token() {
    assert_eq!(dest_name(UnitKind::Test, b"widget-test").unwrap(), b"Widget.t".to_vec());
    assert_eq!(dest_name(UnitKind::Test, b"hello-world-test").unwrap(), b"HelloWorld.t".to_vec());
}

#[test]
fn the_last_test_token_is_the_one_replaced() {
    assert_eq!(dest_name(UnitKind::Test, b"test-suite-test").unwrap(), b"TestSuite.t".to_vec());
}

#[test]
fn test_driver_without_test_token_is_an_error() {
    assert_eq!(dest_name(UnitKind::Test, b"widget").err().unwrap(), NameError::NoTestMarker);
}

#[test]
fn non_ascii_name_is_an_error() {
    assert_eq!(
        dest_name(UnitKind::Target, "caf\u{e9}".as_bytes()).err().unwrap(),
        NameError::NotAscii
    );
}

#[test]
fn bundle_file_names_share_the_canonical_name() {
    let (binary, manifest) = bundle_files(b"HelloWorld");
    assert_eq!(binary, b"HelloWorld.wasm".to_vec());
    assert_eq!(manifest, b"HelloWorld.cbor".to_vec());
}

#[test]
fn absent_directory_is_created() {
    assert_eq!(dir_plan(false, false), DirAction::Create);
    assert_eq!(dir_plan(false, true), DirAction::Create);
}

#[test]
fn existing_directory_is_kept_for_an_additive_run() {
    assert_eq!(dir_plan(true, false), DirAction::Keep);
}

#[test]
fn existing_directory_is_purged_for_a_clean_run() {
    assert_eq!(dir_plan(true, true), DirAction::PurgeRecreate);
}
