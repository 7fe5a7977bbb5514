use actor_bundler::selector::method_selector;
use actor_bundler::selector::SelectorError;
use frc42_dispatch::hash::Hasher;
use frc42_dispatch::hash::MethodResolver;

/// The conventional hashing function of the dispatch convention.
struct Blake2bHasher {}

impl Hasher for Blake2bHasher {
    fn hash(&self, bytes: &[u8]) -> Vec<u8> {
        blake2b_simd::blake2b(bytes).as_bytes().to_vec()
    }
}

fn reference_selector(name: &str) -> u64 {
    let resolver = MethodResolver::new(Blake2bHasher {});
    resolver.method_number(name).unwrap()
}

#[test]
fn constructor_selector_is_one() {
    assert_eq!(method_selector(b"Constructor").unwrap(), 1);
    assert_eq!(reference_selector("Constructor"), 1);
}

#[test]
fn selectors_match_the_dispatch_convention() {
    for name in ["HelloWorld", "SetUp", "SetAdministrator", "IsWhitelisted", "SetWhitelist"] {
        assert_eq!(
            method_selector(name.as_bytes()).unwrap(),
            reference_selector(name),
            "selector mismatch for {name}"
        );
    }
}

#[test]
fn selectors_are_above_the_reserved_range() {
    for name in ["HelloWorld", "SetUp", "Foo", "Bar"] {
        assert!(method_selector(name.as_bytes()).unwrap() >= 1 << 24);
    }
}

#[test]
fn empty_name_is_rejected() {
    assert_eq!(method_selector(b"").err().unwrap(), SelectorError::EmptyName);
}

#[test]
fn lowercase_start_is_rejected() {
    assert_eq!(method_selector(b"helloWorld").err().unwrap(), SelectorError::IllegalStart);
}

#[test]
fn underscore_start_is_accepted() {
    assert_eq!(method_selector(b"_Private").unwrap(), reference_selector("_Private"));
}

#[test]
fn illegal_character_is_rejected() {
    assert_eq!(method_selector(b"Hello-World").err().unwrap(), SelectorError::IllegalCharacter);
}
