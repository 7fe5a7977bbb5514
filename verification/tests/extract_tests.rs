use actor_bundler::extract::extract_table;
use actor_bundler::extract::ExtractError;

fn demo_source() -> String {
    [
        "use frc42_dispatch::match_method;",
        "",
        "#[no_mangle]",
        "fn invoke(_input: u32) -> u32 {",
        "    let method_num = fvm_sdk::message::method_number();",
        "    match_method!(",
        "        method_num,",
        "        {",
        "            \"Constructor\" => {",
        "                Constructor();",
        "                NO_DATA_BLOCK_ID",
        "            },",
        "            \"SetUp\" => {",
        "                SetUp()",
        "            },",
        "            \"Foo\" => {",
        "                Foo()",
        "            },",
        "            \"Bar\" => {",
        "                Bar()",
        "            },",
        "            _ => {",
        "                fvm_sdk::vm::abort(ExitCode::USR_UNHANDLED_MESSAGE.value(), Some(\"Unknown method number\"));",
        "            }",
        "        }",
        "    )",
        "}",
    ]
    .join("\n")
}

#[test]
fn reserved_roles_and_ordered_methods() {
    let t = extract_table(demo_source().as_bytes()).unwrap();
    assert!(t.has_constructor);
    assert!(t.has_setup);
    assert_eq!(t.methods, vec![b"Foo".to_vec(), b"Bar".to_vec()]);
}

#[test]
fn wildcard_only_block_yields_empty_table() {
    let src = "fn invoke(_input: u32) -> u32 {\n    match_method!(method_num, {\n        _ => { abort() }\n    })\n}\n";
    let t = extract_table(src.as_bytes()).unwrap();
    assert!(!t.has_constructor);
    assert!(!t.has_setup);
    assert!(t.methods.is_empty());
}

#[test]
fn missing_entry_point_is_reported() {
    let src = "fn main() {\n    match_method!(method_num, { \"Foo\" => { f() } })\n}\n";
    let r = extract_table(src.as_bytes());
    assert_eq!(r.err().unwrap(), ExtractError::EntryPointNotFound);
}

#[test]
fn missing_dispatch_call_is_reported() {
    let src = "fn invoke(_input: u32) -> u32 {\n    0\n}\n";
    let r = extract_table(src.as_bytes());
    assert_eq!(r.err().unwrap(), ExtractError::DispatchCallNotFound);
}

#[test]
fn dispatch_call_without_block_is_reported() {
    let src = "fn invoke(_input: u32) -> u32 {\n    match_method!\n}\n";
    let r = extract_table(src.as_bytes());
    assert_eq!(r.err().unwrap(), ExtractError::DispatchBlockNotFound);
}

#[test]
fn unterminated_literal_is_reported() {
    let src = "fn invoke() { let s = \"unclosed; }";
    let r = extract_table(src.as_bytes());
    assert_eq!(r.err().unwrap(), ExtractError::MalformedSource);
}

#[test]
fn comments_and_strings_do_not_confuse_the_scan() {
    let src = [
        "// a comment with braces { } and \"quotes\"",
        "/* a block /* nested */ with a stray } brace */",
        "fn helper() { let s = \"not } a { key\"; }",
        "fn invoke(_input: u32) -> u32 {",
        "    // \"NotAKey\" inside a comment",
        "    let c = '{';",
        "    match_method!(method_num, {",
        "        \"Real\" => { real(\"NotAKeyEither\") },",
        "        _ => { abort() }",
        "    })",
        "}",
    ]
    .join("\n");
    let t = extract_table(src.as_bytes()).unwrap();
    assert!(!t.has_constructor);
    assert!(!t.has_setup);
    assert_eq!(t.methods, vec![b"Real".to_vec()]);
}

#[test]
fn duplicate_method_names_are_preserved() {
    let src = "fn invoke(_i: u32) -> u32 {\n    match_method!(m, {\n        \"Dup\" => { a() },\n        \"Dup\" => { b() },\n        _ => { c() }\n    })\n}\n";
    let t = extract_table(src.as_bytes()).unwrap();
    assert_eq!(t.methods, vec![b"Dup".to_vec(), b"Dup".to_vec()]);
}
