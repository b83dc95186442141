use sncast_script::entry::{
    check_finalization, find_function, has_segment_arena, hints_to_params, syscall_handler_offset,
    BuildError, TypeInfo,
};
use sncast_script::felt::Felt;
use sncast_script::project::{infer_name, ProjectError};
use sncast_script::reader::{read_bool, read_byte_array, read_option};
use sncast_script::replace_project_name;
use sncast_script::script::{
    script_response, version_matches_exactly, PackageVersion, RpcArgs, RunResultValue,
};
use sncast_script::Run;

fn felt(v: u64) -> Felt {
    let mut bytes = [0u8; 32];
    bytes[24..].copy_from_slice(&v.to_be_bytes());
    Felt { bytes }
}

fn ty(id: &str, droppable: bool, is_user_arg: bool) -> TypeInfo {
    TypeInfo { generic_id: id.to_string(), size: 1, droppable, is_user_arg }
}

#[test]
fn finds_first_function_with_suffix() {
    let names = vec![
        None,
        Some("my_script::helper".to_string()),
        Some("my_script::main".to_string()),
        Some("other::my_script::main".to_string()),
    ];
    assert_eq!(find_function(&names, "my_script::main"), Ok(2));
    assert_eq!(find_function(&names, "::helper"), Ok(1));
    assert_eq!(find_function(&names, "nope::main"), Err(BuildError::MissingFunction));
    assert_eq!(
        BuildError::MissingFunction.message(),
        "Failed to find main function in script - please make sure `sierra-replace-ids` is not set to `false` for `dev` profile in script's Scarb.toml"
    );
    assert_eq!(
        BuildError::SegmentArenaNotFinalizable.message(),
        "Cannot finalize the segment arena when returning non-droppable values."
    );
}

#[test]
fn main_function_name_appends_main() {
    let run = Run {
        script_name: "deploy_all".to_string(),
        package: None,
        no_state_file: false,
        rpc: RpcArgs { url: None, network: None },
    };
    assert_eq!(run.main_function_name(), "deploy_all::main");
}

#[test]
fn finalization_requires_droppable_user_values() {
    let droppable = vec![ty("felt252", true, true), ty("RangeCheck", false, false)];
    let stuck = vec![ty("felt252", true, true), ty("Dict", false, true)];
    assert_eq!(check_finalization(&droppable, true), Ok(()));
    assert_eq!(check_finalization(&stuck, false), Ok(()));
    assert_eq!(check_finalization(&stuck, true), Err(BuildError::SegmentArenaNotFinalizable));
    assert_eq!(check_finalization(&vec![], true), Ok(()));
}

#[test]
fn segment_index_follows_builtins_and_arena() {
    let params = vec![ty("RangeCheck", false, false), ty("SegmentArena", false, false)];
    assert!(has_segment_arena(&params));
    assert!(!has_segment_arena(&vec![ty("GasBuiltin", false, false)]));
    assert_eq!(syscall_handler_offset(3, false), 5);
    assert_eq!(syscall_handler_offset(3, true), 7);
    assert_eq!(syscall_handler_offset(0, false), 2);
}

#[test]
fn hint_tables() {
    let s = |x: &str| x.to_string();
    let hints = vec![
        (0usize, vec![s("alloc"), s("cheat")]),
        (4, vec![s("cheat")]),
        (9, vec![]),
        (4, vec![s("syscall")]),
    ];
    let t = hints_to_params(&hints);
    assert_eq!(t.by_offset.len(), 3);
    assert_eq!(t.by_offset.get(&4), Some(&vec![s("syscall")]));
    assert_eq!(t.by_offset.get(&0), Some(&vec![s("alloc"), s("cheat")]));
    assert_eq!(t.by_offset.get(&9), Some(&vec![]));
    assert_eq!(t.by_offset.get(&1), None);
    assert_eq!(t.by_string.len(), 3);
    for (name, i, j) in &t.by_string {
        assert_eq!(&hints[*i].1[*j], name);
    }
    assert!(t.by_string.iter().any(|(n, _, _)| n == "syscall"));
}

#[test]
fn project_name_is_filled_in() {
    let out = replace_project_name(b"name = \"{{ PROJECT_NAME }}\"\n{{ PROJECT_NAME }}::x {{ PROJECT", "hello").unwrap();
    assert_eq!(out, b"name = \"hello\"\nhello::x {{ PROJECT".to_vec());
    assert_eq!(replace_project_name(b"", "p").unwrap(), Vec::<u8>::new());
    assert_eq!(replace_project_name(&[0xff, 0xfe], "p"), Err(ProjectError::InvalidUtf8));
}

#[test]
fn package_name_is_inferred_from_path() {
    assert_eq!(infer_name(Some("given".to_string()), "/tmp/other"), Ok("given".to_string()));
    assert_eq!(infer_name(None, "/tmp/my_project"), Ok("my_project".to_string()));
    assert_eq!(infer_name(None, "/"), Err(ProjectError::CannotInferName));
}

#[test]
fn run_outcome_status() {
    let ok = script_response(&RunResultValue::Success(vec![felt(1)]));
    assert_eq!(ok.status, "success");
    assert_eq!(ok.data[0].bytes, felt(1).bytes);
    let panicked = script_response(&RunResultValue::Panic(vec![felt(2), felt(3)]));
    assert_eq!(panicked.status, "script panicked");
    assert_eq!(panicked.data.len(), 2);
}

#[test]
fn exact_version_requirement() {
    let v = |major, minor, patch, pre: &str| PackageVersion { major, minor, patch, pre: pre.to_string() };
    assert!(version_matches_exactly(&v(0, 40, 0, ""), &v(0, 40, 0, "")));
    assert!(!version_matches_exactly(&v(0, 40, 0, ""), &v(0, 40, 1, "")));
    assert!(!version_matches_exactly(&v(0, 40, 0, ""), &v(0, 40, 0, "rc.1")));
    assert!(version_matches_exactly(&v(1, 0, 0, "rc.1"), &v(1, 0, 0, "rc.1")));
}

#[test]
fn reader_decodes_bools_options_and_byte_arrays() {
    let buf = vec![felt(1), felt(0), felt(2)];
    assert_eq!(read_bool(&buf, 0), Some((true, 1)));
    assert_eq!(read_bool(&buf, 1), Some((false, 2)));
    assert_eq!(read_bool(&buf, 2), None);
    let opt = vec![felt(0), felt(42), felt(1)];
    let (some, p) = read_option(&opt, 0).unwrap();
    assert_eq!((some.unwrap().bytes, p), (felt(42).bytes, 2));
    let (none, q) = read_option(&opt, 2).unwrap();
    assert!(none.is_none());
    assert_eq!(q, 3);
    let mut pending = [0u8; 32];
    pending[29..].copy_from_slice(b"abc");
    let ba = vec![felt(0), Felt { bytes: pending }, felt(3)];
    assert_eq!(read_byte_array(&ba, 0), Some((b"abc".to_vec(), 3)));
    let too_short = vec![felt(0), Felt { bytes: pending }, felt(2)];
    assert_eq!(read_byte_array(&too_short, 0), None);
}
