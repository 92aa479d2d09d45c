use cderive::args::filter_include_args;

fn strings(v: &[&str]) -> Vec<String> {
    v.iter().map(|s| s.to_string()).collect()
}

#[test]
fn include_paths_are_dropped() {
    let args = strings(&[
        "-I",
        "/foo",
        "-Ibar",
        "--include-directory",
        "x",
        "--include-directory=y",
        "-c",
        "file.cpp",
    ]);
    assert_eq!(filter_include_args(&args), strings(&["-c", "file.cpp"]));
}

#[test]
fn other_flags_and_their_arguments_are_kept() {
    let args = strings(&["-isystem", "/a", "--target=x86_64", "-DN=1"]);
    assert_eq!(filter_include_args(&args), args);
}

#[test]
fn argument_after_include_flag_is_dropped_once() {
    // Only the argument right after the flag is dropped; the next one stays,
    // even when it looks like a path.
    let args = strings(&["-I", "-I/x", "/y"]);
    assert_eq!(filter_include_args(&args), strings(&["/y"]));
}

#[test]
fn empty_argument_list_stays_empty() {
    let args: Vec<String> = Vec::new();
    assert!(filter_include_args(&args).is_empty());
}
