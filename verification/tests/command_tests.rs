use gh_create_release::build_release_args;
use gh_create_release::gh_release_create;
use gh_create_release::straighten_command_string;
use gh_create_release::StringUtility;

#[test]
fn arguments_are_ordered_and_defaulted() {
    let files = vec![String::from("a.zip"), String::from("b.tar.gz")];
    let args = build_release_args(
        "gh", "v1.2.3", "my title", "dev", "see notes", false, "unused", &files,
    );
    assert_eq!(
        args,
        vec![
            "gh",
            "release",
            "create",
            "v1.2.3",
            "--title",
            "my title",
            "--target",
            "dev",
            "--notes",
            "see notes",
            "a.zip",
            "b.tar.gz",
        ]
    );
}

#[test]
fn empty_title_is_synthesized_from_tag_and_timestamp() {
    let files: Vec<String> = Vec::new();
    let args = build_release_args(
        "gh", "v2", "", "main", "n", false, "2024-01-02 03:04:05.678", &files,
    );
    assert_eq!(args[5], "v2, release, 2024-01-02 03:04:05.678");
}

#[test]
fn empty_target_defaults_to_main() {
    let files: Vec<String> = Vec::new();
    let args = build_release_args("gh", "v2", "t", "", "n", false, "", &files);
    assert_eq!(args[6], "--target");
    assert_eq!(args[7], "main");
}

#[test]
fn empty_notes_ask_for_generated_notes() {
    // The auto-generate flag appears, and no notes value follows it: the
    // attachments come directly after.
    let files = vec![String::from("x.bin")];
    let args = build_release_args("gh", "v2", "t", "main", "", false, "", &files);
    assert_eq!(args[8], "--generate-notes");
    assert_eq!(args[9], "x.bin");
    assert_eq!(args.len(), 10);
}

#[test]
fn file_notes_pass_the_exact_path() {
    let files: Vec<String> = Vec::new();
    let args = build_release_args(
        "gh", "v2", "t", "main", "notes/RELEASE.md", true, "", &files,
    );
    assert_eq!(args[8], "--notes-file");
    assert_eq!(args[9], "notes/RELEASE.md");
    assert_eq!(args.len(), 10);
}

#[test]
fn assembled_command_with_fixed_inputs() {
    // With a given title and literal notes the whole command is determined:
    // neither the clock nor the disk is consulted for its content.
    let files = vec![String::from("pkg.tgz")];
    let args = gh_release_create("gh", "v3.0.0", "Third", "main", "", &files);
    assert_eq!(
        args,
        vec![
            "gh",
            "release",
            "create",
            "v3.0.0",
            "--title",
            "Third",
            "--target",
            "main",
            "--generate-notes",
            "pkg.tgz",
        ]
    );
}

#[test]
fn synthesized_title_begins_with_tag_and_marker() {
    // With an empty title the clock is consulted; the synthesized title
    // starts with the tag and the fixed marker, whatever the time is.
    let files: Vec<String> = Vec::new();
    let args = gh_release_create("gh", "v2", "", "main", "n", &files);
    assert_eq!(args[4], "--title");
    assert!(args[5].starts_with("v2, release, "));
    assert!(args[5].len() > "v2, release, ".len());
}

#[test]
fn notes_not_naming_a_file_pass_as_text() {
    // The disk is consulted; a value that names no existing file is passed
    // as literal note text.
    let files: Vec<String> = Vec::new();
    let args = gh_release_create("gh", "v2", "t", "main", "no-such-file-anywhere.md", &files);
    assert_eq!(args[8], "--notes");
    assert_eq!(args[9], "no-such-file-anywhere.md");
}

#[test]
fn straightened_command_quotes_spaced_parameters() {
    let params = ["gh", "release", "create", "a b"];
    assert_eq!(
        straighten_command_string(&params),
        "gh release create \"a b\""
    );
}

#[test]
fn straightened_command_edge_cases() {
    let no_params: [&str; 0] = [];
    assert_eq!(straighten_command_string(&no_params), "");
    // A leading empty parameter contributes nothing, so no separator is
    // written after it; a later empty parameter still gets its separator.
    assert_eq!(straighten_command_string(&["", "a"]), "a");
    assert_eq!(straighten_command_string(&["a", ""]), "a ");
}

#[test]
fn indexed_access_yields_empty_out_of_range() {
    let v = vec![String::from("zero"), String::from("one")];
    assert_eq!(v.at(0), "zero");
    assert_eq!(v.at(1), "one");
    assert_eq!(v.at(2), "");
}
