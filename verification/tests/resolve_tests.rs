use gh_create_release::errors::TagError;
use gh_create_release::generate_new_tag;
use gh_create_release::generate_new_tag_from_listing;
use gh_create_release::get_gh_current_tag;
use gh_create_release::is_toml_path;
use gh_create_release::resolve_next_tag;
use gh_create_release::try_determine_version_from;
use gh_create_release::try_get_tag_name;
use gh_create_release::CargoToml;
use gh_create_release::CargoTomlPackage;
use gh_create_release::InferStep;
use gh_create_release::ManifestFile;
use gh_create_release::TagSource;

#[test]
fn explicit_tag_short_circuits() {
    // A non-empty explicit tag is used verbatim: no manifest read, no
    // environment lookup, no listing query is requested.
    match resolve_next_tag("v9.9.9", "Cargo.toml") {
        TagSource::Explicit(t) => assert_eq!(t, "v9.9.9"),
        _ => panic!("explicit tag must decide the source"),
    }
    match resolve_next_tag("weird-tag!", "") {
        TagSource::Explicit(t) => assert_eq!(t, "weird-tag!"),
        _ => panic!("explicit tag must decide the source"),
    }
}

#[test]
fn manifest_path_is_second_in_priority() {
    match resolve_next_tag("", "Cargo.toml") {
        TagSource::ManifestVersion(p) => assert_eq!(p, "Cargo.toml"),
        _ => panic!("manifest path must decide when no explicit tag is given"),
    }
    match resolve_next_tag("", "") {
        TagSource::Inferred => {}
        _ => panic!("with neither input the tag is inferred"),
    }
}

#[test]
fn ci_ref_names_the_tag() {
    assert_eq!(try_get_tag_name("refs/tags/v1.2.3").unwrap(), "v1.2.3");
    assert_eq!(try_get_tag_name("refs/tags/x").unwrap(), "x");
    assert!(try_get_tag_name("refs/heads/main").is_none());
    assert!(try_get_tag_name("refs/tags/").is_none());
    assert!(try_get_tag_name("").is_none());
    assert!(try_get_tag_name("refs/tags").is_none());
}

#[test]
fn inference_uses_ci_ref_before_listing() {
    match generate_new_tag("refs/tags/v2.0.0") {
        Ok(InferStep::Done(t)) => assert_eq!(t, "v2.0.0"),
        _ => panic!("a tag reference decides inference"),
    }
    match generate_new_tag("refs/heads/main") {
        Ok(InferStep::NeedListing) => {}
        _ => panic!("without a tag reference the listing is needed"),
    }
    match generate_new_tag("") {
        Ok(InferStep::NeedListing) => {}
        _ => panic!("without a tag reference the listing is needed"),
    }
}

#[test]
fn listing_yields_latest_tag() {
    let listing = "v1.0.566\tDraft\tv1.0.566\t2023-01-01\nRelease v1.0.567\tLatest\tv1.0.567\t2023-01-02\nold\tv1.0.1\n";
    assert_eq!(get_gh_current_tag(listing), "v1.0.567");
}

#[test]
fn listing_lines_are_trimmed_before_splitting() {
    let listing = "  title\tLatest\tv9\t2020-05-05  \n";
    assert_eq!(get_gh_current_tag(listing), "v9");
}

#[test]
fn listing_without_marker_or_fields_yields_nothing() {
    assert_eq!(get_gh_current_tag(""), "");
    assert_eq!(get_gh_current_tag("v1\tv2\tv3"), "");
    assert_eq!(get_gh_current_tag("Latest\tv3"), "");
    assert_eq!(get_gh_current_tag("a\nb\nc"), "");
}

#[test]
fn listing_inference_increments_or_defaults() {
    let listing = "Release v1.0.567\tLatest\tv1.0.567\t2023-01-02";
    assert_eq!(generate_new_tag_from_listing(listing), "v1.0.568");
    // No latest tag, or one of unrecognized shape: the next tag is "1".
    assert_eq!(generate_new_tag_from_listing(""), "1");
    assert_eq!(generate_new_tag_from_listing("x\tLatest\todd-tag\t2023"), "1");
}

#[test]
fn toml_extension_is_checked_without_regard_to_case() {
    assert!(is_toml_path("Cargo.toml"));
    assert!(is_toml_path("CARGO.TOML"));
    assert!(is_toml_path("a/b/c.ToMl"));
    assert!(!is_toml_path("readme.md"));
    assert!(!is_toml_path("toml"));
    assert!(!is_toml_path(""));
}

#[test]
fn manifest_version_is_read_verbatim() {
    let manifest = ManifestFile::Found(CargoToml {
        package: CargoTomlPackage {
            name: String::from("demo"),
            version: String::from("0.1.0"),
        },
    });
    assert_eq!(
        try_determine_version_from("Cargo.toml", &manifest).unwrap(),
        "0.1.0"
    );
}

#[test]
fn unsupported_manifest_path_is_rejected() {
    let manifest = ManifestFile::Missing;
    match try_determine_version_from("version.txt", &manifest) {
        Err(TagError::UnsupportedManifest(p)) => assert_eq!(p, "version.txt"),
        _ => panic!("a non-toml path must be rejected"),
    }
}

#[test]
fn missing_manifest_file_is_an_error() {
    match try_determine_version_from("Cargo.toml", &ManifestFile::Missing) {
        Err(TagError::FileNotFound) => {}
        _ => panic!("a missing file must be reported"),
    }
}

#[test]
fn malformed_manifest_is_an_error() {
    let manifest = ManifestFile::Malformed(String::from("expected a table"));
    match try_determine_version_from("Cargo.toml", &manifest) {
        Err(TagError::ManifestParseError(m)) => assert_eq!(m, "expected a table"),
        _ => panic!("a malformed file must be reported"),
    }
}

#[test]
fn error_messages_match_the_reported_text() {
    assert_eq!(
        TagError::EmptyTagName.message(),
        "GITHUB_REF_NAME is empty."
    );
    assert_eq!(
        TagError::UnsupportedManifest(String::from("x.json")).message(),
        "Unknown type of file [x.json]."
    );
    assert_eq!(TagError::FileNotFound.message(), "File not found.");
    assert_eq!(
        TagError::ManifestParseError(String::from("bad")).message(),
        "bad"
    );
}
