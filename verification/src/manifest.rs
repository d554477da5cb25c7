//! Reading a release version from a project manifest. Only a Cargo-style
//! TOML manifest is understood: the version is the `version` key of its
//! `[package]` section. The file itself is read and parsed by the caller;
//! this module decides which paths are supported and which outcome each
//! read maps to.

use vstd::prelude::*;
use crate::errors::TagError;

verus! {

/// The `[package]` section of a Cargo manifest.
pub struct CargoTomlPackage {
    /// Package name.
    pub name: String,
    /// Package version.
    pub version: String,
}

/// A Cargo manifest, as far as this tool reads it.
pub struct CargoToml {
    /// The `[package]` section.
    pub package: CargoTomlPackage,
}

/// What reading a manifest file produced.
pub enum ManifestFile {
    /// The file was read and parsed.
    Found(CargoToml),
    /// No file exists at the path.
    Missing,
    /// The file exists but could not be parsed; carries the parser's
    /// description of the problem.
    Malformed(String),
}

/// The path names a TOML manifest: it ends in `.toml`, compared without
/// regard to ASCII case.
pub open spec fn is_toml_path_spec(p: Seq<char>) -> bool {
    let n = p.len() as int;
    n >= 5 && p[n - 5] == '.' && (p[n - 4] == 't' || p[n - 4] == 'T') && (p[n - 3] == 'o' || p[n
        - 3] == 'O') && (p[n - 2] == 'm' || p[n - 2] == 'M') && (p[n - 1] == 'l' || p[n - 1]
        == 'L')
}

/// Whether `path` names a manifest this tool can read.
pub fn is_toml_path(path: &str) -> (r: bool)
    ensures
        r == is_toml_path_spec(path@),
{
    let n = path.unicode_len();
    if n < 5 {
        return false;
    }
    let c1 = path.get_char(n - 5);
    let c2 = path.get_char(n - 4);
    let c3 = path.get_char(n - 3);
    let c4 = path.get_char(n - 2);
    let c5 = path.get_char(n - 1);
    c1 == '.' && (c2 == 't' || c2 == 'T') && (c3 == 'o' || c3 == 'O') && (c4 == 'm' || c4 == 'M')
        && (c5 == 'l' || c5 == 'L')
}

/// Determines the next tag from a manifest file: the version field,
/// verbatim. An unsupported path is rejected before any read; a missing or
/// malformed file fails with the matching error.
pub fn try_determine_version_from(path: &str, file: &ManifestFile) -> (r: Result<String, TagError>)
    ensures
        !is_toml_path_spec(path@) ==> (r matches Err(e) && e matches TagError::UnsupportedManifest(
            p,
        ) && p@ == path@),
        is_toml_path_spec(path@) && file is Missing ==> (r matches Err(e)
            && e is FileNotFound),
        file matches ManifestFile::Malformed(m) ==> (is_toml_path_spec(path@) ==> (r matches Err(e)
            && e matches TagError::ManifestParseError(m2) && m2@ == m@)),
        file matches ManifestFile::Found(c) ==> (is_toml_path_spec(path@) ==> (r matches Ok(v)
            && v@ == c.package.version@)),
{
    if !is_toml_path(path) {
        return Err(TagError::UnsupportedManifest(String::from_str(path)));
    }
    match file {
        ManifestFile::Found(c) => Ok(c.package.version.clone()),
        ManifestFile::Missing => Err(TagError::FileNotFound),
        ManifestFile::Malformed(m) => Err(TagError::ManifestParseError(m.clone())),
    }
}

} // verus!
