//! Deciding where the next release tag comes from. The sources are tried
//! in a fixed priority order, short-circuiting at the first that applies:
//! an explicit tag, a manifest file to read the version from, a CI tag
//! reference, and finally the remote release listing. The decisions are
//! pure; the caller performs whatever reading each decision asks for and
//! hands the outcome back.

use vstd::prelude::*;
use crate::errors::TagError;
use crate::listing::latest_tag_spec;
use crate::tag::{generate_tag, next_tag_spec};

verus! {

/// Which source decides the next tag.
pub enum SourceKind {
    FromExplicit,
    FromManifest,
    FromInference,
}

/// The selected source under the fixed priority: an explicit tag beats the
/// manifest path, which beats inference from CI reference or listing.
pub open spec fn chosen_source(explicit: Seq<char>, determine_version_from: Seq<char>) -> SourceKind {
    if explicit.len() > 0 {
        SourceKind::FromExplicit
    } else if determine_version_from.len() > 0 {
        SourceKind::FromManifest
    } else {
        SourceKind::FromInference
    }
}

/// Law: a non-empty explicit tag always decides the source by itself; the
/// choice never depends on the manifest path, so no other source is
/// consulted.
pub proof fn lemma_explicit_short_circuits(explicit: Seq<char>, dv1: Seq<char>, dv2: Seq<char>)
    requires
        explicit.len() > 0,
    ensures
        chosen_source(explicit, dv1) == SourceKind::FromExplicit,
        chosen_source(explicit, dv1) == chosen_source(explicit, dv2),
{
}

/// What the caller must do to obtain the next tag.
pub enum TagSource {
    /// Use this tag verbatim; it was given explicitly.
    Explicit(String),
    /// Read the version from the manifest at this path.
    ManifestVersion(String),
    /// Infer the tag: consult the CI reference and then the listing.
    Inferred,
}

/// Selects the tag source. An explicit tag is used verbatim, bypassing all
/// inference and validation; otherwise a non-empty manifest path asks for a
/// manifest read; otherwise the tag is inferred.
pub fn resolve_next_tag(explicit: &str, determine_version_from: &str) -> (src: TagSource)
    ensures
        chosen_source(explicit@, determine_version_from@) == SourceKind::FromExplicit ==> (
        src matches TagSource::Explicit(t) && t@ == explicit@),
        chosen_source(explicit@, determine_version_from@) == SourceKind::FromManifest ==> (
        src matches TagSource::ManifestVersion(p) && p@ == determine_version_from@),
        chosen_source(explicit@, determine_version_from@) == SourceKind::FromInference ==> (
        src is Inferred),
{
    if !explicit.is_empty() {
        TagSource::Explicit(String::from_str(explicit))
    } else if !determine_version_from.is_empty() {
        TagSource::ManifestVersion(String::from_str(determine_version_from))
    } else {
        TagSource::Inferred
    }
}

/// The tag a CI reference names: for a reference of the form
/// `refs/tags/<name>` with a non-empty name that spans the rest of the
/// reference (in particular, holding no newline), the name; otherwise
/// nothing, and the caller falls through to the next source.
pub open spec fn ci_ref_tag(s: Seq<char>) -> Option<Seq<char>> {
    if s.len() >= 11 && s.subrange(0, 10) == "refs/tags/"@ && (forall|i: int|
        10 <= i < s.len() ==> s[i] != '\n') {
        Some(s.subrange(10, s.len() as int))
    } else {
        None
    }
}

/// Extracts the tag name from a CI reference such as the one the
/// environment hands to builds triggered by tagging.
pub fn try_get_tag_name(github_ref: &str) -> (r: Option<String>)
    ensures
        r matches Some(x) ==> ci_ref_tag(github_ref@) == Some(x@),
        r is None ==> ci_ref_tag(github_ref@) is None,
{
    let pat = "refs/tags/";
    proof {
        reveal_strlit("refs/tags/");
    }
    let n = github_ref.unicode_len();
    if n < 11 {
        return None;
    }
    let mut j: usize = 0;
    while j < 10
        invariant
            j <= 10,
            n == github_ref@.len(),
            n >= 11,
            pat@ == "refs/tags/"@,
            pat@.len() == 10,
            forall|t: int| 0 <= t < j ==> github_ref@[t] == "refs/tags/"@[t],
        decreases 10 - j,
    {
        if github_ref.get_char(j) != pat.get_char(j) {
            proof {
                if github_ref@.subrange(0, 10) == "refs/tags/"@ {
                    assert(github_ref@.subrange(0, 10)[j as int] == "refs/tags/"@[j as int]);
                }
            }
            return None;
        }
        j += 1;
    }
    proof {
        assert(github_ref@.subrange(0, 10) =~= "refs/tags/"@);
    }
    let mut i: usize = 10;
    while i < n
        invariant
            10 <= i <= n,
            n == github_ref@.len(),
            forall|t: int| 10 <= t < i ==> github_ref@[t] != '\n',
        decreases n - i,
    {
        if github_ref.get_char(i) == '\n' {
            return None;
        }
        i += 1;
    }
    let rest = github_ref.substring_char(10, n);
    Some(String::from_str(rest))
}

/// The next step of tag inference once the cheaper sources are exhausted.
pub enum InferStep {
    /// The CI reference named this tag; use it.
    Done(String),
    /// The CI reference names no tag; the caller must fetch the release
    /// listing and continue with it.
    NeedListing,
}

/// Infers the next tag from the CI reference: a reference that names a tag
/// decides; otherwise the release listing must be consulted.
pub fn generate_new_tag(github_ref: &str) -> (r: Result<InferStep, TagError>)
    ensures
        ci_ref_tag(github_ref@) matches Some(t) ==> (r matches Ok(s) && s matches InferStep::Done(
            tag,
        ) && tag@ == t),
        ci_ref_tag(github_ref@) is None ==> (r matches Ok(s) && s is NeedListing),
{
    match try_get_tag_name(github_ref) {
        Some(tag_name) => {
            if tag_name.as_str().is_empty() {
                // A tag reference always carries at least one character, so
                // this cannot be reached; kept as a guard on the invariant.
                Err(TagError::EmptyTagName)
            } else {
                Ok(InferStep::Done(tag_name))
            }
        },
        None => Ok(InferStep::NeedListing),
    }
}

/// The tag that follows from a release listing: the latest tag's increment,
/// or `1` when the listing names no tag or one of unrecognized shape.
pub open spec fn next_tag_from_listing(stdout: Seq<char>) -> Seq<char> {
    let nt = next_tag_spec(latest_tag_spec(stdout));
    if nt.len() == 0 {
        seq!['1']
    } else {
        nt
    }
}

/// Continues inference with the fetched release listing: increments the
/// latest tag found there, defaulting to `1` when there is none to
/// increment.
pub fn generate_new_tag_from_listing(listing: &str) -> (r: String)
    ensures
        r@ == next_tag_from_listing(listing@),
{
    let latest = crate::listing::get_gh_current_tag(listing);
    let next = match generate_tag(latest.as_str()) {
        Ok(t) => t,
        Err(_) => {
            proof {
                assert(false);
            }
            String::new()
        },
    };
    if next.as_str().is_empty() {
        let one = String::from_str("1");
        proof {
            reveal_strlit("1");
            assert(one@ =~= seq!['1']);
        }
        one
    } else {
        next
    }
}

} // verus!
