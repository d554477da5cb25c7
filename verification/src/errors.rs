//! The failures a release-tag resolution can end in.

use vstd::prelude::*;

verus! {

/// Why a release tag could not be resolved.
#[derive(Debug)]
pub enum TagError {
    /// A CI reference named a tag whose name is empty.
    EmptyTagName,
    /// The manifest path has an extension the tool does not understand;
    /// carries the offending path.
    UnsupportedManifest(String),
    /// The manifest path does not point at an existing file.
    FileNotFound,
    /// The manifest file exists but could not be parsed; carries the
    /// parser's description of the problem.
    ManifestParseError(String),
}

/// The message reported for each failure.
pub open spec fn message_spec(e: TagError) -> Seq<char> {
    match e {
        TagError::EmptyTagName => "GITHUB_REF_NAME is empty."@,
        TagError::UnsupportedManifest(p) => "Unknown type of file ["@ + p@ + "]."@,
        TagError::FileNotFound => "File not found."@,
        TagError::ManifestParseError(m) => m@,
    }
}

impl TagError {
    /// Renders the failure as the message shown to the user.
    pub fn message(&self) -> (m: String)
        ensures
            m@ == message_spec(*self),
    {
        match self {
            TagError::EmptyTagName => String::from_str("GITHUB_REF_NAME is empty."),
            TagError::UnsupportedManifest(p) => {
                let mut m = String::from_str("Unknown type of file [");
                m.append(p.as_str());
                m.append("].");
                m
            },
            TagError::FileNotFound => String::from_str("File not found."),
            TagError::ManifestParseError(m) => m.clone(),
        }
    }
}

} // verus!
