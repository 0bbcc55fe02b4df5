//! Version banner strings.

use vstd::prelude::*;
use crate::text::{push_char, push_str};

verus! {

/// The application name shown in banners and used for per-user directories.
pub const APP_NAME: &'static str = "aura";

/// The base name of the application's executable.
pub const BINARY_FILENAME: &'static str = "aura";

/// Build metadata of one build of the application.
#[derive(Debug, Clone, PartialEq, Eq)]
pub struct VersionInfo {
    pub revision: String,
    pub branch: String,
    pub build_date: String,
    pub version: String,
    pub version_prerelease: String,
    pub version_metadata: String,
}

/// Whether the version fields mark an unknown build.
pub open spec fn is_unknown_build(info: VersionInfo) -> bool {
    info.version@ == "unknown"@ && info.version_prerelease@ == "unknown"@
}

/// `version[-prerelease][+metadata]`, or `Version unknown`.
pub open spec fn version_number_spec(info: VersionInfo) -> Seq<char> {
    if is_unknown_build(info) {
        "Version unknown"@
    } else {
        info.version@ + (if info.version_prerelease@.len() == 0 {
            Seq::<char>::empty()
        } else {
            seq!['-'] + info.version_prerelease@
        }) + (if info.version_metadata@.len() == 0 {
            Seq::<char>::empty()
        } else {
            seq!['+'] + info.version_metadata@
        })
    }
}

/// The revision block: `/branch` for a branch other than master or HEAD, then ` (revision)`.
pub open spec fn revision_block(info: VersionInfo) -> Seq<char> {
    (if info.branch@.len() != 0 && info.branch@ != "master"@ && info.branch@ != "HEAD"@ {
        seq!['/'] + info.branch@
    } else {
        Seq::<char>::empty()
    }) + " ("@ + info.revision@ + ")"@
}

/// `aura [Version X]`, with the revision block when asked for and a revision is known.
pub open spec fn full_version_spec(info: VersionInfo, rev: bool) -> Seq<char> {
    if is_unknown_build(info) {
        "aura [Version unknown]"@
    } else {
        "aura [Version "@ + info.version@ + (if rev && info.revision@.len() != 0 {
            revision_block(info)
        } else {
            Seq::<char>::empty()
        }) + "]"@
    }
}

impl VersionInfo {
    /// The version number with pre-release and metadata suffixes.
    pub fn version_number(&self) -> (r: String)
        ensures
            r@ == version_number_spec(*self),
    {
        proof {
            reveal_strlit("unknown");
            reveal_strlit("Version unknown");
        }
        if crate::text::str_eq(self.version.as_str(), "unknown") && crate::text::str_eq(
            self.version_prerelease.as_str(),
            "unknown",
        ) {
            return crate::text::owned("Version unknown");
        }
        let mut version = self.version.clone();
        if self.version_prerelease.unicode_len() != 0 {
            push_char(&mut version, '-');
            push_str(&mut version, self.version_prerelease.as_str());
        }
        if self.version_metadata.unicode_len() != 0 {
            push_char(&mut version, '+');
            push_str(&mut version, self.version_metadata.as_str());
        }
        version
    }

    /// The full banner line, `aura [Version ...]`.
    pub fn full_version_number(&self, rev: bool) -> (r: String)
        ensures
            r@ == full_version_spec(*self, rev),
    {
        proof {
            reveal_strlit("unknown");
            reveal_strlit("aura [Version unknown]");
            reveal_strlit("aura [Version ");
            reveal_strlit("master");
            reveal_strlit("HEAD");
            reveal_strlit(" (");
            reveal_strlit(")");
            reveal_strlit("]");
        }
        if crate::text::str_eq(self.version.as_str(), "unknown") && crate::text::str_eq(
            self.version_prerelease.as_str(),
            "unknown",
        ) {
            return crate::text::owned("aura [Version unknown]");
        }
        let mut s = crate::text::owned("aura [Version ");
        push_str(&mut s, self.version.as_str());
        if rev && self.revision.unicode_len() != 0 {
            if self.branch.unicode_len() != 0 && !crate::text::str_eq(self.branch.as_str(), "master")
                && !crate::text::str_eq(self.branch.as_str(), "HEAD") {
                push_char(&mut s, '/');
                push_str(&mut s, self.branch.as_str());
            }
            push_str(&mut s, " (");
            push_str(&mut s, self.revision.as_str());
            push_str(&mut s, ")");
        }
        push_str(&mut s, "]");
        s
    }
}

} // verus!
