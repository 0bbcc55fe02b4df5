use aura::version::VersionInfo;

fn version_info(branch: &str, prerelease: &str, revision: &str, metadata: &str) -> VersionInfo {
    VersionInfo {
        revision: revision.to_string(),
        branch: branch.to_string(),
        build_date: "1700000000".to_string(),
        version: "1.2.3".to_string(),
        version_prerelease: prerelease.to_string(),
        version_metadata: metadata.to_string(),
    }
}

#[test]
fn version_number_returns_base_version() {
    let info = version_info("master", "", "abc123", "");
    assert_eq!(info.version_number(), "1.2.3");
}

#[test]
fn version_number_includes_prerelease_and_metadata() {
    let info = version_info("master", "dev", "abc123", "build.7");
    assert_eq!(info.version_number(), "1.2.3-dev+build.7");
}

#[test]
fn full_version_without_revision_block() {
    let info = version_info("feature/foo", "dev", "abc123", "");
    assert_eq!(info.full_version_number(false), "aura [Version 1.2.3]");
}

#[test]
fn full_version_with_feature_branch_revision_block() {
    let info = version_info("feature/foo", "dev", "abc123", "");
    assert_eq!(
        info.full_version_number(true),
        "aura [Version 1.2.3/feature/foo (abc123)]"
    );
}

#[test]
fn full_version_with_master_branch_revision_block() {
    let info = version_info("master", "", "abc123", "");
    assert_eq!(info.full_version_number(true), "aura [Version 1.2.3 (abc123)]");
}

#[test]
fn full_version_with_head_branch_revision_block() {
    let info = version_info("HEAD", "", "abc123", "");
    assert_eq!(info.full_version_number(true), "aura [Version 1.2.3 (abc123)]");
}

#[test]
fn full_version_without_git_metadata() {
    let info = version_info("feature/foo", "", "", "");
    assert_eq!(info.full_version_number(true), "aura [Version 1.2.3]");
}

#[test]
fn unknown_build_reports_unknown_version() {
    let mut info = version_info("master", "", "abc123", "");
    info.version = "unknown".to_string();
    info.version_prerelease = "unknown".to_string();
    assert_eq!(info.version_number(), "Version unknown");
    assert_eq!(info.full_version_number(true), "aura [Version unknown]");
}
