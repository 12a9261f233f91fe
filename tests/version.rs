use cocogitto::commit::{parse, Commit};
use cocogitto::version::{auto_increment, parse_version, resolve, SemVer, VersionError, VersionIncrement};

fn commit(message: &str) -> Commit {
    parse(message, "jane", "abc1234", &vec![]).unwrap()
}

fn v(major: u64, minor: u64, patch: u64) -> SemVer {
    SemVer { major, minor, patch }
}

#[test]
fn reads_plain_versions() {
    assert_eq!(parse_version("1.2.3"), Ok(v(1, 2, 3)));
    assert_eq!(parse_version("0.0.0"), Ok(v(0, 0, 0)));
    assert_eq!(parse_version("10.20.30"), Ok(v(10, 20, 30)));
}

#[test]
fn drops_pre_release_and_build_suffixes() {
    assert_eq!(parse_version("1.2.3-alpha.1"), Ok(v(1, 2, 3)));
    assert_eq!(parse_version("1.2.3+build.5"), Ok(v(1, 2, 3)));
    assert_eq!(parse_version("1.2.3-rc-1+exp.sha.5114f85"), Ok(v(1, 2, 3)));
}

#[test]
fn rejects_malformed_versions() {
    for bad in ["", "1", "1.2", "1.2.3.4", "01.2.3", "1.x.3", "1.2.3-", "1.2.3+", "1.2.3-a+", "v1.2.3", "1..3"].iter() {
        assert_eq!(parse_version(bad), Err(VersionError::InvalidSemVer), "{}", bad);
    }
}

#[test]
fn rejects_fields_beyond_64_bits() {
    assert_eq!(parse_version("18446744073709551615.0.0"), Ok(v(u64::MAX, 0, 0)));
    assert_eq!(parse_version("18446744073709551616.0.0"), Err(VersionError::InvalidSemVer));
}

#[test]
fn explicit_bumps_reset_lower_components() {
    let base = v(1, 2, 3);
    assert_eq!(resolve(base, &VersionIncrement::Major, &vec![]), Ok(v(2, 0, 0)));
    assert_eq!(resolve(base, &VersionIncrement::Minor, &vec![]), Ok(v(1, 3, 0)));
    assert_eq!(resolve(base, &VersionIncrement::Patch, &vec![]), Ok(v(1, 2, 4)));
}

#[test]
fn manual_version_must_be_greater() {
    let base = v(1, 2, 3);
    assert_eq!(resolve(base, &VersionIncrement::Manual("1.3.0".to_string()), &vec![]), Ok(v(1, 3, 0)));
    assert_eq!(
        resolve(base, &VersionIncrement::Manual("1.2.3".to_string()), &vec![]),
        Err(VersionError::NotGreaterThanCurrent)
    );
    assert_eq!(
        resolve(base, &VersionIncrement::Manual("0.9.9".to_string()), &vec![]),
        Err(VersionError::NotGreaterThanCurrent)
    );
    assert_eq!(
        resolve(base, &VersionIncrement::Manual("nope".to_string()), &vec![]),
        Err(VersionError::InvalidSemVer)
    );
}

#[test]
fn breaking_chore_dominates_feature() {
    let commits = vec![commit("feat: add x"), commit("chore!: drop y")];
    assert_eq!(resolve(v(1, 2, 3), &VersionIncrement::Auto, &commits), Ok(v(2, 0, 0)));
    let reversed = vec![commit("chore!: drop y"), commit("feat: add x")];
    assert_eq!(resolve(v(1, 2, 3), &VersionIncrement::Auto, &reversed), Ok(v(2, 0, 0)));
}

#[test]
fn feature_gives_minor_and_fix_gives_patch() {
    let commits = vec![commit("fix: a"), commit("feat: b"), commit("docs: c")];
    assert_eq!(resolve(v(1, 2, 3), &VersionIncrement::Auto, &commits), Ok(v(1, 3, 0)));
    let fixes = vec![commit("docs: c"), commit("perf: a")];
    assert_eq!(resolve(v(1, 2, 3), &VersionIncrement::Auto, &fixes), Ok(v(1, 2, 4)));
    assert_eq!(auto_increment(&fixes), Some(VersionIncrement::Patch));
}

#[test]
fn chores_and_docs_alone_call_for_nothing() {
    let commits = vec![commit("chore: a"), commit("docs: b")];
    assert_eq!(
        resolve(v(1, 2, 3), &VersionIncrement::Auto, &commits),
        Err(VersionError::NoApplicableCommits)
    );
}

#[test]
fn no_commits_call_for_nothing() {
    assert_eq!(
        resolve(v(0, 1, 0), &VersionIncrement::Auto, &vec![]),
        Err(VersionError::NoApplicableCommits)
    );
}

#[test]
fn bumps_are_strictly_greater() {
    let base = v(3, 4, 5);
    let major = base.bump_major();
    let minor = base.bump_minor();
    let patch = base.bump_patch();
    assert!(base.is_before(&major) && base.is_before(&minor) && base.is_before(&patch));
    assert!(!major.is_before(&base));
}
