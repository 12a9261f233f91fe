use cocogitto::commit::{parse, Commit, ParseError};
use cocogitto::commit_type::{classify, CommitType};

fn commit(message: &str) -> Commit {
    parse(message, "jane", "abc1234", &vec![]).unwrap()
}

#[test]
fn should_map_conventional_commit_message_to_struct() {
    // Arrange
    let message = "feat(database): add postgresql driver";

    // Act
    let commit = parse(message, "", "", &vec![]).unwrap();

    // Assert
    assert_eq!(commit.commit_type.get_key_str(), "feat".to_owned());
    assert_eq!(commit.scope, Some("database".to_owned()));
    assert_eq!(commit.description, "add postgresql driver".to_owned());
}

#[test]
fn parsed_feature_has_feature_type() {
    let c = commit("feat(database): add postgresql driver");
    assert_eq!(c.commit_type, CommitType::Feature);
    assert_eq!(c.scope, Some("database".to_string()));
    assert_eq!(c.description, "add postgresql driver");
    assert_eq!(c.author, "jane");
    assert_eq!(c.shorthand, "abc1234");
    assert!(!c.breaking);
    assert_eq!(c.body, None);
    assert_eq!(c.footer, None);
}

#[test]
fn bang_marks_breaking_without_footer() {
    let c = commit("fix!: drop legacy endpoint");
    assert_eq!(c.commit_type, CommitType::BugFix);
    assert!(c.breaking);
    assert_eq!(c.footer, None);
    assert_eq!(c.scope, None);
    assert_eq!(c.description, "drop legacy endpoint");
}

#[test]
fn scoped_bang_marks_breaking() {
    let c = commit("refactor(api)!: rename routes");
    assert_eq!(c.commit_type, CommitType::Refactoring);
    assert_eq!(c.scope, Some("api".to_string()));
    assert!(c.breaking);
}

#[test]
fn missing_separator_is_malformed() {
    assert_eq!(parse("update stuff", "a", "b", &vec![]), Err(ParseError::MalformedHeader));
}

#[test]
fn blank_description_is_malformed() {
    assert_eq!(parse("feat:    ", "a", "b", &vec![]), Err(ParseError::MalformedHeader));
    assert_eq!(parse("feat: \nbody", "a", "b", &vec![]), Err(ParseError::MalformedHeader));
}

#[test]
fn ill_formed_scopes_are_malformed() {
    assert_eq!(parse("feat(): x", "a", "b", &vec![]), Err(ParseError::MalformedHeader));
    assert_eq!(parse("feat(db: x", "a", "b", &vec![]), Err(ParseError::MalformedHeader));
    assert_eq!(parse("feat(d(b)): x", "a", "b", &vec![]), Err(ParseError::MalformedHeader));
}

#[test]
fn unknown_type_is_reported_with_its_key() {
    assert_eq!(
        parse("wip(core): stuff", "a", "b", &vec![]),
        Err(ParseError::UnknownType("wip".to_string()))
    );
}

#[test]
fn custom_type_is_recognised() {
    let custom = vec![("wip".to_string(), "Work In Progress".to_string())];
    let c = parse("wip: stuff", "a", "b", &custom).unwrap();
    assert_eq!(
        c.commit_type,
        CommitType::Custom("wip".to_string(), "Work In Progress".to_string())
    );
    assert_eq!(c.commit_type.get_markdown_title(), "Work In Progress");
}

#[test]
fn body_and_breaking_footer_are_split() {
    let c = commit("feat: add x\n\nsome body\nmore\n\nBREAKING CHANGE: the api changed\n");
    assert_eq!(c.body, Some("some body\nmore".to_string()));
    assert_eq!(c.footer, Some("BREAKING CHANGE: the api changed".to_string()));
    assert!(c.breaking);
    assert_eq!(c.description, "add x");
}

#[test]
fn body_without_footer_is_not_breaking() {
    let c = commit("docs: explain\n\nBREAKING CHANGE inside a sentence");
    assert_eq!(c.body, Some("BREAKING CHANGE inside a sentence".to_string()));
    assert_eq!(c.footer, None);
    assert!(!c.breaking);
}

#[test]
fn marker_inside_a_paragraph_is_no_footer() {
    let c = commit("chore: tidy\n\nnote\nBREAKING CHANGE: not a paragraph start");
    assert_eq!(c.footer, None);
    assert!(!c.breaking);
}

#[test]
fn description_is_trimmed() {
    let c = commit("perf:   faster  ");
    assert_eq!(c.description, "faster");
    assert_eq!(c.commit_type, CommitType::Performance);
}

#[test]
fn closed_keys_have_documented_titles() {
    let cases = [
        ("feat", "Feature"),
        ("fix", "Bug Fixes"),
        ("chore", "Miscellaneous Chores"),
        ("revert", "Revert"),
        ("perf", "Performance Improvements"),
        ("docs", "Documentation"),
        ("style", "Style"),
        ("refactor", "Refactoring"),
        ("test", "Tests"),
        ("build", "Build System"),
        ("ci", "Continuous Integration"),
    ];
    for (key, title) in cases.iter() {
        let t = classify(key, &vec![]).unwrap();
        assert_eq!(t.get_markdown_title(), *title);
        assert_eq!(t.get_key_str(), *key);
    }
}

#[test]
fn closed_keys_win_over_custom_entries() {
    let custom = vec![("feat".to_string(), "Other".to_string())];
    assert_eq!(classify("feat", &custom), Some(CommitType::Feature));
}

#[test]
fn classification_is_case_sensitive() {
    assert_eq!(classify("Feat", &vec![]), None);
    assert_eq!(classify("", &vec![]), None);
}

#[test]
fn markdown_line_holds_the_fields() {
    let c = commit("feat: add x");
    let line = c.to_markdown();
    assert!(line.contains("abc1234"));
    assert!(line.contains(" - add x - "));
    assert!(line.contains("jane"));
    assert!(line.ends_with('\n'));
}

#[test]
fn batch_parsing_reports_every_offender() {
    let raw = vec![
        ("feat: a".to_string(), "ann".to_string(), "111".to_string()),
        ("nonsense".to_string(), "bob".to_string(), "222".to_string()),
        ("fix: b".to_string(), "ann".to_string(), "333".to_string()),
        ("oops: c".to_string(), "bob".to_string(), "444".to_string()),
    ];
    let out = cocogitto::commit::parse_all(&raw, &vec![]);
    assert_eq!(out.len(), 4);
    assert_eq!(out[0].as_ref().unwrap().shorthand, "111");
    assert_eq!(out[1], Err(ParseError::MalformedHeader));
    assert_eq!(out[2].as_ref().unwrap().commit_type, CommitType::BugFix);
    assert_eq!(out[3], Err(ParseError::UnknownType("oops".to_string())));
}

#[test]
fn markdown_line_joins_its_parts() {
    assert_eq!(cocogitto::commit::markdown_line("id", "desc", "who"), "id - desc - who\n");
}

#[test]
fn markdown_paints_or_keeps_the_id() {
    let c = commit("feat: add x");
    let line = c.to_markdown();
    assert!(line == "abc1234 - add x - jane\n" || line.starts_with("\u{1b}[33mabc1234\u{1b}[0m - add x - "));
}
