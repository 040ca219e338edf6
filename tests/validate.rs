use git_commit_check::validate::{
    decimal_string, description_violations, length_violation, MAX_SUBJECT_CHARS,
};
use git_commit_check::validate_subject;

const SHAPE: &str = "Subject must match <type>(<optional-scope>): <description> with a valid type";
const PERIOD: &str = "Description must not end with a period";
const CASE: &str = "Description must be lowercase";
const EMPTY: &str = "Subject line is empty";

fn length_text(n: usize) -> String {
    format!("Subject line is {n} characters; must be 72 or fewer")
}

#[test]
fn valid_feat_subject() {
    assert_eq!(validate_subject("feat: add login page"), Vec::<String>::new());
}

#[test]
fn capitalised_description_with_period() {
    assert_eq!(validate_subject("feat: Add login page."), vec![PERIOD.to_string(), CASE.to_string()]);
}

#[test]
fn empty_subject() {
    assert_eq!(validate_subject(""), vec![EMPTY.to_string()]);
}

#[test]
fn valid_scoped_fix_subject() {
    assert_eq!(validate_subject("fix(parser): handle empty input"), Vec::<String>::new());
}

#[test]
fn chore_subject_one_character_too_long() {
    let subject = format!("chore: {}", "a".repeat(66));
    assert_eq!(subject.chars().count(), 73);
    assert_eq!(validate_subject(&subject), vec![length_text(73)]);
    assert_eq!(validate_subject(&subject)[0], "Subject line is 73 characters; must be 72 or fewer");
}

#[test]
fn subject_without_type() {
    assert_eq!(validate_subject("update readme"), vec![SHAPE.to_string()]);
}

#[test]
fn unknown_type_gets_only_the_shape_violation() {
    assert_eq!(validate_subject("feature: add x"), vec![SHAPE.to_string()]);
    assert_eq!(validate_subject("feature: Add x."), vec![SHAPE.to_string()]);
    assert_eq!(validate_subject("Feat: add x"), vec![SHAPE.to_string()]);
}

#[test]
fn long_subject_of_unknown_type() {
    let subject = format!("wip: {}", "b".repeat(80));
    assert_eq!(validate_subject(&subject), vec![length_text(85), SHAPE.to_string()]);
}

#[test]
fn long_subject_with_bad_description() {
    let subject = format!("docs: {}.", "C".repeat(70));
    assert_eq!(
        validate_subject(&subject),
        vec![length_text(77), PERIOD.to_string(), CASE.to_string()]
    );
}

#[test]
fn subject_of_exactly_the_limit_is_not_too_long() {
    let subject = format!("test: {}", "z".repeat(66));
    assert_eq!(subject.chars().count(), MAX_SUBJECT_CHARS);
    assert_eq!(validate_subject(&subject), Vec::<String>::new());
}

#[test]
fn length_counts_characters_not_bytes() {
    let at_limit = format!("style: {}", "é".repeat(65));
    assert_eq!(at_limit.chars().count(), 72);
    assert!(at_limit.len() > 72);
    assert_eq!(validate_subject(&at_limit), Vec::<String>::new());
    let over = format!("style: {}", "é".repeat(66));
    assert_eq!(validate_subject(&over), vec![length_text(73)]);
}

#[test]
fn validation_is_repeatable() {
    for subject in ["", "feat: Add login page.", "update readme", "fix(x): y", "chore: ok"] {
        assert_eq!(validate_subject(subject), validate_subject(subject));
    }
}

#[test]
fn period_only() {
    assert_eq!(validate_subject("refactor: tidy up."), vec![PERIOD.to_string()]);
}

#[test]
fn uppercase_only() {
    assert_eq!(validate_subject("chore(deps): bump Serde"), vec![CASE.to_string()]);
}

#[test]
fn non_ascii_uppercase_is_reported() {
    assert_eq!(validate_subject("docs: über École"), vec![CASE.to_string()]);
    assert_eq!(validate_subject("docs: über école"), Vec::<String>::new());
}

#[test]
fn malformed_shapes() {
    for subject in [
        "feat(): empty scope",
        "feat(a)b: text",
        "feat:no space",
        "feat : space before colon",
        "feat: ",
        "feat(scope: unclosed",
        "feat: a\nb",
        " feat: leading space",
    ] {
        assert_eq!(validate_subject(subject), vec![SHAPE.to_string()], "{subject:?}");
    }
}

#[test]
fn every_type_keyword_is_accepted() {
    for t in ["feat", "fix", "docs", "style", "refactor", "test", "chore"] {
        assert_eq!(validate_subject(&format!("{t}: do it")), Vec::<String>::new());
        assert_eq!(validate_subject(&format!("{t}(core): do it")), Vec::<String>::new());
    }
}

#[test]
fn description_violations_take_the_lowered_form() {
    assert_eq!(description_violations("add x", "add x"), Vec::<String>::new());
    assert_eq!(description_violations("Add x.", "add x."), vec![PERIOD.to_string(), CASE.to_string()]);
    assert_eq!(description_violations("add x", "ADD X"), vec![CASE.to_string()]);
    assert_eq!(description_violations("", ""), Vec::<String>::new());
    assert_eq!(description_violations(".", "."), vec![PERIOD.to_string()]);
}

#[test]
fn decimal_strings() {
    assert_eq!(decimal_string(0), "0");
    assert_eq!(decimal_string(7), "7");
    assert_eq!(decimal_string(10), "10");
    assert_eq!(decimal_string(73), "73");
    assert_eq!(decimal_string(1234567), "1234567");
    assert_eq!(decimal_string(usize::MAX), usize::MAX.to_string());
}

#[test]
fn length_violation_text() {
    assert_eq!(length_violation(100), "Subject line is 100 characters; must be 72 or fewer");
}
