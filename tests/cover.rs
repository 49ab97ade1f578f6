use git_series_manager::cover_letter::{
    bind_cover_letter, ci_link, component_from_url, cover_letter_template, find_cover_letter,
    is_cover_letter_name, parse_cover_letter,
};
use git_series_manager::error::SeriesError;
use git_series_manager::text::{chars_of, trim_chars};

#[test]
fn cover_letter_round_trip() {
    let (title, body) = parse_cover_letter("Title: Fix bug\n\nDetails here.\n").unwrap();
    assert_eq!(title, "Fix bug");
    assert_eq!(body, "Details here.");
    let generated = "Subject: [PATCH 0/2] *** SUBJECT HERE ***\n\n*** BLURB HERE ***\n\nA (1):\n  x\n";
    let bound = bind_cover_letter(generated, &title, &body);
    assert_eq!(bound, "Subject: [PATCH 0/2] Fix bug\n\nDetails here.\n\nA (1):\n  x\n");
}

#[test]
fn bind_replaces_each_marker_once() {
    let generated = "*** SUBJECT HERE *** *** SUBJECT HERE ***\n*** BLURB HERE ***";
    assert_eq!(
        bind_cover_letter(generated, "T", "B"),
        "T *** SUBJECT HERE ***\nB"
    );
    assert_eq!(bind_cover_letter("no markers", "T", "B"), "no markers");
}

#[test]
fn missing_title_prefix() {
    assert_eq!(
        parse_cover_letter("Fix bug\n\nDetails here.\n"),
        Err(SeriesError::MissingTitlePrefix)
    );
}

#[test]
fn missing_title_newline() {
    assert_eq!(parse_cover_letter("Title: Fix bug"), Err(SeriesError::MissingTitleNewline));
    assert_eq!(parse_cover_letter(""), Err(SeriesError::MissingTitleNewline));
}

#[test]
fn parse_trims_title_and_body() {
    let (t, b) = parse_cover_letter("Title:   spaced  \n\n\t body line\nsecond \n\n").unwrap();
    assert_eq!(t, "spaced");
    assert_eq!(b, "body line\nsecond");
    let (t, b) = parse_cover_letter("Title: \n").unwrap();
    assert_eq!(t, "");
    assert_eq!(b, "");
}

#[test]
fn trim_removes_unicode_space() {
    let t = trim_chars(&chars_of("\u{3000} a b\u{a0}\n"));
    assert_eq!(t, vec!['a', ' ', 'b']);
}

#[test]
fn template_without_and_with_ci() {
    assert_eq!(cover_letter_template("feature-x", None), "Title: \n\nBranch: feature-x\n");
    assert_eq!(
        cover_letter_template("feature-x", Some("https://ci/1")),
        "Title: \n\nBranch: feature-x\nCI: https://ci/1\n"
    );
}

#[test]
fn ci_link_substitutes_tokens() {
    let t = "https://ci/${component}/job/${branch}/${ci_job}/${branch}";
    assert_eq!(ci_link(t, "tools", "fx", Some("42")), "https://ci/tools/job/fx/42/fx");
    assert_eq!(ci_link(t, "tools", "fx", None), "https://ci/tools/job/fx/${ci_job}/fx");
}

#[test]
fn component_strips_base_and_git_suffix() {
    assert_eq!(
        component_from_url("https://git.example.com/tools/gsm.git", "https://git.example.com/"),
        Ok("tools/gsm".to_string())
    );
    assert_eq!(
        component_from_url("https://git.example.com/a.git.git", "https://git.example.com/"),
        Ok("a".to_string())
    );
    assert_eq!(
        component_from_url("ssh://other/a.git", "https://git.example.com/"),
        Err(SeriesError::RemoteOutsideUrlBase("ssh://other/a.git".to_string()))
    );
}

#[test]
fn cover_letter_lookup() {
    let one = vec![
        "v2-0001-a.patch".to_string(),
        "v2-0000-cover-letter.patch".to_string(),
    ];
    assert_eq!(find_cover_letter(&one), Ok("v2-0000-cover-letter.patch".to_string()));
    let none = vec!["0001-a.patch".to_string()];
    assert_eq!(find_cover_letter(&none), Err(SeriesError::CoverLetterNotFound));
    let two = vec![
        "0000-cover-letter.patch".to_string(),
        "v2-0000-cover-letter.patch".to_string(),
    ];
    assert_eq!(find_cover_letter(&two), Err(SeriesError::AmbiguousCoverLetter));
    assert!(is_cover_letter_name("0000-cover-letter.patch"));
    assert!(!is_cover_letter_name("cover-letter"));
}
