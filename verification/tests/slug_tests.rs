use rusty_bits::slugger::{simple_slug, slugginate, ConflictAction, RenamePlan, Slug};

#[test]
fn test_simple_slug() {
    assert_eq!(simple_slug("Afile.txt", None), "Afile.txt", "leaves capitals alone");
    assert_eq!(simple_slug("Afile1.txt", None), "Afile1.txt", "leaves numbers alone");
    assert_eq!(simple_slug("A file.txt", None), "A-file.txt", "replace space with dash");
    assert_eq!(
        simple_slug("A   file.txt", None),
        "A-file.txt",
        "replace multiple spaces with single dash"
    );
    assert_eq!(simple_slug(" a file.txt", None), "a-file.txt", "trim whitespace");
    assert_eq!(simple_slug(" a file.txt", Some('_')), "a_file.txt", "custom separator");
}

#[test]
fn test_slugginate() {
    assert_eq!(slugginate("Afile", None), "afile", "capital -> lowercase");
    assert_eq!(slugginate("file.txt", None), "file.txt", "leaves periods alone");
    assert_eq!(slugginate("a-file.txt", None), "a-file.txt", "leaves dashes alone");
    assert_eq!(slugginate("  a-file.txt  ", None), "a-file.txt", "trims whitespace");
    assert_eq!(slugginate("file1.txt", None), "file1.txt", "leaves numbers alone");
    assert_eq!(slugginate("A file.txt", None), "a-file.txt", "replace space with dash");
    assert_eq!(
        slugginate("A   file.txt", None),
        "a-file.txt",
        "replace multiple spaces with single dash"
    );
    assert_eq!(
        slugginate("+=!@#$%^&*()_\\|'\";:<>,?/{}[]`~±§a", None),
        "a",
        "drops special characters"
    );
    assert_eq!(
        slugginate("here    is a file.txt  ", Some('_')),
        "here_is_a_file.txt",
        "custom separator"
    );
}

#[test]
fn rename_plan_skips_hidden() {
    let s = Slug::new(false, false, false, false, false, false, None);
    assert_eq!(s.rename_plan(".gitignore"), RenamePlan::Hidden);
}

#[test]
fn rename_plan_includes_hidden_on_request() {
    let s = Slug::new(false, false, false, false, true, false, None);
    assert_eq!(s.rename_plan(".my file"), RenamePlan::Rename(String::from(".my-file")));
}

#[test]
fn rename_plan_reports_unchanged() {
    let s = Slug::new(false, false, true, false, false, false, None);
    assert_eq!(s.rename_plan("file.txt"), RenamePlan::Unchanged);
}

#[test]
fn naming_conflicts_fail_unless_ignored() {
    let strict = Slug::new(false, false, true, false, false, false, None);
    assert_eq!(strict.conflict_action(), ConflictAction::Fail);
    let lenient = Slug::new(false, false, true, false, false, true, None);
    assert_eq!(lenient.conflict_action(), ConflictAction::Skip);
}

#[test]
fn rename_plan_uses_thorough_slug() {
    let s = Slug::new(false, false, true, true, false, false, None);
    assert_eq!(s.rename_plan("A File!.txt"), RenamePlan::Rename(String::from("a-file.txt")));
}
