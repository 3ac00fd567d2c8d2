use nominal::operation::Grouping;
use nominal::{Rename, Renamer, Style, TargetOrder};

fn rename(source: &str, target: &str) -> Rename {
    Rename::new(source.to_string(), target.to_string())
}

fn style(prefix: &str, suffix: &str) -> Style {
    Style { prefix: prefix.to_string(), suffix: suffix.to_string() }
}

#[test]
fn paths_in_one_directory_are_grouped() {
    assert_eq!(rename("/a/b/c/d", "/a/b/e/f").text(), "/a/b/{c/d => e/f}");
    assert_eq!(rename("dir/old.txt", "dir/new.txt").text(), "dir/{old.txt => new.txt}");
}

#[test]
fn paths_that_share_nothing_are_not_grouped() {
    assert_eq!(rename("old.txt", "new.txt").text(), "old.txt => new.txt");
    assert_eq!(rename("a/b/c/d", "x/y/z").text(), "a/b/c/d => x/y/z");
}

#[test]
fn paths_that_share_only_the_root_are_not_grouped() {
    assert_eq!(rename("/a/b/c/d", "/x/y/z").text(), "/a/b/c/d => /x/y/z");
    assert_eq!(rename("/old.txt", "/new.txt").text(), "/old.txt => /new.txt");
}

#[test]
fn a_target_below_the_source_is_grouped_at_the_source() {
    assert_eq!(rename("/a/b", "/a/b/c").text(), "/a/b/{ => c}");
    assert_eq!(rename("/a/b/c", "/a/b").text(), "/a/b/{c => }");
}

#[test]
fn grouping_gives_the_three_parts() {
    let operation = rename("/a/b/c/d", "/a/b/e/f");
    let grouping = operation.grouping().unwrap();
    assert_eq!(grouping, Grouping { common: "/a/b", source: "c/d", target: "e/f" });
    assert_eq!(rename("/a", "/b").grouping(), None);
    assert_eq!(rename("a", "b").grouping(), None);
}

#[test]
fn grouping_writes_the_grouped_form() {
    let grouping = Grouping { common: "dir", source: "a", target: "b" };
    let mut out = String::from("> ");
    grouping.write_to(&mut out);
    assert_eq!(out, "> dir/{a => b}");
}

#[test]
fn grouping_writes_the_grouped_form_in_colors() {
    let grouping = Grouping { common: "dir", source: "a", target: "b" };
    let mut out = String::from("> ");
    grouping.write_colored_to(&style("<s>", "</s>"), &style("<t>", "</t>"), &style("<c>", "</c>"), &mut out);
    assert_eq!(out, "> <c>dir/</c>{<s>a</s> => <t>b</t>}");
}

#[test]
fn style_writes_around_the_text() {
    let mut out = String::from("x");
    style("[", "]").write_to("path", &mut out);
    assert_eq!(out, "x[path]");
    Style::plain().write_to("path", &mut out);
    assert_eq!(out, "x[path]path");
}

#[test]
fn rename_is_written_as_a_line() {
    let mut out = String::new();
    rename("old.txt", "new.txt").write_to(&mut out);
    assert_eq!(out, "old.txt => new.txt\n");
    rename("/a/b/c/d", "/a/b/e/f").write_to(&mut out);
    assert_eq!(out, "old.txt => new.txt\n/a/b/{c/d => e/f}\n");
}

#[test]
fn rename_is_written_in_colors() {
    let source = style("\u{1b}[31m", "\u{1b}[0m");
    let target = style("\u{1b}[32m", "\u{1b}[0m");
    let common = style("\u{1b}[34m", "\u{1b}[0m");
    let mut out = String::new();
    rename("old.txt", "new.txt").write_colored_to(&source, &target, &common, &mut out);
    assert_eq!(out, "\u{1b}[31mold.txt\u{1b}[0m => \u{1b}[32mnew.txt\u{1b}[0m\n");

    let mut out = String::new();
    rename("/a/b/c/d", "/a/b/e/f").write_colored_to(&source, &target, &common, &mut out);
    assert_eq!(
        out,
        "\u{1b}[34m/a/b/\u{1b}[0m{\u{1b}[31mc/d\u{1b}[0m => \u{1b}[32me/f\u{1b}[0m}\n"
    );
}

#[test]
fn plain_colors_read_as_no_colors() {
    let plain = Style::plain();
    for (source, target) in [("old.txt", "new.txt"), ("/a/b/c", "/a/b/d"), ("/a", "/b")] {
        let operation = rename(source, target);
        let mut colored = String::new();
        operation.write_colored_to(&plain, &plain, &plain, &mut colored);
        let mut uncolored = String::new();
        operation.write_to(&mut uncolored);
        assert_eq!(colored, uncolored);
    }
}

#[test]
fn plan_is_written_line_by_line_in_its_order() {
    let mut renamer = Renamer::new();
    renamer.add("dir/b.txt".to_string(), "dir/2.txt".to_string());
    renamer.add("same".to_string(), "same".to_string());
    renamer.add("a.txt".to_string(), "1.txt".to_string());
    let plan = renamer.plan_with(&TargetOrder::bytewise());
    let mut out = String::from("plan:\n");
    plan.write_to(&mut out);
    assert_eq!(out, "plan:\na.txt => 1.txt\ndir/{b.txt => 2.txt}\n");
}

#[test]
fn empty_plan_writes_nothing() {
    let plan = Renamer::new().plan().unwrap();
    let mut out = String::new();
    plan.write_to(&mut out);
    assert_eq!(out, "");
}

#[test]
fn confirm_asks_only_where_there_is_something_to_do() {
    let plan = Renamer::new().plan().unwrap();
    assert_eq!(plan.confirm(), None);
    let mut renamer = Renamer::new();
    renamer.add("old.txt".to_string(), "new.txt".to_string());
    assert_eq!(renamer.plan().unwrap().confirm(), Some("Proceed?"));
}
