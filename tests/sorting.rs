use pkgsort::category::Category;
use pkgsort::sorting::{render_lines, Buckets, OutputFile};
use pkgsort::text::is_blank_line;

fn run(lines: &[&str], choices: &[usize]) -> Buckets {
    let mut buckets = Buckets::new();
    let mut next = 0;
    for line in lines {
        let choice = if Buckets::needs_choice(line) {
            let c = Category::from_index(choices[next]);
            next += 1;
            c
        } else {
            None
        };
        buckets.take_line(line.to_string(), choice);
    }
    assert_eq!(next, choices.len());
    buckets
}

fn summary(files: &[OutputFile]) -> Vec<(Category, String, String, usize)> {
    files
        .iter()
        .map(|f| (f.category, f.name.clone(), f.contents.clone(), f.count))
        .collect()
}

#[test]
fn registry_order_is_fixed() {
    assert_eq!(
        Category::all(),
        [
            Category::Dev,
            Category::Desktop,
            Category::Entertainment,
            Category::Core,
            Category::Misc
        ]
    );
    for (i, c) in Category::all().iter().enumerate() {
        assert_eq!(c.position(), i);
        assert_eq!(Category::from_index(i), Some(*c));
    }
    assert_eq!(Category::from_index(5), None);
    assert_eq!(Category::from_index(usize::MAX), None);
}

#[test]
fn labels_and_file_names() {
    let labels: Vec<&str> = Category::all().iter().map(|c| c.as_str()).collect();
    assert_eq!(labels, vec!["dev", "desktop", "entertainment", "core", "misc"]);
    assert_eq!(Category::Dev.filename(), "dev.txt");
    assert_eq!(Category::Entertainment.filename(), "entertainment.txt");
    assert_eq!(Category::Misc.filename(), "misc.txt");
}

#[test]
fn blank_lines_are_whitespace_only() {
    assert!(is_blank_line(""));
    assert!(is_blank_line("   "));
    assert!(is_blank_line("\t \r\u{0b}\u{0c}"));
    assert!(is_blank_line("\u{a0}\u{3000}\u{2028}"));
    assert!(!is_blank_line("pkg"));
    assert!(!is_blank_line("  pkg  "));
    assert!(!is_blank_line("\u{200b}"));
    assert!(!Buckets::needs_choice(" \t "));
    assert!(Buckets::needs_choice(" x "));
}

#[test]
fn two_packages_two_files() {
    let buckets = run(&["pkgA", "", "pkgB"], &[0, 4]);
    let files = buckets.outputs();
    assert_eq!(
        summary(&files),
        vec![
            (Category::Dev, "dev.txt".to_string(), "pkgA\n".to_string(), 1),
            (Category::Misc, "misc.txt".to_string(), "pkgB\n".to_string(), 1),
        ]
    );
}

#[test]
fn empty_input_writes_nothing() {
    let buckets = run(&[], &[]);
    assert!(buckets.outputs().is_empty());
    for c in Category::all() {
        assert!(buckets.packages(c).is_empty());
    }
}

#[test]
fn blank_only_input_writes_nothing() {
    let buckets = run(&["", "  ", "\t"], &[]);
    assert!(buckets.outputs().is_empty());
}

#[test]
fn blank_line_with_a_choice_is_still_dropped() {
    let mut buckets = Buckets::new();
    buckets.take_line("   ".to_string(), Some(Category::Core));
    assert!(buckets.packages(Category::Core).is_empty());
    assert!(buckets.outputs().is_empty());
}

#[test]
fn each_line_lands_in_exactly_one_file() {
    let lines = ["a", "b", "", "c", "a", "d"];
    let buckets = run(&lines, &[0, 1, 0, 2, 1]);
    let files = buckets.outputs();
    for line in ["b", "c", "d"] {
        let holding = files
            .iter()
            .filter(|f| f.contents.lines().any(|l| l == line))
            .count();
        assert_eq!(holding, 1);
    }
    let total: usize = files.iter().map(|f| f.count).sum();
    assert_eq!(total, 5);
    assert_eq!(buckets.packages(Category::Dev), &vec!["a".to_string(), "c".to_string()]);
    assert_eq!(buckets.packages(Category::Desktop), &vec!["b".to_string(), "d".to_string()]);
    assert_eq!(buckets.packages(Category::Entertainment), &vec!["a".to_string()]);
}

#[test]
fn order_within_a_file_is_input_order() {
    let buckets = run(&["zeta", "alpha", "mid", "beta"], &[3, 3, 1, 3]);
    let files = buckets.outputs();
    assert_eq!(
        summary(&files),
        vec![
            (Category::Desktop, "desktop.txt".to_string(), "mid\n".to_string(), 1),
            (Category::Core, "core.txt".to_string(), "zeta\nalpha\nbeta\n".to_string(), 3),
        ]
    );
}

#[test]
fn files_follow_registry_order() {
    let buckets = run(&["m", "c", "e", "d", "k"], &[4, 3, 2, 1, 0]);
    let names: Vec<String> = buckets.outputs().iter().map(|f| f.name.clone()).collect();
    assert_eq!(
        names,
        vec!["dev.txt", "desktop.txt", "entertainment.txt", "core.txt", "misc.txt"]
    );
}

#[test]
fn package_text_is_kept_verbatim() {
    let buckets = run(&["  spaced pkg\t"], &[2]);
    let files = buckets.outputs();
    assert_eq!(files.len(), 1);
    assert_eq!(files[0].name, "entertainment.txt");
    assert_eq!(files[0].contents, "  spaced pkg\t\n");
}

#[test]
fn assign_appends_to_one_bucket() {
    let mut buckets = Buckets::new();
    buckets.assign(Category::Misc, "x".to_string());
    buckets.assign(Category::Misc, "y".to_string());
    assert_eq!(buckets.packages(Category::Misc), &vec!["x".to_string(), "y".to_string()]);
    assert!(buckets.packages(Category::Dev).is_empty());
}

#[test]
fn render_puts_one_package_per_line() {
    assert_eq!(render_lines(&vec![]), "");
    assert_eq!(
        render_lines(&vec!["a".to_string(), "b c".to_string()]),
        "a\nb c\n"
    );
}
