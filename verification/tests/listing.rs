use lsx::entry::DirectoryEntry;
use lsx::listing::{list_entries, retain_listed};
use lsx::options::RunConfig;
use lsx::order::{entry_comes_no_later, name_comes_no_later, sort_entries, Grouping};
use lsx::permissions::FileKind;

fn entry(name: &str, file_kind: FileKind, size_bytes: u64) -> DirectoryEntry {
    DirectoryEntry {
        name: String::from(name),
        file_kind,
        permission_bits: 0o644,
        owner_id: 1000,
        owner_name: String::from("alice"),
        size_bytes,
        modified_at: 0,
        modified_text: String::from("01 Jan 00:00"),
    }
}

fn file(name: &str) -> DirectoryEntry {
    entry(name, FileKind::Regular, 1)
}

fn dir(name: &str) -> DirectoryEntry {
    entry(name, FileKind::Directory, 4096)
}

fn names(entries: &[DirectoryEntry]) -> Vec<&str> {
    entries.iter().map(|e| e.name.as_str()).collect()
}

fn config() -> RunConfig {
    RunConfig {
        all: false,
        group_directories_first: false,
        group_directories_last: false,
        show_permissions: false,
        show_owner: false,
        show_size: false,
        show_date_modified: false,
        show_total: false,
        colors: false,
        table: false,
        json: false,
        directory: None,
    }
}

fn children() -> Vec<DirectoryEntry> {
    vec![
        file("zeta"),
        dir("src"),
        file(".hidden"),
        file("Cargo.toml"),
        dir(".git"),
        dir("docs"),
        file("alpha"),
    ]
}

#[test]
fn names_are_compared_by_code_point() {
    assert!(name_comes_no_later("a", "b"));
    assert!(!name_comes_no_later("b", "a"));
    assert!(name_comes_no_later("a", "a"));
    assert!(name_comes_no_later("", "a"));
    assert!(!name_comes_no_later("a", ""));
    assert!(name_comes_no_later("", ""));
    assert!(name_comes_no_later("ab", "abc"));
    assert!(!name_comes_no_later("abc", "ab"));
    assert!(name_comes_no_later("B", "a"));
    assert!(name_comes_no_later("Z", "a"));
    assert!(name_comes_no_later("a10", "a2"));
    assert!(name_comes_no_later("z", "é"));
    assert!(name_comes_no_later("é", "日"));
    assert!(name_comes_no_later("日", "𝄞"));
}

#[test]
fn names_order_agrees_with_std() {
    let words = ["", "a", "A", "ab", "abc", "b", ".x", "-", "~", "é", "e\u{301}", "日本", "𝄞", "z"];
    for a in words {
        for b in words {
            assert_eq!(name_comes_no_later(a, b), a <= b, "{a:?} and {b:?}");
            assert_eq!(name_comes_no_later(a, b), a.as_bytes() <= b.as_bytes());
        }
    }
}

#[test]
fn directories_first_leads_with_directories() {
    assert!(entry_comes_no_later(&dir("z"), &file("a"), Grouping::DirectoriesFirst));
    assert!(!entry_comes_no_later(&file("a"), &dir("z"), Grouping::DirectoriesFirst));
    assert!(entry_comes_no_later(&file("a"), &dir("z"), Grouping::DirectoriesLast));
    assert!(!entry_comes_no_later(&dir("z"), &file("a"), Grouping::DirectoriesLast));
    assert!(entry_comes_no_later(&file("a"), &file("b"), Grouping::DirectoriesFirst));
    assert!(entry_comes_no_later(&dir("a"), &dir("b"), Grouping::DirectoriesLast));
    assert!(!entry_comes_no_later(&dir("b"), &dir("a"), Grouping::DirectoriesLast));
}

#[test]
fn only_directories_count_as_directories() {
    let link = entry("link", FileKind::Symlink, 0);
    assert!(!link.is_directory());
    assert!(dir("d").is_directory());
    assert!(!file("f").is_directory());
    assert!(!entry("s", FileKind::Socket, 0).is_directory());
    assert!(entry_comes_no_later(&dir("z"), &link, Grouping::DirectoriesFirst));
}

#[test]
fn sort_puts_directories_first() {
    let sorted = sort_entries(children(), Grouping::DirectoriesFirst);
    assert_eq!(
        names(&sorted),
        vec![".git", "docs", "src", ".hidden", "Cargo.toml", "alpha", "zeta"]
    );
}

#[test]
fn sort_puts_directories_last() {
    let sorted = sort_entries(children(), Grouping::DirectoriesLast);
    assert_eq!(
        names(&sorted),
        vec![".hidden", "Cargo.toml", "alpha", "zeta", ".git", "docs", "src"]
    );
}

#[test]
fn sort_keeps_every_entry() {
    let mut sorted = sort_entries(children(), Grouping::DirectoriesFirst);
    let mut before = children();
    sorted.sort_by(|a, b| a.name.cmp(&b.name));
    before.sort_by(|a, b| a.name.cmp(&b.name));
    assert_eq!(sorted, before);
    assert_eq!(sort_entries(Vec::new(), Grouping::DirectoriesLast), Vec::new());
    assert_eq!(sort_entries(vec![file("x")], Grouping::DirectoriesLast), vec![file("x")]);
}

#[test]
fn sort_keeps_the_order_of_entries_that_tie() {
    let input = vec![
        entry("same", FileKind::Regular, 1),
        entry("same", FileKind::Socket, 2),
        entry("a", FileKind::Regular, 3),
        entry("same", FileKind::Directory, 4),
        entry("same", FileKind::Symlink, 5),
        entry("same", FileKind::Directory, 6),
    ];
    let sorted = sort_entries(input, Grouping::DirectoriesFirst);
    let sizes: Vec<u64> = sorted.iter().map(|e| e.size_bytes).collect();
    assert_eq!(sizes, vec![4, 6, 3, 1, 2, 5]);
}

#[test]
fn sort_agrees_with_a_stable_sort() {
    let mut seed: u32 = 12345;
    for _ in 0..200 {
        let mut input = Vec::new();
        for position in 0..(seed % 9) as u64 {
            seed = seed.wrapping_mul(1103515245).wrapping_add(12345);
            let name = ["a", "b", "B", "ab", ".a", ""][(seed >> 16) as usize % 6];
            let kind = [FileKind::Regular, FileKind::Directory, FileKind::Symlink][(seed >> 8) as usize % 3];
            input.push(entry(name, kind, position));
        }
        seed = seed.wrapping_mul(1103515245).wrapping_add(12345);
        for grouping in [Grouping::DirectoriesFirst, Grouping::DirectoriesLast] {
            let mut expected = input.clone();
            expected.sort_by(|a, b| {
                let first = match grouping {
                    Grouping::DirectoriesFirst => (!a.is_directory(), !b.is_directory()),
                    Grouping::DirectoriesLast => (a.is_directory(), b.is_directory()),
                };
                first.0.cmp(&first.1).then(a.name.cmp(&b.name))
            });
            assert_eq!(sort_entries(input.clone(), grouping), expected);
        }
    }
}

#[test]
fn hidden_entries_are_left_out() {
    let kept = retain_listed(children(), false);
    assert_eq!(names(&kept), vec!["zeta", "src", "Cargo.toml", "docs", "alpha"]);
}

#[test]
fn all_keeps_hidden_entries() {
    let kept = retain_listed(children(), true);
    assert_eq!(kept, children());
}

#[test]
fn hidden_means_a_leading_dot() {
    assert!(file(".a").is_hidden());
    assert!(file(".").is_hidden());
    assert!(file("..").is_hidden());
    assert!(!file("a.").is_hidden());
    assert!(!file("a.b").is_hidden());
    assert!(!file("").is_hidden());
    assert!(!file(" .a").is_hidden());
}

#[test]
fn listing_without_flags_keeps_the_order_of_enumeration() {
    let shown = list_entries(children(), &config());
    assert_eq!(names(&shown), vec!["zeta", "src", "Cargo.toml", "docs", "alpha"]);
    let shown = list_entries(children(), &RunConfig { all: true, ..config() });
    assert_eq!(shown, children());
}

#[test]
fn listing_groups_what_it_lists() {
    let first = RunConfig { group_directories_first: true, ..config() };
    assert_eq!(names(&list_entries(children(), &first)), vec!["docs", "src", "Cargo.toml", "alpha", "zeta"]);
    let last = RunConfig { group_directories_last: true, all: true, ..config() };
    assert_eq!(
        names(&list_entries(children(), &last)),
        vec![".hidden", "Cargo.toml", "alpha", "zeta", ".git", "docs", "src"]
    );
}

#[test]
fn listing_of_nothing_is_empty() {
    assert_eq!(list_entries(Vec::new(), &config()), Vec::new());
    let hidden_only = vec![file(".a"), dir(".b")];
    assert_eq!(list_entries(hidden_only, &config()), Vec::new());
}
