use contest_harvest::remap::{directory, parse_remappings, read_line, Remapping};

fn pairs(remappings: &[Remapping]) -> Vec<(&str, &str)> {
    remappings.iter().map(|one| (one.name.as_str(), one.path.as_str())).collect()
}

fn v(s: &str) -> Vec<char> {
    s.chars().collect()
}

#[test]
fn a_remapping_is_resolved_against_the_directory_of_the_file() {
    let found =
        parse_remappings("@openzeppelin/=lib/openzeppelin-contracts/", "/repo/remappings.txt");
    assert_eq!(found.len(), 1);
    assert_eq!(found[0].name, "@openzeppelin/");
    assert_eq!(found[0].path, "/repo/lib/openzeppelin-contracts/");
}

#[test]
fn a_line_without_equals_gives_nothing() {
    assert!(parse_remappings("justonevalue", "/repo/remappings.txt").is_empty());
    assert!(parse_remappings("justonevalue\n", "/repo/remappings.txt").is_empty());
    assert_eq!(
        pairs(&parse_remappings("a=b\njustonevalue\nc=d", "/repo/remappings.txt")),
        vec![("a", "/repo/b"), ("c", "/repo/d")]
    );
}

#[test]
fn blank_lines_and_lines_with_two_equals_give_nothing() {
    let text = "\n\na=b\n\n  \nc=d=e\n=\nf=\n=g\n";
    assert_eq!(
        pairs(&parse_remappings(text, "/r/remappings.txt")),
        vec![("a", "/r/b"), ("", "/r/"), ("f", "/r/"), ("", "/r/g")]
    );
    assert!(parse_remappings("", "/r/remappings.txt").is_empty());
    assert!(parse_remappings("a==b", "/r/remappings.txt").is_empty());
}

#[test]
fn order_is_kept_and_duplicates_are_not_merged() {
    let text = "forge-std/=lib/forge-std/src/\nds-test/=lib/ds-test/src/\nforge-std/=other/\n";
    assert_eq!(
        pairs(&parse_remappings(text, "work/repo/remappings.txt")),
        vec![
            ("forge-std/", "work/repo/lib/forge-std/src/"),
            ("ds-test/", "work/repo/lib/ds-test/src/"),
            ("forge-std/", "work/repo/other/"),
        ]
    );
}

#[test]
fn carriage_returns_at_the_end_of_a_line_are_dropped() {
    assert_eq!(
        pairs(&parse_remappings("a=b\r\nc=d\r\n", "/r/remappings.txt")),
        vec![("a", "/r/b"), ("c", "/r/d")]
    );
    assert_eq!(pairs(&parse_remappings("a=b\rc", "/r/remappings.txt")), vec![("a", "/r/b\rc")]);
}

#[test]
fn the_right_hand_side_is_never_resolved_against_anything_else() {
    assert_eq!(
        pairs(&parse_remappings("a=/abs/path\nb=../up\nc=./here", "/repo/remappings.txt")),
        vec![("a", "/repo//abs/path"), ("b", "/repo/../up"), ("c", "/repo/./here")]
    );
}

#[test]
fn the_directory_is_what_stands_before_the_last_slash() {
    assert_eq!(directory(&v("/repo/remappings.txt")), v("/repo"));
    assert_eq!(directory(&v("a/b/c.txt")), v("a/b"));
    assert_eq!(directory(&v("remappings.txt")), v(""));
    assert_eq!(directory(&v("/remappings.txt")), v(""));
    assert_eq!(directory(&v("")), v(""));
    assert_eq!(pairs(&parse_remappings("a=b", "remappings.txt")), vec![("a", "/b")]);
}

#[test]
fn read_line_reads_one_line() {
    let found = read_line(&v("a=b/c\r"), &v("/d")).unwrap();
    assert_eq!(found.name, "a");
    assert_eq!(found.path, "/d/b/c");
    assert!(read_line(&v("ab"), &v("/d")).is_none());
    assert!(read_line(&v(""), &v("/d")).is_none());
    assert!(read_line(&v("a=b=c"), &v("/d")).is_none());
}

#[test]
fn lines_agree_with_the_standard_lines() {
    for text in ["a=1\nb=2", "a=1\r\nb=2\r\n", "\n\na=1\n\n", "a=1\n\rb=2", "=\n=\n", "a=1"] {
        let expected: Vec<(String, String)> = text
            .lines()
            .filter(|line| line.matches('=').count() == 1)
            .map(|line| {
                let parts: Vec<&str> = line.split('=').collect();
                (parts[0].to_string(), format!("/dir/{}", parts[1]))
            })
            .collect();
        let found: Vec<(String, String)> = parse_remappings(text, "/dir/remappings.txt")
            .into_iter()
            .map(|one| (one.name, one.path))
            .collect();
        assert_eq!(found, expected, "{:?}", text);
    }
}
