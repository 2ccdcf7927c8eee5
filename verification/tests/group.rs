use ciel_build::group::{
    is_group_reference, locate_group, parse_line, Line, ResolveError, MAX_DEPTH,
};
use ciel_build::resolver::read_package_list;

fn resolve(
    files: &[(&str, &str)],
    path: &str,
    depth: usize,
) -> (Result<Vec<String>, ResolveError>, Vec<String>) {
    let mut resolver = read_package_list(path, depth);
    let mut reads = Vec::new();
    while let Some(path) = resolver.pending() {
        let content = match files.iter().find(|(name, _)| *name == path) {
            Some((_, text)) => Ok(text.to_string()),
            None => Err(format!("{}: No such file or directory", path)),
        };
        reads.push(path);
        resolver.supply(content);
    }
    (resolver.into_result().unwrap(), reads)
}

#[test]
fn a_line_that_begins_with_a_hash_is_a_comment() {
    assert_eq!(parse_line("#comment"), Line::Comment);
    assert_eq!(parse_line("#"), Line::Comment);
    assert_eq!(parse_line("# groups/x"), Line::Comment);
}

#[test]
fn a_hash_after_whitespace_is_no_comment() {
    assert_eq!(parse_line("  #comment"), Line::Package("#comment".to_string()));
    assert_eq!(parse_line("\t#"), Line::Package("#".to_string()));
}

#[test]
fn an_empty_line_is_an_empty_package() {
    assert_eq!(parse_line(""), Line::Package(String::new()));
    assert_eq!(parse_line("   "), Line::Package(String::new()));
}

#[test]
fn a_line_is_trimmed_before_it_is_read() {
    assert_eq!(parse_line("  bash  "), Line::Package("bash".to_string()));
    assert_eq!(parse_line("  groups/base \t"), Line::Group("groups/base".to_string()));
    assert_eq!(parse_line("groups/"), Line::Group("groups/".to_string()));
    assert_eq!(parse_line("groups"), Line::Package("groups".to_string()));
    assert_eq!(parse_line("Groups/base"), Line::Package("Groups/base".to_string()));
    assert_eq!(parse_line("a b"), Line::Package("a b".to_string()));
}

#[test]
fn group_references_begin_with_the_prefix() {
    assert!(is_group_reference("groups/base"));
    assert!(is_group_reference("groups/"));
    assert!(!is_group_reference("group/base"));
    assert!(!is_group_reference(" groups/base"));
    assert!(!is_group_reference(""));
}

#[test]
fn groups_are_found_below_the_tree() {
    assert_eq!(locate_group("groups/base"), "./TREE/groups/base");
    let joined = std::path::Path::new("./TREE").join("groups/base");
    assert_eq!(std::path::Path::new(&locate_group("groups/base")), joined.as_path());
}

#[test]
fn a_plain_file_resolves_to_its_lines() {
    let files = [("list", "# packages\nbash\n  coreutils  \n\nzlib")];
    let (result, reads) = resolve(&files, "list", 0);
    assert_eq!(result, Ok(vec!["bash".to_string(), "coreutils".into(), "".into(), "zlib".into()]));
    assert_eq!(reads, vec!["list"]);
}

#[test]
fn nested_groups_are_expanded_in_place() {
    let files = [
        ("./TREE/groups/top", "a\ngroups/mid\nz\n"),
        ("./TREE/groups/mid", "b\ngroups/leaf\n#skipped\nd\ngroups/leaf\n"),
        ("./TREE/groups/leaf", "c\n"),
    ];
    let (result, reads) = resolve(&files, "./TREE/groups/top", 0);
    let expected: Vec<String> =
        ["a", "b", "c", "d", "c", "z"].iter().map(|s| s.to_string()).collect();
    assert_eq!(result, Ok(expected));
    assert_eq!(
        reads,
        vec![
            "./TREE/groups/top",
            "./TREE/groups/mid",
            "./TREE/groups/leaf",
            "./TREE/groups/leaf"
        ]
    );
}

#[test]
fn a_comment_with_leading_whitespace_is_a_token_of_the_file() {
    let files = [("list", "#comment\n  #comment\nx\n")];
    let (result, _) = resolve(&files, "list", 0);
    assert_eq!(result, Ok(vec!["#comment".to_string(), "x".to_string()]));
}

#[test]
fn a_chain_of_thirty_two_references_resolves() {
    let mut files: Vec<(String, String)> = Vec::new();
    for level in 0..32 {
        files.push((
            format!("./TREE/groups/g{}", level),
            format!("p{}\ngroups/g{}\n", level, level + 1),
        ));
    }
    files.push(("./TREE/groups/g32".to_string(), "p32\n".to_string()));
    let borrowed: Vec<(&str, &str)> =
        files.iter().map(|(p, t)| (p.as_str(), t.as_str())).collect();
    let (result, reads) = resolve(&borrowed, "./TREE/groups/g0", 0);
    let expected: Vec<String> = (0..=32).map(|level| format!("p{}", level)).collect();
    assert_eq!(result, Ok(expected));
    assert_eq!(reads.len(), 33);
}

#[test]
fn a_chain_of_thirty_three_references_fails() {
    let mut files: Vec<(String, String)> = Vec::new();
    for level in 0..40 {
        files.push((
            format!("./TREE/groups/g{}", level),
            format!("p{}\ngroups/g{}\n", level, level + 1),
        ));
    }
    let borrowed: Vec<(&str, &str)> =
        files.iter().map(|(p, t)| (p.as_str(), t.as_str())).collect();
    let (result, reads) = resolve(&borrowed, "./TREE/groups/g0", 0);
    assert_eq!(result, Err(ResolveError::DepthExceeded));
    assert_eq!(reads.len(), 33);
    assert_eq!(reads.last().unwrap(), "./TREE/groups/g32");
}

#[test]
fn a_group_that_refers_to_itself_fails_at_the_depth_limit() {
    let files = [("./TREE/groups/loop", "a\ngroups/loop\nb\n")];
    let (result, reads) = resolve(&files, "./TREE/groups/loop", 0);
    assert_eq!(result, Err(ResolveError::DepthExceeded));
    assert_eq!(reads.len(), MAX_DEPTH + 1);
}

#[test]
fn too_deep_a_start_fails_before_any_read() {
    let files = [("list", "a\n")];
    let (result, reads) = resolve(&files, "list", 33);
    assert_eq!(result, Err(ResolveError::DepthExceeded));
    assert!(reads.is_empty());
    let (result, reads) = resolve(&files, "missing", usize::MAX);
    assert_eq!(result, Err(ResolveError::DepthExceeded));
    assert!(reads.is_empty());
}

#[test]
fn the_deepest_start_still_reads() {
    let files = [("list", "a\n"), ("refers", "groups/x\n")];
    let (result, reads) = resolve(&files, "list", 32);
    assert_eq!(result, Ok(vec!["a".to_string()]));
    assert_eq!(reads, vec!["list"]);
    let (result, reads) = resolve(&files, "refers", 32);
    assert_eq!(result, Err(ResolveError::DepthExceeded));
    assert_eq!(reads, vec!["refers"]);
}

#[test]
fn a_file_that_cannot_be_read_fails_the_resolution() {
    let files = [("./TREE/groups/top", "a\ngroups/missing\nb\n")];
    let (result, reads) = resolve(&files, "./TREE/groups/top", 0);
    assert_eq!(
        result,
        Err(ResolveError::Io("./TREE/groups/missing: No such file or directory".to_string()))
    );
    assert_eq!(reads, vec!["./TREE/groups/top", "./TREE/groups/missing"]);
    let (result, _) = resolve(&[], "nowhere", 0);
    assert_eq!(result, Err(ResolveError::Io("nowhere: No such file or directory".to_string())));
}

#[test]
fn the_first_failure_in_reading_order_is_the_result() {
    let mut files: Vec<(String, String)> =
        vec![("top".to_string(), "groups/missing\ngroups/g0\n".to_string())];
    for level in 0..40 {
        files.push((format!("./TREE/groups/g{}", level), format!("groups/g{}\n", level + 1)));
    }
    let borrowed: Vec<(&str, &str)> =
        files.iter().map(|(p, t)| (p.as_str(), t.as_str())).collect();
    let (result, _) = resolve(&borrowed, "top", 0);
    assert!(matches!(result, Err(ResolveError::Io(_))));
}

#[test]
fn a_resolution_in_progress_gives_up_nothing() {
    let resolver = read_package_list("list", 0);
    assert_eq!(resolver.pending(), Some("list".to_string()));
    assert!(resolver.into_result().is_none());
}

#[test]
fn a_resolution_that_is_done_takes_no_more_files() {
    let mut resolver = read_package_list("list", 0);
    resolver.supply(Ok("a\n".to_string()));
    assert_eq!(resolver.pending(), None);
    resolver.supply(Ok("b\n".to_string()));
    resolver.supply(Err("late".to_string()));
    assert_eq!(resolver.into_result(), Some(Ok(vec!["a".to_string()])));
}

#[test]
fn resolve_errors_describe_themselves() {
    assert_eq!(
        ResolveError::DepthExceeded.message(),
        "Nested group exceeded 32 levels! Potential infinite loop."
    );
    assert_eq!(ResolveError::Io("denied".to_string()).message(), "denied");
    assert_eq!(ResolveError::Io("denied".to_string()).duplicate(), ResolveError::Io("denied".into()));
}
