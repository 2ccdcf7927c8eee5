use ciel_build::expand::expand_package_list;
use ciel_build::group::ResolveError;
use ciel_build::notice::Notice;

fn expand(files: &[(&str, &str)], packages: &[&str]) -> (Vec<String>, Vec<Notice>, Vec<String>) {
    let mut expander = expand_package_list(packages.iter().map(|p| p.to_string()).collect());
    let mut reads = Vec::new();
    while let Some(path) = expander.pending() {
        let content = match files.iter().find(|(name, _)| *name == path) {
            Some((_, text)) => Ok(text.to_string()),
            None => Err("No such file or directory (os error 2)".to_string()),
        };
        reads.push(path);
        expander.supply(content);
    }
    assert!(expander.is_done());
    let (packages, notices) = expander.into_parts().unwrap();
    (packages, notices, reads)
}

fn strings(items: &[&str]) -> Vec<String> {
    items.iter().map(|s| s.to_string()).collect()
}

#[test]
fn a_group_is_expanded_where_it_stands() {
    let files = [("./TREE/groups/g", "b\nc\n")];
    let (packages, notices, reads) = expand(&files, &["a", "groups/g"]);
    assert_eq!(packages, strings(&["a", "b", "c"]));
    assert_eq!(notices, vec![Notice::GroupResolved { group: "groups/g".to_string(), count: 2 }]);
    assert_eq!(reads, strings(&["./TREE/groups/g"]));
}

#[test]
fn a_group_named_twice_is_expanded_twice() {
    let files = [("./TREE/groups/g", "b\nc\n")];
    let (packages, notices, reads) = expand(&files, &["groups/g", "a", "groups/g"]);
    assert_eq!(packages, strings(&["b", "c", "a", "b", "c"]));
    assert_eq!(notices.len(), 2);
    assert_eq!(reads.len(), 2);
}

#[test]
fn overlapping_groups_keep_their_duplicates() {
    let files = [("./TREE/groups/x", "a\nb\n"), ("./TREE/groups/y", "b\na\ngroups/x\n")];
    let (packages, _, _) = expand(&files, &["b", "groups/x", "groups/y"]);
    assert_eq!(packages, strings(&["b", "a", "b", "b", "a", "a", "b"]));
}

#[test]
fn a_group_that_fails_is_dropped_and_the_rest_goes_on() {
    let files = [("./TREE/groups/g", "b\nc\n")];
    let (packages, notices, reads) = expand(&files, &["a", "groups/missing", "groups/g", "z"]);
    assert_eq!(packages, strings(&["a", "b", "c", "z"]));
    assert_eq!(
        notices,
        vec![
            Notice::GroupFailed {
                group: "groups/missing".to_string(),
                error: ResolveError::Io("No such file or directory (os error 2)".to_string()),
            },
            Notice::GroupResolved { group: "groups/g".to_string(), count: 2 },
        ]
    );
    assert_eq!(reads, strings(&["./TREE/groups/missing", "./TREE/groups/g"]));
}

#[test]
fn a_group_that_fails_half_way_gives_nothing() {
    let files = [("./TREE/groups/g", "b\ngroups/missing\nc\n")];
    let (packages, notices, _) = expand(&files, &["a", "groups/g", "z"]);
    assert_eq!(packages, strings(&["a", "z"]));
    assert_eq!(notices.len(), 1);
    assert!(matches!(&notices[0], Notice::GroupFailed { group, .. } if group == "groups/g"));
}

#[test]
fn a_group_that_is_too_deep_is_dropped() {
    let files = [("./TREE/groups/loop", "a\ngroups/loop\n")];
    let (packages, notices, reads) = expand(&files, &["groups/loop", "z"]);
    assert_eq!(packages, strings(&["z"]));
    assert_eq!(
        notices,
        vec![Notice::GroupFailed {
            group: "groups/loop".to_string(),
            error: ResolveError::DepthExceeded,
        }]
    );
    assert_eq!(reads.len(), 33);
}

#[test]
fn names_are_taken_as_they_are() {
    let (packages, notices, reads) = expand(&[], &["a", " b ", "", "#c", " groups/g"]);
    assert_eq!(packages, strings(&["a", " b ", "", "#c", " groups/g"]));
    assert!(notices.is_empty());
    assert!(reads.is_empty());
}

#[test]
fn nothing_expands_to_nothing() {
    let (packages, notices, reads) = expand(&[], &[]);
    assert!(packages.is_empty());
    assert!(notices.is_empty());
    assert!(reads.is_empty());
}

#[test]
fn an_empty_group_gives_nothing_and_is_noted() {
    let files = [("./TREE/groups/none", "#nothing\n")];
    let (packages, notices, _) = expand(&files, &["a", "groups/none", "b"]);
    assert_eq!(packages, strings(&["a", "b"]));
    assert_eq!(notices, vec![Notice::GroupResolved { group: "groups/none".to_string(), count: 0 }]);
}

#[test]
fn an_expansion_in_progress_gives_up_nothing() {
    let expander = expand_package_list(strings(&["a", "groups/g"]));
    assert!(!expander.is_done());
    assert_eq!(expander.pending(), Some("./TREE/groups/g".to_string()));
    assert!(expander.into_parts().is_none());
}

#[test]
fn an_expansion_that_is_done_takes_no_more_files() {
    let mut expander = expand_package_list(strings(&["a"]));
    assert!(expander.is_done());
    expander.supply(Ok("b\n".to_string()));
    let (packages, notices) = expander.into_parts().unwrap();
    assert_eq!(packages, strings(&["a"]));
    assert!(notices.is_empty());
}
