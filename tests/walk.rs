use lsplus::walk::{EntryKind, Probe, SizeWalk};

fn found(path: &str, kind: EntryKind, len: u64) -> Probe<String> {
    Probe::Found { path: path.to_string(), kind, len }
}

/// Runs a walk over listings given by path; a path with no listing is unreadable.
fn run(root: &str, tree: &[(&str, Vec<Probe<String>>)]) -> (u64, Vec<String>) {
    let mut walk = SizeWalk::new(root.to_string());
    let mut visited = Vec::new();
    let mut listings: Vec<(String, Option<Vec<Probe<String>>>)> =
        tree.iter().map(|(p, _)| (p.to_string(), None)).collect();
    for (i, (_, l)) in tree.iter().enumerate() {
        let copy = l
            .iter()
            .map(|e| match e {
                Probe::Unreadable => Probe::Unreadable,
                Probe::Found { path, kind, len } => Probe::Found { path: path.clone(), kind: *kind, len: *len },
            })
            .collect();
        listings[i].1 = Some(copy);
    }
    while let Some(dir) = walk.next_dir() {
        visited.push(dir.clone());
        let listing = listings.iter_mut().find(|(p, _)| *p == dir).and_then(|(_, l)| l.take());
        walk.absorb(listing);
    }
    (walk.total, visited)
}

#[test]
fn file_and_nested_file_sum() {
    let (total, _) = run(
        "d",
        &[
            ("d", vec![found("d/f", EntryKind::File, 500), found("d/s", EntryKind::Directory, 4096)]),
            ("d/s", vec![found("d/s/g", EntryKind::File, 300)]),
        ],
    );
    assert_eq!(total, 800);
}

#[test]
fn symlink_to_ancestor_is_not_followed() {
    let (total, visited) = run(
        "d",
        &[
            ("d", vec![found("d/s", EntryKind::Directory, 4096)]),
            ("d/s", vec![found("d/s/up", EntryKind::Symlink, 2), found("d/s/f", EntryKind::File, 10)]),
        ],
    );
    assert_eq!(total, 12);
    assert_eq!(visited, vec!["d".to_string(), "d/s".to_string()]);
}

#[test]
fn unreadable_parts_count_zero() {
    let (total, visited) = run(
        "d",
        &[(
            "d",
            vec![found("d/f", EntryKind::File, 7), Probe::Unreadable, found("d/locked", EntryKind::Directory, 4096)],
        )],
    );
    assert_eq!(total, 7);
    assert_eq!(visited.len(), 2);
}

#[test]
fn empty_directory_totals_zero() {
    let (total, _) = run("d", &[("d", vec![])]);
    assert_eq!(total, 0);
}

#[test]
fn directories_visited_in_listing_order() {
    let (_, visited) = run(
        "d",
        &[
            ("d", vec![found("d/a", EntryKind::Directory, 0), found("d/b", EntryKind::Directory, 0)]),
            ("d/a", vec![]),
            ("d/b", vec![]),
        ],
    );
    assert_eq!(visited, vec!["d".to_string(), "d/a".to_string(), "d/b".to_string()]);
}

#[test]
fn total_saturates() {
    let mut walk = SizeWalk::new(0u32);
    assert_eq!(walk.next_dir(), Some(0));
    assert_eq!(walk.next_dir(), None);
    walk.absorb(Some(vec![
        Probe::Found { path: 1, kind: EntryKind::File, len: u64::MAX - 1 },
        Probe::Found { path: 2, kind: EntryKind::File, len: 5 },
    ]));
    assert_eq!(walk.total, u64::MAX);
}
