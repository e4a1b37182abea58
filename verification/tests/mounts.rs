use microclaw::sandbox::mounts::{
    allowlist_path, default_allowlist_path, has_sensitive_mount_component, mount_candidate,
    read_allowlist, resolve_mount_dir, way_to, AllowlistPath, MountAction, MountCheck, MountEvent,
    StatOutcome,
};
use microclaw::sandbox::paths::{path_starts_with, HostPath, PathComponent, PrefixKind};
use std::path::{Component, Path, PathBuf};

fn some(s: &str) -> Option<String> {
    Some(s.to_string())
}

/// A path as this system takes it apart.
fn host(path: &str) -> HostPath {
    HostPath {
        shown: path.to_string(),
        parts: Path::new(path)
            .components()
            .map(|c| match c {
                Component::RootDir => PathComponent::RootDir,
                Component::CurDir => PathComponent::CurDir,
                Component::ParentDir => PathComponent::ParentDir,
                Component::Normal(name) => normal(name.to_str().unwrap()),
                Component::Prefix(_) => unreachable!(),
            })
            .collect(),
    }
}

fn normal(name: &str) -> PathComponent {
    PathComponent::Normal(name.to_string())
}

/// A Windows path from a root, with the given prefix.
fn windows(kind: PrefixKind, names: &[&str]) -> HostPath {
    let mut parts = vec![PathComponent::Prefix(kind), PathComponent::RootDir];
    parts.extend(names.iter().map(|name| normal(name)));
    HostPath { shown: names.join("\\"), parts }
}

/// The path that this system makes of components.
fn pushed(parts: &[PathComponent]) -> String {
    let mut path = PathBuf::new();
    for part in parts {
        match part {
            PathComponent::RootDir => path.push("/"),
            PathComponent::Normal(name) => path.push(name),
            _ => panic!("no component that leads somewhere"),
        }
    }
    path.to_str().unwrap().to_string()
}

fn stops(path: &str) -> Vec<String> {
    way_to(&host(path)).iter().map(|stop| pushed(stop)).collect()
}

const PATHS: [&str; 24] = [
    "", "/", "//", ".", "./", "/.", "..", "/..", "a", "a/", "/a", "//a", "a/b", "a//b", "a/./b",
    "./a", "././a", "a/..", "../a", "/a/b/.", "...", ".a", "a/.ssh/b", "/a b/ü",
];

#[test]
fn paths_lie_under_others_as_the_system_says() {
    for path in PATHS {
        for root in PATHS {
            assert_eq!(
                path_starts_with(&host(path), &host(root)),
                Path::new(path).starts_with(root),
                "{path:?} {root:?}"
            );
        }
        assert!(path_starts_with(&host(path), &host(path)));
    }
    assert!(path_starts_with(&host("/a/b/c"), &host("/a/b")));
    assert!(path_starts_with(&host("/a/b"), &host("/a")));
    assert!(path_starts_with(&host("/a/b/c"), &host("/a")));
    assert!(path_starts_with(&host("/home/me/x"), &host("/home/me/")));
    assert!(!path_starts_with(&host("/home/me2"), &host("/home/me")));
}

#[test]
fn every_name_on_the_way_is_a_stop() {
    assert_eq!(stops("/a/b/c"), vec!["/a", "/a/b", "/a/b/c"]);
    assert_eq!(stops("a/../b/./c"), vec!["a", "a/b", "a/b/c"]);
    assert_eq!(stops("./x"), vec!["x"]);
    assert!(stops("/").is_empty());
    assert!(stops("").is_empty());
}

#[test]
fn a_prefix_is_no_stop() {
    let path = windows(PrefixKind::VerbatimDisk(b'C'), &["Users", "me"]);
    let way = way_to(&path);
    assert_eq!(way.len(), 2);
    for (k, stop) in way.iter().enumerate() {
        assert_eq!(stop.len(), k + 3);
        for (part, expected) in stop.iter().zip(path.parts.iter()) {
            assert!(part.same(expected));
        }
    }
    assert!(way_to(&windows(PrefixKind::Disk(b'C'), &[])).is_empty());
}

#[test]
fn dots_count_where_the_system_keeps_them() {
    let with = |dots: bool| {
        let mut path = windows(PrefixKind::VerbatimDisk(b'C'), &["a"]);
        if dots {
            path.parts.push(PathComponent::CurDir);
        }
        path.parts.push(normal("b"));
        path
    };
    assert!(!path_starts_with(&with(true), &with(false)));
    assert!(!path_starts_with(&with(false), &with(true)));
    assert_eq!(way_to(&with(true)).len(), 2);
    assert_eq!(way_to(&with(true))[1].len(), 4);
}

#[test]
fn prefixes_are_compared_by_what_they_name() {
    let disk = |names: &[&str]| windows(PrefixKind::Disk(b'C'), names);
    assert!(path_starts_with(&disk(&["x", "y"]), &disk(&["x"])));
    let verbatim = windows(PrefixKind::VerbatimDisk(b'C'), &["x"]);
    assert!(!path_starts_with(&disk(&["x", "y"]), &verbatim));
    assert!(!path_starts_with(&disk(&["x"]), &host("/x")));
    let share = |server: &str, names: &[&str]| {
        windows(PrefixKind::Unc(server.to_string(), "s".to_string()), names)
    };
    assert!(path_starts_with(&share("a", &["x"]), &share("a", &[])));
    assert!(!path_starts_with(&share("a", &["x"]), &share("b", &[])));
    let kinds = || {
        vec![
            PrefixKind::Verbatim("x".to_string()),
            PrefixKind::VerbatimUnc("x".to_string(), "y".to_string()),
            PrefixKind::VerbatimDisk(b'X'),
            PrefixKind::DeviceNs("x".to_string()),
            PrefixKind::Unc("x".to_string(), "y".to_string()),
            PrefixKind::Disk(b'X'),
        ]
    };
    for (i, a) in kinds().iter().enumerate() {
        for (j, b) in kinds().iter().enumerate() {
            assert_eq!(a.same(b), i == j);
        }
    }
    assert!(has_sensitive_mount_component(&disk(&["Users", "me", ".ssh"])));
}

#[test]
fn names_that_hold_secrets_are_known() {
    for name in [
        ".ssh", ".gnupg", ".aws", ".azure", ".gcloud", ".kube", ".docker", ".env", ".env.local",
        ".env.production", ".env.development", ".netrc", ".npmrc", "id_rsa", "id_ed25519",
        "credentials", "private_key",
    ] {
        assert!(has_sensitive_mount_component(&host(name)));
        assert!(has_sensitive_mount_component(&host(&format!("/home/{name}"))));
        assert!(has_sensitive_mount_component(&host(&format!("/home/{name}/below"))));
        assert!(!has_sensitive_mount_component(&host(&format!("/home/x{name}"))));
        assert!(!has_sensitive_mount_component(&host(&name.to_uppercase())));
    }
    assert!(!has_sensitive_mount_component(&host("/home/me/project")));
    assert!(!has_sensitive_mount_component(&host("")));
}

#[test]
fn allowlists_hold_paths_and_comments() {
    assert_eq!(
        read_allowlist("# roots\n\n  /a \r\n\t#/b\n/c d\n#\n/e"),
        vec!["/a", "/c d", "/e"]
    );
    assert!(read_allowlist("").is_empty());
    assert!(read_allowlist("# nothing\n   \n").is_empty());
}

fn place(place: Option<AllowlistPath>) -> Option<(String, String)> {
    match place {
        Some(AllowlistPath::File(file)) => Some((String::new(), file)),
        Some(AllowlistPath::Below { dir, file }) => Some((dir, file)),
        None => None,
    }
}

#[test]
fn the_allowlist_is_configured_or_named_or_at_home() {
    let none: Option<String> = None;
    let at = |dir: &str, file: &str| Some((dir.to_string(), file.to_string()));
    assert_eq!(
        place(allowlist_path(&some("/c"), &some("/n"), &some("/h"), &some("/p"))),
        at("", "/c")
    );
    assert_eq!(
        place(allowlist_path(&none, &some("/n"), &some("/h"), &some("/p"))),
        at("", "/n")
    );
    assert_eq!(
        place(allowlist_path(&none, &none, &some("/h"), &some("/p"))),
        at("/h", ".microclaw/sandbox-mount-allowlist.txt")
    );
    assert_eq!(
        place(default_allowlist_path(&none, &some("C:"))),
        at("C:", ".microclaw/sandbox-mount-allowlist.txt")
    );
    assert_eq!(place(allowlist_path(&none, &none, &none, &none)), None);
}

fn verdict(check: &MountCheck) -> Result<(), String> {
    match check.action() {
        MountAction::Finish(verdict) => verdict,
        _ => panic!("the check is not over"),
    }
}

fn stat(check: &MountCheck) -> String {
    match check.action() {
        MountAction::Stat(stop) => pushed(&stop),
        _ => panic!("the check looks at a path"),
    }
}

fn past_links(path: &str, allowlist: Option<String>) -> MountCheck {
    let mut check = MountCheck::validate_mount_dir(host(path), allowlist);
    while let MountAction::Stat(_) = check.action() {
        check = check.advance(MountEvent::Stat(StatOutcome::Plain));
    }
    check
}

#[test]
fn a_plain_path_without_an_allowlist_is_mounted() {
    let check = MountCheck::validate_mount_dir(host("/srv/work"), None);
    assert_eq!(stat(&check), "/srv");
    let check = check.advance(MountEvent::Stat(StatOutcome::Plain));
    assert_eq!(stat(&check), "/srv/work");
    let check = check.advance(MountEvent::Found(true));
    assert_eq!(stat(&check), "/srv/work");
    let check = check.advance(MountEvent::Stat(StatOutcome::Plain));
    assert_eq!(verdict(&check), Ok(()));
}

#[test]
fn links_and_failures_on_the_way_are_refused() {
    let check = MountCheck::validate_mount_dir(host("/srv/work"), some("/list"));
    let link = check.advance(MountEvent::Stat(StatOutcome::Symlink));
    assert_eq!(verdict(&link), Err("mount path contains symlink component".to_string()));
    let check = MountCheck::validate_mount_dir(host("/srv/work"), some("/list"));
    let failed = check
        .advance(MountEvent::Stat(StatOutcome::Plain))
        .advance(MountEvent::Stat(StatOutcome::Failed("/srv/work".to_string())));
    assert_eq!(verdict(&failed), Err("failed to stat mount path '/srv/work'".to_string()));
}

#[test]
fn secrets_are_refused_whatever_the_allowlist_says() {
    let check = past_links("/home/me/.ssh/x", some("/list"));
    assert_eq!(verdict(&check), Err("mount path contains sensitive component".to_string()));
}

#[test]
fn a_missing_allowlist_allows_everything() {
    let check = past_links("/srv/work", some("/list"));
    assert!(matches!(check.action(), MountAction::Find(file) if file == "/list"));
    assert_eq!(verdict(&check.advance(MountEvent::Found(false))), Ok(()));
}

#[test]
fn an_allowlist_that_cannot_be_read_refuses_everything() {
    let check = past_links("/srv/work", some("/list")).advance(MountEvent::Found(true));
    assert!(matches!(check.action(), MountAction::Read(file) if file == "/list"));
    let check = check.advance(MountEvent::Content(None));
    assert_eq!(verdict(&check), Err("failed reading mount allowlist '/list'".to_string()));
}

#[test]
fn an_empty_allowlist_allows_everything() {
    let check = past_links("/srv/work", some("/list"))
        .advance(MountEvent::Found(true))
        .advance(MountEvent::Content(some("# nothing yet\n")));
    assert_eq!(verdict(&check), Ok(()));
}

fn listed(path: &str, content: &str, canonical: &[(&str, &str)]) -> Result<(), String> {
    let mut check = past_links(path, some("/list"))
        .advance(MountEvent::Found(true))
        .advance(MountEvent::Content(some(content)));
    while let MountAction::Canonicalize(entry) = check.action() {
        let resolved = canonical.iter().find(|(from, _)| *from == entry).map(|(_, to)| host(to));
        check = check.advance(MountEvent::Canonical { read: host(&entry), canonical: resolved });
    }
    verdict(&check)
}

#[test]
fn an_allowlist_allows_what_lies_under_its_roots() {
    assert_eq!(listed("/srv/work", "/opt\n/srv\n", &[]), Ok(()));
    assert_eq!(listed("/srv/work", "/srv/work\n", &[]), Ok(()));
    assert_eq!(
        listed("/srv/work", "/opt\n/srv/wo\n", &[]),
        Err("mount path '/srv/work' is not allowed by '/list'".to_string())
    );
    assert_eq!(listed("/real/work", "/link\n", &[("/link", "/real")]), Ok(()));
    assert_eq!(
        listed("/link/work", "/link\n", &[("/link", "/real")]),
        Err("mount path '/link/work' is not allowed by '/list'".to_string())
    );
}

#[test]
fn the_directory_that_passed_is_mounted() {
    let canonical = Some(host("/srv/work"));
    assert_eq!(mount_candidate(&host("./work"), &canonical).shown, "/srv/work");
    assert_eq!(mount_candidate(&host("./work"), &None).shown, "./work");
    assert_eq!(resolve_mount_dir("./work", &some("/srv/work"), &Ok(())), "/srv/work");
    assert_eq!(resolve_mount_dir("./work", &None, &Ok(())), "./work");
    assert_eq!(
        resolve_mount_dir("./work", &some("/srv/work"), &Err("no".to_string())),
        "./work"
    );
}
