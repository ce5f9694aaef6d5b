use xdg_utils::{resolve_environment, Action, ErrorPolicy, Event, ResolveError, Resolver};

/// Files as (path, Some(text)) or (path, None) for bytes that are not text;
/// directories as paths; unreadable paths.
struct Disk {
    files: Vec<(String, Option<String>)>,
    dirs: Vec<String>,
    unreadable: Vec<String>,
}

impl Disk {
    fn new(files: &[(&str, &str)], dirs: &[&str]) -> Disk {
        Disk {
            files: files.iter().map(|(p, t)| (p.to_string(), Some(t.to_string()))).collect(),
            dirs: dirs.iter().map(|d| d.to_string()).collect(),
            unreadable: vec![],
        }
    }

    fn read(&self, path: &str) -> Event {
        if self.unreadable.iter().any(|p| p == path) {
            return Event::Unreadable;
        }
        match self.files.iter().find(|(p, _)| p == path) {
            Some((_, Some(t))) => Event::Text(t.clone()),
            Some((_, None)) => Event::NotText,
            None => Event::Missing,
        }
    }

    fn answer(&self, action: &Action) -> Event {
        match action {
            Action::ReadConfig(p) | Action::ReadDescriptor(p) => self.read(p),
            Action::Probe(p) => {
                if self.files.iter().any(|(f, _)| f == p) {
                    Event::Found
                } else {
                    Event::Missing
                }
            }
            Action::ListDir(d) => {
                if !self.dirs.iter().any(|x| x == d) {
                    return Event::Missing;
                }
                let prefix = format!("{}/", d);
                let mut entries: Vec<String> = vec![];
                let all = self.files.iter().map(|(f, _)| f.clone()).chain(self.dirs.iter().cloned());
                for path in all {
                    if let Some(rest) = path.strip_prefix(&prefix) {
                        let name = rest.split('/').next().unwrap();
                        let child = format!("{}{}", prefix, name);
                        if !name.is_empty() && !entries.contains(&child) {
                            entries.push(child);
                        }
                    }
                }
                Event::Entries(entries)
            }
            Action::Finish(_) => panic!("no access after the end"),
        }
    }
}

fn env_for(data_home: &str) -> xdg_utils::XdgEnvironment {
    resolve_environment(&vec![
        ("XDG_DATA_HOME".to_string(), data_home.to_string()),
        ("XDG_CONFIG_HOME".to_string(), "/cfg".to_string()),
        ("XDG_DATA_DIRS".to_string(), "/sys".to_string()),
    ])
}

fn resolve(query: &str, disk: &Disk, policy: ErrorPolicy) -> (Result<String, ResolveError>, Vec<Action>) {
    let mut r = Resolver::new(query, &env_for("/data"), policy);
    let mut trace = vec![];
    for _ in 0..10_000 {
        let action = r.next_action();
        if let Action::Finish(result) = action {
            return (result, trace);
        }
        let event = disk.answer(&action);
        trace.push(action);
        r.step(event);
    }
    panic!("the search did not end");
}

const LIST: &str = "[Default Applications]\ntext/html=foo-browser.desktop;bar.desktop\n";

#[test]
fn vendor_descriptor_resolves() {
    let disk = Disk::new(
        &[
            ("/cfg/mimeapps.list", LIST),
            ("/data/applications/foo/browser.desktop", "[Desktop Entry]\nExec=/usr/bin/browser --flag %u\n"),
        ],
        &["/data/applications", "/data/applications/foo"],
    );
    let (result, _) = resolve("text/html", &disk, ErrorPolicy::BestEffort);
    assert_eq!(result, Ok("/usr/bin/browser".to_string()));
}

#[test]
fn first_identifier_tried_first() {
    let disk = Disk::new(
        &[
            ("/cfg/mimeapps.list", LIST),
            ("/sys/applications/bar.desktop", "Exec=bar\n"),
            ("/sys/applnk/foo/browser.desktop", "Exec=foo\n"),
        ],
        &["/sys/applications", "/sys/applnk", "/sys/applnk/foo"],
    );
    let (result, trace) = resolve("text/html", &disk, ErrorPolicy::BestEffort);
    assert_eq!(result, Ok("foo".to_string()));
    assert_eq!(trace[1], Action::Probe("/data/applications/foo/browser.desktop".to_string()));
}

#[test]
fn second_identifier_when_first_missing() {
    let disk = Disk::new(
        &[("/cfg/mimeapps.list", LIST), ("/sys/applications/bar.desktop", "Exec=/bin/bar %f\n")],
        &["/sys/applications"],
    );
    let (result, _) = resolve("text/html", &disk, ErrorPolicy::BestEffort);
    assert_eq!(result, Ok("/bin/bar".to_string()));
}

#[test]
fn child_directory_probed_one_level_only() {
    let disk = Disk::new(
        &[
            ("/cfg/mimeapps.list", "[Default Applications]\nimage/png=viewer.desktop\n"),
            ("/data/applications/kde/deep/viewer.desktop", "Exec=deep\n"),
            ("/sys/applications/gnome/viewer.desktop", "Exec=shallow\n"),
        ],
        &[
            "/data/applications",
            "/data/applications/kde",
            "/data/applications/kde/deep",
            "/sys/applications",
            "/sys/applications/gnome",
        ],
    );
    let (result, _) = resolve("image/png", &disk, ErrorPolicy::BestEffort);
    assert_eq!(result, Ok("shallow".to_string()));
}

#[test]
fn no_section_anywhere_is_not_found() {
    let disk = Disk::new(
        &[
            ("/cfg/mimeapps.list", "[Added Associations]\ntext/html=bar.desktop\n"),
            ("/sys/applications/bar.desktop", "Exec=bar\n"),
        ],
        &["/sys/applications"],
    );
    let (result, _) = resolve("text/html", &disk, ErrorPolicy::BestEffort);
    assert_eq!(result, Err(ResolveError::NotFound("text/html".to_string())));
}

#[test]
fn nothing_on_disk_is_not_found() {
    let disk = Disk::new(&[], &[]);
    let (result, trace) = resolve("video/mp4", &disk, ErrorPolicy::FailFast);
    assert_eq!(result, Err(ResolveError::NotFound("video/mp4".to_string())));
    assert_eq!(trace.len(), 5);
}

#[test]
fn later_candidate_used_when_earlier_lacks_query() {
    let disk = Disk::new(
        &[
            ("/cfg/mimeapps.list", "[Default Applications]\nimage/png=x.desktop\n"),
            ("/sys/applications/mimeapps.list", LIST),
            ("/sys/applications/bar.desktop", "Exec=bar\n"),
        ],
        &["/sys/applications"],
    );
    let (result, _) = resolve("text/html", &disk, ErrorPolicy::BestEffort);
    assert_eq!(result, Ok("bar".to_string()));
}

#[test]
fn unreadable_config_under_each_policy() {
    let mut disk = Disk::new(
        &[("/cfg/mimeapps.list", LIST), ("/data/mimeapps.list", LIST), ("/sys/applications/bar.desktop", "Exec=bar\n")],
        &["/sys/applications"],
    );
    disk.unreadable.push("/cfg/mimeapps.list".to_string());
    let (fast, _) = resolve("text/html", &disk, ErrorPolicy::FailFast);
    assert_eq!(fast, Err(ResolveError::Io("/cfg/mimeapps.list".to_string())));
    let (best, _) = resolve("text/html", &disk, ErrorPolicy::BestEffort);
    assert_eq!(best, Ok("bar".to_string()));
}

#[test]
fn undecodable_descriptor_under_each_policy() {
    let mut disk = Disk::new(
        &[("/cfg/mimeapps.list", LIST), ("/sys/applications/bar.desktop", "Exec=bar\n")],
        &["/sys/applications"],
    );
    disk.files.push(("/data/applications/foo/browser.desktop".to_string(), None));
    let (fast, _) = resolve("text/html", &disk, ErrorPolicy::FailFast);
    assert_eq!(
        fast,
        Err(ResolveError::InvalidEncoding("/data/applications/foo/browser.desktop".to_string()))
    );
    let (best, _) = resolve("text/html", &disk, ErrorPolicy::BestEffort);
    assert_eq!(best, Ok("bar".to_string()));
}

#[test]
fn descriptor_without_exec_moves_to_next_identifier() {
    let disk = Disk::new(
        &[
            ("/cfg/mimeapps.list", LIST),
            ("/data/applications/foo/browser.desktop", "[Desktop Entry]\nName=Foo\n"),
            ("/sys/applications/bar.desktop", "Exec=bar\n"),
        ],
        &["/sys/applications"],
    );
    let (result, _) = resolve("text/html", &disk, ErrorPolicy::BestEffort);
    assert_eq!(result, Ok("bar".to_string()));
}

#[test]
fn resolution_is_repeatable() {
    let disk = Disk::new(
        &[("/cfg/mimeapps.list", LIST), ("/sys/applications/bar.desktop", "Exec=bar\n")],
        &["/sys/applications"],
    );
    let first = resolve("text/html", &disk, ErrorPolicy::BestEffort);
    let second = resolve("text/html", &disk, ErrorPolicy::BestEffort);
    assert_eq!(first, second);
}

#[test]
fn unexpected_event_changes_nothing() {
    let mut r = Resolver::new("text/html", &env_for("/data"), ErrorPolicy::BestEffort);
    let before = r.next_action();
    r.step(Event::Found);
    assert_eq!(r.next_action(), before);
    assert!(!r.is_finished());
}
