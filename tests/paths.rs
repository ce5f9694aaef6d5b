use xdg_utils::{
    child_probes, config_candidates, data_search_dirs, desktop_names, probe_plan,
    resolve_environment, Probe, XdgEnvironment,
};

fn vars(pairs: &[(&str, &str)]) -> Vec<(String, String)> {
    pairs.iter().map(|(k, v)| (k.to_string(), v.to_string())).collect()
}

fn strings(v: &[&str]) -> Vec<String> {
    v.iter().map(|s| s.to_string()).collect()
}

#[test]
fn home_defaults() {
    let env = resolve_environment(&vars(&[("HOME", "/home/u"), ("PATH", "/bin")]));
    assert_eq!(env.home, Some("/home/u".to_string()));
    assert_eq!(env.data_home, Some("/home/u/.local/share".to_string()));
    assert_eq!(env.config_home, Some("/home/u/.config".to_string()));
    assert_eq!(env.config_dirs, None);
    assert_eq!(env.current_desktop, None);
}

#[test]
fn data_dirs_default() {
    let env = resolve_environment(&vars(&[]));
    assert_eq!(env.data_dirs, "/usr/local/share:/usr/share".to_string());
    assert_eq!(env.data_home, None);
    assert_eq!(env.config_home, None);
}

#[test]
fn explicit_values_kept() {
    let env = resolve_environment(&vars(&[
        ("HOME", "/home/u"),
        ("XDG_DATA_HOME", "/d"),
        ("XDG_CONFIG_HOME", "/c"),
        ("XDG_DATA_DIRS", "/s1:/s2"),
        ("XDG_CONFIG_DIRS", "/etc/xdg"),
        ("XDG_CURRENT_DESKTOP", "GNOME"),
    ]));
    assert_eq!(env.data_home, Some("/d".to_string()));
    assert_eq!(env.config_home, Some("/c".to_string()));
    assert_eq!(env.data_dirs, "/s1:/s2".to_string());
    assert_eq!(env.config_dirs, Some("/etc/xdg".to_string()));
    assert_eq!(env.current_desktop, Some("GNOME".to_string()));
}

#[test]
fn later_entry_overrides() {
    let env = resolve_environment(&vars(&[("HOME", "/a"), ("HOME", "/b")]));
    assert_eq!(env.home, Some("/b".to_string()));
}

fn sample_env() -> XdgEnvironment {
    resolve_environment(&vars(&[
        ("XDG_CONFIG_HOME", "/c"),
        ("XDG_CONFIG_DIRS", "/cd1:/cd2"),
        ("XDG_DATA_HOME", "/d"),
        ("XDG_DATA_DIRS", "/s::"),
        ("XDG_CURRENT_DESKTOP", " GNOME:KDE "),
    ]))
}

#[test]
fn candidate_order() {
    let env = sample_env();
    assert_eq!(desktop_names(&env), strings(&["GNOME", "KDE"]));
    assert_eq!(data_search_dirs(&env), strings(&["/d", "/s"]));
    let expected = strings(&[
        "/c/GNOME-mimeapps.list",
        "/c/KDE-mimeapps.list",
        "/c/mimeapps.list",
        "/cd1/GNOME-mimeapps.list",
        "/cd1/KDE-mimeapps.list",
        "/cd1/mimeapps.list",
        "/cd2/GNOME-mimeapps.list",
        "/cd2/KDE-mimeapps.list",
        "/cd2/mimeapps.list",
        "/d/GNOME-mimeapps.list",
        "/d/KDE-mimeapps.list",
        "/d/mimeapps.list",
        "/s/GNOME-mimeapps.list",
        "/s/KDE-mimeapps.list",
        "/s/mimeapps.list",
        "/d/applications/GNOME-mimeapps.list",
        "/d/applications/KDE-mimeapps.list",
        "/d/applications/mimeapps.list",
        "/s/applications/GNOME-mimeapps.list",
        "/s/applications/KDE-mimeapps.list",
        "/s/applications/mimeapps.list",
    ]);
    assert_eq!(config_candidates(&env), expected);
}

#[test]
fn candidates_without_desktop_or_config_vars() {
    let env = resolve_environment(&vars(&[]));
    assert_eq!(
        config_candidates(&env),
        strings(&[
            "/usr/local/share/mimeapps.list",
            "/usr/share/mimeapps.list",
            "/usr/local/share/applications/mimeapps.list",
            "/usr/share/applications/mimeapps.list",
        ])
    );
}

#[test]
fn plan_with_vendor() {
    let plan = probe_plan(&strings(&["/d"]), "foo-web-browser.desktop");
    assert_eq!(
        plan,
        vec![
            Probe::Exists("/d/applications/foo/web-browser.desktop".to_string()),
            Probe::Exists("/d/applnk/foo/web-browser.desktop".to_string()),
            Probe::Exists("/d/applications/foo-web-browser.desktop".to_string()),
            Probe::Children("/d/applications".to_string()),
            Probe::Exists("/d/applnk/foo-web-browser.desktop".to_string()),
            Probe::Children("/d/applnk".to_string()),
        ]
    );
}

#[test]
fn plan_without_vendor_two_dirs() {
    let plan = probe_plan(&strings(&["/a", "/b"]), "x.desktop");
    assert_eq!(plan.len(), 8);
    assert_eq!(plan[0], Probe::Exists("/a/applications/x.desktop".to_string()));
    assert_eq!(plan[4], Probe::Exists("/b/applications/x.desktop".to_string()));
    assert_eq!(plan[7], Probe::Children("/b/applnk".to_string()));
}

#[test]
fn child_probe_paths() {
    assert_eq!(
        child_probes(&strings(&["/d/applications/kde", "/d/applications/gnome"]), "x.desktop"),
        vec![
            Probe::Exists("/d/applications/kde/x.desktop".to_string()),
            Probe::Exists("/d/applications/gnome/x.desktop".to_string()),
        ]
    );
}
