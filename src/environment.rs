//! The XDG variables that the lookup reads, with their defaults.

use vstd::prelude::*;

verus! {

/// The value of an optional string.
pub open spec fn opt_view(o: Option<String>) -> Option<Seq<char>> {
    match o {
        Some(s) => Some(s@),
        None => None,
    }
}

/// Value of `key` in an environment snapshot; a later entry overrides an
/// earlier one.
pub open spec fn lookup(vars: Seq<(String, String)>, key: Seq<char>) -> Option<Seq<char>>
    decreases vars.len(),
{
    if vars.len() == 0 {
        None
    } else if vars.last().0@ == key {
        Some(vars.last().1@)
    } else {
        lookup(vars.drop_last(), key)
    }
}

/// A variable that is read, else `home` followed by `suffix`, else nothing.
pub open spec fn home_default(
    given: Option<Seq<char>>,
    home: Option<Seq<char>>,
    suffix: Seq<char>,
) -> Option<Seq<char>> {
    match given {
        Some(v) => Some(v),
        None => match home {
            Some(h) => Some(h + suffix),
            None => None,
        },
    }
}

/// Default of `XDG_DATA_DIRS`.
pub open spec fn default_data_dirs() -> Seq<char> {
    "/usr/local/share:/usr/share"@
}

/// The environment as the lookup sees it, defaults filled in.
pub struct XdgEnvironment {
    pub home: Option<String>,
    /// `XDG_DATA_HOME`, else `$HOME/.local/share` when `HOME` is set.
    pub data_home: Option<String>,
    /// `XDG_CONFIG_HOME`, else `$HOME/.config` when `HOME` is set.
    pub config_home: Option<String>,
    /// `XDG_DATA_DIRS`, else `/usr/local/share:/usr/share`.
    pub data_dirs: String,
    /// `XDG_CONFIG_DIRS`; it has no default.
    pub config_dirs: Option<String>,
    /// `XDG_CURRENT_DESKTOP`: desktop names separated by `:`.
    pub current_desktop: Option<String>,
}

/// What `resolve_environment` makes of a snapshot.
pub open spec fn resolved(vars: Seq<(String, String)>, env: XdgEnvironment) -> bool {
    let home = lookup(vars, "HOME"@);
    &&& opt_view(env.home) == home
    &&& opt_view(env.data_home) == home_default(
        lookup(vars, "XDG_DATA_HOME"@),
        home,
        "/.local/share"@,
    )
    &&& opt_view(env.config_home) == home_default(
        lookup(vars, "XDG_CONFIG_HOME"@),
        home,
        "/.config"@,
    )
    &&& env.data_dirs@ == match lookup(vars, "XDG_DATA_DIRS"@) {
        Some(v) => v,
        None => default_data_dirs(),
    }
    &&& opt_view(env.config_dirs) == lookup(vars, "XDG_CONFIG_DIRS"@)
    &&& opt_view(env.current_desktop) == lookup(vars, "XDG_CURRENT_DESKTOP"@)
}

fn with_suffix(base: &String, suffix: &str) -> (r: String)
    ensures
        r@ == base@ + suffix@,
{
    let mut r = base.clone();
    r.append(suffix);
    r
}

/// Builds the environment from a snapshot of `(name, value)` pairs, filling
/// in the defaults of the base-directory rules. Pairs with other names are
/// ignored.
pub fn resolve_environment(vars: &Vec<(String, String)>) -> (env: XdgEnvironment)
    ensures
        resolved(vars@, env),
{
    let home_key = "HOME".to_owned();
    let data_home_key = "XDG_DATA_HOME".to_owned();
    let config_home_key = "XDG_CONFIG_HOME".to_owned();
    let data_dirs_key = "XDG_DATA_DIRS".to_owned();
    let config_dirs_key = "XDG_CONFIG_DIRS".to_owned();
    let desktop_key = "XDG_CURRENT_DESKTOP".to_owned();
    let mut home: Option<String> = None;
    let mut data_home: Option<String> = None;
    let mut config_home: Option<String> = None;
    let mut data_dirs: Option<String> = None;
    let mut config_dirs: Option<String> = None;
    let mut desktop: Option<String> = None;
    let mut i: usize = 0;
    while i < vars.len()
        invariant
            i <= vars@.len(),
            home_key@ == "HOME"@,
            data_home_key@ == "XDG_DATA_HOME"@,
            config_home_key@ == "XDG_CONFIG_HOME"@,
            data_dirs_key@ == "XDG_DATA_DIRS"@,
            config_dirs_key@ == "XDG_CONFIG_DIRS"@,
            desktop_key@ == "XDG_CURRENT_DESKTOP"@,
            opt_view(home) == lookup(vars@.take(i as int), "HOME"@),
            opt_view(data_home) == lookup(vars@.take(i as int), "XDG_DATA_HOME"@),
            opt_view(config_home) == lookup(vars@.take(i as int), "XDG_CONFIG_HOME"@),
            opt_view(data_dirs) == lookup(vars@.take(i as int), "XDG_DATA_DIRS"@),
            opt_view(config_dirs) == lookup(vars@.take(i as int), "XDG_CONFIG_DIRS"@),
            opt_view(desktop) == lookup(vars@.take(i as int), "XDG_CURRENT_DESKTOP"@),
        decreases vars@.len() - i,
    {
        let (k, v) = &vars[i];
        proof {
            assert(vars@.take(i + 1).drop_last() =~= vars@.take(i as int));
            assert(vars@.take(i + 1).last() == vars@[i as int]);
        }
        if *k == home_key {
            home = Some(v.clone());
        }
        if *k == data_home_key {
            data_home = Some(v.clone());
        }
        if *k == config_home_key {
            config_home = Some(v.clone());
        }
        if *k == data_dirs_key {
            data_dirs = Some(v.clone());
        }
        if *k == config_dirs_key {
            config_dirs = Some(v.clone());
        }
        if *k == desktop_key {
            desktop = Some(v.clone());
        }
        i = i + 1;
    }
    proof {
        assert(vars@.take(vars@.len() as int) =~= vars@);
    }
    if data_home.is_none() {
        if let Some(h) = &home {
            data_home = Some(with_suffix(h, "/.local/share"));
        }
    }
    if config_home.is_none() {
        if let Some(h) = &home {
            config_home = Some(with_suffix(h, "/.config"));
        }
    }
    let data_dirs = match data_dirs {
        Some(d) => d,
        None => "/usr/local/share:/usr/share".to_owned(),
    };
    XdgEnvironment { home, data_home, config_home, data_dirs, config_dirs, current_desktop: desktop }
}

/// With `HOME` set and neither `XDG_DATA_HOME` nor `XDG_CONFIG_HOME` given,
/// the two are `$HOME/.local/share` and `$HOME/.config`.
pub proof fn lemma_home_defaults(vars: Seq<(String, String)>, env: XdgEnvironment, home: Seq<char>)
    requires
        resolved(vars, env),
        lookup(vars, "HOME"@) == Some(home),
        lookup(vars, "XDG_DATA_HOME"@) is None,
        lookup(vars, "XDG_CONFIG_HOME"@) is None,
    ensures
        opt_view(env.data_home) == Some(home + "/.local/share"@),
        opt_view(env.config_home) == Some(home + "/.config"@),
{
}

/// Without `XDG_DATA_DIRS`, the data directories are
/// `/usr/local/share:/usr/share`.
pub proof fn lemma_data_dirs_default(vars: Seq<(String, String)>, env: XdgEnvironment)
    requires
        resolved(vars, env),
        lookup(vars, "XDG_DATA_DIRS"@) is None,
    ensures
        env.data_dirs@ == "/usr/local/share:/usr/share"@,
{
}

} // verus!
