//! The ordered candidate `mimeapps.list` paths, and the data directories in
//! which application descriptors are searched.

use vstd::prelude::*;
use crate::environment::{opt_view, XdgEnvironment};
use crate::text::{lemma_views_push, keep_pieces, pieces, split, to_chars, trim, trim_bounds, copy_range, views};

verus! {

/// The non-empty directories of a `:`-separated variable; none when unset.
pub open spec fn search_dirs(var: Option<Seq<char>>) -> Seq<Seq<char>> {
    match var {
        Some(v) => keep_pieces(split(v, ':'), false),
        None => seq![],
    }
}

/// The desktop names of `XDG_CURRENT_DESKTOP`, in order.
pub open spec fn desktops(env: XdgEnvironment) -> Seq<Seq<char>> {
    match opt_view(env.current_desktop) {
        Some(v) => keep_pieces(split(trim(v), ':'), false),
        None => seq![],
    }
}

/// `XDG_DATA_HOME`'s directories, then those of `XDG_DATA_DIRS`.
pub open spec fn data_dirs(env: XdgEnvironment) -> Seq<Seq<char>> {
    search_dirs(opt_view(env.data_home)) + search_dirs(Some(env.data_dirs@))
}

/// The directories of the first tier: `XDG_CONFIG_HOME`, `XDG_CONFIG_DIRS`,
/// `XDG_DATA_HOME`, `XDG_DATA_DIRS`.
pub open spec fn config_tier_dirs(env: XdgEnvironment) -> Seq<Seq<char>> {
    search_dirs(opt_view(env.config_home)) + search_dirs(opt_view(env.config_dirs)) + data_dirs(env)
}

/// The candidates of one directory: `{dir}{sub}{desktop}-mimeapps.list` for
/// each desktop in order, then `{dir}{sub}mimeapps.list`.
pub open spec fn dir_candidates(dir: Seq<char>, sub: Seq<char>, desks: Seq<Seq<char>>) -> Seq<Seq<char>> {
    desks.map_values(|d: Seq<char>| dir + sub + d + "-mimeapps.list"@) + seq![dir + sub + "mimeapps.list"@]
}

/// The candidates of each directory of `dirs`, directory by directory.
pub open spec fn candidates_in(dirs: Seq<Seq<char>>, sub: Seq<char>, desks: Seq<Seq<char>>) -> Seq<Seq<char>>
    decreases dirs.len(),
{
    if dirs.len() == 0 {
        seq![]
    } else {
        candidates_in(dirs.drop_last(), sub, desks) + dir_candidates(dirs.last(), sub, desks)
    }
}

/// Every candidate `mimeapps.list` path, in the order in which it is tried:
/// the directories themselves first, then their `applications/` subdirectory
/// for the data directories.
pub open spec fn config_candidates_spec(env: XdgEnvironment) -> Seq<Seq<char>> {
    candidates_in(config_tier_dirs(env), "/"@, desktops(env))
        + candidates_in(data_dirs(env), "/applications/"@, desktops(env))
}

/// `a` followed by `b` and `c`.
pub fn join3(a: &str, b: &str, c: &str) -> (r: String)
    ensures
        r@ == a@ + b@ + c@,
{
    let mut r = a.to_owned();
    r.append(b);
    r.append(c);
    r
}

fn var_dirs(var: &Option<String>) -> (r: Vec<String>)
    ensures
        views(r@) == search_dirs(opt_view(*var)),
{
    match var {
        Some(v) => pieces(&to_chars(v.as_str()), ':', false),
        None => Vec::new(),
    }
}

fn append_all(out: &mut Vec<String>, more: Vec<String>)
    ensures
        views(final(out)@) == views(old(out)@) + views(more@),
{
    let ghost start = views(out@);
    let mut i: usize = 0;
    while i < more.len()
        invariant
            i <= more@.len(),
            views(out@) == start + views(more@).take(i as int),
        decreases more@.len() - i,
    {
        let ghost prev = out@;
        let x = more[i].clone();
        out.push(x);
        proof {
            lemma_views_push(prev, x);
            assert(views(more@).take(i + 1) =~= views(more@).take(i as int) + seq![more@[i as int]@]);
        }
        i = i + 1;
    }
    proof {
        assert(views(more@).take(more@.len() as int) =~= views(more@));
    }
}

/// The directories searched for application descriptors, in order.
pub fn data_search_dirs(env: &XdgEnvironment) -> (r: Vec<String>)
    ensures
        views(r@) == data_dirs(*env),
{
    let mut r = var_dirs(&env.data_home);
    append_all(&mut r, pieces(&to_chars(env.data_dirs.as_str()), ':', false));
    r
}

/// The desktop names, in order.
pub fn desktop_names(env: &XdgEnvironment) -> (r: Vec<String>)
    ensures
        views(r@) == desktops(*env),
{
    match &env.current_desktop {
        Some(v) => {
            let cs = to_chars(v.as_str());
            let (a, b) = trim_bounds(&cs, 0, cs.len());
            proof {
                assert(cs@.subrange(0, cs@.len() as int) =~= cs@);
            }
            pieces(&copy_range(&cs, a, b), ':', false)
        },
        None => Vec::new(),
    }
}

fn push_candidates(out: &mut Vec<String>, dirs: &Vec<String>, sub: &str, desks: &Vec<String>)
    ensures
        views(final(out)@) == views(old(out)@) + candidates_in(views(dirs@), sub@, views(desks@)),
{
    let ghost start = views(out@);
    let mut i: usize = 0;
    while i < dirs.len()
        invariant
            i <= dirs@.len(),
            views(out@) == start + candidates_in(views(dirs@).take(i as int), sub@, views(desks@)),
        decreases dirs@.len() - i,
    {
        let dir = dirs[i].as_str();
        let ghost before = views(out@);
        let mut j: usize = 0;
        while j < desks.len()
            invariant
                i < dirs@.len(),
                dir@ == dirs@[i as int]@,
                j <= desks@.len(),
                views(out@) == before + views(desks@).take(j as int).map_values(
                    |d: Seq<char>| dir@ + sub@ + d + "-mimeapps.list"@,
                ),
            decreases desks@.len() - j,
        {
            let mut p = join3(dir, sub, desks[j].as_str());
            p.append("-mimeapps.list");
            let ghost prev = out@;
            out.push(p);
            proof {
                lemma_views_push(prev, p);
                assert(views(desks@).take(j + 1).map_values(
                    |d: Seq<char>| dir@ + sub@ + d + "-mimeapps.list"@,
                ) =~= views(desks@).take(j as int).map_values(
                    |d: Seq<char>| dir@ + sub@ + d + "-mimeapps.list"@,
                ) + seq![p@]);
            }
            j = j + 1;
        }
        let p = join3(dir, sub, "mimeapps.list");
        let ghost prev = out@;
        out.push(p);
        proof {
            lemma_views_push(prev, p);
            assert(views(desks@).take(desks@.len() as int) =~= views(desks@));
            assert(views(dirs@).take(i + 1).drop_last() =~= views(dirs@).take(i as int));
            assert(views(dirs@).take(i + 1).last() == dir@);
            assert(views(out@) =~= before + dir_candidates(dir@, sub@, views(desks@)));
            assert(views(out@) =~= start + candidates_in(views(dirs@).take(i + 1), sub@, views(desks@)));
        }
        i = i + 1;
    }
    proof {
        assert(views(dirs@).take(dirs@.len() as int) =~= views(dirs@));
    }
}

/// Every candidate `mimeapps.list` path, in the order in which it is tried.
/// Whether a candidate exists is for the caller to find out.
pub fn config_candidates(env: &XdgEnvironment) -> (r: Vec<String>)
    ensures
        views(r@) == config_candidates_spec(*env),
{
    let desks = desktop_names(env);
    let mut tier_dirs = var_dirs(&env.config_home);
    append_all(&mut tier_dirs, var_dirs(&env.config_dirs));
    let data = data_search_dirs(env);
    append_all(&mut tier_dirs, data.clone());
    let mut r: Vec<String> = Vec::new();
    push_candidates(&mut r, &tier_dirs, "/", &desks);
    push_candidates(&mut r, &data, "/applications/", &desks);
    proof {
        assert(views(tier_dirs@) =~= config_tier_dirs(*env));
        assert(seq![] + candidates_in(config_tier_dirs(*env), "/"@, desktops(*env)) =~= candidates_in(config_tier_dirs(*env), "/"@, desktops(*env)));
    }
    r
}

/// The candidates of two lists of directories are those of the first list,
/// then those of the second.
pub proof fn lemma_candidates_in_append(
    a: Seq<Seq<char>>,
    b: Seq<Seq<char>>,
    sub: Seq<char>,
    desks: Seq<Seq<char>>,
)
    ensures
        candidates_in(a + b, sub, desks) == candidates_in(a, sub, desks) + candidates_in(b, sub, desks),
    decreases b.len(),
{
    if b.len() == 0 {
        assert(a + b =~= a);
        assert(candidates_in(a, sub, desks) + seq![] =~= candidates_in(a, sub, desks));
    } else {
        assert((a + b).drop_last() =~= a + b.drop_last());
        lemma_candidates_in_append(a, b.drop_last(), sub, desks);
    }
}

/// Search order: every candidate under the directories themselves comes
/// before every candidate under an `applications/` subdirectory; among the
/// former, those of `XDG_CONFIG_HOME`, `XDG_CONFIG_DIRS`, `XDG_DATA_HOME` and
/// `XDG_DATA_DIRS` come in that order, among the latter those of
/// `XDG_DATA_HOME` before those of `XDG_DATA_DIRS`; and within one directory
/// the desktop-specific names come before the generic one.
pub proof fn lemma_search_order(env: XdgEnvironment)
    ensures
        ({
            let desks = desktops(env);
            let config_home = search_dirs(opt_view(env.config_home));
            let config_dirs = search_dirs(opt_view(env.config_dirs));
            let data_home = search_dirs(opt_view(env.data_home));
            let data = search_dirs(Some(env.data_dirs@));
            config_candidates_spec(env) == candidates_in(config_home, "/"@, desks)
                + candidates_in(config_dirs, "/"@, desks)
                + candidates_in(data_home, "/"@, desks)
                + candidates_in(data, "/"@, desks)
                + candidates_in(data_home, "/applications/"@, desks)
                + candidates_in(data, "/applications/"@, desks)
        }),
        forall|dir: Seq<char>, sub: Seq<char>, desks: Seq<Seq<char>>|
            #![trigger dir_candidates(dir, sub, desks)]
            {
                let c = dir_candidates(dir, sub, desks);
                &&& c.len() == desks.len() + 1
                &&& forall|i: int| 0 <= i < desks.len() ==> c[i] == dir + sub + desks[i] + "-mimeapps.list"@
                &&& c.last() == dir + sub + "mimeapps.list"@
            },
{
    let desks = desktops(env);
    let ch = search_dirs(opt_view(env.config_home));
    let cd = search_dirs(opt_view(env.config_dirs));
    let dh = search_dirs(opt_view(env.data_home));
    let dd = search_dirs(Some(env.data_dirs@));
    let root: Seq<char> = "/"@;
    let apps: Seq<char> = "/applications/"@;
    lemma_candidates_in_append(ch + cd, dh + dd, root, desks);
    lemma_candidates_in_append(ch, cd, root, desks);
    lemma_candidates_in_append(dh, dd, root, desks);
    lemma_candidates_in_append(dh, dd, apps, desks);
    assert(config_tier_dirs(env) =~= (ch + cd) + (dh + dd));
    let a = candidates_in(ch, root, desks);
    let b = candidates_in(cd, root, desks);
    let c = candidates_in(dh, root, desks);
    let d = candidates_in(dd, root, desks);
    let e = candidates_in(dh, apps, desks);
    let f = candidates_in(dd, apps, desks);
    assert((a + b) + (c + d) + (e + f) =~= a + b + c + d + e + f);
}

} // verus!
