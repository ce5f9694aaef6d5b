//! Application descriptors: where one is searched for, and the program that
//! its `Exec` line runs.

use vstd::prelude::*;
use crate::environment::opt_view;
use crate::search::join3;
use crate::text::{
    copy_range, find_char, index_of, is_whitespace, is_ws, skip_ws, starts_with,
    string_of, to_chars, views,
};

verus! {

/// End of the token of `s` that starts at `i`: the first whitespace at or
/// after `i`, or `s.len()`.
pub open spec fn token_end(s: Seq<char>, i: int) -> int
    decreases s.len() - i,
{
    if 0 <= i < s.len() && !is_ws(s[i]) {
        token_end(s, i + 1)
    } else {
        i
    }
}

/// The first whitespace-delimited token of `s`, if it has one.
pub open spec fn first_token(s: Seq<char>) -> Option<Seq<char>> {
    let a = skip_ws(s, 0);
    if a < s.len() {
        Some(s.subrange(a, token_end(s, a)))
    } else {
        None
    }
}

/// Bounds `(start, end)` of the first line, from the line starting at `i`
/// on, that begins with `Exec`.
pub open spec fn exec_line_from(text: Seq<char>, i: int) -> Option<(int, int)>
    decreases text.len() + 1 - i,
{
    if i < 0 || i > text.len() {
        None
    } else {
        let end = match index_of(text, '\n', i) {
            Some(e) => e,
            None => text.len() as int,
        };
        if starts_with(text.subrange(i, end), "Exec"@) {
            Some((i, end))
        } else if i <= end < text.len() {
            exec_line_from(text, end + 1)
        } else {
            None
        }
    }
}

/// The program of a descriptor text: on its first line that begins with
/// `Exec`, the first whitespace-delimited token after the first `=`.
pub open spec fn exec_binary_spec(text: Seq<char>) -> Option<Seq<char>> {
    match exec_line_from(text, 0) {
        Some((a, e)) => match index_of(text, '=', a) {
            Some(k) => if k < e {
                first_token(text.subrange(k + 1, e))
            } else {
                None
            },
            None => None,
        },
        None => None,
    }
}

fn begins_with_exec(t: &Vec<char>, a: usize, e: usize) -> (r: bool)
    requires
        a <= e <= t@.len(),
    ensures
        r == starts_with(t@.subrange(a as int, e as int), "Exec"@),
{
    let word = to_chars("Exec");
    if e - a < word.len() {
        return false;
    }
    let mut j: usize = 0;
    while j < word.len()
        invariant
            j <= word@.len(),
            word@ == "Exec"@,
            a + word@.len() <= e <= t@.len(),
            forall|m: int| 0 <= m < j ==> t@[a + m] == word@[m],
        decreases word@.len() - j,
    {
        if t[a + j] != word[j] {
            assert(t@.subrange(a as int, e as int).take(word@.len() as int)[j as int] == t@[a + j]);
            return false;
        }
        j = j + 1;
    }
    assert(t@.subrange(a as int, e as int).take(word@.len() as int) =~= word@);
    true
}

/// The program that a descriptor text runs, if its `Exec` line names one.
pub fn exec_binary(contents: &str) -> (r: Option<String>)
    ensures
        opt_view(r) == exec_binary_spec(contents@),
{
    let t = to_chars(contents);
    let mut start: usize = 0;
    loop
        invariant
            start <= t@.len(),
            t@ == contents@,
            exec_line_from(t@, start as int) == exec_line_from(t@, 0),
        decreases t@.len() - start,
    {
        let end = match find_char(&t, '\n', start) {
            Some(e) => e,
            None => t.len(),
        };
        if begins_with_exec(&t, start, end) {
            let k = match find_char(&t, '=', start) {
                Some(k) => k,
                None => return None,
            };
            if k >= end {
                return None;
            }
            let value = copy_range(&t, k + 1, end);
            return first_token_of(&value);
        }
        if end >= t.len() {
            return None;
        }
        start = end + 1;
    }
}

fn first_token_of(s: &Vec<char>) -> (r: Option<String>)
    ensures
        opt_view(r) == first_token(s@),
{
    let mut a: usize = 0;
    while a < s.len() && is_whitespace(s[a])
        invariant
            a <= s@.len(),
            skip_ws(s@, 0) == skip_ws(s@, a as int),
        decreases s@.len() - a,
    {
        a = a + 1;
    }
    if a == s.len() {
        return None;
    }
    let mut b = a;
    while b < s.len() && !is_whitespace(s[b])
        invariant
            a <= b <= s@.len(),
            token_end(s@, a as int) == token_end(s@, b as int),
        decreases s@.len() - b,
    {
        b = b + 1;
    }
    Some(string_of(s, a, b))
}

/// One step of the descriptor search.
#[derive(Debug, PartialEq, Eq)]
pub enum Probe {
    /// Is there a file at this path?
    Exists(String),
    /// The entries of this directory, if it is one; each entry's path is
    /// then tried with the identifier appended.
    Children(String),
}

/// A probe with its path as a character sequence.
pub enum ProbeView {
    Exists(Seq<char>),
    Children(Seq<char>),
}

impl View for Probe {
    type V = ProbeView;

    open spec fn view(&self) -> ProbeView {
        match self {
            Probe::Exists(p) => ProbeView::Exists(p@),
            Probe::Children(p) => ProbeView::Children(p@),
        }
    }
}

pub open spec fn probe_views(v: Seq<Probe>) -> Seq<ProbeView> {
    v.map_values(|p: Probe| p@)
}

/// An identifier that holds a `-` split at the first one into vendor and
/// application name (the rest, further dashes included).
pub open spec fn vendor_split(id: Seq<char>) -> Option<(Seq<char>, Seq<char>)> {
    match index_of(id, '-', 0) {
        Some(k) => Some((id.take(k), id.skip(k + 1))),
        None => None,
    }
}

/// The probes for identifier `id` in data directory `dir`: the vendor paths
/// `{dir}/applications/{vendor}/{app}` and `{dir}/applnk/{vendor}/{app}` when
/// `id` holds a `-`; then for `applications` and `applnk` in turn, the file
/// `{dir}/{sub}/{id}` and then `{child}/{id}` for each entry of
/// `{dir}/{sub}`.
pub open spec fn dir_probes(dir: Seq<char>, id: Seq<char>) -> Seq<ProbeView> {
    let vendor = match vendor_split(id) {
        Some((v, a)) => seq![
            ProbeView::Exists(dir + "/applications/"@ + v + "/"@ + a),
            ProbeView::Exists(dir + "/applnk/"@ + v + "/"@ + a),
        ],
        None => seq![],
    };
    vendor + seq![
        ProbeView::Exists(dir + "/applications/"@ + id),
        ProbeView::Children(dir + "/applications"@),
        ProbeView::Exists(dir + "/applnk/"@ + id),
        ProbeView::Children(dir + "/applnk"@),
    ]
}

/// The probes for `id` over the data directories, directory by directory.
pub open spec fn probe_plan_spec(dirs: Seq<Seq<char>>, id: Seq<char>) -> Seq<ProbeView>
    decreases dirs.len(),
{
    if dirs.len() == 0 {
        seq![]
    } else {
        probe_plan_spec(dirs.drop_last(), id) + dir_probes(dirs.last(), id)
    }
}

/// The probes for `{entry}/{id}`, for each directory entry in order.
pub open spec fn child_probes_spec(entries: Seq<Seq<char>>, id: Seq<char>) -> Seq<ProbeView> {
    entries.map_values(|e: Seq<char>| ProbeView::Exists(e + "/"@ + id))
}

proof fn lemma_probe_push(v: Seq<Probe>, x: Probe)
    ensures
        probe_views(v.push(x)) == probe_views(v) + seq![x@],
{
    assert(probe_views(v.push(x)) =~= probe_views(v) + seq![x@]);
}

fn push_probe(out: &mut Vec<Probe>, x: Probe)
    ensures
        probe_views(final(out)@) == probe_views(old(out)@) + seq![x@],
{
    let ghost prev = out@;
    let ghost xv = x@;
    out.push(x);
    proof {
        lemma_probe_push(prev, x);
    }
}

/// Every probe for the identifier `id` over the directories `dirs`, in the
/// order in which they are made.
pub fn probe_plan(dirs: &Vec<String>, id: &str) -> (r: Vec<Probe>)
    ensures
        probe_views(r@) == probe_plan_spec(views(dirs@), id@),
{
    let cs = to_chars(id);
    let n = cs.len();
    let dash = find_char(&cs, '-', 0);
    let mut out: Vec<Probe> = Vec::new();
    let mut i: usize = 0;
    while i < dirs.len()
        invariant
            i <= dirs@.len(),
            cs@ == id@,
            n == cs@.len(),
            match dash {
                Some(k) => index_of(id@, '-', 0) == Some(k as int) && k < id@.len(),
                None => index_of(id@, '-', 0) is None,
            },
            probe_views(out@) == probe_plan_spec(views(dirs@).take(i as int), id@),
        decreases dirs@.len() - i,
    {
        let dir = dirs[i].as_str();
        let ghost before = probe_views(out@);
        let ghost vendor: Seq<ProbeView> = seq![];
        if let Some(k) = dash {
            let vendor_name = string_of(&cs, 0, k);
            let app = string_of(&cs, k + 1, n);
            let mut p = join3(dir, "/applications/", vendor_name.as_str());
            p.append("/");
            p.append(app.as_str());
            push_probe(&mut out, Probe::Exists(p));
            let mut q = join3(dir, "/applnk/", vendor_name.as_str());
            q.append("/");
            q.append(app.as_str());
            push_probe(&mut out, Probe::Exists(q));
            proof {
                vendor = seq![ProbeView::Exists(p@), ProbeView::Exists(q@)];
                assert(id@.take(k as int) == vendor_name@);
                assert(id@.skip(k + 1) =~= app@);
                assert(probe_views(out@) =~= before + vendor);
            }
        } else {
            assert(probe_views(out@) =~= before + vendor);
        }
        let a = join3(dir, "/applications/", id);
        push_probe(&mut out, Probe::Exists(a));
        let b = join3(dir, "/applications", "");
        push_probe(&mut out, Probe::Children(b));
        let c = join3(dir, "/applnk/", id);
        push_probe(&mut out, Probe::Exists(c));
        let d = join3(dir, "/applnk", "");
        push_probe(&mut out, Probe::Children(d));
        proof {
            reveal_strlit("");
            assert(b@ =~= dir@ + "/applications"@);
            assert(d@ =~= dir@ + "/applnk"@);
            assert(views(dirs@).take(i + 1).drop_last() =~= views(dirs@).take(i as int));
            assert(views(dirs@).take(i + 1).last() == dir@);
            assert(probe_views(out@) =~= before + dir_probes(dir@, id@));
        }
        i = i + 1;
    }
    proof {
        assert(views(dirs@).take(dirs@.len() as int) =~= views(dirs@));
    }
    out
}

/// The probes for `{entry}/{id}`, for each directory entry in order.
pub fn child_probes(entries: &Vec<String>, id: &str) -> (r: Vec<Probe>)
    ensures
        probe_views(r@) == child_probes_spec(views(entries@), id@),
{
    let mut out: Vec<Probe> = Vec::new();
    let mut i: usize = 0;
    while i < entries.len()
        invariant
            i <= entries@.len(),
            probe_views(out@) == child_probes_spec(views(entries@).take(i as int), id@),
        decreases entries@.len() - i,
    {
        let p = join3(entries[i].as_str(), "/", id);
        push_probe(&mut out, Probe::Exists(p));
        proof {
            assert(child_probes_spec(views(entries@).take(i + 1), id@) =~= child_probes_spec(
                views(entries@).take(i as int),
                id@,
            ) + seq![ProbeView::Exists(p@)]);
        }
        i = i + 1;
    }
    proof {
        assert(views(entries@).take(entries@.len() as int) =~= views(entries@));
    }
    out
}

} // verus!
