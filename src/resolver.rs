//! The search for the default application of a MIME type, as a state
//! machine. Each state names one file-system access ([`Action`]); the caller
//! performs it and hands back what it found ([`Event`]). The machine decides
//! the order of the search, when to stop and what the result is.

use vstd::prelude::*;
use crate::descriptor::{
    child_probes, child_probes_spec, exec_binary, exec_binary_spec, probe_plan,
    probe_plan_spec, probe_views, Probe, ProbeView, dir_probes,
};
use crate::environment::{resolved, XdgEnvironment};
use crate::mimeapps::{default_app_ids, default_app_ids_spec, section_header};
use crate::search::{
    config_candidates, config_candidates_spec, config_tier_dirs, data_dirs, data_search_dirs,
    desktops,
};
use crate::text::{contains, views};

verus! {

/// Why no program was found.
#[derive(Debug, PartialEq, Eq)]
pub enum ResolveError {
    /// Nothing resolved anywhere; holds the query.
    NotFound(String),
    /// A file or directory that exists could not be read; holds its path.
    Io(String),
    /// A file did not hold valid UTF-8 text; holds its path.
    InvalidEncoding(String),
}

pub enum ErrorView {
    NotFound(Seq<char>),
    Io(Seq<char>),
    InvalidEncoding(Seq<char>),
}

impl View for ResolveError {
    type V = ErrorView;

    open spec fn view(&self) -> ErrorView {
        match self {
            ResolveError::NotFound(s) => ErrorView::NotFound(s@),
            ResolveError::Io(s) => ErrorView::Io(s@),
            ResolveError::InvalidEncoding(s) => ErrorView::InvalidEncoding(s@),
        }
    }
}

pub open spec fn result_view(r: Result<String, ResolveError>) -> Result<Seq<char>, ErrorView> {
    match r {
        Ok(s) => Ok(s@),
        Err(e) => Err(e@),
    }
}

/// What happens when a file that exists cannot be read or decoded.
#[derive(Clone, Copy, PartialEq, Eq, Structural, Debug)]
pub enum ErrorPolicy {
    /// The search stops with the error.
    FailFast,
    /// The file is skipped as if it were missing.
    BestEffort,
}

/// The file-system access that the search needs next.
#[derive(Debug, PartialEq, Eq)]
pub enum Action {
    /// Read this `mimeapps.list` candidate as text; `Missing` if it is absent.
    ReadConfig(String),
    /// Does a file exist at this path: `Found` or `Missing`.
    Probe(String),
    /// The paths of the entries of this directory (`Entries`); `Missing` if
    /// it is not a directory.
    ListDir(String),
    /// Read this application descriptor as text.
    ReadDescriptor(String),
    /// The search is over.
    Finish(Result<String, ResolveError>),
}

pub enum ActionView {
    ReadConfig(Seq<char>),
    Probe(Seq<char>),
    ListDir(Seq<char>),
    ReadDescriptor(Seq<char>),
    Finish(Result<Seq<char>, ErrorView>),
}

impl View for Action {
    type V = ActionView;

    open spec fn view(&self) -> ActionView {
        match self {
            Action::ReadConfig(p) => ActionView::ReadConfig(p@),
            Action::Probe(p) => ActionView::Probe(p@),
            Action::ListDir(p) => ActionView::ListDir(p@),
            Action::ReadDescriptor(p) => ActionView::ReadDescriptor(p@),
            Action::Finish(r) => ActionView::Finish(result_view(*r)),
        }
    }
}

/// What the caller found when it performed an [`Action`].
#[derive(Debug, PartialEq, Eq)]
pub enum Event {
    /// The file or directory does not exist.
    Missing,
    /// The file exists.
    Found,
    /// The file's text.
    Text(String),
    /// The paths of a directory's entries.
    Entries(Vec<String>),
    /// The file or directory exists but could not be read.
    Unreadable,
    /// The file's bytes are not valid UTF-8.
    NotText,
}

pub enum EventView {
    Missing,
    Found,
    Text(Seq<char>),
    Entries(Seq<Seq<char>>),
    Unreadable,
    NotText,
}

impl View for Event {
    type V = EventView;

    open spec fn view(&self) -> EventView {
        match self {
            Event::Missing => EventView::Missing,
            Event::Found => EventView::Found,
            Event::Text(t) => EventView::Text(t@),
            Event::Entries(es) => EventView::Entries(views(es@)),
            Event::Unreadable => EventView::Unreadable,
            Event::NotText => EventView::NotText,
        }
    }
}

enum Phase {
    Config { next: usize },
    Locate { config: usize, ids: Vec<String>, id: usize, probes: Vec<Probe>, pos: usize },
    Describe { config: usize, ids: Vec<String>, id: usize, path: String },
    Finished(Result<String, ResolveError>),
}

/// Where the search stands.
pub enum PhaseView {
    /// About to read candidate `next`.
    Config { next: int },
    /// Searching the descriptor of identifier `id` of `ids`, which candidate
    /// `config` listed; `probes` are the probes still to make.
    Locate { config: int, ids: Seq<Seq<char>>, id: int, probes: Seq<ProbeView> },
    /// About to read the descriptor found for identifier `id`.
    Describe { config: int, ids: Seq<Seq<char>>, id: int, path: Seq<char> },
    /// Over, with this result.
    Finished(Result<Seq<char>, ErrorView>),
}

/// The search for the program that opens one MIME type.
pub struct Resolver {
    query: String,
    configs: Vec<String>,
    dirs: Vec<String>,
    policy: ErrorPolicy,
    phase: Phase,
}

pub struct ResolverView {
    pub query: Seq<char>,
    /// The candidate `mimeapps.list` paths, in order.
    pub configs: Seq<Seq<char>>,
    /// The directories searched for descriptors, in order.
    pub dirs: Seq<Seq<char>>,
    pub fail_fast: bool,
    pub phase: PhaseView,
}

impl View for Resolver {
    type V = ResolverView;

    closed spec fn view(&self) -> ResolverView {
        ResolverView {
            query: self.query@,
            configs: views(self.configs@),
            dirs: views(self.dirs@),
            fail_fast: self.policy == ErrorPolicy::FailFast,
            phase: match self.phase {
                Phase::Config { next } => PhaseView::Config { next: next as int },
                Phase::Locate { config, ids, id, probes, pos } => PhaseView::Locate {
                    config: config as int,
                    ids: views(ids@),
                    id: id as int,
                    probes: probe_views(probes@).skip(pos as int),
                },
                Phase::Describe { config, ids, id, path } => PhaseView::Describe {
                    config: config as int,
                    ids: views(ids@),
                    id: id as int,
                    path: path@,
                },
                Phase::Finished(r) => PhaseView::Finished(result_view(r)),
            },
        }
    }
}

/// A state in which the next action is defined.
pub open spec fn well_formed(s: ResolverView) -> bool {
    match s.phase {
        PhaseView::Config { next } => 0 <= next < s.configs.len(),
        PhaseView::Locate { config, ids, id, probes } => 0 <= config < s.configs.len() && 0 <= id
            < ids.len() && probes.len() > 0,
        PhaseView::Describe { config, ids, id, path } => 0 <= config < s.configs.len() && 0 <= id
            < ids.len(),
        PhaseView::Finished(_) => true,
    }
}

/// Candidate `i` if there is one, else the end of the search: not found.
pub open spec fn enter_config(s: ResolverView, i: int) -> PhaseView {
    if 0 <= i < s.configs.len() {
        PhaseView::Config { next: i }
    } else {
        PhaseView::Finished(Err(ErrorView::NotFound(s.query)))
    }
}

/// Identifier `j` of `ids` if there is one (and a directory to search it
/// in), else the candidate after `config`.
pub open spec fn select_id(s: ResolverView, config: int, ids: Seq<Seq<char>>, j: int) -> PhaseView {
    if 0 <= j < ids.len() && s.dirs.len() > 0 {
        PhaseView::Locate { config, ids, id: j, probes: probe_plan_spec(s.dirs, ids[j]) }
    } else {
        enter_config(s, config + 1)
    }
}

/// The remaining probes if any, else the next identifier.
pub open spec fn after_probe(
    s: ResolverView,
    config: int,
    ids: Seq<Seq<char>>,
    id: int,
    rest: Seq<ProbeView>,
) -> PhaseView {
    if rest.len() > 0 {
        PhaseView::Locate { config, ids, id, probes: rest }
    } else {
        select_id(s, config, ids, id + 1)
    }
}

/// A failed read: stop with `err` under fail-fast, else go on as `skip`.
pub open spec fn failure(s: ResolverView, err: ErrorView, skip: PhaseView) -> PhaseView {
    if s.fail_fast {
        PhaseView::Finished(Err(err))
    } else {
        skip
    }
}

/// The action that a state asks for.
pub open spec fn action_of(s: ResolverView) -> ActionView {
    match s.phase {
        PhaseView::Config { next } => ActionView::ReadConfig(s.configs[next]),
        PhaseView::Locate { probes, .. } => match probes[0] {
            ProbeView::Exists(p) => ActionView::Probe(p),
            ProbeView::Children(d) => ActionView::ListDir(d),
        },
        PhaseView::Describe { path, .. } => ActionView::ReadDescriptor(path),
        PhaseView::Finished(r) => ActionView::Finish(r),
    }
}

/// The next phase, given what the pending action found. An event that does
/// not answer the pending action leaves the phase as it is.
pub open spec fn transition(s: ResolverView, e: EventView) -> PhaseView {
    match s.phase {
        PhaseView::Config { next } => match e {
            EventView::Text(t) => match default_app_ids_spec(t, s.query) {
                Some(ids) => select_id(s, next, ids, 0),
                None => enter_config(s, next + 1),
            },
            EventView::Missing => enter_config(s, next + 1),
            EventView::Unreadable => failure(
                s,
                ErrorView::Io(s.configs[next]),
                enter_config(s, next + 1),
            ),
            EventView::NotText => failure(
                s,
                ErrorView::InvalidEncoding(s.configs[next]),
                enter_config(s, next + 1),
            ),
            _ => s.phase,
        },
        PhaseView::Locate { config, ids, id, probes } => match probes[0] {
            ProbeView::Exists(p) => match e {
                EventView::Found => PhaseView::Describe { config, ids, id, path: p },
                EventView::Missing => after_probe(s, config, ids, id, probes.drop_first()),
                _ => s.phase,
            },
            ProbeView::Children(d) => match e {
                EventView::Entries(es) => after_probe(
                    s,
                    config,
                    ids,
                    id,
                    child_probes_spec(es, ids[id]) + probes.drop_first(),
                ),
                EventView::Missing => after_probe(s, config, ids, id, probes.drop_first()),
                EventView::Unreadable => failure(
                    s,
                    ErrorView::Io(d),
                    after_probe(s, config, ids, id, probes.drop_first()),
                ),
                _ => s.phase,
            },
        },
        PhaseView::Describe { config, ids, id, path } => match e {
            EventView::Text(t) => match exec_binary_spec(t) {
                Some(b) => PhaseView::Finished(Ok(b)),
                None => select_id(s, config, ids, id + 1),
            },
            EventView::Missing => select_id(s, config, ids, id + 1),
            EventView::Unreadable => failure(
                s,
                ErrorView::Io(path),
                select_id(s, config, ids, id + 1),
            ),
            EventView::NotText => failure(
                s,
                ErrorView::InvalidEncoding(path),
                select_id(s, config, ids, id + 1),
            ),
            _ => s.phase,
        },
        PhaseView::Finished(_) => s.phase,
    }
}

/// `s` once `e` has been handed to it.
pub open spec fn after(s: ResolverView, e: EventView) -> ResolverView {
    ResolverView { phase: transition(s, e), ..s }
}

/// The state in which the search for `query` starts.
pub open spec fn initial(query: Seq<char>, env: XdgEnvironment, policy: ErrorPolicy) -> ResolverView {
    let s = ResolverView {
        query,
        configs: config_candidates_spec(env),
        dirs: data_dirs(env),
        fail_fast: policy == ErrorPolicy::FailFast,
        phase: PhaseView::Config { next: 0 },
    };
    ResolverView { phase: enter_config(s, 0), ..s }
}

impl Resolver {
    /// The state is one in which the next action is defined.
    pub closed spec fn wf(&self) -> bool {
        &&& well_formed(self@)
        &&& match self.phase {
            Phase::Locate { probes, pos, .. } => pos < probes@.len(),
            _ => true,
        }
    }

    /// The search for `query` in the environment `env`.
    pub fn new(query: &str, env: &XdgEnvironment, policy: ErrorPolicy) -> (r: Resolver)
        ensures
            r.wf(),
            r@ == initial(query@, *env, policy),
    {
        let mut r = Resolver {
            query: query.to_owned(),
            configs: config_candidates(env),
            dirs: data_search_dirs(env),
            policy,
            phase: Phase::Config { next: 0 },
        };
        r.phase = r.enter_config(0);
        r
    }

    fn enter_config(&self, i: usize) -> (p: Phase)
        ensures
            (Resolver { phase: p, ..*self }).wf(),
            (Resolver { phase: p, ..*self })@.phase == enter_config(self@, i as int),
    {
        if i < self.configs.len() {
            Phase::Config { next: i }
        } else {
            Phase::Finished(Err(ResolveError::NotFound(self.query.clone())))
        }
    }

    fn select_id(&self, config: usize, ids: Vec<String>, j: usize) -> (p: Phase)
        requires
            config < self.configs@.len(),
        ensures
            (Resolver { phase: p, ..*self }).wf(),
            (Resolver { phase: p, ..*self })@.phase == select_id(self@, config as int, views(ids@), j as int),
    {
        if j < ids.len() && self.dirs.len() > 0 {
            let probes = probe_plan(&self.dirs, ids[j].as_str());
            proof {
                lemma_plan_nonempty(views(self.dirs@), ids@[j as int]@);
                assert(probe_views(probes@).skip(0) =~= probe_views(probes@));
            }
            Phase::Locate { config, ids, id: j, probes, pos: 0 }
        } else {
            let n = self.configs.len();
            proof {
                assert(config + 1 <= n);
            }
            self.enter_config(config + 1)
        }
    }

    fn after_probe(&self, config: usize, ids: Vec<String>, id: usize, probes: Vec<Probe>, pos: usize) -> (p: Phase)
        requires
            config < self.configs@.len(),
            id < ids@.len(),
            pos <= probes@.len(),
        ensures
            (Resolver { phase: p, ..*self }).wf(),
            (Resolver { phase: p, ..*self })@.phase == after_probe(
                self@,
                config as int,
                views(ids@),
                id as int,
                probe_views(probes@).skip(pos as int),
            ),
    {
        if pos < probes.len() {
            Phase::Locate { config, ids, id, probes, pos }
        } else {
            let n = ids.len();
            proof {
                assert(id + 1 <= n);
            }
            self.select_id(config, ids, id + 1)
        }
    }

    fn failure(&self, err: ResolveError, skip: Phase) -> (p: Phase)
        requires
            (Resolver { phase: skip, ..*self }).wf(),
        ensures
            (Resolver { phase: p, ..*self }).wf(),
            (Resolver { phase: p, ..*self })@.phase == failure(
                self@,
                err@,
                (Resolver { phase: skip, ..*self })@.phase,
            ),
    {
        match self.policy {
            ErrorPolicy::FailFast => Phase::Finished(Err(err)),
            ErrorPolicy::BestEffort => skip,
        }
    }
}

fn copy_error(e: &ResolveError) -> (r: ResolveError)
    ensures
        r@ == e@,
{
    match e {
        ResolveError::NotFound(s) => ResolveError::NotFound(s.clone()),
        ResolveError::Io(s) => ResolveError::Io(s.clone()),
        ResolveError::InvalidEncoding(s) => ResolveError::InvalidEncoding(s.clone()),
    }
}

fn copy_probe(p: &Probe) -> (r: Probe)
    ensures
        r@ == p@,
{
    match p {
        Probe::Exists(s) => Probe::Exists(s.clone()),
        Probe::Children(s) => Probe::Children(s.clone()),
    }
}

/// `front` followed by `v[from..]`.
fn append_from(front: Vec<Probe>, v: &Vec<Probe>, from: usize) -> (r: Vec<Probe>)
    requires
        from <= v@.len(),
    ensures
        probe_views(r@) == probe_views(front@) + probe_views(v@).skip(from as int),
{
    let mut r = front;
    let ghost start = probe_views(r@);
    let mut k = from;
    while k < v.len()
        invariant
            from <= k <= v@.len(),
            probe_views(r@) == start + probe_views(v@).subrange(from as int, k as int),
        decreases v@.len() - k,
    {
        let ghost prev = r@;
        let x = copy_probe(&v[k]);
        r.push(x);
        proof {
            assert(probe_views(r@) =~= probe_views(prev) + seq![x@]);
            assert(probe_views(v@).subrange(from as int, k + 1) =~= probe_views(v@).subrange(
                from as int,
                k as int,
            ) + seq![v@[k as int]@]);
        }
        k = k + 1;
    }
    proof {
        assert(probe_views(v@).subrange(from as int, v@.len() as int) =~= probe_views(v@).skip(from as int));
    }
    r
}

impl Resolver {
    /// The access that the search needs next; `Finish` once it is over.
    pub fn next_action(&self) -> (a: Action)
        requires
            self.wf(),
        ensures
            a@ == action_of(self@),
    {
        match &self.phase {
            Phase::Config { next } => Action::ReadConfig(self.configs[*next].clone()),
            Phase::Locate { probes, pos, .. } => {
                proof {
                    assert(probe_views(probes@).skip(*pos as int)[0] == probes@[*pos as int]@);
                }
                match &probes[*pos] {
                    Probe::Exists(p) => Action::Probe(p.clone()),
                    Probe::Children(d) => Action::ListDir(d.clone()),
                }
            },
            Phase::Describe { path, .. } => Action::ReadDescriptor(path.clone()),
            Phase::Finished(r) => Action::Finish(
                match r {
                    Ok(b) => Ok(b.clone()),
                    Err(e) => Err(copy_error(e)),
                },
            ),
        }
    }

    /// The search is over.
    pub fn is_finished(&self) -> (r: bool)
        ensures
            r == (self@.phase is Finished),
    {
        match &self.phase {
            Phase::Finished(_) => true,
            _ => false,
        }
    }

    /// Hands the search what the pending action found.
    pub fn step(&mut self, event: Event)
        requires
            old(self).wf(),
        ensures
            final(self).wf(),
            final(self)@ == after(old(self)@, event@),
    {
        let ghost s0 = self@;
        let mut phase = Phase::Config { next: 0 };
        std::mem::swap(&mut self.phase, &mut phase);
        let next = match phase {
            Phase::Config { next } => {
                let n = self.configs.len();
                proof {
                    assert(next + 1 <= n);
                }
                match event {
                    Event::Text(t) => match default_app_ids(t.as_str(), self.query.as_str()) {
                        Some(ids) => self.select_id(next, ids, 0),
                        None => self.enter_config(next + 1),
                    },
                    Event::Missing => self.enter_config(next + 1),
                    Event::Unreadable => {
                        let skip = self.enter_config(next + 1);
                        self.failure(ResolveError::Io(self.configs[next].clone()), skip)
                    },
                    Event::NotText => {
                        let skip = self.enter_config(next + 1);
                        self.failure(ResolveError::InvalidEncoding(self.configs[next].clone()), skip)
                    },
                    _ => Phase::Config { next },
                }
            },
            Phase::Locate { config, ids, id, probes, pos } => {
                let np = probes.len();
                proof {
                    assert(pos + 1 <= np);
                }
                let is_exists = match &probes[pos] {
                    Probe::Exists(_) => true,
                    Probe::Children(_) => false,
                };
                let head = match &probes[pos] {
                    Probe::Exists(p) => p.clone(),
                    Probe::Children(d) => d.clone(),
                };
                proof {
                    assert(probe_views(probes@).skip(pos as int)[0] == probes@[pos as int]@);
                    assert(probe_views(probes@).skip(pos as int).drop_first() =~= probe_views(
                        probes@,
                    ).skip(pos + 1));
                }
                if is_exists {
                    match event {
                        Event::Found => Phase::Describe { config, ids, id, path: head },
                        Event::Missing => self.after_probe(config, ids, id, probes, pos + 1),
                        _ => Phase::Locate { config, ids, id, probes, pos },
                    }
                } else {
                    match event {
                        Event::Entries(es) => {
                            let front = child_probes(&es, ids[id].as_str());
                            let rest = append_from(front, &probes, pos + 1);
                            proof {
                                assert(probe_views(rest@).skip(0) =~= probe_views(rest@));
                            }
                            self.after_probe(config, ids, id, rest, 0)
                        },
                        Event::Missing => self.after_probe(config, ids, id, probes, pos + 1),
                        Event::Unreadable => {
                            let skip = self.after_probe(config, ids, id, probes, pos + 1);
                            self.failure(ResolveError::Io(head), skip)
                        },
                        _ => Phase::Locate { config, ids, id, probes, pos },
                    }
                }
            },
            Phase::Describe { config, ids, id, path } => {
                let n = ids.len();
                proof {
                    assert(id + 1 <= n);
                }
                match event {
                    Event::Text(t) => match exec_binary(t.as_str()) {
                        Some(b) => Phase::Finished(Ok(b)),
                        None => self.select_id(config, ids, id + 1),
                    },
                    Event::Missing => self.select_id(config, ids, id + 1),
                    Event::Unreadable => {
                        let skip = self.select_id(config, ids, id + 1);
                        self.failure(ResolveError::Io(path), skip)
                    },
                    Event::NotText => {
                        let skip = self.select_id(config, ids, id + 1);
                        self.failure(ResolveError::InvalidEncoding(path), skip)
                    },
                    _ => Phase::Describe { config, ids, id, path },
                }
            },
            Phase::Finished(r) => Phase::Finished(r),
        };
        self.phase = next;
    }
}

/// The state after the events `events`, handed in order.
pub open spec fn run(s: ResolverView, events: Seq<EventView>) -> ResolverView
    decreases events.len(),
{
    if events.len() == 0 {
        s
    } else {
        run(after(s, events[0]), events.drop_first())
    }
}

/// The event is no text that holds the `[Default Applications]` header.
pub open spec fn lacks_section(e: EventView) -> bool {
    match e {
        EventView::Text(t) => !contains(t, section_header()),
        _ => true,
    }
}

/// Still reading candidates, or over without a program (and, under best
/// effort, with `NotFound`).
pub open spec fn nothing_found(s: ResolverView) -> bool {
    match s.phase {
        PhaseView::Config { .. } => true,
        PhaseView::Finished(Err(e)) => !s.fail_fast ==> e == ErrorView::NotFound(s.query),
        _ => false,
    }
}

proof fn lemma_nothing_found_run(s: ResolverView, events: Seq<EventView>)
    requires
        nothing_found(s),
        forall|i: int| 0 <= i < events.len() ==> lacks_section(#[trigger] events[i]),
    ensures
        nothing_found(run(s, events)),
        run(s, events).query == s.query,
        run(s, events).fail_fast == s.fail_fast,
    decreases events.len(),
{
    if events.len() > 0 {
        let e = events[0];
        assert(lacks_section(events[0]));
        if let EventView::Text(t) = e {
            if let PhaseView::Config { .. } = s.phase {
                assert(default_app_ids_spec(t, s.query) is None);
            }
        }
        let rest = events.drop_first();
        assert forall|i: int| 0 <= i < rest.len() implies lacks_section(#[trigger] rest[i]) by {
            assert(rest[i] == events[i + 1]);
        }
        lemma_nothing_found_run(after(s, e), rest);
    }
}

/// When no file that is read holds a `[Default Applications]` section, the
/// search never ends with a program: it ends, if at all, with an error, and
/// under best effort with `NotFound` for the query.
pub proof fn lemma_no_section_not_found(
    query: Seq<char>,
    env: XdgEnvironment,
    policy: ErrorPolicy,
    events: Seq<EventView>,
)
    requires
        forall|i: int| 0 <= i < events.len() ==> lacks_section(#[trigger] events[i]),
    ensures
        !(run(initial(query, env, policy), events).phase is Finished
            && run(initial(query, env, policy), events).phase->Finished_0 is Ok),
        policy == ErrorPolicy::BestEffort && run(initial(query, env, policy), events).phase is Finished
            ==> run(initial(query, env, policy), events).phase == PhaseView::Finished(
            Err(ErrorView::NotFound(query)),
        ),
{
    lemma_nothing_found_run(initial(query, env, policy), events);
}

/// Two searches for one query, in environments resolved from one snapshot,
/// handed the same events, are in the same state and ask for the same
/// action: nothing but the query, the snapshot and the events decides.
pub proof fn lemma_repeatable(
    query: Seq<char>,
    vars: Seq<(String, String)>,
    env1: XdgEnvironment,
    env2: XdgEnvironment,
    policy: ErrorPolicy,
    events: Seq<EventView>,
)
    requires
        resolved(vars, env1),
        resolved(vars, env2),
    ensures
        run(initial(query, env1, policy), events) == run(initial(query, env2, policy), events),
        action_of(run(initial(query, env1, policy), events)) == action_of(
            run(initial(query, env2, policy), events),
        ),
{
    assert(desktops(env1) == desktops(env2));
    assert(data_dirs(env1) == data_dirs(env2));
    assert(config_tier_dirs(env1) == config_tier_dirs(env2));
    assert(config_candidates_spec(env1) == config_candidates_spec(env2));
    assert(initial(query, env1, policy) == initial(query, env2, policy));
}

proof fn lemma_plan_nonempty(dirs: Seq<Seq<char>>, id: Seq<char>)
    requires
        dirs.len() > 0,
    ensures
        probe_plan_spec(dirs, id).len() > 0,
{
    assert(dir_probes(dirs.last(), id).len() >= 4);
}

} // verus!
