//! The per-project build loop, as a state machine.
//!
//! The loop waits for a trigger, announces a build with `Started`, hands the
//! build to the executor, and announces its outcome with `Completed` or
//! `Failure`. The waiting, the build itself and the filesystem work are done by
//! the caller, which feeds each outcome back into the state machine.

use vstd::prelude::*;
use vstd::string::StringExecFns;
use crate::error::{actionable, BuildError};
use crate::pathreduction::{contains_path, reduce_paths, reduced};

verus! {

/// The build expression file that identifies a project.
#[derive(Debug)]
pub struct NixFile {
    pub path: String,
}

impl NixFile {
    pub fn new(path: String) -> (r: NixFile)
        ensures
            r.path == path,
    {
        NixFile { path }
    }

    /// A copy of this file name.
    pub fn duplicate(&self) -> (r: NixFile)
        ensures
            r == *self,
    {
        NixFile { path: self.path.clone() }
    }
}

/// A registered project: its expression file and the directory that holds
/// its garbage-collection roots.
#[derive(Debug)]
pub struct Project {
    pub nix_file: NixFile,
    pub gc_root_dir: String,
}

impl Project {
    pub fn new(nix_file: NixFile, gc_root_dir: String) -> (r: Project)
        ensures
            r.nix_file == nix_file,
            r.gc_root_dir == gc_root_dir,
    {
        Project { nix_file, gc_root_dir }
    }
}

/// Why a build was started.
#[derive(Debug)]
pub enum Reason {
    /// The project was just registered.
    ProjectAdded(NixFile),
    /// A ping arrived and the project's root had gone missing.
    PingReceived,
    /// Watched files changed.
    FilesChanged(Vec<String>),
    /// The watcher reported a change without naming a path.
    UnknownEvent(String),
}

/// What the watcher can report instead of a reason.
#[derive(Debug)]
pub enum EventError {
    /// A change notification that names no path; carries a description of it.
    EventHasNoFilePath(String),
    /// The notification channel is closed: the watcher has died.
    RxNoEventReceived,
}

/// A persistent reference that keeps a build output alive.
#[derive(Debug)]
pub struct RootPath {
    /// Where the reference lives.
    pub link: String,
    /// The build output it points to.
    pub target: String,
}

/// The outputs of a build, each with its root.
#[derive(Debug)]
pub struct OutputPaths {
    pub shell_gc_root: RootPath,
}

impl OutputPaths {
    /// A copy of these outputs.
    pub fn duplicate(&self) -> (r: OutputPaths)
        ensures
            r == *self,
    {
        OutputPaths {
            shell_gc_root: RootPath {
                link: self.shell_gc_root.link.clone(),
                target: self.shell_gc_root.target.clone(),
            },
        }
    }
}

/// Results of a single, successful build.
#[derive(Debug)]
pub struct BuildResults {
    pub output_paths: OutputPaths,
}

/// What the build executor reports for a build that produced an output.
#[derive(Debug)]
pub struct RunResult {
    /// Source paths that the evaluation read.
    pub referenced_paths: Vec<String>,
    /// The built output.
    pub result: String,
}

/// Events of the build loops.
#[derive(Debug)]
pub enum Event {
    /// Marks where a stream of recorded events turns live.
    SectionEnd,
    /// A build has started.
    Started { nix_file: NixFile, reason: Reason },
    /// A build completed successfully.
    Completed { nix_file: NixFile, result: BuildResults },
    /// A build failed.
    Failure { nix_file: NixFile, failure: BuildError },
}

/// The project an event is about; `None` for `SectionEnd`.
pub open spec fn event_project(e: Event) -> Option<NixFile> {
    match e {
        Event::SectionEnd => None,
        Event::Started { nix_file, .. } => Some(nix_file),
        Event::Completed { nix_file, .. } => Some(nix_file),
        Event::Failure { nix_file, .. } => Some(nix_file),
    }
}

/// The file name under the project's root directory of the root that keeps
/// the shell environment alive.
pub open spec fn shell_root_name() -> Seq<char> {
    "/shell_gc_root"@
}

/// The outputs of a build of `build` for a project whose roots live in `dir`.
pub open spec fn rooted(dir: Seq<char>, build: Seq<char>, r: OutputPaths) -> bool {
    &&& r.shell_gc_root.link@ == dir + shell_root_name()
    &&& r.shell_gc_root.target@ == build
}

/// The state of a build loop.
pub struct LoopState {
    /// The project being built.
    pub nix_file: NixFile,
    /// The directory of the project's roots.
    pub gc_root_dir: Seq<char>,
    /// The trigger that the next build will be started for.
    pub pending: Option<Reason>,
    /// A build was started and its outcome is not in yet.
    pub building: bool,
    /// The outputs of the last successful build.
    pub output_paths: Option<OutputPaths>,
    /// The watched paths.
    pub watched: Seq<Seq<char>>,
    /// Every event emitted so far.
    pub history: Seq<Event>,
}

/// `h` alternates `Started` with one outcome, and starts with a `Started`.
pub open spec fn alternates(h: Seq<Event>) -> bool {
    forall|i: int| 0 <= i < h.len() ==> ((#[trigger] h[i] is Started) <==> i % 2 == 0)
}

/// The invariant of a build loop.
pub open spec fn loop_inv(s: LoopState) -> bool {
    &&& alternates(s.history)
    &&& (forall|i: int| 0 <= i < s.history.len() ==> !(#[trigger] s.history[i] is SectionEnd)
        && event_project(s.history[i]) == Some(s.nix_file))
    &&& s.building <==> s.history.len() % 2 == 1
    &&& s.history.len() == 0 ==> s.pending == Some(Reason::ProjectAdded(s.nix_file))
    &&& s.history.len() > 0 ==> s.history[0] == (Event::Started {
        nix_file: s.nix_file,
        reason: Reason::ProjectAdded(s.nix_file),
    })
}

/// The state right after registration.
pub open spec fn initial_state(p: Project) -> LoopState {
    LoopState {
        nix_file: p.nix_file,
        gc_root_dir: p.gc_root_dir@,
        pending: Some(Reason::ProjectAdded(p.nix_file)),
        building: false,
        output_paths: None,
        watched: seq![],
        history: seq![],
    }
}

/// Whether a build starts from state `s`.
pub open spec fn starts(s: LoopState) -> bool {
    !s.building && s.pending is Some
}

/// The event that announces the build started from `s`.
pub open spec fn start_event(s: LoopState) -> Event {
    Event::Started { nix_file: s.nix_file, reason: s.pending->Some_0 }
}

/// The state after asking to start a build.
pub open spec fn start_next(s: LoopState) -> LoopState {
    if starts(s) {
        LoopState { pending: None, building: true, history: s.history.push(start_event(s)), ..s }
    } else {
        s
    }
}

/// The event that reports the outcome of a build, if the outcome is not fatal.
pub open spec fn outcome_event(s: LoopState, res: Result<BuildResults, BuildError>) -> Option<
    Event,
> {
    match res {
        Ok(r) => Some(Event::Completed { nix_file: s.nix_file, result: r }),
        Err(e) => if actionable(e) {
            Some(Event::Failure { nix_file: s.nix_file, failure: e })
        } else {
            None
        },
    }
}

/// The state after the outcome `res` of the running build came in.
pub open spec fn finish_next(s: LoopState, res: Result<BuildResults, BuildError>) -> LoopState {
    match outcome_event(s, res) {
        Some(ev) => LoopState {
            building: false,
            output_paths: match res {
                Ok(r) => Some(r.output_paths),
                Err(_) => s.output_paths,
            },
            history: s.history.push(ev),
            ..s
        },
        None => s,
    }
}

/// The state after a trigger came in: a pending trigger is kept, for the build
/// it starts covers the later one too.
pub open spec fn trigger_next(s: LoopState, reason: Reason) -> LoopState {
    if s.pending is None {
        LoopState { pending: Some(reason), ..s }
    } else {
        s
    }
}

/// The state after a ping, where `root_exists` tells whether the root of the
/// last successful build is still there.
pub open spec fn ping_next(s: LoopState, root_exists: bool) -> LoopState {
    if s.pending is None && s.output_paths is Some && !root_exists {
        LoopState { pending: Some(Reason::PingReceived), ..s }
    } else {
        s
    }
}

/// `w` extended with the paths of `p` that it does not hold yet.
pub open spec fn add_new(w: Seq<Seq<char>>, p: Seq<Seq<char>>) -> Seq<Seq<char>>
    decreases p.len(),
{
    if p.len() == 0 {
        w
    } else {
        let w2 = add_new(w, p.drop_last());
        if w2.contains(p.last()) {
            w2
        } else {
            w2.push(p.last())
        }
    }
}

/// The reason a watcher report stands for; `None` where the watcher died.
pub open spec fn reason_of(r: Result<Reason, EventError>) -> Option<Reason> {
    match r {
        Ok(rsn) => Some(rsn),
        Err(EventError::EventHasNoFilePath(msg)) => Some(Reason::UnknownEvent(msg)),
        Err(EventError::RxNoEventReceived) => None,
    }
}

/// Turns what the watcher reported into a trigger. A change without a path is
/// still a change; a closed notification channel is fatal (`None`).
pub fn translate_reason(r: Result<Reason, EventError>) -> (out: Option<Reason>)
    ensures
        out == reason_of(r),
{
    match r {
        Ok(rsn) => Some(rsn),
        Err(EventError::EventHasNoFilePath(msg)) => Some(Reason::UnknownEvent(msg)),
        Err(EventError::RxNoEventReceived) => None,
    }
}

/// Repeatedly builds the expression of one project each time a source file
/// that influenced a previous build changes, and pins the build results.
pub struct BuildLoop {
    project: Project,
    watched: Vec<String>,
    pending: Option<Reason>,
    building: bool,
    output_paths: Option<OutputPaths>,
    history: Ghost<Seq<Event>>,
}

impl View for BuildLoop {
    type V = LoopState;

    closed spec fn view(&self) -> LoopState {
        LoopState {
            nix_file: self.project.nix_file,
            gc_root_dir: self.project.gc_root_dir@,
            pending: self.pending,
            building: self.building,
            output_paths: self.output_paths,
            watched: self.watched.deep_view(),
            history: self.history@,
        }
    }
}

impl BuildLoop {
    /// The loop is in a consistent state.
    pub open spec fn wf(&self) -> bool {
        loop_inv(self@)
    }

    /// A new loop for `project`; its first build is for the registration.
    pub fn new(project: Project) -> (r: BuildLoop)
        ensures
            r@ == initial_state(project),
            r.wf(),
    {
        let reason = Reason::ProjectAdded(project.nix_file.duplicate());
        let r = BuildLoop {
            project,
            watched: Vec::new(),
            pending: Some(reason),
            building: false,
            output_paths: None,
            history: Ghost(Seq::empty()),
        };
        assert(r@.watched =~= seq![]);
        r
    }

    /// Starts a build if one is due: returns its `Started` event.
    pub fn start(&mut self) -> (r: Option<Event>)
        requires
            old(self).wf(),
        ensures
            final(self).wf(),
            final(self)@ == start_next(old(self)@),
            r == (if starts(old(self)@) {
                Some(start_event(old(self)@))
            } else {
                None
            }),
    {
        if self.building || self.pending.is_none() {
            return None;
        }
        let reason = self.pending.take().unwrap();
        let ev = Event::Started { nix_file: self.project.nix_file.duplicate(), reason };
        self.building = true;
        self.history = Ghost(self.history@.push(ev));
        assert(self@ == start_next(old(self)@));
        proof {
            let h = self@.history;
            assert forall|i: int| 0 <= i < h.len() implies ((#[trigger] h[i] is Started) <==> i % 2
                == 0) by {
                if i < h.len() - 1 {
                    assert(h[i] == old(self)@.history[i]);
                }
            }
            assert forall|i: int| 0 <= i < h.len() implies !(#[trigger] h[i] is SectionEnd)
                && event_project(h[i]) == Some(self@.nix_file) by {
                if i < h.len() - 1 {
                    assert(h[i] == old(self)@.history[i]);
                }
            }
        }
        Some(ev)
    }

    /// Takes in the outcome of the running build. Returns the event that
    /// reports it, or the error where it is fatal (not actionable).
    pub fn finish(&mut self, res: Result<BuildResults, BuildError>) -> (r: Result<
        Event,
        BuildError,
    >)
        requires
            old(self).wf(),
            old(self)@.building,
        ensures
            final(self).wf(),
            final(self)@ == finish_next(old(self)@, res),
            r == (match outcome_event(old(self)@, res) {
                Some(ev) => Ok(ev),
                None => Err(res->Err_0),
            }),
    {
        let ev = match res {
            Ok(result) => {
                self.output_paths = Some(result.output_paths.duplicate());
                Event::Completed { nix_file: self.project.nix_file.duplicate(), result }
            },
            Err(e) => {
                if e.is_actionable() {
                    Event::Failure { nix_file: self.project.nix_file.duplicate(), failure: e }
                } else {
                    return Err(e);
                }
            },
        };
        self.building = false;
        self.history = Ghost(self.history@.push(ev));
        assert(self@ == finish_next(old(self)@, res));
        proof {
            let h = self@.history;
            assert forall|i: int| 0 <= i < h.len() implies ((#[trigger] h[i] is Started) <==> i % 2
                == 0) by {
                if i < h.len() - 1 {
                    assert(h[i] == old(self)@.history[i]);
                }
            }
            assert forall|i: int| 0 <= i < h.len() implies !(#[trigger] h[i] is SectionEnd)
                && event_project(h[i]) == Some(self@.nix_file) by {
                if i < h.len() - 1 {
                    assert(h[i] == old(self)@.history[i]);
                }
            }
        }
        Ok(ev)
    }

    /// Adds the reduced form of `paths` to the watched paths; paths already
    /// watched are not added again.
    fn register_paths(&mut self, paths: &Vec<String>)
        requires
            old(self).wf(),
        ensures
            final(self).wf(),
            final(self)@ == (LoopState {
                watched: add_new(old(self)@.watched, reduced(paths.deep_view())),
                ..old(self)@
            }),
    {
        let reduced_paths = reduce_paths(paths);
        let ghost red = reduced_paths.deep_view();
        let mut i: usize = 0;
        while i < reduced_paths.len()
            invariant
                i <= reduced_paths@.len(),
                red == reduced_paths.deep_view(),
                self@ == (LoopState { watched: add_new(old(self)@.watched, red.take(i as int)), ..old(self)@ }),
            decreases reduced_paths@.len() - i,
        {
            assert(red.take(i + 1).drop_last() =~= red.take(i as int));
            if !contains_path(&self.watched, &reduced_paths[i]) {
                self.watched.push(reduced_paths[i].clone());
            }
            i = i + 1;
            assert(self@.watched =~= add_new(old(self)@.watched, red.take(i as int)));
        }
        assert(red.take(i as int) =~= red);
    }

    /// The outputs of a build of `build`, each paired with the root that
    /// keeps it alive under the project's root directory.
    pub fn root_result(&self, build: String) -> (r: BuildResults)
        ensures
            rooted(self@.gc_root_dir, build@, r.output_paths),
    {
        let link = self.project.gc_root_dir.clone().concat("/shell_gc_root");
        proof {
            reveal_strlit("/shell_gc_root");
        }
        BuildResults { output_paths: OutputPaths { shell_gc_root: RootPath { link, target: build } } }
    }

    /// Executes the bookkeeping of a single build whose executor outcome is
    /// `run`: on success the referenced paths are watched and the output is
    /// paired with its root; an error of the executor is passed on.
    pub fn once(&mut self, run: Result<RunResult, BuildError>) -> (r: Result<
        BuildResults,
        BuildError,
    >)
        requires
            old(self).wf(),
        ensures
            final(self).wf(),
            match run {
                Ok(rr) => {
                    &&& final(self)@ == (LoopState {
                        watched: add_new(old(self)@.watched, reduced(rr.referenced_paths.deep_view())),
                        ..old(self)@
                    })
                    &&& r is Ok
                    &&& rooted(old(self)@.gc_root_dir, rr.result@, r->Ok_0.output_paths)
                },
                Err(e) => final(self)@ == old(self)@ && r == Err::<BuildResults, BuildError>(e),
            },
    {
        match run {
            Ok(rr) => {
                self.register_paths(&rr.referenced_paths);
                Ok(self.root_result(rr.result))
            },
            Err(e) => Err(e),
        }
    }

    /// Takes in a trigger from the watcher.
    pub fn trigger(&mut self, reason: Reason)
        requires
            old(self).wf(),
        ensures
            final(self).wf(),
            final(self)@ == trigger_next(old(self)@, reason),
    {
        if self.pending.is_none() {
            self.pending = Some(reason);
        }
    }

    /// Takes in a ping; `root_exists` tells whether the root of the last
    /// successful build is still on disk. A missing root makes a rebuild due.
    pub fn ping(&mut self, root_exists: bool)
        requires
            old(self).wf(),
        ensures
            final(self).wf(),
            final(self)@ == ping_next(old(self)@, root_exists),
    {
        if self.pending.is_none() && self.output_paths.is_some() && !root_exists {
            self.pending = Some(Reason::PingReceived);
        }
    }

    /// The project being built.
    pub fn project(&self) -> (r: &Project)
        ensures
            r.nix_file == self@.nix_file,
            r.gc_root_dir@ == self@.gc_root_dir,
    {
        &self.project
    }

    /// The watched paths.
    pub fn watched(&self) -> (r: &Vec<String>)
        ensures
            r.deep_view() == self@.watched,
    {
        &self.watched
    }

    /// The outputs of the last successful build.
    pub fn output_paths(&self) -> (r: &Option<OutputPaths>)
        ensures
            *r == self@.output_paths,
    {
        &self.output_paths
    }

    /// Whether a build was started and its outcome is not in yet.
    pub fn is_building(&self) -> (r: bool)
        ensures
            r == self@.building,
    {
        self.building
    }
}

/// Whatever triggers, pings and build outcomes a loop is fed, its events
/// alternate: each `Started` is followed by exactly one `Completed` or
/// `Failure` before the next `Started`. The invariant holds of a new loop,
/// every step keeps it, a step emits at most one event, and it orders the
/// emitted events so.
pub proof fn events_alternate(p: Project, s: LoopState, reason: Reason, root_exists: bool, res: Result<BuildResults, BuildError>)
    requires
        loop_inv(s),
    ensures
        loop_inv(initial_state(p)),
        loop_inv(start_next(s)),
        loop_inv(trigger_next(s, reason)),
        loop_inv(ping_next(s, root_exists)),
        s.building ==> loop_inv(finish_next(s, res)),
        start_next(s).history == s.history || start_next(s).history == s.history.push(start_event(s)),
        trigger_next(s, reason).history == s.history,
        ping_next(s, root_exists).history == s.history,
        forall|i: int|
            0 <= i < s.history.len() ==> (#[trigger] s.history[i] is Started || s.history[i] is Completed || s.history[i] is Failure),
        forall|i: int|
            0 <= i < s.history.len() - 1 ==> (#[trigger] s.history[i] is Started <==> !(s.history[i + 1] is Started)),
{
    let h = s.history;
    assert forall|i: int| 0 <= i < h.len() - 1 implies (#[trigger] h[i] is Started <==> !(h[i + 1] is Started)) by {
        assert(h[i + 1] is Started <==> (i + 1) % 2 == 0);
    }
    if starts(s) {
        let h2 = start_next(s).history;
        assert forall|i: int| 0 <= i < h2.len() implies ((#[trigger] h2[i] is Started) <==> i % 2 == 0) by {
            if i < h.len() {
                assert(h2[i] == h[i]);
            }
        }
        assert forall|i: int| 0 <= i < h2.len() implies !(#[trigger] h2[i] is SectionEnd) && event_project(h2[i]) == Some(s.nix_file) by {
            if i < h.len() {
                assert(h2[i] == h[i]);
            }
        }
    }
    if s.building {
        if let Some(ev) = outcome_event(s, res) {
            let h2 = finish_next(s, res).history;
            assert forall|i: int| 0 <= i < h2.len() implies ((#[trigger] h2[i] is Started) <==> i % 2 == 0) by {
                if i < h.len() {
                    assert(h2[i] == h[i]);
                }
            }
            assert forall|i: int| 0 <= i < h2.len() implies !(#[trigger] h2[i] is SectionEnd) && event_project(h2[i]) == Some(s.nix_file) by {
                if i < h.len() {
                    assert(h2[i] == h[i]);
                }
            }
        }
    }
}

/// The first event of every project announces its registration.
pub proof fn first_event_is_project_added(s: LoopState)
    requires
        loop_inv(s),
    ensures
        s.history.len() == 0 ==> start_next(s).history == seq![
            Event::Started { nix_file: s.nix_file, reason: Reason::ProjectAdded(s.nix_file) },
        ],
        s.history.len() > 0 ==> s.history[0] == (Event::Started {
            nix_file: s.nix_file,
            reason: Reason::ProjectAdded(s.nix_file),
        }),
{
    if s.history.len() == 0 {
        assert(start_next(s).history =~= seq![
            Event::Started { nix_file: s.nix_file, reason: Reason::ProjectAdded(s.nix_file) },
        ]);
    }
}

/// A ping to an idle loop with a finished build starts a rebuild exactly when
/// the build's root is gone: then the next event is `Started` for the ping;
/// while the root exists the ping changes nothing and emits nothing.
pub proof fn ping_rebuilds_missing_root(s: LoopState)
    requires
        loop_inv(s),
        !s.building,
        s.pending is None,
        s.output_paths is Some,
    ensures
        start_next(ping_next(s, false)).history == s.history.push(
            Event::Started { nix_file: s.nix_file, reason: Reason::PingReceived },
        ),
        ping_next(s, true) == s,
        start_next(ping_next(s, true)) == s,
{
}

} // verus!
