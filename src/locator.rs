//! The ordered search for the engine across discovery strategies.
//!
//! A `Locator` decides and its driver acts: `request` names the next thing
//! to find out (whether a file exists, what the registry records, what the
//! search path holds, what a directory contains, whether an archive could be
//! unpacked), and `answer` takes the reply. Each strategy turns up a list of
//! candidate paths which are checked for existence in order; the first
//! strategy whose candidate exists wins, and later ones are not tried.

use vstd::prelude::*;
use crate::discover::{
    is_engine_file, is_engine_path, parse_search_output, registry_candidate,
    registry_candidate_spec, search_candidate,
};
use crate::path::{opt_view, views};
use crate::platform::{
    search_args_spec, search_program_spec, strategies_spec, well_known_spec, Platform, Strategy,
};

verus! {

/// One stage of the search.
#[derive(Clone, Copy, Debug, PartialEq, Eq, Structural)]
pub enum Source {
    /// The path found by an earlier search, checked again.
    Cached,
    /// A discovery strategy.
    Strategy(Strategy),
}

/// An entry of a directory listing.
#[derive(Clone, Debug)]
pub struct DirEntry {
    pub path: String,
    pub is_dir: bool,
}

/// What the search needs to find out next.
#[derive(Clone, Debug)]
pub enum Request {
    /// Whether a file exists at the path; answered by `Reply::Exists`.
    CheckExists(String),
    /// The install directories the system registry records, machine-wide
    /// first, then for the user; answered by `Reply::InstallDirs`.
    ReadRegistry,
    /// Run the program with the arguments; answered by
    /// `Reply::SearchOutput` with its standard output if it succeeded.
    RunSearch(String, Vec<String>),
    /// The entries of the directory, in the order the system lists them
    /// (none if it cannot be read); answered by `Reply::Listing`.
    ListDir(String),
    /// Unpack the archive (first path) into the directory (second path);
    /// answered by `Reply::Extracted`.
    Extract(String, String),
}

/// The driver's reply to a `Request`. A reply of another kind than the
/// request asked for counts as finding nothing.
#[derive(Clone, Debug)]
pub enum Reply {
    Exists(bool),
    InstallDirs(Vec<String>),
    SearchOutput(Option<String>),
    Listing(Vec<DirEntry>),
    Extracted(bool),
}

/// The stages of a search: the cached path first, if there is one, then the
/// platform's strategies in order.
pub open spec fn plan_spec(p: Platform, has_cached: bool) -> Seq<Source> {
    let s = strategies_spec(p).map_values(|x: Strategy| Source::Strategy(x));
    if has_cached {
        seq![Source::Cached] + s
    } else {
        s
    }
}

/// The result of the first stage that found the engine.
pub open spec fn first_found(rs: Seq<Option<Seq<char>>>) -> Option<Seq<char>>
    decreases rs.len(),
{
    if rs.len() == 0 {
        None
    } else if rs[0] is Some {
        rs[0]
    } else {
        first_found(rs.drop_first())
    }
}

/// A stage that checked candidates `c` in order and got the existence
/// replies `a` reports the first candidate that exists: it stops at the
/// first `true`, and reports nothing only after every candidate was denied.
pub open spec fn probe_ok(c: Seq<Seq<char>>, a: Seq<bool>, r: Option<Seq<char>>) -> bool {
    &&& a.len() <= c.len()
    &&& forall|j: int| 0 <= j < a.len() - 1 ==> !a[j]
    &&& match r {
        Some(x) => a.len() > 0 && a.last() && x == c[a.len() - 1],
        None => a.len() == c.len() && forall|j: int| 0 <= j < a.len() ==> !a[j],
    }
}

/// `x` is the engine inside some installation directory.
pub open spec fn is_registry_candidate(p: Platform, x: Seq<char>) -> bool {
    exists|d: Seq<char>| x == #[trigger] registry_candidate_spec(p, d)
}

/// `x` is what some output of a search-path lookup names.
pub open spec fn is_search_candidate(x: Seq<char>) -> bool {
    exists|o: Seq<char>| #[trigger] search_candidate(o) == Some(x)
}

/// The candidates a stage checks are those its source gives: the cached
/// path; `<dir>/program/<binary>` for install directories of the registry;
/// the platform's well-known paths; what the search path names; files
/// named like the engine in the unpacked bundle.
pub open spec fn candidates_ok(
    p: Platform,
    cached: Option<Seq<char>>,
    s: Source,
    c: Seq<Seq<char>>,
) -> bool {
    match s {
        Source::Cached => cached is Some && c == seq![cached.unwrap()],
        Source::Strategy(Strategy::Registry) => forall|i: int|
            0 <= i < c.len() ==> is_registry_candidate(p, #[trigger] c[i]),
        Source::Strategy(Strategy::WellKnown) => c == well_known_spec(p),
        Source::Strategy(Strategy::SearchPath) => c.len() <= 1 && forall|i: int|
            0 <= i < c.len() ==> is_search_candidate(#[trigger] c[i]),
        Source::Strategy(Strategy::Bundled) => forall|i: int|
            0 <= i < c.len() ==> is_engine_file(p, c[i]),
    }
}

/// What a search waits on: an existence check of a candidate, the
/// registry, the search path, a listing of the top directory of the walk
/// (the pending entries, last on top, and whether the archive was already
/// unpacked), an existence check of the archive at an index, its
/// unpacking, or nothing as it is over.
pub enum PhaseView {
    Probe,
    Registry,
    Search,
    Walk(Seq<(Seq<char>, bool)>, bool),
    Archive(nat),
    Unpack(nat),
    Finished,
}

/// A phase belongs to a stage of the right source: the registry to the
/// registry stage, the search path to the search-path stage, the walk, the
/// archive and its unpacking to the bundled stage.
pub open spec fn phase_fits(ph: PhaseView, s: Source, n_archives: nat) -> bool {
    match ph {
        PhaseView::Registry => s == Source::Strategy(Strategy::Registry),
        PhaseView::Search => s == Source::Strategy(Strategy::SearchPath),
        PhaseView::Walk(st, _) => s == Source::Strategy(Strategy::Bundled) && st.len() > 0
            && st.last().1,
        PhaseView::Archive(i) => s == Source::Strategy(Strategy::Bundled) && i < n_archives,
        PhaseView::Unpack(i) => s == Source::Strategy(Strategy::Bundled) && i < n_archives,
        _ => true,
    }
}

/// A directory entry as a path and whether it is a directory.
pub open spec fn entries_view(v: Seq<DirEntry>) -> Seq<(Seq<char>, bool)> {
    v.map_values(|e: DirEntry| (e.path@, e.is_dir))
}

/// Whether a reply says the file exists.
pub open spec fn reply_exists(r: Reply) -> bool {
    match r {
        Reply::Exists(b) => b,
        _ => false,
    }
}

/// The install directories a reply gives.
pub open spec fn reply_dirs(r: Reply) -> Seq<Seq<char>> {
    match r {
        Reply::InstallDirs(d) => views(d@),
        _ => Seq::empty(),
    }
}

/// The search-path output a reply gives.
pub open spec fn reply_output(r: Reply) -> Option<Seq<char>> {
    match r {
        Reply::SearchOutput(o) => opt_view(o),
        _ => None,
    }
}

/// The directory entries a reply gives.
pub open spec fn reply_listing(r: Reply) -> Seq<(Seq<char>, bool)> {
    match r {
        Reply::Listing(e) => entries_view(e@),
        _ => Seq::empty(),
    }
}

/// Whether a reply says the archive was unpacked.
pub open spec fn reply_extracted(r: Reply) -> bool {
    match r {
        Reply::Extracted(b) => b,
        _ => false,
    }
}

/// The candidates of install directories `d`, in order.
pub open spec fn registry_candidates_spec(p: Platform, d: Seq<Seq<char>>) -> Seq<Seq<char>> {
    d.map_values(|x: Seq<char>| registry_candidate_spec(p, x))
}

/// The walk's pending entries once the listed directory on top is replaced
/// by its entries, the first listed on top.
pub open spec fn push_listing(st: Seq<(Seq<char>, bool)>, entries: Seq<(Seq<char>, bool)>) -> Seq<
    (Seq<char>, bool),
> {
    st.drop_last() + entries.reverse()
}

/// The path `x` lies under the directory `d`: `d` is a proper prefix of it.
pub open spec fn is_under(x: Seq<char>, d: Seq<char>) -> bool {
    d.len() < x.len() && x.subrange(0, d.len() as int) == d
}

/// Whether the path `x` lies under the directory `d`.
pub fn path_is_under(x: &str, d: &str) -> (r: bool)
    ensures
        r == is_under(x@, d@),
{
    let n = d.unicode_len();
    if n >= x.unicode_len() {
        return false;
    }
    let mut i: usize = 0;
    while i < n
        invariant
            i <= n,
            n == d@.len(),
            n < x@.len(),
            forall|j: int| 0 <= j < i ==> x@[j] == d@[j],
        decreases n - i,
    {
        if x.get_char(i) != d.get_char(i) {
            assert(x@.subrange(0, n as int)[i as int] != d@[i as int]);
            return false;
        }
        i = i + 1;
    }
    assert(x@.subrange(0, n as int) =~= d@);
    true
}

/// The walk of the tree under `root` moves past files that are not the
/// engine, depth first: it stops at a directory to list, or at a file under
/// `root` named like the engine (the second result), or when nothing is
/// pending.
pub open spec fn settle(p: Platform, root: Seq<char>, st: Seq<(Seq<char>, bool)>) -> (
    Seq<(Seq<char>, bool)>,
    Option<Seq<char>>,
)
    decreases st.len(),
{
    if st.len() == 0 || st.last().1 {
        (st, None)
    } else if is_engine_file(p, st.last().0) && is_under(st.last().0, root) {
        (st, Some(st.last().0))
    } else {
        settle(p, root, st.drop_last())
    }
}

/// `new` follows `old` by closing its stage with nothing found, after
/// checking candidates `c` with replies `a`; stages after it with nothing
/// to check were passed, and the next stage has just begun.
pub open spec fn closed_empty(old: Locator, new: Locator, c: Seq<Seq<char>>, a: Seq<bool>) -> bool {
    let k = old.reports().len() as int;
    &&& new.reports().len() > k
    &&& new.reports()[k] is None
    &&& new.stage_candidates()[k] =~= c
    &&& new.stage_answers()[k] =~= a
    &&& new.passed_empty_from(k + 1)
    &&& new.starts_stage()
}

/// `new` follows `old` within the same stage, which now checks candidates
/// `c` from the first.
pub open spec fn probes_next(old: Locator, new: Locator, c: Seq<Seq<char>>) -> bool {
    &&& new.reports() == old.reports()
    &&& new.checking_candidate()
    &&& new.current_candidates() == c
    &&& new.current_answers().len() == 0
}

enum Phase {
    Probe(Vec<String>, usize),
    Registry,
    Search,
    Walk(Vec<DirEntry>, bool),
    Archive(usize),
    Unpack(usize),
    Finished,
}

/// An engine search in progress.
pub struct Locator {
    platform: Platform,
    cached: Option<String>,
    plan: Vec<Source>,
    engine_dir: String,
    archives: Vec<String>,
    stage: usize,
    phase: Phase,
    found: Option<String>,
    cands: Ghost<Seq<Seq<char>>>,
    answers: Ghost<Seq<bool>>,
    reports: Ghost<Seq<Option<Seq<char>>>>,
    stage_cands: Ghost<Seq<Seq<Seq<char>>>>,
    stage_answers: Ghost<Seq<Seq<bool>>>,
}

impl Locator {
    /// The platform searched on.
    pub closed spec fn platform(&self) -> Platform {
        self.platform
    }

    /// The cached path, if the search began with one.
    pub closed spec fn cached(&self) -> Option<Seq<char>> {
        opt_view(self.cached)
    }

    /// The stages, in the order they are tried.
    pub closed spec fn plan(&self) -> Seq<Source> {
        self.plan@
    }

    /// What each finished stage found, in order.
    pub closed spec fn reports(&self) -> Seq<Option<Seq<char>>> {
        self.reports@
    }

    /// The candidates each finished stage checked.
    pub closed spec fn stage_candidates(&self) -> Seq<Seq<Seq<char>>> {
        self.stage_cands@
    }

    /// The existence replies each finished stage got.
    pub closed spec fn stage_answers(&self) -> Seq<Seq<bool>> {
        self.stage_answers@
    }

    /// The candidates of the stage in progress.
    pub closed spec fn current_candidates(&self) -> Seq<Seq<char>> {
        self.cands@
    }

    /// The existence replies the stage in progress got so far.
    pub closed spec fn current_answers(&self) -> Seq<bool> {
        self.answers@
    }

    /// What the search waits on, as the driver sees it.
    pub closed spec fn phase(&self) -> PhaseView {
        match self.phase {
            Phase::Probe(_, _) => PhaseView::Probe,
            Phase::Registry => PhaseView::Registry,
            Phase::Search => PhaseView::Search,
            Phase::Walk(st, u) => PhaseView::Walk(entries_view(st@), u),
            Phase::Archive(i) => PhaseView::Archive(i as nat),
            Phase::Unpack(i) => PhaseView::Unpack(i as nat),
            Phase::Finished => PhaseView::Finished,
        }
    }

    /// Whether the stage in progress waits on an existence check of its
    /// next candidate.
    pub open spec fn checking_candidate(&self) -> bool {
        self.phase() is Probe
    }

    /// Where the bundled engine is unpacked.
    pub closed spec fn engine_dir(&self) -> Seq<char> {
        self.engine_dir@
    }

    /// Where the shipped archive may lie, in the order to try.
    pub closed spec fn archives(&self) -> Seq<Seq<char>> {
        views(self.archives@)
    }

    /// Whether the search is over.
    pub open spec fn finished(&self) -> bool {
        self.phase() is Finished
    }

    /// The engine's path, once the search is over and found it.
    pub closed spec fn found(&self) -> Option<Seq<char>> {
        opt_view(self.found)
    }

    /// What the finished stages found obeys the search's rules: each stage
    /// checked the candidates its source gives and reports the first that
    /// exists; stages are tried in order and the search stops at the first
    /// that found the engine; a finished search's result is that stage's
    /// path, and a search that found nothing tried every stage.
    pub open spec fn history_ok(&self) -> bool {
        let rs = self.reports();
        &&& rs.len() <= self.plan().len()
        &&& rs.len() == self.stage_candidates().len()
        &&& rs.len() == self.stage_answers().len()
        &&& forall|k: int|
            0 <= k < rs.len() ==> probe_ok(
                #[trigger] self.stage_candidates()[k],
                self.stage_answers()[k],
                rs[k],
            ) && candidates_ok(
                self.platform(),
                self.cached(),
                self.plan()[k],
                self.stage_candidates()[k],
            )
        &&& forall|k: int| 0 <= k < rs.len() - 1 ==> #[trigger] rs[k] is None
        &&& self.finished() ==> {
            &&& self.found() == first_found(rs)
            &&& self.found() is None ==> rs.len() == self.plan().len()
        }
        &&& !self.finished() ==> {
            &&& rs.len() < self.plan().len()
            &&& forall|k: int| 0 <= k < rs.len() ==> #[trigger] rs[k] is None
            &&& self.current_answers().len() <= self.current_candidates().len()
            &&& forall|j: int|
                0 <= j < self.current_answers().len() ==> !#[trigger] self.current_answers()[j]
            &&& candidates_ok(
                self.platform(),
                self.cached(),
                self.plan()[rs.len() as int],
                self.current_candidates(),
            )
            &&& !self.checking_candidate() ==> self.current_candidates().len() == 0
            &&& self.checking_candidate() ==> self.current_answers().len()
                < self.current_candidates().len()
            &&& phase_fits(self.phase(), self.plan()[rs.len() as int], self.archives().len())
        }
    }

    /// The stage in progress has just begun: nothing asked in it yet, and
    /// it waits on its source's first question. The cached path and the
    /// well-known locations are checked in order; the registry and the
    /// search path are consulted first; the bundle is walked from its root
    /// before any archive is touched.
    pub open spec fn starts_stage(&self) -> bool {
        !self.finished() ==> {
            &&& self.current_answers().len() == 0
            &&& match self.plan()[self.reports().len() as int] {
                Source::Cached => self.checking_candidate() && self.current_candidates() == seq![
                    self.cached().unwrap(),
                ],
                Source::Strategy(Strategy::Registry) => self.phase() is Registry,
                Source::Strategy(Strategy::WellKnown) => self.checking_candidate()
                    && self.current_candidates() == well_known_spec(self.platform()),
                Source::Strategy(Strategy::SearchPath) => self.phase() is Search,
                Source::Strategy(Strategy::Bundled) => self.phase() == PhaseView::Walk(
                    seq![(self.engine_dir(), true)],
                    false,
                ),
            }
        }
    }

    /// Every stage from `k` on that has finished was passed over, having
    /// nothing to check.
    pub open spec fn passed_empty_from(&self, k: int) -> bool {
        forall|j: int|
            k <= j < self.reports().len() ==> (#[trigger] self.stage_candidates()[j]).len() == 0
    }

    closed spec fn phase_ok(&self) -> bool {
        let s = self.stage as int;
        match self.phase {
            Phase::Probe(q, n) => {
                &&& views(q@) == self.cands@
                &&& n == self.answers@.len()
                &&& n < q.len()
            },
            Phase::Registry => {
                &&& self.plan@[s] == Source::Strategy(Strategy::Registry)
                &&& self.cands@.len() == 0
                &&& self.answers@.len() == 0
            },
            Phase::Search => {
                &&& self.plan@[s] == Source::Strategy(Strategy::SearchPath)
                &&& self.cands@.len() == 0
                &&& self.answers@.len() == 0
            },
            Phase::Walk(st, _) => {
                &&& self.plan@[s] == Source::Strategy(Strategy::Bundled)
                &&& st.len() > 0
                &&& st@.last().is_dir
                &&& self.cands@.len() == 0
                &&& self.answers@.len() == 0
            },
            Phase::Archive(i) => {
                &&& self.plan@[s] == Source::Strategy(Strategy::Bundled)
                &&& i < self.archives.len()
                &&& self.cands@.len() == 0
                &&& self.answers@.len() == 0
            },
            Phase::Unpack(i) => {
                &&& self.plan@[s] == Source::Strategy(Strategy::Bundled)
                &&& i < self.archives.len()
                &&& self.cands@.len() == 0
                &&& self.answers@.len() == 0
            },
            Phase::Finished => true,
        }
    }

    /// The search's state is consistent.
    pub open spec fn wf(&self) -> bool {
        &&& self.history_ok()
        &&& self.internals_ok()
    }

    /// The private state agrees with what the search shows.
    pub closed spec fn internals_ok(&self) -> bool {
        &&& self.phase_ok()
        &&& forall|k: int|
            0 <= k < self.plan@.len() && self.plan@[k] == Source::Cached ==> self.cached is Some
        &&& !self.finished() ==> self.stage == self.reports@.len()
    }
}

/// Whether every entry is `None`.
pub open spec fn none_found(rs: Seq<Option<Seq<char>>>) -> bool {
    forall|k: int| 0 <= k < rs.len() ==> #[trigger] rs[k] is None
}

/// When every stage before the last found nothing, the search's result is
/// what the last one found.
pub proof fn lemma_first_found_last(rs: Seq<Option<Seq<char>>>)
    requires
        rs.len() > 0,
        none_found(rs.drop_last()),
    ensures
        first_found(rs) == rs.last(),
    decreases rs.len(),
{
    if rs.len() == 1 {
        assert(rs.drop_first().len() == 0);
    } else {
        assert(rs.drop_last()[0] is None);
        let t = rs.drop_first();
        assert(t.last() == rs.last());
        assert(t.drop_last() =~= rs.drop_last().drop_first());
        assert forall|k: int| 0 <= k < t.drop_last().len() implies #[trigger] t.drop_last()[k] is None by {
            assert(t.drop_last()[k] == rs.drop_last()[k + 1]);
        }
        lemma_first_found_last(t);
    }
}

/// A search in which no stage found anything has no result.
pub proof fn lemma_first_found_none(rs: Seq<Option<Seq<char>>>)
    requires
        none_found(rs),
    ensures
        first_found(rs) is None,
    decreases rs.len(),
{
    if rs.len() > 0 {
        let t = rs.drop_first();
        assert forall|k: int| 0 <= k < t.len() implies #[trigger] t[k] is None by {
            assert(t[k] == rs[k + 1]);
        }
        lemma_first_found_none(t);
    }
}

impl Locator {
    /// A search on `platform` that first checks `cached`, if given, and
    /// unpacks a bundled engine, where the platform has one, into
    /// `engine_dir` from the first of `archives` that exists.
    pub fn new(
        platform: Platform,
        cached: Option<String>,
        engine_dir: String,
        archives: Vec<String>,
    ) -> (r: Locator)
        ensures
            r.wf(),
            r.platform() == platform,
            r.cached() == opt_view(cached),
            r.plan() == plan_spec(platform, cached is Some),
            r.engine_dir() == engine_dir@,
            r.archives() == views(archives@),
            r.starts_stage(),
            r.passed_empty_from(0),
            !r.finished(),
            r.reports().len() <= 1,
            cached is Some || platform != Platform::Other ==> r.reports().len() == 0,
    {
        let strategies = platform.strategies();
        let mut plan: Vec<Source> = Vec::new();
        if cached.is_some() {
            plan.push(Source::Cached);
        }
        let ghost start = plan@;
        let mut i: usize = 0;
        while i < strategies.len()
            invariant
                i <= strategies.len(),
                strategies@ == strategies_spec(platform),
                plan@ == start + strategies@.subrange(0, i as int).map_values(
                    |x: Strategy| Source::Strategy(x),
                ),
            decreases strategies.len() - i,
        {
            plan.push(Source::Strategy(strategies[i]));
            i = i + 1;
            assert(plan@ =~= start + strategies@.subrange(0, i as int).map_values(
                |x: Strategy| Source::Strategy(x),
            ));
        }
        assert(strategies@.subrange(0, i as int) =~= strategies@);
        assert(plan@ =~= plan_spec(platform, cached is Some));
        let mut l = Locator {
            platform,
            cached,
            plan,
            engine_dir,
            archives,
            stage: 0,
            phase: Phase::Finished,
            found: None,
            cands: Ghost(Seq::empty()),
            answers: Ghost(Seq::empty()),
            reports: Ghost(Seq::empty()),
            stage_cands: Ghost(Seq::empty()),
            stage_answers: Ghost(Seq::empty()),
        };
        l.enter();
        l
    }

    /// Between stages: what `enter` needs.
    closed spec fn between(&self) -> bool {
        &&& self.reports@.len() == self.stage
        &&& self.stage <= self.plan@.len()
        &&& self.stage_cands@.len() == self.stage
        &&& self.stage_answers@.len() == self.stage
        &&& none_found(self.reports@)
        &&& forall|k: int|
            0 <= k < self.reports@.len() ==> probe_ok(
                #[trigger] self.stage_cands@[k],
                self.stage_answers@[k],
                self.reports@[k],
            ) && candidates_ok(self.platform, opt_view(self.cached), self.plan@[k], self.stage_cands@[k])
        &&& forall|k: int|
            0 <= k < self.plan@.len() && self.plan@[k] == Source::Cached ==> self.cached is Some
    }

    /// Starts the stage `self.stage`, passing over stages with nothing to
    /// check, or ends the search when no stage is left.
    fn enter(&mut self)
        requires
            old(self).between(),
        ensures
            final(self).wf(),
            final(self).platform == old(self).platform,
            final(self).cached == old(self).cached,
            final(self).plan@ == old(self).plan@,
            final(self).archives@ == old(self).archives@,
            final(self).engine_dir == old(self).engine_dir,
            old(self).reports@.is_prefix_of(final(self).reports@),
            old(self).stage_answers@.is_prefix_of(final(self).stage_answers@),
            old(self).stage_cands@.is_prefix_of(final(self).stage_cands@),
            final(self).starts_stage(),
            final(self).passed_empty_from(old(self).stage as int),
            old(self).stage < old(self).plan@.len() && (old(self).plan@[old(self).stage as int]
                != Source::Strategy(Strategy::WellKnown) || well_known_spec(old(self).platform).len()
                > 0) ==> final(self).reports@.len() == old(self).stage,
            final(self).reports@.len() <= old(self).stage + 1 || (old(self).stage + 1
                < old(self).plan@.len() && old(self).plan@[old(self).stage + 1]
                == Source::Strategy(Strategy::WellKnown)),
            final(self).finished() ==> final(self).reports@.len() == final(self).plan@.len(),
    {
        let ghost r0 = self.reports@;
        let ghost a0 = self.stage_answers@;
        let ghost c0 = self.stage_cands@;
        loop
            invariant
                self.between(),
                self.platform == old(self).platform,
                self.cached == old(self).cached,
                self.plan@ == old(self).plan@,
                self.archives@ == old(self).archives@,
                self.engine_dir == old(self).engine_dir,
                r0 == old(self).reports@,
                r0.is_prefix_of(self.reports@),
                a0 == old(self).stage_answers@,
                a0.is_prefix_of(self.stage_answers@),
                c0 == old(self).stage_cands@,
                c0.is_prefix_of(self.stage_cands@),
                self.stage >= old(self).stage,
                forall|j: int|
                    old(self).stage <= j < self.stage ==> (#[trigger] self.stage_cands@[j]).len()
                        == 0,
                self.stage == old(self).stage || (old(self).stage < self.plan@.len()
                    && self.plan@[old(self).stage as int] == Source::Strategy(Strategy::WellKnown)
                    && well_known_spec(self.platform).len() == 0),
                self.stage <= old(self).stage + 1 || (old(self).stage + 1 < self.plan@.len()
                    && self.plan@[old(self).stage + 1] == Source::Strategy(Strategy::WellKnown)),
            decreases self.plan@.len() - self.stage,
        {
            if self.stage >= self.plan.len() {
                self.phase = Phase::Finished;
                self.found = None;
                proof {
                    lemma_first_found_none(self.reports@);
                }
                return;
            }
            self.cands = Ghost(Seq::empty());
            self.answers = Ghost(Seq::empty());
            let src = self.plan[self.stage];
            assert(src == self.plan@[self.stage as int]);
            match src {
                Source::Cached => {
                    let c = match &self.cached {
                        Some(c) => c.clone(),
                        None => String::new(),
                    };
                    let ghost cs = seq![c@];
                    self.cands = Ghost(cs);
                    let q = vec![c];
                    assert(views(q@) =~= self.cands@);
                    self.phase = Phase::Probe(q, 0);
                    return;
                },
                Source::Strategy(Strategy::Registry) => {
                    self.phase = Phase::Registry;
                    return;
                },
                Source::Strategy(Strategy::SearchPath) => {
                    self.phase = Phase::Search;
                    return;
                },
                Source::Strategy(Strategy::Bundled) => {
                    let root = DirEntry { path: self.engine_dir.clone(), is_dir: true };
                    let st = vec![root];
                    assert(entries_view(st@) =~= seq![(self.engine_dir@, true)]);
                    self.phase = Phase::Walk(st, false);
                    return;
                },
                Source::Strategy(Strategy::WellKnown) => {
                    let q = self.platform.well_known_paths();
                    self.cands = Ghost(views(q@));
                    if q.len() > 0 {
                        self.phase = Phase::Probe(q, 0);
                        return;
                    }
                    let ghost prev = self.reports@;
                    let ghost prev_a = self.stage_answers@;
                    let ghost prev_c = self.stage_cands@;
                    self.reports = Ghost(self.reports@.push(None));
                    self.stage_cands = Ghost(self.stage_cands@.push(self.cands@));
                    self.stage_answers = Ghost(self.stage_answers@.push(Seq::empty()));
                    assert(self.plan@[self.stage as int] == Source::Strategy(Strategy::WellKnown));
                    self.stage = self.stage + 1;
                    proof {
                        assert(self.reports@.subrange(0, r0.len() as int) =~= prev.subrange(
                            0,
                            r0.len() as int,
                        ));
                        assert(self.stage_answers@.subrange(0, a0.len() as int) =~= prev_a.subrange(
                            0,
                            a0.len() as int,
                        ));
                        assert(self.stage_cands@.subrange(0, c0.len() as int) =~= prev_c.subrange(
                            0,
                            c0.len() as int,
                        ));
                    }
                },
            }
        }
    }

    /// Ends the stage in progress with what it found, and moves on to the
    /// next stage unless it found the engine.
    fn close_stage(&mut self, r: Option<String>)
        requires
            old(self).between(),
            old(self).stage < old(self).plan@.len(),
            probe_ok(old(self).cands@, old(self).answers@, opt_view(r)),
            candidates_ok(
                old(self).platform,
                opt_view(old(self).cached),
                old(self).plan@[old(self).stage as int],
                old(self).cands@,
            ),
        ensures
            final(self).wf(),
            final(self).platform == old(self).platform,
            final(self).cached == old(self).cached,
            final(self).plan@ == old(self).plan@,
            final(self).archives@ == old(self).archives@,
            final(self).engine_dir == old(self).engine_dir,
            old(self).reports@.is_prefix_of(final(self).reports@),
            old(self).stage_answers@.is_prefix_of(final(self).stage_answers@),
            old(self).stage_cands@.is_prefix_of(final(self).stage_cands@),
            r is Some ==> final(self).finished() && final(self).found() == opt_view(r),
            final(self).reports@.len() > old(self).stage,
            final(self).reports@[old(self).stage as int] == opt_view(r),
            final(self).stage_answers@[old(self).stage as int] == old(self).answers@,
            final(self).stage_cands@[old(self).stage as int] == old(self).cands@,
            r is None ==> final(self).passed_empty_from(old(self).stage + 1)
                && final(self).starts_stage(),
    {
        let s = self.stage;
        assert(s < self.plan.len());
        let ghost rv = opt_view(r);
        self.reports = Ghost(self.reports@.push(rv));
        self.stage_cands = Ghost(self.stage_cands@.push(self.cands@));
        self.stage_answers = Ghost(self.stage_answers@.push(self.answers@));
        assert(self.reports@[s as int] == rv);
        assert(self.stage_answers@[s as int] == old(self).answers@);
        assert(self.stage_cands@[s as int] == old(self).cands@);
        assert(old(self).stage_cands@.is_prefix_of(self.stage_cands@)) by {
            assert(self.stage_cands@.subrange(0, old(self).stage_cands@.len() as int)
                =~= old(self).stage_cands@);
        }
        assert(old(self).reports@.is_prefix_of(self.reports@)) by {
            assert(self.reports@.subrange(0, old(self).reports@.len() as int) =~= old(self).reports@);
        }
        assert(old(self).stage_answers@.is_prefix_of(self.stage_answers@)) by {
            assert(self.stage_answers@.subrange(0, old(self).stage_answers@.len() as int)
                =~= old(self).stage_answers@);
        }
        match r {
            Some(p) => {
                self.found = Some(p);
                self.phase = Phase::Finished;
                proof {
                    assert(self.reports@.drop_last() =~= old(self).reports@);
                    lemma_first_found_last(self.reports@);
                }
            },
            None => {
                self.stage = s + 1;
                self.enter();
            },
        }
    }
}

impl Locator {
    /// What the search needs to find out next.
    pub fn request(&self) -> (r: Request)
        requires
            self.wf(),
            !self.finished(),
        ensures
            self.phase() is Probe ==> r is CheckExists && r->CheckExists_0@
                == self.current_candidates()[self.current_answers().len() as int],
            self.phase() is Registry ==> r is ReadRegistry,
            self.phase() is Search ==> r is RunSearch && r->RunSearch_0@ == search_program_spec(
                self.platform(),
            ) && views(r->RunSearch_1@) == search_args_spec(self.platform()),
            self.phase() is Walk ==> r is ListDir && r->ListDir_0@ == self.phase()->Walk_0.last().0,
            self.phase() is Archive ==> r is CheckExists && r->CheckExists_0@
                == self.archives()[self.phase()->Archive_0 as int],
            self.phase() is Unpack ==> r is Extract && r->Extract_0@
                == self.archives()[self.phase()->Unpack_0 as int] && r->Extract_1@
                == self.engine_dir(),
    {
        match &self.phase {
            Phase::Probe(q, n) => Request::CheckExists(q[*n].clone()),
            Phase::Registry => Request::ReadRegistry,
            Phase::Search => {
                let (prog, args) = self.platform.search_command();
                Request::RunSearch(prog, args)
            },
            Phase::Walk(st, _) => Request::ListDir(st[st.len() - 1].path.clone()),
            Phase::Archive(i) => {
                let a = self.archives[*i].clone();
                assert(self.archives()[*i as int] == a@);
                Request::CheckExists(a)
            },
            Phase::Unpack(i) => {
                let a = self.archives[*i].clone();
                assert(self.archives()[*i as int] == a@);
                Request::Extract(a, self.engine_dir.clone())
            },
            Phase::Finished => Request::ReadRegistry,
        }
    }

    /// Takes the reply to the last request and moves the search on.
    pub fn answer(&mut self, reply: Reply)
        requires
            old(self).wf(),
            !old(self).finished(),
        ensures
            final(self).wf(),
            final(self).platform() == old(self).platform(),
            final(self).cached() == old(self).cached(),
            final(self).plan() == old(self).plan(),
            final(self).engine_dir() == old(self).engine_dir(),
            final(self).archives() == old(self).archives(),
            old(self).reports().is_prefix_of(final(self).reports()),
            old(self).phase() is Probe ==> {
                let a = old(self).current_answers();
                let c = old(self).current_candidates();
                if reply_exists(reply) {
                    &&& final(self).finished()
                    &&& final(self).found() == Some(c[a.len() as int])
                } else if a.len() + 1 < c.len() {
                    &&& final(self).reports() == old(self).reports()
                    &&& final(self).checking_candidate()
                    &&& final(self).current_candidates() == c
                    &&& final(self).current_answers() == a.push(false)
                } else {
                    closed_empty(*old(self), *final(self), c, a.push(false))
                }
            },
            old(self).phase() is Registry ==> {
                let c = registry_candidates_spec(old(self).platform(), reply_dirs(reply));
                if c.len() > 0 {
                    probes_next(*old(self), *final(self), c)
                } else {
                    closed_empty(*old(self), *final(self), Seq::empty(), Seq::empty())
                }
            },
            old(self).phase() is Search ==> {
                let c = match reply_output(reply) {
                    Some(o) => search_candidate(o),
                    None => None,
                };
                match c {
                    Some(x) => probes_next(*old(self), *final(self), seq![x]),
                    None => closed_empty(*old(self), *final(self), Seq::empty(), Seq::empty()),
                }
            },
            old(self).phase() is Walk ==> {
                let u = old(self).phase()->Walk_1;
                let next = settle(
                    old(self).platform(),
                    old(self).engine_dir(),
                    push_listing(old(self).phase()->Walk_0, reply_listing(reply)),
                );
                match next.1 {
                    Some(x) => probes_next(*old(self), *final(self), seq![x]),
                    None => if next.0.len() > 0 {
                        &&& final(self).reports() == old(self).reports()
                        &&& final(self).phase() == PhaseView::Walk(next.0, u)
                    } else if !u && old(self).archives().len() > 0 {
                        &&& final(self).reports() == old(self).reports()
                        &&& final(self).phase() == PhaseView::Archive(0)
                    } else {
                        closed_empty(*old(self), *final(self), Seq::empty(), Seq::empty())
                    },
                }
            },
            old(self).phase() is Archive ==> {
                let i = old(self).phase()->Archive_0;
                if reply_exists(reply) {
                    &&& final(self).reports() == old(self).reports()
                    &&& final(self).phase() == PhaseView::Unpack(i)
                } else if i + 1 < old(self).archives().len() {
                    &&& final(self).reports() == old(self).reports()
                    &&& final(self).phase() == PhaseView::Archive(i + 1)
                } else {
                    closed_empty(*old(self), *final(self), Seq::empty(), Seq::empty())
                }
            },
            old(self).phase() is Unpack ==> {
                if reply_extracted(reply) {
                    &&& final(self).reports() == old(self).reports()
                    &&& final(self).phase() == PhaseView::Walk(
                        seq![(old(self).engine_dir(), true)],
                        true,
                    )
                } else {
                    closed_empty(*old(self), *final(self), Seq::empty(), Seq::empty())
                }
            },
    {
        assert(self.between());
        let mut ph = Phase::Finished;
        std::mem::swap(&mut ph, &mut self.phase);
        let platform = self.platform;
        match ph {
            Phase::Probe(q, n) => {
                let b = match reply {
                    Reply::Exists(b) => b,
                    _ => false,
                };
                self.answers = Ghost(self.answers@.push(b));
                if b {
                    let c = q[n].clone();
                    self.close_stage(Some(c));
                } else if n + 1 < q.len() {
                    self.phase = Phase::Probe(q, n + 1);
                } else {
                    self.close_stage(None);
                }
            },
            Phase::Registry => {
                let ghost rd = reply_dirs(reply);
                let dirs = match reply {
                    Reply::InstallDirs(d) => d,
                    _ => Vec::new(),
                };
                let mut q: Vec<String> = Vec::new();
                let mut i: usize = 0;
                while i < dirs.len()
                    invariant
                        i <= dirs.len(),
                        q.len() == i,
                        forall|j: int|
                            0 <= j < i ==> #[trigger] q@[j]@ == registry_candidate_spec(
                                platform,
                                dirs@[j]@,
                            ),
                    decreases dirs.len() - i,
                {
                    q.push(registry_candidate(platform, dirs[i].as_str()));
                    i = i + 1;
                }
                self.cands = Ghost(views(q@));
                assert(views(dirs@) =~= rd);
                assert(views(q@) =~= registry_candidates_spec(platform, rd));
                assert forall|j: int| 0 <= j < self.cands@.len() implies is_registry_candidate(
                    platform,
                    #[trigger] self.cands@[j],
                ) by {
                    assert(self.cands@[j] == registry_candidate_spec(platform, dirs@[j]@));
                }
                if q.len() > 0 {
                    self.phase = Phase::Probe(q, 0);
                } else {
                    self.close_stage(None);
                }
            },
            Phase::Search => {
                let ghost want = match reply_output(reply) {
                    Some(o) => search_candidate(o),
                    None => None,
                };
                let mut q: Vec<String> = Vec::new();
                match reply {
                    Reply::SearchOutput(Some(out)) => {
                        match parse_search_output(out.as_str()) {
                            Some(c) => {
                                q.push(c);
                                assert(search_candidate(out@) == Some(q@[0]@));
                                assert(is_search_candidate(q@[0]@));
                                assert(views(q@) =~= seq![want.unwrap()]);
                            },
                            None => {
                                assert(want is None);
                            },
                        }
                    },
                    Reply::SearchOutput(None) => {
                        assert(want is None);
                    },
                    _ => {
                        assert(want is None);
                    },
                }
                self.cands = Ghost(views(q@));
                if q.len() > 0 {
                    self.phase = Phase::Probe(q, 0);
                } else {
                    self.close_stage(None);
                }
            },
            Phase::Walk(st, unpacked) => {
                let ghost st0 = entries_view(st@);
                let ghost lst = reply_listing(reply);
                let entries = match reply {
                    Reply::Listing(e) => e,
                    _ => Vec::new(),
                };
                assert(entries_view(entries@) =~= lst);
                let mut st = st;
                st.pop();
                assert(entries_view(st@) =~= st0.drop_last());
                let n = entries.len();
                let mut j: usize = n;
                assert(lst.reverse().subrange(0, 0) =~= Seq::<(Seq<char>, bool)>::empty());
                assert(entries_view(st@) =~= st0.drop_last() + lst.reverse().subrange(0, 0));
                while j > 0
                    invariant
                        j <= n,
                        n == entries.len(),
                        lst == entries_view(entries@),
                        entries_view(st@) == st0.drop_last() + lst.reverse().subrange(
                            0,
                            (n - j) as int,
                        ),
                    decreases j,
                {
                    let e = &entries[j - 1];
                    let ghost before = entries_view(st@);
                    let pushed = DirEntry { path: e.path.clone(), is_dir: e.is_dir };
                    assert((pushed.path@, pushed.is_dir) == lst[j - 1]);
                    st.push(pushed);
                    assert(entries_view(st@) =~= before.push(lst[j - 1]));
                    proof {
                        assert(lst.reverse()[(n - j) as int] == lst[j - 1]);
                        assert(entries_view(st@) =~= st0.drop_last() + lst.reverse().subrange(
                            0,
                            (n - j + 1) as int,
                        ));
                    }
                    j = j - 1;
                }
                assert(lst.reverse().subrange(0, n as int) =~= lst.reverse());
                let ghost target = settle(platform, self.engine_dir@, push_listing(st0, lst));
                let mut hit: Option<String> = None;
                loop
                    invariant_except_break
                        hit is None,
                        settle(platform, self.engine_dir@, entries_view(st@)) == target,
                    ensures
                        hit is Some ==> is_engine_file(platform, hit.unwrap()@) && target.1 == Some(
                            hit.unwrap()@,
                        ),
                        hit is None ==> target == (entries_view(st@), None::<Seq<char>>),
                        hit is None && st.len() > 0 ==> st@.last().is_dir,
                    decreases st.len(),
                {
                    if st.len() == 0 {
                        break;
                    }
                    let last = st.len() - 1;
                    assert(entries_view(st@).last() == (st@[last as int].path@, st@[last as int].is_dir));
                    if st[last].is_dir {
                        break;
                    }
                    if is_engine_path(platform, st[last].path.as_str()) && path_is_under(
                        st[last].path.as_str(),
                        self.engine_dir.as_str(),
                    ) {
                        hit = Some(st[last].path.clone());
                        break;
                    }
                    let ghost before = entries_view(st@);
                    st.pop();
                    assert(entries_view(st@) =~= before.drop_last());
                }
                match hit {
                    Some(c) => {
                        let ghost cs = seq![c@];
                        self.cands = Ghost(cs);
                        let q = vec![c];
                        assert(views(q@) =~= self.cands@);
                        self.phase = Phase::Probe(q, 0);
                    },
                    None => {
                        if st.len() > 0 {
                            self.phase = Phase::Walk(st, unpacked);
                        } else if !unpacked && self.archives.len() > 0 {
                            self.phase = Phase::Archive(0);
                        } else {
                            self.close_stage(None);
                        }
                    },
                }
            },
            Phase::Archive(i) => {
                let b = match reply {
                    Reply::Exists(b) => b,
                    _ => false,
                };
                if b {
                    self.phase = Phase::Unpack(i);
                } else if i + 1 < self.archives.len() {
                    self.phase = Phase::Archive(i + 1);
                } else {
                    self.close_stage(None);
                }
            },
            Phase::Unpack(_) => {
                let ok = match reply {
                    Reply::Extracted(ok) => ok,
                    _ => false,
                };
                if ok {
                    let root = DirEntry { path: self.engine_dir.clone(), is_dir: true };
                    let st = vec![root];
                    assert(entries_view(st@) =~= seq![(self.engine_dir@, true)]);
                    self.phase = Phase::Walk(st, true);
                } else {
                    self.close_stage(None);
                }
            },
            Phase::Finished => {},
        }
    }

    /// The platform searched on.
    pub fn searched_platform(&self) -> (r: Platform)
        ensures
            r == self.platform(),
    {
        self.platform
    }

    /// Whether the search is over.
    pub fn is_finished(&self) -> (r: bool)
        ensures
            r == self.finished(),
    {
        match self.phase {
            Phase::Finished => true,
            _ => false,
        }
    }

    /// The engine's path, once the search is over and found it.
    pub fn result(&self) -> (r: Option<String>)
        ensures
            opt_view(r) == self.found(),
    {
        match &self.found {
            Some(p) => Some(p.clone()),
            None => None,
        }
    }
}

/// The first stage that found something decides the search.
pub proof fn lemma_first_found_at(rs: Seq<Option<Seq<char>>>, w: int)
    requires
        0 <= w < rs.len(),
        rs[w] is Some,
        forall|k: int| 0 <= k < w ==> #[trigger] rs[k] is None,
    ensures
        first_found(rs) == rs[w],
    decreases w,
{
    if w > 0 {
        let t = rs.drop_first();
        assert forall|k: int| 0 <= k < w - 1 implies #[trigger] t[k] is None by {
            assert(t[k] == rs[k + 1]);
        }
        lemma_first_found_at(t, w - 1);
    }
}

/// On every platform the well-known install locations are searched before
/// the search path, so when both would find the engine, the well-known
/// location is the result: once the stages before it found nothing and the
/// well-known stage found `a`, the search yields `a` whatever later stages
/// would report.
pub proof fn lemma_well_known_before_search_path(
    p: Platform,
    has_cached: bool,
    rs: Seq<Option<Seq<char>>>,
    w: int,
    a: Seq<char>,
)
    requires
        0 <= w < rs.len(),
        rs.len() <= plan_spec(p, has_cached).len(),
        plan_spec(p, has_cached)[w] == Source::Strategy(Strategy::WellKnown),
        rs[w] == Some(a),
        forall|k: int| 0 <= k < w ==> #[trigger] rs[k] is None,
    ensures
        first_found(rs) == Some(a),
        forall|j: int|
            0 <= j < plan_spec(p, has_cached).len() && plan_spec(p, has_cached)[j]
                == Source::Strategy(Strategy::SearchPath) ==> w < j,
{
    lemma_first_found_at(rs, w);
    let plan = plan_spec(p, has_cached);
    let s = strategies_spec(p).map_values(|x: Strategy| Source::Strategy(x));
    assert forall|j: int|
        0 <= j < plan.len() && plan[j] == Source::Strategy(Strategy::SearchPath) implies w < j by {
        if has_cached {
            assert(plan[w] == s[w - 1]);
            assert(plan[j] == s[j - 1]);
        } else {
            assert(plan[w] == s[w]);
            assert(plan[j] == s[j]);
        }
    }
}

/// A search that starts from a cached path keeps it while it still exists,
/// and otherwise is exactly the search without a cache: its first stage
/// checks only the cached path, and the stages after it are those of a
/// fresh search, in the same order.
pub proof fn lemma_cached_then_fresh(p: Platform, cached: Seq<char>, rs: Seq<Option<Seq<char>>>)
    requires
        rs.len() > 0,
    ensures
        plan_spec(p, true)[0] == Source::Cached,
        plan_spec(p, true).drop_first() == plan_spec(p, false),
        candidates_ok(p, Some(cached), Source::Cached, seq![cached]),
        rs[0] is Some ==> first_found(rs) == rs[0],
        rs[0] is None ==> first_found(rs) == first_found(rs.drop_first()),
{
    assert(plan_spec(p, true).drop_first() =~= plan_spec(p, false));
}

impl Locator {
    /// A search by the one strategy `strategy`, with no cached path.
    pub fn single(
        platform: Platform,
        strategy: Strategy,
        engine_dir: String,
        archives: Vec<String>,
    ) -> (r: Locator)
        ensures
            r.wf(),
            r.platform() == platform,
            r.cached() is None,
            r.plan() == seq![Source::Strategy(strategy)],
            r.engine_dir() == engine_dir@,
            r.archives() == views(archives@),
            r.starts_stage(),
            r.passed_empty_from(0),
            r.finished() ==> strategy == Strategy::WellKnown && well_known_spec(platform).len()
                == 0,
            strategy != Strategy::WellKnown || platform != Platform::Other ==> r.reports().len()
                == 0,
    {
        let plan = vec![Source::Strategy(strategy)];
        let mut l = Locator {
            platform,
            cached: None,
            plan,
            engine_dir,
            archives,
            stage: 0,
            phase: Phase::Finished,
            found: None,
            cands: Ghost(Seq::empty()),
            answers: Ghost(Seq::empty()),
            reports: Ghost(Seq::empty()),
            stage_cands: Ghost(Seq::empty()),
            stage_answers: Ghost(Seq::empty()),
        };
        assert(l.plan@ =~= seq![Source::Strategy(strategy)]);
        l.enter();
        l
    }
}

} // verus!
