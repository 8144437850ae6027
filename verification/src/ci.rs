//! The CI core: the fixed three-check sequence (format, lint, test), the
//! executor that performs checks and logs every invocation, and the
//! per-project result record.

use vstd::prelude::*;
use crate::errors::CiError;
use crate::utils::FolderInfo;
use crate::utils::FolderListing;
use crate::utils::cargo_folder_paths;
use crate::utils::is_cargo_folder;

verus! {

/// Which of the three fixed checks an invocation is.
#[derive(Clone, Copy, Debug, PartialEq, Eq, Structural)]
pub enum CheckKind {
    Fmt,
    Clippy,
    Test,
}

/// One recorded check invocation: which check ran against which project.
#[derive(Debug)]
pub struct CheckCall {
    pub path: String,
    pub kind: CheckKind,
}

/// Ghost image of a recorded invocation.
pub ghost struct CheckCallV {
    pub path: Seq<char>,
    pub kind: CheckKind,
}

impl View for CheckCall {
    type V = CheckCallV;

    open spec fn view(&self) -> CheckCallV {
        CheckCallV { path: self.path@, kind: self.kind }
    }
}

/// Planned outcomes of the three checks for one project path.
#[derive(Debug)]
pub struct ProjectPlan {
    pub path: String,
    pub fmt: bool,
    pub clippy: bool,
    pub test: bool,
}

/// The outcome the executor yields for `path` and `kind`: the first plan
/// entry for that path decides; a path with no entry fails every check
/// (the command could not even be started).
pub open spec fn planned_outcome(plan: Seq<ProjectPlan>, path: Seq<char>, kind: CheckKind) -> bool
    decreases plan.len(),
{
    if plan.len() == 0 {
        false
    } else if plan[0].path@ == path {
        match kind {
            CheckKind::Fmt => plan[0].fmt,
            CheckKind::Clippy => plan[0].clippy,
            CheckKind::Test => plan[0].test,
        }
    } else {
        planned_outcome(plan.subrange(1, plan.len() as int), path, kind)
    }
}

/// The invocation log, seen at the ghost level.
pub open spec fn log_view(log: Seq<CheckCall>) -> Seq<CheckCallV> {
    log.map_values(|c: CheckCall| c@)
}

/// The check executor: a table of planned outcomes (what each external
/// command would report for each project), and the log of every check it
/// has performed, in order.
#[derive(Debug)]
pub struct CheckExec {
    pub plan: Vec<ProjectPlan>,
    pub log: Vec<CheckCall>,
}

fn lookup_outcome(plan: &Vec<ProjectPlan>, path: &String, kind: CheckKind) -> (r: bool)
    ensures
        r == planned_outcome(plan@, path@, kind),
{
    proof {
        assert(plan@.skip(0) =~= plan@);
    }
    let mut i: usize = 0;
    while i < plan.len()
        invariant
            0 <= i <= plan@.len(),
            planned_outcome(plan@, path@, kind) == planned_outcome(
                plan@.skip(i as int),
                path@,
                kind,
            ),
        decreases plan@.len() - i,
    {
        proof {
            assert(plan@.skip(i as int)[0] == plan@[i as int]);
        }
        if plan[i].path == *path {
            let r = match kind {
                CheckKind::Fmt => plan[i].fmt,
                CheckKind::Clippy => plan[i].clippy,
                CheckKind::Test => plan[i].test,
            };
            return r;
        }
        proof {
            let tail = plan@.skip(i as int);
            assert(tail.subrange(1, tail.len() as int) =~= plan@.skip(i as int + 1));
        }
        i += 1;
    }
    false
}

impl CheckExec {
    /// Perform one check: record the invocation in the log and report the
    /// planned outcome for this path and check kind.
    pub fn exec_check(&mut self, path: &String, kind: CheckKind) -> (r: bool)
        ensures
            final(self).plan == old(self).plan,
            log_view(final(self).log@) == log_view(old(self).log@).push(
                (CheckCallV { path: path@, kind }),
            ),
            r == planned_outcome(old(self).plan@, path@, kind),
    {
        let r = lookup_outcome(&self.plan, path, kind);
        self.log.push(CheckCall { path: path.clone(), kind });
        proof {
            assert(log_view(self.log@) =~= log_view(old(self).log@).push(
                (CheckCallV { path: path@, kind }),
            ));
        }
        r
    }
}

/// Outcome record of one project's CI run: one boolean per check.
#[derive(Debug)]
pub struct RunResults {
    pub path: String,
    pub fmt: bool,
    pub clippy: bool,
    pub test: bool,
}

/// Ghost image of a result record.
pub ghost struct RunResultsV {
    pub path: Seq<char>,
    pub fmt: bool,
    pub clippy: bool,
    pub test: bool,
}

impl View for RunResults {
    type V = RunResultsV;

    open spec fn view(&self) -> RunResultsV {
        RunResultsV { path: self.path@, fmt: self.fmt, clippy: self.clippy, test: self.test }
    }
}

impl Default for RunResults {
    /// An empty record: no path, no check passed.
    fn default() -> (r: RunResults)
        ensures
            r.path@ == Seq::<char>::empty(),
            !r.fmt && !r.clippy && !r.test,
    {
        RunResults { path: String::new(), fmt: false, clippy: false, test: false }
    }
}

impl RunResults {
    /// A project is valid exactly when all three checks passed.
    pub fn is_valid(&self) -> (r: bool)
        ensures
            r == (self.fmt && self.clippy && self.test),
            r == valid_of(*self),
    {
        self.fmt && self.clippy && self.test
    }
}

/// A run set, seen at the ghost level.
pub open spec fn results_view(rs: Seq<RunResults>) -> Seq<RunResultsV> {
    rs.map_values(|r: RunResults| r@)
}

/// The three invocations one project's CI run makes, in this fixed order.
pub open spec fn calls_of(path: Seq<char>) -> Seq<CheckCallV> {
    seq![
        CheckCallV { path, kind: CheckKind::Fmt },
        CheckCallV { path, kind: CheckKind::Clippy },
        CheckCallV { path, kind: CheckKind::Test },
    ]
}

/// The result record one project's CI run produces under a given plan.
pub open spec fn result_of(plan: Seq<ProjectPlan>, path: Seq<char>) -> RunResultsV {
    RunResultsV {
        path,
        fmt: planned_outcome(plan, path, CheckKind::Fmt),
        clippy: planned_outcome(plan, path, CheckKind::Clippy),
        test: planned_outcome(plan, path, CheckKind::Test),
    }
}

/// Run the entire CI flow on the given folder: format check, then lint,
/// then tests, each recorded whatever the earlier outcomes were.
///
/// Returns `None`, and performs no check, if the folder is not a project.
pub fn run(dir: &FolderInfo, exec: &mut CheckExec) -> (r: Option<RunResults>)
    ensures
        final(exec).plan == old(exec).plan,
        dir.has_manifest ==> (r matches Some(res) && res@ == result_of(
            old(exec).plan@,
            dir.path@,
        ) && log_view(final(exec).log@) == log_view(old(exec).log@) + calls_of(dir.path@)),
        !dir.has_manifest ==> r is None && final(exec).log == old(exec).log,
{
    if dir.has_manifest {
        let fmt = exec.exec_check(&dir.path, CheckKind::Fmt);
        let clippy = exec.exec_check(&dir.path, CheckKind::Clippy);
        let test = exec.exec_check(&dir.path, CheckKind::Test);
        proof {
            assert(log_view(exec.log@) =~= log_view(old(exec).log@) + calls_of(dir.path@));
        }
        Some(RunResults { path: dir.path.clone(), fmt, clippy, test })
    } else {
        None
    }
}

/// The run set a category folder's CI run produces under a given plan:
/// one record per qualifying child, in enumeration order. A child without
/// the descriptor file yields no record.
pub open spec fn category_results(plan: Seq<ProjectPlan>, entries: Seq<FolderInfo>) -> Seq<
    RunResultsV,
>
    decreases entries.len(),
{
    if entries.len() == 0 {
        Seq::empty()
    } else {
        let rest = category_results(plan, entries.drop_last());
        if is_cargo_folder(entries.last()) {
            rest.push(result_of(plan, entries.last().path@))
        } else {
            rest
        }
    }
}

/// The invocations a category folder's CI run makes, in order.
pub open spec fn category_calls(entries: Seq<FolderInfo>) -> Seq<CheckCallV>
    decreases entries.len(),
{
    if entries.len() == 0 {
        Seq::empty()
    } else {
        let rest = category_calls(entries.drop_last());
        if is_cargo_folder(entries.last()) {
            rest + calls_of(entries.last().path@)
        } else {
            rest
        }
    }
}

/// Run CI on every project one level below a category folder, skipping
/// children that are not projects. A missing category folder is an error.
pub fn inner_folders(listing: &FolderListing, exec: &mut CheckExec) -> (r: Result<
    Vec<RunResults>,
    CiError,
>)
    ensures
        final(exec).plan == old(exec).plan,
        listing.exists ==> (r matches Ok(v) && results_view(v@) == category_results(
            old(exec).plan@,
            listing.entries@,
        ) && log_view(final(exec).log@) == log_view(old(exec).log@) + category_calls(
            listing.entries@,
        )),
        !listing.exists ==> (r matches Err(CiError::NotFound { path: p }) && p@ == listing.path@
            && final(exec).log == old(exec).log),
{
    if !listing.exists {
        return Err(CiError::NotFound { path: listing.path.clone() });
    }
    let mut results: Vec<RunResults> = Vec::new();
    proof {
        assert(listing.entries@.take(0) =~= Seq::<FolderInfo>::empty());
        assert(results_view(results@) =~= category_results(
            old(exec).plan@,
            listing.entries@.take(0),
        ));
        assert(log_view(exec.log@) =~= log_view(old(exec).log@) + category_calls(
            listing.entries@.take(0),
        ));
    }
    let mut i: usize = 0;
    while i < listing.entries.len()
        invariant
            0 <= i <= listing.entries@.len(),
            exec.plan == old(exec).plan,
            results_view(results@) == category_results(
                old(exec).plan@,
                listing.entries@.take(i as int),
            ),
            log_view(exec.log@) == log_view(old(exec).log@) + category_calls(
                listing.entries@.take(i as int),
            ),
        decreases listing.entries@.len() - i,
    {
        let entry = &listing.entries[i];
        proof {
            assert(listing.entries@.take(i as int + 1).drop_last() =~= listing.entries@.take(
                i as int,
            ));
            assert(listing.entries@.take(i as int + 1).last() == listing.entries@[i as int]);
        }
        if entry.is_dir && entry.has_manifest {
            let res_opt = run(entry, exec);
            if let Some(res) = res_opt {
                results.push(res);
            }
            proof {
                assert(results_view(results@) =~= category_results(
                    old(exec).plan@,
                    listing.entries@.take(i as int + 1),
                ));
                assert(log_view(exec.log@) =~= log_view(old(exec).log@) + category_calls(
                    listing.entries@.take(i as int + 1),
                ));
            }
        }
        i += 1;
    }
    proof {
        assert(listing.entries@.take(listing.entries@.len() as int) =~= listing.entries@);
    }
    Ok(results)
}

/// Validity of one result record: all three checks passed.
pub open spec fn valid_of(r: RunResults) -> bool {
    r.fmt && r.clippy && r.test
}

/// Every record in the run set is valid.
pub open spec fn all_valid(rs: Seq<RunResults>) -> bool {
    forall|i: int| 0 <= i < rs.len() ==> valid_of(rs[i])
}

/// The position of the first invalid record, in run-set order.
pub open spec fn first_invalid_index(rs: Seq<RunResults>) -> int
    decreases rs.len(),
{
    if rs.len() == 0 {
        0
    } else if !valid_of(rs[0]) {
        0
    } else {
        1 + first_invalid_index(rs.subrange(1, rs.len() as int))
    }
}

/// Law: when a run set holds an invalid record, `first_invalid_index`
/// names an invalid record and everything before it is valid.
pub proof fn lemma_first_invalid_index(rs: Seq<RunResults>)
    requires
        !all_valid(rs),
    ensures
        0 <= first_invalid_index(rs) < rs.len(),
        !valid_of(rs[first_invalid_index(rs)]),
        forall|j: int| 0 <= j < first_invalid_index(rs) ==> valid_of(rs[j]),
    decreases rs.len(),
{
    if rs.len() > 0 && valid_of(rs[0]) {
        let tail = rs.subrange(1, rs.len() as int);
        assert(!all_valid(tail)) by {
            if all_valid(tail) {
                assert forall|i: int| 0 <= i < rs.len() implies valid_of(rs[i]) by {
                    if i > 0 {
                        assert(rs[i] == tail[i - 1]);
                    }
                }
            }
        }
        lemma_first_invalid_index(tail);
        assert forall|j: int| 0 <= j < first_invalid_index(rs) implies valid_of(rs[j]) by {
            if j > 0 {
                assert(rs[j] == tail[j - 1]);
            }
        }
    }
}

proof fn lemma_first_invalid_at(rs: Seq<RunResults>, i: int)
    requires
        0 <= i < rs.len(),
        !valid_of(rs[i]),
        forall|j: int| 0 <= j < i ==> valid_of(rs[j]),
    ensures
        first_invalid_index(rs) == i,
    decreases i,
{
    if i > 0 {
        let tail = rs.subrange(1, rs.len() as int);
        assert(!valid_of(tail[i - 1]));
        assert forall|j: int| 0 <= j < i - 1 implies valid_of(tail[j]) by {
            assert(tail[j] == rs[j + 1]);
        }
        lemma_first_invalid_at(tail, i - 1);
    }
}

/// The enforcement point of the version-bump workflow: succeeds when
/// every project in the run set is valid; otherwise it fails naming the
/// first invalid project's path, in run-set order.
pub fn gate(run_set: &Vec<RunResults>) -> (r: Result<(), CiError>)
    ensures
        (r is Ok) <==> all_valid(run_set@),
        !all_valid(run_set@) ==> (r matches Err(CiError::GateFailure { path: p }) && p@
            == run_set@[first_invalid_index(run_set@)].path@),
{
    let mut i: usize = 0;
    while i < run_set.len()
        invariant
            0 <= i <= run_set@.len(),
            forall|j: int| 0 <= j < i ==> valid_of(run_set@[j]),
        decreases run_set@.len() - i,
    {
        if !run_set[i].is_valid() {
            proof {
                assert(!valid_of(run_set@[i as int]));
                assert(!all_valid(run_set@));
                lemma_first_invalid_at(run_set@, i as int);
            }
            return Err(CiError::GateFailure { path: run_set[i].path.clone() });
        }
        i += 1;
    }
    Ok(())
}

/// Law: a project that holds the descriptor file gets exactly three check
/// invocations, one per kind, in the fixed order format, lint, test —
/// whatever the individual outcomes are.
pub proof fn lemma_run_always_three_checks(path: Seq<char>)
    ensures
        calls_of(path).len() == 3,
        calls_of(path)[0] == (CheckCallV { path, kind: CheckKind::Fmt }),
        calls_of(path)[1] == (CheckCallV { path, kind: CheckKind::Clippy }),
        calls_of(path)[2] == (CheckCallV { path, kind: CheckKind::Test }),
{
}

/// Law: a category run never yields a record for a child that lacks the
/// descriptor file — every record carries the path of a qualifying child.
pub proof fn lemma_category_results_only_projects(
    plan: Seq<ProjectPlan>,
    entries: Seq<FolderInfo>,
    i: int,
)
    requires
        0 <= i < category_results(plan, entries).len(),
    ensures
        exists|j: int|
            0 <= j < entries.len() && is_cargo_folder(entries[j]) && category_results(
                plan,
                entries,
            )[i].path == entries[j].path@,
    decreases entries.len(),
{
    let rs = category_results(plan, entries);
    let rest = category_results(plan, entries.drop_last());
    if is_cargo_folder(entries.last()) && i == rest.len() {
        assert(rs[i].path == entries[entries.len() - 1].path@);
    } else {
        lemma_category_results_only_projects(plan, entries.drop_last(), i);
        let j = choose|j: int|
            0 <= j < entries.drop_last().len() && is_cargo_folder(entries.drop_last()[j])
                && rest[i].path == entries.drop_last()[j].path@;
        assert(entries.drop_last()[j] == entries[j]);
        assert(rs[i].path == entries[j].path@);
    }
}

/// Law: a category run yields exactly one record per discovered project,
/// in discovery order, each holding the discovered path and the planned
/// outcome of each of its three checks.
pub proof fn lemma_category_matches_discovery(plan: Seq<ProjectPlan>, entries: Seq<FolderInfo>)
    ensures
        category_results(plan, entries).len() == cargo_folder_paths(entries).len(),
        forall|i: int|
            0 <= i < category_results(plan, entries).len() ==> category_results(plan, entries)[i]
                == result_of(plan, cargo_folder_paths(entries)[i]),
    decreases entries.len(),
{
    if entries.len() > 0 {
        lemma_category_matches_discovery(plan, entries.drop_last());
    }
}

/// One snapshot of the whole source tree: the root project and the three
/// category folders, each with its listing.
#[derive(Debug)]
pub struct BaseDir {
    pub root: FolderInfo,
    pub examples: FolderListing,
    pub starters: FolderListing,
    pub loco_cli: FolderListing,
}

/// The full run set `all_resources` produces when nothing is missing:
/// the root project first, then each category in its fixed order.
pub open spec fn all_results_of(plan: Seq<ProjectPlan>, base: BaseDir) -> Seq<RunResultsV> {
    seq![result_of(plan, base.root.path@)] + category_results(plan, base.examples.entries@)
        + category_results(plan, base.starters.entries@) + category_results(
        plan,
        base.loco_cli.entries@,
    )
}

/// The invocations `all_resources` makes when nothing is missing.
pub open spec fn all_calls_of(base: BaseDir) -> Seq<CheckCallV> {
    calls_of(base.root.path@) + category_calls(base.examples.entries@) + category_calls(
        base.starters.entries@,
    ) + category_calls(base.loco_cli.entries@)
}

/// Run CI on all resources: the root library first, then the example,
/// starter and CLI-tooling categories. A root folder that is not a project
/// is fatal; so is a missing category folder.
pub fn all_resources(base: &BaseDir, exec: &mut CheckExec) -> (r: Result<Vec<RunResults>, CiError>)
    ensures
        final(exec).plan == old(exec).plan,
        !base.root.has_manifest ==> (r matches Err(CiError::NotFound { path: p }) && p@
            == base.root.path@ && final(exec).log == old(exec).log),
        base.root.has_manifest && !base.examples.exists ==> (r matches Err(
            CiError::NotFound { path: p },
        ) && p@ == base.examples.path@ && log_view(final(exec).log@) == log_view(old(exec).log@)
            + calls_of(base.root.path@)),
        base.root.has_manifest && base.examples.exists && !base.starters.exists ==> (r matches Err(
            CiError::NotFound { path: p },
        ) && p@ == base.starters.path@ && log_view(final(exec).log@) == log_view(old(exec).log@)
            + calls_of(base.root.path@) + category_calls(base.examples.entries@)),
        base.root.has_manifest && base.examples.exists && base.starters.exists
            && !base.loco_cli.exists ==> (r matches Err(CiError::NotFound { path: p }) && p@
            == base.loco_cli.path@ && log_view(final(exec).log@) == log_view(old(exec).log@)
            + calls_of(base.root.path@) + category_calls(base.examples.entries@) + category_calls(
            base.starters.entries@,
        )),
        base.root.has_manifest && base.examples.exists && base.starters.exists
            && base.loco_cli.exists ==> (r matches Ok(v) && results_view(v@) == all_results_of(
            old(exec).plan@,
            *base,
        ) && log_view(final(exec).log@) == log_view(old(exec).log@) + all_calls_of(*base)),
{
    let root_res = match run(&base.root, exec) {
        Some(res) => res,
        None => {
            return Err(CiError::NotFound { path: base.root.path.clone() });
        },
    };
    let mut results: Vec<RunResults> = Vec::new();
    results.push(root_res);
    let mut from_examples = match inner_folders(&base.examples, exec) {
        Ok(v) => v,
        Err(e) => {
            return Err(e);
        },
    };
    results.append(&mut from_examples);
    let mut from_starters = match inner_folders(&base.starters, exec) {
        Ok(v) => v,
        Err(e) => {
            return Err(e);
        },
    };
    results.append(&mut from_starters);
    let mut from_cli = match inner_folders(&base.loco_cli, exec) {
        Ok(v) => v,
        Err(e) => {
            return Err(e);
        },
    };
    results.append(&mut from_cli);
    proof {
        assert(results_view(results@) =~= all_results_of(old(exec).plan@, *base));
        assert(log_view(exec.log@) =~= log_view(old(exec).log@) + all_calls_of(*base));
    }
    Ok(results)
}

/// Law: the full CI run is deterministic — one tree snapshot and one
/// outcome table pin the whole run set, ordering and field values alike,
/// so two runs over the same snapshot and table agree.
pub proof fn lemma_all_resources_deterministic(
    plan: Seq<ProjectPlan>,
    base: BaseDir,
    rs1: Seq<RunResultsV>,
    rs2: Seq<RunResultsV>,
)
    requires
        rs1 == all_results_of(plan, base),
        rs2 == all_results_of(plan, base),
    ensures
        rs1 == rs2,
{
}

} // verus!
