//! Checks made after the plan is shown and before any file is touched.
use vstd::prelude::*;

use crate::cli::{ConflictArg, ShowMovieArgs};
use crate::config::{str_eq, AppConfig, ConflictMode};
use crate::paths::{parent, parent_of};
use crate::planner::{find_nearest_existing, nearest_existing, ops_view, state_at, OpView, PathKind, PathState, Plan};
use crate::text::{concat, copy_str, decimal, join_strings, join_with, usize_to_string};

verus! {

/// What to do with destinations that already exist.
#[derive(Debug, Clone, Copy, PartialEq, Eq)]
pub enum ConflictPolicy {
    Skip,
    Overwrite,
    Abort,
}

/// `--overwrite` wins; then `--on-conflict`; then the configured conflict mode.
pub open spec fn policy_of(args: ShowMovieArgs, config: AppConfig) -> ConflictPolicy {
    if args.overwrite {
        ConflictPolicy::Overwrite
    } else {
        match args.on_conflict {
            Some(ConflictArg::Overwrite) => ConflictPolicy::Overwrite,
            Some(ConflictArg::Abort) => ConflictPolicy::Abort,
            Some(ConflictArg::Skip) => ConflictPolicy::Skip,
            None => match config.general.conflict_mode {
                ConflictMode::Skip => ConflictPolicy::Skip,
                ConflictMode::Overwrite => ConflictPolicy::Overwrite,
                ConflictMode::Abort => ConflictPolicy::Abort,
            },
        }
    }
}

pub fn resolve_conflict_policy(args: &ShowMovieArgs, config: &AppConfig) -> (r: ConflictPolicy)
    ensures
        r == policy_of(*args, *config),
{
    if args.overwrite {
        return ConflictPolicy::Overwrite;
    }
    match args.on_conflict {
        Some(ConflictArg::Overwrite) => ConflictPolicy::Overwrite,
        Some(ConflictArg::Abort) => ConflictPolicy::Abort,
        Some(ConflictArg::Skip) => ConflictPolicy::Skip,
        None => match config.general.conflict_mode {
            ConflictMode::Skip => ConflictPolicy::Skip,
            ConflictMode::Overwrite => ConflictPolicy::Overwrite,
            ConflictMode::Abort => ConflictPolicy::Abort,
        },
    }
}

pub open spec fn abort_message(n: nat) -> Seq<char> {
    "aborting due to "@ + decimal(n) + " conflict(s); rerun with --on-conflict skip or --on-conflict overwrite"@
}

/// Fails when the policy is `abort` and the plan has conflicts.
pub fn preflight_conflicts(plan: &Plan, policy: ConflictPolicy) -> (r: Result<(), String>)
    ensures
        r is Err <==> (plan.conflicts@.len() > 0 && policy == ConflictPolicy::Abort),
        r matches Err(m) ==> m@ == abort_message(plan.conflicts@.len()),
{
    if plan.conflicts.len() == 0 {
        return Ok(());
    }
    match policy {
        ConflictPolicy::Skip | ConflictPolicy::Overwrite => Ok(()),
        ConflictPolicy::Abort => {
            let mut msg = copy_str("aborting due to ");
            let n = usize_to_string(plan.conflicts.len());
            msg.append(n.as_str());
            msg.append(" conflict(s); rerun with --on-conflict skip or --on-conflict overwrite");
            Err(msg)
        },
    }
}

/// The parent folders of the destinations, each once, in order of first appearance.
pub open spec fn destination_parents(ops: Seq<OpView>) -> Seq<Seq<char>>
    decreases ops.len(),
{
    if ops.len() == 0 {
        Seq::empty()
    } else {
        let prev = destination_parents(ops.drop_last());
        match parent_of(ops.last().1) {
            Some(p) => if prev.contains(p) {
                prev
            } else {
                prev.push(p)
            },
            None => prev,
        }
    }
}

/// The nearest existing ancestor of `p` (or `p` itself), when it is a file.
pub open spec fn file_blocker(p: Seq<char>, entries: Seq<PathState>) -> Option<Seq<char>> {
    match nearest_existing(p, entries) {
        Some(a) => match state_at(entries, a) {
            Some(s) => if s.kind == PathKind::File {
                Some(a)
            } else {
                None
            },
            None => None,
        },
        None => None,
    }
}

/// The nearest existing ancestor of `p` (or `p` itself), when it is a read-only
/// directory.
pub open spec fn read_only_blocker(p: Seq<char>, entries: Seq<PathState>) -> Option<Seq<char>> {
    match nearest_existing(p, entries) {
        Some(a) => match state_at(entries, a) {
            Some(s) => if s.kind != PathKind::File && s.read_only {
                Some(a)
            } else {
                None
            },
            None => None,
        },
        None => None,
    }
}

/// `parent blocked by file` for each parent folder that a file blocks.
pub open spec fn file_blocks(parents: Seq<Seq<char>>, entries: Seq<PathState>) -> Seq<Seq<char>>
    decreases parents.len(),
{
    if parents.len() == 0 {
        Seq::empty()
    } else {
        let prev = file_blocks(parents.drop_last(), entries);
        match file_blocker(parents.last(), entries) {
            Some(a) => prev.push(parents.last() + " blocked by "@ + a),
            None => prev,
        }
    }
}

/// The read-only directories that stand in for the parent folders.
pub open spec fn read_only_dirs(parents: Seq<Seq<char>>, entries: Seq<PathState>) -> Seq<Seq<char>>
    decreases parents.len(),
{
    if parents.len() == 0 {
        Seq::empty()
    } else {
        let prev = read_only_dirs(parents.drop_last(), entries);
        match read_only_blocker(parents.last(), entries) {
            Some(a) => prev.push(a),
            None => prev,
        }
    }
}

pub open spec fn preflight_message(ro: Seq<Seq<char>>, pf: Seq<Seq<char>>) -> Seq<char> {
    let a = if ro.len() > 0 {
        seq!["read-only directories: "@ + join_with(ro, ", "@) + " (adjust permissions or choose a different destination)"@]
    } else {
        Seq::<Seq<char>>::empty()
    };
    let b = if pf.len() > 0 {
        seq!["destination parent path collides with existing file: "@ + join_with(pf, ", "@)]
    } else {
        Seq::<Seq<char>>::empty()
    };
    "destination preflight failed: "@ + join_with(a + b, "; "@)
}

pub open spec fn plan_read_only(plan: Plan, entries: Seq<PathState>) -> Seq<Seq<char>> {
    read_only_dirs(destination_parents(ops_view(plan.operations@)), entries)
}

pub open spec fn plan_file_blocks(plan: Plan, entries: Seq<PathState>) -> Seq<Seq<char>> {
    file_blocks(destination_parents(ops_view(plan.operations@)), entries)
}

/// Whether `v` holds `p`.
fn holds(v: &Vec<String>, p: &str) -> (r: bool)
    ensures
        r == v.deep_view().contains(p@),
{
    let mut k: usize = 0;
    while k < v.len()
        invariant
            k <= v.len(),
            forall|q: int| 0 <= q < k ==> v.deep_view()[q] != p@,
        decreases v.len() - k,
    {
        if str_eq(v[k].as_str(), p) {
            assert(v.deep_view()[k as int] == p@);
            return true;
        }
        k = k + 1;
    }
    false
}

/// The parent folders of the plan's destinations.
pub fn plan_parents(plan: &Plan) -> (r: Vec<String>)
    ensures
        r.deep_view() == destination_parents(ops_view(plan.operations@)),
{
    let ghost ops = ops_view(plan.operations@);
    let mut out: Vec<String> = Vec::new();
    let mut i: usize = 0;
    assert(out.deep_view() =~= destination_parents(ops.take(0)));
    while i < plan.operations.len()
        invariant
            ops == ops_view(plan.operations@),
            i <= plan.operations@.len(),
            out.deep_view() == destination_parents(ops.take(i as int)),
        decreases plan.operations.len() - i,
    {
        assert(ops.take(i + 1).drop_last() =~= ops.take(i as int));
        assert(ops.take(i + 1).last() == plan.operations@[i as int]@);
        match parent(plan.operations[i].destination.as_str()) {
            None => {},
            Some(p) => {
                if !holds(&out, p.as_str()) {
                    let ghost before = out.deep_view();
                    out.push(p);
                    assert(out.deep_view() =~= before.push(p@));
                }
            },
        }
        i = i + 1;
    }
    assert(ops.take(ops.len() as int) =~= ops);
    out
}

/// Fails, naming them, when destination folders would have to be made under a file or
/// inside a read-only directory, as `existing` shows the paths above them.
pub fn preflight_destination_access(plan: &Plan, existing: &[PathState]) -> (r: Result<(), String>)
    ensures
        r is Ok <==> (plan_read_only(*plan, existing@).len() == 0 && plan_file_blocks(*plan, existing@).len() == 0),
        r matches Err(m) ==> m@ == preflight_message(plan_read_only(*plan, existing@), plan_file_blocks(*plan, existing@)),
{
    let parents = plan_parents(plan);
    let ghost pv = parents.deep_view();
    let mut read_only: Vec<String> = Vec::new();
    let mut blocked: Vec<String> = Vec::new();
    let mut i: usize = 0;
    assert(read_only.deep_view() =~= read_only_dirs(pv.take(0), existing@));
    assert(blocked.deep_view() =~= file_blocks(pv.take(0), existing@));
    while i < parents.len()
        invariant
            pv == parents.deep_view(),
            i <= parents.len(),
            read_only.deep_view() == read_only_dirs(pv.take(i as int), existing@),
            blocked.deep_view() == file_blocks(pv.take(i as int), existing@),
        decreases parents.len() - i,
    {
        assert(pv.take(i + 1).drop_last() =~= pv.take(i as int));
        assert(pv.take(i + 1).last() == parents@[i as int]@);
        match find_nearest_existing(parents[i].as_str(), existing) {
            None => {},
            Some((a, k)) => {
                match existing[k].kind {
                    PathKind::File => {
                        let mut line = copy_str(parents[i].as_str());
                        line.append(" blocked by ");
                        line.append(a.as_str());
                        let ghost before = blocked.deep_view();
                        blocked.push(line);
                        assert(blocked.deep_view() =~= before.push(parents@[i as int]@ + " blocked by "@ + a@));
                    },
                    PathKind::Directory => {
                        if existing[k].read_only {
                            let ghost before = read_only.deep_view();
                            read_only.push(a);
                            assert(read_only.deep_view() =~= before.push(a@));
                        }
                    },
                }
            },
        }
        i = i + 1;
    }
    assert(pv.take(pv.len() as int) =~= pv);
    if read_only.len() == 0 && blocked.len() == 0 {
        return Ok(());
    }
    let mut reasons: Vec<String> = Vec::new();
    let ghost a = if read_only.len() > 0 {
        seq!["read-only directories: "@ + join_with(read_only.deep_view(), ", "@) + " (adjust permissions or choose a different destination)"@]
    } else {
        Seq::<Seq<char>>::empty()
    };
    let ghost b = if blocked.len() > 0 {
        seq!["destination parent path collides with existing file: "@ + join_with(blocked.deep_view(), ", "@)]
    } else {
        Seq::<Seq<char>>::empty()
    };
    if read_only.len() > 0 {
        let mut reason = copy_str("read-only directories: ");
        let joined = join_strings(&read_only, ", ");
        reason.append(joined.as_str());
        reason.append(" (adjust permissions or choose a different destination)");
        reasons.push(reason);
    }
    assert(reasons.deep_view() =~= a);
    if blocked.len() > 0 {
        let joined = join_strings(&blocked, ", ");
        let reason = concat("destination parent path collides with existing file: ", joined.as_str());
        reasons.push(reason);
    }
    assert(reasons.deep_view() =~= a + b);
    let all = join_strings(&reasons, "; ");
    Err(concat("destination preflight failed: ", all.as_str()))
}

/// How a `show` or `movie` run proceeds.
#[derive(Debug, Clone, Copy, PartialEq, Eq)]
pub struct RunFlags {
    /// Show the plan only.
    pub dry_run: bool,
    /// Ask nothing: no questions about folders or years, no confirmation.
    pub yes_mode: bool,
    /// Replace existing destinations.
    pub overwrite: bool,
    /// Remove empty source folders afterwards.
    pub clean: bool,
}

/// `--dry-run` and `--yes` count whether given before or after the subcommand, and the
/// configuration may confirm or clean by default.
pub open spec fn flags_of(args: ShowMovieArgs, config: AppConfig, cli_yes: bool, cli_dry_run: bool) -> RunFlags {
    RunFlags {
        dry_run: cli_dry_run || args.dry_run,
        yes_mode: cli_yes || args.yes || config.general.auto_confirm,
        overwrite: policy_of(args, config) == ConflictPolicy::Overwrite,
        clean: args.clean || config.general.clean_empty_dirs,
    }
}

pub fn run_flags(args: &ShowMovieArgs, config: &AppConfig, cli_yes: bool, cli_dry_run: bool) -> (r: RunFlags)
    ensures
        r == flags_of(*args, *config, cli_yes, cli_dry_run),
{
    let policy = resolve_conflict_policy(args, config);
    RunFlags {
        dry_run: cli_dry_run || args.dry_run,
        yes_mode: cli_yes || args.yes || config.general.auto_confirm,
        overwrite: match policy {
            ConflictPolicy::Overwrite => true,
            _ => false,
        },
        clean: args.clean || config.general.clean_empty_dirs,
    }
}

} // verus!
