//! The action executor: applies a rule's actions to one matched file, in
//! declared order, stopping the list at the first failure. Every decision —
//! destination checks, what a collision renames to — is made against the
//! filesystem model; the side effects performed are recorded as `Effect`
//! values in order, so a caller can replay them against a real filesystem.
use vstd::prelude::*;

use crate::config::Action;
use crate::fs_model::{
    lemma_lookup_len_le_max, max_path_len, spec_lookup, spec_remove, spec_set, EntryInfo, FsModel,
};
use crate::strutil::{
    self, basename_of, dec_of, ext_of_path, parent_dir_of, path_join, stem_of_name, zeros,
};
use crate::utils::{copy_file, move_file, spec_copy_file, spec_move_file};

verus! {

/// Why an action failed.
#[derive(Debug, Clone)]
pub enum ActionError {
    /// The destination directory of a move or copy does not exist.
    DestinationMissing(String),
    /// The source of a move or copy is a directory.
    IsADirectory(String),
    /// The source path has no base name to carry over.
    NoFileName(String),
    /// The underlying filesystem operation fails on the named path.
    Io(String),
}

/// View of `ActionError`.
pub ghost enum ActionErrorV {
    DestinationMissing(Seq<char>),
    IsADirectory(Seq<char>),
    NoFileName(Seq<char>),
    Io(Seq<char>),
}

impl View for ActionError {
    type V = ActionErrorV;

    open spec fn view(&self) -> ActionErrorV {
        match self {
            ActionError::DestinationMissing(p) => ActionErrorV::DestinationMissing(p@),
            ActionError::IsADirectory(p) => ActionErrorV::IsADirectory(p@),
            ActionError::NoFileName(p) => ActionErrorV::NoFileName(p@),
            ActionError::Io(p) => ActionErrorV::Io(p@),
        }
    }
}

/// One observable effect of running actions: a log line or a performed
/// (or, under dry-run, intended) filesystem operation, with full paths.
#[derive(Debug, Clone)]
pub enum Effect {
    /// An echo action's message.
    Echoed(String),
    /// A diagnostic about a path that was skipped or failed.
    Warned(String),
    Moved { from: String, to: String },
    Copied { from: String, to: String },
    Deleted(String),
    Renamed { from: String, to: String },
}

/// View of `Effect`.
pub ghost enum EffectV {
    Echoed(Seq<char>),
    Warned(Seq<char>),
    Moved(Seq<char>, Seq<char>),
    Copied(Seq<char>, Seq<char>),
    Deleted(Seq<char>),
    Renamed(Seq<char>, Seq<char>),
}

impl View for Effect {
    type V = EffectV;

    open spec fn view(&self) -> EffectV {
        match self {
            Effect::Echoed(m) => EffectV::Echoed(m@),
            Effect::Warned(m) => EffectV::Warned(m@),
            Effect::Moved { from, to } => EffectV::Moved(from@, to@),
            Effect::Copied { from, to } => EffectV::Copied(from@, to@),
            Effect::Deleted(p) => EffectV::Deleted(p@),
            Effect::Renamed { from, to } => EffectV::Renamed(from@, to@),
        }
    }
}

/// The views of a sequence of effects.
pub open spec fn effects_view(s: Seq<Effect>) -> Seq<EffectV> {
    s.map(|i: int, e: Effect| e@)
}

pub proof fn lemma_effects_view_push(s: Seq<Effect>, e: Effect)
    ensures
        effects_view(s.push(e)) == effects_view(s).push(e@),
{
    assert(effects_view(s.push(e)) =~= effects_view(s).push(e@));
}

/// The outcome of running zero or more actions: the result, the model they
/// leave behind, and the effects they emit in order.
pub ghost struct RunOut {
    pub res: Result<(), ActionErrorV>,
    pub fs: Seq<(Seq<char>, EntryInfo)>,
    pub effs: Seq<EffectV>,
}

/// The smallest `k'` at or after `k` whose rename candidate
/// `parent/<base><k' zeros><tail>` names no entry of the model. Appending
/// zeros makes the embedded number grow, and the candidates grow in length,
/// so one is free after at most as many steps as the model's longest path.
pub open spec fn spec_free_k(
    fsv: Seq<(Seq<char>, EntryInfo)>,
    parent: Seq<char>,
    base: Seq<char>,
    tail: Seq<char>,
    k: nat,
) -> nat
    decreases max_path_len(fsv) + 1 - path_join(parent, base + zeros(k) + tail).len(),
        via spec_free_k_decreases
{
    if spec_lookup(fsv, path_join(parent, base + zeros(k) + tail)) is None {
        k
    } else {
        spec_free_k(fsv, parent, base, tail, k + 1)
    }
}

#[via_fn]
proof fn spec_free_k_decreases(
    fsv: Seq<(Seq<char>, EntryInfo)>,
    parent: Seq<char>,
    base: Seq<char>,
    tail: Seq<char>,
    k: nat,
) {
    let cand = path_join(parent, base + zeros(k) + tail);
    if spec_lookup(fsv, cand) is Some {
        lemma_lookup_len_le_max(fsv, cand);
        assert(path_join(parent, base + zeros(k + 1) + tail).len() == cand.len() + 1);
    }
}

/// What one rename action does: the file moves to `parent/<replacement>`
/// when that path is free; otherwise to the first free timestamped
/// candidate, whose name is the replacement's stem, the clock reading in
/// milliseconds, a run of zeros, and the source's extension.
pub open spec fn spec_rename(
    fsv: Seq<(Seq<char>, EntryInfo)>,
    path: Seq<char>,
    repl: Seq<char>,
    now_millis: u64,
    dry: bool,
) -> RunOut {
    let parent = parent_dir_of(path);
    let first = path_join(parent, repl);
    match spec_lookup(fsv, path) {
        None => RunOut { res: Err(ActionErrorV::Io(path)), fs: fsv, effs: Seq::empty() },
        Some(e) => if spec_lookup(fsv, first) is None {
            RunOut {
                res: Ok(()),
                fs: if dry {
                    fsv
                } else {
                    spec_set(spec_remove(fsv, path), first, e)
                },
                effs: seq![EffectV::Renamed(path, first)],
            }
        } else {
            let base = stem_of_name(basename_of(repl)) + dec_of(now_millis as nat);
            let tail = match ext_of_path(path) {
                Some(x) => seq!['.'] + x,
                None => Seq::<char>::empty(),
            };
            let k = spec_free_k(fsv, parent, base, tail, 0);
            let target = path_join(parent, base + zeros(k) + tail);
            RunOut {
                res: Ok(()),
                fs: if dry {
                    fsv
                } else {
                    spec_set(spec_remove(fsv, path), target, e)
                },
                effs: seq![EffectV::Renamed(path, target)],
            }
        },
    }
}

/// What one action does to the model at `fsv`, applied to the file at
/// `path`. Every destination check precedes any change; under `dry` the
/// checks and the recorded effect are the same but the model stays as it
/// is.
pub open spec fn spec_step(
    fsv: Seq<(Seq<char>, EntryInfo)>,
    a: Action,
    path: Seq<char>,
    now_millis: u64,
    dry: bool,
) -> RunOut {
    match a {
        Action::Echo(m) => RunOut { res: Ok(()), fs: fsv, effs: seq![EffectV::Echoed(m@)] },
        Action::Move(d) => if spec_lookup(fsv, d@) is None {
            RunOut {
                res: Err(ActionErrorV::DestinationMissing(d@)),
                fs: fsv,
                effs: Seq::empty(),
            }
        } else {
            let (r, fs2) = spec_move_file(fsv, path, d@);
            match r {
                Ok(_) => RunOut {
                    res: Ok(()),
                    fs: if dry {
                        fsv
                    } else {
                        fs2
                    },
                    effs: seq![EffectV::Moved(path, path_join(d@, basename_of(path)))],
                },
                Err(e) => RunOut { res: Err(e), fs: fsv, effs: Seq::empty() },
            }
        },
        Action::Copy(d) => if spec_lookup(fsv, d@) is None {
            RunOut {
                res: Err(ActionErrorV::DestinationMissing(d@)),
                fs: fsv,
                effs: Seq::empty(),
            }
        } else {
            let (r, fs2) = spec_copy_file(fsv, path, d@);
            match r {
                Ok(_) => RunOut {
                    res: Ok(()),
                    fs: if dry {
                        fsv
                    } else {
                        fs2
                    },
                    effs: seq![EffectV::Copied(path, path_join(d@, basename_of(path)))],
                },
                Err(e) => RunOut { res: Err(e), fs: fsv, effs: Seq::empty() },
            }
        },
        Action::Delete => match spec_lookup(fsv, path) {
            Some(EntryInfo::File(_)) => RunOut {
                res: Ok(()),
                fs: if dry {
                    fsv
                } else {
                    spec_remove(fsv, path)
                },
                effs: seq![EffectV::Deleted(path)],
            },
            _ => RunOut { res: Err(ActionErrorV::Io(path)), fs: fsv, effs: Seq::empty() },
        },
        Action::Rename { pattern: _, replacement } => spec_rename(
            fsv,
            path,
            replacement@,
            now_millis,
            dry,
        ),
    }
}

/// What the actions from index `i` on do: each is applied in order, and the
/// first failure stops the list, leaving the model as the failed action
/// left it.
pub open spec fn spec_run_from(
    fsv: Seq<(Seq<char>, EntryInfo)>,
    actions: Seq<Action>,
    i: int,
    path: Seq<char>,
    now_millis: u64,
    dry: bool,
) -> RunOut
    decreases actions.len() - i,
{
    if i < 0 || i >= actions.len() {
        RunOut { res: Ok(()), fs: fsv, effs: Seq::empty() }
    } else {
        let s = spec_step(fsv, actions[i], path, now_millis, dry);
        match s.res {
            Err(_) => s,
            Ok(_) => {
                let r2 = spec_run_from(s.fs, actions, i + 1, path, now_millis, dry);
                RunOut { res: r2.res, fs: r2.fs, effs: s.effs + r2.effs }
            },
        }
    }
}

/// What running a whole action list against the file at `path` does.
pub open spec fn spec_run(
    fsv: Seq<(Seq<char>, EntryInfo)>,
    actions: Seq<Action>,
    path: Seq<char>,
    now_millis: u64,
    dry: bool,
) -> RunOut {
    spec_run_from(fsv, actions, 0, path, now_millis, dry)
}

/// One action leaves a well-formed model well-formed: every path still
/// occurs at most once.
pub proof fn lemma_step_wf(
    fsv: Seq<(Seq<char>, EntryInfo)>,
    a: Action,
    path: Seq<char>,
    now_millis: u64,
    dry: bool,
)
    requires
        crate::fs_model::wf(fsv),
    ensures
        crate::fs_model::wf(spec_step(fsv, a, path, now_millis, dry).fs),
{
    match a {
        Action::Echo(_) => {},
        Action::Move(d) => {
            crate::fs_model::lemma_remove_wf(fsv, path);
            crate::fs_model::lemma_set_wf(
                spec_remove(fsv, path),
                path_join(d@, basename_of(path)),
                spec_lookup(fsv, path).unwrap(),
            );
        },
        Action::Copy(d) => {
            crate::fs_model::lemma_set_wf(
                fsv,
                path_join(d@, basename_of(path)),
                spec_lookup(fsv, path).unwrap(),
            );
        },
        Action::Delete => {
            crate::fs_model::lemma_remove_wf(fsv, path);
        },
        Action::Rename { pattern: _, replacement } => {
            let parent = parent_dir_of(path);
            let first = path_join(parent, replacement@);
            crate::fs_model::lemma_remove_wf(fsv, path);
            match spec_lookup(fsv, path) {
                None => {},
                Some(e) => {
                    if spec_lookup(fsv, first) is None {
                        crate::fs_model::lemma_set_wf(spec_remove(fsv, path), first, e);
                    } else {
                        let base = stem_of_name(basename_of(replacement@)) + dec_of(
                            now_millis as nat,
                        );
                        let tail = match ext_of_path(path) {
                            Some(x) => seq!['.'] + x,
                            None => Seq::<char>::empty(),
                        };
                        let k = spec_free_k(fsv, parent, base, tail, 0);
                        crate::fs_model::lemma_set_wf(
                            spec_remove(fsv, path),
                            path_join(parent, base + zeros(k) + tail),
                            e,
                        );
                    }
                },
            }
        },
    }
}

/// Actions never create, remove or replace a directory entry: one step on
/// a file path leaves the longest directory path as it was, and leaves the
/// file path itself holding no directory.
pub proof fn lemma_step_dirs(
    fsv: Seq<(Seq<char>, EntryInfo)>,
    a: Action,
    path: Seq<char>,
    now_millis: u64,
    dry: bool,
)
    requires
        crate::fs_model::wf(fsv),
        !crate::fs_model::lookup_dirlike(fsv, path),
    ensures
        crate::fs_model::max_dir_len(spec_step(fsv, a, path, now_millis, dry).fs)
            == crate::fs_model::max_dir_len(fsv),
        !crate::fs_model::lookup_dirlike(spec_step(fsv, a, path, now_millis, dry).fs, path),
{
    let out = spec_step(fsv, a, path, now_millis, dry);
    if out.fs == fsv {
        return ;
    }
    match a {
        Action::Echo(_) => {},
        Action::Move(d) => {
            lemma_relocate_dirs(fsv, path, path_join(d@, basename_of(path)));
        },
        Action::Copy(d) => {
            let target = path_join(d@, basename_of(path));
            let f = spec_lookup(fsv, path)->Some_0;
            crate::fs_model::lemma_max_dir_len_set_nondir(fsv, target, f);
            crate::fs_model::lemma_lookup_set(fsv, target, f, path);
        },
        Action::Delete => {
            crate::fs_model::lemma_max_dir_len_remove_nondir(fsv, path);
            crate::fs_model::lemma_lookup_remove_gone(fsv, path);
        },
        Action::Rename { pattern: _, replacement } => {
            let parent = parent_dir_of(path);
            let first = path_join(parent, replacement@);
            if spec_lookup(fsv, first) is None {
                lemma_relocate_dirs(fsv, path, first);
            } else {
                let base = stem_of_name(basename_of(replacement@)) + dec_of(now_millis as nat);
                let tail = match ext_of_path(path) {
                    Some(x) => seq!['.'] + x,
                    None => Seq::<char>::empty(),
                };
                lemma_free_k_is_free(fsv, parent, base, tail, 0);
                let k = spec_free_k(fsv, parent, base, tail, 0);
                lemma_relocate_dirs(fsv, path, path_join(parent, base + zeros(k) + tail));
            }
        },
    }
}

/// Moving the non-directory entry at `path` to a `target` that holds no
/// directory keeps the longest directory path and leaves both paths free of
/// directories.
proof fn lemma_relocate_dirs(fsv: Seq<(Seq<char>, EntryInfo)>, path: Seq<char>, target: Seq<char>)
    requires
        crate::fs_model::wf(fsv),
        spec_lookup(fsv, path) is Some,
        !crate::fs_model::lookup_dirlike(fsv, path),
        !crate::fs_model::lookup_dirlike(fsv, target),
    ensures
        ({
            let e = spec_lookup(fsv, path)->Some_0;
            let fs2 = spec_set(spec_remove(fsv, path), target, e);
            &&& crate::fs_model::max_dir_len(fs2) == crate::fs_model::max_dir_len(fsv)
            &&& !crate::fs_model::lookup_dirlike(fs2, path)
        }),
{
    let e = spec_lookup(fsv, path)->Some_0;
    let removed = spec_remove(fsv, path);
    crate::fs_model::lemma_max_dir_len_remove_nondir(fsv, path);
    crate::fs_model::lemma_lookup_remove_gone(fsv, path);
    if target == path {
    } else {
        crate::fs_model::lemma_lookup_remove(fsv, path, target);
    }
    crate::fs_model::lemma_max_dir_len_set_nondir(removed, target, e);
    crate::fs_model::lemma_lookup_set(removed, target, e, path);
}

/// Running a list of actions on a file path leaves the longest directory
/// path as it was: the executor never touches directory entries.
pub proof fn lemma_run_dirs(
    fsv: Seq<(Seq<char>, EntryInfo)>,
    actions: Seq<Action>,
    i: int,
    path: Seq<char>,
    now_millis: u64,
    dry: bool,
)
    requires
        crate::fs_model::wf(fsv),
        !crate::fs_model::lookup_dirlike(fsv, path),
    ensures
        crate::fs_model::max_dir_len(spec_run_from(fsv, actions, i, path, now_millis, dry).fs)
            == crate::fs_model::max_dir_len(fsv),
    decreases actions.len() - i,
{
    if 0 <= i < actions.len() {
        let s = spec_step(fsv, actions[i], path, now_millis, dry);
        lemma_step_dirs(fsv, actions[i], path, now_millis, dry);
        lemma_step_wf(fsv, actions[i], path, now_millis, dry);
        if s.res is Ok {
            lemma_run_dirs(s.fs, actions, i + 1, path, now_millis, dry);
        }
    }
}

/// Running a list of actions leaves a well-formed model well-formed.
pub proof fn lemma_run_wf(
    fsv: Seq<(Seq<char>, EntryInfo)>,
    actions: Seq<Action>,
    i: int,
    path: Seq<char>,
    now_millis: u64,
    dry: bool,
)
    requires
        crate::fs_model::wf(fsv),
    ensures
        crate::fs_model::wf(spec_run_from(fsv, actions, i, path, now_millis, dry).fs),
    decreases actions.len() - i,
{
    if 0 <= i < actions.len() {
        let s = spec_step(fsv, actions[i], path, now_millis, dry);
        lemma_step_wf(fsv, actions[i], path, now_millis, dry);
        if s.res is Ok {
            lemma_run_wf(s.fs, actions, i + 1, path, now_millis, dry);
        }
    }
}

/// The candidate `spec_free_k` settles on is indeed free, and no earlier
/// than where the search started.
pub proof fn lemma_free_k_is_free(
    fsv: Seq<(Seq<char>, EntryInfo)>,
    parent: Seq<char>,
    base: Seq<char>,
    tail: Seq<char>,
    k: nat,
)
    ensures
        ({
            let kk = spec_free_k(fsv, parent, base, tail, k);
            &&& kk >= k
            &&& spec_lookup(fsv, path_join(parent, base + zeros(kk) + tail)) is None
        }),
    decreases max_path_len(fsv) + 1 - path_join(parent, base + zeros(k) + tail).len(),
{
    let cand = path_join(parent, base + zeros(k) + tail);
    if spec_lookup(fsv, cand) is Some {
        lemma_lookup_len_le_max(fsv, cand);
        assert(path_join(parent, base + zeros(k + 1) + tail).len() == cand.len() + 1);
        lemma_free_k_is_free(fsv, parent, base, tail, k + 1);
    }
}

/// Round trip of a collision-free rename: when `parent/<replacement>` does
/// not exist, the renamed file ends exactly there — once — and nothing
/// remains at its original path.
pub proof fn lemma_rename_fresh(
    fsv: Seq<(Seq<char>, EntryInfo)>,
    path: Seq<char>,
    repl: Seq<char>,
    now_millis: u64,
    e: EntryInfo,
)
    requires
        crate::fs_model::wf(fsv),
        spec_lookup(fsv, path) == Some(e),
        spec_lookup(fsv, path_join(parent_dir_of(path), repl)) is None,
    ensures
        ({
            let target = path_join(parent_dir_of(path), repl);
            let ro = spec_rename(fsv, path, repl, now_millis, false);
            &&& ro.res is Ok
            &&& spec_lookup(ro.fs, target) == Some(e)
            &&& spec_lookup(ro.fs, path) is None
            &&& ro.effs == seq![EffectV::Renamed(path, target)]
        }),
{
    let target = path_join(parent_dir_of(path), repl);
    let removed = spec_remove(fsv, path);
    crate::fs_model::lemma_lookup_set(removed, target, e, target);
    crate::fs_model::lemma_lookup_set(removed, target, e, path);
    crate::fs_model::lemma_lookup_remove_gone(fsv, path);
}

/// Rename under collision: with `parent/<replacement>` already occupied,
/// the file ends at a name that was free before — the replacement's stem,
/// the millisecond timestamp, and the source's original extension — while
/// the occupant of the first choice stays untouched and nothing remains at
/// the original path. When the bare timestamped name is itself free it is
/// the one taken; only further collisions grow it with zeros until a free
/// name is found.
pub proof fn lemma_rename_collision(
    fsv: Seq<(Seq<char>, EntryInfo)>,
    path: Seq<char>,
    repl: Seq<char>,
    now_millis: u64,
    e: EntryInfo,
)
    requires
        crate::fs_model::wf(fsv),
        spec_lookup(fsv, path) == Some(e),
        spec_lookup(fsv, path_join(parent_dir_of(path), repl)) is Some,
        path != path_join(parent_dir_of(path), repl),
    ensures
        ({
            let parent = parent_dir_of(path);
            let first = path_join(parent, repl);
            let base = stem_of_name(basename_of(repl)) + dec_of(now_millis as nat);
            let tail = match ext_of_path(path) {
                Some(x) => seq!['.'] + x,
                None => Seq::<char>::empty(),
            };
            let k = spec_free_k(fsv, parent, base, tail, 0);
            let target = path_join(parent, base + zeros(k) + tail);
            let ro = spec_rename(fsv, path, repl, now_millis, false);
            &&& ro.res is Ok
            &&& spec_lookup(fsv, target) is None
            &&& spec_lookup(ro.fs, target) == Some(e)
            &&& spec_lookup(ro.fs, first) == spec_lookup(fsv, first)
            &&& spec_lookup(ro.fs, path) is None
            &&& ro.effs == seq![EffectV::Renamed(path, target)]
            &&& (spec_lookup(fsv, path_join(parent, base + tail)) is None ==> target == path_join(
                parent,
                base + tail,
            ))
        }),
{
    let parent = parent_dir_of(path);
    let first = path_join(parent, repl);
    let base = stem_of_name(basename_of(repl)) + dec_of(now_millis as nat);
    let tail = match ext_of_path(path) {
        Some(x) => seq!['.'] + x,
        None => Seq::<char>::empty(),
    };
    assert(base + zeros(0) + tail =~= base + tail);
    lemma_free_k_is_free(fsv, parent, base, tail, 0);
    let k = spec_free_k(fsv, parent, base, tail, 0);
    let target = path_join(parent, base + zeros(k) + tail);
    let removed = spec_remove(fsv, path);
    crate::fs_model::lemma_lookup_set(removed, target, e, target);
    crate::fs_model::lemma_lookup_set(removed, target, e, path);
    crate::fs_model::lemma_lookup_set(removed, target, e, first);
    crate::fs_model::lemma_lookup_remove_gone(fsv, path);
    crate::fs_model::lemma_lookup_remove(fsv, path, first);
}

/// The first free rename candidate `parent/<grown><zeros><tail>`.
fn find_free_name(
    fs: &FsModel,
    parent: &str,
    grown: String,
    tail: &str,
    Ghost(base0): Ghost<Seq<char>>,
    Ghost(k): Ghost<nat>,
) -> (r: String)
    requires
        grown@ == base0 + zeros(k),
        spec_free_k(fs@, parent@, base0, tail@, 0) == spec_free_k(fs@, parent@, base0, tail@, k),
    ensures
        ({
            let kk = spec_free_k(fs@, parent@, base0, tail@, 0);
            r@ == path_join(parent@, base0 + zeros(kk) + tail@)
        }),
    decreases max_path_len(fs@) + 1 - path_join(parent@, grown@ + tail@).len(),
{
    let cand_name = grown.clone().concat(tail);
    let full = strutil::join_path(parent, cand_name.as_str());
    proof {
        assert(base0 + zeros(k) + tail@ =~= grown@ + tail@);
    }
    match fs.get(full.as_str()) {
        None => full,
        Some(_) => {
            proof {
                lemma_lookup_len_le_max(fs@, full@);
                reveal_strlit("0");
            }
            let mut g2 = grown;
            g2.append("0");
            proof {
                assert(g2@ =~= base0 + zeros(k + 1));
                assert(base0 + zeros(k + 1) + tail@ =~= (base0 + zeros(k + 1)) + tail@);
                assert(path_join(parent@, g2@ + tail@).len() == path_join(
                    parent@,
                    grown@ + tail@,
                ).len() + 1);
            }
            find_free_name(fs, parent, g2, tail, Ghost(base0), Ghost(k + 1))
        },
    }
}

/// Applies `actions` to the file at `file_path`, in declared order. The
/// first failing action stops the list and its error is returned; what the
/// earlier actions changed stays changed. Every performed (or, under
/// `dry_run`, intended) operation and every echoed message is appended to
/// `effects` in order. Under `dry_run` the model is left untouched.
pub fn run(
    actions: &Vec<Action>,
    file_path: &str,
    fs: &mut FsModel,
    now_millis: u64,
    dry_run: bool,
    effects: &mut Vec<Effect>,
) -> (r: Result<(), ActionError>)
    ensures
        ({
            let ro = spec_run(old(fs)@, actions@, file_path@, now_millis, dry_run);
            &&& final(fs)@ == ro.fs
            &&& effects_view(final(effects)@) == effects_view(old(effects)@) + ro.effs
            &&& (match r {
                Ok(_) => ro.res is Ok,
                Err(e) => ro.res == Err::<(), ActionErrorV>(e@),
            })
        }),
        dry_run ==> final(fs)@ == old(fs)@,
{
    proof {
        if dry_run {
            lemma_run_dry_keeps_fs(old(fs)@, actions@, 0, file_path@, now_millis, dry_run);
        }
    }
    run_from(actions, 0, file_path, fs, now_millis, dry_run, effects)
}

/// Running under dry-run leaves the model exactly as it was.
pub proof fn lemma_run_dry_keeps_fs(
    fsv: Seq<(Seq<char>, EntryInfo)>,
    actions: Seq<Action>,
    i: int,
    path: Seq<char>,
    now_millis: u64,
    dry: bool,
)
    requires
        dry,
    ensures
        spec_run_from(fsv, actions, i, path, now_millis, dry).fs == fsv,
    decreases actions.len() - i,
{
    if 0 <= i < actions.len() {
        let s = spec_step(fsv, actions[i], path, now_millis, dry);
        assert(s.fs == fsv);
        if s.res is Ok {
            lemma_run_dry_keeps_fs(s.fs, actions, i + 1, path, now_millis, dry);
        }
    }
}

fn run_from(
    actions: &Vec<Action>,
    i: usize,
    file_path: &str,
    fs: &mut FsModel,
    now_millis: u64,
    dry_run: bool,
    effects: &mut Vec<Effect>,
) -> (r: Result<(), ActionError>)
    requires
        i <= actions@.len(),
    ensures
        ({
            let ro = spec_run_from(old(fs)@, actions@, i as int, file_path@, now_millis, dry_run);
            &&& final(fs)@ == ro.fs
            &&& effects_view(final(effects)@) == effects_view(old(effects)@) + ro.effs
            &&& (match r {
                Ok(_) => ro.res is Ok,
                Err(e) => ro.res == Err::<(), ActionErrorV>(e@),
            })
        }),
    decreases actions@.len() - i,
{
    if i == actions.len() {
        proof {
            assert(effects_view(effects@) =~= effects_view(effects@) + Seq::<EffectV>::empty());
        }
        return Ok(());
    }
    let ghost fsv0 = fs@;
    let ghost effs0 = effects@;
    let ghost stepo = spec_step(fsv0, actions@[i as int], file_path@, now_millis, dry_run);
    let a = &actions[i];
    let step_res: Result<(), ActionError> = match a {
        Action::Echo(m) => {
            let eff = Effect::Echoed(m.clone());
            proof {
                lemma_effects_view_push(effs0, eff);
            }
            effects.push(eff);
            proof {
                assert(effects_view(effects@) =~= effects_view(effs0) + stepo.effs);
            }
            Ok(())
        },
        Action::Move(d) => {
            match fs.get(d.as_str()) {
                None => Err(ActionError::DestinationMissing(d.clone())),
                Some(_) => {
                    match move_file(fs, file_path, d.as_str(), dry_run) {
                        Ok(_) => {
                            let b = strutil::basename(file_path);
                            let to = strutil::join_path(d.as_str(), b);
                            let eff = Effect::Moved { from: strutil::str_copy(file_path), to };
                            proof {
                                lemma_effects_view_push(effs0, eff);
                            }
                            effects.push(eff);
                            proof {
                                assert(effects_view(effects@) =~= effects_view(effs0)
                                    + stepo.effs);
                            }
                            Ok(())
                        },
                        Err(e) => Err(e),
                    }
                },
            }
        },
        Action::Copy(d) => {
            match fs.get(d.as_str()) {
                None => Err(ActionError::DestinationMissing(d.clone())),
                Some(_) => {
                    match copy_file(fs, file_path, d.as_str(), dry_run) {
                        Ok(_) => {
                            let b = strutil::basename(file_path);
                            let to = strutil::join_path(d.as_str(), b);
                            let eff = Effect::Copied { from: strutil::str_copy(file_path), to };
                            proof {
                                lemma_effects_view_push(effs0, eff);
                            }
                            effects.push(eff);
                            proof {
                                assert(effects_view(effects@) =~= effects_view(effs0)
                                    + stepo.effs);
                            }
                            Ok(())
                        },
                        Err(e) => Err(e),
                    }
                },
            }
        },
        Action::Delete => {
            match fs.get(file_path) {
                Some(EntryInfo::File(_)) => {
                    if !dry_run {
                        fs.drop_path(file_path);
                    }
                    let eff = Effect::Deleted(strutil::str_copy(file_path));
                    proof {
                        lemma_effects_view_push(effs0, eff);
                    }
                    effects.push(eff);
                    proof {
                        assert(effects_view(effects@) =~= effects_view(effs0) + stepo.effs);
                    }
                    Ok(())
                },
                _ => Err(ActionError::Io(strutil::str_copy(file_path))),
            }
        },
        Action::Rename { pattern: _, replacement } => {
            let parent = strutil::parent_dir(file_path);
            let first = strutil::join_path(parent, replacement.as_str());
            match fs.get(file_path) {
                None => Err(ActionError::Io(strutil::str_copy(file_path))),
                Some(e) => {
                    match fs.get(first.as_str()) {
                        None => {
                            if !dry_run {
                                fs.drop_path(file_path);
                                fs.put(first.as_str(), e);
                            }
                            let eff = Effect::Renamed {
                                from: strutil::str_copy(file_path),
                                to: first,
                            };
                            proof {
                                lemma_effects_view_push(effs0, eff);
                            }
                            effects.push(eff);
                            proof {
                                assert(effects_view(effects@) =~= effects_view(effs0)
                                    + stepo.effs);
                            }
                            Ok(())
                        },
                        Some(_) => {
                            let rb = strutil::basename(replacement.as_str());
                            let stem = strutil::name_stem(rb);
                            let mut base = strutil::str_copy(stem);
                            let millis = strutil::u64_to_dec(now_millis);
                            base.append(millis.as_str());
                            let tail: String = match strutil::extension(file_path) {
                                Some(x) => {
                                    proof {
                                        reveal_strlit(".");
                                    }
                                    let mut t = String::new();
                                    t.append(".");
                                    t.append(x);
                                    proof {
                                        assert(t@ =~= seq!['.'] + x@);
                                    }
                                    t
                                },
                                None => String::new(),
                            };
                            let ghost base0 = base@;
                            proof {
                                assert(base@ =~= base0 + zeros(0));
                            }
                            let target = find_free_name(
                                fs,
                                parent,
                                base,
                                tail.as_str(),
                                Ghost(base0),
                                Ghost(0nat),
                            );
                            if !dry_run {
                                fs.drop_path(file_path);
                                fs.put(target.as_str(), e);
                            }
                            let eff = Effect::Renamed {
                                from: strutil::str_copy(file_path),
                                to: target,
                            };
                            proof {
                                lemma_effects_view_push(effs0, eff);
                            }
                            effects.push(eff);
                            proof {
                                assert(effects_view(effects@) =~= effects_view(effs0)
                                    + stepo.effs);
                            }
                            Ok(())
                        },
                    }
                },
            }
        },
    };
    match step_res {
        Err(e) => {
            proof {
                assert(effects_view(effects@) =~= effects_view(effs0) + stepo.effs);
            }
            Err(e)
        },
        Ok(_) => {
            let ghost fsv1 = fs@;
            let ghost effs1 = effects@;
            let r2 = run_from(actions, i + 1, file_path, fs, now_millis, dry_run, effects);
            proof {
                let ro2 = spec_run_from(fsv1, actions@, i + 1, file_path@, now_millis, dry_run);
                assert(effects_view(effects@) =~= effects_view(effs0) + (stepo.effs + ro2.effs));
            }
            r2
        },
    }
}

} // verus!
