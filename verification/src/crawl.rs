//! The directory crawler: walks a directory of the filesystem model for one
//! rule, builds each regular file's metadata, evaluates the rule's filters,
//! and on a match runs the rule's actions before collecting the file into
//! the result list. Failures of single entries are warned about and
//! skipped; they never abort the walk — the crawl always returns a result
//! list, and that policy is part of its contract.
use vstd::prelude::*;

use crate::config::{Config, Filter, Rule};
use crate::file_metadata::{
    spec_build, FileContext, FileContextV, FileMetadata, FileMetadataError, FileMetadataV,
};
use crate::fs_model::{children_paths, max_dir_len, spec_lookup, EntryInfo, FsModel};
use crate::handlers::action::{self, effects_view, Effect, EffectV};
use crate::strutil::{
    self, basename_of, contains_substring, eq_ignore_case, ext_of_path, parent_dir_of,
};

verus! {

/// Whether one filter accepts the file at `path` with metadata snapshot
/// `md`.
pub open spec fn filter_matches(path: Seq<char>, md: FileMetadataV, f: Filter) -> bool {
    match f {
        Filter::Extension { extension } => match ext_of_path(path) {
            Some(e) => eq_ignore_case(e, extension@),
            None => false,
        },
        Filter::NameContains { name_contains } => contains_substring(
            basename_of(path),
            name_contains@,
        ),
        Filter::Age { days_older_than } => match days_older_than {
            Some(d) => md.age_secs / 86400 > d as u64,
            None => false,
        },
        Filter::Size { size_gt, size_lt } => (match size_gt {
            Some(g) => md.size > g,
            None => true,
        }) && (match size_lt {
            Some(l) => md.size < l,
            None => true,
        }),
    }
}

/// Whether any filter in the list accepts the file: a logical OR over the
/// list, so an empty list matches nothing.
pub open spec fn spec_matches(path: Seq<char>, md: FileMetadataV, filters: Seq<Filter>) -> bool {
    exists|i: int| 0 <= i < filters.len() && filter_matches(path, md, filters[i])
}

/// An empty filter list matches no file: rules without filters never act.
pub proof fn lemma_empty_filters_match_nothing(path: Seq<char>, md: FileMetadataV)
    ensures
        !spec_matches(path, md, Seq::<Filter>::empty()),
{
}

/// Evaluates a rule's filter list against one file and its metadata
/// snapshot. True exactly when some filter in the list matches; an empty
/// list matches nothing.
pub fn matches_filters(path: &str, metadata: &FileMetadata, filters: &Vec<Filter>) -> (r: bool)
    ensures
        r == spec_matches(path@, metadata@, filters@),
{
    let n = filters.len();
    let mut i: usize = 0;
    while i < n
        invariant
            n == filters@.len(),
            0 <= i <= n,
            forall|j: int| 0 <= j < i ==> !filter_matches(path@, metadata@, filters@[j]),
        decreases n - i,
    {
        let hit: bool = match &filters[i] {
            Filter::Extension { extension } => {
                match strutil::extension(path) {
                    Some(e) => strutil::eq_ignore_ascii_case(e, extension.as_str()),
                    None => false,
                }
            },
            Filter::NameContains { name_contains } => {
                strutil::contains_str(strutil::basename(path), name_contains.as_str())
            },
            Filter::Age { days_older_than } => {
                match days_older_than {
                    Some(d) => {
                        let days: u64 = metadata.age_secs / 86_400;
                        days > *d as u64
                    },
                    None => false,
                }
            },
            Filter::Size { size_gt, size_lt } => {
                let gt_pass = match size_gt {
                    Some(g) => metadata.size > *g,
                    None => true,
                };
                let lt_pass = match size_lt {
                    Some(l) => metadata.size < *l,
                    None => true,
                };
                gt_pass && lt_pass
            },
        };
        if hit {
            assert(filter_matches(path@, metadata@, filters@[i as int]));
            return true;
        }
        i = i + 1;
    }
    false
}

/// The outcome of one crawl: the collected contexts, the model the actions
/// leave behind, and the effects emitted, all in traversal order.
pub ghost struct CrawlOut {
    pub results: Seq<FileContextV>,
    pub fs: Seq<(Seq<char>, EntryInfo)>,
    pub effs: Seq<EffectV>,
}

/// The warning emitted for `p`, unless warnings are suppressed.
pub open spec fn warn_effs(quiet: bool, p: Seq<char>) -> Seq<EffectV> {
    if quiet {
        Seq::empty()
    } else {
        seq![EffectV::Warned(p)]
    }
}

/// The views of a sequence of collected contexts.
pub open spec fn ctxs_view(s: Seq<FileContext>) -> Seq<FileContextV> {
    s.map(|i: int, c: FileContext| c@)
}

pub proof fn lemma_ctxs_view_push(s: Seq<FileContext>, c: FileContext)
    ensures
        ctxs_view(s.push(c)) == ctxs_view(s).push(c@),
{
    assert(ctxs_view(s.push(c)) =~= ctxs_view(s).push(c@));
}

/// What crawling `dir` does, given a recursion budget `fuel`. A listable
/// directory has its children processed in model order; an unlistable one
/// is warned about and contributes nothing; anything else — including a
/// missing entry — contributes nothing silently. The budget only limits
/// nesting depth; `spec_search_dir` supplies one no crawl can exhaust,
/// since each level's directory path is strictly longer than its parent's.
pub open spec fn spec_crawl_rec(
    fsv: Seq<(Seq<char>, EntryInfo)>,
    dir: Seq<char>,
    rule: Rule,
    base: Seq<char>,
    now_millis: u64,
    quiet: bool,
    dry: bool,
    fuel: nat,
) -> CrawlOut
    decreases fuel, 0nat,
{
    if fuel == 0 {
        CrawlOut { results: Seq::empty(), fs: fsv, effs: Seq::empty() }
    } else {
        match spec_lookup(fsv, dir) {
            Some(EntryInfo::Dir) => spec_crawl_list(
                fsv,
                children_paths(fsv, dir),
                0,
                rule,
                base,
                now_millis,
                quiet,
                dry,
                (fuel - 1) as nat,
            ),
            Some(EntryInfo::UnlistableDir) => CrawlOut {
                results: Seq::empty(),
                fs: fsv,
                effs: warn_effs(quiet, dir),
            },
            _ => CrawlOut { results: Seq::empty(), fs: fsv, effs: Seq::empty() },
        }
    }
}

/// What processing the children `kids[j..]` does. Directories recurse when
/// the rule asks for subfolders; a regular file goes through metadata
/// building, filter evaluation and, on a match, the rule's actions — it is
/// collected exactly when the actions all succeed. A file whose metadata
/// cannot be built, an unreadable entry, and an entry that vanished are
/// warned about and skipped; a file whose actions fail is warned about,
/// keeps the changes the earlier actions made, and is not collected.
pub open spec fn spec_crawl_list(
    fsv: Seq<(Seq<char>, EntryInfo)>,
    kids: Seq<Seq<char>>,
    j: int,
    rule: Rule,
    base: Seq<char>,
    now_millis: u64,
    quiet: bool,
    dry: bool,
    fuel: nat,
) -> CrawlOut
    decreases fuel, kids.len() - j,
{
    if j < 0 || j >= kids.len() {
        CrawlOut { results: Seq::empty(), fs: fsv, effs: Seq::empty() }
    } else {
        let p = kids[j];
        match spec_lookup(fsv, p) {
            Some(EntryInfo::Dir) => if rule.subfolders {
                let c1 = spec_crawl_rec(fsv, p, rule, base, now_millis, quiet, dry, fuel);
                let c2 = spec_crawl_list(
                    c1.fs,
                    kids,
                    j + 1,
                    rule,
                    base,
                    now_millis,
                    quiet,
                    dry,
                    fuel,
                );
                CrawlOut {
                    results: c1.results + c2.results,
                    fs: c2.fs,
                    effs: c1.effs + c2.effs,
                }
            } else {
                spec_crawl_list(fsv, kids, j + 1, rule, base, now_millis, quiet, dry, fuel)
            },
            Some(EntryInfo::UnlistableDir) => {
                let rest = spec_crawl_list(
                    fsv,
                    kids,
                    j + 1,
                    rule,
                    base,
                    now_millis,
                    quiet,
                    dry,
                    fuel,
                );
                if rule.subfolders {
                    CrawlOut {
                        results: rest.results,
                        fs: rest.fs,
                        effs: warn_effs(quiet, p) + rest.effs,
                    }
                } else {
                    rest
                }
            },
            Some(EntryInfo::File(f)) => {
                match spec_build(p, f, now_millis / 1000) {
                    Err(_) => {
                        let rest = spec_crawl_list(
                            fsv,
                            kids,
                            j + 1,
                            rule,
                            base,
                            now_millis,
                            quiet,
                            dry,
                            fuel,
                        );
                        CrawlOut {
                            results: rest.results,
                            fs: rest.fs,
                            effs: warn_effs(quiet, p) + rest.effs,
                        }
                    },
                    Ok(md) => if spec_matches(p, md, rule.filters@) {
                        let ro = action::spec_run(fsv, rule.actions@, p, now_millis, dry);
                        let rest = spec_crawl_list(
                            ro.fs,
                            kids,
                            j + 1,
                            rule,
                            base,
                            now_millis,
                            quiet,
                            dry,
                            fuel,
                        );
                        match ro.res {
                            Err(_) => CrawlOut {
                                results: rest.results,
                                fs: rest.fs,
                                effs: ro.effs + seq![EffectV::Warned(p)] + rest.effs,
                            },
                            Ok(_) => {
                                let ctx = FileContextV {
                                    path: p,
                                    metadata: md,
                                    has_content_info: false,
                                    parent_dir: parent_dir_of(p),
                                    base_dir: base,
                                };
                                CrawlOut {
                                    results: seq![ctx] + rest.results,
                                    fs: rest.fs,
                                    effs: ro.effs + rest.effs,
                                }
                            },
                        }
                    } else {
                        spec_crawl_list(fsv, kids, j + 1, rule, base, now_millis, quiet, dry, fuel)
                    },
                }
            },
            Some(EntryInfo::UnreadableEntry) => {
                let rest = spec_crawl_list(
                    fsv,
                    kids,
                    j + 1,
                    rule,
                    base,
                    now_millis,
                    quiet,
                    dry,
                    fuel,
                );
                CrawlOut {
                    results: rest.results,
                    fs: rest.fs,
                    effs: warn_effs(quiet, p) + rest.effs,
                }
            },
            None => {
                let rest = spec_crawl_list(
                    fsv,
                    kids,
                    j + 1,
                    rule,
                    base,
                    now_millis,
                    quiet,
                    dry,
                    fuel,
                );
                CrawlOut {
                    results: rest.results,
                    fs: rest.fs,
                    effs: warn_effs(quiet, p) + rest.effs,
                }
            },
        }
    }
}

/// What one crawl of `dir` for `rule` does: `spec_crawl_rec` with a depth
/// budget larger than any directory path in the model.
pub open spec fn spec_search_dir(
    fsv: Seq<(Seq<char>, EntryInfo)>,
    dir: Seq<char>,
    rule: Rule,
    base: Seq<char>,
    now_millis: u64,
    quiet: bool,
    dry: bool,
) -> CrawlOut {
    spec_crawl_rec(fsv, dir, rule, base, now_millis, quiet, dry, max_dir_len(fsv) + 1)
}

/// One crawl leaves a well-formed model well-formed: every path still
/// occurs at most once, whatever the rule's actions moved, copied, deleted
/// or renamed.
pub proof fn lemma_crawl_rec_wf(
    fsv: Seq<(Seq<char>, EntryInfo)>,
    dir: Seq<char>,
    rule: Rule,
    base: Seq<char>,
    now_millis: u64,
    quiet: bool,
    dry: bool,
    fuel: nat,
)
    requires
        crate::fs_model::wf(fsv),
    ensures
        crate::fs_model::wf(spec_crawl_rec(fsv, dir, rule, base, now_millis, quiet, dry, fuel).fs),
    decreases fuel, 0nat,
{
    if fuel > 0 {
        match spec_lookup(fsv, dir) {
            Some(EntryInfo::Dir) => {
                lemma_crawl_list_wf(
                    fsv,
                    children_paths(fsv, dir),
                    0,
                    rule,
                    base,
                    now_millis,
                    quiet,
                    dry,
                    (fuel - 1) as nat,
                );
            },
            _ => {},
        }
    }
}

/// Processing a child list leaves a well-formed model well-formed.
pub proof fn lemma_crawl_list_wf(
    fsv: Seq<(Seq<char>, EntryInfo)>,
    kids: Seq<Seq<char>>,
    j: int,
    rule: Rule,
    base: Seq<char>,
    now_millis: u64,
    quiet: bool,
    dry: bool,
    fuel: nat,
)
    requires
        crate::fs_model::wf(fsv),
    ensures
        crate::fs_model::wf(
            spec_crawl_list(fsv, kids, j, rule, base, now_millis, quiet, dry, fuel).fs,
        ),
    decreases fuel, kids.len() - j,
{
    if 0 <= j < kids.len() {
        let p = kids[j];
        match spec_lookup(fsv, p) {
            Some(EntryInfo::Dir) => {
                if rule.subfolders {
                    lemma_crawl_rec_wf(fsv, p, rule, base, now_millis, quiet, dry, fuel);
                    let c1 = spec_crawl_rec(fsv, p, rule, base, now_millis, quiet, dry, fuel);
                    lemma_crawl_list_wf(
                        c1.fs,
                        kids,
                        j + 1,
                        rule,
                        base,
                        now_millis,
                        quiet,
                        dry,
                        fuel,
                    );
                } else {
                    lemma_crawl_list_wf(fsv, kids, j + 1, rule, base, now_millis, quiet, dry, fuel);
                }
            },
            Some(EntryInfo::File(f)) => {
                match spec_build(p, f, now_millis / 1000) {
                    Err(_) => {
                        lemma_crawl_list_wf(
                            fsv,
                            kids,
                            j + 1,
                            rule,
                            base,
                            now_millis,
                            quiet,
                            dry,
                            fuel,
                        );
                    },
                    Ok(md) => {
                        if spec_matches(p, md, rule.filters@) {
                            action::lemma_run_wf(fsv, rule.actions@, 0, p, now_millis, dry);
                            let ro = action::spec_run(fsv, rule.actions@, p, now_millis, dry);
                            lemma_crawl_list_wf(
                                ro.fs,
                                kids,
                                j + 1,
                                rule,
                                base,
                                now_millis,
                                quiet,
                                dry,
                                fuel,
                            );
                        } else {
                            lemma_crawl_list_wf(
                                fsv,
                                kids,
                                j + 1,
                                rule,
                                base,
                                now_millis,
                                quiet,
                                dry,
                                fuel,
                            );
                        }
                    },
                }
            },
            _ => {
                lemma_crawl_list_wf(fsv, kids, j + 1, rule, base, now_millis, quiet, dry, fuel);
            },
        }
    }
}

/// A crawl leaves the longest directory path as it was: the actions it
/// runs create, remove and rewrite file entries only.
pub proof fn lemma_crawl_rec_dirs(
    fsv: Seq<(Seq<char>, EntryInfo)>,
    dir: Seq<char>,
    rule: Rule,
    base: Seq<char>,
    now_millis: u64,
    quiet: bool,
    dry: bool,
    fuel: nat,
)
    requires
        crate::fs_model::wf(fsv),
    ensures
        max_dir_len(spec_crawl_rec(fsv, dir, rule, base, now_millis, quiet, dry, fuel).fs)
            == max_dir_len(fsv),
    decreases fuel, 0nat,
{
    if fuel > 0 {
        match spec_lookup(fsv, dir) {
            Some(EntryInfo::Dir) => {
                lemma_crawl_list_dirs(
                    fsv,
                    children_paths(fsv, dir),
                    0,
                    rule,
                    base,
                    now_millis,
                    quiet,
                    dry,
                    (fuel - 1) as nat,
                );
            },
            _ => {},
        }
    }
}

/// Processing a child list leaves the longest directory path as it was.
pub proof fn lemma_crawl_list_dirs(
    fsv: Seq<(Seq<char>, EntryInfo)>,
    kids: Seq<Seq<char>>,
    j: int,
    rule: Rule,
    base: Seq<char>,
    now_millis: u64,
    quiet: bool,
    dry: bool,
    fuel: nat,
)
    requires
        crate::fs_model::wf(fsv),
    ensures
        max_dir_len(spec_crawl_list(fsv, kids, j, rule, base, now_millis, quiet, dry, fuel).fs)
            == max_dir_len(fsv),
    decreases fuel, kids.len() - j,
{
    if 0 <= j < kids.len() {
        let p = kids[j];
        match spec_lookup(fsv, p) {
            Some(EntryInfo::Dir) => {
                if rule.subfolders {
                    lemma_crawl_rec_dirs(fsv, p, rule, base, now_millis, quiet, dry, fuel);
                    lemma_crawl_rec_wf(fsv, p, rule, base, now_millis, quiet, dry, fuel);
                    let c1 = spec_crawl_rec(fsv, p, rule, base, now_millis, quiet, dry, fuel);
                    lemma_crawl_list_dirs(
                        c1.fs,
                        kids,
                        j + 1,
                        rule,
                        base,
                        now_millis,
                        quiet,
                        dry,
                        fuel,
                    );
                } else {
                    lemma_crawl_list_dirs(
                        fsv,
                        kids,
                        j + 1,
                        rule,
                        base,
                        now_millis,
                        quiet,
                        dry,
                        fuel,
                    );
                }
            },
            Some(EntryInfo::File(f)) => {
                match spec_build(p, f, now_millis / 1000) {
                    Err(_) => {
                        lemma_crawl_list_dirs(
                            fsv,
                            kids,
                            j + 1,
                            rule,
                            base,
                            now_millis,
                            quiet,
                            dry,
                            fuel,
                        );
                    },
                    Ok(md) => {
                        if spec_matches(p, md, rule.filters@) {
                            action::lemma_run_dirs(fsv, rule.actions@, 0, p, now_millis, dry);
                            action::lemma_run_wf(fsv, rule.actions@, 0, p, now_millis, dry);
                            let ro = action::spec_run(fsv, rule.actions@, p, now_millis, dry);
                            lemma_crawl_list_dirs(
                                ro.fs,
                                kids,
                                j + 1,
                                rule,
                                base,
                                now_millis,
                                quiet,
                                dry,
                                fuel,
                            );
                        } else {
                            lemma_crawl_list_dirs(
                                fsv,
                                kids,
                                j + 1,
                                rule,
                                base,
                                now_millis,
                                quiet,
                                dry,
                                fuel,
                            );
                        }
                    },
                }
            },
            _ => {
                lemma_crawl_list_dirs(fsv, kids, j + 1, rule, base, now_millis, quiet, dry, fuel);
            },
        }
    }
}

/// The crawl's depth budget never decides anything: any two budgets with
/// room above the longest directory path yield the very same crawl.
pub proof fn lemma_crawl_rec_fuel(
    fsv: Seq<(Seq<char>, EntryInfo)>,
    dir: Seq<char>,
    rule: Rule,
    base: Seq<char>,
    now_millis: u64,
    quiet: bool,
    dry: bool,
    f1: nat,
    f2: nat,
)
    requires
        crate::fs_model::wf(fsv),
        f1 + dir.len() >= max_dir_len(fsv) + 1,
        f2 + dir.len() >= max_dir_len(fsv) + 1,
    ensures
        spec_crawl_rec(fsv, dir, rule, base, now_millis, quiet, dry, f1) == spec_crawl_rec(
            fsv,
            dir,
            rule,
            base,
            now_millis,
            quiet,
            dry,
            f2,
        ),
    decreases f1, 0nat,
{
    match spec_lookup(fsv, dir) {
        Some(EntryInfo::Dir) => {
            crate::fs_model::lemma_dirlike_len_le_max(fsv, dir);
            crate::fs_model::lemma_children_are_children(fsv, dir);
            lemma_crawl_list_fuel(
                fsv,
                children_paths(fsv, dir),
                0,
                dir,
                rule,
                base,
                now_millis,
                quiet,
                dry,
                (f1 - 1) as nat,
                (f2 - 1) as nat,
            );
        },
        Some(EntryInfo::UnlistableDir) => {
            crate::fs_model::lemma_dirlike_len_le_max(fsv, dir);
        },
        _ => {},
    }
}

/// Processing a child list is the same under any two budgets with room
/// above the longest directory path.
pub proof fn lemma_crawl_list_fuel(
    fsv: Seq<(Seq<char>, EntryInfo)>,
    kids: Seq<Seq<char>>,
    j: int,
    dir: Seq<char>,
    rule: Rule,
    base: Seq<char>,
    now_millis: u64,
    quiet: bool,
    dry: bool,
    f1: nat,
    f2: nat,
)
    requires
        crate::fs_model::wf(fsv),
        forall|k: int|
            j <= k < kids.len() ==> crate::fs_model::is_child_of(#[trigger] kids[k], dir),
        f1 + dir.len() >= max_dir_len(fsv),
        f2 + dir.len() >= max_dir_len(fsv),
    ensures
        spec_crawl_list(fsv, kids, j, rule, base, now_millis, quiet, dry, f1) == spec_crawl_list(
            fsv,
            kids,
            j,
            rule,
            base,
            now_millis,
            quiet,
            dry,
            f2,
        ),
    decreases f1, kids.len() - j,
{
    if 0 <= j < kids.len() {
        let p = kids[j];
        match spec_lookup(fsv, p) {
            Some(EntryInfo::Dir) => {
                if rule.subfolders {
                    crate::fs_model::lemma_child_longer(p, dir);
                    lemma_crawl_rec_fuel(fsv, p, rule, base, now_millis, quiet, dry, f1, f2);
                    lemma_crawl_rec_dirs(fsv, p, rule, base, now_millis, quiet, dry, f1);
                    lemma_crawl_rec_wf(fsv, p, rule, base, now_millis, quiet, dry, f1);
                    let c1 = spec_crawl_rec(fsv, p, rule, base, now_millis, quiet, dry, f1);
                    lemma_crawl_list_fuel(
                        c1.fs,
                        kids,
                        j + 1,
                        dir,
                        rule,
                        base,
                        now_millis,
                        quiet,
                        dry,
                        f1,
                        f2,
                    );
                } else {
                    lemma_crawl_list_fuel(
                        fsv,
                        kids,
                        j + 1,
                        dir,
                        rule,
                        base,
                        now_millis,
                        quiet,
                        dry,
                        f1,
                        f2,
                    );
                }
            },
            Some(EntryInfo::File(f)) => {
                match spec_build(p, f, now_millis / 1000) {
                    Err(_) => {
                        lemma_crawl_list_fuel(
                            fsv,
                            kids,
                            j + 1,
                            dir,
                            rule,
                            base,
                            now_millis,
                            quiet,
                            dry,
                            f1,
                            f2,
                        );
                    },
                    Ok(md) => {
                        if spec_matches(p, md, rule.filters@) {
                            action::lemma_run_dirs(fsv, rule.actions@, 0, p, now_millis, dry);
                            action::lemma_run_wf(fsv, rule.actions@, 0, p, now_millis, dry);
                            let ro = action::spec_run(fsv, rule.actions@, p, now_millis, dry);
                            lemma_crawl_list_fuel(
                                ro.fs,
                                kids,
                                j + 1,
                                dir,
                                rule,
                                base,
                                now_millis,
                                quiet,
                                dry,
                                f1,
                                f2,
                            );
                        } else {
                            lemma_crawl_list_fuel(
                                fsv,
                                kids,
                                j + 1,
                                dir,
                                rule,
                                base,
                                now_millis,
                                quiet,
                                dry,
                                f1,
                                f2,
                            );
                        }
                    },
                }
            },
            _ => {
                lemma_crawl_list_fuel(
                    fsv,
                    kids,
                    j + 1,
                    dir,
                    rule,
                    base,
                    now_millis,
                    quiet,
                    dry,
                    f1,
                    f2,
                );
            },
        }
    }
}

/// Any depth budget with room above the longest directory path yields what
/// `spec_search_dir` states: the budget never cuts a traversal short.
pub proof fn lemma_search_dir_fuel_irrelevant(
    fsv: Seq<(Seq<char>, EntryInfo)>,
    dir: Seq<char>,
    rule: Rule,
    base: Seq<char>,
    now_millis: u64,
    quiet: bool,
    dry: bool,
    fuel: nat,
)
    requires
        crate::fs_model::wf(fsv),
        fuel + dir.len() >= max_dir_len(fsv) + 1,
    ensures
        spec_crawl_rec(fsv, dir, rule, base, now_millis, quiet, dry, fuel) == spec_search_dir(
            fsv,
            dir,
            rule,
            base,
            now_millis,
            quiet,
            dry,
        ),
{
    lemma_crawl_rec_fuel(
        fsv,
        dir,
        rule,
        base,
        now_millis,
        quiet,
        dry,
        fuel,
        max_dir_len(fsv) + 1,
    );
}

/// An unreadable entry among a directory's children — a permission denial
/// on one name — costs only a warning: the crawl of the remaining siblings
/// goes on unchanged, whatever the rest of the directory holds, so matches
/// among readable siblings are still found and the walk never aborts.
pub proof fn lemma_unreadable_entry_skipped(
    fsv: Seq<(Seq<char>, EntryInfo)>,
    kids: Seq<Seq<char>>,
    j: int,
    rule: Rule,
    base: Seq<char>,
    now_millis: u64,
    quiet: bool,
    dry: bool,
    fuel: nat,
)
    requires
        0 <= j < kids.len(),
        spec_lookup(fsv, kids[j]) == Some(EntryInfo::UnreadableEntry),
    ensures
        ({
            let out = spec_crawl_list(fsv, kids, j, rule, base, now_millis, quiet, dry, fuel);
            let rest = spec_crawl_list(fsv, kids, j + 1, rule, base, now_millis, quiet, dry, fuel);
            &&& out.results == rest.results
            &&& out.fs == rest.fs
            &&& out.effs == warn_effs(quiet, kids[j]) + rest.effs
        }),
{
}

/// A dry-run crawl records its intended actions but leaves the model
/// exactly as it was.
pub proof fn lemma_crawl_rec_dry(
    fsv: Seq<(Seq<char>, EntryInfo)>,
    dir: Seq<char>,
    rule: Rule,
    base: Seq<char>,
    now_millis: u64,
    quiet: bool,
    dry: bool,
    fuel: nat,
)
    requires
        dry,
    ensures
        spec_crawl_rec(fsv, dir, rule, base, now_millis, quiet, dry, fuel).fs == fsv,
    decreases fuel, 0nat,
{
    if fuel > 0 {
        match spec_lookup(fsv, dir) {
            Some(EntryInfo::Dir) => {
                lemma_crawl_list_dry(
                    fsv,
                    children_paths(fsv, dir),
                    0,
                    rule,
                    base,
                    now_millis,
                    quiet,
                    dry,
                    (fuel - 1) as nat,
                );
            },
            _ => {},
        }
    }
}

/// Processing a child list under dry-run leaves the model as it was.
pub proof fn lemma_crawl_list_dry(
    fsv: Seq<(Seq<char>, EntryInfo)>,
    kids: Seq<Seq<char>>,
    j: int,
    rule: Rule,
    base: Seq<char>,
    now_millis: u64,
    quiet: bool,
    dry: bool,
    fuel: nat,
)
    requires
        dry,
    ensures
        spec_crawl_list(fsv, kids, j, rule, base, now_millis, quiet, dry, fuel).fs == fsv,
    decreases fuel, kids.len() - j,
{
    if 0 <= j < kids.len() {
        let p = kids[j];
        match spec_lookup(fsv, p) {
            Some(EntryInfo::Dir) => {
                if rule.subfolders {
                    lemma_crawl_rec_dry(fsv, p, rule, base, now_millis, quiet, dry, fuel);
                    let c1 = spec_crawl_rec(fsv, p, rule, base, now_millis, quiet, dry, fuel);
                    lemma_crawl_list_dry(
                        c1.fs,
                        kids,
                        j + 1,
                        rule,
                        base,
                        now_millis,
                        quiet,
                        dry,
                        fuel,
                    );
                } else {
                    lemma_crawl_list_dry(fsv, kids, j + 1, rule, base, now_millis, quiet, dry, fuel);
                }
            },
            Some(EntryInfo::File(f)) => {
                match spec_build(p, f, now_millis / 1000) {
                    Err(_) => {
                        lemma_crawl_list_dry(
                            fsv,
                            kids,
                            j + 1,
                            rule,
                            base,
                            now_millis,
                            quiet,
                            dry,
                            fuel,
                        );
                    },
                    Ok(md) => {
                        if spec_matches(p, md, rule.filters@) {
                            action::lemma_run_dry_keeps_fs(
                                fsv,
                                rule.actions@,
                                0,
                                p,
                                now_millis,
                                dry,
                            );
                            let ro = action::spec_run(fsv, rule.actions@, p, now_millis, dry);
                            lemma_crawl_list_dry(
                                ro.fs,
                                kids,
                                j + 1,
                                rule,
                                base,
                                now_millis,
                                quiet,
                                dry,
                                fuel,
                            );
                        } else {
                            lemma_crawl_list_dry(
                                fsv,
                                kids,
                                j + 1,
                                rule,
                                base,
                                now_millis,
                                quiet,
                                dry,
                                fuel,
                            );
                        }
                    },
                }
            },
            _ => {
                lemma_crawl_list_dry(fsv, kids, j + 1, rule, base, now_millis, quiet, dry, fuel);
            },
        }
    }
}

/// Crawling a root that the model has no directory at — a missing path, a
/// plain file, an unreadable entry — collects nothing, changes nothing,
/// and is no error; an unlistable directory additionally draws a warning.
pub proof fn lemma_crawl_missing_root(
    fsv: Seq<(Seq<char>, EntryInfo)>,
    dir: Seq<char>,
    rule: Rule,
    base: Seq<char>,
    now_millis: u64,
    quiet: bool,
    dry: bool,
)
    requires
        !(spec_lookup(fsv, dir) matches Some(EntryInfo::Dir)),
    ensures
        spec_search_dir(fsv, dir, rule, base, now_millis, quiet, dry).results == Seq::<
            FileContextV,
        >::empty(),
        spec_search_dir(fsv, dir, rule, base, now_millis, quiet, dry).fs == fsv,
        !(spec_lookup(fsv, dir) matches Some(EntryInfo::UnlistableDir)) ==> spec_search_dir(
            fsv,
            dir,
            rule,
            base,
            now_millis,
            quiet,
            dry,
        ).effs == Seq::<EffectV>::empty(),
{
}

/// Crawls `dir` for one rule: lists its entries in model order, recurses
/// into subdirectories when the rule asks for it, and sends each regular
/// file through metadata building, filter evaluation and — on a match —
/// the rule's actions, collecting the file when they all succeed. Failures
/// of single entries are warned about and skipped; the crawl itself always
/// returns `Ok`, and a root without a listable directory yields an empty
/// result. `base_dir` is carried into every collected context; `now_millis`
/// is the clock reading the ages and rename timestamps are taken from.
pub fn search_dir(
    fs: &mut FsModel,
    dir: &str,
    _config: &Config,
    rule: &Rule,
    quiet: bool,
    dry_run: bool,
    base_dir: &str,
    now_millis: u64,
    effects: &mut Vec<Effect>,
) -> (r: Result<Vec<FileContext>, FileMetadataError>)
    requires
        max_dir_len(old(fs)@) < usize::MAX,
    ensures
        ({
            let co = spec_search_dir(
                old(fs)@,
                dir@,
                *rule,
                base_dir@,
                now_millis,
                quiet,
                dry_run,
            );
            &&& final(fs)@ == co.fs
            &&& effects_view(final(effects)@) == effects_view(old(effects)@) + co.effs
            &&& (match r {
                Ok(v) => ctxs_view(v@) == co.results,
                Err(_) => false,
            })
        }),
        dry_run ==> final(fs)@ == old(fs)@,
{
    proof {
        if dry_run {
            lemma_crawl_rec_dry(
                old(fs)@,
                dir@,
                *rule,
                base_dir@,
                now_millis,
                quiet,
                dry_run,
                max_dir_len(old(fs)@) + 1,
            );
        }
    }
    let m = fs.max_dir_path_len();
    let fuel = m + 1;
    let mut results: Vec<FileContext> = Vec::new();
    proof {
        assert(ctxs_view(results@) =~= Seq::<FileContextV>::empty());
    }
    crawl_at(fs, dir, rule, quiet, dry_run, base_dir, now_millis, &mut results, effects, fuel);
    proof {
        let co = spec_search_dir(old(fs)@, dir@, *rule, base_dir@, now_millis, quiet, dry_run);
        assert(Seq::<FileContextV>::empty() + co.results =~= co.results);
    }
    Ok(results)
}

/// One level of the crawl, with `fuel` nesting budget left.
fn crawl_at(
    fs: &mut FsModel,
    dir: &str,
    rule: &Rule,
    quiet: bool,
    dry_run: bool,
    base_dir: &str,
    now_millis: u64,
    results: &mut Vec<FileContext>,
    effects: &mut Vec<Effect>,
    fuel: usize,
)
    ensures
        ({
            let co = spec_crawl_rec(
                old(fs)@,
                dir@,
                *rule,
                base_dir@,
                now_millis,
                quiet,
                dry_run,
                fuel as nat,
            );
            &&& final(fs)@ == co.fs
            &&& ctxs_view(final(results)@) == ctxs_view(old(results)@) + co.results
            &&& effects_view(final(effects)@) == effects_view(old(effects)@) + co.effs
        }),
    decreases fuel, 0nat,
{
    if fuel == 0 {
        proof {
            lemma_append_empty_ctxs(results@);
            lemma_append_empty_effs(effects@);
        }
        return ;
    }
    match fs.get(dir) {
        Some(EntryInfo::Dir) => {
            let kids = fs.children_of(dir);
            crawl_kids(
                fs,
                &kids,
                0,
                rule,
                quiet,
                dry_run,
                base_dir,
                now_millis,
                results,
                effects,
                fuel - 1,
            );
        },
        Some(EntryInfo::UnlistableDir) => {
            proof {
                lemma_append_empty_ctxs(results@);
            }
            if !quiet {
                let eff = Effect::Warned(strutil::str_copy(dir));
                proof {
                    action::lemma_effects_view_push(effects@, eff);
                }
                effects.push(eff);
            } else {
                proof {
                    lemma_append_empty_effs(effects@);
                }
            }
        },
        _ => {
            proof {
                lemma_append_empty_ctxs(results@);
                lemma_append_empty_effs(effects@);
            }
        },
    }
}

proof fn lemma_append_empty_ctxs(s: Seq<FileContext>)
    ensures
        ctxs_view(s) == ctxs_view(s) + Seq::<FileContextV>::empty(),
{
    assert(ctxs_view(s) =~= ctxs_view(s) + Seq::<FileContextV>::empty());
}

proof fn lemma_append_empty_effs(s: Seq<Effect>)
    ensures
        effects_view(s) == effects_view(s) + Seq::<EffectV>::empty(),
{
    assert(effects_view(s) =~= effects_view(s) + Seq::<EffectV>::empty());
}

/// Processes the children `kids[j..]` of one directory.
#[verifier::rlimit(100)]
#[verifier::spinoff_prover]
fn crawl_kids(
    fs: &mut FsModel,
    kids: &Vec<String>,
    j: usize,
    rule: &Rule,
    quiet: bool,
    dry_run: bool,
    base_dir: &str,
    now_millis: u64,
    results: &mut Vec<FileContext>,
    effects: &mut Vec<Effect>,
    fuel: usize,
)
    requires
        j <= kids@.len(),
    ensures
        ({
            let co = spec_crawl_list(
                old(fs)@,
                kids.deep_view(),
                j as int,
                *rule,
                base_dir@,
                now_millis,
                quiet,
                dry_run,
                fuel as nat,
            );
            &&& final(fs)@ == co.fs
            &&& ctxs_view(final(results)@) == ctxs_view(old(results)@) + co.results
            &&& effects_view(final(effects)@) == effects_view(old(effects)@) + co.effs
        }),
    decreases fuel, kids@.len() - j,
{
    if j == kids.len() {
        proof {
            lemma_append_empty_ctxs(results@);
            lemma_append_empty_effs(effects@);
        }
        return ;
    }
    let p: &String = &kids[j];
    proof {
        assert(kids.deep_view()[j as int] == kids@[j as int]@);
    }
    let ghost fsv0 = fs@;
    let ghost res0 = results@;
    let ghost effs0 = effects@;
    match fs.get(p.as_str()) {
        Some(EntryInfo::Dir) => {
            if rule.subfolders {
                crawl_at(
                    fs,
                    p.as_str(),
                    rule,
                    quiet,
                    dry_run,
                    base_dir,
                    now_millis,
                    results,
                    effects,
                    fuel,
                );
                let ghost c1 = spec_crawl_rec(
                    fsv0,
                    p@,
                    *rule,
                    base_dir@,
                    now_millis,
                    quiet,
                    dry_run,
                    fuel as nat,
                );
                crawl_kids(
                    fs,
                    kids,
                    j + 1,
                    rule,
                    quiet,
                    dry_run,
                    base_dir,
                    now_millis,
                    results,
                    effects,
                    fuel,
                );
                proof {
                    let c2 = spec_crawl_list(
                        c1.fs,
                        kids.deep_view(),
                        j + 1,
                        *rule,
                        base_dir@,
                        now_millis,
                        quiet,
                        dry_run,
                        fuel as nat,
                    );
                    assert(ctxs_view(results@) =~= ctxs_view(res0) + (c1.results + c2.results));
                    assert(effects_view(effects@) =~= effects_view(effs0) + (c1.effs + c2.effs));
                }
            } else {
                crawl_kids(
                    fs,
                    kids,
                    j + 1,
                    rule,
                    quiet,
                    dry_run,
                    base_dir,
                    now_millis,
                    results,
                    effects,
                    fuel,
                );
            }
        },
        Some(EntryInfo::UnlistableDir) => {
            if rule.subfolders && !quiet {
                let eff = Effect::Warned(strutil::str_copy(p.as_str()));
                proof {
                    action::lemma_effects_view_push(effs0, eff);
                }
                effects.push(eff);
            }
            let ghost effs1 = effects@;
            crawl_kids(
                fs,
                kids,
                j + 1,
                rule,
                quiet,
                dry_run,
                base_dir,
                now_millis,
                results,
                effects,
                fuel,
            );
            proof {
                let rest = spec_crawl_list(
                    fsv0,
                    kids.deep_view(),
                    j + 1,
                    *rule,
                    base_dir@,
                    now_millis,
                    quiet,
                    dry_run,
                    fuel as nat,
                );
                if rule.subfolders {
                    assert(effects_view(effects@) =~= effects_view(effs0) + (warn_effs(quiet, p@)
                        + rest.effs));
                }
            }
        },
        Some(EntryInfo::File(f)) => {
            match FileMetadata::build(p.as_str(), &f, now_millis / 1000) {
                Err(_) => {
                    if !quiet {
                        let eff = Effect::Warned(strutil::str_copy(p.as_str()));
                        proof {
                            action::lemma_effects_view_push(effs0, eff);
                        }
                        effects.push(eff);
                    }
                    let ghost effs1 = effects@;
                    crawl_kids(
                        fs,
                        kids,
                        j + 1,
                        rule,
                        quiet,
                        dry_run,
                        base_dir,
                        now_millis,
                        results,
                        effects,
                        fuel,
                    );
                    proof {
                        let rest = spec_crawl_list(
                            fsv0,
                            kids.deep_view(),
                            j + 1,
                            *rule,
                            base_dir@,
                            now_millis,
                            quiet,
                            dry_run,
                            fuel as nat,
                        );
                        assert(effects_view(effects@) =~= effects_view(effs0) + (warn_effs(
                            quiet,
                            p@,
                        ) + rest.effs));
                    }
                },
                Ok(md) => {
                    if matches_filters(p.as_str(), &md, &rule.filters) {
                        match action::run(
                            &rule.actions,
                            p.as_str(),
                            fs,
                            now_millis,
                            dry_run,
                            effects,
                        ) {
                            Err(_) => {
                                let ghost ro = action::spec_run(
                                    fsv0,
                                    rule.actions@,
                                    p@,
                                    now_millis,
                                    dry_run,
                                );
                                let eff = Effect::Warned(strutil::str_copy(p.as_str()));
                                proof {
                                    action::lemma_effects_view_push(effects@, eff);
                                }
                                effects.push(eff);
                                let ghost effs1 = effects@;
                                crawl_kids(
                                    fs,
                                    kids,
                                    j + 1,
                                    rule,
                                    quiet,
                                    dry_run,
                                    base_dir,
                                    now_millis,
                                    results,
                                    effects,
                                    fuel,
                                );
                                proof {
                                    let rest = spec_crawl_list(
                                        ro.fs,
                                        kids.deep_view(),
                                        j + 1,
                                        *rule,
                                        base_dir@,
                                        now_millis,
                                        quiet,
                                        dry_run,
                                        fuel as nat,
                                    );
                                    assert(effects_view(effects@) =~= effects_view(effs0) + (
                                    ro.effs + seq![EffectV::Warned(p@)] + rest.effs));
                                }
                            },
                            Ok(_) => {
                                let ghost ro = action::spec_run(
                                    fsv0,
                                    rule.actions@,
                                    p@,
                                    now_millis,
                                    dry_run,
                                );
                                let parent = strutil::parent_dir(p.as_str());
                                let ctx = FileContext {
                                    path: p.clone(),
                                    metadata: md,
                                    content_info: None,
                                    parent_dir: strutil::str_copy(parent),
                                    base_dir: strutil::str_copy(base_dir),
                                };
                                proof {
                                    lemma_ctxs_view_push(res0, ctx);
                                }
                                results.push(ctx);
                                crawl_kids(
                                    fs,
                                    kids,
                                    j + 1,
                                    rule,
                                    quiet,
                                    dry_run,
                                    base_dir,
                                    now_millis,
                                    results,
                                    effects,
                                    fuel,
                                );
                                proof {
                                    let rest = spec_crawl_list(
                                        ro.fs,
                                        kids.deep_view(),
                                        j + 1,
                                        *rule,
                                        base_dir@,
                                        now_millis,
                                        quiet,
                                        dry_run,
                                        fuel as nat,
                                    );
                                    let ctxv = FileContextV {
                                        path: p@,
                                        metadata: md@,
                                        has_content_info: false,
                                        parent_dir: parent_dir_of(p@),
                                        base_dir: base_dir@,
                                    };
                                    assert(ctx@ == ctxv);
                                    assert(ctxs_view(results@) =~= ctxs_view(res0) + (seq![ctxv]
                                        + rest.results));
                                    assert(effects_view(effects@) =~= effects_view(effs0) + (
                                    ro.effs + rest.effs));
                                }
                            },
                        }
                    } else {
                        crawl_kids(
                            fs,
                            kids,
                            j + 1,
                            rule,
                            quiet,
                            dry_run,
                            base_dir,
                            now_millis,
                            results,
                            effects,
                            fuel,
                        );
                    }
                },
            }
        },
        Some(EntryInfo::UnreadableEntry) => {
            if !quiet {
                let eff = Effect::Warned(strutil::str_copy(p.as_str()));
                proof {
                    action::lemma_effects_view_push(effs0, eff);
                }
                effects.push(eff);
            }
            crawl_kids(
                fs,
                kids,
                j + 1,
                rule,
                quiet,
                dry_run,
                base_dir,
                now_millis,
                results,
                effects,
                fuel,
            );
            proof {
                let rest = spec_crawl_list(
                    fsv0,
                    kids.deep_view(),
                    j + 1,
                    *rule,
                    base_dir@,
                    now_millis,
                    quiet,
                    dry_run,
                    fuel as nat,
                );
                assert(effects_view(effects@) =~= effects_view(effs0) + (warn_effs(quiet, p@)
                    + rest.effs));
            }
        },
        None => {
            if !quiet {
                let eff = Effect::Warned(strutil::str_copy(p.as_str()));
                proof {
                    action::lemma_effects_view_push(effs0, eff);
                }
                effects.push(eff);
            }
            crawl_kids(
                fs,
                kids,
                j + 1,
                rule,
                quiet,
                dry_run,
                base_dir,
                now_millis,
                results,
                effects,
                fuel,
            );
            proof {
                let rest = spec_crawl_list(
                    fsv0,
                    kids.deep_view(),
                    j + 1,
                    *rule,
                    base_dir@,
                    now_millis,
                    quiet,
                    dry_run,
                    fuel as nat,
                );
                assert(effects_view(effects@) =~= effects_view(effs0) + (warn_effs(quiet, p@)
                    + rest.effs));
            }
        },
    }
}

} // verus!
