//! Relocating and duplicating single files in the filesystem model.
use vstd::prelude::*;

use crate::fs_model::{spec_lookup, spec_remove, spec_set, EntryInfo, FsModel};
use crate::handlers::action::{ActionError, ActionErrorV};
use crate::strutil::{self, basename_of, path_join};

verus! {

/// Whether the model reports a directory — listable or not — at `p`.
pub open spec fn dest_is_dir(fsv: Seq<(Seq<char>, EntryInfo)>, p: Seq<char>) -> bool {
    spec_lookup(fsv, p) matches Some(i) && (i is Dir || i is UnlistableDir)
}

/// What moving the file at `src` into the directory `dst` does to the
/// model, and with which result: the file's entry is rewritten to
/// `dst/<basename of src>` (overwriting a file already recorded there), and
/// it fails closed — before any change — when `src` has no base name, is
/// absent or unreadable, names a directory, when `dst` is no directory, or
/// when the target is occupied by something other than a file.
pub open spec fn spec_move_file(
    fsv: Seq<(Seq<char>, EntryInfo)>,
    src: Seq<char>,
    dst: Seq<char>,
) -> (Result<(), ActionErrorV>, Seq<(Seq<char>, EntryInfo)>) {
    let b = basename_of(src);
    if b.len() == 0 {
        (Err(ActionErrorV::NoFileName(src)), fsv)
    } else {
        match spec_lookup(fsv, src) {
            None => (Err(ActionErrorV::Io(src)), fsv),
            Some(EntryInfo::Dir) => (Err(ActionErrorV::IsADirectory(src)), fsv),
            Some(EntryInfo::UnlistableDir) => (Err(ActionErrorV::IsADirectory(src)), fsv),
            Some(EntryInfo::UnreadableEntry) => (Err(ActionErrorV::Io(src)), fsv),
            Some(EntryInfo::File(f)) => {
                if !dest_is_dir(fsv, dst) {
                    (Err(ActionErrorV::Io(dst)), fsv)
                } else {
                    let target = path_join(dst, b);
                    if spec_lookup(fsv, target) matches Some(t) && !(t is File) {
                        (Err(ActionErrorV::Io(target)), fsv)
                    } else {
                        (Ok(()), spec_set(spec_remove(fsv, src), target, EntryInfo::File(f)))
                    }
                }
            },
        }
    }
}

/// What copying the file at `src` into the directory `dst` does to the
/// model: as `spec_move_file`, but the source entry stays and the result
/// carries the number of bytes copied.
pub open spec fn spec_copy_file(
    fsv: Seq<(Seq<char>, EntryInfo)>,
    src: Seq<char>,
    dst: Seq<char>,
) -> (Result<u64, ActionErrorV>, Seq<(Seq<char>, EntryInfo)>) {
    let b = basename_of(src);
    if b.len() == 0 {
        (Err(ActionErrorV::NoFileName(src)), fsv)
    } else {
        match spec_lookup(fsv, src) {
            None => (Err(ActionErrorV::Io(src)), fsv),
            Some(EntryInfo::Dir) => (Err(ActionErrorV::IsADirectory(src)), fsv),
            Some(EntryInfo::UnlistableDir) => (Err(ActionErrorV::IsADirectory(src)), fsv),
            Some(EntryInfo::UnreadableEntry) => (Err(ActionErrorV::Io(src)), fsv),
            Some(EntryInfo::File(f)) => {
                if !dest_is_dir(fsv, dst) {
                    (Err(ActionErrorV::Io(dst)), fsv)
                } else {
                    let target = path_join(dst, b);
                    if spec_lookup(fsv, target) matches Some(t) && !(t is File) {
                        (Err(ActionErrorV::Io(target)), fsv)
                    } else {
                        (Ok(f.size), spec_set(fsv, target, EntryInfo::File(f)))
                    }
                }
            },
        }
    }
}

/// Moves the file at `source_path` into the directory `destination_path`,
/// keeping its base name. Directories are never moved, and the destination
/// must be a directory: every check runs before any change. With `dry_run`
/// the checks run but the model is left untouched.
pub fn move_file(fs: &mut FsModel, source_path: &str, destination_path: &str, dry_run: bool) -> (r:
    Result<(), ActionError>)
    ensures
        ({
            let (sr, sfs) = spec_move_file(old(fs)@, source_path@, destination_path@);
            &&& (match r {
                Ok(u) => sr == Ok::<(), ActionErrorV>(u),
                Err(e) => sr == Err::<(), ActionErrorV>(e@),
            })
            &&& final(fs)@ == (if dry_run {
                old(fs)@
            } else {
                sfs
            })
        }),
{
    let b = strutil::basename(source_path);
    if b.unicode_len() == 0 {
        return Err(ActionError::NoFileName(strutil::str_copy(source_path)));
    }
    match fs.get(source_path) {
        None => Err(ActionError::Io(strutil::str_copy(source_path))),
        Some(EntryInfo::Dir) => Err(ActionError::IsADirectory(strutil::str_copy(source_path))),
        Some(EntryInfo::UnlistableDir) => Err(
            ActionError::IsADirectory(strutil::str_copy(source_path)),
        ),
        Some(EntryInfo::UnreadableEntry) => Err(
            ActionError::Io(strutil::str_copy(source_path)),
        ),
        Some(EntryInfo::File(f)) => {
            let dest_dir = matches!(
                fs.get(destination_path),
                Some(EntryInfo::Dir) | Some(EntryInfo::UnlistableDir)
            );
            if !dest_dir {
                return Err(ActionError::Io(strutil::str_copy(destination_path)));
            }
            let target = strutil::join_path(destination_path, b);
            let occupied_other = match fs.get(target.as_str()) {
                Some(EntryInfo::File(_)) => false,
                Some(_) => true,
                None => false,
            };
            if occupied_other {
                Err(ActionError::Io(target))
            } else {
                if !dry_run {
                    fs.drop_path(source_path);
                    fs.put(target.as_str(), EntryInfo::File(f));
                }
                Ok(())
            }
        },
    }
}

/// Duplicates the file at `source_path` into the directory
/// `destination_path`, keeping its base name; the source stays untouched
/// and the destination must be a directory. Returns the number of bytes
/// copied. With `dry_run` the checks run but the model is left untouched.
pub fn copy_file(fs: &mut FsModel, source_path: &str, destination_path: &str, dry_run: bool) -> (r:
    Result<u64, ActionError>)
    ensures
        ({
            let (sr, sfs) = spec_copy_file(old(fs)@, source_path@, destination_path@);
            &&& (match r {
                Ok(u) => sr == Ok::<u64, ActionErrorV>(u),
                Err(e) => sr == Err::<u64, ActionErrorV>(e@),
            })
            &&& final(fs)@ == (if dry_run {
                old(fs)@
            } else {
                sfs
            })
        }),
{
    let b = strutil::basename(source_path);
    if b.unicode_len() == 0 {
        return Err(ActionError::NoFileName(strutil::str_copy(source_path)));
    }
    match fs.get(source_path) {
        None => Err(ActionError::Io(strutil::str_copy(source_path))),
        Some(EntryInfo::Dir) => Err(ActionError::IsADirectory(strutil::str_copy(source_path))),
        Some(EntryInfo::UnlistableDir) => Err(
            ActionError::IsADirectory(strutil::str_copy(source_path)),
        ),
        Some(EntryInfo::UnreadableEntry) => Err(
            ActionError::Io(strutil::str_copy(source_path)),
        ),
        Some(EntryInfo::File(f)) => {
            let dest_dir = matches!(
                fs.get(destination_path),
                Some(EntryInfo::Dir) | Some(EntryInfo::UnlistableDir)
            );
            if !dest_dir {
                return Err(ActionError::Io(strutil::str_copy(destination_path)));
            }
            let target = strutil::join_path(destination_path, b);
            let occupied_other = match fs.get(target.as_str()) {
                Some(EntryInfo::File(_)) => false,
                Some(_) => true,
                None => false,
            };
            if occupied_other {
                Err(ActionError::Io(target))
            } else {
                if !dry_run {
                    fs.put(target.as_str(), EntryInfo::File(f));
                }
                Ok(f.size)
            }
        },
    }
}

} // verus!
