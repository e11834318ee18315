//! The storage manager's decisions: where a root's files, backups, trash and
//! temporary files live, what a backup holds, what a restore copies back, and
//! in what order backups are listed. The filesystem calls that carry these
//! decisions out are made by the caller.

use vstd::multiset::Multiset;
use vstd::prelude::*;

use crate::error::AgentError;
use crate::paths::{
    extension, extension_spec, file_name, file_name_spec, join, join_spec, temp_sibling,
    temp_sibling_spec,
};
use crate::text::{chars_of, concat, decimal, decimal_string, parse_u64, parse_u64_spec, same_text};

verus! {

/// One backup snapshot.
#[derive(Debug, Clone)]
pub struct BackupInfo {
    /// Seconds since the epoch at which the backup was taken.
    pub timestamp: u64,
    /// Where the backup's directory is.
    pub path: String,
    /// The root that was backed up.
    pub original_path: String,
    /// Root-relative paths of the files that the backup holds.
    pub files: Vec<String>,
    /// An optional label.
    pub description: Option<String>,
}

/// Owner of a root directory and of the backup directory beneath it.
pub struct StorageManager {
    base_path: String,
    backup_path: String,
}

/// The reserved subtree of a root, never itself backed up.
pub open spec fn reserved_name() -> Seq<char> {
    ".agents"@
}

pub open spec fn backup_root_spec(base: Seq<char>) -> Seq<char> {
    join_spec(join_spec(base, ".agents"@), "backups"@)
}

pub open spec fn trash_root_spec(base: Seq<char>) -> Seq<char> {
    join_spec(join_spec(base, ".agents"@), "trash"@)
}

/// The name of the directory of a backup taken at `stamp`.
pub open spec fn backup_dir_name(stamp: nat) -> Seq<char> {
    "backup_"@ + decimal(stamp)
}

/// The name under which a file goes to the trash.
pub open spec fn trash_name_spec(stamp: nat, name: Seq<char>, ext: Option<Seq<char>>) -> Seq<char> {
    decimal(stamp) + seq!['.'] + name + seq!['.'] + match ext {
        Some(e) => e,
        None => "bak"@,
    }
}

/// The copies, as (from, to) pairs, that carry `files` from under `from`
/// to the same relative places under `to`.
pub open spec fn copy_plan_spec(from: Seq<char>, to: Seq<char>, files: Seq<String>) -> Seq<
    (Seq<char>, Seq<char>),
> {
    files.map_values(|f: String| (join_spec(from, f@), join_spec(to, f@)))
}

pub open spec fn pairs_view(v: Seq<(String, String)>) -> Seq<(Seq<char>, Seq<char>)> {
    v.map_values(|p: (String, String)| (p.0@, p.1@))
}

/// The timestamp named by a backup directory `backup_<number>`.
pub open spec fn backup_stamp_spec(name: Seq<char>) -> Option<u64> {
    if name.len() >= 7 && name.subrange(0, 7) == "backup_"@ {
        parse_u64_spec(name.subrange(7, name.len() as int))
    } else {
        None
    }
}

/// Newest first: timestamps never increase along `s`.
pub open spec fn newest_first(s: Seq<BackupInfo>) -> bool {
    forall|i: int, j: int| 0 <= i < j < s.len() ==> s[i].timestamp >= s[j].timestamp
}

impl StorageManager {
    #[verifier::type_invariant]
    spec fn inv(&self) -> bool {
        self.backup_path@ == backup_root_spec(self.base_path@)
    }

    /// The root directory.
    pub closed spec fn root(&self) -> Seq<char> {
        self.base_path@
    }

    /// A manager of the root `base_path`; its backups go under
    /// `<root>/.agents/backups`. Creating both directories is the caller's
    /// part.
    pub fn new(base_path: &str) -> (r: Self)
        ensures
            r.root() == base_path@,
    {
        let base = String::from_str(base_path);
        let agents = join(base_path, ".agents");
        let backups = join(agents.as_str(), "backups");
        StorageManager { base_path: base, backup_path: backups }
    }

    /// The root directory.
    pub fn base_path(&self) -> (r: &str)
        ensures
            r@ == self.root(),
    {
        self.base_path.as_str()
    }

    /// The directory that holds the backups.
    pub fn backup_path(&self) -> (r: &str)
        ensures
            r@ == backup_root_spec(self.root()),
    {
        proof {
            use_type_invariant(self);
        }
        self.backup_path.as_str()
    }

    /// Where the root-relative `path` is.
    pub fn full_path(&self, path: &str) -> (r: String)
        ensures
            r@ == join_spec(self.root(), path@),
    {
        join(self.base_path.as_str(), path)
    }

    /// Whether the root-relative `path` names something on disk now.
    pub fn file_exists(&self, path: &str) -> bool {
        let full = self.full_path(path);
        path_exists(full.as_str())
    }

    /// The temporary sibling that an atomic write of `path` goes through
    /// before it is renamed into place; `stamp` tells concurrent writers apart.
    pub fn temp_path(&self, path: &str, stamp: u64) -> (r: String)
        ensures
            r@ == temp_sibling_spec(join_spec(self.root(), path@), stamp as nat),
    {
        let full = self.full_path(path);
        temp_sibling(full.as_str(), stamp)
    }

    /// The trash directory.
    pub fn trash_path(&self) -> (r: String)
        ensures
            r@ == trash_root_spec(self.root()),
    {
        let agents = join(self.base_path.as_str(), ".agents");
        join(agents.as_str(), "trash")
    }

    /// Where `path` goes when it is moved to the trash at `stamp`:
    /// `<stamp>.<file name>.<extension, or bak>` in the trash directory.
    pub fn trash_destination(&self, path: &str, stamp: u64) -> (r: Result<String, AgentError>)
        ensures
            file_name_spec(path@) matches Some(n) ==> (r matches Ok(d) && d@ == join_spec(
                trash_root_spec(self.root()),
                trash_name_spec(stamp as nat, n, extension_spec(path@)),
            )),
            file_name_spec(path@) is None ==> (r matches Err(AgentError::InvalidPath(m)) && m@
                == "Invalid file name"@),
    {
        let name = trash_file_name(path, stamp);
        match name {
            Ok(n) => {
                let dir = self.trash_path();
                Ok(join(dir.as_str(), n.as_str()))
            },
            Err(e) => Err(e),
        }
    }

    /// The directory of a backup taken at `stamp`.
    pub fn backup_dir(&self, stamp: u64) -> (r: String)
        ensures
            r@ == join_spec(backup_root_spec(self.root()), backup_dir_name(stamp as nat)),
    {
        proof {
            use_type_invariant(self);
        }
        let d = decimal_string(stamp);
        let name = concat("backup_", d.as_str());
        join(self.backup_path.as_str(), name.as_str())
    }

    /// The record of a backup taken at `stamp` of the root-relative `files`.
    pub fn backup_record(&self, stamp: u64, files: Vec<String>, description: Option<String>) -> (r:
        BackupInfo)
        ensures
            r.timestamp == stamp,
            r.path@ == join_spec(backup_root_spec(self.root()), backup_dir_name(stamp as nat)),
            r.original_path@ == self.root(),
            r.files@ == files@,
            r.description == description,
    {
        let path = self.backup_dir(stamp);
        BackupInfo {
            timestamp: stamp,
            path,
            original_path: self.base_path.clone(),
            files,
            description,
        }
    }

    /// The record of a backup found in the directory `dir` of the backup
    /// area, named for `stamp`, whose files were found by a walk of `dir`.
    pub fn found_backup(&self, stamp: u64, dir: String, files: Vec<String>) -> (r: BackupInfo)
        ensures
            r.timestamp == stamp,
            r.path == dir,
            r.original_path@ == self.root(),
            r.files@ == files@,
            r.description is None,
    {
        BackupInfo {
            timestamp: stamp,
            path: dir,
            original_path: self.base_path.clone(),
            files,
            description: None,
        }
    }

    /// The copies that take a backup: each file of the record, from the root
    /// into the record's directory.
    pub fn backup_copies(&self, record: &BackupInfo) -> (r: Vec<(String, String)>)
        ensures
            pairs_view(r@) == copy_plan_spec(self.root(), record.path@, record.files@),
    {
        copy_plan(self.base_path.as_str(), record.path.as_str(), &record.files)
    }

    /// The copies that restore a backup: each file of the record, from the
    /// record's directory back to its place under the root.
    pub fn restore_copies(&self, record: &BackupInfo) -> (r: Vec<(String, String)>)
        ensures
            pairs_view(r@) == copy_plan_spec(record.path@, self.root(), record.files@),
    {
        copy_plan(record.path.as_str(), self.base_path.as_str(), &record.files)
    }
}

/// Relies on `std::path::Path::exists`: whether the filesystem holds
/// something at `p` now. Nothing is promised of the answer.
#[verifier::external_body]
fn path_exists(p: &str) -> bool {
    std::path::Path::new(p).exists()
}

/// The name under which `path` goes to the trash at `stamp`.
pub fn trash_file_name(path: &str, stamp: u64) -> (r: Result<String, AgentError>)
    ensures
        file_name_spec(path@) matches Some(n) ==> (r matches Ok(s) && s@ == trash_name_spec(
            stamp as nat,
            n,
            extension_spec(path@),
        )),
        file_name_spec(path@) is None ==> (r matches Err(AgentError::InvalidPath(m)) && m@
            == "Invalid file name"@),
{
    match file_name(path) {
        None => Err(AgentError::InvalidPath(String::from_str("Invalid file name"))),
        Some(n) => {
            let ext = match extension(path) {
                Some(e) => e,
                None => String::from_str("bak"),
            };
            let d = decimal_string(stamp);
            let a = concat(d.as_str(), ".");
            let b = concat(a.as_str(), n.as_str());
            let c = concat(b.as_str(), ".");
            let r = concat(c.as_str(), ext.as_str());
            proof {
                reveal_strlit(".");
            }
            assert(r@ =~= trash_name_spec(stamp as nat, n@, extension_spec(path@)));
            Ok(r)
        },
    }
}

/// The copies that carry `files` from under `from` to the same relative
/// places under `to`.
pub fn copy_plan(from: &str, to: &str, files: &Vec<String>) -> (r: Vec<(String, String)>)
    ensures
        pairs_view(r@) == copy_plan_spec(from@, to@, files@),
{
    let mut out: Vec<(String, String)> = Vec::new();
    let mut i: usize = 0;
    while i < files.len()
        invariant
            i <= files@.len(),
            pairs_view(out@) == copy_plan_spec(from@, to@, files@.subrange(0, i as int)),
        decreases files@.len() - i,
    {
        let f = files[i].as_str();
        let src = join(from, f);
        let dst = join(to, f);
        let ghost prev = out@;
        out.push((src, dst));
        assert(files@.subrange(0, i + 1).drop_last() =~= files@.subrange(0, i as int));
        assert(pairs_view(out@) =~= pairs_view(prev).push((src@, dst@)));
        i = i + 1;
        assert(pairs_view(out@) =~= copy_plan_spec(from@, to@, files@.subrange(0, i as int)));
    }
    assert(files@.subrange(0, i as int) =~= files@);
    out
}

/// The text that labels the backup taken before a restore of the backup
/// made at `stamp`.
pub fn restore_description(stamp: u64) -> (r: String)
    ensures
        r@ == "Pre-restore backup before restoring from "@ + decimal(stamp as nat),
{
    let d = decimal_string(stamp);
    concat("Pre-restore backup before restoring from ", d.as_str())
}

/// The timestamp that a backup directory's name gives, where the name is
/// `backup_` followed by a number.
pub fn backup_stamp(name: &str) -> (r: Option<u64>)
    ensures
        r == backup_stamp_spec(name@),
{
    let cs = chars_of(name);
    let prefix = chars_of("backup_");
    proof {
        reveal_strlit("backup_");
    }
    if cs.len() < 7 {
        return None;
    }
    let mut i: usize = 0;
    while i < 7
        invariant
            i <= 7 <= cs@.len(),
            cs@ == name@,
            prefix@ == "backup_"@,
            prefix@.len() == 7,
            forall|j: int| 0 <= j < i ==> cs@[j] == prefix@[j],
        decreases 7 - i,
    {
        if cs[i] != prefix[i] {
            assert(cs@.subrange(0, 7)[i as int] != "backup_"@[i as int]);
            assert(cs@.subrange(0, 7) != "backup_"@);
            return None;
        }
        i = i + 1;
    }
    assert(cs@.subrange(0, 7) =~= "backup_"@);
    let rest = crate::text::string_of_range(&cs, 7, cs.len());
    parse_u64(rest.as_str())
}

/// `backups` ordered newest first; the same records, none lost or added.
pub fn sort_newest_first(backups: Vec<BackupInfo>) -> (r: Vec<BackupInfo>)
    ensures
        newest_first(r@),
        r@.to_multiset() == backups@.to_multiset(),
{
    broadcast use vstd::seq_lib::to_multiset_len, vstd::multiset::lemma_multiset_empty_len;

    let mut rest = backups;
    let mut out: Vec<BackupInfo> = Vec::new();
    assert(out@.to_multiset().len() == 0);
    assert(out@.to_multiset() =~= Multiset::empty());
    assert(out@.to_multiset().add(rest@.to_multiset()) =~= backups@.to_multiset());
    while rest.len() > 0
        invariant
            newest_first(out@),
            out@.to_multiset().add(rest@.to_multiset()) == backups@.to_multiset(),
        decreases rest@.len(),
    {
        let ghost before = rest@;
        let item = rest.pop().unwrap();
        assert(before == rest@.push(item));
        let mut p: usize = 0;
        while p < out.len() && out[p].timestamp > item.timestamp
            invariant
                p <= out@.len(),
                forall|j: int| 0 <= j < p ==> out@[j].timestamp > item.timestamp,
            decreases out@.len() - p,
        {
            p = p + 1;
        }
        let ghost old_out = out@;
        out.insert(p, item);
        assert(out@ == old_out.insert(p as int, item));
        proof {
            vstd::seq_lib::to_multiset_insert(old_out, p as int, item);
            vstd::seq_lib::to_multiset_build(rest@, item);
        }
        assert(out@.to_multiset().add(rest@.to_multiset()) =~= old_out.to_multiset().add(
            before.to_multiset(),
        ));
        assert(newest_first(out@)) by {
            assert forall|i: int, j: int| 0 <= i < j < out@.len() implies out@[i].timestamp
                >= out@[j].timestamp by {
                if j < p {
                } else if i < p && j == p {
                } else if i < p {
                    assert(out@[j] == old_out[j - 1]);
                    assert(old_out[i] == out@[i]);
                } else if i == p {
                    assert(out@[j] == old_out[j - 1]);
                    assert(j - 1 >= p);
                } else {
                    assert(out@[j] == old_out[j - 1]);
                    assert(out@[i] == old_out[i - 1]);
                }
            }
        }
    }
    assert(rest@ =~= Seq::<BackupInfo>::empty());
    assert(rest@.to_multiset() =~= Multiset::empty());
    assert(out@.to_multiset() =~= out@.to_multiset().add(rest@.to_multiset()));
    out
}

/// A walk of a directory tree that collects the paths of its regular files,
/// relative to where it began, and passes over every entry named `.agents`.
/// The caller reads each directory that `next_dir` hands out and passes its
/// entries to `visit`.
pub struct FileWalk {
    pending: Vec<String>,
    files: Vec<String>,
}

impl FileWalk {
    pub closed spec fn pending_dirs(&self) -> Seq<String> {
        self.pending@
    }

    pub closed spec fn found_files(&self) -> Seq<String> {
        self.files@
    }

    /// A walk that starts at the top directory, written as the empty path.
    pub fn new() -> (r: Self)
        ensures
            r.pending_dirs().len() == 1,
            r.pending_dirs()[0]@ == Seq::<char>::empty(),
            r.found_files().len() == 0,
    {
        let mut pending: Vec<String> = Vec::new();
        pending.push(String::new());
        FileWalk { pending, files: Vec::new() }
    }

    /// The next directory to read, or `None` when the walk is over.
    pub fn next_dir(&mut self) -> (r: Option<String>)
        ensures
            old(self).pending_dirs().len() == 0 ==> r is None && final(self).pending_dirs()
                == old(self).pending_dirs() && final(self).found_files() == old(
                self,
            ).found_files(),
            old(self).pending_dirs().len() > 0 ==> r == Some(old(self).pending_dirs().last())
                && final(self).pending_dirs() == old(self).pending_dirs().drop_last()
                && final(self).found_files() == old(self).found_files(),
    {
        self.pending.pop()
    }

    /// Take in the entries of `dir` as (name, is a directory) pairs: each
    /// directory is to be read later, each other entry is a file found; an
    /// entry named `.agents` is passed over.
    pub fn visit(&mut self, dir: &str, entries: &Vec<(String, bool)>)
        ensures
            final(self).found_files().map_values(|s: String| s@) == old(self).found_files().map_values(
                |s: String| s@,
            ) + walk_children(dir@, entries@, false),
            final(self).pending_dirs().map_values(|s: String| s@) == old(
                self,
            ).pending_dirs().map_values(|s: String| s@) + walk_children(dir@, entries@, true),
    {
        let mut i: usize = 0;
        let ghost files0 = self.files@.map_values(|s: String| s@);
        let ghost pending0 = self.pending@.map_values(|s: String| s@);
        proof {
            reveal_strlit(".agents");
        }
        while i < entries.len()
            invariant
                i <= entries@.len(),
                self.files@.map_values(|s: String| s@) == files0 + walk_children(
                    dir@,
                    entries@.subrange(0, i as int),
                    false,
                ),
                self.pending@.map_values(|s: String| s@) == pending0 + walk_children(
                    dir@,
                    entries@.subrange(0, i as int),
                    true,
                ),
            decreases entries@.len() - i,
        {
            let name = entries[i].0.as_str();
            let is_dir = entries[i].1;
            let ghost sub = entries@.subrange(0, i as int);
            let ghost upto = entries@.subrange(0, i + 1);
            assert(upto.drop_last() =~= sub);
            assert(upto.last() == entries@[i as int]);
            let ghost files_before = self.files@;
            let ghost pending_before = self.pending@;
            let reserved = same_text(name, ".agents");
            assert(reserved == (entries@[i as int].0@ == reserved_name()));
            if !reserved {
                let child = join(dir, name);
                if is_dir {
                    self.pending.push(child);
                    assert(self.pending@.map_values(|s: String| s@) =~= pending_before.map_values(
                        |s: String| s@,
                    ).push(child@));
                } else {
                    self.files.push(child);
                    assert(self.files@.map_values(|s: String| s@) =~= files_before.map_values(
                        |s: String| s@,
                    ).push(child@));
                }
            }
            i = i + 1;
            assert(self.files@.map_values(|s: String| s@) =~= files0 + walk_children(
                dir@,
                entries@.subrange(0, i as int),
                false,
            ));
            assert(self.pending@.map_values(|s: String| s@) =~= pending0 + walk_children(
                dir@,
                entries@.subrange(0, i as int),
                true,
            ));
        }
        assert(entries@.subrange(0, i as int) =~= entries@);
    }

    /// The files found, relative to the top directory.
    pub fn into_files(self) -> (r: Vec<String>)
        ensures
            r@ == self.found_files(),
    {
        self.files
    }
}

/// The paths under `dir` of the entries that are directories (`dirs`) or
/// files (`!dirs`), other than those named `.agents`, in order.
pub open spec fn walk_children(dir: Seq<char>, entries: Seq<(String, bool)>, dirs: bool) -> Seq<
    Seq<char>,
>
    decreases entries.len(),
{
    if entries.len() == 0 {
        Seq::empty()
    } else {
        let e = entries.last();
        let before = walk_children(dir, entries.drop_last(), dirs);
        if e.0@ != reserved_name() && e.1 == dirs {
            before.push(join_spec(dir, e.0@))
        } else {
            before
        }
    }
}

} // verus!
