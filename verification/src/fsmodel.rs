//! The directory model that the detection and launch logic reads: a snapshot
//! of one directory tree as plain values. Paths inside a snapshot are
//! relative, `/`-separated, and listed together with the file facts the rules
//! inspect (size, executable bit). The caller observes the real directory and
//! fills a snapshot in; every rule over it is verified.

use vstd::prelude::*;
use vstd::string::StringExecFns;

use crate::text::chars_string;
use crate::text::str_chars;
use crate::text::str_eq;

verus! {

/// One regular file below the snapshot root.
pub struct FileMeta {
    /// Relative `/`-separated path of the file.
    pub path: String,
    /// File size in bytes.
    pub size: u64,
    /// Whether an executable bit is set.
    pub executable: bool,
}

/// The observed contents of one directory tree.
pub struct DirSnapshot {
    /// Name of the directory itself (its last path component).
    pub dir_name: String,
    /// The files below the root, in directory-listing order.
    pub files: Vec<FileMeta>,
    /// The directories below the root, in directory-listing order.
    pub dirs: Vec<String>,
}

impl DirSnapshot {
    /// The relative paths of the files, in order.
    pub open spec fn file_paths(&self) -> Seq<Seq<char>> {
        self.files@.map_values(|f: FileMeta| f.path@)
    }

    /// The relative paths of the directories, in order.
    pub open spec fn dir_paths(&self) -> Seq<Seq<char>> {
        self.dirs@.map_values(|s: String| s@)
    }

    /// Whether a file with this relative path was observed.
    pub open spec fn spec_has_file(&self, p: Seq<char>) -> bool {
        self.file_paths().contains(p)
    }

    /// Whether a directory with this relative path was observed.
    pub open spec fn spec_has_dir(&self, p: Seq<char>) -> bool {
        self.dir_paths().contains(p)
    }

    /// Whether a file or directory with this relative path was observed.
    pub open spec fn spec_has_entry(&self, p: Seq<char>) -> bool {
        self.spec_has_file(p) || self.spec_has_dir(p)
    }

    /// Whether a file with this relative path was observed with an
    /// executable bit set.
    pub open spec fn spec_is_exec(&self, p: Seq<char>) -> bool {
        exists|i: int|
            0 <= i < self.files@.len() && self.files@[i].path@ == p && self.files@[i].executable
    }

    /// An empty snapshot with the given directory name.
    pub fn new(dir_name: String) -> (r: DirSnapshot)
        ensures
            r.dir_name == dir_name,
            r.files@.len() == 0,
            r.dirs@.len() == 0,
    {
        DirSnapshot { dir_name, files: Vec::new(), dirs: Vec::new() }
    }

    /// Looks a file path up in the snapshot.
    pub fn has_file(&self, p: &str) -> (r: bool)
        ensures
            r == self.spec_has_file(p@),
    {
        let mut i: usize = 0;
        while i < self.files.len()
            invariant
                0 <= i <= self.files@.len(),
                forall|j: int| 0 <= j < i ==> self.files@[j].path@ != p@,
            decreases self.files@.len() - i,
        {
            if str_eq(self.files[i].path.as_str(), p) {
                assert(self.file_paths()[i as int] == p@);
                return true;
            }
            i = i + 1;
        }
        assert(forall|j: int| 0 <= j < self.file_paths().len() ==> self.file_paths()[j] != p@);
        false
    }

    /// Looks a directory path up in the snapshot.
    pub fn has_dir(&self, p: &str) -> (r: bool)
        ensures
            r == self.spec_has_dir(p@),
    {
        let mut i: usize = 0;
        while i < self.dirs.len()
            invariant
                0 <= i <= self.dirs@.len(),
                forall|j: int| 0 <= j < i ==> self.dirs@[j]@ != p@,
            decreases self.dirs@.len() - i,
        {
            if str_eq(self.dirs[i].as_str(), p) {
                assert(self.dir_paths()[i as int] == p@);
                return true;
            }
            i = i + 1;
        }
        assert(forall|j: int| 0 <= j < self.dir_paths().len() ==> self.dir_paths()[j] != p@);
        false
    }

    /// Looks a path up among both files and directories.
    pub fn has_entry(&self, p: &str) -> (r: bool)
        ensures
            r == self.spec_has_entry(p@),
    {
        self.has_file(p) || self.has_dir(p)
    }

    /// Whether the path names a file observed with an executable bit.
    pub fn is_exec_file(&self, p: &str) -> (r: bool)
        ensures
            r == self.spec_is_exec(p@),
    {
        let mut i: usize = 0;
        while i < self.files.len()
            invariant
                0 <= i <= self.files@.len(),
                forall|j: int|
                    0 <= j < i ==> !(self.files@[j].path@ == p@ && self.files@[j].executable),
            decreases self.files@.len() - i,
        {
            if self.files[i].executable && str_eq(self.files[i].path.as_str(), p) {
                return true;
            }
            i = i + 1;
        }
        false
    }
}

/// `a` and `b` joined with a `/` separator; an empty `a` leaves `b` alone.
pub open spec fn spec_join(a: Seq<char>, b: Seq<char>) -> Seq<char> {
    if a.len() == 0 {
        b
    } else {
        a + seq!['/'] + b
    }
}

/// Joins a relative prefix and a path with a `/` separator.
pub fn path_join(a: &str, b: &str) -> (r: String)
    ensures
        r@ == spec_join(a@, b@),
{
    if a.is_empty() {
        let r = b.to_owned();
        assert(r@ =~= spec_join(a@, b@));
        r
    } else {
        let mut r = a.to_owned();
        r.append("/");
        r.append(b);
        proof {
            reveal_strlit("/");
            assert(r@ =~= a@ + seq!['/'] + b@);
        }
        r
    }
}

/// The index of the last occurrence of `c` in `s`, if any.
pub open spec fn spec_rlast(s: Seq<char>, c: char) -> Option<int>
    decreases s.len(),
{
    if s.len() == 0 {
        None
    } else if s.last() == c {
        Some(s.len() - 1)
    } else {
        spec_rlast(s.drop_last(), c)
    }
}

/// Finds the index of the last occurrence of `c` in `v`.
pub fn rlast_index(v: &Vec<char>, c: char) -> (r: Option<usize>)
    ensures
        match r {
            Some(i) => i < v@.len() && spec_rlast(v@, c) == Some(i as int),
            None => spec_rlast(v@, c) is None,
        },
{
    let mut i: usize = v.len();
    assert(v@.take(v@.len() as int) =~= v@);
    while i > 0
        invariant
            0 <= i <= v@.len(),
            spec_rlast(v@, c) == spec_rlast(v@.take(i as int), c),
        decreases i,
    {
        assert(v@.take(i as int).last() == v@[i - 1]);
        assert(v@.take(i as int).drop_last() =~= v@.take(i - 1));
        if v[i - 1] == c {
            return Some(i - 1);
        }
        i = i - 1;
    }
    assert(v@.take(0) =~= Seq::<char>::empty());
    None
}

/// The file name of a path: everything after the last `/`, or the whole path
/// when there is none.
pub open spec fn spec_file_name(p: Seq<char>) -> Seq<char> {
    match spec_rlast(p, '/') {
        Some(i) => p.skip(i + 1),
        None => p,
    }
}

/// Extracts the file name (last component) of a `/`-separated path.
pub fn file_name_chars(v: &Vec<char>) -> (r: Vec<char>)
    ensures
        r@ == spec_file_name(v@),
{
    let n: usize = v.len();
    let cut: usize = match rlast_index(v, '/') {
        Some(i) => {
            assert(i < n);
            i + 1
        },
        None => 0,
    };
    let mut out: Vec<char> = Vec::new();
    let mut i: usize = cut;
    while i < v.len()
        invariant
            cut <= i <= v@.len(),
            out@ =~= v@.subrange(cut as int, i as int),
        decreases v@.len() - i,
    {
        out.push(v[i]);
        i = i + 1;
    }
    assert(out@ =~= v@.skip(cut as int));
    assert(v@.skip(0) =~= v@);
    out
}

/// The extension of a file name: what follows the last `.`, unless the only
/// `.` is the leading character; `None` when there is no `.` at all.
pub open spec fn spec_ext_of_name(name: Seq<char>) -> Option<Seq<char>> {
    match spec_rlast(name, '.') {
        Some(i) => if i == 0 {
            None
        } else {
            Some(name.skip(i + 1))
        },
        None => None,
    }
}

/// The stem of a file name: what precedes the extension, or the whole name.
pub open spec fn spec_stem_of_name(name: Seq<char>) -> Seq<char> {
    match spec_rlast(name, '.') {
        Some(i) => if i == 0 {
            name
        } else {
            name.take(i)
        },
        None => name,
    }
}

/// The extension of the file named by a path.
pub open spec fn spec_ext_of(p: Seq<char>) -> Option<Seq<char>> {
    spec_ext_of_name(spec_file_name(p))
}

/// The stem of the file named by a path.
pub open spec fn spec_stem_of(p: Seq<char>) -> Seq<char> {
    spec_stem_of_name(spec_file_name(p))
}

/// Extracts the extension of the file named by a `/`-separated path.
pub fn ext_of_chars(v: &Vec<char>) -> (r: Option<Vec<char>>)
    ensures
        match r {
            Some(e) => spec_ext_of(v@) == Some(e@),
            None => spec_ext_of(v@) is None,
        },
{
    let name = file_name_chars(v);
    let n: usize = name.len();
    match rlast_index(&name, '.') {
        Some(i) => {
            assert(i < n);
            if i == 0 {
                None
            } else {
                let mut out: Vec<char> = Vec::new();
                let mut j: usize = i + 1;
                while j < name.len()
                    invariant
                        i + 1 <= j <= name@.len(),
                        out@ =~= name@.subrange(i + 1, j as int),
                    decreases name@.len() - j,
                {
                    out.push(name[j]);
                    j = j + 1;
                }
                assert(out@ =~= name@.skip(i + 1));
                Some(out)
            }
        },
        None => None,
    }
}

/// Extracts the stem of the file named by a `/`-separated path.
pub fn stem_of_chars(v: &Vec<char>) -> (r: Vec<char>)
    ensures
        r@ == spec_stem_of(v@),
{
    let name = file_name_chars(v);
    match rlast_index(&name, '.') {
        Some(i) => {
            if i == 0 {
                name
            } else {
                let mut out: Vec<char> = Vec::new();
                let mut j: usize = 0;
                while j < i
                    invariant
                        0 <= j <= i < name@.len(),
                        out@ =~= name@.take(j as int),
                    decreases i - j,
                {
                    out.push(name[j]);
                    j = j + 1;
                }
                out
            }
        },
        None => name,
    }
}

/// Extracts the file name (last component) of a `/`-separated path string.
pub fn file_name_of(p: &str) -> (r: String)
    ensures
        r@ == spec_file_name(p@),
{
    let v = str_chars(p);
    let name = file_name_chars(&v);
    chars_string(&name)
}

} // verus!
