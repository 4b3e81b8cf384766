//! Per-commit diff summaries and extension filtering.

use vstd::prelude::*;

verus! {

/// Index of the last `c` in `s`, or -1 when there is none.
pub open spec fn last_index_of(s: Seq<char>, c: char) -> int
    decreases s.len(),
{
    if s.len() == 0 {
        -1
    } else if s.last() == c {
        s.len() - 1
    } else {
        last_index_of(s.drop_last(), c)
    }
}

/// The final segment of a path: the text after its last `/`.
pub open spec fn final_segment(path: Seq<char>) -> Seq<char> {
    path.subrange(last_index_of(path, '/') + 1, path.len() as int)
}

/// A path's extension: the text after the last `.` of its final segment,
/// with no leading dot; none when that segment has no `.`.
pub open spec fn path_extension(path: Seq<char>) -> Option<Seq<char>> {
    let seg = final_segment(path);
    let d = last_index_of(seg, '.');
    if d < 0 {
        None
    } else {
        Some(seg.subrange(d + 1, seg.len() as int))
    }
}

/// `last_index_of` is -1 or an index holding `c`.
proof fn lemma_last_index_of(s: Seq<char>, c: char)
    ensures
        -1 <= last_index_of(s, c) < s.len(),
        last_index_of(s, c) >= 0 ==> s[last_index_of(s, c)] == c,
    decreases s.len(),
{
    if s.len() > 0 && s.last() != c {
        lemma_last_index_of(s.drop_last(), c);
    }
}

/// The position in `s` of the last `c` among the characters `lo..hi`, or -1.
fn last_index_in(s: &str, lo: usize, hi: usize, c: char) -> (r: Option<usize>)
    requires
        lo <= hi <= s@.len(),
    ensures
        match r {
            None => last_index_of(s@.subrange(lo as int, hi as int), c) < 0,
            Some(k) => last_index_of(s@.subrange(lo as int, hi as int), c) >= 0 && k == last_index_of(
                s@.subrange(lo as int, hi as int),
                c,
            ) + lo,
        },
{
    let mut i: usize = hi;
    while i > lo
        invariant
            lo <= i <= hi <= s@.len(),
            last_index_of(s@.subrange(lo as int, hi as int), c) == last_index_of(s@.subrange(lo as int, i as int), c),
        decreases i - lo,
    {
        if s.get_char(i - 1) == c {
            return Some(i - 1);
        }
        proof {
            assert(s@.subrange(lo as int, i as int).drop_last() =~= s@.subrange(lo as int, i as int - 1));
        }
        i = i - 1;
    }
    None
}

/// The extension of a path, as `path_extension` defines it.
fn extension_of(path: &str) -> (r: Option<String>)
    ensures
        match r {
            Some(e) => path_extension(path@) == Some(e@),
            None => path_extension(path@) is None,
        },
        !path@.contains('.') ==> r is None,
{
    let n = path.unicode_len();
    proof {
        assert(path@.subrange(0, n as int) =~= path@);
        lemma_last_index_of(path@, '/');
    }
    let start: usize = match last_index_in(path, 0, n, '/') {
        Some(slash) => slash + 1,
        None => 0,
    };
    let ghost seg = final_segment(path@);
    proof {
        assert(seg =~= path@.subrange(start as int, n as int));
        lemma_last_index_of(seg, '.');
    }
    let dot = match last_index_in(path, start, n, '.') {
        Some(d) => d,
        None => {
            return None;
        },
    };
    let e = String::from_str(path.substring_char(dot + 1, n));
    proof {
        let d = last_index_of(seg, '.');
        assert(seg.subrange(d + 1, seg.len() as int) =~= path@.subrange(dot + 1, n as int));
        assert(seg[d] == '.');
        assert(seg[d] == path@[dot as int]);
    }
    Some(e)
}

/// The views of a list of extensions.
pub open spec fn ext_views(exts: Seq<String>) -> Seq<Seq<char>> {
    exts.map_values(|e: String| e@)
}

/// Whether an extension passes an allow-list: an empty list lets everything
/// through; otherwise the extension must be present and listed exactly.
pub open spec fn extension_allowed(ext: Option<Seq<char>>, allowed: Seq<Seq<char>>) -> bool {
    allowed.len() == 0 || (ext matches Some(e) && allowed.contains(e))
}

/// Individual file change within a commit.
#[derive(Debug)]
pub struct FileChange {
    /// File path
    pub path: String,
    /// Lines added in this file
    pub additions: u64,
    /// Lines deleted in this file
    pub deletions: u64,
}

impl Clone for FileChange {
    fn clone(&self) -> (r: Self)
        ensures
            r.path@ == self.path@,
            r.additions == self.additions,
            r.deletions == self.deletions,
    {
        FileChange { path: self.path.clone(), additions: self.additions, deletions: self.deletions }
    }
}

/// The text of an optional string slice.
pub open spec fn opt_view(o: Option<&str>) -> Option<Seq<char>> {
    match o {
        Some(e) => Some(e@),
        None => None,
    }
}

/// Whether `ext` (an extension, or none) passes the allow-list `extensions`.
pub fn extension_matches(ext: Option<&str>, extensions: &[String]) -> (r: bool)
    ensures
        r == extension_allowed(opt_view(ext), ext_views(extensions@)),
{
    if extensions.len() == 0 {
        return true;
    }
    match ext {
        None => false,
        Some(e) => {
            let target = String::from_str(e);
            let mut i: usize = 0;
            while i < extensions.len()
                invariant
                    0 <= i <= extensions.len(),
                    target@ == e@,
                    ext == Some(e),
                    extensions.len() > 0,
                    forall|k: int| 0 <= k < i ==> extensions@[k]@ != e@,
                decreases extensions.len() - i,
            {
                if extensions[i] == target {
                    assert(extensions@[i as int]@ == e@);
                    assert(ext_views(extensions@)[i as int] == e@);
                    assert(ext_views(extensions@).contains(e@));
                    return true;
                }
                i = i + 1;
            }
            assert(!ext_views(extensions@).contains(e@)) by {
                if ext_views(extensions@).contains(e@) {
                    let k = choose|k: int|
                        0 <= k < ext_views(extensions@).len() && ext_views(extensions@)[k] == e@;
                    assert(extensions@[k]@ == e@);
                }
            }
            false
        },
    }
}

impl FileChange {
    /// Create a new `FileChange`.
    pub fn new(path: String, additions: u64, deletions: u64) -> (r: Self)
        ensures
            r.path == path,
            r.additions == additions,
            r.deletions == deletions,
    {
        FileChange { path, additions, deletions }
    }

    /// Whether this file's extension passes the allow-list `extensions`
    /// (an empty list matches every file).
    pub fn matches_extensions(&self, extensions: &[String]) -> (r: bool)
        ensures
            r == extension_allowed(path_extension(self.path@), ext_views(extensions@)),
            !self.path@.contains('.') && extensions@.len() > 0 ==> !r,
    {
        let ext = extension_of(self.path.as_str());
        match ext {
            Some(e) => {
                let es = e.as_str();
                assert(es@ == e@);
                extension_matches(Some(es), extensions)
            },
            None => extension_matches(None, extensions),
        }
    }
}

/// Sum of the lines added over `files`.
pub open spec fn sum_additions(files: Seq<FileChange>) -> int
    decreases files.len(),
{
    if files.len() == 0 {
        0
    } else {
        sum_additions(files.drop_last()) + files.last().additions
    }
}

/// Sum of the lines deleted over `files`.
pub open spec fn sum_deletions(files: Seq<FileChange>) -> int
    decreases files.len(),
{
    if files.len() == 0 {
        0
    } else {
        sum_deletions(files.drop_last()) + files.last().deletions
    }
}

/// Lines added, lines deleted and number of files over the files of
/// `files` whose extension passes `allowed`.
pub open spec fn matched_counts(files: Seq<FileChange>, allowed: Seq<Seq<char>>) -> (int, int, int)
    decreases files.len(),
{
    if files.len() == 0 {
        (0, 0, 0)
    } else {
        let r = matched_counts(files.drop_last(), allowed);
        let f = files.last();
        if extension_allowed(path_extension(f.path@), allowed) {
            (r.0 + f.additions, r.1 + f.deletions, r.2 + 1)
        } else {
            r
        }
    }
}

/// Diff statistics for a commit.
#[derive(Debug)]
pub struct DiffStats {
    /// Total lines added
    pub additions: u64,
    /// Total lines deleted
    pub deletions: u64,
    /// Number of files changed
    pub files_changed: u32,
    /// Per-file changes
    pub files: Vec<FileChange>,
}

impl DiffStats {
    /// The scalar totals are the sums and the count over `files`.
    pub open spec fn is_consistent(&self) -> bool {
        &&& self.additions == sum_additions(self.files@)
        &&& self.deletions == sum_deletions(self.files@)
        &&& self.files_changed == self.files@.len()
    }

    /// Create a new `DiffStats` with the given totals and no per-file entries.
    pub fn new(additions: u64, deletions: u64, files_changed: u32) -> (r: Self)
        ensures
            r.additions == additions,
            r.deletions == deletions,
            r.files_changed == files_changed,
            r.files@.len() == 0,
    {
        DiffStats { additions, deletions, files_changed, files: Vec::new() }
    }

    /// Net line change, `additions - deletions`, which may be negative.
    pub fn net_lines(&self) -> (r: i64)
        requires
            self.additions <= i64::MAX,
            self.deletions <= i64::MAX,
        ensures
            r == self.additions - self.deletions,
    {
        self.additions as i64 - self.deletions as i64
    }

    /// Append a file change and add its lines, and one file, to the totals.
    pub fn add_file(&mut self, file: FileChange)
        requires
            old(self).additions + file.additions <= u64::MAX,
            old(self).deletions + file.deletions <= u64::MAX,
            old(self).files_changed < u32::MAX,
        ensures
            final(self).additions == old(self).additions + file.additions,
            final(self).deletions == old(self).deletions + file.deletions,
            final(self).files_changed == old(self).files_changed + 1,
            final(self).files@ == old(self).files@.push(file),
            old(self).is_consistent() ==> final(self).is_consistent(),
    {
        let ghost before = self.files@;
        self.additions = self.additions + file.additions;
        self.deletions = self.deletions + file.deletions;
        self.files_changed = self.files_changed + 1;
        self.files.push(file);
        proof {
            assert(self.files@.drop_last() == before);
        }
    }
}

impl DiffStats {
    /// Lines added, lines deleted and number of files over the files whose
    /// extension passes `extensions`; the commit itself is left as it is.
    pub fn filtered_counts(&self, extensions: &[String]) -> (r: (u128, u128, u128))
        ensures
            (r.0 as int, r.1 as int, r.2 as int) == matched_counts(self.files@, ext_views(extensions@)),
    {
        let ghost allowed = ext_views(extensions@);
        let mut adds: u128 = 0;
        let mut dels: u128 = 0;
        let mut count: u128 = 0;
        let mut i: usize = 0;
        while i < self.files.len()
            invariant
                0 <= i <= self.files.len(),
                allowed == ext_views(extensions@),
                (adds as int, dels as int, count as int) == matched_counts(self.files@.take(i as int), allowed),
                adds <= i * 18446744073709551615,
                dels <= i * 18446744073709551615,
                count <= i,
            decreases self.files.len() - i,
        {
            proof {
                assert(self.files@.take(i as int + 1).drop_last() =~= self.files@.take(i as int));
            }
            let f = &self.files[i];
            if f.matches_extensions(extensions) {
                adds = adds + f.additions as u128;
                dels = dels + f.deletions as u128;
                count = count + 1;
            }
            proof {
                assert((i + 1) * 18446744073709551615 == i * 18446744073709551615 + 18446744073709551615) by (nonlinear_arith);
            }
            i = i + 1;
        }
        proof {
            assert(self.files@.take(i as int) =~= self.files@);
        }
        (adds, dels, count)
    }
}

/// The sums over matching files are never negative.
pub proof fn lemma_matched_nonneg(files: Seq<FileChange>, allowed: Seq<Seq<char>>)
    ensures
        matched_counts(files, allowed).0 >= 0,
        matched_counts(files, allowed).1 >= 0,
        matched_counts(files, allowed).2 >= 0,
    decreases files.len(),
{
    if files.len() > 0 {
        lemma_matched_nonneg(files.drop_last(), allowed);
    }
}

/// Index of the first file of `files` with this path, or -1 when none has it.
pub open spec fn path_index(files: Seq<FileChange>, path: Seq<char>) -> int
    decreases files.len(),
{
    if files.len() == 0 {
        -1
    } else {
        let r = path_index(files.drop_last(), path);
        if r >= 0 {
            r
        } else if files.last().path@ == path {
            files.len() - 1
        } else {
            -1
        }
    }
}

/// `path_index` is the first index with the path, or -1 when there is none.
proof fn lemma_path_index(files: Seq<FileChange>, path: Seq<char>)
    ensures
        -1 <= path_index(files, path) < files.len(),
        path_index(files, path) >= 0 ==> files[path_index(files, path)].path@ == path,
        forall|k: int| 0 <= k < files.len() && (path_index(files, path) < 0 || k < path_index(files, path))
            ==> (#[trigger] files[k]).path@ != path,
    decreases files.len(),
{
    if files.len() > 0 {
        let t = files.drop_last();
        lemma_path_index(t, path);
        let pi = path_index(files, path);
        assert forall|k: int| 0 <= k < files.len() && (pi < 0 || k < pi) implies (#[trigger] files[k]).path@ != path by {
            if k < files.len() - 1 {
                assert(t[k] == files[k]);
            }
        }
    }
}

/// Changing one file changes the sums by the difference.
proof fn lemma_sums_update(files: Seq<FileChange>, j: int, f: FileChange)
    requires
        0 <= j < files.len(),
    ensures
        sum_additions(files.update(j, f)) == sum_additions(files) - files[j].additions + f.additions,
        sum_deletions(files.update(j, f)) == sum_deletions(files) - files[j].deletions + f.deletions,
        files[j].additions <= sum_additions(files),
        files[j].deletions <= sum_deletions(files),
    decreases files.len(),
{
    lemma_sums_nonneg(files.drop_last());
    if j < files.len() - 1 {
        lemma_sums_update(files.drop_last(), j, f);
        assert(files.update(j, f).drop_last() =~= files.drop_last().update(j, f));
    } else {
        assert(files.update(j, f).drop_last() =~= files.drop_last());
    }
}

/// The sums over files are never negative.
proof fn lemma_sums_nonneg(files: Seq<FileChange>)
    ensures
        sum_additions(files) >= 0,
        sum_deletions(files) >= 0,
    decreases files.len(),
{
    if files.len() > 0 {
        lemma_sums_nonneg(files.drop_last());
    }
}

impl DiffStats {
    /// Count one added (or deleted) line of the file at `path`: on the first
    /// file entry with that path, or on a new entry appended for it; the
    /// totals follow, so consistent statistics stay consistent.
    pub fn record_line(&mut self, path: &str, added: bool)
        requires
            old(self).is_consistent(),
            old(self).additions < u64::MAX,
            old(self).deletions < u64::MAX,
            old(self).files_changed < u32::MAX,
        ensures
            final(self).is_consistent(),
            final(self).additions == old(self).additions + if added { 1int } else { 0int },
            final(self).deletions == old(self).deletions + if added { 0int } else { 1int },
            ({
                let j = path_index(old(self).files@, path@);
                if j >= 0 {
                    &&& final(self).files@.len() == old(self).files@.len()
                    &&& forall|k: int| 0 <= k < old(self).files@.len() && k != j ==> #[trigger] final(self).files@[k] == old(self).files@[k]
                    &&& final(self).files@[j].path@ == path@
                    &&& final(self).files@[j].additions == old(self).files@[j].additions + if added { 1int } else { 0int }
                    &&& final(self).files@[j].deletions == old(self).files@[j].deletions + if added { 0int } else { 1int }
                } else {
                    &&& final(self).files@.len() == old(self).files@.len() + 1
                    &&& forall|k: int| 0 <= k < old(self).files@.len() ==> #[trigger] final(self).files@[k] == old(self).files@[k]
                    &&& final(self).files@.last().path@ == path@
                    &&& final(self).files@.last().additions == if added { 1int } else { 0int }
                    &&& final(self).files@.last().deletions == if added { 0int } else { 1int }
                }
            }),
    {
        let ghost before = self.files@;
        proof {
            lemma_path_index(before, path@);
        }
        let target = String::from_str(path);
        let mut j: usize = 0;
        let mut found = false;
        while j < self.files.len() && !found
            invariant
                0 <= j <= before.len(),
                self.files@ == before,
                target@ == path@,
                forall|k: int| 0 <= k < j ==> (#[trigger] before[k]).path@ != path@,
                found ==> j < before.len() && before[j as int].path@ == path@,
            decreases before.len() - j + (if found { 0int } else { 1int }),
        {
            if self.files[j].path == target {
                found = true;
            } else {
                j = j + 1;
            }
        }
        let (da, dd): (u64, u64) = if added { (1, 0) } else { (0, 1) };
        if found {
            proof {
                lemma_path_index(before, path@);
                lemma_sums_update(before, j as int, before[j as int]);
                let pi = path_index(before, path@);
                assert(pi == j as int) by {
                    if pi != j as int {
                        if pi < 0 || (j as int) < pi {
                            assert(before[j as int].path@ != path@);
                        } else {
                            assert(before[pi].path@ == path@);
                        }
                    }
                }
            }
            let old_file = &self.files[j];
            let f = FileChange {
                path: old_file.path.clone(),
                additions: old_file.additions + da,
                deletions: old_file.deletions + dd,
            };
            proof {
                lemma_sums_update(before, j as int, f);
            }
            self.files.set(j, f);
            proof {
                assert(self.files@ == before.update(j as int, f));
            }
        } else {
            proof {
                lemma_path_index(before, path@);
                assert(path_index(before, path@) < 0) by {
                    if path_index(before, path@) >= 0 {
                        let pi = path_index(before, path@);
                        assert(before[pi].path@ != path@);
                    }
                }
            }
            self.files.push(FileChange { path: target, additions: da, deletions: dd });
            self.files_changed = self.files_changed + 1;
            proof {
                assert(self.files@.drop_last() =~= before);
            }
        }
        self.additions = self.additions + da;
        self.deletions = self.deletions + dd;
    }
}

impl Default for DiffStats {
    /// No lines, no files.
    fn default() -> (r: Self)
        ensures
            r.additions == 0,
            r.deletions == 0,
            r.files_changed == 0,
            r.files@.len() == 0,
            r.is_consistent(),
    {
        DiffStats { additions: 0, deletions: 0, files_changed: 0, files: Vec::new() }
    }
}

} // verus!
