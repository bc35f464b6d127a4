//! The cache of compressed static files: bounded in size, kept in the
//! order of last use, and checked against the file's modification time.

use vstd::prelude::*;
use vstd::slice::slice_to_vec;
use crate::compress::{compress, compressed};

verus! {

/// The ceiling on the bytes held: 5 MiB.
pub const MAX_CACHE_SIZE: usize = 5242880;

/// A compressed file as it is cached.
#[derive(Debug)]
pub struct CachedFile {
    pub path: String,
    pub content: Vec<u8>,
    /// The file's modification time when it was read, in nanoseconds
    /// since the epoch.
    pub mod_dt: i128,
    pub hits: u64,
}

/// What a cached file is, in plain values.
pub struct FileView {
    pub path: Seq<char>,
    pub content: Seq<u8>,
    pub mod_dt: i128,
    pub hits: u64,
}

impl View for CachedFile {
    type V = FileView;

    open spec fn view(&self) -> FileView {
        FileView { path: self.path@, content: self.content@, mod_dt: self.mod_dt, hits: self.hits }
    }
}

/// The cache. Its files stand in the order of their last use, the one
/// used longest ago first.
#[derive(Debug)]
pub struct Cache {
    pub files: Vec<CachedFile>,
    pub size: usize,
}

/// The bytes that the files hold together.
pub open spec fn total(s: Seq<FileView>) -> nat
    decreases s.len(),
{
    if s.len() == 0 {
        0
    } else {
        total(s.drop_last()) + s.last().content.len()
    }
}

/// The index of the first file at or after `from` whose path is `path`, or
/// the number of files where there is none.
pub open spec fn index_of(s: Seq<FileView>, path: Seq<char>, from: int) -> int
    decreases s.len() - from,
{
    if from < 0 || from >= s.len() {
        s.len() as int
    } else if s[from].path == path {
        from
    } else {
        index_of(s, path, from + 1)
    }
}

/// Whether a file with this path is held.
pub open spec fn holds(s: Seq<FileView>, path: Seq<char>) -> bool {
    index_of(s, path, 0) < s.len()
}

/// The files without the one with this path.
pub open spec fn dropped(s: Seq<FileView>, path: Seq<char>) -> Seq<FileView> {
    if holds(s, path) {
        s.remove(index_of(s, path, 0))
    } else {
        s
    }
}

/// The files with the one with this path moved to the place of the one
/// used last.
pub open spec fn touched(s: Seq<FileView>, path: Seq<char>) -> Seq<FileView> {
    if holds(s, path) {
        s.remove(index_of(s, path, 0)).push(s[index_of(s, path, 0)])
    } else {
        s
    }
}

/// The files that stay when the ones used longest ago leave, one by one,
/// until the rest is within the ceiling.
pub open spec fn evicted(s: Seq<FileView>) -> Seq<FileView>
    decreases s.len(),
{
    if s.len() == 0 || total(s) <= MAX_CACHE_SIZE {
        s
    } else {
        evicted(s.drop_first())
    }
}

/// What a lookup of `path` leaves and finds, where `live` is the
/// modification time of the file on disk (nothing where it is gone). A
/// file that is held and still current is marked as used last, and its
/// bytes are found. One that is held but out of date is dropped. Where none
/// is held, room is made. In the last two cases nothing is found, and the
/// file has to be read and stored.
pub open spec fn looked_up(s: Seq<FileView>, path: Seq<char>, live: Option<i128>) -> (
    Seq<FileView>,
    Option<Seq<u8>>,
) {
    let i = index_of(s, path, 0);
    if i < s.len() {
        if live == Some(s[i].mod_dt) {
            (touched(s, path), Some(s[i].content))
        } else {
            (dropped(s, path), None)
        }
    } else {
        (evicted(s), None)
    }
}

/// The files after `f` has been stored as the one used last, in place of
/// any file with its path. Nothing changes where the total would no longer
/// fit a `usize`.
pub open spec fn stored(s: Seq<FileView>, f: FileView) -> Seq<FileView> {
    let rest = dropped(s, f.path);
    if total(rest) + f.content.len() <= usize::MAX {
        rest.push(f)
    } else {
        s
    }
}

/// Whether no two files have the same path.
pub open spec fn distinct(s: Seq<FileView>) -> bool {
    forall|i: int, j: int| 0 <= i < j < s.len() ==> (#[trigger] s[i]).path != (#[trigger] s[j]).path
}

/// Taking a file out lowers the total by the file's length.
pub proof fn lemma_total_remove(s: Seq<FileView>, i: int)
    requires
        0 <= i < s.len(),
    ensures
        total(s.remove(i)) + s[i].content.len() == total(s),
    decreases s.len(),
{
    if i == s.len() - 1 {
        assert(s.remove(i) =~= s.drop_last());
    } else {
        lemma_total_remove(s.drop_last(), i);
        assert(s.remove(i).drop_last() =~= s.drop_last().remove(i));
        assert(s.remove(i).last() == s.last());
    }
}

/// The files hold at least what any beginning of them holds.
pub proof fn lemma_total_grows(s: Seq<FileView>, k: int)
    requires
        0 <= k <= s.len(),
    ensures
        total(s.subrange(0, k)) <= total(s),
    decreases s.len(),
{
    if k == s.len() {
        assert(s.subrange(0, k) =~= s);
    } else {
        lemma_total_grows(s.drop_last(), k);
        assert(s.drop_last().subrange(0, k) =~= s.subrange(0, k));
    }
}

/// What `index_of` gives is the first file with the path, if there is one.
pub proof fn lemma_index_of(s: Seq<FileView>, path: Seq<char>, from: int)
    requires
        0 <= from,
    ensures
        from <= index_of(s, path, from) || index_of(s, path, from) == s.len(),
        index_of(s, path, from) <= s.len(),
        index_of(s, path, from) < s.len() ==> s[index_of(s, path, from)].path == path,
        forall|j: int| from <= j < index_of(s, path, from) ==> (#[trigger] s[j]).path != path,
    decreases s.len() - from,
{
    if from < s.len() && s[from].path != path {
        lemma_index_of(s, path, from + 1);
    }
}

/// Among files with distinct paths, dropping a path leaves none with it.
pub proof fn lemma_dropped_absent(s: Seq<FileView>, path: Seq<char>)
    requires
        distinct(s),
    ensures
        !holds(dropped(s, path), path),
        distinct(dropped(s, path)),
        forall|j: int| 0 <= j < dropped(s, path).len() ==> (#[trigger] dropped(s, path)[j]).path != path,
{
    lemma_index_of(s, path, 0);
    let d = dropped(s, path);
    let i = index_of(s, path, 0);
    assert forall|j: int| 0 <= j < d.len() implies (#[trigger] d[j]).path != path by {
        if i < s.len() {
            if j < i {
                assert(d[j] == s[j]);
            } else {
                assert(d[j] == s[j + 1]);
            }
        } else {
            assert(d[j] == s[j]);
        }
    }
    lemma_index_of(d, path, 0);
}

/// A file just stored is found by the next lookup of its path, with the
/// bytes that were stored, as long as the file on disk still has the
/// modification time it was stored with.
pub proof fn lemma_store_then_lookup(s: Seq<FileView>, f: FileView)
    requires
        distinct(s),
        total(dropped(s, f.path)) + f.content.len() <= usize::MAX,
    ensures
        looked_up(stored(s, f), f.path, Some(f.mod_dt)).1 == Some(f.content),
        holds(stored(s, f), f.path),
{
    lemma_dropped_absent(s, f.path);
    let rest = dropped(s, f.path);
    let after = rest.push(f);
    lemma_index_of(after, f.path, 0);
    let i = index_of(after, f.path, 0);
    assert(after[rest.len() as int].path == f.path);
    assert(i == rest.len()) by {
        if i < rest.len() {
            assert(after[i] == rest[i]);
        }
    }
}

/// A lookup that finds the file on disk changed or gone finds nothing and
/// drops the cached file, so that the bytes returned next are those of the
/// file as it is read anew.
pub proof fn lemma_stale_lookup(s: Seq<FileView>, path: Seq<char>, live: Option<i128>)
    requires
        distinct(s),
        holds(s, path),
        live != Some(s[index_of(s, path, 0)].mod_dt),
    ensures
        looked_up(s, path, live).1 is None,
        !holds(looked_up(s, path, live).0, path),
{
    lemma_dropped_absent(s, path);
}

/// After eviction the files are within the ceiling, those that stay are
/// the ones used last, and no fewer had to go.
pub proof fn lemma_evicted(s: Seq<FileView>) -> (k: int)
    ensures
        0 <= k <= s.len(),
        evicted(s) == s.skip(k),
        total(evicted(s)) <= MAX_CACHE_SIZE,
        forall|j: int| 0 <= j < k ==> total(#[trigger] s.skip(j)) > MAX_CACHE_SIZE,
    decreases s.len(),
{
    if s.len() == 0 || total(s) <= MAX_CACHE_SIZE {
        assert(s.skip(0) =~= s);
        0
    } else {
        let k1 = lemma_evicted(s.drop_first());
        assert(s.drop_first().skip(k1) =~= s.skip(k1 + 1));
        assert forall|j: int| 0 <= j < k1 + 1 implies total(#[trigger] s.skip(j)) > MAX_CACHE_SIZE by {
            if j == 0 {
                assert(s.skip(0) =~= s);
            } else {
                assert(s.drop_first().skip(j - 1) =~= s.skip(j));
            }
        }
        k1 + 1
    }
}

/// A file that is looked up while it is not held, and then stored, stands
/// behind the files that eviction left, which are the ones used last.
/// What is held then is over the ceiling by no more than the new file.
pub proof fn lemma_miss_then_store(s: Seq<FileView>, f: FileView, live: Option<i128>) -> (k: int)
    requires
        distinct(s),
        !holds(s, f.path),
        total(evicted(s)) + f.content.len() <= usize::MAX,
    ensures
        0 <= k <= s.len(),
        looked_up(s, f.path, live).1 is None,
        stored(looked_up(s, f.path, live).0, f) == s.skip(k).push(f),
        total(stored(looked_up(s, f.path, live).0, f)) <= MAX_CACHE_SIZE + f.content.len(),
        forall|j: int| 0 <= j < k ==> total(#[trigger] s.skip(j)) > MAX_CACHE_SIZE,
{
    let k = lemma_evicted(s);
    let left = evicted(s);
    lemma_index_of(s, f.path, 0);
    lemma_index_of(left, f.path, 0);
    assert(!holds(left, f.path)) by {
        let i = index_of(left, f.path, 0);
        if i < left.len() {
            assert(left[i] == s[i + k]);
        }
    }
    assert(left.push(f).drop_last() =~= left);
    k
}

impl CachedFile {
    /// The cached form of a file just read: its bytes compressed, with the
    /// modification time it had.
    pub fn new(path: &String, raw: &Vec<u8>, mod_dt: i128) -> (cf: Self)
        ensures
            cf@ == (FileView {
                path: path@,
                content: compressed(raw@),
                mod_dt: mod_dt,
                hits: 1,
            }),
    {
        CachedFile { path: path.clone(), content: compress(raw), mod_dt: mod_dt, hits: 1 }
    }

    /// Counts one more use; the count stays where it is once it is full.
    pub fn hit(&mut self)
        ensures
            final(self).hits == (if old(self).hits < u64::MAX {
                (old(self).hits + 1) as u64
            } else {
                u64::MAX
            }),
            final(self)@ == (FileView { hits: final(self).hits, ..old(self)@ }),
    {
        if self.hits < u64::MAX {
            self.hits = self.hits + 1;
        }
    }

    /// Whether the file on disk is no longer the one that was cached:
    /// `live` is its modification time now, or nothing where it is gone.
    pub fn is_outdated(&self, live: Option<i128>) -> (b: bool)
        ensures
            b == (live != Some(self.mod_dt)),
    {
        match live {
            None => true,
            Some(t) => t != self.mod_dt,
        }
    }

    /// A copy of the file.
    pub fn duplicate(&self) -> (cf: Self)
        ensures
            cf@ == self@,
    {
        CachedFile {
            path: self.path.clone(),
            content: slice_to_vec(self.content.as_slice()),
            mod_dt: self.mod_dt,
            hits: self.hits,
        }
    }
}

impl View for Cache {
    type V = Seq<FileView>;

    open spec fn view(&self) -> Seq<FileView> {
        self.files@.map_values(|f: CachedFile| f@)
    }
}

impl Cache {
    /// Whether the cache is in order: no path is held twice, and the
    /// running total is the sum of the lengths of the files.
    pub open spec fn wf(&self) -> bool {
        &&& distinct(self@)
        &&& self.size == total(self@)
    }

    /// Whether the cache is in order.
    pub fn is_wf(&self) -> (b: bool)
        ensures
            b == self.wf(),
    {
        let n: usize = self.files.len();
        let mut sum: usize = 0;
        let mut i: usize = 0;
        while i < n
            invariant
                i <= n == self.files@.len(),
                self@.len() == n,
                sum == total(self@.subrange(0, i as int)),
                sum <= self.size,
                forall|a: int, b: int| 0 <= a < b < i ==> (#[trigger] self@[a]).path != (
                #[trigger] self@[b]).path,
            decreases n - i,
        {
            let ghost upto = self@.subrange(0, i + 1);
            assert(upto.drop_last() =~= self@.subrange(0, i as int));
            assert(upto.last() == self.files@[i as int]@);
            let len: usize = self.files[i].content.len();
            if len > self.size - sum {
                proof {
                    lemma_total_grows(self@, i + 1);
                }
                return false;
            }
            let mut j: usize = 0;
            while j < i
                invariant
                    j <= i < n == self.files@.len(),
                    self@.len() == n,
                    forall|a: int| 0 <= a < j ==> (#[trigger] self@[a]).path != self@[i as int].path,
                decreases i - j,
            {
                assert(self@[j as int] == self.files@[j as int]@);
                assert(self@[i as int] == self.files@[i as int]@);
                if self.files[j].path == self.files[i].path {
                    return false;
                }
                j = j + 1;
            }
            sum = sum + len;
            i = i + 1;
        }
        assert(self@.subrange(0, n as int) =~= self@);
        sum == self.size
    }

    /// The empty cache.
    pub fn new() -> (c: Self)
        ensures
            c.wf(),
            c@ == Seq::<FileView>::empty(),
            c.size == 0,
    {
        let c = Cache { files: Vec::new(), size: 0 };
        assert(c@ =~= Seq::<FileView>::empty());
        c
    }

    /// The index of the file with this path.
    pub fn position(&self, path: &String) -> (r: Option<usize>)
        ensures
            match r {
                Some(i) => i < self@.len() && index_of(self@, path@, 0) == i,
                None => !holds(self@, path@),
            },
    {
        let mut i: usize = 0;
        while i < self.files.len()
            invariant
                i <= self.files@.len(),
                self@.len() == self.files@.len(),
                index_of(self@, path@, 0) == index_of(self@, path@, i as int),
            decreases self.files@.len() - i,
        {
            assert(self@[i as int] == self.files@[i as int]@);
            if self.files[i].path == *path {
                return Some(i);
            }
            i = i + 1;
        }
        None
    }

    /// Looks `path` up, where `live` is the modification time of the file
    /// on disk, or nothing where the file is gone. Gives the cached bytes of
    /// a file that is held and current, and marks it as used last. Gives
    /// nothing where the file has to be read and stored: an outdated file
    /// has then been dropped, and for a new one room has been made.
    pub fn get(&mut self, path: &String, live: Option<i128>) -> (r: Option<Vec<u8>>)
        requires
            old(self).wf(),
        ensures
            final(self).wf(),
            final(self)@ == looked_up(old(self)@, path@, live).0,
            match r {
                Some(c) => looked_up(old(self)@, path@, live).1 == Some(c@),
                None => looked_up(old(self)@, path@, live).1 is None,
            },
    {
        match self.position(path) {
            Some(i) => {
                assert(self@[i as int] == self.files@[i as int]@);
                if self.files[i].is_outdated(live) {
                    self.remove(path);
                    None
                } else {
                    let content = slice_to_vec(self.files[i].content.as_slice());
                    self.update_ordering(path.clone());
                    Some(content)
                }
            },
            None => {
                self.check_size();
                None
            },
        }
    }

    /// Stores the file just read from `path` as the one used last: its
    /// bytes `raw` compressed, with its modification time. Gives a copy of
    /// what was stored.
    pub fn set(&mut self, path: &String, raw: &Vec<u8>, mod_dt: i128) -> (cf: CachedFile)
        requires
            old(self).wf(),
        ensures
            final(self).wf(),
            cf@ == (FileView {
                path: path@,
                content: compressed(raw@),
                mod_dt: mod_dt,
                hits: 1,
            }),
            cf@.content.len() <= usize::MAX,
            final(self)@ == stored(old(self)@, cf@),
    {
        self.store(CachedFile::new(path, raw, mod_dt))
    }

    /// Stores a file as the one used last, in place of any file with its
    /// path. Gives a copy of the file.
    pub fn store(&mut self, cf: CachedFile) -> (copy: CachedFile)
        requires
            old(self).wf(),
        ensures
            final(self).wf(),
            copy@ == cf@,
            cf@.content.len() <= usize::MAX,
            final(self)@ == stored(old(self)@, cf@),
    {
        let copy = cf.duplicate();
        let len: usize = cf.content.len();
        let ghost before = self@;
        proof {
            lemma_dropped_absent(before, cf.path@);
        }
        let held: usize = match self.position(&cf.path) {
            Some(i) => {
                proof {
                    lemma_total_remove(before, i as int);
                }
                assert(before[i as int] == self.files@[i as int]@);
                self.files[i].content.len()
            },
            None => 0,
        };
        let rest: usize = self.size - held;
        if len > usize::MAX - rest {
            return copy;
        }
        self.remove(&cf.path);
        let ghost mid = self@;
        self.size = rest + len;
        self.files.push(cf);
        assert(self@ =~= mid.push(copy@));
        assert(self@.drop_last() =~= mid);
        copy
    }

    /// Takes the file with this path out, if it is held.
    pub fn remove(&mut self, path: &String)
        requires
            old(self).wf(),
        ensures
            final(self).wf(),
            final(self)@ == dropped(old(self)@, path@),
    {
        match self.position(path) {
            Some(i) => {
                proof {
                    lemma_total_remove(self@, i as int);
                }
                let ghost before = self@;
                assert(before[i as int] == self.files@[i as int]@);
                let cf = self.files.remove(i);
                assert(self@ =~= before.remove(i as int));
                self.size = self.size - cf.content.len();
            },
            None => {},
        }
    }

    /// Lets the files used longest ago go, one by one, until what is held
    /// is within the ceiling.
    pub fn check_size(&mut self)
        requires
            old(self).wf(),
        ensures
            final(self).wf(),
            final(self)@ == evicted(old(self)@),
            final(self).size <= MAX_CACHE_SIZE,
    {
        while self.size > MAX_CACHE_SIZE
            invariant
                self.wf(),
                evicted(self@) == evicted(old(self)@),
            decreases self@.len(),
        {
            let ghost before = self@;
            proof {
                lemma_total_remove(before, 0);
            }
            assert(before.len() > 0);
            assert(before[0] == self.files@[0]@);
            let cf = self.files.remove(0);
            assert(self@ =~= before.remove(0));
            assert(before.remove(0) =~= before.drop_first());
            self.size = self.size - cf.content.len();
        }
    }

    /// Marks the file with this path as the one used last.
    pub fn update_ordering(&mut self, path: String)
        requires
            old(self).wf(),
        ensures
            final(self).wf(),
            final(self)@ == touched(old(self)@, path@),
    {
        match self.position(&path) {
            Some(i) => {
                let ghost before = self@;
                proof {
                    lemma_total_remove(before, i as int);
                }
                assert(before[i as int] == self.files@[i as int]@);
                let cf = self.files.remove(i);
                assert(self@ =~= before.remove(i as int));
                let ghost mid = self@;
                self.files.push(cf);
                assert(self@ =~= mid.push(before[i as int]));
                assert(self@.drop_last() =~= mid);
            },
            None => {},
        }
    }
}

} // verus!
