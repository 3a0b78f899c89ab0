//! Files of the game and of the mod, by their paths below the two roots.

use vstd::prelude::*;
use itertools::Itertools;
use vstd::string::StringExecFns;
use crate::block::strings_view;
use crate::block::Block;
use crate::report::Errors;
use crate::text::lemma_lex_asymmetric;
use crate::text::lemma_lex_irreflexive;
use crate::text::lemma_lex_transitive;
use crate::text::lemma_lex_trichotomy;
use crate::text::lex_lt;
use crate::text::str_eq;
use crate::text::str_lt;
use crate::token::FileKind;
use crate::token::Loc;
use crate::token::Token;

verus! {

/// A file: the components of its path below the root of its layer, the
/// file's own name last, and the layer.
#[derive(Debug, PartialEq, Eq, PartialOrd, Ord)]
pub struct FileEntry {
    path: Vec<String>,
    kind: FileKind,
}

pub struct FileEntryView {
    pub path: Seq<Seq<char>>,
    pub kind: FileKind,
}

impl FileEntryView {
    /// The file's own name: the last component of the path.
    pub open spec fn filename(self) -> Seq<char> {
        if self.path.len() > 0 {
            self.path.last()
        } else {
            Seq::empty()
        }
    }
}

impl View for FileEntry {
    type V = FileEntryView;

    closed spec fn view(&self) -> FileEntryView {
        FileEntryView { path: strings_view(self.path@), kind: self.kind }
    }
}

/// Whether the components `p` are the first components of `s`.
pub open spec fn path_starts_with(s: Seq<Seq<char>>, p: Seq<Seq<char>>) -> bool {
    p.len() <= s.len() && s.subrange(0, p.len() as int) == p
}

/// Paths in lexical order by component: the order in which the game loads files.
pub open spec fn path_lt_from(a: Seq<Seq<char>>, b: Seq<Seq<char>>, i: int) -> bool
    decreases a.len() - i,
{
    if i < 0 || i >= b.len() {
        false
    } else if i >= a.len() {
        true
    } else if lex_lt(a[i], b[i]) {
        true
    } else if lex_lt(b[i], a[i]) {
        false
    } else {
        path_lt_from(a, b, i + 1)
    }
}

pub open spec fn path_lt(a: Seq<Seq<char>>, b: Seq<Seq<char>>) -> bool {
    path_lt_from(a, b, 0)
}

/// Files in load order: by path, and for one path the game's file before the mod's.
pub open spec fn entry_lt(a: FileEntryView, b: FileEntryView) -> bool {
    path_lt(a.path, b.path) || (a.path == b.path && a.kind.spec_rank() < b.kind.spec_rank())
}

pub proof fn lemma_path_irreflexive(a: Seq<Seq<char>>, i: int)
    requires
        0 <= i,
    ensures
        !path_lt_from(a, a, i),
    decreases a.len() - i,
{
    if i < a.len() {
        lemma_lex_irreflexive(a[i], 0);
        lemma_path_irreflexive(a, i + 1);
    }
}

impl Clone for FileEntry {
    fn clone(&self) -> (r: Self)
        ensures
            r@ == self@,
    {
        let mut path: Vec<String> = Vec::new();
        let mut i: usize = 0;
        while i < self.path.len()
            invariant
                i <= self.path@.len(),
                path@.len() == i,
                forall|j: int| 0 <= j < i ==> #[trigger] path@[j] == self.path@[j],
            decreases self.path@.len() - i,
        {
            path.push(self.path[i].clone());
            i = i + 1;
        }
        assert(strings_view(path@) =~= strings_view(self.path@));
        FileEntry { path, kind: self.kind }
    }
}

impl FileEntry {
    /// The entry of the file at `path` in the layer `kind`. The path names a
    /// file, so it has at least one component.
    pub fn new(path: Vec<String>, kind: FileKind) -> (r: FileEntry)
        requires
            path@.len() > 0,
        ensures
            r@ == (FileEntryView { path: strings_view(path@), kind }),
    {
        FileEntry { path, kind }
    }

    pub fn kind(&self) -> (r: FileKind)
        ensures
            r == self@.kind,
    {
        self.kind
    }

    /// The components of the path.
    pub fn path(&self) -> (r: &Vec<String>)
        ensures
            strings_view(r@) == self@.path,
    {
        &self.path
    }

    /// The file's own name: the last component of the path, or the empty
    /// text for an entry without components.
    pub fn filename(&self) -> (r: &str)
        ensures
            r@ == self@.filename(),
    {
        let n: usize = self.path.len();
        if n > 0 {
            assert(strings_view(self.path@)[n - 1] == self.path@[n - 1]@);
            self.path[n - 1].as_str()
        } else {
            let e: &'static str = "";
            proof {
                reveal_strlit("");
                assert(e@ =~= Seq::empty());
            }
            e
        }
    }

    /// How many components the path has.
    pub fn depth(&self) -> (r: usize)
        ensures
            r == self@.path.len(),
    {
        self.path.len()
    }

    /// The component at position `i`.
    pub fn component(&self, i: usize) -> (r: &str)
        requires
            i < self@.path.len(),
        ensures
            r@ == self@.path[i as int],
    {
        assert(strings_view(self.path@)[i as int] == self.path@[i as int]@);
        self.path[i].as_str()
    }

    /// Whether the path begins with the components of `subpath`.
    pub fn starts_with(&self, subpath: &Vec<String>) -> (r: bool)
        ensures
            r == path_starts_with(self@.path, strings_view(subpath@)),
    {
        if subpath.len() > self.path.len() {
            return false;
        }
        let ghost s = self@.path;
        let ghost p = strings_view(subpath@);
        let mut i: usize = 0;
        while i < subpath.len()
            invariant
                i <= subpath@.len() <= self.path@.len(),
                s == strings_view(self.path@),
                p == strings_view(subpath@),
                forall|j: int| 0 <= j < i ==> s[j] == p[j],
            decreases subpath@.len() - i,
        {
            if !str_eq(self.path[i].as_str(), subpath[i].as_str()) {
                assert(s.subrange(0, p.len() as int)[i as int] != p[i as int]);
                return false;
            }
            i = i + 1;
        }
        assert(s.subrange(0, p.len() as int) =~= p);
        true
    }

    /// Whether the two entries have the same path.
    pub fn same_path(&self, other: &FileEntry) -> (r: bool)
        ensures
            r == (self@.path == other@.path),
    {
        if self.path.len() != other.path.len() {
            assert(self@.path.len() != other@.path.len());
            return false;
        }
        let ghost a = self@.path;
        let ghost b = other@.path;
        let mut i: usize = 0;
        while i < self.path.len()
            invariant
                i <= self.path@.len(),
                self.path@.len() == other.path@.len(),
                a == strings_view(self.path@),
                b == strings_view(other.path@),
                forall|j: int| 0 <= j < i ==> a[j] == b[j],
            decreases self.path@.len() - i,
        {
            if !str_eq(self.path[i].as_str(), other.path[i].as_str()) {
                assert(a[i as int] != b[i as int]);
                return false;
            }
            i = i + 1;
        }
        assert(a =~= b);
        true
    }

    /// Whether this entry comes before `other` in load order.
    pub fn sorts_before(&self, other: &FileEntry) -> (r: bool)
        ensures
            r == entry_lt(self@, other@),
    {
        let ghost a = self@.path;
        let ghost b = other@.path;
        let n: usize = self.path.len();
        let m: usize = other.path.len();
        let mut i: usize = 0;
        while i < n && i < m
            invariant
                i <= n,
                i <= m,
                n == a.len(),
                m == b.len(),
                a == strings_view(self.path@),
                b == strings_view(other.path@),
                path_lt(a, b) == path_lt_from(a, b, i as int),
                path_lt(b, a) == path_lt_from(b, a, i as int),
                a.subrange(0, i as int) == b.subrange(0, i as int),
            decreases n - i,
        {
            let x = self.path[i].as_str();
            let y = other.path[i].as_str();
            assert(x@ == a[i as int] && y@ == b[i as int]);
            if str_lt(x, y) {
                proof {
                    lemma_lex_trichotomy(a[i as int], b[i as int]);
                    lemma_lex_irreflexive(a[i as int], 0);
                    assert(a != b);
                }
                return true;
            }
            if str_lt(y, x) {
                proof {
                    lemma_lex_irreflexive(a[i as int], 0);
                    assert(a != b);
                }
                return false;
            }
            proof {
                lemma_lex_trichotomy(a[i as int], b[i as int]);
                assert(a.subrange(0, i + 1) =~= a.subrange(0, i as int).push(a[i as int]));
                assert(b.subrange(0, i + 1) =~= b.subrange(0, i as int).push(b[i as int]));
            }
            i = i + 1;
        }
        if i < m {
            assert(a.len() != b.len());
            true
        } else if i < n {
            assert(a.len() != b.len());
            false
        } else {
            proof {
                lemma_path_irreflexive(a, i as int);
                lemma_path_irreflexive(b, i as int);
                assert(a.subrange(0, i as int) =~= a);
                assert(b.subrange(0, i as int) =~= b);
            }
            self.kind.rank() < other.kind.rank()
        }
    }

    /// The place that stands for the file as a whole, where `file` is the
    /// file's handle in the load order.
    pub fn loc(&self, file: usize) -> (r: Loc)
        ensures
            r == (Loc { file, kind: self@.kind, line: 0, column: 0 }),
    {
        Loc::for_file(file, self.kind)
    }
}

/// A part of the validator that reads the files under one directory. What
/// a file holds is read and parsed before it comes here: `T` is what a
/// loaded file is for this handler.
pub trait FileHandler<T> {
    /// What the handler keeps true of itself.
    spec fn handler_wf(&self) -> bool;

    /// Takes the settings it needs from the validator's configuration.
    fn config(&mut self, config: &Block, errors: &mut Errors)
        requires
            old(self).handler_wf(),
        ensures
            final(self).handler_wf(),
    ;

    /// The components of the directory, below either root, whose files this handler reads.
    fn subpath(&self) -> Vec<String>;

    /// Takes one loaded file, whose handle in the load order is `file`.
    /// The files come in load order.
    fn handle_file(&mut self, entry: &FileEntry, file: usize, loaded: T, errors: &mut Errors)
        requires
            old(self).handler_wf(),
        ensures
            final(self).handler_wf(),
    ;

    /// Runs when all files have been handled.
    fn finalize(&mut self, errors: &mut Errors)
        requires
            old(self).handler_wf(),
        ensures
            final(self).handler_wf(),
    ;
}

/// The files under a directory, in load order, one at a time.
#[derive(Debug)]
pub struct Files<'a> {
    pub files: &'a Vec<FileEntry>,
    pub pos: usize,
    pub subpath: Vec<String>,
}

/// The first position at or behind `from` of a file under `subpath`.
pub open spec fn next_under(files: Seq<FileEntry>, subpath: Seq<Seq<char>>, from: int) -> Option<
    int,
>
    decreases files.len() - from,
{
    if from < 0 || from >= files.len() {
        None
    } else if path_starts_with(files[from]@.path, subpath) {
        Some(from)
    } else {
        next_under(files, subpath, from + 1)
    }
}

impl<'a> Files<'a> {
    /// The next file under the directory, with its handle in the load order.
    pub fn next(&mut self) -> (r: Option<(usize, &'a FileEntry)>)
        ensures
            final(self).files == old(self).files,
            final(self).subpath == old(self).subpath,
            match r {
                Some(found) => {
                    &&& next_under(
                        old(self).files@,
                        strings_view(old(self).subpath@),
                        old(self).pos as int,
                    ) == Some(found.0 as int)
                    &&& found.0 < old(self).files@.len()
                    &&& *found.1 == old(self).files@[found.0 as int]
                    &&& final(self).pos == found.0 + 1
                },
                None => {
                    &&& next_under(
                        old(self).files@,
                        strings_view(old(self).subpath@),
                        old(self).pos as int,
                    ) is None
                    &&& final(self).pos >= old(self).pos
                },
            },
    {
        let files: &'a Vec<FileEntry> = self.files;
        let ghost start = self.pos;
        while self.pos < files.len()
            invariant
                files == self.files,
                self.files == old(self).files,
                self.subpath == old(self).subpath,
                start == old(self).pos,
                start <= self.pos,
                next_under(files@, strings_view(self.subpath@), start as int) == next_under(
                    files@,
                    strings_view(self.subpath@),
                    self.pos as int,
                ),
            decreases files@.len() - self.pos,
        {
            let i: usize = self.pos;
            self.pos = i + 1;
            if files[i].starts_with(&self.subpath) {
                return Some((i, &files[i]));
            }
        }
        None
    }
}

/// The components of a path written with `/` between them, for the paths
/// that this library itself names.
pub fn path_of(a: &str, b: &str) -> (r: Vec<String>)
    ensures
        strings_view(r@) == seq![a@, b@],
{
    let mut v: Vec<String> = Vec::new();
    v.push(String::from_str(a));
    v.push(String::from_str(b));
    assert(strings_view(v@) =~= seq![a@, b@]);
    v
}

/// A path of one component.
pub fn path_of_one(a: &str) -> (r: Vec<String>)
    ensures
        strings_view(r@) == seq![a@],
{
    let mut v: Vec<String> = Vec::new();
    v.push(String::from_str(a));
    assert(strings_view(v@) =~= seq![a@]);
    v
}

pub open spec fn entries_view(s: Seq<FileEntry>) -> Seq<FileEntryView> {
    Seq::new(s.len(), |i: int| s[i]@)
}

/// The position at or behind `from` at which `e` goes into `sorted`:
/// before the first entry that comes after it in load order.
pub open spec fn entry_pos(sorted: Seq<FileEntryView>, e: FileEntryView, from: int) -> int
    decreases sorted.len() - from,
{
    if from < 0 || from >= sorted.len() {
        sorted.len() as int
    } else if entry_lt(e, sorted[from]) {
        from
    } else {
        entry_pos(sorted, e, from + 1)
    }
}

/// The first `n` entries in load order; entries that are the same in the
/// order in which they were given.
pub open spec fn sort_entries(files: Seq<FileEntryView>, n: nat) -> Seq<FileEntryView>
    decreases n,
{
    if n == 0 || n > files.len() {
        Seq::empty()
    } else {
        let before = sort_entries(files, (n - 1) as nat);
        before.insert(entry_pos(before, files[n - 1], 0), files[n - 1])
    }
}

/// Whether the entry at position `i` is the last of its path: no entry
/// follows it, or the entry that follows has another path.
pub open spec fn last_of_path(sorted: Seq<FileEntryView>, i: int) -> bool {
    i == sorted.len() - 1 || sorted[i].path != sorted[i + 1].path
}

/// Of the first `n` of the entries `sorted`, those that are the last of their path.
pub open spec fn keep_last(sorted: Seq<FileEntryView>, n: nat) -> Seq<FileEntryView>
    decreases n,
{
    if n == 0 || n > sorted.len() {
        Seq::empty()
    } else {
        let before = keep_last(sorted, (n - 1) as nat);
        if last_of_path(sorted, n - 1) {
            before.push(sorted[n - 1])
        } else {
            before
        }
    }
}

/// The files in the order in which the game loads them, each path once:
/// where the game and the mod have a file of one path, the mod's file.
pub open spec fn ordered_spec(files: Seq<FileEntryView>) -> Seq<FileEntryView> {
    keep_last(sort_entries(files, files.len()), files.len())
}

/// Whether one of the entries has the path.
pub open spec fn has_path(files: Seq<FileEntryView>, path: Seq<Seq<char>>) -> bool {
    exists|k: int| 0 <= k < files.len() && (#[trigger] files[k]).path == path
}

/// Whether one of the entries has the path and is of the mod.
pub open spec fn has_mod(files: Seq<FileEntryView>, path: Seq<Seq<char>>) -> bool {
    exists|k: int|
        0 <= k < files.len() && (#[trigger] files[k]).path == path && files[k].kind
            == FileKind::Mod
}

/// Whether each entry comes before the entries behind it by its path alone.
pub open spec fn strictly_ascending(r: Seq<FileEntryView>) -> bool {
    forall|i: int, j: int|
        0 <= i < j < r.len() ==> path_lt((#[trigger] r[i]).path, (#[trigger] r[j]).path)
}

/// Whether `r` is the load order of `files`: in the order of the paths,
/// each path of `files` once and no other path, and for each path the
/// mod's file where the mod has one.
pub open spec fn layered(files: Seq<FileEntryView>, r: Seq<FileEntryView>) -> bool {
    &&& strictly_ascending(r)
    &&& forall|k: int| 0 <= k < files.len() ==> has_path(r, (#[trigger] files[k]).path)
    &&& forall|i: int|
        0 <= i < r.len() ==> has_path(files, (#[trigger] r[i]).path) && (r[i].kind
            == FileKind::Mod <==> has_mod(files, r[i].path))
}

/// The order of paths is transitive, from any common starting component.
pub proof fn lemma_path_transitive(
    a: Seq<Seq<char>>,
    b: Seq<Seq<char>>,
    c: Seq<Seq<char>>,
    i: int,
)
    requires
        0 <= i,
        path_lt_from(a, b, i),
        path_lt_from(b, c, i),
    ensures
        path_lt_from(a, c, i),
    decreases a.len() - i,
{
    if i < a.len() {
        lemma_lex_trichotomy(a[i], b[i]);
        lemma_lex_trichotomy(b[i], c[i]);
        lemma_lex_trichotomy(a[i], c[i]);
        if lex_lt(a[i], b[i]) {
            if lex_lt(b[i], c[i]) {
                lemma_lex_transitive(a[i], b[i], c[i], 0);
            }
        } else if lex_lt(b[i], c[i]) {
        } else {
            lemma_lex_irreflexive(a[i], 0);
            lemma_path_transitive(a, b, c, i + 1);
        }
    }
}

/// Of two paths at most one comes before the other.
pub proof fn lemma_path_asymmetric(a: Seq<Seq<char>>, b: Seq<Seq<char>>)
    requires
        path_lt(a, b),
    ensures
        !path_lt(b, a),
        a != b,
{
    lemma_path_irreflexive(a, 0);
    if path_lt(b, a) {
        lemma_path_transitive(a, b, a, 0);
    }
}

/// The load order is transitive.
pub proof fn lemma_entry_transitive(a: FileEntryView, b: FileEntryView, c: FileEntryView)
    requires
        entry_lt(a, b),
        entry_lt(b, c),
    ensures
        entry_lt(a, c),
{
    if path_lt(a.path, b.path) && path_lt(b.path, c.path) {
        lemma_path_transitive(a.path, b.path, c.path, 0);
    }
}

/// In load order, of two files at most one comes before the other.
pub proof fn lemma_entry_asymmetric(a: FileEntryView, b: FileEntryView)
    requires
        entry_lt(a, b),
    ensures
        !entry_lt(b, a),
{
    lemma_path_irreflexive(a.path, 0);
    if path_lt(a.path, b.path) {
        lemma_path_asymmetric(a.path, b.path);
    } else if path_lt(b.path, a.path) {
        lemma_path_asymmetric(b.path, a.path);
    }
}

proof fn lemma_entry_pos(sorted: Seq<FileEntryView>, e: FileEntryView, from: int)
    requires
        0 <= from <= sorted.len(),
    ensures
        from <= entry_pos(sorted, e, from) <= sorted.len(),
        forall|i: int| from <= i < entry_pos(sorted, e, from) ==> !entry_lt(e, #[trigger] sorted[i]),
        entry_pos(sorted, e, from) < sorted.len() ==> entry_lt(
            e,
            sorted[entry_pos(sorted, e, from)],
        ),
    decreases sorted.len() - from,
{
    if from < sorted.len() {
        lemma_entry_pos(sorted, e, from + 1);
    }
}

/// Sorting keeps the number of files, and in the result no file stands
/// before a file that comes before it in load order.
pub proof fn lemma_sort_is_ordered(files: Seq<FileEntryView>, n: nat)
    requires
        n <= files.len(),
    ensures
        sort_entries(files, n).len() == n,
        forall|i: int, j: int|
            0 <= i < j < n ==> !entry_lt(
                #[trigger] sort_entries(files, n)[j],
                #[trigger] sort_entries(files, n)[i],
            ),
    decreases n,
{
    if n > 0 {
        lemma_sort_is_ordered(files, (n - 1) as nat);
        let before = sort_entries(files, (n - 1) as nat);
        let e = files[n - 1];
        let p = entry_pos(before, e, 0);
        lemma_entry_pos(before, e, 0);
        let after = sort_entries(files, n);
        assert forall|i: int, j: int| 0 <= i < j < n implies !entry_lt(
            #[trigger] after[j],
            #[trigger] after[i],
        ) by {
            if j == p {
                assert(after[i] == before[i]);
                assert(!entry_lt(e, before[i]));
            } else if i == p {
                assert(after[j] == before[j - 1]);
                assert(entry_lt(e, before[p]));
                if entry_lt(before[j - 1], e) {
                    lemma_entry_transitive(before[j - 1], e, before[p]);
                    if j - 1 == p {
                        lemma_entry_asymmetric(e, before[p]);
                    } else {
                        assert(!entry_lt(before[j - 1], before[p]));
                    }
                }
            } else {
                let bi = if i < p {
                    i
                } else {
                    i - 1
                };
                let bj = if j < p {
                    j
                } else {
                    j - 1
                };
                assert(after[i] == before[bi]);
                assert(after[j] == before[bj]);
            }
        }
    }
}

/// Two paths that agree before `i` and of which neither comes before the
/// other from `i` on are the same path.
proof fn lemma_path_total(a: Seq<Seq<char>>, b: Seq<Seq<char>>, i: int)
    requires
        0 <= i <= a.len(),
        i <= b.len(),
        a.subrange(0, i) == b.subrange(0, i),
        !path_lt_from(a, b, i),
        !path_lt_from(b, a, i),
    ensures
        a == b,
    decreases a.len() - i,
{
    if i >= a.len() || i >= b.len() {
        assert(a.len() == b.len());
        assert(a.subrange(0, i) == a);
        assert(b.subrange(0, i) == b);
    } else {
        lemma_lex_trichotomy(a[i], b[i]);
        assert(a[i] == b[i]);
        assert(a.subrange(0, i + 1) =~= a.subrange(0, i).push(a[i]));
        assert(b.subrange(0, i + 1) =~= b.subrange(0, i).push(b[i]));
        lemma_path_total(a, b, i + 1);
    }
}

/// Of two paths one comes before the other, or they are the same.
pub proof fn lemma_path_trichotomy(a: Seq<Seq<char>>, b: Seq<Seq<char>>)
    ensures
        path_lt(a, b) || path_lt(b, a) || a == b,
{
    if !path_lt(a, b) && !path_lt(b, a) {
        assert(a.subrange(0, 0) =~= b.subrange(0, 0));
        lemma_path_total(a, b, 0);
    }
}

/// What comes before a path that does not come behind `c` comes before `c`.
proof fn lemma_path_lt_le(a: Seq<Seq<char>>, b: Seq<Seq<char>>, c: Seq<Seq<char>>)
    requires
        path_lt(a, b),
        !path_lt(c, b),
    ensures
        path_lt(a, c),
{
    lemma_path_trichotomy(b, c);
    if b != c {
        lemma_path_transitive(a, b, c, 0);
    }
}

/// Whether no entry stands before an entry that comes before it in load order.
pub open spec fn in_load_order(s: Seq<FileEntryView>) -> bool {
    forall|i: int, j: int|
        0 <= i < j < s.len() ==> !entry_lt(#[trigger] s[j], #[trigger] s[i])
}

/// In load order, an entry's path does not come behind the path of a later
/// entry; of two entries of one path the later is the mod's if either is;
/// and of two entries of different paths the earlier has the earlier path.
proof fn lemma_sorted_pair(s: Seq<FileEntryView>, i: int, j: int)
    requires
        in_load_order(s),
        0 <= i <= j < s.len(),
    ensures
        !path_lt(s[j].path, s[i].path),
        s[i].path == s[j].path ==> s[i].kind.spec_rank() <= s[j].kind.spec_rank(),
        s[i].path != s[j].path ==> path_lt(s[i].path, s[j].path),
{
    lemma_path_irreflexive(s[i].path, 0);
    if i < j {
        assert(!entry_lt(s[j], s[i]));
        lemma_path_trichotomy(s[i].path, s[j].path);
    }
}

/// Whether the entry occurs in the sequence.
pub open spec fn occurs(s: Seq<FileEntryView>, e: FileEntryView) -> bool {
    exists|x: int| 0 <= x < s.len() && #[trigger] s[x] == e
}

/// Sorting neither adds an entry nor loses one.
pub proof fn lemma_sort_same_entries(files: Seq<FileEntryView>, n: nat)
    requires
        n <= files.len(),
    ensures
        sort_entries(files, n).len() == n,
        forall|x: int|
            0 <= x < n ==> occurs(files.subrange(0, n as int), #[trigger] sort_entries(files, n)[x]),
        forall|k: int| 0 <= k < n ==> occurs(sort_entries(files, n), #[trigger] files[k]),
    decreases n,
{
    if n > 0 {
        lemma_sort_same_entries(files, (n - 1) as nat);
        let before = sort_entries(files, (n - 1) as nat);
        let e = files[n - 1];
        let p = entry_pos(before, e, 0);
        lemma_entry_pos(before, e, 0);
        let after = sort_entries(files, n);
        let head = files.subrange(0, n as int);
        let head_before = files.subrange(0, n - 1);
        assert forall|x: int| 0 <= x < n implies occurs(head, #[trigger] after[x]) by {
            if x == p {
                assert(head[n - 1] == after[x]);
            } else {
                let bx = if x < p {
                    x
                } else {
                    x - 1
                };
                assert(after[x] == before[bx]);
                assert(occurs(head_before, before[bx]));
                let k = choose|k: int| 0 <= k < head_before.len() && head_before[k] == before[bx];
                assert(head[k] == after[x]);
            }
        }
        assert forall|k: int| 0 <= k < n implies occurs(after, #[trigger] files[k]) by {
            if k == n - 1 {
                assert(after[p] == files[k]);
            } else {
                assert(occurs(before, files[k]));
                let x = choose|x: int| 0 <= x < before.len() && before[x] == files[k];
                if x < p {
                    assert(after[x] == files[k]);
                } else {
                    assert(after[x + 1] == files[k]);
                }
            }
        }
    }
}

/// Whether the entry is, among the first `n` of `s`, the last of its path.
pub open spec fn is_last_of_path(s: Seq<FileEntryView>, n: nat, e: FileEntryView) -> bool {
    exists|i: int| 0 <= i < n && last_of_path(s, i) && #[trigger] s[i] == e
}

/// What `keep_last` keeps: exactly the entries that are the last of their
/// path, in the order of their paths.
proof fn lemma_keep_last(s: Seq<FileEntryView>, n: nat)
    requires
        in_load_order(s),
        n <= s.len(),
    ensures
        forall|x: int|
            0 <= x < keep_last(s, n).len() ==> is_last_of_path(s, n, #[trigger] keep_last(s, n)[x]),
        forall|i: int|
            0 <= i < n && last_of_path(s, i) ==> occurs(keep_last(s, n), #[trigger] s[i]),
        strictly_ascending(keep_last(s, n)),
    decreases n,
{
    if n > 0 {
        lemma_keep_last(s, (n - 1) as nat);
        let before = keep_last(s, (n - 1) as nat);
        let after = keep_last(s, n);
        if last_of_path(s, n - 1) {
            assert forall|x: int| 0 <= x < after.len() implies is_last_of_path(
                s,
                n,
                #[trigger] after[x],
            ) by {
                if x < before.len() {
                    assert(after[x] == before[x]);
                    assert(is_last_of_path(s, (n - 1) as nat, before[x]));
                    let i = choose|i: int|
                        0 <= i < n - 1 && last_of_path(s, i) && #[trigger] s[i] == before[x];
                    assert(s[i] == after[x]);
                } else {
                    assert(s[n - 1] == after[x]);
                }
            }
            assert forall|i: int| 0 <= i < n && last_of_path(s, i) implies occurs(
                after,
                #[trigger] s[i],
            ) by {
                if i == n - 1 {
                    assert(after[before.len() as int] == s[i]);
                } else {
                    assert(occurs(before, s[i]));
                    let x = choose|x: int| 0 <= x < before.len() && before[x] == s[i];
                    assert(after[x] == s[i]);
                }
            }
            assert forall|x: int, y: int| 0 <= x < y < after.len() implies path_lt(
                (#[trigger] after[x]).path,
                (#[trigger] after[y]).path,
            ) by {
                if y < before.len() {
                    assert(after[x] == before[x]);
                    assert(after[y] == before[y]);
                } else {
                    assert(after[x] == before[x]);
                    assert(is_last_of_path(s, (n - 1) as nat, before[x]));
                    let i = choose|i: int|
                        0 <= i < n - 1 && last_of_path(s, i) && #[trigger] s[i] == before[x];
                    lemma_sorted_pair(s, i, i + 1);
                    lemma_sorted_pair(s, i + 1, n - 1);
                    lemma_path_lt_le(s[i].path, s[i + 1].path, s[n - 1].path);
                }
            }
        } else {
            assert(after == before);
            assert forall|x: int| 0 <= x < after.len() implies is_last_of_path(
                s,
                n,
                #[trigger] after[x],
            ) by {
                assert(is_last_of_path(s, (n - 1) as nat, before[x]));
                let i = choose|i: int|
                    0 <= i < n - 1 && last_of_path(s, i) && #[trigger] s[i] == before[x];
                assert(s[i] == after[x]);
            }
        }
    }
}

/// The position of the last entry with the path of the entry at `k`.
proof fn lemma_last_of_run(s: Seq<FileEntryView>, k: int) -> (i: int)
    requires
        0 <= k < s.len(),
    ensures
        k <= i < s.len(),
        last_of_path(s, i),
        s[i].path == s[k].path,
    decreases s.len() - k,
{
    if last_of_path(s, k) {
        k
    } else {
        lemma_last_of_run(s, k + 1)
    }
}

/// The load order holds the files in the order of their paths, each path
/// once and no other path, and for each path the mod's file where the mod
/// has one.
pub proof fn lemma_ordered_is_layered(files: Seq<FileEntryView>)
    ensures
        layered(files, ordered_spec(files)),
{
    let n = files.len();
    let s = sort_entries(files, n);
    lemma_sort_is_ordered(files, n);
    lemma_sort_same_entries(files, n);
    assert(in_load_order(s));
    lemma_keep_last(s, n);
    let r = ordered_spec(files);
    assert(files.subrange(0, n as int) =~= files);
    assert forall|k: int| 0 <= k < files.len() implies has_path(r, (#[trigger] files[k]).path) by {
        assert(occurs(s, files[k]));
        let x = choose|x: int| 0 <= x < s.len() && s[x] == files[k];
        let i = lemma_last_of_run(s, x);
        assert(occurs(r, s[i]));
        let y = choose|y: int| 0 <= y < r.len() && r[y] == s[i];
        assert(r[y].path == files[k].path);
    }
    assert forall|y: int| 0 <= y < r.len() implies has_path(files, (#[trigger] r[y]).path) && (
    r[y].kind == FileKind::Mod <==> has_mod(files, r[y].path)) by {
        assert(is_last_of_path(s, n, r[y]));
        let i = choose|i: int| 0 <= i < n && last_of_path(s, i) && #[trigger] s[i] == r[y];
        assert(occurs(files, s[i]));
        let k = choose|k: int| 0 <= k < files.len() && files[k] == s[i];
        assert(files[k].path == r[y].path);
        if r[y].kind == FileKind::Mod {
            assert(files[k].kind == FileKind::Mod);
        }
        if has_mod(files, r[y].path) {
            let m = choose|m: int|
                0 <= m < files.len() && (#[trigger] files[m]).path == r[y].path && files[m].kind
                    == FileKind::Mod;
            assert(occurs(s, files[m]));
            let x = choose|x: int| 0 <= x < s.len() && s[x] == files[m];
            if x <= i {
                lemma_sorted_pair(s, x, i);
            } else {
                lemma_sorted_pair(s, i, i + 1);
                lemma_sorted_pair(s, i + 1, x);
                lemma_path_lt_le(s[i].path, s[i + 1].path, s[x].path);
                lemma_path_irreflexive(s[i].path, 0);
            }
        }
    }
}

/// `Itertools::circular_tuple_windows` on the entries of a vector,
/// collected: for each entry, the pair of a copy of it and a copy of the
/// entry that follows it, where the first entry follows the last.
#[verifier::external_body]
fn circular_pairs(files: Vec<FileEntry>) -> (r: Vec<(FileEntry, FileEntry)>)
    ensures
        r@.len() == files@.len(),
        forall|i: int|
            0 <= i < r@.len() ==> (#[trigger] r@[i]).0@ == files@[i]@ && r@[i].1@ == files@[(i + 1)
                % (files@.len() as int)]@,
{
    files.into_iter().circular_tuple_windows().collect()
}

/// Sorts the files into load order.
pub fn sort_files(files: Vec<FileEntry>) -> (r: Vec<FileEntry>)
    ensures
        entries_view(r@) == sort_entries(entries_view(files@), files@.len()),
        r@.len() == files@.len(),
{
    let ghost all = entries_view(files@);
    let mut rest = files;
    let n: usize = rest.len();
    let mut sorted: Vec<FileEntry> = Vec::new();
    let mut i: usize = 0;
    assert(entries_view(sorted@) =~= Seq::empty());
    while i < n
        invariant
            i <= n,
            n == all.len(),
            entries_view(rest@) == all.subrange(i as int, n as int),
            rest@.len() == n - i,
            sorted@.len() == i,
            entries_view(sorted@) == sort_entries(all, i as nat),
        decreases n - i,
    {
        let ghost before = entries_view(sorted@);
        let ghost rv = entries_view(rest@);
        assert(rv[0] == rest@[0]@);
        let e = rest.remove(0);
        assert(e@ == all[i as int]);
        assert(entries_view(rest@) =~= all.subrange(i + 1, n as int)) by {
            assert forall|j: int| 0 <= j < rest@.len() implies entries_view(rest@)[j]
                == all.subrange(i + 1, n as int)[j] by {
                assert(rv[j + 1] == all[i + 1 + j]);
            }
        }
        let mut p: usize = 0;
        while p < sorted.len() && !e.sorts_before(&sorted[p])
            invariant
                p <= sorted@.len(),
                before == entries_view(sorted@),
                entry_pos(before, e@, 0) == entry_pos(before, e@, p as int),
            decreases sorted@.len() - p,
        {
            assert(before[p as int] == sorted@[p as int]@);
            p = p + 1;
        }
        proof {
            if p < sorted.len() {
                assert(before[p as int] == sorted@[p as int]@);
            }
        }
        let ghost ev = e@;
        sorted.insert(p, e);
        assert(entries_view(sorted@) =~= before.insert(p as int, ev));
        i = i + 1;
    }
    sorted
}

/// Puts the files in the order in which the game loads them and keeps,
/// of the files of one path, the one that is loaded last: the result is in
/// the order of the paths, holds each path of `files` once, and for each
/// path the mod's file where the mod has one.
pub fn order_files(files: Vec<FileEntry>) -> (r: Vec<FileEntry>)
    ensures
        entries_view(r@) == ordered_spec(entries_view(files@)),
        layered(entries_view(files@), entries_view(r@)),
{
    proof {
        lemma_ordered_is_layered(entries_view(files@));
    }
    let sorted = sort_files(files);
    let ghost sv = entries_view(sorted@);
    let mut pairs = circular_pairs(sorted);
    let n: usize = pairs.len();
    let ghost all = pairs@;
    let mut out: Vec<FileEntry> = Vec::new();
    let mut i: usize = 0;
    assert(entries_view(out@) =~= Seq::empty());
    while i < n
        invariant
            i <= n,
            n == sv.len(),
            n == all.len(),
            pairs@ == all.subrange(i as int, n as int),
            forall|j: int|
                0 <= j < n ==> (#[trigger] all[j]).0@ == sv[j] && all[j].1@ == sv[(j + 1) % (
                n as int)],
            entries_view(out@) == keep_last(sv, i as nat),
        decreases n - i,
    {
        let ghost before = entries_view(out@);
        let pair = pairs.remove(0);
        assert(pair == all[i as int]);
        assert(pairs@ =~= all.subrange(i + 1, n as int));
        let e1 = pair.0;
        let e2 = pair.1;
        proof {
            if i + 1 < n {
                assert((i + 1) % (n as int) == i + 1) by (nonlinear_arith)
                    requires
                        0 <= i + 1 < n,
                ;
            }
        }
        // The entry that follows the last one is the first one: the last is always kept.
        if i + 1 == n || !e1.same_path(&e2) {
            let ghost v1 = e1@;
            out.push(e1);
            assert(entries_view(out@) =~= before.push(v1));
        }
        i = i + 1;
    }
    out
}

} // verus!
