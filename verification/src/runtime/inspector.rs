//! The change detail inspector: previous contents by path, and details for each change.

use vstd::prelude::*;

use crate::runtime::detail::{detail_from_bytes, detail_spec};
use crate::paths::{extension_chars, extension_spec, file_name_spec, path_components, std_components};
use crate::shared::{ChangeDetail, ChangeDetailView, ChangeKind, FileChange, FileChangeView, detail_view};
use crate::text::{chars_eq_str, chars_of, eq_str};

verus! {

/// Snapshot entries as path and content.
pub open spec fn entries_view(v: Seq<(String, Vec<u8>)>) -> Seq<(Seq<char>, Seq<u8>)> {
    v.map_values(|e: (String, Vec<u8>)| (e.0@, e.1@))
}

/// Whether two paths name the same path (`Path` equality: the same components).
pub open spec fn same_path(a: Seq<char>, b: Seq<char>) -> bool {
    std_components(a) == std_components(b)
}

/// The content recorded for `key`: that of its latest entry for the same path.
pub open spec fn lookup(s: Seq<(Seq<char>, Seq<u8>)>, key: Seq<char>) -> Option<Seq<u8>>
    decreases s.len(),
{
    if s.len() == 0 {
        None
    } else if same_path(s.last().0, key) {
        Some(s.last().1)
    } else {
        lookup(s.drop_last(), key)
    }
}

/// The entries without those for the path `key`.
pub open spec fn remove_key(s: Seq<(Seq<char>, Seq<u8>)>, key: Seq<char>) -> Seq<(Seq<char>, Seq<u8>)>
    decreases s.len(),
{
    if s.len() == 0 {
        s
    } else if same_path(s.last().0, key) {
        remove_key(s.drop_last(), key)
    } else {
        remove_key(s.drop_last(), key).push(s.last())
    }
}

/// The entries with `key` recorded as `value`.
pub open spec fn insert_key(s: Seq<(Seq<char>, Seq<u8>)>, key: Seq<char>, value: Seq<u8>) -> Seq<(Seq<char>, Seq<u8>)> {
    remove_key(s, key).push((key, value))
}

/// Removing a path leaves the other paths' contents as they were and drops its own.
pub proof fn law_remove_key(s: Seq<(Seq<char>, Seq<u8>)>, key: Seq<char>, other: Seq<char>)
    ensures
        lookup(remove_key(s, key), key) is None,
        !same_path(other, key) ==> lookup(remove_key(s, key), other) == lookup(s, other),
    decreases s.len(),
{
    if s.len() > 0 {
        law_remove_key(s.drop_last(), key, other);
        let r = remove_key(s.drop_last(), key);
        assert(r.push(s.last()).drop_last() == r);
    }
}

/// Recording content for a path makes it the path's content and leaves other paths alone.
pub proof fn law_insert_key(s: Seq<(Seq<char>, Seq<u8>)>, key: Seq<char>, value: Seq<u8>, other: Seq<char>)
    ensures
        lookup(insert_key(s, key, value), key) == Some(value),
        !same_path(other, key) ==> lookup(insert_key(s, key, value), other) == lookup(s, other),
{
    law_remove_key(s, key, other);
    let r = remove_key(s, key);
    assert(r.push((key, value)).drop_last() == r);
}

/// What recording the current content of a path gives: the entries with the content
/// recorded, and the detail against the content recorded before; nothing without content.
pub open spec fn existing_detail(
    s: Seq<(Seq<char>, Seq<u8>)>,
    path: Seq<char>,
    previous: Option<Seq<u8>>,
    current: Option<Seq<u8>>,
) -> (Seq<(Seq<char>, Seq<u8>)>, Option<ChangeDetailView>) {
    match current {
        Some(b) => (insert_key(s, path, b), Some(detail_spec(path, previous, b))),
        None => (s, None),
    }
}

/// Enriching a change, given the current content of its path when it could be read: a
/// deletion forgets the path; a rename takes the content recorded under the old path as the
/// previous content, when there is one; otherwise the content recorded under the path is.
pub open spec fn enrich_spec(
    s: Seq<(Seq<char>, Seq<u8>)>,
    c: FileChangeView,
    current: Option<Seq<u8>>,
) -> (Seq<(Seq<char>, Seq<u8>)>, Option<ChangeDetailView>) {
    match c.kind {
        ChangeKind::Deleted => (remove_key(s, c.path), Some(ChangeDetailView::Deleted)),
        ChangeKind::Renamed => {
            let moved = match c.previous_path {
                Some(pp) => lookup(s, pp),
                None => None,
            };
            let s1 = match c.previous_path {
                Some(pp) => remove_key(s, pp),
                None => s,
            };
            match moved {
                Some(p) => existing_detail(s1, c.path, Some(p), current),
                None => existing_detail(s1, c.path, lookup(s1, c.path), current),
            }
        },
        _ => existing_detail(s, c.path, lookup(s, c.path), current),
    }
}

/// Adds type-aware details to watch changes, remembering the last content of each path.
#[derive(Debug)]
pub struct ChangeDetailInspector {
    snapshots: Vec<(String, Vec<u8>)>,
}

impl View for ChangeDetailInspector {
    type V = Seq<(Seq<char>, Seq<u8>)>;

    closed spec fn view(&self) -> Seq<(Seq<char>, Seq<u8>)> {
        entries_view(self.snapshots@)
    }
}

fn copy_bytes(b: &[u8]) -> (out: Vec<u8>)
    ensures
        out@ == b@,
{
    let mut out: Vec<u8> = Vec::new();
    let mut i: usize = 0;
    while i < b.len()
        invariant
            i <= b.len(),
            out@ == b@.take(i as int),
        decreases b.len() - i,
    {
        out.push(b[i]);
        assert(b@.take(i + 1) == b@.take(i as int).push(b@[i as int]));
        i = i + 1;
    }
    assert(b@.take(b.len() as int) == b@);
    out
}

/// Whether two paths name the same path, component by component.
fn paths_equal(a: &str, b: &str) -> (r: bool)
    ensures
        r == same_path(a@, b@),
{
    let x = crate::paths::std_components_of(a);
    let y = crate::paths::std_components_of(b);
    same_components(&x, &y)
}

impl ChangeDetailInspector {
    /// An inspector that remembers nothing.
    pub fn new() -> (i: Self)
        ensures
            i@ == Seq::<(Seq<char>, Seq<u8>)>::empty(),
    {
        let i = ChangeDetailInspector { snapshots: Vec::new() };
        assert(i@ =~= Seq::<(Seq<char>, Seq<u8>)>::empty());
        i
    }

    /// The content recorded for a path.
    pub fn snapshot(&self, path: &str) -> (r: Option<Vec<u8>>)
        ensures
            match r {
                Some(b) => lookup(self@, path@) == Some(b@),
                None => lookup(self@, path@) is None,
            },
    {
        let ghost s = self@;
        let mut i = self.snapshots.len();
        assert(s.take(i as int) == s);
        while i > 0
            invariant
                i <= self.snapshots.len(),
                s == entries_view(self.snapshots@),
                lookup(s, path@) == lookup(s.take(i as int), path@),
            decreases i,
        {
            assert(s.take(i as int).drop_last() == s.take(i - 1));
            assert(s.take(i as int).last() == s[i - 1]);
            if paths_equal(self.snapshots[i - 1].0.as_str(), path) {
                return Some(copy_bytes(self.snapshots[i - 1].1.as_slice()));
            }
            i = i - 1;
        }
        assert(s.take(0) =~= Seq::<(Seq<char>, Seq<u8>)>::empty());
        None
    }

    /// Forgets a path, returning the content that was recorded for it.
    pub fn forget(&mut self, path: &str) -> (r: Option<Vec<u8>>)
        ensures
            final(self)@ == remove_key(old(self)@, path@),
            match r {
                Some(b) => lookup(old(self)@, path@) == Some(b@),
                None => lookup(old(self)@, path@) is None,
            },
    {
        let previous = self.snapshot(path);
        let ghost s = self@;
        let mut kept: Vec<(String, Vec<u8>)> = Vec::new();
        let mut i: usize = 0;
        while i < self.snapshots.len()
            invariant
                i <= self.snapshots.len(),
                s == entries_view(self.snapshots@),
                entries_view(kept@) == remove_key(s.take(i as int), path@),
            decreases self.snapshots.len() - i,
        {
            assert(s.take(i + 1).drop_last() == s.take(i as int));
            let entry = &self.snapshots[i];
            if !paths_equal(entry.0.as_str(), path) {
                let ghost prev = kept@;
                let copy = (entry.0.clone(), copy_bytes(entry.1.as_slice()));
                kept.push(copy);
                assert(entries_view(kept@) =~= entries_view(prev).push(s[i as int]));
            }
            i = i + 1;
        }
        assert(s.take(self.snapshots.len() as int) == s);
        self.snapshots = kept;
        previous
    }

    /// Records the content of a path, returning the content recorded before.
    pub fn record(&mut self, path: String, bytes: Vec<u8>) -> (r: Option<Vec<u8>>)
        ensures
            final(self)@ == insert_key(old(self)@, path@, bytes@),
            match r {
                Some(b) => lookup(old(self)@, path@) == Some(b@),
                None => lookup(old(self)@, path@) is None,
            },
    {
        let previous = self.forget(path.as_str());
        let ghost before = self.snapshots@;
        self.snapshots.push((path, bytes));
        assert(entries_view(self.snapshots@) =~= entries_view(before).push((path@, bytes@)));
        previous
    }

    fn existing(&mut self, path: &String, previous: Option<Vec<u8>>, current: Option<Vec<u8>>) -> (d: Option<ChangeDetail>)
        ensures
            (final(self)@, detail_view(d)) == existing_detail(
                old(self)@,
                path@,
                match previous {
                    Some(p) => Some(p@),
                    None => None,
                },
                match current {
                    Some(c) => Some(c@),
                    None => None,
                },
            ),
    {
        match current {
            Some(bytes) => {
                let copy = copy_bytes(bytes.as_slice());
                let _ = self.record(path.clone(), copy);
                let detail = match &previous {
                    Some(p) => detail_from_bytes(path.as_str(), Some(p.as_slice()), bytes.as_slice()),
                    None => detail_from_bytes(path.as_str(), None, bytes.as_slice()),
                };
                Some(detail)
            },
            None => None,
        }
    }

    /// Enriches a change with its detail; `current` is the content of the changed path when
    /// it could be read.
    pub fn enrich_change(&mut self, change: FileChange, current: Option<Vec<u8>>) -> (c: FileChange)
        ensures
            ({
                let (s, d) = enrich_spec(
                    old(self)@,
                    change@,
                    match current {
                        Some(b) => Some(b@),
                        None => None,
                    },
                );
                &&& final(self)@ == s
                &&& c@ == FileChangeView { detail: d, ..change@ }
            }),
    {
        let mut change = change;
        let detail = match change.kind {
            ChangeKind::Deleted => {
                let _ = self.forget(change.path.as_str());
                Some(ChangeDetail::Deleted)
            },
            ChangeKind::Renamed => {
                let moved = match &change.previous_path {
                    Some(pp) => self.forget(pp.as_str()),
                    None => None,
                };
                match moved {
                    Some(p) => self.existing(&change.path, Some(p), current),
                    None => {
                        let previous = self.snapshot(change.path.as_str());
                        self.existing(&change.path, previous, current)
                    },
                }
            },
            _ => {
                let previous = self.snapshot(change.path.as_str());
                self.existing(&change.path, previous, current)
            },
        };
        change.detail = detail;
        change
    }
}

/// Whether path `p` lies under `base`, component by component (`Path::starts_with`).
pub open spec fn path_starts_with(p: Seq<char>, base: Seq<char>) -> bool {
    let pc = std_components(p);
    let bc = std_components(base);
    bc.len() <= pc.len() && pc.take(bc.len() as int) == bc
}

/// Whether a path is ignored by one entry: it is that path, lies under it, or has a
/// component equal to the entry's file name.
pub open spec fn ignored_by(p: Seq<char>, ignored: Seq<char>) -> bool {
    ||| p == ignored
    ||| path_starts_with(p, ignored)
    ||| (file_name_spec(ignored) matches Some(name) && path_components(p).contains(name))
}

/// Whether any entry of the ignore list ignores the path.
pub open spec fn should_ignore_spec(p: Seq<char>, ignore: Seq<Seq<char>>) -> bool {
    exists|i: int| 0 <= i < ignore.len() && ignored_by(p, #[trigger] ignore[i])
}

fn components_of(path: &str) -> (c: Vec<Vec<char>>)
    ensures
        crate::text::pieces_view(c@) == path_components(path@),
{
    crate::paths::components(path)
}

fn ignored_by_entry(path: &str, ignored: &str) -> (b: bool)
    ensures
        b == ignored_by(path@, ignored@),
{
    if eq_str(path, ignored) {
        return true;
    }
    let pc = crate::paths::std_components_of(path);
    let bc = crate::paths::std_components_of(ignored);
    let ghost pv = crate::text::pieces_view(pc@);
    let ghost bv = crate::text::pieces_view(bc@);
    if bc.len() <= pc.len() {
        let mut k: usize = 0;
        let mut same = true;
        assert(pv.take(0) =~= bv.take(0));
        while k < bc.len()
            invariant
                bc.len() <= pc.len(),
                k <= bc.len(),
                pv == crate::text::pieces_view(pc@),
                bv == crate::text::pieces_view(bc@),
                same == (pv.take(k as int) == bv.take(k as int)),
            decreases bc.len() - k,
        {
            let eq = crate::text::chars_eq_chars(&pc[k], &bc[k]);
            assert(pv[k as int] == pc@[k as int]@ && bv[k as int] == bc@[k as int]@);
            if same && !eq {
                assert(pv.take(k + 1)[k as int] != bv.take(k + 1)[k as int]);
            }
            proof {
                if !same {
                    if pv.take(k + 1) == bv.take(k + 1) {
                        assert(pv.take(k + 1).take(k as int) == pv.take(k as int));
                        assert(bv.take(k + 1).take(k as int) == bv.take(k as int));
                    }
                }
            }
            if same && eq {
                assert(pv.take(k + 1) =~= bv.take(k + 1));
            }
            same = same && eq;
            k = k + 1;
        }
        assert(bv.take(bc.len() as int) == bv);
        if same {
            return true;
        }
    }
    let pc = components_of(path);
    let ghost pv = crate::text::pieces_view(pc@);
    match crate::paths::file_name_chars(ignored) {
        Some(name) => {
            let mut j: usize = 0;
            while j < pc.len()
                invariant
                    j <= pc.len(),
                    pv == crate::text::pieces_view(pc@),
                    pv == path_components(path@),
                    file_name_spec(ignored@) == Some(name@),
                    forall|m: int| 0 <= m < j ==> pv[m] != name@,
                decreases pc.len() - j,
            {
                assert(pv[j as int] == pc@[j as int]@);
                if crate::text::chars_eq_chars(&pc[j], &name) {
                    assert(pv.contains(name@));
                    return true;
                }
                j = j + 1;
            }
            false
        },
        None => false,
    }
}

/// Whether a path is covered by the ignore list.
pub fn should_ignore(path: &str, ignore: &Vec<String>) -> (b: bool)
    ensures
        b == should_ignore_spec(path@, crate::diff::preview::strings_view(ignore@)),
{
    let ghost iv = crate::diff::preview::strings_view(ignore@);
    let mut i: usize = 0;
    while i < ignore.len()
        invariant
            i <= ignore.len(),
            iv == crate::diff::preview::strings_view(ignore@),
            forall|k: int| 0 <= k < i ==> !ignored_by(path@, #[trigger] iv[k]),
        decreases ignore.len() - i,
    {
        assert(iv[i as int] == ignore@[i as int]@);
        if ignored_by_entry(path, ignore[i].as_str()) {
            return true;
        }
        i = i + 1;
    }
    false
}

/// Whether a path passes the extension allow-list: an empty list allows everything; else the
/// path's extension must be on it.
pub open spec fn extension_allowed_spec(p: Seq<char>, extensions: Seq<Seq<char>>) -> bool {
    extensions.len() == 0 || (extension_spec(p) matches Some(e) && extensions.contains(e))
}

/// Whether a path passes the extension allow-list.
pub fn extension_allowed(path: &str, extensions: &Vec<String>) -> (b: bool)
    ensures
        b == extension_allowed_spec(path@, crate::diff::preview::strings_view(extensions@)),
{
    let ghost ev = crate::diff::preview::strings_view(extensions@);
    if extensions.len() == 0 {
        return true;
    }
    let e = match extension_chars(path) {
        Some(e) => e,
        None => {
            return false;
        },
    };
    let mut i: usize = 0;
    while i < extensions.len()
        invariant
            i <= extensions.len(),
            ev == crate::diff::preview::strings_view(extensions@),
            extension_spec(path@) == Some(e@),
            forall|k: int| 0 <= k < i ==> ev[k] != e@,
        decreases extensions.len() - i,
    {
        assert(ev[i as int] == extensions@[i as int]@);
        if chars_eq_str(&e, extensions[i].as_str()) {
            assert(ev.contains(e@));
            return true;
        }
        i = i + 1;
    }
    false
}

/// What seeding the snapshot store does with one path found under the watched roots.
#[derive(Clone, Copy, Debug, PartialEq, Eq, Structural)]
pub enum SeedAction {
    /// Leave the path alone.
    Skip,
    /// Read the directory and seed each of its entries.
    Descend,
    /// Read the file and record its contents.
    Record,
}

/// Whether a path is one of the watched roots (`Path` equality: the same components).
pub open spec fn is_root_spec(path: Seq<char>, roots: Seq<Seq<char>>) -> bool {
    exists|i: int| 0 <= i < roots.len() && std_components(#[trigger] roots[i]) == std_components(path)
}

/// The seeding decision for a path that is a directory (`is_dir`), a file (`is_file`) or
/// neither: ignored paths are skipped; a directory is entered when watching is recursive or
/// it is one of the watched roots; a file is recorded when its extension is allowed.
pub open spec fn seed_action_spec(path: Seq<char>, is_dir: bool, is_file: bool, watch: crate::config::schema::WatchView) -> SeedAction {
    if should_ignore_spec(path, watch.ignore) {
        SeedAction::Skip
    } else if is_dir {
        if !watch.recursive && !is_root_spec(path, watch.paths) {
            SeedAction::Skip
        } else {
            SeedAction::Descend
        }
    } else if is_file && extension_allowed_spec(path, watch.extensions) {
        SeedAction::Record
    } else {
        SeedAction::Skip
    }
}

fn same_components(a: &Vec<Vec<char>>, b: &Vec<Vec<char>>) -> (r: bool)
    ensures
        r == (crate::text::pieces_view(a@) == crate::text::pieces_view(b@)),
{
    let ghost av = crate::text::pieces_view(a@);
    let ghost bv = crate::text::pieces_view(b@);
    if a.len() != b.len() {
        assert(av.len() != bv.len());
        return false;
    }
    let mut k: usize = 0;
    while k < a.len()
        invariant
            k <= a.len() == b.len(),
            av == crate::text::pieces_view(a@),
            bv == crate::text::pieces_view(b@),
            forall|m: int| 0 <= m < k ==> av[m] == bv[m],
        decreases a.len() - k,
    {
        assert(av[k as int] == a@[k as int]@ && bv[k as int] == b@[k as int]@);
        if !crate::text::chars_eq_chars(&a[k], &b[k]) {
            return false;
        }
        k = k + 1;
    }
    assert(av =~= bv);
    true
}

fn is_root(path: &str, roots: &Vec<String>) -> (b: bool)
    ensures
        b == is_root_spec(path@, crate::diff::preview::strings_view(roots@)),
{
    let ghost rv = crate::diff::preview::strings_view(roots@);
    let pc = crate::paths::std_components_of(path);
    let mut i: usize = 0;
    while i < roots.len()
        invariant
            i <= roots.len(),
            rv == crate::diff::preview::strings_view(roots@),
            crate::text::pieces_view(pc@) == std_components(path@),
            forall|k: int| 0 <= k < i ==> std_components(#[trigger] rv[k]) != std_components(path@),
        decreases roots.len() - i,
    {
        assert(rv[i as int] == roots@[i as int]@);
        let rc = crate::paths::std_components_of(roots[i].as_str());
        if same_components(&rc, &pc) {
            return true;
        }
        i = i + 1;
    }
    false
}

/// Decides what seeding does with a path, given what the filesystem says it is.
pub fn seed_action(path: &str, is_dir: bool, is_file: bool, watch: &crate::config::schema::WatchConfig) -> (a: SeedAction)
    ensures
        a == seed_action_spec(path@, is_dir, is_file, watch@),
{
    if should_ignore(path, &watch.ignore) {
        SeedAction::Skip
    } else if is_dir {
        if !watch.recursive && !is_root(path, &watch.paths) {
            SeedAction::Skip
        } else {
            SeedAction::Descend
        }
    } else if is_file && extension_allowed(path, &watch.extensions) {
        SeedAction::Record
    } else {
        SeedAction::Skip
    }
}

} // verus!
