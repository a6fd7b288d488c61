//! Canonical absolute directories, as the names on the way from the root.

use vstd::prelude::*;

use crate::text::{chars_of, join, join_of, same_text, views};

verus! {

/// A canonical absolute directory: the names below the root, outermost first.
#[derive(Debug, PartialEq, Eq)]
pub struct DirPath {
    pub names: Vec<String>,
}

impl View for DirPath {
    type V = Seq<Seq<char>>;

    open spec fn view(&self) -> Seq<Seq<char>> {
        views(self.names@)
    }
}

/// The views of a list of directories.
pub open spec fn dir_views(dirs: Seq<DirPath>) -> Seq<Seq<Seq<char>>> {
    dirs.map_values(|d: DirPath| d@)
}

/// The directory as it is written.
pub open spec fn path_text(dir: Seq<Seq<char>>) -> Seq<char> {
    "/"@ + join_of(dir, "/"@)
}

/// Whether a directory is another one or lies below it.
pub open spec fn lies_in(dir: Seq<Seq<char>>, other: Seq<Seq<char>>) -> bool {
    other.is_prefix_of(dir)
}

/// Whether two directories overlap: one of them lies in the other.
pub open spec fn overlap(a: Seq<Seq<char>>, b: Seq<Seq<char>>) -> bool {
    lies_in(a, b) || lies_in(b, a)
}

/// Whether a text comes before another in the order of their characters.
pub open spec fn text_before(a: Seq<char>, b: Seq<char>) -> bool
    decreases a.len(),
{
    if b.len() == 0 {
        false
    } else if a.len() == 0 {
        true
    } else if a[0] != b[0] {
        (a[0] as u32) < (b[0] as u32)
    } else {
        text_before(a.drop_first(), b.drop_first())
    }
}

/// Whether names come before others in the order of the first that differ.
pub open spec fn names_before(a: Seq<Seq<char>>, b: Seq<Seq<char>>) -> bool
    decreases a.len(),
{
    if b.len() == 0 {
        false
    } else if a.len() == 0 {
        true
    } else if a[0] != b[0] {
        text_before(a[0], b[0])
    } else {
        names_before(a.drop_first(), b.drop_first())
    }
}

/// The order of directories: those with fewer names first, then by their
/// names.
pub open spec fn dir_before(a: Seq<Seq<char>>, b: Seq<Seq<char>>) -> bool {
    a.len() < b.len() || (a.len() == b.len() && names_before(a, b))
}

/// `text_before` is a strict total order.
pub proof fn lemma_text_order(a: Seq<char>, b: Seq<char>, c: Seq<char>)
    ensures
        !text_before(a, a),
        text_before(a, b) || text_before(b, a) || a == b,
        text_before(a, b) && text_before(b, c) ==> text_before(a, c),
    decreases a.len() + b.len() + c.len(),
{
    if a.len() > 0 {
        lemma_text_irreflexive(a);
    }
    if a.len() > 0 && b.len() > 0 && a[0] == b[0] {
        let rest = if c.len() > 0 {
            c.drop_first()
        } else {
            c
        };
        lemma_text_order(a.drop_first(), b.drop_first(), rest);
        if a.drop_first() == b.drop_first() {
            assert(a =~= seq![a[0]] + a.drop_first());
            assert(b =~= seq![b[0]] + b.drop_first());
        }
    } else if a.len() == 0 && b.len() == 0 {
        assert(a =~= b);
    } else if a.len() > 0 && b.len() > 0 {
        vstd::utf8::char_u32_cast(a[0], a[0] as u32);
        vstd::utf8::char_u32_cast(b[0], b[0] as u32);
    }
}

proof fn lemma_text_irreflexive(a: Seq<char>)
    ensures
        !text_before(a, a),
    decreases a.len(),
{
    if a.len() > 0 {
        lemma_text_irreflexive(a.drop_first());
    }
}

proof fn lemma_names_irreflexive(a: Seq<Seq<char>>)
    ensures
        !names_before(a, a),
    decreases a.len(),
{
    if a.len() > 0 {
        lemma_names_irreflexive(a.drop_first());
    }
}

proof fn lemma_names_order(a: Seq<Seq<char>>, b: Seq<Seq<char>>, c: Seq<Seq<char>>)
    ensures
        !names_before(a, a),
        names_before(a, b) || names_before(b, a) || a == b,
        names_before(a, b) && names_before(b, c) ==> names_before(a, c),
    decreases a.len() + b.len() + c.len(),
{
    lemma_names_irreflexive(a);
    if a.len() > 0 && b.len() > 0 {
        let x = if c.len() > 0 {
            c[0]
        } else {
            a[0]
        };
        lemma_text_order(a[0], b[0], x);
        lemma_text_order(b[0], a[0], x);
        if a[0] == b[0] {
            let rest = if c.len() > 0 {
                c.drop_first()
            } else {
                c
            };
            lemma_names_order(a.drop_first(), b.drop_first(), rest);
            if a.drop_first() == b.drop_first() {
                assert(a =~= seq![a[0]] + a.drop_first());
                assert(b =~= seq![b[0]] + b.drop_first());
            }
        }
    } else if a.len() == 0 && b.len() == 0 {
        assert(a =~= b);
    }
}

/// `dir_before` is a strict total order.
pub proof fn lemma_dir_order(a: Seq<Seq<char>>, b: Seq<Seq<char>>, c: Seq<Seq<char>>)
    ensures
        !dir_before(a, a),
        dir_before(a, b) || dir_before(b, a) || a == b,
        dir_before(a, b) && dir_before(b, c) ==> dir_before(a, c),
{
    lemma_names_order(a, b, c);
}

/// Lying in a directory is transitive.
pub proof fn lemma_lies_in_transitive(
    a: Seq<Seq<char>>,
    b: Seq<Seq<char>>,
    c: Seq<Seq<char>>,
)
    requires
        lies_in(a, b),
        lies_in(b, c),
    ensures
        lies_in(a, c),
{
    assert(c =~= a.take(c.len() as int));
}

/// Whether a text comes before another in the order of their characters.
pub fn text_less(a: &str, b: &str) -> (less: bool)
    ensures
        less == text_before(a@, b@),
{
    let x = chars_of(a);
    let y = chars_of(b);
    let mut i: usize = 0;
    assert(x@.skip(0) =~= x@);
    assert(y@.skip(0) =~= y@);
    while i < x.len() && i < y.len() && x[i] == y[i]
        invariant
            i <= x@.len(),
            i <= y@.len(),
            text_before(a@, b@) == text_before(x@.skip(i as int), y@.skip(i as int)),
        decreases x.len() - i,
    {
        i += 1;
        assert(x@.skip(i - 1).drop_first() =~= x@.skip(i as int));
        assert(y@.skip(i - 1).drop_first() =~= y@.skip(i as int));
    }
    if i >= y.len() {
        false
    } else if i >= x.len() {
        true
    } else {
        (x[i] as u32) < (y[i] as u32)
    }
}

impl DirPath {
    /// A copy of the directory.
    pub fn copy(&self) -> (dir: DirPath)
        ensures
            dir@ == self@,
    {
        let mut names: Vec<String> = Vec::new();
        let mut i: usize = 0;
        assert(views(names@) =~= self@.take(0));
        while i < self.names.len()
            invariant
                i <= self.names@.len(),
                views(names@) == self@.take(i as int),
            decreases self.names.len() - i,
        {
            let ghost before = names@;
            let name = self.names[i].clone();
            names.push(name);
            assert(views(names@) =~= views(before).push(name@));
            i += 1;
            assert(views(names@) =~= self@.take(i as int));
        }
        assert(self@.take(i as int) =~= self@);
        DirPath { names }
    }

    /// The directory as it is written.
    pub fn display(&self) -> (text: String)
        ensures
            text@ == path_text(self@),
    {
        let mut text = "/".to_owned();
        text.append(join(&self.names, "/").as_str());
        text
    }

    /// Whether the directory is another one or lies below it.
    pub fn starts_with(&self, other: &DirPath) -> (b: bool)
        ensures
            b == lies_in(self@, other@),
    {
        if other.names.len() > self.names.len() {
            return false;
        }
        let mut i: usize = 0;
        while i < other.names.len()
            invariant
                i <= other.names@.len() <= self.names@.len(),
                forall|j: int| 0 <= j < i ==> #[trigger] other@[j] == self@[j],
            decreases other.names.len() - i,
        {
            if self.names[i] != other.names[i] {
                assert(other@[i as int] != self@[i as int]);
                return false;
            }
            assert(other@[i as int] == self@[i as int]);
            i += 1;
        }
        assert(other@ =~= self@.take(other@.len() as int));
        true
    }

    /// Whether the two are the same directory.
    pub fn same(&self, other: &DirPath) -> (b: bool)
        ensures
            b == (self@ == other@),
    {
        if self.names.len() != other.names.len() {
            return false;
        }
        let b = self.starts_with(other);
        assert(b ==> self@ =~= other@);
        b
    }

    /// Whether the directory comes before another.
    fn before(&self, other: &DirPath) -> (b: bool)
        ensures
            b == dir_before(self@, other@),
    {
        if self.names.len() != other.names.len() {
            return self.names.len() < other.names.len();
        }
        let n: usize = self.names.len();
        let mut i: usize = 0;
        assert(self@.skip(0) =~= self@);
        assert(other@.skip(0) =~= other@);
        while i < n
            invariant
                i <= n == self@.len() == other@.len(),
                names_before(self@, other@) == names_before(
                    self@.skip(i as int),
                    other@.skip(i as int),
                ),
            decreases n - i,
        {
            if self.names[i] != other.names[i] {
                return text_less(self.names[i].as_str(), other.names[i].as_str());
            }
            i += 1;
            assert(self@.skip(i - 1).drop_first() =~= self@.skip(i as int));
            assert(other@.skip(i - 1).drop_first() =~= other@.skip(i as int));
        }
        false
    }
}

/// Whether two directories overlap.
pub fn paths_overlap(a: &DirPath, b: &DirPath) -> (over: bool)
    ensures
        over == overlap(a@, b@),
{
    a.starts_with(b) || b.starts_with(a)
}

/// Copies of directories.
pub fn copy_dirs(dirs: &Vec<DirPath>) -> (copies: Vec<DirPath>)
    ensures
        dir_views(copies@) == dir_views(dirs@),
{
    let mut out: Vec<DirPath> = Vec::new();
    let mut i: usize = 0;
    assert(dir_views(out@) =~= dir_views(dirs@).take(0));
    while i < dirs.len()
        invariant
            i <= dirs@.len(),
            dir_views(out@) == dir_views(dirs@).take(i as int),
        decreases dirs.len() - i,
    {
        let ghost before = out@;
        let dir = dirs[i].copy();
        out.push(dir);
        assert(dir_views(out@) =~= dir_views(before).push(dir@));
        i += 1;
        assert(dir_views(out@) =~= dir_views(dirs@).take(i as int));
    }
    assert(dir_views(dirs@).take(i as int) =~= dir_views(dirs@));
    out
}

/// The directories as they are written, with commas between them.
pub open spec fn dirs_text(dirs: Seq<Seq<Seq<char>>>) -> Seq<char> {
    join_of(dirs.map_values(|d: Seq<Seq<char>>| path_text(d)), ", "@)
}

/// A stable readable list of directories.
pub fn display_dirs(dirs: &Vec<DirPath>) -> (text: String)
    ensures
        text@ == dirs_text(dir_views(dirs@)),
{
    let ghost all = dir_views(dirs@).map_values(|d: Seq<Seq<char>>| path_text(d));
    let mut pieces: Vec<String> = Vec::new();
    let mut i: usize = 0;
    assert(views(pieces@) =~= all.take(0));
    while i < dirs.len()
        invariant
            i <= dirs@.len(),
            all == dir_views(dirs@).map_values(|d: Seq<Seq<char>>| path_text(d)),
            views(pieces@) == all.take(i as int),
        decreases dirs.len() - i,
    {
        let ghost before = pieces@;
        let piece = dirs[i].display();
        pieces.push(piece);
        assert(views(pieces@) =~= views(before).push(piece@));
        i += 1;
        assert(views(pieces@) =~= all.take(i as int));
    }
    assert(all.take(i as int) =~= all);
    join(&pieces, ", ")
}

/// Whether directories are the least that hold the given ones: taken from them,
/// each in its place, none inside another, and all the others inside one.
pub open spec fn is_normal_form(
    normal: Seq<Seq<Seq<char>>>,
    dirs: Seq<Seq<Seq<char>>>,
) -> bool {
    &&& forall|i: int| 0 <= i < normal.len() ==> #[trigger] dirs.contains(normal[i])
    &&& forall|d: Seq<Seq<char>>| #[trigger]
        dirs.contains(d) ==> exists|i: int|
            0 <= i < normal.len() && lies_in(d, #[trigger] normal[i])
    &&& forall|i: int, j: int|
        0 <= i < normal.len() && 0 <= j < normal.len() && i != j ==> !lies_in(
            #[trigger] normal[i],
            #[trigger] normal[j],
        )
    &&& forall|i: int, j: int|
        0 <= i < j < normal.len() ==> dir_before(#[trigger] normal[i], #[trigger] normal[j])
}

/// Puts directories in order and leaves out those that lie in another.
pub fn normalize_lock_dirs(dirs: Vec<DirPath>) -> (normal: Vec<DirPath>)
    ensures
        is_normal_form(dir_views(normal@), dir_views(dirs@)),
        dir_views(normal@) == normal_form(dir_views(dirs@)),
{
    let mut out: Vec<DirPath> = Vec::new();
    let mut i: usize = 0;
    while i < dirs.len()
        invariant
            i <= dirs@.len(),
            is_normal_form(dir_views(out@), dir_views(dirs@).take(i as int)),
        decreases dirs.len() - i,
    {
        out = insert_dir(out, &dirs[i], Ghost(dir_views(dirs@).take(i as int)));
        assert(dir_views(dirs@).take(i as int).push(dirs@[i as int]@) =~= dir_views(dirs@).take(
            i + 1,
        ));
        i += 1;
    }
    assert(dir_views(dirs@).take(i as int) =~= dir_views(dirs@));
    proof {
        law_normal_form_is_unique(
            dir_views(out@),
            normal_form(dir_views(dirs@)),
            dir_views(dirs@),
        );
    }
    out
}

/// Whether directories are in order, each before the next.
pub open spec fn in_order(dirs: Seq<Seq<Seq<char>>>) -> bool {
    forall|i: int, j: int|
        0 <= i < j < dirs.len() ==> dir_before(#[trigger] dirs[i], #[trigger] dirs[j])
}

/// The directories that do not lie in one, in the same order.
fn outside_of(dirs: &Vec<DirPath>, dir: &DirPath) -> (kept: Vec<DirPath>)
    requires
        in_order(dir_views(dirs@)),
    ensures
        in_order(dir_views(kept@)),
        forall|i: int|
            0 <= i < kept@.len() ==> dir_views(dirs@).contains(#[trigger] dir_views(kept@)[i])
                && !lies_in(dir_views(kept@)[i], dir@),
        forall|j: int|
            0 <= j < dirs@.len() && !lies_in(#[trigger] dir_views(dirs@)[j], dir@) ==> dir_views(
                kept@,
            ).contains(dir_views(dirs@)[j]),
{
    let mut kept: Vec<DirPath> = Vec::new();
    let ghost all = dir_views(dirs@);
    let mut k: usize = 0;
    while k < dirs.len()
        invariant
            k <= dirs@.len(),
            all == dir_views(dirs@),
            in_order(all),
            in_order(dir_views(kept@)),
            forall|i: int|
                0 <= i < kept@.len() ==> all.take(k as int).contains(
                    #[trigger] dir_views(kept@)[i],
                ) && !lies_in(dir_views(kept@)[i], dir@),
            forall|j: int|
                0 <= j < k && !lies_in(#[trigger] all[j], dir@) ==> dir_views(kept@).contains(
                    all[j],
                ),
        decreases dirs.len() - k,
    {
        let ghost before = dir_views(kept@);
        let ghost seen = all.take(k as int);
        assert(all[k as int] == dirs@[k as int]@);
        assert(all.take(k + 1) =~= seen.push(all[k as int]));
        assert forall|d: Seq<Seq<char>>| seen.contains(d) implies all.take(k + 1).contains(d) by {
            let m = choose|m: int| 0 <= m < seen.len() && seen[m] == d;
            assert(all.take(k + 1)[m] == d);
        }
        if !dirs[k].starts_with(dir) {
            kept.push(dirs[k].copy());
            let ghost now = dir_views(kept@);
            assert(now =~= before.push(all[k as int]));
            assert forall|i: int, j: int| 0 <= i < j < now.len() implies dir_before(
                #[trigger] now[i],
                #[trigger] now[j],
            ) by {
                if j == before.len() {
                    assert(seen.contains(before[i]));
                    let m = choose|m: int| 0 <= m < seen.len() && seen[m] == before[i];
                    assert(all[m] == before[i]);
                } else {
                    assert(now[j] == before[j]);
                }
                assert(now[i] == before[i]);
            }
            assert(all.take(k + 1)[k as int] == all[k as int]);
            assert forall|j: int| 0 <= j < k + 1 && !lies_in(#[trigger] all[j], dir@) implies now.contains(
            all[j]) by {
                if j < k {
                    let m = choose|m: int| 0 <= m < before.len() && before[m] == all[j];
                    assert(now[m] == all[j]);
                } else {
                    assert(now[before.len() as int] == all[j]);
                }
            }
            assert forall|i: int| 0 <= i < kept@.len() implies all.take(k + 1).contains(
                #[trigger] dir_views(kept@)[i],
            ) && !lies_in(dir_views(kept@)[i], dir@) by {
                if i < before.len() {
                    assert(now[i] == before[i]);
                }
            }
        }
        k += 1;
    }
    assert(all.take(k as int) =~= all);
    kept
}

/// One more directory among directories in order.
fn place(dirs: Vec<DirPath>, dir: &DirPath) -> (r: Vec<DirPath>)
    requires
        in_order(dir_views(dirs@)),
        !dir_views(dirs@).contains(dir@),
    ensures
        in_order(dir_views(r@)),
        exists|p: int|
            0 <= p <= dirs@.len() && dir_views(r@) == #[trigger] dir_views(dirs@).insert(p, dir@),
{
    let ghost all = dir_views(dirs@);
    let mut p: usize = 0;
    while p < dirs.len() && !dir.before(&dirs[p])
        invariant
            p <= dirs@.len(),
            all == dir_views(dirs@),
            forall|j: int| 0 <= j < p ==> !dir_before(dir@, #[trigger] all[j]),
        decreases dirs.len() - p,
    {
        assert(all[p as int] == dirs@[p as int]@);
        p += 1;
    }
    let mut r = dirs;
    r.insert(p, dir.copy());
    proof {
        let fin = dir_views(r@);
        assert(fin =~= all.insert(p as int, dir@));
        assert forall|i: int, j: int| 0 <= i < j < fin.len() implies dir_before(
            #[trigger] fin[i],
            #[trigger] fin[j],
        ) by {
            if i < p {
                assert(fin[i] == all[i]);
                lemma_dir_order(dir@, all[i], dir@);
                assert(all.contains(all[i]));
                if j > p {
                    assert(fin[j] == all[j - 1]);
                }
            } else if i == p {
                assert(fin[j] == all[j - 1]);
                assert(dir_before(dir@, all[p as int]));
                lemma_dir_order(dir@, all[p as int], all[j - 1]);
            } else {
                assert(fin[i] == all[i - 1]);
                assert(fin[j] == all[j - 1]);
            }
        }
    }
    r
}

/// A directory that lies in one of a normal form adds nothing to it.
proof fn lemma_covered(
    old: Seq<Seq<Seq<char>>>,
    seen: Seq<Seq<Seq<char>>>,
    dir: Seq<Seq<char>>,
    at: int,
)
    requires
        is_normal_form(old, seen),
        0 <= at < old.len(),
        lies_in(dir, old[at]),
    ensures
        is_normal_form(old, seen.push(dir)),
{
    let after = seen.push(dir);
    assert forall|i: int| 0 <= i < old.len() implies #[trigger] after.contains(old[i]) by {
        assert(seen.contains(old[i]));
        let k = choose|k: int| 0 <= k < seen.len() && seen[k] == old[i];
        assert(after[k] == old[i]);
    }
    assert forall|d: Seq<Seq<char>>| #[trigger] after.contains(d) implies exists|i: int|
        0 <= i < old.len() && lies_in(d, #[trigger] old[i]) by {
        let k = choose|k: int| 0 <= k < after.len() && after[k] == d;
        if k < seen.len() {
            assert(seen[k] == d);
            assert(seen.contains(d));
        } else {
            assert(lies_in(d, old[at]));
        }
    }
}

/// A directory that lies in none of a normal form takes its place in it, and
/// those inside it leave.
proof fn lemma_placed(
    old: Seq<Seq<Seq<char>>>,
    seen: Seq<Seq<Seq<char>>>,
    dir: Seq<Seq<char>>,
    inner: Seq<Seq<Seq<char>>>,
    p: int,
)
    requires
        is_normal_form(old, seen),
        forall|j: int| 0 <= j < old.len() ==> !lies_in(dir, #[trigger] old[j]),
        forall|i: int|
            0 <= i < inner.len() ==> old.contains(#[trigger] inner[i]) && !lies_in(inner[i], dir),
        forall|j: int|
            0 <= j < old.len() && !lies_in(#[trigger] old[j], dir) ==> inner.contains(old[j]),
        0 <= p <= inner.len(),
        in_order(inner.insert(p, dir)),
    ensures
        is_normal_form(inner.insert(p, dir), seen.push(dir)),
{
    let after = seen.push(dir);
    let fin = inner.insert(p, dir);
    assert(fin[p] == dir);
    assert forall|i: int| 0 <= i < fin.len() && i != p implies old.contains(#[trigger] fin[i])
        && !lies_in(fin[i], dir) by {
        if i < p {
            assert(fin[i] == inner[i]);
        } else {
            assert(fin[i] == inner[i - 1]);
        }
    }
    assert forall|i: int| 0 <= i < fin.len() implies #[trigger] after.contains(fin[i]) by {
        if i != p {
            let j = choose|j: int| 0 <= j < old.len() && old[j] == fin[i];
            assert(seen.contains(old[j]));
            let k = choose|k: int| 0 <= k < seen.len() && seen[k] == old[j];
            assert(after[k] == fin[i]);
        } else {
            assert(after[seen.len() as int] == fin[i]);
        }
    }
    assert forall|d: Seq<Seq<char>>| #[trigger] after.contains(d) implies exists|i: int|
        0 <= i < fin.len() && lies_in(d, #[trigger] fin[i]) by {
        let k = choose|k: int| 0 <= k < after.len() && after[k] == d;
        if k == seen.len() {
            assert(d =~= d.take(d.len() as int));
            assert(lies_in(d, fin[p]));
        } else {
            assert(seen[k] == d);
            assert(seen.contains(d));
            let j = choose|j: int| 0 <= j < old.len() && lies_in(d, #[trigger] old[j]);
            if lies_in(old[j], dir) {
                lemma_lies_in_transitive(d, old[j], dir);
                assert(lies_in(d, fin[p]));
            } else {
                let m = choose|m: int| 0 <= m < inner.len() && inner[m] == old[j];
                let q = if m < p {
                    m
                } else {
                    m + 1
                };
                assert(fin[q] == old[j]);
                assert(lies_in(d, fin[q]));
            }
        }
    }
    assert forall|i: int, j: int|
        0 <= i < fin.len() && 0 <= j < fin.len() && i != j implies !lies_in(
        #[trigger] fin[i],
        #[trigger] fin[j],
    ) by {
        if i == p {
            let b = choose|b: int| 0 <= b < old.len() && old[b] == fin[j];
            assert(!lies_in(dir, old[b]));
        } else if j != p {
            let a = choose|a: int| 0 <= a < old.len() && old[a] == fin[i];
            let b = choose|b: int| 0 <= b < old.len() && old[b] == fin[j];
            if a == b {
                lemma_dir_order(fin[i], fin[j], fin[i]);
                assert(i < j ==> dir_before(fin[i], fin[j]));
                assert(j < i ==> dir_before(fin[j], fin[i]));
            }
        }
    }
}

/// One more directory in a normal form.
fn insert_dir(out: Vec<DirPath>, dir: &DirPath, Ghost(seen): Ghost<Seq<Seq<Seq<char>>>>) -> (r: Vec<
    DirPath,
>)
    requires
        is_normal_form(dir_views(out@), seen),
    ensures
        is_normal_form(dir_views(r@), seen.push(dir@)),
{
    let ghost old = dir_views(out@);
    let mut i: usize = 0;
    while i < out.len()
        invariant
            i <= out@.len(),
            old == dir_views(out@),
            forall|j: int| 0 <= j < i ==> !lies_in(dir@, #[trigger] old[j]),
            is_normal_form(old, seen),
        decreases out.len() - i,
    {
        assert(out@[i as int]@ == old[i as int]);
        if dir.starts_with(&out[i]) {
            proof {
                lemma_covered(old, seen, dir@, i as int);
            }
            return out;
        }
        i += 1;
    }
    assert(in_order(old));
    let kept = outside_of(&out, dir);
    let ghost inner = dir_views(kept@);
    proof {
        assert(dir@ =~= dir@.take(dir@.len() as int));
        assert(lies_in(dir@, dir@));
        if inner.contains(dir@) {
            let m = choose|m: int| 0 <= m < inner.len() && inner[m] == dir@;
            assert(!lies_in(inner[m], dir@));
        }
    }
    let r = place(kept, dir);
    proof {
        let fin = dir_views(r@);
        let p = choose|p: int| 0 <= p <= inner.len() && fin == #[trigger] inner.insert(p, dir@);
        lemma_placed(old, seen, dir@, inner, p);
    }
    r
}

/// The least directories that hold the given ones, in order.
pub open spec fn normal_form(dirs: Seq<Seq<Seq<char>>>) -> Seq<Seq<Seq<char>>> {
    choose|normal: Seq<Seq<Seq<char>>>| is_normal_form(normal, dirs)
}

/// Two normal forms of the same directories hold the same ones.
proof fn lemma_normal_within(
    a: Seq<Seq<Seq<char>>>,
    b: Seq<Seq<Seq<char>>>,
    dirs: Seq<Seq<Seq<char>>>,
    i: int,
)
    requires
        is_normal_form(a, dirs),
        is_normal_form(b, dirs),
        0 <= i < a.len(),
    ensures
        b.contains(a[i]),
{
    assert(dirs.contains(a[i]));
    let j = choose|j: int| 0 <= j < b.len() && lies_in(a[i], #[trigger] b[j]);
    assert(dirs.contains(b[j]));
    let k = choose|k: int| 0 <= k < a.len() && lies_in(b[j], #[trigger] a[k]);
    lemma_lies_in_transitive(a[i], b[j], a[k]);
    assert(k == i);
    assert(a[i] =~= b[j]);
}

/// The start of one ordered list is the start of another that holds the same.
proof fn lemma_ordered_equal(a: Seq<Seq<Seq<char>>>, b: Seq<Seq<Seq<char>>>, n: int)
    requires
        in_order(a),
        in_order(b),
        forall|i: int| 0 <= i < a.len() ==> b.contains(#[trigger] a[i]),
        forall|i: int| 0 <= i < b.len() ==> a.contains(#[trigger] b[i]),
        0 <= n <= a.len(),
    ensures
        n <= b.len(),
        a.take(n) == b.take(n),
    decreases n,
{
    if n == 0 {
        assert(a.take(0) =~= b.take(0));
    } else {
        lemma_ordered_equal(a, b, n - 1);
        let m = n - 1;
        let j = choose|j: int| 0 <= j < b.len() && b[j] == a[m];
        assert forall|k: int| 0 <= k < m implies a[k] == #[trigger] b[k] by {
            assert(a.take(m)[k] == b.take(m)[k]);
        }
        lemma_dir_order(a[m], a[m], a[m]);
        if j < m {
            assert(a[j] == b[j]);
            assert(dir_before(a[j], a[m]));
        }
        assert(m < b.len());
        if j > m {
            let q = choose|q: int| 0 <= q < a.len() && a[q] == b[m];
            assert(dir_before(b[m], b[j]));
            lemma_dir_order(b[m], b[j], b[m]);
            if q < m {
                assert(b[q] == a[q]);
                assert(dir_before(b[q], b[m]));
                lemma_dir_order(b[m], b[m], b[m]);
            } else if q > m {
                assert(dir_before(a[m], a[q]));
                lemma_dir_order(a[m], a[q], a[m]);
            }
        }
        assert(a.take(n) =~= b.take(n));
    }
}

/// Directories have one normal form.
pub proof fn law_normal_form_is_unique(
    a: Seq<Seq<Seq<char>>>,
    b: Seq<Seq<Seq<char>>>,
    dirs: Seq<Seq<Seq<char>>>,
)
    requires
        is_normal_form(a, dirs),
        is_normal_form(b, dirs),
    ensures
        a == b,
{
    assert forall|i: int| 0 <= i < a.len() implies b.contains(#[trigger] a[i]) by {
        lemma_normal_within(a, b, dirs, i);
    }
    assert forall|i: int| 0 <= i < b.len() implies a.contains(#[trigger] b[i]) by {
        lemma_normal_within(b, a, dirs, i);
    }
    assert(in_order(a));
    assert(in_order(b));
    lemma_ordered_equal(a, b, a.len() as int);
    lemma_ordered_equal(b, a, b.len() as int);
    assert(a.take(a.len() as int) =~= a);
    assert(b.take(b.len() as int) =~= b);
}

/// A part of a path between two slashes, where it counts: an empty part and a
/// `.` do not.
pub open spec fn name_part(part: Seq<char>) -> Seq<Seq<char>> {
    if part.len() == 0 || part == seq!['.'] {
        seq![]
    } else {
        seq![part]
    }
}

/// The names in a path, of which a part is already read.
pub open spec fn names_from(part: Seq<char>, rest: Seq<char>) -> Seq<Seq<char>>
    decreases rest.len(),
{
    if rest.len() == 0 {
        name_part(part)
    } else if rest[0] == '/' {
        name_part(part) + names_from(seq![], rest.skip(1))
    } else {
        names_from(part.push(rest[0]), rest.skip(1))
    }
}

/// The names in a path, from the first to the last.
pub open spec fn path_names(path: Seq<char>) -> Seq<Seq<char>> {
    names_from(seq![], path)
}

/// A path from the root on.
pub open spec fn from_root(path: Seq<char>) -> bool {
    path.len() > 0 && path[0] == '/'
}

/// A path that says `.` first.
pub open spec fn from_here(path: Seq<char>) -> bool {
    path.len() > 0 && path[0] == '.' && (path.len() == 1 || path[1] == '/')
}

/// Two paths that say the same, part by part: slashes at the end, doubled
/// slashes and a `.` on the way make no difference, a `.` at the start does.
pub open spec fn same_parts(a: Seq<char>, b: Seq<char>) -> bool {
    &&& from_root(a) == from_root(b)
    &&& from_here(a) == from_here(b)
    &&& path_names(a) == path_names(b)
}

fn push_name(names: &mut Vec<String>, part: String)
    ensures
        views(final(names)@) == views(old(names)@) + name_part(part@),
{
    let ghost before = names@;
    proof {
        reveal_strlit("");
        reveal_strlit(".");
        assert(""@ =~= seq![]);
        assert("."@ =~= seq!['.']);
        assert(part@.len() == 0 ==> part@ =~= seq![]);
    }
    if same_text(part.as_str(), "") || same_text(part.as_str(), ".") {
        assert(views(names@) =~= views(before) + seq![]);
    } else {
        let ghost added = part@;
        names.push(part);
        assert(views(names@) =~= views(before) + seq![added]);
    }
}

fn names_in(path: &str) -> (names: Vec<String>)
    ensures
        views(names@) == path_names(path@),
{
    let chars = chars_of(path);
    let mut names: Vec<String> = Vec::new();
    let mut part = String::new();
    let mut i: usize = 0;
    assert(part@ =~= seq![]);
    assert(chars@.skip(0) =~= path@);
    assert(views(names@) + path_names(path@) =~= path_names(path@));
    while i < chars.len()
        invariant
            i <= chars@.len(),
            views(names@) + names_from(part@, chars@.skip(i as int)) == path_names(path@),
        decreases chars.len() - i,
    {
        let ghost rest = chars@.skip(i as int);
        assert(rest.skip(1) =~= chars@.skip(i + 1));
        if chars[i] == '/' {
            let ghost before = views(names@);
            let ghost read = part@;
            push_name(&mut names, part);
            part = String::new();
            assert(part@ =~= seq![]);
            proof {
                let more = names_from(part@, rest.skip(1));
                assert(views(names@) + more =~= before + (name_part(read) + more));
            }
        } else {
            part.push(chars[i]);
        }
        i += 1;
    }
    push_name(&mut names, part);
    names
}

/// Whether two paths say the same, part by part.
pub fn same_path(a: &str, b: &str) -> (same: bool)
    ensures
        same == same_parts(a@, b@),
{
    let x = chars_of(a);
    let y = chars_of(b);
    let root_x = x.len() > 0 && x[0] == '/';
    let root_y = y.len() > 0 && y[0] == '/';
    let here_x = x.len() > 0 && x[0] == '.' && (x.len() == 1 || x[1] == '/');
    let here_y = y.len() > 0 && y[0] == '.' && (y.len() == 1 || y[1] == '/');
    if root_x != root_y || here_x != here_y {
        return false;
    }
    let p = DirPath { names: names_in(a) };
    let q = DirPath { names: names_in(b) };
    p.same(&q)
}

} // verus!
