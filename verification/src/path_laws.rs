//! Laws of paths.

use vstd::prelude::*;

use crate::path::{name_part, names_from, path_names, path_text};
use crate::text::join_of;

verus! {

/// Whether a text is the name of a directory: it is not empty, does not stand for the
/// directory itself and holds no slash.
pub open spec fn is_name(name: Seq<char>) -> bool {
    name.len() > 0 && name != seq!['.'] && !name.contains('/')
}

/// The names before a slash come before those behind it.
proof fn lemma_split(part: Seq<char>, a: Seq<char>, b: Seq<char>)
    ensures
        names_from(part, a + seq!['/'] + b) == names_from(part, a) + names_from(seq![], b),
    decreases a.len(),
{
    let whole = a + seq!['/'] + b;
    if a.len() == 0 {
        assert(whole.skip(1) =~= b);
    } else {
        assert(whole[0] == a[0]);
        assert(whole.skip(1) =~= a.skip(1) + seq!['/'] + b);
        if a[0] == '/' {
            lemma_split(seq![], a.skip(1), b);
            assert(name_part(part) + (names_from(seq![], a.skip(1)) + names_from(seq![], b))
                =~= name_part(part) + names_from(seq![], a.skip(1)) + names_from(seq![], b));
        } else {
            lemma_split(part.push(a[0]), a.skip(1), b);
        }
    }
}

/// A text without a slash is one name.
proof fn lemma_one_name(part: Seq<char>, a: Seq<char>)
    requires
        !a.contains('/'),
    ensures
        names_from(part, a) == name_part(part + a),
    decreases a.len(),
{
    if a.len() == 0 {
        assert(part + a =~= part);
    } else {
        assert(a.contains(a[0]));
        assert forall|i: int| 0 <= i < a.skip(1).len() implies a.skip(1)[i] != '/' by {
            assert(a.contains(a[i + 1]));
        }
        lemma_one_name(part.push(a[0]), a.skip(1));
        assert(part.push(a[0]) + a.skip(1) =~= part + a);
    }
}

/// The names of joined names are those names.
proof fn lemma_joined(dir: Seq<Seq<char>>)
    requires
        forall|i: int| 0 <= i < dir.len() ==> is_name(#[trigger] dir[i]),
    ensures
        path_names(join_of(dir, "/"@)) == dir,
    decreases dir.len(),
{
    reveal_strlit("/");
    assert("/"@ =~= seq!['/']);
    let none = Seq::<char>::empty();
    if dir.len() == 0 {
        assert(join_of(dir, "/"@) =~= none);
        assert(path_names(none) =~= dir);
    } else {
        let front = dir.drop_last();
        let last = dir.last();
        assert forall|i: int| 0 <= i < front.len() implies is_name(#[trigger] front[i]) by {
            assert(front[i] == dir[i]);
        }
        assert(is_name(dir[dir.len() - 1]));
        lemma_joined(front);
        lemma_one_name(none, last);
        assert(none + last =~= last);
        if dir.len() == 1 {
            assert(join_of(dir, "/"@) =~= last);
            assert(path_names(last) =~= dir);
        } else {
            lemma_split(none, join_of(front, "/"@), last);
            assert(join_of(dir, "/"@) =~= join_of(front, "/"@) + seq!['/'] + last);
            assert(front + seq![last] =~= dir);
        }
    }
}

/// The text of a directory names that directory, and no other has the same text.
pub proof fn law_path_text_names_its_directory(dir: Seq<Seq<char>>, other: Seq<Seq<char>>)
    requires
        forall|i: int| 0 <= i < dir.len() ==> is_name(#[trigger] dir[i]),
        forall|i: int| 0 <= i < other.len() ==> is_name(#[trigger] other[i]),
    ensures
        path_names(path_text(dir)) == dir,
        path_text(dir) == path_text(other) ==> dir == other,
        path_text(dir)[0] == '/',
{
    lemma_text(dir);
    lemma_text(other);
    reveal_strlit("/");
}

/// The names in the text of a directory.
proof fn lemma_text(dir: Seq<Seq<char>>)
    requires
        forall|i: int| 0 <= i < dir.len() ==> is_name(#[trigger] dir[i]),
    ensures
        path_names(path_text(dir)) == dir,
{
    reveal_strlit("/");
    assert("/"@ =~= seq!['/']);
    let none = Seq::<char>::empty();
    lemma_joined(dir);
    lemma_split(none, none, join_of(dir, "/"@));
    assert(none + seq!['/'] + join_of(dir, "/"@) =~= path_text(dir));
    assert(names_from(none, none) =~= seq![]);
    assert(path_names(path_text(dir)) =~= dir);
}

/// Names stay as they are when a path is written with a slash more between them, or
/// with a step to the directory itself.
pub proof fn law_empty_steps_lead_nowhere(a: Seq<char>, b: Seq<char>)
    ensures
        path_names(a + seq!['/', '/'] + b) == path_names(a + seq!['/'] + b),
        path_names(a + seq!['/', '.', '/'] + b) == path_names(a + seq!['/'] + b),
{
    let none = Seq::<char>::empty();
    lemma_split(none, a, b);
    assert(a + seq!['/', '/'] + b =~= (a + seq!['/']) + seq!['/'] + b);
    lemma_split(none, a + seq!['/'], b);
    assert((a + seq!['/']) =~= a + seq!['/'] + none);
    lemma_split(none, a, none);
    assert(names_from(none, none) =~= seq![]);
    assert(names_from(none, a) + names_from(none, none) =~= names_from(none, a));
    let dot = seq!['.'];
    assert(!dot.contains('/'));
    assert(a + seq!['/', '.', '/'] + b =~= (a + seq!['/'] + dot) + seq!['/'] + b);
    lemma_split(none, a + seq!['/'] + dot, b);
    lemma_split(none, a, dot);
    lemma_one_name(none, dot);
    assert(none + dot =~= dot);
    assert(names_from(none, a) + names_from(none, dot) =~= names_from(none, a));
}

} // verus!
