//! Which directory a call locks, given what the file system said.

use vstd::prelude::*;

use crate::path::{path_text, DirPath};
use crate::shell::display::{failure_with_args, FailureView, ToolFailure};
use crate::text::opt_view;

verus! {

/// What the file system said of a path.
#[derive(Debug)]
pub enum Lookup {
    /// There is nothing that could be reached.
    Missing { error: String },
    /// There is something that could not be looked at.
    Hidden { at: DirPath, error: String },
    /// There is something that is no directory.
    File { at: DirPath },
    /// There is a directory.
    Dir { at: DirPath },
}

/// What the file system said of a path, as mathematics.
pub enum LookupView {
    Missing { error: Seq<char> },
    Hidden { at: Seq<Seq<char>>, error: Seq<char> },
    File { at: Seq<Seq<char>> },
    Dir { at: Seq<Seq<char>> },
}

impl View for Lookup {
    type V = LookupView;

    open spec fn view(&self) -> LookupView {
        match self {
            Lookup::Missing { error } => LookupView::Missing { error: error@ },
            Lookup::Hidden { at, error } => LookupView::Hidden { at: at@, error: error@ },
            Lookup::File { at } => LookupView::File { at: at@ },
            Lookup::Dir { at } => LookupView::Dir { at: at@ },
        }
    }
}

/// The views of a list of lookups.
pub open spec fn lookup_views(list: Seq<Lookup>) -> Seq<LookupView> {
    list.map_values(|l: Lookup| l@)
}

/// The view of a directory that was found, or of why there is none.
pub open spec fn dir_result(found: Result<DirPath, String>) -> Result<Seq<Seq<char>>, Seq<char>> {
    match found {
        Ok(dir) => Ok(dir@),
        Err(message) => Err(message@),
    }
}

/// The view of a directory that is locked, or of the failure of its call.
pub open spec fn lock_result(found: Result<DirPath, ToolFailure>) -> Result<
    Seq<Seq<char>>,
    FailureView,
> {
    match found {
        Ok(dir) => Ok(dir@),
        Err(f) => Err(f@),
    }
}

/// The directory at a path, or why there is none.
pub open spec fn existing_dir(path: Seq<char>, found: LookupView) -> Result<
    Seq<Seq<char>>,
    Seq<char>,
> {
    match found {
        LookupView::Missing { error } => Err(
            "directory "@ + path + " does not exist: "@ + error,
        ),
        LookupView::Hidden { at, error } => Err(
            "failed to stat directory "@ + path_text(at) + ": "@ + error,
        ),
        LookupView::File { at } => Err(path_text(at) + " is not a directory"@),
        LookupView::Dir { at } => Ok(at),
    }
}

/// The directory at a path, or why there is none.
pub fn canonical_existing_dir(path: &str, found: &Lookup) -> (dir: Result<DirPath, String>)
    ensures
        dir_result(dir) == existing_dir(path@, found@),
{
    match found {
        Lookup::Missing { error } => {
            let mut message = "directory ".to_owned();
            message.append(path);
            message.append(" does not exist: ");
            message.append(error.as_str());
            Err(message)
        },
        Lookup::Hidden { at, error } => {
            let mut message = "failed to stat directory ".to_owned();
            message.append(at.display().as_str());
            message.append(": ");
            message.append(error.as_str());
            Err(message)
        },
        Lookup::File { at } => {
            let mut message = at.display();
            message.append(" is not a directory");
            Err(message)
        },
        Lookup::Dir { at } => Ok(at.copy()),
    }
}

/// The first directory among what was found at a path and above it.
pub open spec fn first_dir(found: Seq<LookupView>) -> Option<Seq<Seq<char>>>
    decreases found.len(),
{
    if found.len() == 0 {
        None
    } else {
        match found[0] {
            LookupView::Dir { at } => Some(at),
            _ => first_dir(found.drop_first()),
        }
    }
}

/// The deepest directory at a path or above it, or why there is none.
pub open spec fn deepest_dir(path: Seq<char>, found: Seq<LookupView>) -> Result<
    Seq<Seq<char>>,
    Seq<char>,
> {
    match first_dir(found) {
        Some(at) => Ok(at),
        None => Err("no existing ancestor directory for "@ + path),
    }
}

/// The deepest directory at a path or above it, given what was found at the path,
/// at the directory above it, and so on up.
pub fn canonical_deepest_existing_ancestor(path: &str, found: &Vec<Lookup>) -> (dir: Result<
    DirPath,
    String,
>)
    ensures
        dir_result(dir) == deepest_dir(path@, lookup_views(found@)),
{
    let ghost all = lookup_views(found@);
    assert(all.skip(0) =~= all);
    let mut i: usize = 0;
    while i < found.len()
        invariant
            i <= found@.len(),
            all == lookup_views(found@),
            first_dir(all) == first_dir(all.skip(i as int)),
        decreases found.len() - i,
    {
        assert(all.skip(i as int)[0] == found[i as int]@);
        if let Lookup::Dir { at } = &found[i] {
            return Ok(at.copy());
        }
        assert(all.skip(i as int).drop_first() =~= all.skip(i as int + 1));
        i += 1;
    }
    assert(all.skip(i as int) =~= seq![]);
    let mut message = "no existing ancestor directory for ".to_owned();
    message.append(path);
    Err(message)
}

/// A failure that shows a path.
pub open spec fn path_failure(path: Seq<char>, message: Seq<char>) -> FailureView {
    failure_with_args(message, path)
}

/// A failure that shows a path.
fn fail_at(path: &str, message: String) -> (f: ToolFailure)
    ensures
        f@ == path_failure(path@, message@),
{
    ToolFailure::new(message).with_args(path.to_owned())
}

/// Where a path leads, and the directory that this lies in, where there is one.
#[derive(Debug)]
pub struct Target {
    pub path: String,
    pub parent: Option<String>,
}

/// The directory that is locked while a file is written. The file may be new, and
/// so may directories above it.
pub open spec fn write_lock_dir(
    path: Seq<char>,
    target: Result<(Seq<char>, Option<Seq<char>>), Seq<char>>,
    found: Seq<LookupView>,
) -> Result<Seq<Seq<char>>, FailureView> {
    match target {
        Err(error) => Err(path_failure(path, "failed to resolve "@ + path + ": "@ + error)),
        Ok((led_to, None)) => Err(
            path_failure(path, "path "@ + led_to + " has no parent directory"@),
        ),
        Ok((_, Some(parent))) => match deepest_dir(parent, found) {
            Ok(at) => Ok(at),
            Err(message) => Err(path_failure(path, message)),
        },
    }
}

/// The view of where a path leads.
pub open spec fn target_view(target: Result<Target, String>) -> Result<
    (Seq<char>, Option<Seq<char>>),
    Seq<char>,
> {
    match target {
        Ok(target) => Ok((target.path@, opt_view(target.parent))),
        Err(error) => Err(error@),
    }
}

/// Why the target of a path is not known.
fn unresolved(path: &str, error: &str) -> (f: ToolFailure)
    ensures
        f@ == path_failure(path@, "failed to resolve "@ + path@ + ": "@ + error@),
{
    let mut message = "failed to resolve ".to_owned();
    message.append(path);
    message.append(": ");
    message.append(error);
    fail_at(path, message)
}

/// A path that lies in no directory.
fn no_parent(path: &str, led_to: &str) -> (f: ToolFailure)
    ensures
        f@ == path_failure(path@, "path "@ + led_to@ + " has no parent directory"@),
{
    let mut message = "path ".to_owned();
    message.append(led_to);
    message.append(" has no parent directory");
    fail_at(path, message)
}

/// The directory that is locked while a file is written, given where its path
/// leads and what was found from there up.
pub fn canonical_write_lock_dir(
    path: &str,
    target: &Result<Target, String>,
    found: &Vec<Lookup>,
) -> (dir: Result<DirPath, ToolFailure>)
    ensures
        lock_result(dir) == write_lock_dir(path@, target_view(*target), lookup_views(found@)),
{
    let target = match target {
        Ok(target) => target,
        Err(error) => {
            return Err(unresolved(path, error.as_str()));
        },
    };
    match &target.parent {
        None => Err(no_parent(path, target.path.as_str())),
        Some(parent) => match canonical_deepest_existing_ancestor(parent.as_str(), found) {
            Ok(at) => Ok(at),
            Err(message) => Err(fail_at(path, message)),
        },
    }
}

/// The directory of a file that is there.
pub open spec fn file_parent(path: Seq<char>, found: LookupView) -> Result<
    Seq<Seq<char>>,
    FailureView,
> {
    match found {
        LookupView::Missing { error } => Err(
            path_failure(path, "file "@ + path + " does not exist: "@ + error),
        ),
        LookupView::Hidden { at, error } => Err(
            path_failure(path, "failed to stat file "@ + path_text(at) + ": "@ + error),
        ),
        LookupView::Dir { at } => Err(
            path_failure(path, path_text(at) + " is a directory, not a file"@),
        ),
        LookupView::File { at } => if at.len() == 0 {
            Err(path_failure(path, "file "@ + path_text(at) + " has no parent directory"@))
        } else {
            Ok(at.drop_last())
        },
    }
}

/// The directory that a path lies in.
fn parent_of(dir: &DirPath) -> (parent: Option<DirPath>)
    ensures
        match parent {
            Some(parent) => dir@.len() > 0 && parent@ == dir@.drop_last(),
            None => dir@.len() == 0,
        },
{
    let mut copy = dir.copy();
    if copy.names.len() == 0 {
        assert(dir@ =~= seq![]);
        return None;
    }
    let ghost before = copy;
    let _ = copy.names.pop();
    assert(copy@ =~= before@.drop_last());
    Some(copy)
}

/// The directory of a file that is there, given what was found at its path.
pub fn canonical_existing_file_parent(path: &str, found: &Lookup) -> (dir: Result<
    DirPath,
    ToolFailure,
>)
    ensures
        lock_result(dir) == file_parent(path@, found@),
{
    match found {
        Lookup::Missing { error } => {
            let mut message = "file ".to_owned();
            message.append(path);
            message.append(" does not exist: ");
            message.append(error.as_str());
            Err(fail_at(path, message))
        },
        Lookup::Hidden { at, error } => {
            let mut message = "failed to stat file ".to_owned();
            message.append(at.display().as_str());
            message.append(": ");
            message.append(error.as_str());
            Err(fail_at(path, message))
        },
        Lookup::Dir { at } => {
            let mut message = at.display();
            message.append(" is a directory, not a file");
            Err(fail_at(path, message))
        },
        Lookup::File { at } => match parent_of(at) {
            Some(parent) => Ok(parent),
            None => {
                let mut message = "file ".to_owned();
                message.append(at.display().as_str());
                message.append(" has no parent directory");
                Err(fail_at(path, message))
            },
        },
    }
}

/// The directory that a path lies in, whether or not there is something at the
/// path.
pub open spec fn path_parent(
    path: Seq<char>,
    target: Result<(Seq<char>, Option<Seq<char>>), Seq<char>>,
    found: LookupView,
) -> Result<Seq<Seq<char>>, FailureView> {
    match target {
        Err(error) => Err(path_failure(path, "failed to resolve "@ + path + ": "@ + error)),
        Ok((absolute, None)) => Err(
            path_failure(path, "path "@ + absolute + " has no parent directory"@),
        ),
        Ok((_, Some(parent))) => match existing_dir(parent, found) {
            Ok(at) => Ok(at),
            Err(message) => Err(path_failure(path, message)),
        },
    }
}

/// The directory that a path lies in, given the whole path and what was found at
/// the directory above it.
pub fn canonical_path_parent(path: &str, target: &Result<Target, String>, found: &Lookup) -> (dir:
    Result<DirPath, ToolFailure>)
    ensures
        lock_result(dir) == path_parent(path@, target_view(*target), found@),
{
    let target = match target {
        Ok(target) => target,
        Err(error) => {
            return Err(unresolved(path, error.as_str()));
        },
    };
    match &target.parent {
        None => Err(no_parent(path, target.path.as_str())),
        Some(parent) => match canonical_existing_dir(parent.as_str(), found) {
            Ok(at) => Ok(at),
            Err(message) => Err(fail_at(path, message)),
        },
    }
}

/// What stands at a path, a link not followed.
#[derive(Debug)]
pub enum Standing {
    Link,
    Other,
    Nothing,
    Unknown { error: String },
}

/// The directory that is locked while a file is changed in place: that of the
/// file which a link leads to, else that of the path.
pub open spec fn update_lock_dir(
    path: Seq<char>,
    standing: Standing,
    at_path: LookupView,
    target: Result<(Seq<char>, Option<Seq<char>>), Seq<char>>,
    at_parent: LookupView,
) -> Result<Seq<Seq<char>>, FailureView> {
    match standing {
        Standing::Link => file_parent(path, at_path),
        Standing::Other => path_parent(path, target, at_parent),
        Standing::Nothing => path_parent(path, target, at_parent),
        Standing::Unknown { error } => Err(
            path_failure(path, "failed to stat file "@ + path + ": "@ + error@),
        ),
    }
}

/// The directory that is locked while a file is changed in place.
pub fn canonical_update_lock_dir(
    path: &str,
    standing: &Standing,
    at_path: &Lookup,
    target: &Result<Target, String>,
    at_parent: &Lookup,
) -> (dir: Result<DirPath, ToolFailure>)
    ensures
        lock_result(dir) == update_lock_dir(
            path@,
            *standing,
            at_path@,
            target_view(*target),
            at_parent@,
        ),
{
    match standing {
        Standing::Link => canonical_existing_file_parent(path, at_path),
        Standing::Other => canonical_path_parent(path, target, at_parent),
        Standing::Nothing => canonical_path_parent(path, target, at_parent),
        Standing::Unknown { error } => {
            let mut message = "failed to stat file ".to_owned();
            message.append(path);
            message.append(": ");
            message.append(error.as_str());
            Err(fail_at(path, message))
        },
    }
}

/// The directory that a command runs in is locked.
pub open spec fn shell_cwd(path: Seq<char>, found: LookupView) -> Result<
    Seq<Seq<char>>,
    FailureView,
> {
    match existing_dir(path, found) {
        Ok(at) => Ok(at),
        Err(message) => Err(path_failure(path, message)),
    }
}

/// The directory that a command runs in, given what was found there.
pub fn canonical_shell_cwd(path: &str, found: &Lookup) -> (dir: Result<DirPath, ToolFailure>)
    ensures
        lock_result(dir) == shell_cwd(path@, found@),
{
    match canonical_existing_dir(path, found) {
        Ok(at) => Ok(at),
        Err(message) => Err(fail_at(path, message)),
    }
}

/// The directory that is locked while a file is written is the deepest one there
/// is: nothing between it and the file is a directory. A lock is had wherever
/// there is a directory at all.
pub proof fn law_lock_is_the_deepest_directory(
    path: Seq<char>,
    led_to: Seq<char>,
    parent: Seq<char>,
    found: Seq<LookupView>,
)
    ensures
        match write_lock_dir(path, Ok((led_to, Some(parent))), found) {
            Ok(at) => exists|i: int|
                #![trigger found[i]]
                0 <= i < found.len() && found[i] == (LookupView::Dir { at }) && forall|j: int|
                    0 <= j < i ==> !(#[trigger] found[j] is Dir),
            Err(_) => forall|i: int| 0 <= i < found.len() ==> !(#[trigger] found[i] is Dir),
        },
    decreases found.len(),
{
    if found.len() > 0 && !(found[0] is Dir) {
        let rest = found.drop_first();
        law_lock_is_the_deepest_directory(path, led_to, parent, rest);
        match first_dir(rest) {
            Some(at) => {
                let i = choose|i: int|
                    #![trigger rest[i]]
                    0 <= i < rest.len() && rest[i] == (LookupView::Dir { at }) && forall|j: int|
                        0 <= j < i ==> !(#[trigger] rest[j] is Dir);
                assert(found[i + 1] == rest[i]);
                assert forall|j: int| 0 <= j < i + 1 implies !(#[trigger] found[j] is Dir) by {
                    if j > 0 {
                        assert(found[j] == rest[j - 1]);
                    }
                }
            },
            None => {
                assert forall|i: int| 0 <= i < found.len() implies !(#[trigger] found[i] is Dir) by {
                    if i > 0 {
                        assert(found[i] == rest[i - 1]);
                    }
                }
            },
        }
    }
}

} // verus!
