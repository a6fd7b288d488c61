//! Where skills are looked for, and what is said of those that cannot be used.

use vstd::prelude::*;

use crate::path::{dir_views, lies_in, DirPath};
use crate::seqs::keep;

verus! {

/// Precedence of skills in the user's configuration directory.
pub const XDG_USER_SKILL_SOURCE_PRECEDENCE: u32 = 0;

/// Precedence of skills in the user's home directory.
pub const LEGACY_USER_SKILL_SOURCE_PRECEDENCE: u32 = 1;

/// A directory with skills.
#[derive(Debug)]
pub struct SkillDir {
    pub path: DirPath,
    pub add_to_prompt_by_default: bool,
    pub source_precedence: Option<u32>,
}

/// A directory with skills, as mathematics.
pub struct SkillDirView {
    pub path: Seq<Seq<char>>,
    pub add_to_prompt_by_default: bool,
    pub source_precedence: Option<u32>,
}

impl View for SkillDir {
    type V = SkillDirView;

    open spec fn view(&self) -> SkillDirView {
        SkillDirView {
            path: self.path@,
            add_to_prompt_by_default: self.add_to_prompt_by_default,
            source_precedence: self.source_precedence,
        }
    }
}

/// The views of directories with skills.
pub open spec fn skill_views(dirs: Seq<SkillDir>) -> Seq<SkillDirView> {
    dirs.map_values(|d: SkillDir| d@)
}

/// Whether skills of a project may stand in a directory: never in the root, and
/// for a project below the home directory only below that.
pub open spec fn is_project_dir(
    dir: Seq<Seq<char>>,
    cwd: Seq<Seq<char>>,
    home: Option<Seq<Seq<char>>>,
) -> bool {
    &&& dir.len() > 0
    &&& match home {
        None => true,
        Some(home) => !lies_in(cwd, home) || (lies_in(dir, home) && dir != home),
    }
}

/// The view of an optional directory.
pub open spec fn opt_dir(dir: Option<DirPath>) -> Option<Seq<Seq<char>>> {
    match dir {
        Some(dir) => Some(dir@),
        None => None,
    }
}

/// The directories on the way to the working directory in which skills of the
/// project may stand.
pub fn project_skill_ancestor_dirs(
    ancestors: &Vec<DirPath>,
    cwd: &DirPath,
    home: &Option<DirPath>,
) -> (dirs: Vec<DirPath>)
    ensures
        dir_views(dirs@) == keep(
            dir_views(ancestors@),
            |d: Seq<Seq<char>>| is_project_dir(d, cwd@, opt_dir(*home)),
        ),
{
    let ghost all = dir_views(ancestors@);
    let ghost wanted = |d: Seq<Seq<char>>| is_project_dir(d, cwd@, opt_dir(*home));
    let mut dirs: Vec<DirPath> = Vec::new();
    let mut i: usize = 0;
    assert(dir_views(dirs@) =~= keep(all.take(0), wanted));
    while i < ancestors.len()
        invariant
            i <= ancestors@.len(),
            all == dir_views(ancestors@),
            wanted == (|d: Seq<Seq<char>>| is_project_dir(d, cwd@, opt_dir(*home))),
            dir_views(dirs@) == keep(all.take(i as int), wanted),
        decreases ancestors.len() - i,
    {
        assert(all.take(i + 1).drop_last() =~= all.take(i as int));
        assert(all.take(i + 1).last() == ancestors@[i as int]@);
        let dir = &ancestors[i];
        let inside = match home {
            None => true,
            Some(home) => !cwd.starts_with(home) || (dir.starts_with(home) && !dir.same(home)),
        };
        if !dir.names.is_empty() && inside {
            let ghost before = dirs@;
            let copy = dir.copy();
            dirs.push(copy);
            assert(dir_views(dirs@) =~= dir_views(before).push(copy@));
        }
        i += 1;
    }
    assert(all.take(i as int) =~= all);
    dirs
}

/// A directory with two more names.
pub open spec fn below(dir: Seq<Seq<char>>, first: Seq<char>, second: Seq<char>) -> Seq<Seq<char>> {
    dir.push(first).push(second)
}

/// A directory with one more name.
fn enter(dir: &DirPath, name: &str) -> (inner: DirPath)
    ensures
        inner@ == dir@.push(name@),
{
    let mut inner = dir.copy();
    crate::text::push_text(&mut inner.names, name.to_owned());
    inner
}

/// A directory with skills of a project.
pub open spec fn project_skills(path: Seq<Seq<char>>) -> SkillDirView {
    SkillDirView { path, add_to_prompt_by_default: true, source_precedence: None }
}

/// A directory with skills of the user.
pub open spec fn user_skills(path: Seq<Seq<char>>, precedence: u32) -> SkillDirView {
    SkillDirView { path, add_to_prompt_by_default: false, source_precedence: Some(precedence) }
}

/// The directories of a project in which skills may stand.
pub open spec fn project_candidates(dirs: Seq<Seq<Seq<char>>>) -> Seq<SkillDirView>
    decreases dirs.len(),
{
    if dirs.len() == 0 {
        seq![]
    } else {
        project_candidates(dirs.drop_last()).push(
            project_skills(below(dirs.last(), ".agents"@, "skills"@)),
        ).push(project_skills(below(dirs.last(), ".agents.local"@, "skills"@)))
    }
}

/// The directories of the user in which skills may stand.
pub open spec fn user_candidates(home: Option<Seq<Seq<char>>>) -> Seq<SkillDirView> {
    match home {
        None => seq![],
        Some(home) => seq![
            user_skills(
                below(home.push(".config"@), "agents"@, "skills"@),
                XDG_USER_SKILL_SOURCE_PRECEDENCE,
            ),
            user_skills(
                below(home.push(".config"@), "agents.local"@, "skills"@),
                XDG_USER_SKILL_SOURCE_PRECEDENCE,
            ),
            user_skills(below(home, ".agents"@, "skills"@), LEGACY_USER_SKILL_SOURCE_PRECEDENCE),
            user_skills(
                below(home, ".agents.local"@, "skills"@),
                LEGACY_USER_SKILL_SOURCE_PRECEDENCE,
            ),
        ],
    }
}

fn push_dir(dirs: &mut Vec<SkillDir>, dir: SkillDir)
    ensures
        skill_views(final(dirs)@) == skill_views(old(dirs)@).push(dir@),
{
    let ghost before = dirs@;
    dirs.push(dir);
    assert(skill_views(dirs@) =~= skill_views(before).push(dir@));
}

/// The directories in which skills may stand: those of the project, of which
/// only existing ones count, and then those of the user.
pub fn session_skill_dirs(
    ancestors: &Vec<DirPath>,
    cwd: &Option<DirPath>,
    home: &Option<DirPath>,
) -> (dirs: (Vec<SkillDir>, Vec<SkillDir>))
    ensures
        skill_views(dirs.0@) == match cwd {
            None => seq![],
            Some(cwd) => project_candidates(
                keep(
                    dir_views(ancestors@),
                    |d: Seq<Seq<char>>| is_project_dir(d, cwd@, opt_dir(*home)),
                ),
            ),
        },
        skill_views(dirs.1@) == user_candidates(opt_dir(*home)),
{
    let mut project: Vec<SkillDir> = Vec::new();
    assert(skill_views(project@) =~= seq![]);
    if let Some(cwd) = cwd {
        let found = project_skill_ancestor_dirs(ancestors, cwd, home);
        let ghost all = dir_views(found@);
        let mut i: usize = 0;
        assert(all.take(0) =~= seq![]);
        while i < found.len()
            invariant
                i <= found@.len(),
                all == dir_views(found@),
                skill_views(project@) == project_candidates(all.take(i as int)),
            decreases found.len() - i,
        {
            assert(all.take(i + 1).drop_last() =~= all.take(i as int));
            assert(all.take(i + 1).last() == found@[i as int]@);
            push_dir(
                &mut project,
                SkillDir {
                    path: enter(&enter(&found[i], ".agents"), "skills"),
                    add_to_prompt_by_default: true,
                    source_precedence: None,
                },
            );
            push_dir(
                &mut project,
                SkillDir {
                    path: enter(&enter(&found[i], ".agents.local"), "skills"),
                    add_to_prompt_by_default: true,
                    source_precedence: None,
                },
            );
            i += 1;
        }
        assert(all.take(i as int) =~= all);
    }
    let mut user: Vec<SkillDir> = Vec::new();
    assert(skill_views(user@) =~= seq![]);
    if let Some(home) = home {
        let config = enter(home, ".config");
        push_dir(
            &mut user,
            SkillDir {
                path: enter(&enter(&config, "agents"), "skills"),
                add_to_prompt_by_default: false,
                source_precedence: Some(XDG_USER_SKILL_SOURCE_PRECEDENCE),
            },
        );
        push_dir(
            &mut user,
            SkillDir {
                path: enter(&enter(&config, "agents.local"), "skills"),
                add_to_prompt_by_default: false,
                source_precedence: Some(XDG_USER_SKILL_SOURCE_PRECEDENCE),
            },
        );
        push_dir(
            &mut user,
            SkillDir {
                path: enter(&enter(home, ".agents"), "skills"),
                add_to_prompt_by_default: false,
                source_precedence: Some(LEGACY_USER_SKILL_SOURCE_PRECEDENCE),
            },
        );
        push_dir(
            &mut user,
            SkillDir {
                path: enter(&enter(home, ".agents.local"), "skills"),
                add_to_prompt_by_default: false,
                source_precedence: Some(LEGACY_USER_SKILL_SOURCE_PRECEDENCE),
            },
        );
        assert(skill_views(user@) =~= user_candidates(Some(home@)));
    }
    (project, user)
}

/// What is wrong with a skill.
#[derive(Clone, Copy, Debug, PartialEq, Eq, Structural)]
pub enum DiagnosticKind {
    Warning,
    Collision,
    Skipped,
}

/// How loud a notice is.
#[derive(Clone, Copy, Debug, PartialEq, Eq, Structural)]
pub enum NoticeLevel {
    Trace,
    Info,
    Warning,
    Critical,
}

/// A notice for the harness.
#[derive(Debug)]
pub struct HarnessNotice {
    pub kind: String,
    pub message: String,
    pub level: NoticeLevel,
    pub always_show: bool,
}

/// The word for what is wrong.
pub open spec fn kind_word(kind: DiagnosticKind) -> Seq<char> {
    match kind {
        DiagnosticKind::Warning => "warning"@,
        DiagnosticKind::Collision => "collision"@,
        DiagnosticKind::Skipped => "skipped"@,
    }
}

/// The notice on what is wrong with a skill. Only a skill that is left out is
/// always shown.
pub fn skill_notice(kind: DiagnosticKind, path: &str, message: &str) -> (notice: HarnessNotice)
    ensures
        notice.kind@ == "skill."@ + kind_word(kind),
        notice.message@ == "skill "@ + kind_word(kind) + ": "@ + path@ + "\n"@ + message@,
        notice.level == match kind {
            DiagnosticKind::Warning => NoticeLevel::Info,
            DiagnosticKind::Collision => NoticeLevel::Trace,
            DiagnosticKind::Skipped => NoticeLevel::Warning,
        },
        notice.always_show == (kind == DiagnosticKind::Skipped),
{
    let (word, level) = match kind {
        DiagnosticKind::Warning => ("warning", NoticeLevel::Info),
        DiagnosticKind::Collision => ("collision", NoticeLevel::Trace),
        DiagnosticKind::Skipped => ("skipped", NoticeLevel::Warning),
    };
    let mut name = "skill.".to_owned();
    name.append(word);
    let mut text = "skill ".to_owned();
    text.append(word);
    text.append(": ");
    text.append(path);
    text.append("\n");
    text.append(message);
    let always_show = match level {
        NoticeLevel::Warning => true,
        NoticeLevel::Critical => true,
        _ => false,
    };
    HarnessNotice { kind: name, message: text, level, always_show }
}

} // verus!
