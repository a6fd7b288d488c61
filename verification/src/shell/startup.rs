//! What the extension tells the harness before it takes calls.

use vstd::prelude::*;

use crate::shell::dispatch::SHELL_DIR_FORCE_UNLOCK_ACTION_ID;
use crate::shell::skills::{kind_word, skill_notice, DiagnosticKind, HarnessNotice, NoticeLevel};
use crate::shell::specs::{entry_list, registered_tools, tool_specs, EntryView, ToolEntry};
use crate::text::opt_view;

verus! {

/// The text about the directory of an agent in its prompts.
pub const CWD_FRAGMENT: &'static str =
    "{{#each agent_context.cwd}}{{#if @first}}Current working directory: {{value}}{{/if}}{{/each}}";

/// An event that the extension hears of.
#[derive(Clone, Copy, Debug, PartialEq, Eq, Structural)]
pub enum HeardEvent {
    ToolStarted,
    ToolCancelRequest,
    ActionInvoke,
    AgentStarted,
    AgentLoaded,
    AgentUnloaded,
    AgentMetadataSet,
    AgentMetadataUnset,
    AgentStartAccepted,
    AgentStartResult,
    UiShellCommand,
}

/// A text that becomes part of prompts.
#[derive(Debug, PartialEq, Eq)]
pub struct PromptFragment {
    pub name: String,
    pub priority: u32,
    pub content: String,
}

/// A command of the user, with one argument that takes the rest of the line.
#[derive(Debug, PartialEq, Eq)]
pub struct ActionCommand {
    pub name: String,
    pub description: String,
    pub action_id: String,
    pub argument: String,
    pub argument_description: String,
    pub argument_required: bool,
}

/// A skill that was found.
#[derive(Debug, PartialEq, Eq)]
pub struct Skill {
    pub name: String,
    pub description: String,
    pub file_path: String,
    pub add_to_prompt: bool,
    pub user_invocable: bool,
    pub disable_model_invocation: bool,
    pub argument_hint: Option<String>,
}

/// Something that is wrong with a skill.
#[derive(Debug, PartialEq, Eq)]
pub struct SkillDiagnostic {
    pub kind: DiagnosticKind,
    pub path: String,
    pub message: String,
}

/// A file with instructions for agents.
#[derive(Debug, PartialEq, Eq)]
pub struct AgentsFile {
    pub file_path: String,
    pub content: String,
}

/// What the harness is told.
#[derive(Debug)]
pub enum Announcement {
    Subscribe(Vec<HeardEvent>),
    Register(ToolEntry),
    ContextProvider,
    Fragment(PromptFragment),
    Notice(HarnessNotice),
    SkillAvailable(Skill),
    AgentsFileAvailable(AgentsFile),
    Actions(ActionCommand),
    Ready(String),
}

/// A text that becomes part of prompts, as mathematics.
pub struct FragmentView {
    pub name: Seq<char>,
    pub priority: u32,
    pub content: Seq<char>,
}

/// A command of the user, as mathematics.
pub struct CommandView {
    pub name: Seq<char>,
    pub description: Seq<char>,
    pub action_id: Seq<char>,
    pub argument: Seq<char>,
    pub argument_description: Seq<char>,
    pub argument_required: bool,
}

/// A skill, as mathematics.
pub struct SkillView {
    pub name: Seq<char>,
    pub description: Seq<char>,
    pub file_path: Seq<char>,
    pub add_to_prompt: bool,
    pub user_invocable: bool,
    pub disable_model_invocation: bool,
    pub argument_hint: Option<Seq<char>>,
}

/// Something that is wrong with a skill, as mathematics.
pub struct DiagnosticView {
    pub kind: DiagnosticKind,
    pub path: Seq<char>,
    pub message: Seq<char>,
}

/// A file with instructions, as mathematics.
pub struct AgentsView {
    pub file_path: Seq<char>,
    pub content: Seq<char>,
}

/// A notice, as mathematics.
pub struct NoticeView {
    pub kind: Seq<char>,
    pub message: Seq<char>,
    pub level: NoticeLevel,
    pub always_show: bool,
}

/// What the harness is told, as mathematics.
pub enum AnnouncementView {
    Subscribe(Seq<HeardEvent>),
    Register(EntryView),
    ContextProvider,
    Fragment(FragmentView),
    Notice(NoticeView),
    SkillAvailable(SkillView),
    AgentsFileAvailable(AgentsView),
    Actions(CommandView),
    Ready(Seq<char>),
}

impl View for Skill {
    type V = SkillView;

    open spec fn view(&self) -> SkillView {
        SkillView {
            name: self.name@,
            description: self.description@,
            file_path: self.file_path@,
            add_to_prompt: self.add_to_prompt,
            user_invocable: self.user_invocable,
            disable_model_invocation: self.disable_model_invocation,
            argument_hint: opt_view(self.argument_hint),
        }
    }
}

impl View for SkillDiagnostic {
    type V = DiagnosticView;

    open spec fn view(&self) -> DiagnosticView {
        DiagnosticView { kind: self.kind, path: self.path@, message: self.message@ }
    }
}

impl View for AgentsFile {
    type V = AgentsView;

    open spec fn view(&self) -> AgentsView {
        AgentsView { file_path: self.file_path@, content: self.content@ }
    }
}

impl View for Announcement {
    type V = AnnouncementView;

    open spec fn view(&self) -> AnnouncementView {
        match *self {
            Announcement::Subscribe(names) => AnnouncementView::Subscribe(names@),
            Announcement::Register(entry) => AnnouncementView::Register(entry@),
            Announcement::ContextProvider => AnnouncementView::ContextProvider,
            Announcement::Fragment(fragment) => AnnouncementView::Fragment(
                FragmentView {
                    name: fragment.name@,
                    priority: fragment.priority,
                    content: fragment.content@,
                },
            ),
            Announcement::Notice(notice) => AnnouncementView::Notice(
                NoticeView {
                    kind: notice.kind@,
                    message: notice.message@,
                    level: notice.level,
                    always_show: notice.always_show,
                },
            ),
            Announcement::SkillAvailable(skill) => AnnouncementView::SkillAvailable(skill@),
            Announcement::AgentsFileAvailable(file) => AnnouncementView::AgentsFileAvailable(file@),
            Announcement::Actions(command) => AnnouncementView::Actions(
                CommandView {
                    name: command.name@,
                    description: command.description@,
                    action_id: command.action_id@,
                    argument: command.argument@,
                    argument_description: command.argument_description@,
                    argument_required: command.argument_required,
                },
            ),
            Announcement::Ready(text) => AnnouncementView::Ready(text@),
        }
    }
}

/// The views of a list of announcements.
pub open spec fn told(list: Seq<Announcement>) -> Seq<AnnouncementView> {
    list.map_values(|a: Announcement| a@)
}

/// The events that the extension hears of.
pub open spec fn heard_events() -> Seq<HeardEvent> {
    seq![
        HeardEvent::ToolStarted,
        HeardEvent::ToolCancelRequest,
        HeardEvent::ActionInvoke,
        HeardEvent::AgentStarted,
        HeardEvent::AgentLoaded,
        HeardEvent::AgentUnloaded,
        HeardEvent::AgentMetadataSet,
        HeardEvent::AgentMetadataUnset,
        HeardEvent::AgentStartAccepted,
        HeardEvent::AgentStartResult,
        HeardEvent::UiShellCommand,
    ]
}

/// The text about the directory of an agent.
pub open spec fn cwd_fragment() -> FragmentView {
    FragmentView { name: "shell.cwd"@, priority: 900, content: CWD_FRAGMENT@ }
}

/// The command that gives locks back by force.
pub open spec fn unlock_command() -> CommandView {
    CommandView {
        name: "/shell-dir-force-unlock"@,
        description: "Force-release ext-shell manual directory locks overlapping a directory"@,
        action_id: SHELL_DIR_FORCE_UNLOCK_ACTION_ID@,
        argument: "directory"@,
        argument_description:
            "Existing directory whose overlapping manual locks should be released"@,
        argument_required: true,
    }
}

/// The notice on what is wrong with a skill.
pub open spec fn notice_of(diagnostic: DiagnosticView) -> NoticeView {
    NoticeView {
        kind: "skill."@ + kind_word(diagnostic.kind),
        message: "skill "@ + kind_word(diagnostic.kind) + ": "@ + diagnostic.path + "\n"@
            + diagnostic.message,
        level: match diagnostic.kind {
            DiagnosticKind::Warning => NoticeLevel::Info,
            DiagnosticKind::Collision => NoticeLevel::Trace,
            DiagnosticKind::Skipped => NoticeLevel::Warning,
        },
        always_show: diagnostic.kind == DiagnosticKind::Skipped,
    }
}

/// The views of what was found at the start.
pub open spec fn diagnostic_views(list: Seq<SkillDiagnostic>) -> Seq<DiagnosticView> {
    list.map_values(|d: SkillDiagnostic| d@)
}

/// The views of the skills.
pub open spec fn found_skills(list: Seq<Skill>) -> Seq<SkillView> {
    list.map_values(|s: Skill| s@)
}

/// The views of the files.
pub open spec fn found_files(list: Seq<AgentsFile>) -> Seq<AgentsView> {
    list.map_values(|f: AgentsFile| f@)
}

/// What was found at the start: what is wrong with skills, the skills, and the
/// files with instructions.
pub open spec fn global_startup(
    diagnostics: Seq<DiagnosticView>,
    skills: Seq<SkillView>,
    files: Seq<AgentsView>,
) -> Seq<AnnouncementView> {
    diagnostics.map_values(|d: DiagnosticView| AnnouncementView::Notice(notice_of(d)))
        + skills.map_values(|s: SkillView| AnnouncementView::SkillAvailable(s))
        + files.map_values(|f: AgentsView| AnnouncementView::AgentsFileAvailable(f))
}

/// Everything that the harness is told, in order.
pub open spec fn handshake(
    echo: bool,
    dir_lock: bool,
    diagnostics: Seq<DiagnosticView>,
    skills: Seq<SkillView>,
    files: Seq<AgentsView>,
) -> Seq<AnnouncementView> {
    seq![AnnouncementView::Subscribe(heard_events())]
        + registered_tools(echo, dir_lock).map_values(
        |e: EntryView| AnnouncementView::Register(e),
    ) + seq![
        AnnouncementView::ContextProvider,
        AnnouncementView::Fragment(cwd_fragment()),
        AnnouncementView::Actions(unlock_command()),
    ] + global_startup(diagnostics, skills, files) + seq![
        AnnouncementView::Ready("filesystem and shell tools ready"@),
    ]
}

/// Adds an announcement.
fn tell(list: &mut Vec<Announcement>, announcement: Announcement)
    ensures
        told(final(list)@) == told(old(list)@).push(announcement@),
{
    let ghost before = list@;
    list.push(announcement);
    assert(told(list@) =~= told(before).push(announcement@));
}

/// The events that the extension hears of.
pub fn subscriptions() -> (names: Vec<HeardEvent>)
    ensures
        names@ == heard_events(),
{
    vec![
        HeardEvent::ToolStarted,
        HeardEvent::ToolCancelRequest,
        HeardEvent::ActionInvoke,
        HeardEvent::AgentStarted,
        HeardEvent::AgentLoaded,
        HeardEvent::AgentUnloaded,
        HeardEvent::AgentMetadataSet,
        HeardEvent::AgentMetadataUnset,
        HeardEvent::AgentStartAccepted,
        HeardEvent::AgentStartResult,
        HeardEvent::UiShellCommand,
    ]
}

/// The text about the directory of an agent.
pub fn shell_cwd_prompt_fragment() -> (fragment: PromptFragment)
    ensures
        Announcement::Fragment(fragment)@ == AnnouncementView::Fragment(cwd_fragment()),
{
    PromptFragment {
        name: "shell.cwd".to_owned(),
        priority: 900,
        content: CWD_FRAGMENT.to_owned(),
    }
}

/// The command that gives locks back by force.
pub fn shell_action_schema() -> (command: ActionCommand)
    ensures
        Announcement::Actions(command)@ == AnnouncementView::Actions(unlock_command()),
{
    ActionCommand {
        name: "/shell-dir-force-unlock".to_owned(),
        description:
            "Force-release ext-shell manual directory locks overlapping a directory".to_owned(),
        action_id: SHELL_DIR_FORCE_UNLOCK_ACTION_ID.to_owned(),
        argument: "directory".to_owned(),
        argument_description:
            "Existing directory whose overlapping manual locks should be released".to_owned(),
        argument_required: true,
    }
}

/// Tells what is wrong with skills.
pub fn push_skill_diagnostic_events(
    list: &mut Vec<Announcement>,
    diagnostics: &Vec<SkillDiagnostic>,
)
    ensures
        told(final(list)@) == told(old(list)@) + diagnostic_views(diagnostics@).map_values(
            |d: DiagnosticView| AnnouncementView::Notice(notice_of(d)),
        ),
{
    let ghost before = told(list@);
    let ghost all = diagnostic_views(diagnostics@).map_values(
        |d: DiagnosticView| AnnouncementView::Notice(notice_of(d)),
    );
    assert(before + all.take(0) =~= before);
    let mut i: usize = 0;
    while i < diagnostics.len()
        invariant
            i <= diagnostics@.len(),
            all == diagnostic_views(diagnostics@).map_values(
                |d: DiagnosticView| AnnouncementView::Notice(notice_of(d)),
            ),
            told(list@) == before + all.take(i as int),
        decreases diagnostics.len() - i,
    {
        let found = &diagnostics[i];
        let notice = skill_notice(found.kind, found.path.as_str(), found.message.as_str());
        tell(list, Announcement::Notice(notice));
        assert(all.take(i as int + 1) =~= all.take(i as int).push(all[i as int]));
        assert(told(list@) =~= before + all.take(i as int + 1));
        i += 1;
    }
    assert(all.take(i as int) =~= all);
}

/// What was found at the start.
pub fn build_global_startup_events(
    diagnostics: &Vec<SkillDiagnostic>,
    skills: Vec<Skill>,
    files: Vec<AgentsFile>,
) -> (list: Vec<Announcement>)
    ensures
        told(list@) == global_startup(
            diagnostic_views(diagnostics@),
            found_skills(skills@),
            found_files(files@),
        ),
{
    let mut list: Vec<Announcement> = Vec::new();
    assert(told(list@) =~= seq![]);
    push_skill_diagnostic_events(&mut list, diagnostics);
    let ghost before = told(list@);
    let ghost all = found_skills(skills@).map_values(
        |s: SkillView| AnnouncementView::SkillAvailable(s),
    );
    assert(before + all.take(0) =~= before);
    for skill in iter: skills
        invariant
            iter.seq() == skills@,
            all == found_skills(skills@).map_values(
                |s: SkillView| AnnouncementView::SkillAvailable(s),
            ),
            told(list@) == before + all.take(iter.index() as int),
    {
        tell(&mut list, Announcement::SkillAvailable(skill));
        let ghost i = iter.index() as int;
        assert(all.take(i + 1) =~= all.take(i).push(all[i]));
        assert(told(list@) =~= before + all.take(i + 1));
    }
    assert(all.take(skills@.len() as int) =~= all);
    let ghost middle = told(list@);
    let ghost rest = found_files(files@).map_values(
        |f: AgentsView| AnnouncementView::AgentsFileAvailable(f),
    );
    assert(middle + rest.take(0) =~= middle);
    for file in iter: files
        invariant
            iter.seq() == files@,
            rest == found_files(files@).map_values(
                |f: AgentsView| AnnouncementView::AgentsFileAvailable(f),
            ),
            told(list@) == middle + rest.take(iter.index() as int),
    {
        tell(&mut list, Announcement::AgentsFileAvailable(file));
        let ghost i = iter.index() as int;
        assert(rest.take(i + 1) =~= rest.take(i).push(rest[i]));
        assert(told(list@) =~= middle + rest.take(i + 1));
    }
    assert(rest.take(files@.len() as int) =~= rest);
    list
}

/// Everything that the harness is told before calls are taken, in order.
pub fn startup(
    echo: bool,
    dir_lock: bool,
    diagnostics: &Vec<SkillDiagnostic>,
    skills: Vec<Skill>,
    files: Vec<AgentsFile>,
) -> (list: Vec<Announcement>)
    ensures
        told(list@) == handshake(
            echo,
            dir_lock,
            diagnostic_views(diagnostics@),
            found_skills(skills@),
            found_files(files@),
        ),
{
    let ghost all = registered_tools(echo, dir_lock).map_values(
        |e: EntryView| AnnouncementView::Register(e),
    );
    let mut list: Vec<Announcement> = Vec::new();
    assert(told(list@) =~= seq![]);
    tell(&mut list, Announcement::Subscribe(subscriptions()));
    let ghost first = told(list@);
    assert(first =~= seq![AnnouncementView::Subscribe(heard_events())]);
    let entries = tool_specs(echo, dir_lock);
    let ghost specs = entries@;
    assert(first + all.take(0) =~= first);
    for entry in iter: entries
        invariant
            iter.seq() == specs,
            entry_list(specs) == registered_tools(echo, dir_lock),
            all == registered_tools(echo, dir_lock).map_values(
                |e: EntryView| AnnouncementView::Register(e),
            ),
            told(list@) == first + all.take(iter.index() as int),
    {
        let ghost i = iter.index() as int;
        assert(entry_list(specs)[i] == entry@);
        tell(&mut list, Announcement::Register(entry));
        assert(all.take(i + 1) =~= all.take(i).push(all[i]));
        assert(told(list@) =~= first + all.take(i + 1));
    }
    assert(all.take(specs.len() as int) =~= all);
    tell(&mut list, Announcement::ContextProvider);
    tell(&mut list, Announcement::Fragment(shell_cwd_prompt_fragment()));
    tell(&mut list, Announcement::Actions(shell_action_schema()));
    let mut found = build_global_startup_events(diagnostics, skills, files);
    let ghost before = list@;
    let ghost more = found@;
    list.append(&mut found);
    assert(told(list@) =~= told(before) + told(more));
    tell(&mut list, Announcement::Ready("filesystem and shell tools ready".to_owned()));
    assert(told(list@) =~= handshake(
        echo,
        dir_lock,
        diagnostic_views(diagnostics@),
        found_skills(skills@),
        found_files(files@),
    ));
    list
}

/// The harness is told that the extension is ready exactly once, as the last
/// thing.
pub proof fn law_ready_is_told_last(
    echo: bool,
    dir_lock: bool,
    diagnostics: Seq<DiagnosticView>,
    skills: Seq<SkillView>,
    files: Seq<AgentsView>,
    i: int,
)
    requires
        0 <= i < handshake(echo, dir_lock, diagnostics, skills, files).len(),
    ensures
        handshake(echo, dir_lock, diagnostics, skills, files)[i] is Ready <==> i + 1 == handshake(
            echo,
            dir_lock,
            diagnostics,
            skills,
            files,
        ).len(),
{
}

} // verus!
