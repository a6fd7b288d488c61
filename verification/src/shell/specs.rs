//! The tools that are registered with the harness.

use vstd::prelude::*;

use crate::shell::dir_lock_tool::DIR_LOCK_TOOL_NAME;
use crate::shell::dispatch::{
    is_own_tool, APPLY_PATCH_TOOL_NAME, CD_TOOL_NAME, ECHO_TOOL_NAME, EDIT_TOOL_NAME,
    FIND_TOOL_NAME, GPT_SHELL_TOOL_NAME, GREP_TOOL_NAME, LS_TOOL_NAME, READ_TOOL_NAME,
    SHELL_TOOL_NAME,
};
use crate::shell::tool_texts::{
    APPLY_PATCH_DESCRIPTION, CD_DESCRIPTION, CD_PARAMETERS, DIR_LOCK_DESCRIPTION,
    DIR_LOCK_PARAMETERS, ECHO_DESCRIPTION, EDIT_DESCRIPTION, EDIT_PARAMETERS, FIND_DESCRIPTION,
    FIND_PARAMETERS, GPT_SHELL_DESCRIPTION, GPT_SHELL_PARAMETERS, GREP_DESCRIPTION,
    GREP_PARAMETERS, LS_DESCRIPTION, LS_PARAMETERS, READ_DESCRIPTION, READ_PARAMETERS,
    SHELL_DESCRIPTION, SHELL_PARAMETERS,
};
use crate::text::{opt_view, push_text, views};

verus! {

/// What decides whether and how a tool is offered to a model.
#[derive(Debug, PartialEq, Eq)]
pub struct ToolEntry {
    pub name: String,
    /// The name that models see, where it is another.
    pub model_visible_name: Option<String>,
    /// Whether the tool takes a text instead of arguments.
    pub takes_text: bool,
    /// What the tool does.
    pub description: String,
    /// The JSON schema of its arguments.
    pub parameters: Option<String>,
    pub tags: Vec<String>,
    pub enabled_by_default: bool,
    pub group: String,
}

/// What decides whether and how a tool is offered, as mathematics.
pub struct EntryView {
    pub name: Seq<char>,
    pub model_visible_name: Option<Seq<char>>,
    pub takes_text: bool,
    pub description: Seq<char>,
    pub parameters: Option<Seq<char>>,
    pub tags: Seq<Seq<char>>,
    pub enabled_by_default: bool,
    pub group: Seq<char>,
}

impl View for ToolEntry {
    type V = EntryView;

    open spec fn view(&self) -> EntryView {
        EntryView {
            name: self.name@,
            model_visible_name: opt_view(self.model_visible_name),
            takes_text: self.takes_text,
            description: self.description@,
            parameters: opt_view(self.parameters),
            tags: views(self.tags@),
            enabled_by_default: self.enabled_by_default,
            group: self.group@,
        }
    }
}

/// The views of a list of entries.
pub open spec fn entry_list(entries: Seq<ToolEntry>) -> Seq<EntryView> {
    entries.map_values(|e: ToolEntry| e@)
}

/// A tool of the shell group.
pub open spec fn shell_entry(
    name: Seq<char>,
    description: Seq<char>,
    parameters: Option<Seq<char>>,
    tags: Seq<Seq<char>>,
    enabled: bool,
) -> EntryView {
    EntryView {
        name,
        model_visible_name: None,
        takes_text: false,
        description,
        parameters,
        tags,
        enabled_by_default: enabled,
        group: "shell"@,
    }
}

/// The tool that locks directories: offered, and tagged, where locking is on.
pub open spec fn dir_lock_entry(enabled: bool) -> EntryView {
    shell_entry(
        DIR_LOCK_TOOL_NAME@,
        DIR_LOCK_DESCRIPTION@,
        Some(DIR_LOCK_PARAMETERS@),
        if enabled {
            seq!["shell:lock"@]
        } else {
            seq![]
        },
        enabled,
    )
}

/// The tools, in the order in which they are registered.
pub open spec fn registered_tools(echo: bool, dir_lock: bool) -> Seq<EntryView> {
    (if echo {
        seq![
            EntryView {
                group: "test"@,
                ..shell_entry(ECHO_TOOL_NAME@, ECHO_DESCRIPTION@, None, seq!["test:echo"@], false)
            },
        ]
    } else {
        seq![]
    }) + seq![
        shell_entry(
            READ_TOOL_NAME@,
            READ_DESCRIPTION@,
            Some(READ_PARAMETERS@),
            seq!["shell:read"@],
            true,
        ),
        shell_entry(
            EDIT_TOOL_NAME@,
            EDIT_DESCRIPTION@,
            Some(EDIT_PARAMETERS@),
            seq!["shell:edit"@, "shell:edit:line"@, "shell:mutates-files"@],
            true,
        ),
        EntryView {
            takes_text: true,
            ..shell_entry(
                APPLY_PATCH_TOOL_NAME@,
                APPLY_PATCH_DESCRIPTION@,
                None,
                seq!["shell:edit"@, "shell:edit:apply_patch"@, "shell:mutates-files"@],
                false,
            )
        },
        dir_lock_entry(dir_lock),
        shell_entry(
            GREP_TOOL_NAME@,
            GREP_DESCRIPTION@,
            Some(GREP_PARAMETERS@),
            seq!["shell:read"@, "shell:search"@],
            true,
        ),
        shell_entry(
            FIND_TOOL_NAME@,
            FIND_DESCRIPTION@,
            Some(FIND_PARAMETERS@),
            seq!["shell:read"@, "shell:search"@],
            true,
        ),
        shell_entry(
            LS_TOOL_NAME@,
            LS_DESCRIPTION@,
            Some(LS_PARAMETERS@),
            seq!["shell:read"@, "shell:list"@],
            true,
        ),
        shell_entry(CD_TOOL_NAME@, CD_DESCRIPTION@, Some(CD_PARAMETERS@), seq!["shell:cd"@], true),
        shell_entry(
            SHELL_TOOL_NAME@,
            SHELL_DESCRIPTION@,
            Some(SHELL_PARAMETERS@),
            seq!["shell:exec"@, "shell:exec:generic"@],
            true,
        ),
        EntryView {
            model_visible_name: Some("shell_command"@),
            ..shell_entry(
                GPT_SHELL_TOOL_NAME@,
                GPT_SHELL_DESCRIPTION@,
                Some(GPT_SHELL_PARAMETERS@),
                seq!["shell:exec"@, "shell:exec:shell_command"@],
                false,
            )
        },
    ]
}

/// A tool of the shell group with up to three tags; an empty one is none.
fn tool_entry(
    name: &str,
    description: &str,
    parameters: Option<&str>,
    first: &str,
    second: &str,
    third: &str,
    enabled: bool,
) -> (entry: ToolEntry)
    ensures
        entry@ == shell_entry(
            name@,
            description@,
            match parameters {
                Some(text) => Some(text@),
                None => None,
            },
            tags_of(first@, second@, third@),
            enabled,
        ),
{
    let mut tags: Vec<String> = Vec::new();
    assert(views(tags@) =~= seq![]);
    if !first.is_empty() {
        push_text(&mut tags, first.to_owned());
    }
    if !second.is_empty() {
        push_text(&mut tags, second.to_owned());
    }
    if !third.is_empty() {
        push_text(&mut tags, third.to_owned());
    }
    assert(views(tags@) =~= tags_of(first@, second@, third@));
    ToolEntry {
        name: name.to_owned(),
        model_visible_name: None,
        takes_text: false,
        description: description.to_owned(),
        parameters: match parameters {
            Some(text) => Some(text.to_owned()),
            None => None,
        },
        tags,
        enabled_by_default: enabled,
        group: "shell".to_owned(),
    }
}

/// A tag, where it is one.
pub open spec fn tag_of(tag: Seq<char>) -> Seq<Seq<char>> {
    if tag.len() > 0 {
        seq![tag]
    } else {
        seq![]
    }
}

/// The tags among three texts.
pub open spec fn tags_of(first: Seq<char>, second: Seq<char>, third: Seq<char>) -> Seq<Seq<char>> {
    tag_of(first) + tag_of(second) + tag_of(third)
}

/// The tool that locks directories.
pub fn dir_lock_tool_spec(enabled: bool) -> (entry: ToolEntry)
    ensures
        entry@ == dir_lock_entry(enabled),
{
    proof {
        reveal_strlit("");
        reveal_strlit("shell:lock");
        assert(tags_of("shell:lock"@, ""@, ""@) =~= seq!["shell:lock"@]);
        assert(tags_of(""@, ""@, ""@) =~= seq![]);
    }
    if enabled {
        tool_entry(
            DIR_LOCK_TOOL_NAME,
            DIR_LOCK_DESCRIPTION,
            Some(DIR_LOCK_PARAMETERS),
            "shell:lock",
            "",
            "",
            true,
        )
    } else {
        tool_entry(
            DIR_LOCK_TOOL_NAME,
            DIR_LOCK_DESCRIPTION,
            Some(DIR_LOCK_PARAMETERS),
            "",
            "",
            "",
            false,
        )
    }
}

/// Adds an entry.
fn push_entry(entries: &mut Vec<ToolEntry>, entry: ToolEntry)
    ensures
        entry_list(final(entries)@) == entry_list(old(entries)@).push(entry@),
{
    let ghost before = entries@;
    entries.push(entry);
    assert(entry_list(entries@) =~= entry_list(before).push(entry@));
}

/// The tools, in the order in which they are registered.
pub fn tool_specs(echo: bool, dir_lock: bool) -> (entries: Vec<ToolEntry>)
    ensures
        entry_list(entries@) == registered_tools(echo, dir_lock),
{
    proof {
        lemma_tags();
    }
    let mut entries: Vec<ToolEntry> = Vec::new();
    assert(entry_list(entries@) =~= seq![]);
    if echo {
        let mut entry = tool_entry(
            ECHO_TOOL_NAME,
            ECHO_DESCRIPTION,
            None,
            "test:echo",
            "",
            "",
            false,
        );
        entry.group = "test".to_owned();
        push_entry(&mut entries, entry);
    }
    push_entry(
        &mut entries,
        tool_entry(
            READ_TOOL_NAME,
            READ_DESCRIPTION,
            Some(READ_PARAMETERS),
            "shell:read",
            "",
            "",
            true,
        ),
    );
    push_entry(
        &mut entries,
        tool_entry(
            EDIT_TOOL_NAME,
            EDIT_DESCRIPTION,
            Some(EDIT_PARAMETERS),
            "shell:edit",
            "shell:edit:line",
            "shell:mutates-files",
            true,
        ),
    );
    let mut patch = tool_entry(
        APPLY_PATCH_TOOL_NAME,
        APPLY_PATCH_DESCRIPTION,
        None,
        "shell:edit",
        "shell:edit:apply_patch",
        "shell:mutates-files",
        false,
    );
    patch.takes_text = true;
    push_entry(&mut entries, patch);
    push_entry(&mut entries, dir_lock_tool_spec(dir_lock));
    push_entry(
        &mut entries,
        tool_entry(
            GREP_TOOL_NAME,
            GREP_DESCRIPTION,
            Some(GREP_PARAMETERS),
            "shell:read",
            "shell:search",
            "",
            true,
        ),
    );
    push_entry(
        &mut entries,
        tool_entry(
            FIND_TOOL_NAME,
            FIND_DESCRIPTION,
            Some(FIND_PARAMETERS),
            "shell:read",
            "shell:search",
            "",
            true,
        ),
    );
    push_entry(
        &mut entries,
        tool_entry(
            LS_TOOL_NAME,
            LS_DESCRIPTION,
            Some(LS_PARAMETERS),
            "shell:read",
            "shell:list",
            "",
            true,
        ),
    );
    push_entry(
        &mut entries,
        tool_entry(
            CD_TOOL_NAME,
            CD_DESCRIPTION,
            Some(CD_PARAMETERS),
            "shell:cd",
            "",
            "",
            true,
        ),
    );
    push_entry(
        &mut entries,
        tool_entry(
            SHELL_TOOL_NAME,
            SHELL_DESCRIPTION,
            Some(SHELL_PARAMETERS),
            "shell:exec",
            "shell:exec:generic",
            "",
            true,
        ),
    );
    let mut gpt = tool_entry(
        GPT_SHELL_TOOL_NAME,
        GPT_SHELL_DESCRIPTION,
        Some(GPT_SHELL_PARAMETERS),
        "shell:exec",
        "shell:exec:shell_command",
        "",
        false,
    );
    gpt.model_visible_name = Some("shell_command".to_owned());
    push_entry(&mut entries, gpt);
    assert(entry_list(entries@) =~= registered_tools(echo, dir_lock));
    entries
}

/// The tags of the tools are what they are written as.
proof fn lemma_tags()
    ensures
        tags_of("test:echo"@, ""@, ""@) == seq!["test:echo"@],
        tags_of("shell:read"@, ""@, ""@) == seq!["shell:read"@],
        tags_of("shell:cd"@, ""@, ""@) == seq!["shell:cd"@],
        tags_of("shell:read"@, "shell:search"@, ""@) == seq!["shell:read"@, "shell:search"@],
        tags_of("shell:read"@, "shell:list"@, ""@) == seq!["shell:read"@, "shell:list"@],
        tags_of("shell:exec"@, "shell:exec:generic"@, ""@) == seq![
            "shell:exec"@,
            "shell:exec:generic"@,
        ],
        tags_of("shell:exec"@, "shell:exec:shell_command"@, ""@) == seq![
            "shell:exec"@,
            "shell:exec:shell_command"@,
        ],
        tags_of("shell:edit"@, "shell:edit:line"@, "shell:mutates-files"@) == seq![
            "shell:edit"@,
            "shell:edit:line"@,
            "shell:mutates-files"@,
        ],
        tags_of("shell:edit"@, "shell:edit:apply_patch"@, "shell:mutates-files"@) == seq![
            "shell:edit"@,
            "shell:edit:apply_patch"@,
            "shell:mutates-files"@,
        ],
{
    reveal_strlit("");
    reveal_strlit("test:echo");
    reveal_strlit("shell:read");
    reveal_strlit("shell:cd");
    reveal_strlit("shell:search");
    reveal_strlit("shell:list");
    reveal_strlit("shell:exec");
    reveal_strlit("shell:exec:generic");
    reveal_strlit("shell:exec:shell_command");
    reveal_strlit("shell:edit");
    reveal_strlit("shell:edit:line");
    reveal_strlit("shell:edit:apply_patch");
    reveal_strlit("shell:mutates-files");
    assert(tags_of("test:echo"@, ""@, ""@) =~= seq!["test:echo"@]);
    assert(tags_of("shell:read"@, ""@, ""@) =~= seq!["shell:read"@]);
    assert(tags_of("shell:cd"@, ""@, ""@) =~= seq!["shell:cd"@]);
    assert(tags_of("shell:read"@, "shell:search"@, ""@) =~= seq!["shell:read"@, "shell:search"@]);
    assert(tags_of("shell:read"@, "shell:list"@, ""@) =~= seq!["shell:read"@, "shell:list"@]);
    assert(tags_of("shell:exec"@, "shell:exec:generic"@, ""@) =~= seq![
        "shell:exec"@,
        "shell:exec:generic"@,
    ]);
    assert(tags_of("shell:exec"@, "shell:exec:shell_command"@, ""@) =~= seq![
        "shell:exec"@,
        "shell:exec:shell_command"@,
    ]);
    assert(tags_of("shell:edit"@, "shell:edit:line"@, "shell:mutates-files"@) =~= seq![
        "shell:edit"@,
        "shell:edit:line"@,
        "shell:mutates-files"@,
    ]);
    assert(tags_of("shell:edit"@, "shell:edit:apply_patch"@, "shell:mutates-files"@) =~= seq![
        "shell:edit"@,
        "shell:edit:apply_patch"@,
        "shell:mutates-files"@,
    ]);
}

/// Every tool that is registered is one that the extension takes calls of, and
/// the tool that locks directories is offered where, and only where, locking is
/// on.
pub proof fn law_registered_tools_are_served(echo: bool, dir_lock: bool, i: int)
    requires
        0 <= i < registered_tools(echo, dir_lock).len(),
    ensures
        is_own_tool(registered_tools(echo, dir_lock)[i].name, echo),
        registered_tools(echo, dir_lock)[i].name == DIR_LOCK_TOOL_NAME@
            ==> registered_tools(echo, dir_lock)[i].enabled_by_default == dir_lock,
{
    let at = if echo {
        i - 1
    } else {
        i
    };
    assert(at == -1 || at == 0 || at == 1 || at == 2 || at == 3 || at == 4 || at == 5 || at == 6
        || at == 7 || at == 8 || at == 9);
    reveal_strlit("dir_lock");
    reveal_strlit("echo");
    reveal_strlit("read");
    reveal_strlit("edit");
    reveal_strlit("apply_patch");
    reveal_strlit("grep");
    reveal_strlit("find");
    reveal_strlit("ls");
    reveal_strlit("cd");
    reveal_strlit("shell");
    reveal_strlit("gpt_shell");
    assert(DIR_LOCK_TOOL_NAME@.len() == 8);
    assert(ECHO_TOOL_NAME@.len() == 4);
    assert(READ_TOOL_NAME@.len() == 4);
    assert(EDIT_TOOL_NAME@.len() == 4);
    assert(APPLY_PATCH_TOOL_NAME@.len() == 11);
    assert(GREP_TOOL_NAME@.len() == 4);
    assert(FIND_TOOL_NAME@.len() == 4);
    assert(LS_TOOL_NAME@.len() == 2);
    assert(CD_TOOL_NAME@.len() == 2);
    assert(SHELL_TOOL_NAME@.len() == 5);
    assert(GPT_SHELL_TOOL_NAME@.len() == 9);
}

} // verus!
