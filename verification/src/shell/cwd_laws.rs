//! Laws of the working directories of agents, and of what the harness is told.

use vstd::prelude::*;

use crate::path::same_parts;
use crate::shell::cwd_state::{cwd_key, CwdView, PendingView};
use crate::shell::event::EventView;
use crate::shell::run::{cd_confirmed, cd_failed, cd_output, MetadataItem, ShellView};
use crate::shell::startup::{
    global_startup, handshake, notice_of, AgentsView, AnnouncementView, DiagnosticView, SkillView,
};
use crate::value::{lemma_first_entry, text_field, Cbor};

verus! {

/// An agent is in the directory that the harness keeps for it, and every other agent
/// stays where it is. The directory is published, and an agent that is owed a notice
/// is told.
pub proof fn law_agent_is_where_the_harness_says(
    state: ShellView,
    agent: Seq<char>,
    other: Seq<char>,
    cwd: Seq<char>,
    replay: bool,
)
    requires
        other != agent,
    ensures
        ({
            let (after, sent) = state.metadata_set(
                agent,
                cwd_key(state.cwd.instance),
                Cbor::Text(cwd),
                replay,
            );
            &&& after.cwd_of(agent) == cwd
            &&& after.cwd_of(other) == state.cwd_of(other)
            &&& after.default_cwd == state.default_cwd
            &&& replay ==> sent.len() == 0
            &&& !replay ==> sent.len() > 0 && sent[0] == EventView::AgentContextPublish {
                agent_id: agent,
                key: "cwd"@,
                value: cwd,
            }
            &&& !replay && state.cwd.notices.dom().contains(agent) ==> sent.contains(
                EventView::AgentUserMessageInjected {
                    agent_id: agent,
                    text: "Your working directory changed to "@ + cwd + "."@,
                },
            )
            &&& !replay ==> !after.cwd.notices.dom().contains(agent)
                && !after.cwd.pending.dom().contains(agent)
            &&& !replay && state.cwd.pending.dom().contains(agent) ==> sent.last() == cd_confirmed(
                state.cwd.pending[agent],
                cwd,
            )
        }),
{
    let sent = state.metadata_set(
        agent,
        cwd_key(state.cwd.instance),
        Cbor::Text(cwd),
        replay,
    ).1;
    if !replay && state.cwd.notices.dom().contains(agent) {
        assert(sent[1] == EventView::AgentUserMessageInjected {
            agent_id: agent,
            text: "Your working directory changed to "@ + cwd + "."@,
        });
    }
}

/// A change of directory is answered to the call that asked for it: with the
/// directory where it is the one that was asked for, else with an error.
pub proof fn law_change_of_directory_is_answered(
    pending: PendingView,
    cwd: Seq<char>,
    message: Seq<char>,
)
    requires
        pending.lock_wait is None,
    ensures
        same_parts(pending.expected_cwd, cwd) ==> (cd_confirmed(pending, cwd) matches
            EventView::ToolResult { call_id, tool_name, result, originator, .. } && call_id
            == pending.call.call_id && tool_name == pending.call.tool_name && originator
            == pending.call.originator && text_field(result, "cwd"@) == Some(cwd)),
        !same_parts(pending.expected_cwd, cwd) ==> (cd_confirmed(pending, cwd) matches
            EventView::ToolError { call_id, message, .. } && call_id == pending.call.call_id
            && cwd.is_suffix_of(message)),
        cd_failed(pending, message) matches EventView::ToolError {
            call_id,
            tool_name,
            message: told,
            originator,
            ..
        } && call_id == pending.call.call_id && tool_name == pending.call.tool_name && told
            == message && originator == pending.call.originator,
{
    lemma_first_entry(cd_output(cwd).result->Dict_0, "cwd"@, 0);
    let told = "committed cwd metadata did not match requested cwd; cwd changed to "@ + cwd;
    assert(told.subrange(told.len() - cwd.len(), told.len() as int) =~= cwd);
}

/// An agent whose directory the harness keeps no longer is in the directory of the
/// process again.
pub proof fn law_agent_falls_back_to_the_process(
    state: ShellView,
    agent: Seq<char>,
    other: Seq<char>,
    replay: bool,
)
    requires
        other != agent,
    ensures
        ({
            let (after, sent) = state.metadata_unset(agent, cwd_key(state.cwd.instance), replay);
            &&& after.cwd_of(agent) == state.default_cwd
            &&& after.cwd_of(other) == state.cwd_of(other)
            &&& replay ==> sent.len() == 0
            &&& !replay ==> sent.len() > 0 && sent[0] == EventView::AgentContextPublish {
                agent_id: agent,
                key: "cwd"@,
                value: state.default_cwd,
            }
            &&& !replay && state.cwd.pending.dom().contains(agent) ==> sent.last() is ToolError
        }),
        state.agent_unloaded(agent).cwd_of(agent) == state.default_cwd,
        state.agent_unloaded(agent).cwd_of(other) == state.cwd_of(other),
{
}

/// What the harness keeps under other names is not about directories.
pub proof fn law_other_metadata_is_ignored(
    state: ShellView,
    agent: Seq<char>,
    key: Seq<char>,
    value: Cbor,
    replay: bool,
)
    requires
        key != cwd_key(state.cwd.instance),
    ensures
        state.metadata_set(agent, key, value, replay) == (state, Seq::<EventView>::empty()),
        state.metadata_unset(agent, key, replay) == (state, Seq::<EventView>::empty()),
{
}

/// An agent that is started with a directory is in it.
pub proof fn law_agent_starts_in_its_directory(
    state: ShellView,
    agent: Seq<char>,
    other: Seq<char>,
    metadata: Seq<MetadataItem>,
    cwd: Seq<char>,
)
    requires
        metadata.len() > 0,
        metadata.last().key@ == cwd_key(state.cwd.instance),
        metadata.last().value@ == Cbor::Text(cwd),
        other != agent,
    ensures
        state.agent_started(agent, metadata).cwd_of(agent) == cwd,
        state.agent_started(agent, metadata).cwd_of(other) == state.cwd_of(other),
{
    lemma_started_keeps_others(state, agent, other, metadata);
}

proof fn lemma_started_keeps_others(
    state: ShellView,
    agent: Seq<char>,
    other: Seq<char>,
    metadata: Seq<MetadataItem>,
)
    requires
        other != agent,
    ensures
        state.agent_started(agent, metadata).cwd_of(other) == state.cwd_of(other),
        state.agent_started(agent, metadata).default_cwd == state.default_cwd,
    decreases metadata.len(),
{
    if metadata.len() > 0 {
        lemma_started_keeps_others(state, agent, other, metadata.drop_last());
    }
}

/// A call that is to be cancelled while it is queued is taken out of the queue and
/// reported as cancelled; one that runs is left to its worker.
pub proof fn law_cancelled_call_is_told(state: ShellView, call: Seq<char>)
    ensures
        ({
            let (after, sent, stopped) = state.cancel_request(call);
            &&& state.lanes.lane_of_call(call) is None && state.running.contains(call) ==> stopped
                == Some(call) && sent.len() == 0 && after == state
            &&& forall|k: int|
                0 <= k < sent.len() ==> (#[trigger] sent[k] matches EventView::ToolCancelled {
                    call_id,
                    ..
                } && call_id == call)
            &&& after.cwd == state.cwd && after.config == state.config && after.running
                == state.running
        }),
{
}

/// At the start the harness is told of every skill, of every file with instructions
/// and of everything that is wrong with skills, each as it was found.
pub proof fn law_everything_found_is_told(
    echo: bool,
    dir_lock: bool,
    diagnostics: Seq<DiagnosticView>,
    skills: Seq<SkillView>,
    files: Seq<AgentsView>,
    k: int,
)
    ensures
        0 <= k < skills.len() ==> handshake(echo, dir_lock, diagnostics, skills, files).contains(
            AnnouncementView::SkillAvailable(skills[k]),
        ),
        0 <= k < files.len() ==> handshake(echo, dir_lock, diagnostics, skills, files).contains(
            AnnouncementView::AgentsFileAvailable(files[k]),
        ),
        0 <= k < diagnostics.len() ==> handshake(
            echo,
            dir_lock,
            diagnostics,
            skills,
            files,
        ).contains(AnnouncementView::Notice(notice_of(diagnostics[k]))),
        0 <= k < diagnostics.len() ==> diagnostics[k].message.is_suffix_of(
            notice_of(diagnostics[k]).message,
        ),
        global_startup(diagnostics, skills, files).len() == diagnostics.len() + skills.len()
            + files.len(),
{
    let found = global_startup(diagnostics, skills, files);
    let all = handshake(echo, dir_lock, diagnostics, skills, files);
    let n = all.len() - 1 - found.len();
    if 0 <= k < diagnostics.len() {
        assert(all[n + k] == found[k]);
        let told = notice_of(diagnostics[k]).message;
        let words = diagnostics[k].message;
        assert(told.subrange(told.len() - words.len(), told.len() as int) =~= words);
    }
    if 0 <= k < skills.len() {
        assert(all[n + diagnostics.len() + k] == found[diagnostics.len() + k]);
    }
    if 0 <= k < files.len() {
        assert(all[n + diagnostics.len() + skills.len() + k] == found[diagnostics.len()
            + skills.len() + k]);
    }
}

/// Nothing is left of an agent that is forgotten, and all is left of every other.
pub proof fn law_only_one_agent_is_forgotten(state: CwdView, agent: Seq<char>, other: Seq<char>)
    requires
        other != agent,
    ensures
        ({
            let after = state.forget(agent);
            &&& !after.cwd.dom().contains(agent)
            &&& !after.notices.dom().contains(agent)
            &&& !after.pending.dom().contains(agent)
            &&& after.cwd.dom().contains(other) == state.cwd.dom().contains(other)
            &&& after.notices.dom().contains(other) == state.notices.dom().contains(other)
            &&& after.pending.dom().contains(other) == state.pending.dom().contains(other)
            &&& state.cwd.dom().contains(other) ==> after.cwd[other] == state.cwd[other]
        }),
{
}

} // verus!
