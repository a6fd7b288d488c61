//! Laws of what the extension does with the messages of the harness.

use vstd::prelude::*;

use crate::shell::config::{isolation_changes, ConfigView};
use crate::shell::dispatch::{at_most, is_own_tool, priority_of};
use crate::shell::event::{EventView, StartedView};
use crate::shell::run::{queued_size, HarnessMessage, Incoming, Job, ShellView};
use crate::shell::scheduler::{Lanes, SchedulerConfig, WorkItem, WorkPriority};
use crate::shell::user_shell::UiShellCommand;
use crate::text::{opt_view, utf8_len};

verus! {

/// Whether there is room for work in the queues.
pub open spec fn has_room<T>(
    lanes: Lanes<T>,
    limits: SchedulerConfig,
    priority: WorkPriority,
    bytes: nat,
) -> bool {
    &&& lanes.control.len() + lanes.user.len() + lanes.cheap.len() + lanes.bulk.len()
        < limits.total_limit
    &&& match priority {
        WorkPriority::Control => lanes.control.len() < limits.control_limit,
        WorkPriority::User => lanes.user.len() < limits.user_limit,
        WorkPriority::Cheap => lanes.cheap.len() < limits.cheap_limit,
        WorkPriority::Bulk => lanes.bulk.len() < limits.bulk_limit,
    }
    &&& lanes.bytes() + bytes <= limits.queued_bytes_limit
}

/// A call of one of the extension's tools is queued, under the configuration of the
/// moment and behind the work that came before it, where there is room. Where there is
/// none it is refused, and nothing is queued. In neither case is anything else changed.
pub proof fn law_call_is_queued(
    state: ShellView,
    call: StartedView,
    after: ShellView,
    events: Seq<EventView>,
)
    requires
        is_own_tool(call.tool_name, state.echo),
        state.limits.queued_bytes_limit < usize::MAX,
        state.tool_started(call, false, after, events),
    ensures
        ({
            let priority = priority_of(call);
            let before = state.lanes.lane(priority);
            let bytes = queued_size(call, state.limits.queued_bytes_limit) as nat;
            &&& has_room(state.lanes, state.limits, priority, bytes) ==> {
                &&& events.len() == 0
                &&& after.lanes.lane(priority).len() == before.len() + 1
                &&& after.lanes.lane(priority).drop_last() == before
                &&& after.lanes.lane(priority).last().job matches Job::Tool { call: queued, config }
                    && queued@ == call && config@ == state.config
                &&& opt_view(after.lanes.lane(priority).last().meta.call_id) == Some(call.call_id)
                &&& opt_view(after.lanes.lane(priority).last().meta.agent_id) == Some(call.agent_id)
                &&& forall|other: WorkPriority|
                    other != priority ==> #[trigger] after.lanes.lane(other) == state.lanes.lane(
                        other,
                    )
            }
            &&& !has_room(state.lanes, state.limits, priority, bytes) ==> {
                &&& after == state
                &&& events.len() == 1
                &&& events[0] matches EventView::ToolError { call_id, tool_name, .. } && call_id
                    == call.call_id && tool_name == call.tool_name
            }
            &&& after.locks == state.locks
            &&& after.cwd == state.cwd
            &&& after.config == state.config
        }),
{
    let priority = priority_of(call);
    let before = state.lanes.lane(priority);
    let bytes = queued_size(call, state.limits.queued_bytes_limit);
    if has_room(state.lanes, state.limits, priority, bytes as nat) {
        assert(crate::shell::scheduler::refusal(state.lanes, state.limits, priority, bytes) is None);
        let item = choose|item: WorkItem<Job>| #[trigger]
            crate::shell::run::is_tool_job(
                item,
                call,
                state.config,
                state.limits.queued_bytes_limit,
            ) && after == (ShellView {
                lanes: state.lanes.with_lane(priority, before.push(item)),
                ..state
            });
        assert(after.lanes.lane(priority) == before.push(item));
        assert(after.lanes.lane(priority).drop_last() =~= before);
    }
}

/// A command of the user is queued as it was given, where there is room, and else
/// answered with the reason why it is not.
pub proof fn law_user_command_is_queued(
    state: ShellView,
    cmd: UiShellCommand,
    after: ShellView,
    events: Seq<EventView>,
)
    requires
        state.limits.queued_bytes_limit < usize::MAX,
        utf8_len(cmd.command@) <= usize::MAX,
        state.user_command(cmd, after, events),
    ensures
        has_room(state.lanes, state.limits, WorkPriority::User, utf8_len(cmd.command@)) ==> {
            &&& events.len() == 0
            &&& after.lanes.user.len() == state.lanes.user.len() + 1
            &&& after.lanes.user.drop_last() == state.lanes.user
            &&& after.lanes.user.last().job matches Job::UserShell { cmd: queued, config } && queued
                == cmd && config@ == state.config.shell
            &&& after.lanes.control == state.lanes.control
            &&& after.lanes.bulk == state.lanes.bulk
        },
        !has_room(state.lanes, state.limits, WorkPriority::User, utf8_len(cmd.command@)) ==> {
            &&& after == state
            &&& events.len() == 1
            &&& events[0] matches EventView::ShellCommandFinished {
                command_id,
                command,
                exit_code,
                cancelled,
                ..
            } && command_id == cmd.command_id@ && command == cmd.command@ && exit_code is None
                && !cancelled
        },
{
    if has_room(state.lanes, state.limits, WorkPriority::User, utf8_len(cmd.command@)) {
        let item = choose|item: WorkItem<Job>| #[trigger]
            crate::shell::run::is_user_job(item, cmd, state.config.shell) && after == (ShellView {
                lanes: state.lanes.with_lane(WorkPriority::User, state.lanes.user.push(item)),
                ..state
            });
        assert(after.lanes.user == state.lanes.user.push(item));
        assert(after.lanes.user.drop_last() =~= state.lanes.user);
    }
}

/// An agent that is loaded is told its directory: that which is kept for it, else
/// that of the process.
pub proof fn law_loaded_agent_is_told_its_directory(
    state: ShellView,
    agent: String,
    replay: bool,
    after: ShellView,
    events: Seq<EventView>,
    signal: Option<Seq<char>>,
)
    requires
        state.delivered(Incoming::AgentLoaded { agent_id: agent }, replay, after, events, signal),
    ensures
        after == state,
        events.len() == 2,
        events[0] == (EventView::AgentContextPublish {
            agent_id: agent@,
            key: "cwd"@,
            value: if state.cwd.cwd.dom().contains(agent@) {
                state.cwd.cwd[agent@]
            } else {
                state.default_cwd
            },
        }),
        events[1] == (EventView::ExtensionContextReady { agent_id: agent@ }),
{
}

/// A configuration is put in force as it is given, but for a working directory that
/// it leaves out. To turn locking off gives up the manual locks; to turn it on or off
/// is told.
pub proof fn law_configuration_is_put_in_force(
    state: ShellView,
    config: ConfigView,
    instance: Option<Seq<char>>,
    changed: Result<Seq<char>, Seq<char>>,
)
    requires
        config.working_directory is None,
    ensures
        ({
            let (after, events) = state.configure(Ok(config), instance, changed);
            state.config.working_directory is None ==> {
                &&& after.config == config
                &&& after.default_cwd == state.default_cwd
                &&& after.lanes == state.lanes
                &&& after.cwd.cwd == state.cwd.cwd
                &&& instance matches Some(name) ==> after.cwd.instance == name
                &&& instance is None ==> after.cwd.instance == state.cwd.instance
                &&& config.dir_lock.enable || !state.config.dir_lock.enable ==> after.locks
                    == state.locks
                &&& state.config.dir_lock.enable && !config.dir_lock.enable
                    ==> after.locks.manual.len() == 0 && after.locks.waiters.len() == 0
                    && after.locks.automatic == state.locks.automatic
                &&& config.dir_lock.enable == state.config.dir_lock.enable ==> events.len() == 0
                &&& config.dir_lock.enable != state.config.dir_lock.enable ==> events == seq![
                    EventView::DirLockToolRegister { enabled: config.dir_lock.enable },
                ]
            }
        }),
{
}

/// A configuration that cannot be read changes nothing, and is told in the words of
/// the error.
pub proof fn law_bad_configuration_changes_nothing(
    state: ShellView,
    message: Seq<char>,
    instance: Option<Seq<char>>,
    changed: Result<Seq<char>, Seq<char>>,
)
    ensures
        state.configure(Err(message), instance, changed) == (
            state,
            seq![EventView::ConfigError { message }],
        ),
{
}

/// The working directory can be set before the first event, and is then the one that
/// the process is in; afterwards it cannot be.
pub proof fn law_working_directory_is_set_once(
    state: ShellView,
    config: ConfigView,
    path: Seq<char>,
    dir: Seq<char>,
    error: Seq<char>,
)
    requires
        state.config.working_directory is None,
        config.working_directory == Some(path),
    ensures
        !state.started ==> {
            let (after, _) = state.configure(Ok(config), None, Ok(dir));
            let (failed, told) = state.configure(Ok(config), None, Err(error));
            &&& after.default_cwd == dir
            &&& after.config == config
            &&& failed == state
            &&& told.len() == 1
            &&& told[0] matches EventView::ConfigError { message } && error.is_suffix_of(message)
        },
        state.started ==> {
            let (after, told) = state.configure(Ok(config), None, Ok(dir));
            after == state && told.len() == 1 && told[0] is ConfigError
        },
{
    let message = "failed to set ext-shell working_directory to "@ + path + ": "@ + error;
    assert(message.subrange(message.len() - error.len(), message.len() as int) =~= error);
}

/// The end of the connection stops the extension, and drops the work that is queued;
/// nothing else stops it.
pub proof fn law_disconnect_stops(
    state: ShellView,
    message: HarnessMessage,
    after: ShellView,
    events: Seq<EventView>,
    signal: Option<Seq<char>>,
    stop: bool,
)
    requires
        state.stepped(message, after, events, signal, stop),
    ensures
        stop == (message is Disconnect),
        message is Disconnect ==> events.len() == 0 && after.lanes.control.len() == 0
            && after.lanes.user.len() == 0 && after.lanes.cheap.len() == 0 && after.lanes.bulk.len()
            == 0,
{
}

/// The agent that a query started is remembered until the query ends; then its locks
/// and its work go, and no other agent's owner is forgotten.
pub proof fn law_query_ends_with_its_agent(
    state: ShellView,
    query: Seq<char>,
    agent: Seq<char>,
    other: Seq<char>,
)
    requires
        other != query,
    ensures
        ({
            let known = ShellView { owners: state.owners.insert(query, agent), ..state };
            let after = known.start_result(query);
            &&& after.locks == state.locks.release_agent(agent)
            &&& after.lanes == state.lanes.release_agent(agent)
            &&& !after.owners.dom().contains(query)
            &&& after.owners.dom().contains(other) == state.owners.dom().contains(other)
            &&& state.owners.dom().contains(other) ==> after.owners[other] == state.owners[other]
        }),
{
}

/// A command sees a terminal that can do nothing, and no colours.
pub proof fn law_commands_see_no_terminal()
    ensures
        isolation_changes().len() == 4,
        isolation_changes()[0].key == "TERM"@ && isolation_changes()[0].value == Some("dumb"@),
        isolation_changes()[1].key == "NO_COLOR"@ && isolation_changes()[1].value == Some("1"@),
        isolation_changes()[2].key == "CLICOLOR"@ && isolation_changes()[2].value == Some("0"@),
        isolation_changes()[3].key == "CARGO_MANIFEST_DIR"@ && isolation_changes()[3].value is None,
{
}

/// The size of work counts in full up to the limit, and no further than that it is
/// over it.
pub proof fn law_size_counts_up_to_the_limit(n: nat, limit: usize)
    requires
        limit < usize::MAX,
    ensures
        n <= limit ==> at_most(n, (limit + 1) as usize) == n,
        n > limit ==> at_most(n, (limit + 1) as usize) == limit + 1,
{
}

} // verus!
