//! Configured actions: what is checked of them and what they lead to.

use vstd::prelude::*;

use crate::notifications::template::{
    basename_of, cwd_basename, fill_in, filled_in, filling, ContextView, Place, TemplateContext,
};
use crate::shell::command::NANOS_PER_SEC;
use crate::text::{push_text, views};

verus! {

/// The user variable that makes a terminal play a sound.
pub const SOUND_VAR_NAME: &'static str = "user-notification";

/// The user variable that makes a terminal show a text.
pub const TEXT_VAR_NAME: &'static str = "user-text-notification";

/// The sound of a turn that starts.
pub const VALUE_AGENT_START: &'static str = "protoss-probe-ack";

/// The sound of a turn that ends.
pub const VALUE_AGENT_END: &'static str = "protoss-upgrade-complete";

/// An OSC 1337 user variable to be set. Both parts are templates.
#[derive(Debug)]
pub struct Osc1337Config {
    pub key: String,
    pub value: String,
}

/// An action.
#[derive(Debug)]
pub struct HookConfig {
    /// Ring the terminal's bell.
    pub bell: bool,
    /// Run a command. Every part of it is a template.
    pub command: Option<Vec<String>>,
    /// Set a user variable.
    pub osc1337: Option<Osc1337Config>,
}

/// An action for an idle agent.
#[derive(Debug)]
pub struct IdleHookConfig {
    pub hook: HookConfig,
    /// Seconds after which the action is run.
    pub delay_seconds: Option<u64>,
    /// Whether the agent is first asked for a summary.
    pub agent_summary: bool,
}

/// How the extension is configured.
#[derive(Debug)]
pub struct ExtConfig {
    /// Run when a prompt of the user starts a turn.
    pub agent_start: Vec<HookConfig>,
    /// Run when a turn reaches its final response.
    pub agent_end: Vec<HookConfig>,
    /// Run after one agent stayed idle.
    pub agent_idle: Vec<IdleHookConfig>,
    /// Run after every agent stayed idle.
    pub agent_idle_all: Vec<IdleHookConfig>,
}

/// How the extension is configured, as mathematics.
#[verifier::ext_equal]
pub struct ConfigView {
    pub agent_start: Seq<HookConfig>,
    pub agent_end: Seq<HookConfig>,
    pub agent_idle: Seq<IdleHookConfig>,
    pub agent_idle_all: Seq<IdleHookConfig>,
}

impl View for ExtConfig {
    type V = ConfigView;

    open spec fn view(&self) -> ConfigView {
        ConfigView {
            agent_start: self.agent_start@,
            agent_end: self.agent_end@,
            agent_idle: self.agent_idle@,
            agent_idle_all: self.agent_idle_all@,
        }
    }
}

/// Nothing is configured.
pub open spec fn no_config() -> ConfigView {
    ConfigView {
        agent_start: seq![],
        agent_end: seq![],
        agent_idle: seq![],
        agent_idle_all: seq![],
    }
}

impl Default for ExtConfig {
    fn default() -> (config: Self)
        ensures
            config@ == no_config(),
    {
        ExtConfig {
            agent_start: Vec::new(),
            agent_end: Vec::new(),
            agent_idle: Vec::new(),
            agent_idle_all: Vec::new(),
        }
    }
}

/// After how long an idle action is run, in nanoseconds.
pub open spec fn delay_of(hook: IdleHookConfig, default_delay: u128) -> u128 {
    match hook.delay_seconds {
        Some(secs) => (secs * NANOS_PER_SEC) as u128,
        None => default_delay,
    }
}

impl IdleHookConfig {
    /// After how long the action is run, in nanoseconds.
    pub fn delay_duration(&self, default_delay: u128) -> (delay: u128)
        ensures
            delay == delay_of(*self, default_delay),
    {
        match self.delay_seconds {
            Some(secs) => {
                assert(secs * NANOS_PER_SEC <= u64::MAX * 1_000_000_000) by (nonlinear_arith)
                    requires
                        secs <= u64::MAX,
                        NANOS_PER_SEC == 1_000_000_000,
                ;
                secs as u128 * NANOS_PER_SEC
            },
            None => default_delay,
        }
    }
}

/// What is wrong with a configuration.
#[derive(Debug)]
pub struct ConfigFault {
    /// What the extension says of it.
    pub about: String,
    /// What was said when a template was filled in, where that failed.
    pub said: Option<String>,
}

/// What is wrong with a configuration, as mathematics. Of what was said of a
/// template only that there was something: its words are left to chance.
pub struct FaultView {
    pub about: Seq<char>,
    pub said: bool,
}

impl View for ConfigFault {
    type V = FaultView;

    open spec fn view(&self) -> FaultView {
        FaultView { about: self.about@, said: self.said is Some }
    }
}

impl ConfigFault {
    /// The fault as a text.
    pub fn message(&self) -> (message: String)
        ensures
            message@ == match self.said {
                Some(said) => self.about@ + said@,
                None => self.about@,
            },
    {
        let mut message = self.about.clone();
        if let Some(said) = &self.said {
            message.append(said.as_str());
        }
        message
    }
}

/// A fault that needs no more words.
pub fn plain_fault(about: String) -> (fault: ConfigFault)
    ensures
        fault.about@ == about@,
        fault.said is None,
        fault@ == (FaultView { about: about@, said: false }),
{
    ConfigFault { about, said: None }
}

/// A template that cannot be filled in, and what was said of it.
pub fn template_fault(name: &str, part: &str, said: String) -> (fault: ConfigFault)
    ensures
        fault.about@ == name@ + part@,
        fault.said matches Some(words) && words@ == said@,
        fault@ == (FaultView { about: name@ + part@, said: true }),
{
    let mut about = name.to_owned();
    about.append(part);
    ConfigFault { about, said: Some(said) }
}

/// What is wrong with a configuration, and everything that may have been said of
/// the template that could not be filled in.
pub struct Fault {
    pub about: Seq<char>,
    pub words: Option<Set<Seq<char>>>,
}

impl Fault {
    /// The fault without what may have been said.
    pub open spec fn seen(self) -> FaultView {
        FaultView { about: self.about, said: self.words is Some }
    }

    /// Whether this is the fault that is told.
    pub open spec fn is_told_by(self, fault: ConfigFault) -> bool {
        &&& fault.about@ == self.about
        &&& match (fault.said, self.words) {
            (Some(said), Some(words)) => words.contains(said@),
            (None, None) => true,
            _ => false,
        }
    }
}

/// A fault that needs no more words, as mathematics.
pub open spec fn plain(about: Seq<char>) -> Fault {
    Fault { about, words: None }
}

/// A template that cannot be filled in, as mathematics.
pub open spec fn failed_template(
    name: Seq<char>,
    part: Seq<char>,
    words: Set<Seq<char>>,
) -> Fault {
    Fault { about: name + part, words: Some(words) }
}

/// What the extension sends or does.
#[derive(Debug)]
pub enum Output {
    TermBell,
    SetUserVar { name: String, value: String },
    RunCommand { argv: Vec<String> },
    StartAgentRequest { query_id: String, instruction: String },
    ConfigError(ConfigFault),
}

/// What the extension sends or does, as mathematics.
pub enum OutputView {
    TermBell,
    SetUserVar { name: Seq<char>, value: Seq<char> },
    RunCommand { argv: Seq<Seq<char>> },
    StartAgentRequest { query_id: Seq<char>, instruction: Seq<char> },
    ConfigError(FaultView),
}

impl View for Output {
    type V = OutputView;

    open spec fn view(&self) -> OutputView {
        match self {
            Output::TermBell => OutputView::TermBell,
            Output::SetUserVar { name, value } => OutputView::SetUserVar {
                name: name@,
                value: value@,
            },
            Output::RunCommand { argv } => OutputView::RunCommand { argv: views(argv@) },
            Output::StartAgentRequest { query_id, instruction } => OutputView::StartAgentRequest {
                query_id: query_id@,
                instruction: instruction@,
            },
            Output::ConfigError(fault) => OutputView::ConfigError(fault@),
        }
    }
}

/// The views of outputs.
pub open spec fn output_views(outputs: Seq<Output>) -> Seq<OutputView> {
    outputs.map_values(|o: Output| o@)
}

/// Puts an output behind others.
pub fn push_output(outputs: &mut Vec<Output>, output: Output)
    ensures
        final(outputs)@ == old(outputs)@.push(output),
        output_views(final(outputs)@) == output_views(old(outputs)@).push(output@),
{
    let ghost before = outputs@;
    outputs.push(output);
    assert(output_views(outputs@) =~= output_views(before).push(output@));
}

/// The parts of a command filled in; nothing where one cannot be.
pub open spec fn rendered_argv(command: Seq<String>, ctx: ContextView) -> Option<Seq<Seq<char>>>
    decreases command.len(),
{
    if command.len() == 0 {
        Some(seq![])
    } else {
        match (rendered_argv(command.drop_last(), ctx), filled_in(command.last()@, ctx)) {
            (Some(before), Some(part)) => Some(before.push(part)),
            _ => None,
        }
    }
}

/// The command of an action filled in: nothing where there is none, where it is
/// empty, or where a part of it cannot be filled in.
pub open spec fn hook_argv(hook: HookConfig, ctx: ContextView) -> Option<Seq<Seq<char>>> {
    match hook.command {
        None => None,
        Some(command) => if command@.len() == 0 {
            None
        } else {
            rendered_argv(command@, ctx)
        },
    }
}

/// The variable of an action filled in, where it has one; everything that may be
/// said of the first part of it that cannot be filled in.
pub open spec fn hook_variable(hook: HookConfig, ctx: ContextView) -> Option<
    Result<(Seq<char>, Seq<char>), Set<Seq<char>>>,
> {
    match hook.osc1337 {
        None => None,
        Some(osc) => Some(
            match (filling(osc.key@, ctx), filling(osc.value@, ctx)) {
                (Ok(name), Ok(value)) => Ok((name, value)),
                (Err(words), _) => Err(words),
                (_, Err(words)) => Err(words),
            },
        ),
    }
}

/// What an action leads to once it is filled in, and its failure: the bell first,
/// then the variable, then the command. A variable that cannot be filled in is a
/// failure, and ends the action.
pub open spec fn filled_outputs<W>(
    bell: bool,
    variable: Option<Result<(Seq<char>, Seq<char>), W>>,
    argv: Option<Seq<Seq<char>>>,
) -> (Seq<OutputView>, Option<W>) {
    let first = if bell {
        seq![OutputView::TermBell]
    } else {
        seq![]
    };
    let last = match argv {
        Some(argv) => seq![OutputView::RunCommand { argv }],
        None => seq![],
    };
    match variable {
        None => (first + last, None),
        Some(Err(words)) => (first, Some(words)),
        Some(Ok((name, value))) => (
            first + seq![OutputView::SetUserVar { name, value }] + last,
            None,
        ),
    }
}

/// Why something failed, where it did: everything that may be said of it.
pub type Failure = Option<Set<Seq<char>>>;

/// Whether a result is the one that is owed: a failure is told in words that may be
/// said of it.
pub open spec fn tells(r: Result<(), String>, failure: Failure) -> bool {
    match (r, failure) {
        (Ok(_), None) => true,
        (Err(said), Some(words)) => words.contains(said@),
        _ => false,
    }
}

/// What an action leads to, and its failure.
pub open spec fn hook_outputs(hook: HookConfig, ctx: ContextView) -> (Seq<OutputView>, Failure) {
    filled_outputs(hook.bell, hook_variable(hook, ctx), hook_argv(hook, ctx))
}

/// What actions lead to, one after another, up to the first that fails.
pub open spec fn all_outputs(hooks: Seq<HookConfig>, ctx: ContextView) -> (
    Seq<OutputView>,
    Failure,
)
    decreases hooks.len(),
{
    if hooks.len() == 0 {
        (seq![], None)
    } else {
        let (before, failure) = all_outputs(hooks.drop_last(), ctx);
        if failure is Some {
            (before, failure)
        } else {
            let (more, failure) = hook_outputs(hooks.last(), ctx);
            (before + more, failure)
        }
    }
}

/// Whether what is told of a configuration is what is wrong with it.
pub open spec fn tells_fault(r: Result<(), ConfigFault>, owed: Option<Fault>) -> bool {
    match (r, owed) {
        (Ok(_), None) => true,
        (Err(fault), Some(owed)) => owed.is_told_by(fault),
        _ => false,
    }
}

/// The view of a filled-in command.
pub open spec fn argv_view(argv: Option<Vec<String>>) -> Option<Seq<Seq<char>>> {
    match argv {
        Some(argv) => Some(views(argv@)),
        None => None,
    }
}

/// The view of a filled-in variable.
pub open spec fn variable_view(variable: Option<Result<(String, String), String>>) -> Option<
    Result<(Seq<char>, Seq<char>), Seq<char>>,
> {
    match variable {
        None => None,
        Some(Ok((name, value))) => Some(Ok((name@, value@))),
        Some(Err(words)) => Some(Err(words@)),
    }
}

/// Whether a variable is filled in as it is owed.
pub open spec fn is_variable(
    variable: Option<Result<(String, String), String>>,
    owed: Option<Result<(Seq<char>, Seq<char>), Set<Seq<char>>>>,
) -> bool {
    match (variable, owed) {
        (None, None) => true,
        (Some(Ok((name, value))), Some(Ok(owed))) => (name@, value@) == owed,
        (Some(Err(said)), Some(Err(words))) => words.contains(said@),
        _ => false,
    }
}

/// Fills in the command of an action.
fn render_command(hook: &HookConfig, ctx: &TemplateContext) -> (argv: Option<Vec<String>>)
    ensures
        argv_view(argv) == hook_argv(*hook, ctx@),
{
    let command = match &hook.command {
        Some(command) => command,
        None => {
            return None;
        },
    };
    if command.is_empty() {
        return None;
    }
    let mut argv: Vec<String> = Vec::new();
    let mut i: usize = 0;
    let mut failed = false;
    assert(views(argv@) =~= seq![]);
    assert(command@.take(0) =~= seq![]);
    while i < command.len() && !failed
        invariant
            i <= command@.len(),
            !failed ==> rendered_argv(command@.take(i as int), ctx@) == Some(views(argv@)),
            failed ==> rendered_argv(command@, ctx@) is None,
        decreases command.len() - i,
    {
        assert(command@.take(i + 1).drop_last() =~= command@.take(i as int));
        match fill_in(command[i].as_str(), ctx) {
            Ok(part) => push_text(&mut argv, part),
            Err(_) => {
                failed = true;
                proof {
                    lemma_argv_prefix(command@, ctx@, i + 1);
                }
            },
        }
        i += 1;
    }
    if failed {
        return None;
    }
    assert(command@.take(i as int) =~= command@);
    Some(argv)
}

/// Fills in the variable of an action.
fn render_variable(hook: &HookConfig, ctx: &TemplateContext) -> (variable: Option<
    Result<(String, String), String>,
>)
    ensures
        is_variable(variable, hook_variable(*hook, ctx@)),
{
    match &hook.osc1337 {
        None => None,
        Some(osc) => {
            let name = match fill_in(osc.key.as_str(), ctx) {
                Ok(name) => name,
                Err(message) => {
                    return Some(Err(message));
                },
            };
            match fill_in(osc.value.as_str(), ctx) {
                Ok(value) => Some(Ok((name, value))),
                Err(message) => Some(Err(message)),
            }
        },
    }
}

/// Runs an action that is filled in: puts what it leads to behind the outputs,
/// and hands on what was said of a variable that could not be.
pub fn emit_filled_hook(
    outputs: &mut Vec<Output>,
    bell: bool,
    variable: Option<Result<(String, String), String>>,
    argv: Option<Vec<String>>,
) -> (r: Result<(), String>)
    ensures
        ({
            let (more, failure) = filled_outputs(bell, variable_view(variable), argv_view(argv));
            &&& output_views(final(outputs)@) == output_views(old(outputs)@) + more
            &&& match r {
                Ok(_) => failure is None,
                Err(said) => failure == Some(said@),
            }
        }),
{
    let ghost start = output_views(outputs@);
    let ghost goal = filled_outputs(bell, variable_view(variable), argv_view(argv)).0;
    if bell {
        push_output(outputs, Output::TermBell);
    }
    match variable {
        None => {},
        Some(Ok((name, value))) => push_output(outputs, Output::SetUserVar { name, value }),
        Some(Err(message)) => {
            assert(output_views(outputs@) =~= start + goal);
            return Err(message);
        },
    }
    if let Some(argv) = argv {
        push_output(outputs, Output::RunCommand { argv });
    }
    assert(output_views(outputs@) =~= start + goal);
    Ok(())
}

proof fn lemma_argv_prefix(command: Seq<String>, ctx: ContextView, n: int)
    requires
        0 <= n <= command.len(),
        rendered_argv(command.take(n), ctx) is None,
    ensures
        rendered_argv(command, ctx) is None,
    decreases command.len(),
{
    if n == command.len() {
        assert(command.take(n) =~= command);
    } else {
        assert(command.drop_last().take(n) =~= command.take(n));
        lemma_argv_prefix(command.drop_last(), ctx, n);
    }
}

/// Runs an action.
pub fn emit_hook(outputs: &mut Vec<Output>, hook: &HookConfig, ctx: &TemplateContext) -> (r: Result<
    (),
    String,
>)
    ensures
        output_views(final(outputs)@) == output_views(old(outputs)@) + hook_outputs(*hook, ctx@).0,
        tells(r, hook_outputs(*hook, ctx@).1),
{
    let variable = render_variable(hook, ctx);
    let argv = render_command(hook, ctx);
    emit_filled_hook(outputs, hook.bell, variable, argv)
}

/// Runs actions, one after another, up to the first that fails.
pub fn emit_hooks(outputs: &mut Vec<Output>, hooks: &Vec<HookConfig>, ctx: &TemplateContext) -> (r:
    Result<(), String>)
    ensures
        output_views(final(outputs)@) == output_views(old(outputs)@) + all_outputs(
            hooks@,
            ctx@,
        ).0,
        tells(r, all_outputs(hooks@, ctx@).1),
{
    let ghost start = output_views(outputs@);
    let mut i: usize = 0;
    assert(hooks@.take(0) =~= seq![]);
    assert(start + seq![] =~= start);
    while i < hooks.len()
        invariant
            i <= hooks@.len(),
            output_views(outputs@) == start + all_outputs(hooks@.take(i as int), ctx@).0,
            all_outputs(hooks@.take(i as int), ctx@).1 is None,
            start == output_views(old(outputs)@),
        decreases hooks.len() - i,
    {
        assert(hooks@.take(i + 1).drop_last() =~= hooks@.take(i as int));
        match emit_hook(outputs, &hooks[i], ctx) {
            Ok(_) => {},
            Err(message) => {
                proof {
                    lemma_outputs_prefix(hooks@, ctx@, i + 1);
                    assert(output_views(outputs@) =~= start + all_outputs(hooks@, ctx@).0);
                }
                return Err(message);
            },
        }
        i += 1;
        assert(output_views(outputs@) =~= start + all_outputs(hooks@.take(i as int), ctx@).0);
    }
    assert(hooks@.take(i as int) =~= hooks@);
    Ok(())
}

proof fn lemma_outputs_prefix(hooks: Seq<HookConfig>, ctx: ContextView, n: int)
    requires
        0 <= n <= hooks.len(),
        all_outputs(hooks.take(n), ctx).1 is Some,
    ensures
        all_outputs(hooks, ctx) == all_outputs(hooks.take(n), ctx),
    decreases hooks.len(),
{
    if n == hooks.len() {
        assert(hooks.take(n) =~= hooks);
    } else {
        assert(hooks.drop_last().take(n) =~= hooks.take(n));
        lemma_outputs_prefix(hooks.drop_last(), ctx, n);
    }
}

/// What a template can speak of at a place.
pub open spec fn context_at(
    hook: Seq<char>,
    agent_id: Seq<char>,
    agent_name: Seq<char>,
    user_prompt: Seq<char>,
    agent_response: Seq<char>,
    agent_summary: Seq<char>,
    host: Seq<char>,
    cwd: Seq<char>,
) -> ContextView {
    ContextView {
        hook,
        agent_id,
        agent_name,
        host,
        cwd,
        cwd_basename: basename_of(cwd),
        user_prompt,
        agent_response,
        agent_summary,
    }
}

/// What a template can speak of at a place.
pub fn template_context(
    hook: &str,
    agent_id: &str,
    agent_name: &str,
    user_prompt: &str,
    agent_response: &str,
    agent_summary: &str,
    place: &Place,
) -> (ctx: TemplateContext)
    ensures
        ctx@ == context_at(
            hook@,
            agent_id@,
            agent_name@,
            user_prompt@,
            agent_response@,
            agent_summary@,
            place.host@,
            place.cwd@,
        ),
{
    TemplateContext {
        hook: hook.to_owned(),
        agent_id: agent_id.to_owned(),
        agent_name: agent_name.to_owned(),
        host: place.host.clone(),
        cwd: place.cwd.clone(),
        cwd_basename: cwd_basename(place.cwd.as_str()),
        user_prompt: user_prompt.to_owned(),
        agent_response: agent_response.to_owned(),
        agent_summary: agent_summary.to_owned(),
    }
}

/// The context with which templates are tried before they are accepted.
pub open spec fn trial_context(name: Seq<char>, host: Seq<char>, cwd: Seq<char>) -> ContextView {
    context_at(
        name,
        "agent"@,
        "Agent"@,
        "user prompt"@,
        "agent response"@,
        "agent summary"@,
        host,
        cwd,
    )
}

/// Everything that may be said of the first part of a command that cannot be filled
/// in; nothing where all can be.
pub open spec fn command_failure(command: Seq<String>, ctx: ContextView) -> Failure
    decreases command.len(),
{
    if command.len() == 0 {
        None
    } else {
        match filling(command[0]@, ctx) {
            Ok(_) => command_failure(command.drop_first(), ctx),
            Err(words) => Some(words),
        }
    }
}

/// What is wrong with an action: it does nothing, its command is empty, or a
/// template of it cannot be filled in.
pub open spec fn hook_error(
    name: Seq<char>,
    hook: HookConfig,
    host: Seq<char>,
    cwd: Seq<char>,
) -> Option<Fault> {
    let ctx = trial_context(name, host, cwd);
    let in_command = match hook.command {
        None => None,
        Some(command) => if command@.len() == 0 {
            Some(plain(name + " command must not be empty"@))
        } else {
            match command_failure(command@, ctx) {
                None => None,
                Some(words) => Some(failed_template(name, " command template failed: "@, words)),
            }
        },
    };
    if !hook.bell && hook.command is None && hook.osc1337 is None {
        Some(plain(name + " hook item must set bell, command, or osc1337"@))
    } else {
        match hook.osc1337 {
            None => in_command,
            Some(osc) => match (filling(osc.key@, ctx), filling(osc.value@, ctx)) {
                (Err(words), _) => Some(
                    failed_template(name, " osc1337.key template failed: "@, words),
                ),
                (_, Err(words)) => Some(
                    failed_template(name, " osc1337.value template failed: "@, words),
                ),
                _ => in_command,
            },
        }
    }
}

/// What is wrong with the first action that something is wrong with.
pub open spec fn hooks_error(
    name: Seq<char>,
    hooks: Seq<HookConfig>,
    host: Seq<char>,
    cwd: Seq<char>,
) -> Option<Fault>
    decreases hooks.len(),
{
    if hooks.len() == 0 {
        None
    } else {
        match hook_error(name, hooks[0], host, cwd) {
            Some(error) => Some(error),
            None => hooks_error(name, hooks.drop_first(), host, cwd),
        }
    }
}

/// What is wrong with a configuration.
pub open spec fn config_error(config: ConfigView, host: Seq<char>, cwd: Seq<char>) -> Option<
    Fault,
> {
    let action = |h: IdleHookConfig| h.hook;
    match hooks_error("agent_start"@, config.agent_start, host, cwd) {
        Some(error) => Some(error),
        None => match hooks_error("agent_end"@, config.agent_end, host, cwd) {
            Some(error) => Some(error),
            None => match hooks_error(
                "agent_idle"@,
                config.agent_idle.map_values(action),
                host,
                cwd,
            ) {
                Some(error) => Some(error),
                None => hooks_error(
                    "agent_idle_all"@,
                    config.agent_idle_all.map_values(action),
                    host,
                    cwd,
                ),
            },
        },
    }
}

/// Checks an action.
pub fn validate_hook(name: &str, hook: &HookConfig, place: &Place) -> (r: Result<(), ConfigFault>)
    ensures
        tells_fault(r, hook_error(name@, *hook, place.host@, place.cwd@)),
{
    if !hook.bell && hook.command.is_none() && hook.osc1337.is_none() {
        let mut message = name.to_owned();
        message.append(" hook item must set bell, command, or osc1337");
        return Err(plain_fault(message));
    }
    let ctx = template_context(
        name,
        "agent",
        "Agent",
        "user prompt",
        "agent response",
        "agent summary",
        place,
    );
    if let Some(osc) = &hook.osc1337 {
        if let Err(error) = fill_in(osc.key.as_str(), &ctx) {
            return Err(template_fault(name, " osc1337.key template failed: ", error));
        }
        if let Err(error) = fill_in(osc.value.as_str(), &ctx) {
            return Err(template_fault(name, " osc1337.value template failed: ", error));
        }
    }
    if let Some(command) = &hook.command {
        if command.is_empty() {
            let mut message = name.to_owned();
            message.append(" command must not be empty");
            return Err(plain_fault(message));
        }
        let mut i: usize = 0;
        assert(command@.skip(0) =~= command@);
        while i < command.len()
            invariant
                i <= command@.len(),
                command_failure(command@.skip(i as int), ctx@) == command_failure(
                    command@,
                    ctx@,
                ),
                command@.len() > 0,
                hook.command == Some(*command),
                ctx@ == trial_context(name@, place.host@, place.cwd@),
                hook_error(name@, *hook, place.host@, place.cwd@) == (match command_failure(
                    command@,
                    ctx@,
                ) {
                    None => None,
                    Some(words) => Some(
                        failed_template(name@, " command template failed: "@, words),
                    ),
                }),
            decreases command.len() - i,
        {
            assert(command@.skip(i as int)[0] == command@[i as int]);
            if let Err(error) = fill_in(command[i].as_str(), &ctx) {
                return Err(template_fault(name, " command template failed: ", error));
            }
            assert(command@.skip(i as int).drop_first() =~= command@.skip(i + 1));
            i += 1;
        }
    }
    Ok(())
}

/// Checks actions.
pub fn validate_hooks(name: &str, hooks: &Vec<HookConfig>, place: &Place) -> (r: Result<
    (),
    ConfigFault,
>)
    ensures
        tells_fault(r, hooks_error(name@, hooks@, place.host@, place.cwd@)),
{
    let mut i: usize = 0;
    assert(hooks@.skip(0) =~= hooks@);
    while i < hooks.len()
        invariant
            i <= hooks@.len(),
            hooks_error(name@, hooks@.skip(i as int), place.host@, place.cwd@) == hooks_error(
                name@,
                hooks@,
                place.host@,
                place.cwd@,
            ),
        decreases hooks.len() - i,
    {
        assert(hooks@.skip(i as int)[0] == hooks@[i as int]);
        match validate_hook(name, &hooks[i], place) {
            Ok(_) => {},
            Err(message) => {
                return Err(message);
            },
        }
        assert(hooks@.skip(i as int).drop_first() =~= hooks@.skip(i + 1));
        i += 1;
    }
    Ok(())
}

/// Checks idle actions.
fn validate_idle_hooks(name: &str, hooks: &Vec<IdleHookConfig>, place: &Place) -> (r: Result<
    (),
    ConfigFault,
>)
    ensures
        tells_fault(
            r,
            hooks_error(
                name@,
                hooks@.map_values(|h: IdleHookConfig| h.hook),
                place.host@,
                place.cwd@,
            ),
        ),
{
    let ghost all = hooks@.map_values(|h: IdleHookConfig| h.hook);
    let mut i: usize = 0;
    assert(all.skip(0) =~= all);
    while i < hooks.len()
        invariant
            i <= hooks@.len(),
            all == hooks@.map_values(|h: IdleHookConfig| h.hook),
            hooks_error(name@, all.skip(i as int), place.host@, place.cwd@) == hooks_error(
                name@,
                all,
                place.host@,
                place.cwd@,
            ),
        decreases hooks.len() - i,
    {
        assert(all.skip(i as int)[0] == hooks@[i as int].hook);
        match validate_hook(name, &hooks[i].hook, place) {
            Ok(_) => {},
            Err(message) => {
                return Err(message);
            },
        }
        assert(all.skip(i as int).drop_first() =~= all.skip(i + 1));
        i += 1;
    }
    Ok(())
}

impl ExtConfig {
    /// Checks the configuration: says what is wrong with the first action that
    /// something is wrong with.
    pub fn validate(&self, place: &Place) -> (r: Result<(), ConfigFault>)
        ensures
            tells_fault(r, config_error(self@, place.host@, place.cwd@)),
    {
        if let Err(message) = validate_hooks("agent_start", &self.agent_start, place) {
            return Err(message);
        }
        if let Err(message) = validate_hooks("agent_end", &self.agent_end, place) {
            return Err(message);
        }
        if let Err(message) = validate_idle_hooks("agent_idle", &self.agent_idle, place) {
            return Err(message);
        }
        if let Err(message) = validate_idle_hooks("agent_idle_all", &self.agent_idle_all, place) {
            return Err(message);
        }
        Ok(())
    }
}

} // verus!
