//! Configuration of the shell and file extension.

use vstd::prelude::*;

use crate::text::{copy_texts, opt_view, push_text, views};

verus! {

/// How the extension is configured.
#[derive(Debug)]
pub struct ExtConfig {
    /// The directory that the extension changes to at its start.
    pub working_directory: Option<String>,
    pub shell: ShellConfig,
    pub dir_lock: DirLockConfig,
}

/// Directory locking.
#[derive(Clone, Copy, Debug, PartialEq, Eq, Structural)]
pub struct DirLockConfig {
    /// Whether tools that update files lock directories.
    pub enable: bool,
    /// Whether the working directory of a read-only command is mounted so that
    /// it cannot be written. It counts only where locking is enabled.
    pub enforce_ro_bind: bool,
}

/// How commands are run.
#[derive(Debug)]
pub struct ShellConfig {
    /// The shell, run as `<command> -c <user command>`.
    pub command: String,
    /// What comes before the shell.
    pub prefix: Vec<String>,
    /// Longest time that a command of the user may run, in seconds.
    pub user_command_timeout_secs: u64,
    /// Variables for the command's environment. An empty value removes the
    /// variable.
    pub extra_env: Vec<(String, String)>,
}

/// A change to the environment of a command: a variable is set or removed.
#[derive(Debug)]
pub struct EnvChange {
    pub key: String,
    pub value: Option<String>,
}

/// A change to the environment, as mathematics.
pub struct EnvView {
    pub key: Seq<char>,
    pub value: Option<Seq<char>>,
}

impl View for EnvChange {
    type V = EnvView;

    open spec fn view(&self) -> EnvView {
        EnvView { key: self.key@, value: opt_view(self.value) }
    }
}

/// The views of changes to the environment.
pub open spec fn env_views(changes: Seq<EnvChange>) -> Seq<EnvView> {
    changes.map_values(|c: EnvChange| c@)
}

/// The change that a configured variable asks for.
pub open spec fn extra_change(entry: (String, String)) -> EnvView {
    EnvView {
        key: entry.0@,
        value: if entry.1@.len() == 0 {
            None
        } else {
            Some(entry.1@)
        },
    }
}

/// What keeps a command from the terminal: no colours, no fancy output.
pub open spec fn isolation_changes() -> Seq<EnvView> {
    seq![
        EnvView { key: "TERM"@, value: Some("dumb"@) },
        EnvView { key: "NO_COLOR"@, value: Some("1"@) },
        EnvView { key: "CLICOLOR"@, value: Some("0"@) },
        EnvView { key: "CARGO_MANIFEST_DIR"@, value: None },
    ]
}

impl Default for DirLockConfig {
    fn default() -> (config: Self)
        ensures
            !config.enable,
            config.enforce_ro_bind,
    {
        DirLockConfig { enable: false, enforce_ro_bind: true }
    }
}

impl Default for ShellConfig {
    fn default() -> (config: Self)
        ensures
            config.command@ == "sh"@,
            config.prefix@.len() == 0,
            config.user_command_timeout_secs == 3600,
            config.extra_env@.len() == 0,
    {
        ShellConfig {
            command: "sh".to_owned(),
            prefix: Vec::new(),
            user_command_timeout_secs: 3600,
            extra_env: Vec::new(),
        }
    }
}

impl Default for ExtConfig {
    fn default() -> (config: Self)
        ensures
            config.working_directory is None,
            config.shell.command@ == "sh"@,
            config.shell.prefix@.len() == 0,
            config.shell.user_command_timeout_secs == 3600,
            config.shell.extra_env@.len() == 0,
            !config.dir_lock.enable,
            config.dir_lock.enforce_ro_bind,
            config@ == default_config(),
    {
        let config = ExtConfig {
            working_directory: None,
            shell: ShellConfig::default(),
            dir_lock: DirLockConfig::default(),
        };
        assert(config.shell@.prefix =~= seq![]);
        assert(config.shell@.env =~= seq![]);
        config
    }
}

/// The configuration where nothing is configured: commands are run by `sh` in the
/// directory and the environment that the process has, for an hour at most where
/// they are the user's, and no directory is locked.
pub open spec fn default_config() -> ConfigView {
    ConfigView {
        working_directory: None,
        shell: ShellConfigView {
            command: "sh"@,
            prefix: seq![],
            user_command_timeout_secs: 3600,
            env: seq![],
        },
        dir_lock: DirLockConfig { enable: false, enforce_ro_bind: true },
    }
}

/// A shell configuration, as mathematics.
pub struct ShellConfigView {
    pub command: Seq<char>,
    pub prefix: Seq<Seq<char>>,
    pub user_command_timeout_secs: u64,
    pub env: Seq<EnvView>,
}

impl View for ShellConfig {
    type V = ShellConfigView;

    open spec fn view(&self) -> ShellConfigView {
        ShellConfigView {
            command: self.command@,
            prefix: views(self.prefix@),
            user_command_timeout_secs: self.user_command_timeout_secs,
            env: self.extra_env@.map_values(|e: (String, String)| extra_change(e)),
        }
    }
}

/// A configuration, as mathematics.
pub struct ConfigView {
    pub working_directory: Option<Seq<char>>,
    pub shell: ShellConfigView,
    pub dir_lock: DirLockConfig,
}

impl View for ExtConfig {
    type V = ConfigView;

    open spec fn view(&self) -> ConfigView {
        ConfigView {
            working_directory: opt_view(self.working_directory),
            shell: self.shell@,
            dir_lock: self.dir_lock,
        }
    }
}

impl ShellConfig {
    /// A copy of the configuration.
    pub fn copy(&self) -> (config: ShellConfig)
        ensures
            config@ == self@,
    {
        let mut extra_env: Vec<(String, String)> = Vec::new();
        let mut i: usize = 0;
        while i < self.extra_env.len()
            invariant
                i <= self.extra_env@.len(),
                extra_env@.len() == i,
                forall|j: int| 0 <= j < i ==> (#[trigger] extra_env@[j]) == self.extra_env@[j],
            decreases self.extra_env.len() - i,
        {
            extra_env.push((self.extra_env[i].0.clone(), self.extra_env[i].1.clone()));
            i += 1;
        }
        assert(extra_env@ =~= self.extra_env@);
        ShellConfig {
            command: self.command.clone(),
            prefix: copy_texts(&self.prefix),
            user_command_timeout_secs: self.user_command_timeout_secs,
            extra_env,
        }
    }

    /// The program and arguments that run a command.
    pub fn command_for(&self, command: &str) -> (argv: Vec<String>)
        ensures
            views(argv@) == views(self.prefix@) + seq![self.command@, "-c"@, command@],
    {
        let mut argv = copy_texts(&self.prefix);
        push_text(&mut argv, self.command.clone());
        push_text(&mut argv, "-c".to_owned());
        push_text(&mut argv, command.to_owned());
        assert(views(argv@) =~= views(self.prefix@) + seq![self.command@, "-c"@, command@]);
        argv
    }

    /// The changes to a command's environment, in the order in which they are
    /// made: a configured variable comes after those that isolate the command.
    pub fn child_env(&self) -> (changes: Vec<EnvChange>)
        ensures
            env_views(changes@) == isolation_changes() + self@.env,
    {
        let mut changes: Vec<EnvChange> = Vec::new();
        changes.push(EnvChange { key: "TERM".to_owned(), value: Some("dumb".to_owned()) });
        changes.push(EnvChange { key: "NO_COLOR".to_owned(), value: Some("1".to_owned()) });
        changes.push(EnvChange { key: "CLICOLOR".to_owned(), value: Some("0".to_owned()) });
        changes.push(EnvChange { key: "CARGO_MANIFEST_DIR".to_owned(), value: None });
        let mut i: usize = 0;
        assert(env_views(changes@) =~= isolation_changes() + self@.env.take(0));
        while i < self.extra_env.len()
            invariant
                i <= self.extra_env@.len(),
                env_views(changes@) == isolation_changes() + self@.env.take(i as int),
            decreases self.extra_env.len() - i,
        {
            let entry = &self.extra_env[i];
            let value = if entry.1.as_str().is_empty() {
                None
            } else {
                Some(entry.1.clone())
            };
            let change = EnvChange { key: entry.0.clone(), value };
            let ghost before = changes@;
            changes.push(change);
            assert(change@ == self@.env[i as int]);
            assert(env_views(changes@) =~= env_views(before).push(change@));
            i += 1;
            assert(env_views(changes@) =~= isolation_changes() + self@.env.take(i as int));
        }
        assert(self@.env.take(i as int) =~= self@.env);
        changes
    }
}

impl ExtConfig {
    /// A copy of the configuration.
    pub fn copy(&self) -> (config: ExtConfig)
        ensures
            config@ == self@,
    {
        ExtConfig {
            working_directory: self.working_directory.clone(),
            shell: self.shell.copy(),
            dir_lock: self.dir_lock,
        }
    }
}

} // verus!
