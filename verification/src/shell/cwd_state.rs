//! The working directory that is remembered of every agent.

use vstd::prelude::*;

use crate::path::{same_parts, same_path};
use crate::shell::event::{StartedView, ToolStarted};
use crate::text_map::{text_values, TextMap};

verus! {

/// A change of directory that has been asked for and not yet been confirmed.
#[derive(Debug)]
pub struct PendingCd {
    pub expected_cwd: String,
    pub call: ToolStarted,
    pub lock_wait_duration_seconds: Option<u64>,
}

/// A change of directory that waits, as mathematics.
pub struct PendingView {
    pub expected_cwd: Seq<char>,
    pub call: StartedView,
    pub lock_wait: Option<u64>,
}

impl View for PendingCd {
    type V = PendingView;

    open spec fn view(&self) -> PendingView {
        PendingView {
            expected_cwd: self.expected_cwd@,
            call: self.call@,
            lock_wait: self.lock_wait_duration_seconds,
        }
    }
}

/// A change of directory that is over.
#[derive(Debug)]
pub struct CompletedPendingCd {
    pub call: ToolStarted,
    pub lock_wait_duration_seconds: Option<u64>,
    /// Whether the directory is the one that was asked for.
    pub matched_request: bool,
}

/// What is remembered of the agents' working directories.
#[derive(Debug)]
pub struct CwdState {
    pub instance_name: String,
    pub cwd_by_agent: TextMap<String>,
    pub pending_notice_by_agent: TextMap<String>,
    pub pending_cd_by_agent: TextMap<PendingCd>,
}

/// What is remembered, as mathematics.
#[verifier::ext_equal]
pub struct CwdView {
    pub instance: Seq<char>,
    pub cwd: Map<Seq<char>, Seq<char>>,
    pub notices: Map<Seq<char>, Seq<char>>,
    pub pending: Map<Seq<char>, PendingView>,
}

impl View for CwdState {
    type V = CwdView;

    open spec fn view(&self) -> CwdView {
        CwdView {
            instance: self.instance_name@,
            cwd: text_values(self.cwd_by_agent@),
            notices: text_values(self.pending_notice_by_agent@),
            pending: self.pending_cd_by_agent@.map_values(|p: PendingCd| p@),
        }
    }
}

/// The name under which the harness keeps an agent's directory.
pub open spec fn cwd_key(instance: Seq<char>) -> Seq<char> {
    "ext_"@ + instance + "_cwd"@
}

impl CwdView {
    /// Nothing remembered yet.
    pub open spec fn fresh() -> CwdView {
        CwdView {
            instance: "core-shell"@,
            cwd: Map::empty(),
            notices: Map::empty(),
            pending: Map::empty(),
        }
    }

    /// The directory of an agent, or the one of the process.
    pub open spec fn cwd_or(self, agent: Seq<char>, default: Seq<char>) -> Seq<char> {
        if self.cwd.dom().contains(agent) {
            self.cwd[agent]
        } else {
            default
        }
    }

    /// Without anything remembered of an agent.
    pub open spec fn forget(self, agent: Seq<char>) -> CwdView {
        CwdView {
            cwd: self.cwd.remove(agent),
            notices: self.notices.remove(agent),
            pending: self.pending.remove(agent),
            ..self
        }
    }
}

impl CwdState {
    /// What holds of the state at all times.
    pub open spec fn wf(&self) -> bool {
        &&& self.cwd_by_agent.wf()
        &&& self.pending_notice_by_agent.wf()
        &&& self.pending_cd_by_agent.wf()
    }

    /// Nothing remembered yet.
    pub fn new() -> (state: Self)
        ensures
            state.wf(),
            state@ == CwdView::fresh(),
    {
        let state = CwdState {
            instance_name: "core-shell".to_owned(),
            cwd_by_agent: TextMap::new(),
            pending_notice_by_agent: TextMap::new(),
            pending_cd_by_agent: TextMap::new(),
        };
        assert(state@ =~= CwdView::fresh());
        state
    }

    /// Sets the name of this instance of the extension.
    pub fn set_instance_name(&mut self, name: String)
        requires
            old(self).wf(),
        ensures
            final(self).wf(),
            final(self)@ == (CwdView { instance: name@, ..old(self)@ }),
    {
        self.instance_name = name;
    }

    /// The name under which the harness keeps an agent's directory.
    pub fn key(&self) -> (key: String)
        ensures
            key@ == cwd_key(self@.instance),
    {
        let mut key = "ext_".to_owned();
        key.append(self.instance_name.as_str());
        key.append("_cwd");
        key
    }

    /// The directory of an agent.
    pub fn get(&self, agent_id: &String) -> (cwd: Option<String>)
        requires
            self.wf(),
        ensures
            match cwd {
                Some(cwd) => self@.cwd.dom().contains(agent_id@) && self@.cwd[agent_id@] == cwd@,
                None => !self@.cwd.dom().contains(agent_id@),
            },
    {
        match self.cwd_by_agent.get(agent_id) {
            Some(cwd) => Some(cwd.clone()),
            None => None,
        }
    }

    /// The directory of an agent, or the one of the process.
    pub fn get_or_default(&self, agent_id: &String, default: &String) -> (cwd: String)
        requires
            self.wf(),
        ensures
            cwd@ == self@.cwd_or(agent_id@, default@),
    {
        match self.get(agent_id) {
            Some(cwd) => cwd,
            None => default.clone(),
        }
    }

    /// Remembers the directory of an agent.
    pub fn set(&mut self, agent_id: String, cwd: String)
        requires
            old(self).wf(),
        ensures
            final(self).wf(),
            final(self)@ == (CwdView {
                cwd: old(self)@.cwd.insert(agent_id@, cwd@),
                ..old(self)@
            }),
    {
        let _ = self.cwd_by_agent.insert(agent_id, cwd);
        assert(self@.cwd =~= old(self)@.cwd.insert(agent_id@, cwd@));
    }

    /// Forgets the directory of an agent.
    pub fn unset(&mut self, agent_id: &String)
        requires
            old(self).wf(),
        ensures
            final(self).wf(),
            final(self)@ == (CwdView { cwd: old(self)@.cwd.remove(agent_id@), ..old(self)@ }),
    {
        let _ = self.cwd_by_agent.remove(agent_id);
        assert(self@.cwd =~= old(self)@.cwd.remove(agent_id@));
    }

    /// Remembers that an agent is to be told of its new directory.
    pub fn set_pending_notice(&mut self, agent_id: String, cwd: String)
        requires
            old(self).wf(),
        ensures
            final(self).wf(),
            final(self)@ == (CwdView {
                notices: old(self)@.notices.insert(agent_id@, cwd@),
                ..old(self)@
            }),
    {
        let _ = self.pending_notice_by_agent.insert(agent_id, cwd);
        assert(self@.notices =~= old(self)@.notices.insert(agent_id@, cwd@));
    }

    /// Takes the notice that is owed to an agent.
    pub fn take_pending_notice(&mut self, agent_id: &String) -> (notice: Option<String>)
        requires
            old(self).wf(),
        ensures
            final(self).wf(),
            final(self)@ == (CwdView {
                notices: old(self)@.notices.remove(agent_id@),
                ..old(self)@
            }),
            match notice {
                Some(cwd) => old(self)@.notices.dom().contains(agent_id@)
                    && old(self)@.notices[agent_id@] == cwd@,
                None => !old(self)@.notices.dom().contains(agent_id@),
            },
    {
        let notice = self.pending_notice_by_agent.remove(agent_id);
        assert(self@.notices =~= old(self)@.notices.remove(agent_id@));
        notice
    }

    /// Remembers a change of directory until it is confirmed. An agent can
    /// have one at a time: a second call is handed back.
    pub fn start_pending_cd_result(
        &mut self,
        agent_id: String,
        expected_cwd: String,
        call: ToolStarted,
        lock_wait_duration_seconds: Option<u64>,
    ) -> (r: Result<(), ToolStarted>)
        requires
            old(self).wf(),
        ensures
            final(self).wf(),
            match r {
                Ok(_) => !old(self)@.pending.dom().contains(agent_id@) && final(self)@ == (
                CwdView {
                    pending: old(self)@.pending.insert(
                        agent_id@,
                        PendingView {
                            expected_cwd: expected_cwd@,
                            call: call@,
                            lock_wait: lock_wait_duration_seconds,
                        },
                    ),
                    ..old(self)@
                }),
                Err(back) => old(self)@.pending.dom().contains(agent_id@) && final(self)@
                    == old(self)@ && back@ == call@,
            },
    {
        if self.pending_cd_by_agent.contains_key(&agent_id) {
            return Err(call);
        }
        let pending = PendingCd { expected_cwd, call, lock_wait_duration_seconds };
        let ghost added = pending@;
        let _ = self.pending_cd_by_agent.insert(agent_id, pending);
        assert(self@.pending =~= old(self)@.pending.insert(agent_id@, added));
        Ok(())
    }

    /// Takes the change of directory of an agent, and says whether the
    /// directory that was confirmed is the one that was asked for.
    pub fn take_committed_pending_cd_result(&mut self, agent_id: &String, committed_cwd: &String)
        -> (done: Option<CompletedPendingCd>)
        requires
            old(self).wf(),
        ensures
            final(self).wf(),
            final(self)@ == (CwdView {
                pending: old(self)@.pending.remove(agent_id@),
                ..old(self)@
            }),
            match done {
                Some(done) => old(self)@.pending.dom().contains(agent_id@) && {
                    let pending = old(self)@.pending[agent_id@];
                    &&& done.call@ == pending.call
                    &&& done.lock_wait_duration_seconds == pending.lock_wait
                    &&& done.matched_request == same_parts(pending.expected_cwd, committed_cwd@)
                },
                None => !old(self)@.pending.dom().contains(agent_id@),
            },
    {
        let pending = self.pending_cd_by_agent.remove(agent_id);
        assert(self@.pending =~= old(self)@.pending.remove(agent_id@));
        match pending {
            Some(pending) => Some(
                CompletedPendingCd {
                    matched_request: same_path(
                        pending.expected_cwd.as_str(),
                        committed_cwd.as_str(),
                    ),
                    call: pending.call,
                    lock_wait_duration_seconds: pending.lock_wait_duration_seconds,
                },
            ),
            None => None,
        }
    }

    /// Takes the change of directory of an agent that was not confirmed.
    pub fn take_pending_cd_result(&mut self, agent_id: &String) -> (done: Option<
        CompletedPendingCd,
    >)
        requires
            old(self).wf(),
        ensures
            final(self).wf(),
            final(self)@ == (CwdView {
                pending: old(self)@.pending.remove(agent_id@),
                ..old(self)@
            }),
            match done {
                Some(done) => old(self)@.pending.dom().contains(agent_id@) && {
                    let pending = old(self)@.pending[agent_id@];
                    &&& done.call@ == pending.call
                    &&& done.lock_wait_duration_seconds == pending.lock_wait
                    &&& !done.matched_request
                },
                None => !old(self)@.pending.dom().contains(agent_id@),
            },
    {
        let pending = self.pending_cd_by_agent.remove(agent_id);
        assert(self@.pending =~= old(self)@.pending.remove(agent_id@));
        match pending {
            Some(pending) => Some(
                CompletedPendingCd {
                    matched_request: false,
                    call: pending.call,
                    lock_wait_duration_seconds: pending.lock_wait_duration_seconds,
                },
            ),
            None => None,
        }
    }
}

} // verus!
