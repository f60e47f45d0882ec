//! The steps by which a process turns itself into a daemon: fork, start a
//! new session in the child, fork again, and go on in the grandchild. The
//! system calls are made by the caller; what follows from each result is
//! decided here.
use vstd::prelude::*;

verus! {

/// Which side of a fork a process finds itself on.
#[derive(Debug, Clone, Copy, PartialEq, Eq, Structural)]
pub enum ProcessType {
    /// The parent, which learns the process id of the child.
    Parent(i32),
    Child,
}

/// The system call whose result is awaited.
#[derive(Debug, Clone, Copy, PartialEq, Eq, Structural)]
pub enum DaemonStage {
    /// The first fork.
    Fork,
    /// The new session, asked for by the child of the first fork.
    Session,
    /// The second fork, made by the leader of the new session.
    ForkAgain,
}

/// Why a daemon could not be started.
#[derive(Debug, Clone, Copy, PartialEq, Eq, Structural)]
pub enum DaemonError {
    /// The first fork failed.
    Start,
    /// No new session could be started.
    Session,
    /// The second fork failed.
    Fork,
}

/// What a process does once a system call has returned.
#[derive(Debug, Clone, Copy, PartialEq, Eq, Structural)]
pub enum DaemonStep {
    /// Make the system call of the next stage.
    Next(DaemonStage),
    /// This process is the daemon: go on with the daemon's work.
    Started,
    /// This process is a parent and has nothing more to do; after the second
    /// fork it knows the process id of the daemon.
    Leave(Option<i32>),
    Failed(DaemonError),
}

/// Reads the result of a fork: -1 reports a failure, 0 is seen by the child,
/// and the parent sees the process id of the child.
pub fn create_child_process(forked: i32) -> (process: Option<ProcessType>)
    ensures
        process == process_of(forked),
{
    match forked {
        -1 => None,
        0 => Some(ProcessType::Child),
        child_id => Some(ProcessType::Parent(child_id)),
    }
}

/// The side of a fork that the result `forked` shows; `None` where the fork
/// failed.
pub open spec fn process_of(forked: i32) -> Option<ProcessType> {
    if forked == -1 {
        None
    } else if forked == 0 {
        Some(ProcessType::Child)
    } else {
        Some(ProcessType::Parent(forked))
    }
}

/// What follows from the result `code` of the system call of `stage`.
pub open spec fn step_after(stage: DaemonStage, code: i32) -> DaemonStep {
    match stage {
        DaemonStage::Fork => match process_of(code) {
            Some(ProcessType::Child) => DaemonStep::Next(DaemonStage::Session),
            Some(ProcessType::Parent(_)) => DaemonStep::Leave(None),
            None => DaemonStep::Failed(DaemonError::Start),
        },
        DaemonStage::Session => if code == -1 {
            DaemonStep::Failed(DaemonError::Session)
        } else {
            DaemonStep::Next(DaemonStage::ForkAgain)
        },
        DaemonStage::ForkAgain => match process_of(code) {
            Some(ProcessType::Child) => DaemonStep::Started,
            Some(ProcessType::Parent(child)) => DaemonStep::Leave(Some(child)),
            None => DaemonStep::Failed(DaemonError::Fork),
        },
    }
}

/// Decides what a process does once the system call of `stage` has returned
/// `code`. The first step of all is `DaemonStage::Fork`.
pub fn start_daemon(stage: DaemonStage, code: i32) -> (step: DaemonStep)
    ensures
        step == step_after(stage, code),
{
    match stage {
        DaemonStage::Fork => match create_child_process(code) {
            Some(ProcessType::Child) => DaemonStep::Next(DaemonStage::Session),
            Some(ProcessType::Parent(_)) => DaemonStep::Leave(None),
            None => DaemonStep::Failed(DaemonError::Start),
        },
        DaemonStage::Session => handle_child_process(code),
        DaemonStage::ForkAgain => match create_child_process(code) {
            Some(ProcessType::Child) => DaemonStep::Started,
            Some(ProcessType::Parent(child)) => DaemonStep::Leave(Some(child)),
            None => DaemonStep::Failed(DaemonError::Fork),
        },
    }
}

/// What the child of the first fork does once it has asked for a new session:
/// with the session started it forks again, otherwise it gives up.
pub fn handle_child_process(session: i32) -> (step: DaemonStep)
    ensures
        step == step_after(DaemonStage::Session, session),
{
    match session {
        -1 => DaemonStep::Failed(DaemonError::Session),
        _ => DaemonStep::Next(DaemonStage::ForkAgain),
    }
}

impl DaemonError {
    /// The message that reports the failure.
    pub open spec fn text(self) -> Seq<char> {
        match self {
            DaemonError::Start => "could not start daemon: could not fork process"@,
            DaemonError::Session =>
                "process already a group leader or process ID matches foreign process GID"@,
            DaemonError::Fork => "could not fork process"@,
        }
    }

    /// The message that reports the failure.
    pub fn message(&self) -> (message: &'static str)
        ensures
            message@ == self.text(),
    {
        match self {
            DaemonError::Start => "could not start daemon: could not fork process",
            DaemonError::Session =>
                "process already a group leader or process ID matches foreign process GID",
            DaemonError::Fork => "could not fork process",
        }
    }
}

} // verus!
