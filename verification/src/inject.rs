//! Putting a library into another process.
//!
//! The steps are those of starting a thread in the process that loads the
//! library: find the loader, allocate room for the path in the process, write
//! it there, start the thread, wait, and look at its result. `Injection` says
//! what is to be done next, from what came of the step before, and sees to it
//! that what was allocated and opened is released.

use crate::wide::{to_wide, wide};
use vstd::prelude::*;

verus! {

/// The calls that can fail.
#[derive(Clone, Copy, Debug, PartialEq, Eq, Structural)]
pub enum RemoteCall {
    Allocate,
    Write,
    StartThread,
    Wait,
    ExitCode,
}

impl RemoteCall {
    pub open spec fn text(self) -> Seq<char> {
        match self {
            RemoteCall::Allocate => "VirtualAllocEx"@,
            RemoteCall::Write => "WriteProcessMemory"@,
            RemoteCall::StartThread => "CreateRemoteThread"@,
            RemoteCall::Wait => "WaitForSingleObject"@,
            RemoteCall::ExitCode => "GetExitCodeThread"@,
        }
    }

    /// The name of the function.
    pub fn name(&self) -> (s: &'static str)
        ensures
            s@ == self.text(),
    {
        match self {
            RemoteCall::Allocate => "VirtualAllocEx",
            RemoteCall::Write => "WriteProcessMemory",
            RemoteCall::StartThread => "CreateRemoteThread",
            RemoteCall::Wait => "WaitForSingleObject",
            RemoteCall::ExitCode => "GetExitCodeThread",
        }
    }
}

/// Why a library could not be put into a process.
#[derive(Clone, Copy, Debug, PartialEq, Eq, Structural)]
pub enum InjectError {
    KernelNotLoaded,
    LoadLibraryNotFound,
    /// The path holds a NUL.
    PathHasNul,
    /// A call failed with this code.
    Win32(RemoteCall, u32),
    /// The process could not load the library.
    LoadLibraryFailed,
}

/// How far an injection has come.
#[derive(Clone, Copy, Debug, PartialEq, Eq, Structural)]
pub enum Stage {
    FindKernel,
    FindLoader,
    Allocate,
    Write,
    StartThread,
    Wait,
    ExitCode,
    Finished,
}

/// What came of the last step.
#[derive(Clone, Copy, Debug, PartialEq, Eq, Structural)]
pub enum Event {
    /// It succeeded.
    Done,
    /// So many bytes were written, or such was the thread's result; the last
    /// error at that time was `code`.
    Value { value: u64, code: u32 },
    /// It failed with this code.
    Failed(u32),
}

/// What is to be done next.
#[derive(Clone, Copy, Debug, PartialEq, Eq)]
pub enum Action {
    /// Take the step of the stage that was reached.
    Continue,
    /// End, after releasing the memory or the thread where these are set.
    Finish { result: Result<(), InjectError>, free_memory: bool, close_thread: bool },
}

/// An injection under way. `path` is the path as the process gets it.
pub struct Injection {
    pub stage: Stage,
    pub path: Vec<u16>,
}

/// The end of an injection that reached `stage`: memory was allocated from the
/// stage of writing on, the thread was started from that of waiting on.
pub open spec fn ended(stage: Stage, result: Result<(), InjectError>) -> Action {
    Action::Finish {
        result,
        free_memory: stage == Stage::Write || stage == Stage::StartThread || stage == Stage::Wait
            || stage == Stage::ExitCode,
        close_thread: stage == Stage::Wait || stage == Stage::ExitCode,
    }
}

/// What follows in an injection of a path with or without a NUL, whose code
/// units with the terminator take `bytes` bytes.
pub open spec fn follows(stage: Stage, has_nul: bool, bytes: nat, event: Event) -> (Stage, Action) {
    match stage {
        Stage::FindKernel => match event {
            Event::Failed(_) => (Stage::Finished, ended(stage, Err(InjectError::KernelNotLoaded))),
            _ => (Stage::FindLoader, Action::Continue),
        },
        Stage::FindLoader => match event {
            Event::Failed(_) => (
                Stage::Finished,
                ended(stage, Err(InjectError::LoadLibraryNotFound)),
            ),
            _ => if has_nul {
                (Stage::Finished, ended(stage, Err(InjectError::PathHasNul)))
            } else {
                (Stage::Allocate, Action::Continue)
            },
        },
        Stage::Allocate => match event {
            Event::Failed(c) => (
                Stage::Finished,
                ended(stage, Err(InjectError::Win32(RemoteCall::Allocate, c))),
            ),
            _ => (Stage::Write, Action::Continue),
        },
        Stage::Write => match event {
            Event::Failed(c) => (
                Stage::Finished,
                ended(stage, Err(InjectError::Win32(RemoteCall::Write, c))),
            ),
            Event::Value { value, code } => if value == bytes {
                (Stage::StartThread, Action::Continue)
            } else {
                (Stage::Finished, ended(stage, Err(InjectError::Win32(RemoteCall::Write, code))))
            },
            Event::Done => (
                Stage::Finished,
                ended(stage, Err(InjectError::Win32(RemoteCall::Write, 0))),
            ),
        },
        Stage::StartThread => match event {
            Event::Failed(c) => (
                Stage::Finished,
                ended(stage, Err(InjectError::Win32(RemoteCall::StartThread, c))),
            ),
            _ => (Stage::Wait, Action::Continue),
        },
        Stage::Wait => match event {
            Event::Failed(c) => (
                Stage::Finished,
                ended(stage, Err(InjectError::Win32(RemoteCall::Wait, c))),
            ),
            _ => (Stage::ExitCode, Action::Continue),
        },
        Stage::ExitCode => match event {
            Event::Failed(c) => (
                Stage::Finished,
                ended(stage, Err(InjectError::Win32(RemoteCall::ExitCode, c))),
            ),
            Event::Value { value, .. } => if value == 0 {
                (Stage::Finished, ended(stage, Err(InjectError::LoadLibraryFailed)))
            } else {
                (Stage::Finished, ended(stage, Ok(())))
            },
            Event::Done => (Stage::Finished, ended(stage, Err(InjectError::LoadLibraryFailed))),
        },
        Stage::Finished => (Stage::Finished, ended(stage, Err(InjectError::LoadLibraryFailed))),
    }
}

fn end(stage: Stage, result: Result<(), InjectError>) -> (a: Action)
    ensures
        a == ended(stage, result),
{
    Action::Finish {
        result,
        free_memory: stage == Stage::Write || stage == Stage::StartThread || stage == Stage::Wait
            || stage == Stage::ExitCode,
        close_thread: stage == Stage::Wait || stage == Stage::ExitCode,
    }
}

/// Whether the code units hold a 0 before the terminator.
pub open spec fn inner_nul(path: Seq<u16>) -> bool {
    path.len() > 0 && path.drop_last().contains(0)
}

impl Injection {
    /// An injection of the library at `path`.
    pub fn inject_dll(path: &str) -> (i: Self)
        ensures
            i.stage == Stage::FindKernel,
            i.path@ == wide(path@),
    {
        Injection { stage: Stage::FindKernel, path: to_wide(path) }
    }

    fn has_nul(&self) -> (b: bool)
        ensures
            b == inner_nul(self.path@),
    {
        if self.path.len() == 0 {
            return false;
        }
        let last: usize = self.path.len() - 1;
        let mut i: usize = 0;
        while i < last
            invariant
                i <= last,
                last + 1 == self.path.len(),
                forall|j: int| 0 <= j < i ==> self.path[j] != 0,
            decreases last - i,
        {
            if self.path[i] == 0 {
                assert(self.path@.drop_last()[i as int] == 0);
                return true;
            }
            i = i + 1;
        }
        assert forall|j: int| 0 <= j < self.path@.drop_last().len() implies
            self.path@.drop_last()[j] != 0 by {
            assert(self.path@.drop_last()[j] == self.path@[j]);
        }
        false
    }

    /// Takes what came of the last step.
    pub fn next(&mut self, event: Event) -> (a: Action)
        requires
            old(self).path.len() <= usize::MAX / 2,
        ensures
            (final(self).stage, a) == follows(
                old(self).stage,
                inner_nul(old(self).path@),
                2 * old(self).path@.len(),
                event,
            ),
            final(self).path == old(self).path,
    {
        let stage = self.stage;
        let bytes: u64 = 2 * (self.path.len() as u64);
        let call = match stage {
            Stage::FindKernel => {
                match event {
                    Event::Failed(_) => {
                        self.stage = Stage::Finished;
                        return end(stage, Err(InjectError::KernelNotLoaded));
                    },
                    _ => {
                        self.stage = Stage::FindLoader;
                        return Action::Continue;
                    },
                }
            },
            Stage::FindLoader => {
                match event {
                    Event::Failed(_) => {
                        self.stage = Stage::Finished;
                        return end(stage, Err(InjectError::LoadLibraryNotFound));
                    },
                    _ => {
                        if self.has_nul() {
                            self.stage = Stage::Finished;
                            return end(stage, Err(InjectError::PathHasNul));
                        }
                        self.stage = Stage::Allocate;
                        return Action::Continue;
                    },
                }
            },
            Stage::Finished => {
                return end(stage, Err(InjectError::LoadLibraryFailed));
            },
            Stage::Allocate => RemoteCall::Allocate,
            Stage::Write => RemoteCall::Write,
            Stage::StartThread => RemoteCall::StartThread,
            Stage::Wait => RemoteCall::Wait,
            Stage::ExitCode => RemoteCall::ExitCode,
        };
        if let Event::Failed(c) = event {
            self.stage = Stage::Finished;
            return end(stage, Err(InjectError::Win32(call, c)));
        }
        match stage {
            Stage::Allocate => {
                self.stage = Stage::Write;
                Action::Continue
            },
            Stage::Write => {
                let mut code: u32 = 0;
                if let Event::Value { value, code: c } = event {
                    if value == bytes {
                        self.stage = Stage::StartThread;
                        return Action::Continue;
                    }
                    code = c;
                }
                self.stage = Stage::Finished;
                end(stage, Err(InjectError::Win32(call, code)))
            },
            Stage::StartThread => {
                self.stage = Stage::Wait;
                Action::Continue
            },
            Stage::Wait => {
                self.stage = Stage::ExitCode;
                Action::Continue
            },
            _ => {
                self.stage = Stage::Finished;
                if let Event::Value { value, .. } = event {
                    if value != 0 {
                        return end(stage, Ok(()));
                    }
                }
                end(stage, Err(InjectError::LoadLibraryFailed))
            },
        }
    }
}

/// The end of an injection releases the memory if it was allocated, and the
/// thread if it was started; and it succeeds only where the thread's result was
/// not 0.
pub proof fn law_injection_releases(stage: Stage, has_nul: bool, bytes: nat, event: Event)
    requires
        stage != Stage::Finished,
    ensures
        match follows(stage, has_nul, bytes, event) {
            (s, Action::Continue) => s != Stage::Finished,
            (s, Action::Finish { result, free_memory, close_thread }) => {
                &&& s == Stage::Finished
                &&& free_memory == (stage != Stage::FindKernel && stage != Stage::FindLoader
                    && stage != Stage::Allocate)
                &&& close_thread == (stage == Stage::Wait || stage == Stage::ExitCode)
                &&& result is Ok <==> stage == Stage::ExitCode && event is Value && event->value != 0
            },
        },
{
}

/// A path is refused exactly where it holds a NUL.
pub proof fn law_nul_is_refused(path: Seq<char>)
    ensures
        inner_nul(wide(path)) <==> path.contains('\0'),
{
    crate::wide::law_wide_terminator(path);
    assert(wide(path).drop_last() =~= crate::wide::utf16(path));
}

/// A library is put into a process step by step: the loader is found, room is
/// made, the whole path is written, a thread loads it, and its result says
/// whether that succeeded. Each step that fails ends the whole with its own
/// error.
pub proof fn law_injection_steps(bytes: nat, code: u32, value: u64, has_nul: bool)
    ensures
        follows(Stage::FindKernel, has_nul, bytes, Event::Done) == (
            Stage::FindLoader,
            Action::Continue,
        ),
        follows(Stage::FindLoader, false, bytes, Event::Done) == (
            Stage::Allocate,
            Action::Continue,
        ),
        follows(Stage::Allocate, has_nul, bytes, Event::Done) == (Stage::Write, Action::Continue),
        value == bytes ==> follows(Stage::Write, has_nul, bytes, Event::Value { value, code }) == (
            Stage::StartThread,
            Action::Continue,
        ),
        follows(Stage::StartThread, has_nul, bytes, Event::Done) == (Stage::Wait, Action::Continue),
        follows(Stage::Wait, has_nul, bytes, Event::Done) == (Stage::ExitCode, Action::Continue),
        value != 0 ==> (follows(Stage::ExitCode, has_nul, bytes, Event::Value { value, code }).1
            matches Action::Finish { result, .. } && result is Ok),
        value == 0 ==> finishes(
            follows(Stage::ExitCode, has_nul, bytes, Event::Value { value, code }),
            InjectError::LoadLibraryFailed,
        ),
        value != bytes ==> finishes(
            follows(Stage::Write, has_nul, bytes, Event::Value { value, code }),
            InjectError::Win32(RemoteCall::Write, code),
        ),
        finishes(
            follows(Stage::FindKernel, has_nul, bytes, Event::Failed(code)),
            InjectError::KernelNotLoaded,
        ),
        finishes(
            follows(Stage::FindLoader, has_nul, bytes, Event::Failed(code)),
            InjectError::LoadLibraryNotFound,
        ),
        finishes(
            follows(Stage::FindLoader, true, bytes, Event::Done),
            InjectError::PathHasNul,
        ),
        finishes(
            follows(Stage::Allocate, has_nul, bytes, Event::Failed(code)),
            InjectError::Win32(RemoteCall::Allocate, code),
        ),
        finishes(
            follows(Stage::Write, has_nul, bytes, Event::Failed(code)),
            InjectError::Win32(RemoteCall::Write, code),
        ),
        finishes(
            follows(Stage::StartThread, has_nul, bytes, Event::Failed(code)),
            InjectError::Win32(RemoteCall::StartThread, code),
        ),
        finishes(
            follows(Stage::Wait, has_nul, bytes, Event::Failed(code)),
            InjectError::Win32(RemoteCall::Wait, code),
        ),
        finishes(
            follows(Stage::ExitCode, has_nul, bytes, Event::Failed(code)),
            InjectError::Win32(RemoteCall::ExitCode, code),
        ),
{
}

/// Whether a step ends the whole with an error.
pub open spec fn finishes(next: (Stage, Action), e: InjectError) -> bool {
    next.0 == Stage::Finished && (next.1 matches Action::Finish { result, .. } && result == Err::<
        (),
        InjectError,
    >(e))
}

/// The calls go by the names that Windows gives them.
pub proof fn law_call_names(c: RemoteCall)
    ensures
        c == RemoteCall::Allocate ==> c.text() == "VirtualAllocEx"@,
        c == RemoteCall::Write ==> c.text() == "WriteProcessMemory"@,
        c == RemoteCall::StartThread ==> c.text() == "CreateRemoteThread"@,
        c == RemoteCall::Wait ==> c.text() == "WaitForSingleObject"@,
        c == RemoteCall::ExitCode ==> c.text() == "GetExitCodeThread"@,
{
}

} // verus!
