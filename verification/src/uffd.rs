//! The userfaultfd object: how it is set up, and the messages that drive its handler.
use vstd::prelude::*;
use crate::mmap::{Mmap, PAGE_SZ_2M};

verus! {

/// Features that a userfaultfd object can have.
#[derive(Debug, Clone, Copy, PartialEq, Eq, Structural)]
pub struct FeatureFlags {
    /// Removals are put in the queue.
    pub event_remove: bool,
    /// Missing pages of hugetlbfs are reported.
    pub missing_hugetlbfs: bool,
    /// Writes to write-protected pages are resolved by the kernel.
    pub wp_async: bool,
}

/// Operations that a userfaultfd object can offer.
#[derive(Debug, Clone, Copy, PartialEq, Eq, Structural)]
pub struct IoctlFlags {
    pub register: bool,
    pub unregister: bool,
}

/// The faults that a range is registered for.
#[derive(Debug, Clone, Copy, PartialEq, Eq, Structural)]
pub struct RegisterMode {
    pub missing: bool,
    pub write_protect: bool,
}

/// A range of addresses.
#[derive(Debug, Clone, Copy, PartialEq, Eq, Structural)]
pub struct Range {
    pub start: usize,
    pub len: usize,
}

/// How a userfaultfd object is set up. [`Setup::steps`] gives the order.
#[derive(Debug, Clone, Copy, PartialEq, Eq, Structural)]
pub struct Setup {
    pub user_mode_only: bool,
    pub non_blocking: bool,
    pub close_on_exec: bool,
    pub features: FeatureFlags,
    pub ioctls: IoctlFlags,
    pub register: Range,
    pub mode: RegisterMode,
    pub write_protect: Option<Range>,
}

/// One step in setting a userfaultfd object up.
#[derive(Debug, Clone, Copy, PartialEq, Eq, Structural)]
pub enum SetupStep {
    /// Create the object.
    Create {
        user_mode_only: bool,
        non_blocking: bool,
        close_on_exec: bool,
        features: FeatureFlags,
        ioctls: IoctlFlags,
    },
    /// Register a range with the object.
    Register { range: Range, mode: RegisterMode },
    /// Write-protect a range.
    WriteProtect(Range),
    /// Spawn the handler thread.
    Spawn,
}

/// A message between the main thread and the handler thread.
#[derive(Debug, Clone, Copy, PartialEq, Eq, Structural)]
pub enum Message {
    /// To the handler: serve a round.
    Continue,
    /// From the handler: the round has been served.
    Done,
    /// To the handler: end.
    Exit,
}

/// What the handler does when it gets a message.
#[derive(Debug, Clone, Copy, PartialEq, Eq, Structural)]
pub enum Command {
    /// Serve a round, and report it.
    Serve,
    /// End.
    Return,
}

/// Sets up a userfaultfd object for a region.
pub struct UffdManager {
    pub uffd_features: FeatureFlags,
    pub uffd_ioctls: IoctlFlags,
    pub uffd_mode: RegisterMode,
    pub mmap: Mmap,
}

/// The main thread's end of the handler thread.
pub struct UffdHandler {}

/// The command in a message to the handler, if it is one.
pub open spec fn command_of(message: Message) -> Option<Command> {
    match message {
        Message::Continue => Some(Command::Serve),
        Message::Exit => Some(Command::Return),
        Message::Done => None,
    }
}

/// The name of a message.
pub open spec fn message_name(message: Message) -> Seq<char> {
    match message {
        Message::Continue => "Continue"@,
        Message::Done => "Done"@,
        Message::Exit => "Exit"@,
    }
}

/// The steps of a setup: the object is created, the range is registered, the other range is
/// write-protected if there is one, and last the handler thread is spawned.
pub open spec fn setup_steps(setup: Setup) -> Seq<SetupStep> {
    let create = SetupStep::Create {
        user_mode_only: setup.user_mode_only,
        non_blocking: setup.non_blocking,
        close_on_exec: setup.close_on_exec,
        features: setup.features,
        ioctls: setup.ioctls,
    };
    let register = SetupStep::Register { range: setup.register, mode: setup.mode };
    match setup.write_protect {
        Some(range) => seq![create, register, SetupStep::WriteProtect(range), SetupStep::Spawn],
        None => seq![create, register, SetupStep::Spawn],
    }
}

/// What a manager asks for: not for user mode only, without blocking, closed on exec, with its own
/// features, requests and mode, and with the whole of its region registered, and protected if the
/// pages are huge.
pub open spec fn setup_of(manager: UffdManager) -> Setup {
    let region = Range { start: manager.mmap.addr, len: manager.mmap.len };
    Setup {
        user_mode_only: false,
        non_blocking: true,
        close_on_exec: true,
        features: manager.uffd_features,
        ioctls: manager.uffd_ioctls,
        register: region,
        mode: manager.uffd_mode,
        write_protect: if manager.mmap.page_size == PAGE_SZ_2M {
            Some(region)
        } else {
            None
        },
    }
}

impl Setup {
    /// The steps of the setup, in order.
    pub fn steps(&self) -> (steps: Vec<SetupStep>)
        ensures
            steps@ == setup_steps(*self),
            steps@[1] == (SetupStep::Register { range: self.register, mode: self.mode }),
            steps@[steps@.len() - 1] == SetupStep::Spawn,
    {
        let mut steps: Vec<SetupStep> = vec![
            SetupStep::Create {
                user_mode_only: self.user_mode_only,
                non_blocking: self.non_blocking,
                close_on_exec: self.close_on_exec,
                features: self.features,
                ioctls: self.ioctls,
            },
            SetupStep::Register { range: self.register, mode: self.mode },
        ];
        if let Some(range) = self.write_protect {
            steps.push(SetupStep::WriteProtect(range));
        }
        steps.push(SetupStep::Spawn);
        steps
    }
}

impl UffdManager {
    /// A manager that asks for removals, for missing pages of hugetlbfs and for asynchronous write
    /// protection, and registers for missing and for write-protected pages.
    pub fn new(mmap: Mmap) -> (manager: UffdManager)
        ensures
            manager.uffd_features == (FeatureFlags {
                event_remove: true,
                missing_hugetlbfs: true,
                wp_async: true,
            }),
            manager.uffd_ioctls == (IoctlFlags { register: true, unregister: true }),
            manager.uffd_mode == (RegisterMode { missing: true, write_protect: true }),
            manager.mmap == mmap,
    {
        UffdManager {
            uffd_features: FeatureFlags {
                event_remove: true,
                missing_hugetlbfs: true,
                wp_async: true,
            },
            uffd_ioctls: IoctlFlags { register: true, unregister: true },
            uffd_mode: RegisterMode { missing: true, write_protect: true },
            mmap,
        }
    }

    /// The requests that set the object up. The whole region is registered; it is write-protected
    /// from the start if its pages are huge, and otherwise not at all.
    pub fn start(&self) -> (setup: Setup)
        ensures
            !setup.user_mode_only,
            setup.non_blocking,
            setup.close_on_exec,
            setup.features == self.uffd_features,
            setup.ioctls == self.uffd_ioctls,
            setup.register == (Range { start: self.mmap.addr, len: self.mmap.len }),
            setup.mode == self.uffd_mode,
            setup.write_protect == if self.mmap.page_size == PAGE_SZ_2M {
                Some(setup.register)
            } else {
                None
            },
            setup == setup_of(*self),
            setup_steps(setup)[1] == (SetupStep::Register {
                range: Range { start: self.mmap.addr, len: self.mmap.len },
                mode: self.uffd_mode,
            }),
    {
        let region = Range { start: self.mmap.addr, len: self.mmap.len };
        Setup {
            user_mode_only: false,
            non_blocking: true,
            close_on_exec: true,
            features: self.uffd_features,
            ioctls: self.uffd_ioctls,
            register: region,
            mode: self.uffd_mode,
            write_protect: if self.mmap.page_size == PAGE_SZ_2M {
                Some(region)
            } else {
                None
            },
        }
    }
}

impl UffdHandler {
    /// The message that lets the handler serve a round.
    pub fn thaw(&self) -> (message: Message)
        ensures
            message == Message::Continue,
    {
        Message::Continue
    }

    /// The message that ends the handler.
    pub fn stop(self) -> (message: Message)
        ensures
            message == Message::Exit,
    {
        Message::Exit
    }

    /// Whether a message from the handler reports a round.
    pub fn wait(&self, resp: Message) -> (done: bool)
        ensures
            done == (resp == Message::Done),
    {
        resp == Message::Done
    }
}

impl Message {
    /// The name of the message.
    pub fn name(self) -> (name: &'static str)
        ensures
            name@ == message_name(self),
    {
        match self {
            Message::Continue => "Continue",
            Message::Done => "Done",
            Message::Exit => "Exit",
        }
    }

    /// What the handler does when it gets the message; a report is not for it to get.
    pub fn command(self) -> (command: Option<Command>)
        ensures
            command == command_of(self),
    {
        match self {
            Message::Continue => Some(Command::Serve),
            Message::Exit => Some(Command::Return),
            Message::Done => None,
        }
    }
}

} // verus!
