//! Commands: side effects returned by updates and carried out by the host.
use vstd::prelude::*;
use crate::entity::EntityRef;
use crate::identity::DefId;
use crate::msg::Msg;
use crate::value::ValueMap;

verus! {

/// A side effect for the host to carry out.
#[derive(Debug)]
pub enum Cmd {
    /// Nothing to do.
    Nothing,
    /// Several commands.
    Batch(Vec<Cmd>),
    /// Emit a message back into the runtime.
    Emit(Msg),
    /// Schedule a message after a delay in ticks.
    Schedule { msg: Msg, delay_ticks: u64 },
    /// Persist the current state.
    PersistState,
    /// Load a persisted state.
    LoadState,
    /// Show a notification.
    Notify { kind: DefId, title: String, message: String, target: EntityRef, params: ValueMap },
    /// Play a sound; `volume` holds the bits of an `f32`.
    PlaySound { sound_id: DefId, volume: u32 },
    /// Save the game to a slot.
    SaveGame { slot: String },
    /// Load the game from a slot.
    LoadGame { slot: String },
    /// Log a message.
    Log { level: LogLevel, message: String },
}

/// Severity of a logged message.
#[derive(Debug, Clone, Copy, PartialEq, Eq, Structural)]
pub enum LogLevel {
    Debug,
    Info,
    Warn,
    Error,
}

/// The commands that a command stands for in a flattened batch: none for `Nothing`, the
/// inner commands of a batch, itself otherwise.
pub open spec fn flat_part(c: Cmd) -> Seq<Cmd> {
    match c {
        Cmd::Nothing => Seq::empty(),
        Cmd::Batch(inner) => inner@,
        other => seq![other],
    }
}

/// The commands of `cmds` flattened one level, with `Nothing` dropped.
pub open spec fn flatten(cmds: Seq<Cmd>) -> Seq<Cmd>
    decreases cmds.len(),
{
    if cmds.len() == 0 {
        Seq::empty()
    } else {
        flatten(cmds.drop_last()) + flat_part(cmds.last())
    }
}

impl Cmd {
    /// No command.
    pub fn none() -> (r: Self)
        ensures
            r is Nothing,
    {
        Cmd::Nothing
    }

    /// Combine commands: nested batches are flattened one level and `Nothing` is dropped;
    /// nothing left gives `Nothing`, one command gives that command.
    pub fn batch(cmds: Vec<Cmd>) -> (r: Self)
        ensures
            flatten(cmds@).len() == 0 ==> r is Nothing,
            flatten(cmds@).len() == 1 ==> r == flatten(cmds@)[0],
            flatten(cmds@).len() > 1 ==> (r matches Cmd::Batch(v) && v@ == flatten(cmds@)),
    {
        let ghost all = cmds@;
        let mut rest = cmds;
        let mut rev: Vec<Cmd> = Vec::new();
        let n = rest.len();
        while rest.len() > 0
            invariant
                n == all.len(),
                rest@.len() + rev@.len() == n,
                rest@ == all.subrange(0, rest@.len() as int),
                forall|k: int| 0 <= k < rev@.len() ==> #[trigger] rev@[k] == all[n - 1 - k],
            decreases rest@.len(),
        {
            let c = rest.pop().unwrap();
            rev.push(c);
            assert(rest@ =~= all.subrange(0, rest@.len() as int));
        }
        let mut out: Vec<Cmd> = Vec::new();
        let mut done: usize = 0;
        while rev.len() > 0
            invariant
                n == all.len(),
                rev@.len() + done == n,
                forall|k: int| 0 <= k < rev@.len() ==> #[trigger] rev@[k] == all[n - 1 - k],
                out@ == flatten(all.subrange(0, done as int)),
            decreases rev@.len(),
        {
            let c = rev.pop().unwrap();
            assert(c == all[done as int]);
            let ghost before = out@;
            match c {
                Cmd::Nothing => {},
                Cmd::Batch(inner) => {
                    let mut inner = inner;
                    out.append(&mut inner);
                },
                other => {
                    out.push(other);
                },
            }
            proof {
                let s = all.subrange(0, done + 1);
                assert(s.drop_last() =~= all.subrange(0, done as int));
                assert(s.last() == all[done as int]);
                assert(out@ =~= before + flat_part(all[done as int]));
            }
            done = done + 1;
        }
        assert(all.subrange(0, n as int) =~= all);
        if out.len() == 0 {
            Cmd::Nothing
        } else if out.len() == 1 {
            out.pop().unwrap()
        } else {
            Cmd::Batch(out)
        }
    }

    /// Emit a message.
    pub fn emit(msg: Msg) -> (r: Self)
        ensures
            r == Cmd::Emit(msg),
    {
        Cmd::Emit(msg)
    }

    /// Schedule a message after a delay.
    pub fn schedule(msg: Msg, delay_ticks: u64) -> (r: Self)
        ensures
            r == (Cmd::Schedule { msg, delay_ticks }),
    {
        Cmd::Schedule { msg, delay_ticks }
    }

    /// A notification with no target and no parameters.
    pub fn notify(kind: &str, title: &str, message: &str) -> (r: Self)
        ensures
            (r matches Cmd::Notify { kind: k, title: t, message: m, target, params } && k@ == kind@
                && t@ == title@ && m@ == message@ && target == EntityRef::NoTarget && params@.len() == 0),
    {
        Cmd::Notify {
            kind: DefId::new(kind),
            title: String::from_str(title),
            message: String::from_str(message),
            target: EntityRef::NoTarget,
            params: ValueMap::new(),
        }
    }

    /// Log a message at a level.
    pub fn log(level: LogLevel, message: &str) -> (r: Self)
        ensures
            (r matches Cmd::Log { level: l, message: m } && l == level && m@ == message@),
    {
        Cmd::Log { level, message: String::from_str(message) }
    }

    /// Log a debug message.
    pub fn debug(message: &str) -> (r: Self)
        ensures
            (r matches Cmd::Log { level: l, message: m } && l == LogLevel::Debug && m@ == message@),
    {
        Self::log(LogLevel::Debug, message)
    }

    /// Log an informational message.
    pub fn info(message: &str) -> (r: Self)
        ensures
            (r matches Cmd::Log { level: l, message: m } && l == LogLevel::Info && m@ == message@),
    {
        Self::log(LogLevel::Info, message)
    }

    /// Whether this is `Nothing`.
    pub fn is_none(&self) -> (r: bool)
        ensures
            r == (*self is Nothing),
    {
        match self {
            Cmd::Nothing => true,
            _ => false,
        }
    }
}

} // verus!
