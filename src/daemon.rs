//! The daemon's main loop as a state machine: each command changes the
//! history and names the outside work that its surroundings must do.

use vstd::prelude::*;

use crate::codec::log_of;
use crate::entries::{pairs_view, EntrySeq};
use crate::store::{empty_label, offered, ClipboardStore};

verus! {

/// A reply of the main loop to a request that waits for one.
#[derive(Debug)]
pub enum ReverseCommand {
    SendLatest((Vec<u8>, String)),
    SendAll(Vec<(Vec<u8>, String)>),
}

/// A request to the main loop, from the IPC server or the clipboard watcher.
#[derive(Debug)]
pub enum Command {
    WriteToFile,
    ShutDown,
    Copy,
    DeleteAtIndex(usize),
    DeleteAll,
    GetLatest,
    GetAll,
    Paste(usize),
    PasteAndDelete(usize),
}

/// The type under which a payload goes back to the system clipboard.
#[derive(Debug)]
pub enum PasteMime {
    /// Plain text, for the label `text/plain`.
    Text,
    /// Any other label, as it stands.
    Specific(String),
}

/// What the main loop has its surroundings do after a command.
#[derive(Debug)]
pub enum Action {
    /// Nothing to do.
    Nothing,
    /// Read the system clipboard and hand what it holds to `Daemon::offer`.
    ReadClipboard,
    /// Put this payload on the system clipboard.
    WriteClipboard(Vec<u8>, PasteMime),
    /// A paste asked for an index that holds no entry.
    MissingIndex(usize),
    /// Send this reply to the waiting caller.
    Reply(ReverseCommand),
    /// Rewrite the log with these bytes.
    WriteLog(Vec<u8>),
    /// Empty the log.
    ClearLog,
    /// Rewrite the log with these bytes, then end the loop.
    WriteLogAndStop(Vec<u8>),
}

/// The label `text/plain`.
pub open spec fn text_label() -> Seq<char> {
    seq!['t', 'e', 'x', 't', '/', 'p', 'l', 'a', 'i', 'n']
}

/// Whether `r` puts payload `p` with label `m` back on the clipboard.
pub open spec fn writes_entry(r: Action, p: Seq<u8>, m: Seq<char>) -> bool {
    match r {
        Action::WriteClipboard(b, mime) => b@ == p && match mime {
            PasteMime::Text => m == text_label(),
            PasteMime::Specific(s) => m != text_label() && s@ == m,
        },
        _ => false,
    }
}

/// The clipboard type for an entry's label: plain text for `text/plain`, the
/// label itself otherwise.
pub fn paste_mime(label: &String) -> (r: PasteMime)
    ensures
        label@ == text_label() ==> r is Text,
        label@ != text_label() ==> (r matches PasteMime::Specific(s) && s@ == label@),
{
    let text = String::from_str("text/plain");
    proof {
        reveal_strlit("text/plain");
        assert(text@ =~= text_label());
    }
    if *label == text {
        PasteMime::Text
    } else {
        PasteMime::Specific(label.clone())
    }
}

/// How long the loop may go without writing its log, in seconds.
pub const FLUSH_INTERVAL_SECS: u64 = 300;

/// Whether the log is due to be rewritten, `elapsed_secs` after it last was.
pub fn flush_due(elapsed_secs: u64) -> (r: bool)
    ensures
        r == (elapsed_secs > FLUSH_INTERVAL_SECS),
{
    elapsed_secs > FLUSH_INTERVAL_SECS
}

/// What an IPC call for the latest entry answers for the loop's reply: the
/// entry sent, or the payload-less `"Empty"` marker when no entry came.
pub fn latest_from_reply(reply: Option<ReverseCommand>) -> (r: (Vec<u8>, String))
    ensures
        reply matches Some(ReverseCommand::SendLatest(e)) ==> r == e,
        !(reply matches Some(ReverseCommand::SendLatest(_))) ==> r.0@ == Seq::<u8>::empty() && r.1@ == empty_label(),
{
    match reply {
        Some(ReverseCommand::SendLatest(entry)) => entry,
        _ => {
            let label = String::from_str("Empty");
            proof {
                reveal_strlit("Empty");
            }
            (Vec::new(), label)
        },
    }
}

/// What an IPC call for every entry answers for the loop's reply: the entries
/// sent, or none when no list came.
pub fn all_from_reply(reply: Option<ReverseCommand>) -> (r: Vec<(Vec<u8>, String)>)
    ensures
        reply matches Some(ReverseCommand::SendAll(v)) ==> r == v,
        !(reply matches Some(ReverseCommand::SendAll(_))) ==> r@.len() == 0,
{
    match reply {
        Some(ReverseCommand::SendAll(items)) => items,
        _ => Vec::new(),
    }
}

/// The main loop's state: the history it owns, and whether it still runs.
pub struct Daemon {
    store: ClipboardStore,
    running: bool,
}

impl Daemon {
    pub closed spec fn history(&self) -> EntrySeq {
        self.store@
    }

    pub closed spec fn cap(&self) -> nat {
        self.store.cap()
    }

    pub closed spec fn runs(&self) -> bool {
        self.running
    }

    pub open spec fn wf(&self) -> bool {
        crate::entries::no_dup_keys(self.history()) && self.history().len() <= self.cap()
    }

    /// A running loop that owns `store`.
    pub fn new(store: ClipboardStore) -> (r: Self)
        requires
            store.wf(),
        ensures
            r.wf(),
            r.runs(),
            r.history() == store@,
            r.cap() == store.cap(),
    {
        Daemon { store, running: true }
    }

    pub fn store(&self) -> (r: &ClipboardStore)
        ensures
            r@ == self.history(),
            r.cap() == self.cap(),
    {
        &self.store
    }

    pub fn is_running(&self) -> (r: bool)
        ensures
            r == self.runs(),
    {
        self.running
    }

    /// Takes what the clipboard held after a `Copy`: a payload not yet held
    /// becomes the front entry.
    pub fn offer(&mut self, payload: Vec<u8>, mime: String)
        requires
            old(self).wf(),
        ensures
            final(self).wf(),
            final(self).runs() == old(self).runs(),
            final(self).cap() == old(self).cap(),
            final(self).history() == offered(old(self).history(), payload@, mime@, old(self).cap()),
    {
        self.store.insert_front(payload, mime);
    }

    /// Carries out one command and says what the surroundings must do. A loop
    /// that has stopped does nothing more.
    pub fn handle(&mut self, command: Command) -> (r: Action)
        requires
            old(self).wf(),
        ensures
            final(self).wf(),
            final(self).cap() == old(self).cap(),
            !old(self).runs() ==> r is Nothing && final(self).history() == old(self).history()
                && !final(self).runs(),
            old(self).runs() ==> handled(old(self).history(), command, r, final(self).history(), final(self).runs()),
    {
        if !self.running {
            return Action::Nothing;
        }
        self.store.enforce_capacity();
        match command {
            Command::WriteToFile => Action::WriteLog(self.store.to_log()),
            Command::ShutDown => {
                self.running = false;
                Action::WriteLogAndStop(self.store.to_log())
            },
            Command::Copy => Action::ReadClipboard,
            Command::DeleteAtIndex(index) => {
                self.store.remove_at(index);
                Action::Nothing
            },
            Command::DeleteAll => {
                self.store.clear();
                Action::ClearLog
            },
            Command::GetLatest => Action::Reply(ReverseCommand::SendLatest(self.store.latest())),
            Command::GetAll => Action::Reply(ReverseCommand::SendAll(self.store.all())),
            Command::Paste(index) => self.paste(index),
            Command::PasteAndDelete(index) => {
                let action = self.paste(index);
                self.store.remove_at(index);
                action
            },
        }
    }

    fn paste(&self, index: usize) -> (r: Action)
        ensures
            index < self.history().len() ==> writes_entry(r, self.history()[index as int].0, self.history()[index as int].1),
            index >= self.history().len() ==> r == Action::MissingIndex(index),
    {
        match self.store.get(index) {
            Some(entry) => {
                let mime = paste_mime(&entry.1);
                Action::WriteClipboard(entry.0, mime)
            },
            None => Action::MissingIndex(index),
        }
    }
}

/// What one command does to a running loop with history `s`: `r` is the
/// action it asks for, `t` the history after it, `runs` whether the loop goes on.
pub open spec fn handled(s: EntrySeq, command: Command, r: Action, t: EntrySeq, runs: bool) -> bool {
    match command {
        Command::WriteToFile => runs && t == s && (r matches Action::WriteLog(b) && b@ == log_of(s)),
        Command::ShutDown => !runs && t == s && (r matches Action::WriteLogAndStop(b) && b@ == log_of(s)),
        Command::Copy => runs && t == s && r is ReadClipboard,
        Command::DeleteAtIndex(i) => runs && r is Nothing && t == (if i < s.len() { s.remove(i as int) } else { s }),
        Command::DeleteAll => runs && r is ClearLog && t == Seq::<(Seq<u8>, Seq<char>)>::empty(),
        Command::GetLatest => runs && t == s && (r matches Action::Reply(ReverseCommand::SendLatest(e)) && (
        if s.len() > 0 {
            (e.0@, e.1@) == s[0]
        } else {
            e.0@ == Seq::<u8>::empty() && e.1@ == empty_label()
        })),
        Command::GetAll => runs && t == s && (r matches Action::Reply(ReverseCommand::SendAll(v)) && pairs_view(v@) == s),
        Command::Paste(i) => runs && t == s && (if i < s.len() {
            writes_entry(r, s[i as int].0, s[i as int].1)
        } else {
            r == Action::MissingIndex(i)
        }),
        Command::PasteAndDelete(i) => runs && (if i < s.len() {
            writes_entry(r, s[i as int].0, s[i as int].1) && t == s.remove(i as int)
        } else {
            r == Action::MissingIndex(i) && t == s
        }),
    }
}

} // verus!
