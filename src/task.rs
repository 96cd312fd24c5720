//! The state machine of one download task. The caller performs each action
//! that `advance` returns and reports what came of it as the next event.
use vstd::prelude::*;

verus! {

#[derive(Clone, Copy, Debug, PartialEq, Eq, Structural)]
pub enum Phase {
    /// Waiting for a concurrency slot.
    Pending,
    /// Holding a slot; the destination is being looked up.
    Checking,
    /// The metadata record is being written.
    SavingMetadata,
    /// The request for the media file has been issued.
    Requesting,
    /// The body is being appended to the destination file.
    Downloading,
    Skipped,
    Completed,
    Failed,
}

#[derive(Clone, Copy, Debug, PartialEq, Eq, Structural)]
pub enum Event {
    SlotAcquired,
    DestinationChecked { exists: bool },
    /// The metadata write ended, successfully or with a warning.
    MetadataHandled,
    ResponseReceived { content_length: Option<u64> },
    ChunkWritten { len: u64 },
    StreamEnded,
    /// A network or filesystem error.
    Error,
}

/// What the caller does next.
#[derive(Clone, Copy, Debug, PartialEq, Eq, Structural)]
pub enum Action {
    AcquireSlot,
    CheckDestination,
    SaveMetadata,
    Fetch,
    ReadChunk,
    /// The task has ended; nothing more is to be done.
    Stop,
}

#[derive(Clone, Copy, Debug, PartialEq, Eq, Structural)]
pub struct DownloadTask {
    pub phase: Phase,
    pub save_metadata: bool,
    /// The size announced by the server, where it announced a positive one.
    pub total: Option<u64>,
    /// Bytes written so far.
    pub downloaded: u64,
}

pub open spec fn is_terminal(p: Phase) -> bool {
    p == Phase::Skipped || p == Phase::Completed || p == Phase::Failed
}

/// The action that a task in phase `p` waits on.
pub open spec fn awaited(p: Phase) -> Action {
    match p {
        Phase::Pending => Action::AcquireSlot,
        Phase::Checking => Action::CheckDestination,
        Phase::SavingMetadata => Action::SaveMetadata,
        Phase::Requesting => Action::Fetch,
        Phase::Downloading => Action::ReadChunk,
        _ => Action::Stop,
    }
}

pub open spec fn with_phase(t: DownloadTask, p: Phase) -> DownloadTask {
    DownloadTask { phase: p, ..t }
}

pub open spec fn sat_add(a: u64, b: u64) -> u64 {
    if a + b > u64::MAX { u64::MAX } else { (a + b) as u64 }
}

/// One transition: the task after `e`, and the action to perform next.
/// An event that the current phase does not expect changes nothing.
pub open spec fn step(t: DownloadTask, e: Event) -> (DownloadTask, Action) {
    if is_terminal(t.phase) {
        (t, Action::Stop)
    } else {
        match (t.phase, e) {
            (_, Event::Error) => (with_phase(t, Phase::Failed), Action::Stop),
            (Phase::Pending, Event::SlotAcquired) => (with_phase(t, Phase::Checking), Action::CheckDestination),
            (Phase::Checking, Event::DestinationChecked { exists }) => if exists {
                (with_phase(t, Phase::Skipped), Action::Stop)
            } else if t.save_metadata {
                (with_phase(t, Phase::SavingMetadata), Action::SaveMetadata)
            } else {
                (with_phase(t, Phase::Requesting), Action::Fetch)
            },
            (Phase::SavingMetadata, Event::MetadataHandled) => (with_phase(t, Phase::Requesting), Action::Fetch),
            (Phase::Requesting, Event::ResponseReceived { content_length }) => (
                DownloadTask {
                    phase: Phase::Downloading,
                    total: match content_length {
                        Some(n) => if n > 0 { Some(n) } else { None },
                        None => None,
                    },
                    downloaded: 0,
                    ..t
                },
                Action::ReadChunk,
            ),
            (Phase::Downloading, Event::ChunkWritten { len }) => (
                DownloadTask { downloaded: sat_add(t.downloaded, len), ..t },
                Action::ReadChunk,
            ),
            (Phase::Downloading, Event::StreamEnded) => (with_phase(t, Phase::Completed), Action::Stop),
            _ => (t, awaited(t.phase)),
        }
    }
}

/// The actions taken while the events `evs` arrive in order.
pub open spec fn actions(t: DownloadTask, evs: Seq<Event>) -> Seq<Action>
    decreases evs.len(),
{
    if evs.len() == 0 {
        Seq::empty()
    } else {
        let (t2, a) = step(t, evs[0]);
        seq![a] + actions(t2, evs.skip(1))
    }
}

/// The task after the events `evs`.
pub open spec fn run(t: DownloadTask, evs: Seq<Event>) -> DownloadTask
    decreases evs.len(),
{
    if evs.len() == 0 {
        t
    } else {
        run(step(t, evs[0]).0, evs.skip(1))
    }
}

impl DownloadTask {
    /// A task that has not yet acquired a slot.
    pub fn new(save_metadata: bool) -> (r: DownloadTask)
        ensures
            r == (DownloadTask { phase: Phase::Pending, save_metadata, total: None, downloaded: 0 }),
    {
        DownloadTask { phase: Phase::Pending, save_metadata, total: None, downloaded: 0 }
    }

    pub fn is_finished(&self) -> (r: bool)
        ensures
            r == is_terminal(self.phase),
    {
        match self.phase {
            Phase::Skipped | Phase::Completed | Phase::Failed => true,
            _ => false,
        }
    }

    /// The action a new task starts with.
    pub fn first_action(&self) -> (r: Action)
        ensures
            r == awaited(self.phase),
    {
        match self.phase {
            Phase::Pending => Action::AcquireSlot,
            Phase::Checking => Action::CheckDestination,
            Phase::SavingMetadata => Action::SaveMetadata,
            Phase::Requesting => Action::Fetch,
            Phase::Downloading => Action::ReadChunk,
            _ => Action::Stop,
        }
    }

    /// Takes one event and returns the next action.
    pub fn advance(&mut self, e: Event) -> (r: Action)
        ensures
            (*final(self), r) == step(*old(self), e),
    {
        if self.is_finished() {
            return Action::Stop;
        }
        match (self.phase, e) {
            (_, Event::Error) => {
                self.phase = Phase::Failed;
                Action::Stop
            },
            (Phase::Pending, Event::SlotAcquired) => {
                self.phase = Phase::Checking;
                Action::CheckDestination
            },
            (Phase::Checking, Event::DestinationChecked { exists }) => {
                if exists {
                    self.phase = Phase::Skipped;
                    Action::Stop
                } else if self.save_metadata {
                    self.phase = Phase::SavingMetadata;
                    Action::SaveMetadata
                } else {
                    self.phase = Phase::Requesting;
                    Action::Fetch
                }
            },
            (Phase::SavingMetadata, Event::MetadataHandled) => {
                self.phase = Phase::Requesting;
                Action::Fetch
            },
            (Phase::Requesting, Event::ResponseReceived { content_length }) => {
                self.phase = Phase::Downloading;
                self.total = match content_length {
                    Some(n) => if n > 0 { Some(n) } else { None },
                    None => None,
                };
                self.downloaded = 0;
                Action::ReadChunk
            },
            (Phase::Downloading, Event::ChunkWritten { len }) => {
                self.downloaded = self.downloaded.saturating_add(len);
                Action::ReadChunk
            },
            (Phase::Downloading, Event::StreamEnded) => {
                self.phase = Phase::Completed;
                Action::Stop
            },
            _ => self.first_action(),
        }
    }
}

proof fn lemma_terminal_stays(t: DownloadTask, evs: Seq<Event>)
    requires
        is_terminal(t.phase),
    ensures
        run(t, evs) == t,
        forall|k: int| 0 <= k < actions(t, evs).len() ==> #[trigger] actions(t, evs)[k] == Action::Stop,
    decreases evs.len(),
{
    if evs.len() > 0 {
        lemma_terminal_stays(t, evs.skip(1));
        let a = actions(t, evs);
        assert forall|k: int| 0 <= k < a.len() implies #[trigger] a[k] == Action::Stop by {
            if k > 0 {
                assert(a[k] == actions(t, evs.skip(1))[k - 1]);
            }
        }
    }
}

/// A task whose destination already exists ends `Skipped`, and whatever
/// events follow, it never asks for the network.
pub proof fn lemma_existing_destination_skips(save_metadata: bool, rest: Seq<Event>)
    ensures
        ({
            let t = DownloadTask { phase: Phase::Pending, save_metadata, total: None, downloaded: 0 };
            let evs = seq![Event::SlotAcquired, Event::DestinationChecked { exists: true }] + rest;
            &&& run(t, evs).phase == Phase::Skipped
            &&& forall|k: int| 0 <= k < actions(t, evs).len() ==> #[trigger] actions(t, evs)[k] != Action::Fetch
        }),
{
    let t = DownloadTask { phase: Phase::Pending, save_metadata, total: None, downloaded: 0 };
    let evs = seq![Event::SlotAcquired, Event::DestinationChecked { exists: true }] + rest;
    assert(evs[0] == Event::SlotAcquired);
    assert(evs[1] == Event::DestinationChecked { exists: true });
    let t1 = with_phase(t, Phase::Checking);
    let t2 = with_phase(t1, Phase::Skipped);
    assert(step(t, evs[0]) == (t1, Action::CheckDestination));
    assert(evs.skip(1).skip(1) =~= rest);
    assert(evs.skip(1)[0] == evs[1]);
    assert(step(t1, evs.skip(1)[0]) == (t2, Action::Stop));
    lemma_terminal_stays(t2, rest);
    assert(run(t1, evs.skip(1)) == run(t2, rest));
    assert(actions(t1, evs.skip(1)) == seq![Action::Stop] + actions(t2, rest));
    let a = actions(t, evs);
    assert(a == seq![Action::CheckDestination] + (seq![Action::Stop] + actions(t2, rest)));
    assert forall|k: int| 0 <= k < a.len() implies #[trigger] a[k] != Action::Fetch by {
        if k >= 2 {
            assert(a[k] == actions(t2, rest)[k - 2]);
        }
    }
}

} // verus!
