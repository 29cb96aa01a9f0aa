//! One client connection to the daemon: the streams it has started and how each line it
//! sends is answered. The connection's reading, writing and streaming happen around this
//! state machine; it decides what each line leads to.

use vstd::prelude::*;
use crate::settings::string_views;
use crate::text::str_eq;

verus! {

/// A line from the client, as the session needs it.
#[derive(Debug)]
pub enum ClientEvent {
    /// The client closed the connection.
    Closed,
    /// A line that is no valid request; `detail` says why.
    Invalid { detail: String },
    /// A request to stream logs or service states; `stream_id` is the identifier the
    /// daemon picked for the new stream.
    StartStream { stream_id: String },
    /// A request to stop the stream `stream_id`.
    StopStream { stream_id: String },
    /// Any other request.
    Request,
}

/// What the connection does with a line.
#[derive(Debug)]
pub enum ClientAction {
    /// Cancel these streams and end the connection.
    CancelAllAndClose { streams: Vec<String> },
    /// Answer with an error.
    SendError { code: String, message: String },
    /// Answer that the stream started, and start it.
    StartStream { stream_id: String },
    /// Answer that the stream ended; it is cancelled.
    SendStreamEnded { stream_id: String },
    /// Process the request and send its answer.
    Process,
}

/// The streams a client connection has running.
#[derive(Debug)]
pub struct ClientSession {
    pub active: Vec<String>,
}

/// The texts a sequence of strings holds.
pub open spec fn holds(v: Seq<Seq<char>>) -> Set<Seq<char>> {
    Set::new(|k: Seq<char>| v.contains(k))
}

/// A client line, as plain values.
pub enum EventView {
    Closed,
    Invalid(Seq<char>),
    StartStream(Seq<char>),
    StopStream(Seq<char>),
    Request,
}

/// What is done with a line, as plain values.
pub enum ActionView {
    CancelAllAndClose(Set<Seq<char>>),
    SendError(Seq<char>, Seq<char>),
    StartStream(Seq<char>),
    SendStreamEnded(Seq<char>),
    Process,
}

/// A client line, as plain values.
pub open spec fn event_view(e: ClientEvent) -> EventView {
    match e {
        ClientEvent::Closed => EventView::Closed,
        ClientEvent::Invalid { detail } => EventView::Invalid(detail@),
        ClientEvent::StartStream { stream_id } => EventView::StartStream(stream_id@),
        ClientEvent::StopStream { stream_id } => EventView::StopStream(stream_id@),
        ClientEvent::Request => EventView::Request,
    }
}

/// What is done with a line, as plain values.
pub open spec fn action_view(a: ClientAction) -> ActionView {
    match a {
        ClientAction::CancelAllAndClose { streams } => ActionView::CancelAllAndClose(holds(string_views(streams@))),
        ClientAction::SendError { code, message } => ActionView::SendError(code@, message@),
        ClientAction::StartStream { stream_id } => ActionView::StartStream(stream_id@),
        ClientAction::SendStreamEnded { stream_id } => ActionView::SendStreamEnded(stream_id@),
        ClientAction::Process => ActionView::Process,
    }
}

/// The streams running after a line: closing cancels them all, a new stream joins them,
/// a stop removes its stream; other lines change nothing.
pub open spec fn next_streams(active: Set<Seq<char>>, e: EventView) -> Set<Seq<char>> {
    match e {
        EventView::Closed => Set::empty(),
        EventView::StartStream(id) => active.insert(id),
        EventView::StopStream(id) => active.remove(id),
        _ => active,
    }
}

/// What a line leads to: closing cancels every running stream; a line that is no valid
/// request is answered `INVALID_REQUEST`; a new stream is started; stopping a running
/// stream ends it, and stopping any other is answered `STREAM_NOT_FOUND`; any other
/// request is processed.
pub open spec fn answer(active: Set<Seq<char>>, e: EventView) -> ActionView {
    match e {
        EventView::Closed => ActionView::CancelAllAndClose(active),
        EventView::Invalid(detail) => ActionView::SendError("INVALID_REQUEST"@, "Invalid JSON: "@ + detail),
        EventView::StartStream(id) => ActionView::StartStream(id),
        EventView::StopStream(id) => if active.contains(id) {
            ActionView::SendStreamEnded(id)
        } else {
            ActionView::SendError("STREAM_NOT_FOUND"@, "No active stream with id: "@ + id)
        },
        EventView::Request => ActionView::Process,
    }
}

impl ClientSession {
    /// The streams running.
    pub open spec fn streams(&self) -> Set<Seq<char>> {
        holds(string_views(self.active@))
    }

    /// A connection with no streams.
    pub fn new() -> (r: Self)
        ensures
            r.streams() == Set::<Seq<char>>::empty(),
    {
        let r = ClientSession { active: Vec::new() };
        assert(r.streams() =~= Set::<Seq<char>>::empty());
        r
    }

    /// Removes every stream called `id`; whether there was one.
    fn remove_stream(&mut self, id: &str) -> (found: bool)
        ensures
            found == old(self).streams().contains(id@),
            final(self).streams() == old(self).streams().remove(id@),
    {
        let ghost start = string_views(self.active@);
        let mut rest: Vec<String> = Vec::new();
        std::mem::swap(&mut rest, &mut self.active);
        let mut kept: Vec<String> = Vec::new();
        let mut found = false;
        let mut i: usize = 0;
        while i < rest.len()
            invariant
                i <= rest@.len(),
                string_views(rest@) == start,
                found == start.take(i as int).contains(id@),
                forall|k: Seq<char>| string_views(kept@).contains(k) <==> (start.take(i as int).contains(k) && k != id@),
            decreases rest@.len() - i,
        {
            let ghost before = start.take(i as int);
            let ghost after = start.take(i + 1);
            assert(after =~= before.push(rest@[i as int]@));
            assert(after[i as int] == rest@[i as int]@);
            if str_eq(rest[i].as_str(), id) {
                found = true;
                assert(after.contains(id@));
                assert forall|k: Seq<char>| string_views(kept@).contains(k) <==> (after.contains(k) && k != id@) by {
                    if after.contains(k) && k != id@ {
                        let j = choose|j: int| 0 <= j < i + 1 && after[j] == k;
                        assert(j != i);
                        assert(before[j] == k);
                    }
                }
            } else {
                let ghost old_kept = string_views(kept@);
                kept.push(rest[i].clone());
                assert(string_views(kept@) =~= old_kept.push(rest@[i as int]@));
                assert forall|k: Seq<char>| string_views(kept@).contains(k) <==> (after.contains(k) && k != id@) by {
                    if string_views(kept@).contains(k) {
                        let j = choose|j: int| 0 <= j < string_views(kept@).len() && string_views(kept@)[j] == k;
                        if j < old_kept.len() {
                            assert(old_kept[j] == k);
                            assert(old_kept.contains(k));
                            let m = choose|m: int| 0 <= m < before.len() && before[m] == k;
                            assert(after[m] == k);
                        } else {
                            assert(after[i as int] == k);
                        }
                    }
                    if after.contains(k) && k != id@ {
                        let j = choose|j: int| 0 <= j < i + 1 && after[j] == k;
                        if j < i {
                            assert(before[j] == k);
                            assert(old_kept.contains(k));
                            let m = choose|m: int| 0 <= m < old_kept.len() && old_kept[m] == k;
                            assert(string_views(kept@)[m] == k);
                        } else {
                            assert(string_views(kept@)[old_kept.len() as int] == k);
                        }
                    }
                }
            }
            proof {
                if after.contains(id@) && !before.contains(id@) {
                    let j = choose|j: int| 0 <= j < i + 1 && after[j] == id@;
                    if j < i {
                        assert(before[j] == id@);
                    }
                }
                if before.contains(id@) {
                    let j = choose|j: int| 0 <= j < before.len() && before[j] == id@;
                    assert(after[j] == id@);
                }
            }
            assert(found == after.contains(id@));
            i = i + 1;
            assert(after == start.take(i as int));
        }
        assert(start.take(rest@.len() as int) =~= start);
        self.active = kept;
        assert(self.streams() =~= old(self).streams().remove(id@));
        found
    }

    /// What the line `event` leads to, and the streams running after it (see `answer`
    /// and `next_streams`).
    pub fn step(&mut self, event: ClientEvent) -> (r: ClientAction)
        ensures
            action_view(r) == answer(old(self).streams(), event_view(event)),
            final(self).streams() == next_streams(old(self).streams(), event_view(event)),
    {
        match event {
            ClientEvent::Closed => {
                let mut streams: Vec<String> = Vec::new();
                std::mem::swap(&mut streams, &mut self.active);
                assert(self.streams() =~= Set::<Seq<char>>::empty());
                ClientAction::CancelAllAndClose { streams }
            },
            ClientEvent::Invalid { detail } => {
                let mut message = "Invalid JSON: ".to_owned();
                message.append(detail.as_str());
                ClientAction::SendError { code: "INVALID_REQUEST".to_owned(), message }
            },
            ClientEvent::StartStream { stream_id } => {
                let ghost before = string_views(self.active@);
                self.active.push(stream_id.clone());
                assert(string_views(self.active@) =~= before.push(stream_id@));
                assert forall|k: Seq<char>| self.streams().contains(k) <==> old(self).streams().insert(stream_id@).contains(k) by {
                    let now = string_views(self.active@);
                    if now.contains(k) {
                        let j = choose|j: int| 0 <= j < now.len() && now[j] == k;
                        if j < before.len() {
                            assert(before[j] == k);
                        }
                    }
                    if before.contains(k) {
                        let j = choose|j: int| 0 <= j < before.len() && before[j] == k;
                        assert(now[j] == k);
                    }
                    if k == stream_id@ {
                        assert(now[before.len() as int] == k);
                    }
                }
                assert(self.streams() =~= old(self).streams().insert(stream_id@));
                ClientAction::StartStream { stream_id }
            },
            ClientEvent::StopStream { stream_id } => {
                if self.remove_stream(stream_id.as_str()) {
                    ClientAction::SendStreamEnded { stream_id }
                } else {
                    let mut message = "No active stream with id: ".to_owned();
                    message.append(stream_id.as_str());
                    ClientAction::SendError { code: "STREAM_NOT_FOUND".to_owned(), message }
                }
            },
            ClientEvent::Request => ClientAction::Process,
        }
    }
}

/// A stream can be stopped once: after it is started, stopping it ends it, and stopping
/// it again is answered `STREAM_NOT_FOUND`; the other streams run on.
pub proof fn lemma_stream_stops_once(active: Set<Seq<char>>, id: Seq<char>, other: Seq<char>)
    ensures
        ({
            let started = next_streams(active, EventView::StartStream(id));
            let stopped = next_streams(started, EventView::StopStream(id));
            &&& answer(started, EventView::StopStream(id)) == ActionView::SendStreamEnded(id)
            &&& answer(stopped, EventView::StopStream(id)) == ActionView::SendError(
                "STREAM_NOT_FOUND"@,
                "No active stream with id: "@ + id,
            )
            &&& (other != id ==> (stopped.contains(other) <==> active.contains(other)))
        }),
{
}

} // verus!
