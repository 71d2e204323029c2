//! One client's connection as a state machine: the caller waits for
//! something to happen on the connection, hands it over as an event, and
//! carries out the action that comes back.

use tokio::sync::broadcast::Receiver;
use vstd::prelude::*;

use crate::dispatcher::{ok_answer, step, Dispatcher, DispatcherView};
use crate::reply::{response_of, Return, ReturnView};
use crate::request::{parse_spec, Request};
use crate::stock::{item_views, items_map, ItemView};

verus! {

/// What happened on a client's connection.
pub enum ClientEvent {
    /// A line was read.
    Line(String),
    /// The client closed the connection.
    EndOfInput,
    /// Reading failed.
    ReadError,
    /// Writing to the client failed.
    WriteFailed,
    /// A message arrived on the channel the client listens to.
    Message(String),
    /// The channel the client listens to has closed.
    ChannelClosed,
    /// The client fell behind on its channel and missed messages.
    Lagged,
    /// The file of a `SAVE` was written, with this outcome.
    Saved(Result<String, String>),
    /// The file of a `LOAD` was read, with these items or this error.
    Loaded(Result<Vec<(String, String, Option<u64>)>, String>),
}

/// What the caller does next on the connection.
pub enum ClientAction {
    /// Write this text to the client.
    Write(String),
    /// Write this text to the client, then listen to this channel instead of
    /// any earlier one.
    Listen(Receiver<String>, String),
    /// Write the stored items to this file and hand back `Saved`.
    Save(String),
    /// Read items from this file and hand back `Loaded`.
    Load(String),
    /// Close the connection.
    Disconnect,
    /// Nothing.
    Nothing,
}

pub enum ClientEventView {
    Line(Seq<char>),
    EndOfInput,
    ReadError,
    WriteFailed,
    Message(Seq<char>),
    ChannelClosed,
    Lagged,
    Saved(Result<Seq<char>, Seq<char>>),
    Loaded(Result<Seq<ItemView>, Seq<char>>),
}

pub enum ClientActionView {
    Write(Seq<char>),
    Listen(Seq<char>),
    Save(Seq<char>),
    Load(Seq<char>),
    Disconnect,
    Nothing,
}

impl View for ClientEvent {
    type V = ClientEventView;

    open spec fn view(&self) -> ClientEventView {
        match self {
            ClientEvent::Line(l) => ClientEventView::Line(l@),
            ClientEvent::EndOfInput => ClientEventView::EndOfInput,
            ClientEvent::ReadError => ClientEventView::ReadError,
            ClientEvent::WriteFailed => ClientEventView::WriteFailed,
            ClientEvent::Message(m) => ClientEventView::Message(m@),
            ClientEvent::ChannelClosed => ClientEventView::ChannelClosed,
            ClientEvent::Lagged => ClientEventView::Lagged,
            ClientEvent::Saved(o) => ClientEventView::Saved(
                match o {
                    Ok(m) => Ok(m@),
                    Err(e) => Err(e@),
                },
            ),
            ClientEvent::Loaded(o) => ClientEventView::Loaded(
                match o {
                    Ok(items) => Ok(item_views(items@)),
                    Err(e) => Err(e@),
                },
            ),
        }
    }
}

impl View for ClientAction {
    type V = ClientActionView;

    open spec fn view(&self) -> ClientActionView {
        match self {
            ClientAction::Write(t) => ClientActionView::Write(t@),
            ClientAction::Listen(_, t) => ClientActionView::Listen(t@),
            ClientAction::Save(f) => ClientActionView::Save(f@),
            ClientAction::Load(f) => ClientActionView::Load(f@),
            ClientAction::Disconnect => ClientActionView::Disconnect,
            ClientAction::Nothing => ClientActionView::Nothing,
        }
    }
}

/// What the caller does with an answer to a request line.
pub open spec fn action_for(r: ReturnView) -> ClientActionView {
    match r {
        ReturnView::Subscribe => ClientActionView::Listen(response_of(r)),
        ReturnView::Save(f) => ClientActionView::Save(f),
        ReturnView::Load(f) => ClientActionView::Load(f),
        _ => ClientActionView::Write(response_of(r)),
    }
}

/// Whether the client listens to a channel after the answer `r`: a new
/// subscription starts listening, an unsubscription stops it, anything
/// else leaves it as it was.
pub open spec fn listens_after(listening: bool, r: ReturnView) -> bool {
    r is Subscribe || (listening && !(r is Unsubscribe))
}

/// The state after the client `client` is gone.
pub open spec fn without_client(s: DispatcherView, client: u64) -> DispatcherView {
    DispatcherView { subscriptions: s.subscriptions.remove(client), ..s }
}

/// The event `ev` from client `client`, which listens to a channel when
/// `listening`, handled at `now`, takes state `s` to `t`, with action `a`,
/// and the client listens afterwards when `listening_after`.
pub open spec fn on_event(
    s: DispatcherView,
    client: u64,
    listening: bool,
    ev: ClientEventView,
    now: u64,
    t: DispatcherView,
    a: ClientActionView,
    listening_after: bool,
) -> bool {
    match ev {
        ClientEventView::EndOfInput | ClientEventView::ReadError | ClientEventView::WriteFailed => {
            &&& t == without_client(s, client)
            &&& a == ClientActionView::Disconnect
            &&& !listening_after
        },
        ClientEventView::Message(m) => {
            &&& t == s
            &&& a == ClientActionView::Write(m + "\r\n"@)
            &&& listening_after == listening
        },
        ClientEventView::ChannelClosed => {
            &&& t == s
            &&& a == ClientActionView::Nothing
            &&& !listening_after
        },
        ClientEventView::Lagged => {
            &&& t == s
            &&& a == ClientActionView::Nothing
            &&& listening_after == listening
        },
        ClientEventView::Saved(o) => {
            &&& t == s
            &&& a == ClientActionView::Write(
                response_of(
                    match o {
                        Ok(m) => ReturnView::Reply(m),
                        Err(e) => ReturnView::Error(e),
                    },
                ),
            )
            &&& listening_after == listening
        },
        ClientEventView::Loaded(o) => {
            &&& match o {
                Ok(items) => t == s.with_stock(items_map(items)) && a == ClientActionView::Write(
                    response_of(ok_answer()),
                ),
                Err(e) => t == s && a == ClientActionView::Write(
                    response_of(ReturnView::Error(e)),
                ),
            }
            &&& listening_after == listening
        },
        ClientEventView::Line(l) => {
            if l.len() == 0 {
                t == s && a == ClientActionView::Nothing && listening_after == listening
            } else {
                match parse_spec(l) {
                    Err(e) => {
                        &&& t == s
                        &&& a == ClientActionView::Write(response_of(ReturnView::Error(e)))
                        &&& listening_after == listening
                    },
                    Ok(req) => exists|r: ReturnView|
                        {
                            &&& #[trigger] step(s, req, client, now, t, r)
                            &&& a == action_for(r)
                            &&& listening_after == listens_after(listening, r)
                        },
                }
            }
        },
    }
}

impl Dispatcher {
    /// Handles one event on the connection of client `client_id`, which
    /// listens to a channel when `listening`, now. Answers the action to
    /// carry out and whether the client listens to a channel afterwards.
    pub fn on_client_event(&mut self, client_id: u64, listening: bool, ev: ClientEvent) -> (r: (
        ClientAction,
        bool,
    ))
        ensures
            exists|now: u64|
                #[trigger] on_event(
                    old(self)@,
                    client_id,
                    listening,
                    ev@,
                    now,
                    final(self)@,
                    r.0@,
                    r.1,
                ),
    {
        let now = crate::stock::now_millis();
        self.on_client_event_at(client_id, listening, ev, now)
    }

    /// Handles one event on the connection of client `client_id` at `now`.
    pub fn on_client_event_at(
        &mut self,
        client_id: u64,
        listening: bool,
        ev: ClientEvent,
        now: u64,
    ) -> (r: (ClientAction, bool))
        ensures
            on_event(old(self)@, client_id, listening, ev@, now, final(self)@, r.0@, r.1),
    {
        match ev {
            ClientEvent::EndOfInput | ClientEvent::ReadError | ClientEvent::WriteFailed => {
                self.cleanup_client(client_id);
                (ClientAction::Disconnect, false)
            },
            ClientEvent::Message(m) => {
                let mut t = m;
                t.append("\r\n");
                (ClientAction::Write(t), listening)
            },
            ClientEvent::ChannelClosed => (ClientAction::Nothing, false),
            ClientEvent::Lagged => (ClientAction::Nothing, listening),
            ClientEvent::Saved(o) => {
                let r = self.finish_save(o);
                (ClientAction::Write(r.response_text()), listening)
            },
            ClientEvent::Loaded(o) => {
                let r = self.finish_load(o);
                (ClientAction::Write(r.response_text()), listening)
            },
            ClientEvent::Line(l) => {
                if l.as_str().unicode_len() == 0 {
                    return (ClientAction::Nothing, listening);
                }
                match Request::parse(l.as_str()) {
                    Err(e) => {
                        let r = Return::Error(e);
                        (ClientAction::Write(r.response_text()), listening)
                    },
                    Ok(req) => {
                        let answer = self.dispatch_at(req, client_id, now);
                        match answer {
                            Return::Subscribe(rx) => {
                                let t = String::from_str("Subscribed\r\n");
                                (ClientAction::Listen(rx, t), true)
                            },
                            Return::Save(f) => (ClientAction::Save(f), listening),
                            Return::Load(f) => (ClientAction::Load(f), listening),
                            Return::Unsubscribe => {
                                let t = answer.response_text();
                                (ClientAction::Write(t), false)
                            },
                            _ => {
                                let t = answer.response_text();
                                (ClientAction::Write(t), listening)
                            },
                        }
                    },
                }
            },
        }
    }
}

} // verus!
