//! What a command answers.

use tokio::sync::broadcast::Receiver;
use vstd::prelude::*;

verus! {

/// The receiving half of a `tokio` broadcast channel, carried opaquely.
#[verifier::external_type_specification]
#[verifier::external_body]
#[verifier::reject_recursive_types(T)]
pub struct ExReceiver<T>(Receiver<T>);

/// The answer to a request. `Save` and `Load` are requests to write or
/// read the named file, which the caller carries out (see
/// `Dispatcher::finish_save` and `Dispatcher::finish_load`).
#[derive(Debug)]
pub enum Return {
    Reply(String),
    Error(String),
    NotFound(String),
    Subscribe(Receiver<String>),
    Unsubscribe,
    Save(String),
    Load(String),
}

/// An answer, with its text by characters; a subscription is known only by
/// its variant.
pub enum ReturnView {
    Reply(Seq<char>),
    Error(Seq<char>),
    NotFound(Seq<char>),
    Subscribe,
    Unsubscribe,
    Save(Seq<char>),
    Load(Seq<char>),
}

impl View for Return {
    type V = ReturnView;

    open spec fn view(&self) -> ReturnView {
        match self {
            Return::Reply(s) => ReturnView::Reply(s@),
            Return::Error(s) => ReturnView::Error(s@),
            Return::NotFound(s) => ReturnView::NotFound(s@),
            Return::Subscribe(_) => ReturnView::Subscribe,
            Return::Unsubscribe => ReturnView::Unsubscribe,
            Return::Save(f) => ReturnView::Save(f@),
            Return::Load(f) => ReturnView::Load(f@),
        }
    }
}

/// Two answers are equal when they are the same variant with the same text;
/// a subscription equals nothing, not even itself.
pub open spec fn same_answer(a: ReturnView, b: ReturnView) -> bool {
    match (a, b) {
        (ReturnView::Reply(x), ReturnView::Reply(y)) => x == y,
        (ReturnView::Error(x), ReturnView::Error(y)) => x == y,
        (ReturnView::NotFound(x), ReturnView::NotFound(y)) => x == y,
        (ReturnView::Unsubscribe, ReturnView::Unsubscribe) => true,
        (ReturnView::Save(x), ReturnView::Save(y)) => x == y,
        (ReturnView::Load(x), ReturnView::Load(y)) => x == y,
        _ => false,
    }
}

impl PartialEq for Return {
    fn eq(&self, other: &Self) -> (r: bool) {
        match (self, other) {
            (Return::Reply(a), Return::Reply(b)) => *a == *b,
            (Return::Error(a), Return::Error(b)) => *a == *b,
            (Return::NotFound(a), Return::NotFound(b)) => *a == *b,
            (Return::Unsubscribe, Return::Unsubscribe) => true,
            (Return::Subscribe(_), Return::Subscribe(_)) => false,
            (Return::Save(a), Return::Save(b)) => *a == *b,
            (Return::Load(a), Return::Load(b)) => *a == *b,
            _ => false,
        }
    }
}

impl vstd::std_specs::cmp::PartialEqSpecImpl for Return {
    open spec fn obeys_eq_spec() -> bool {
        true
    }

    open spec fn eq_spec(&self, other: &Return) -> bool {
        same_answer(self@, other@)
    }
}

/// The line that a client is sent for an answer.
/// (A file request is not yet an answer and has no line of its own.)
pub open spec fn response_of(r: ReturnView) -> Seq<char> {
    match r {
        ReturnView::Reply(v) => v + "\r\n"@,
        ReturnView::Error(e) => "Error: "@ + e + "\r\n"@,
        ReturnView::NotFound(k) => "Key '"@ + k + "' not found\r\n"@,
        ReturnView::Subscribe => "Subscribed\r\n"@,
        ReturnView::Unsubscribe => "Unsubscribed\r\n"@,
        ReturnView::Save(_) => Seq::empty(),
        ReturnView::Load(_) => Seq::empty(),
    }
}

impl Return {
    /// The line that a client is sent for this answer.
    pub fn response_text(&self) -> (r: String)
        requires
            !(self@ is Save),
            !(self@ is Load),
        ensures
            r@ == response_of(self@),
    {
        match self {
            Return::Reply(v) => {
                let mut r = v.clone();
                r.append("\r\n");
                r
            },
            Return::Error(e) => {
                let mut r = String::from_str("Error: ");
                r.append(e.as_str());
                r.append("\r\n");
                r
            },
            Return::NotFound(k) => {
                let mut r = String::from_str("Key '");
                r.append(k.as_str());
                r.append("' not found\r\n");
                r
            },
            Return::Subscribe(_) => String::from_str("Subscribed\r\n"),
            Return::Unsubscribe => String::from_str("Unsubscribed\r\n"),
            Return::Save(_) | Return::Load(_) => vstd::pervasive::unreached(),
        }
    }
}

} // verus!
