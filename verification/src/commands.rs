//! One struct per command, holding its arguments, and the `Command` trait
//! through which a parsed request is run as a command object.

use vstd::prelude::*;

use crate::dispatcher::{step, Dispatcher};
use crate::reply::Return;
use crate::stock::now_millis;
use crate::request::{Request, RequestView};
use crate::text::string_views;

verus! {

/// A command that runs against the server's state.
pub trait Command {
    /// The request that this command carries out.
    spec fn request(&self) -> RequestView;

    /// Runs the command for client `client_id`: it does what serving its
    /// request does, at the time it reads.
    fn execute(&self, d: &mut Dispatcher, client_id: u64) -> (r: Return)
        ensures
            exists|now: u64| #[trigger] step(old(d)@, self.request(), client_id, now, final(d)@, r@),
    ;
}

pub struct Get {
    pub key: String,
}

pub struct SetKey {
    pub key: String,
    pub value: String,
    pub expiration: Option<u64>,
}

pub struct Del {
    pub key: String,
}

pub struct Incr {
    pub key: String,
}

pub struct Decr {
    pub key: String,
}

pub struct Save {
    pub filename: String,
}

pub struct Load {
    pub filename: String,
}

pub struct Drop;

pub struct Publish {
    pub channel: String,
    pub message: String,
}

pub struct Subscribe {
    pub channel: String,
}

pub struct Unsubscribe {
    pub channel: String,
}

pub struct Ttl {
    pub key: String,
}

pub struct Exists {
    pub keys: Vec<String>,
}

fn clone_strings(v: &Vec<String>) -> (r: Vec<String>)
    ensures
        string_views(r@) == string_views(v@),
{
    let mut r: Vec<String> = Vec::new();
    let mut i: usize = 0;
    while i < v.len()
        invariant
            i <= v@.len(),
            string_views(r@) =~= string_views(v@).subrange(0, i as int),
        decreases v@.len() - i,
    {
        let ghost before = r@;
        r.push(v[i].clone());
        assert(string_views(r@) =~= string_views(before).push(v@[i as int]@));
        i = i + 1;
    }
    assert(string_views(v@).subrange(0, i as int) =~= string_views(v@));
    r
}

impl Command for Get {
    open spec fn request(&self) -> RequestView {
        RequestView::GET(self.key@)
    }

    fn execute(&self, d: &mut Dispatcher, client_id: u64) -> (r: Return) {
        let now = now_millis();
        let r = d.get_at(self.key.clone(), now);
        assert(step(old(d)@, self.request(), client_id, now, d@, r@));
        r
    }
}

impl Command for SetKey {
    open spec fn request(&self) -> RequestView {
        RequestView::SET { key: self.key@, value: self.value@, expiration: self.expiration }
    }

    fn execute(&self, d: &mut Dispatcher, client_id: u64) -> (r: Return) {
        let now = now_millis();
        let r = d.set_at(self.key.clone(), self.value.clone(), self.expiration, now);
        assert(step(old(d)@, self.request(), client_id, now, d@, r@));
        r
    }
}

impl Command for Del {
    open spec fn request(&self) -> RequestView {
        RequestView::DEL(self.key@)
    }

    fn execute(&self, d: &mut Dispatcher, client_id: u64) -> (r: Return) {
        let now = now_millis();
        let r = d.del_at(self.key.clone(), now);
        assert(step(old(d)@, self.request(), client_id, now, d@, r@));
        r
    }
}

impl Command for Incr {
    open spec fn request(&self) -> RequestView {
        RequestView::INCR(self.key@)
    }

    fn execute(&self, d: &mut Dispatcher, client_id: u64) -> (r: Return) {
        let now = now_millis();
        let r = d.incr_at(self.key.clone(), now);
        assert(step(old(d)@, self.request(), client_id, now, d@, r@));
        r
    }
}

impl Command for Decr {
    open spec fn request(&self) -> RequestView {
        RequestView::DECR(self.key@)
    }

    fn execute(&self, d: &mut Dispatcher, client_id: u64) -> (r: Return) {
        let now = now_millis();
        let r = d.decr_at(self.key.clone(), now);
        assert(step(old(d)@, self.request(), client_id, now, d@, r@));
        r
    }
}

impl Command for Save {
    open spec fn request(&self) -> RequestView {
        RequestView::SAVE(self.filename@)
    }

    /// Answers the file to write, which the caller hands back to
    /// `Dispatcher::finish_save` once written.
    fn execute(&self, d: &mut Dispatcher, client_id: u64) -> (r: Return) {
        let r = Return::Save(self.filename.clone());
        assert(step(old(d)@, self.request(), client_id, 0, d@, r@));
        r
    }
}

impl Command for Load {
    open spec fn request(&self) -> RequestView {
        RequestView::LOAD(self.filename@)
    }

    /// Answers the file to read, whose items the caller hands back to
    /// `Dispatcher::finish_load`.
    fn execute(&self, d: &mut Dispatcher, client_id: u64) -> (r: Return) {
        let r = Return::Load(self.filename.clone());
        assert(step(old(d)@, self.request(), client_id, 0, d@, r@));
        r
    }
}

impl Command for Drop {
    open spec fn request(&self) -> RequestView {
        RequestView::DROP()
    }

    fn execute(&self, d: &mut Dispatcher, client_id: u64) -> (r: Return) {
        let r = d.drop();
        assert(step(old(d)@, self.request(), client_id, 0, d@, r@));
        r
    }
}

impl Command for Publish {
    open spec fn request(&self) -> RequestView {
        RequestView::PUB { channel: self.channel@, message: self.message@ }
    }

    fn execute(&self, d: &mut Dispatcher, client_id: u64) -> (r: Return) {
        let r = d.publish(self.channel.clone(), self.message.clone());
        assert(step(old(d)@, self.request(), client_id, 0, d@, r@));
        r
    }
}

impl Command for Subscribe {
    open spec fn request(&self) -> RequestView {
        RequestView::SUB(self.channel@)
    }

    fn execute(&self, d: &mut Dispatcher, client_id: u64) -> (r: Return) {
        let r = d.subscribe(self.channel.clone(), client_id);
        assert(step(old(d)@, self.request(), client_id, 0, d@, r@));
        r
    }
}

impl Command for Unsubscribe {
    open spec fn request(&self) -> RequestView {
        RequestView::UNSUB(self.channel@)
    }

    fn execute(&self, d: &mut Dispatcher, client_id: u64) -> (r: Return) {
        let r = d.unsubscribe(self.channel.clone(), client_id);
        assert(step(old(d)@, self.request(), client_id, 0, d@, r@));
        r
    }
}

impl Command for Ttl {
    open spec fn request(&self) -> RequestView {
        RequestView::TTL(self.key@)
    }

    fn execute(&self, d: &mut Dispatcher, client_id: u64) -> (r: Return) {
        let now = now_millis();
        let r = d.ttl_at(self.key.clone(), now);
        assert(step(old(d)@, self.request(), client_id, now, d@, r@));
        r
    }
}

impl Command for Exists {
    open spec fn request(&self) -> RequestView {
        RequestView::EXISTS(string_views(self.keys@))
    }

    fn execute(&self, d: &mut Dispatcher, client_id: u64) -> (r: Return) {
        let now = now_millis();
        let r = d.keys_exist_at(clone_strings(&self.keys), now);
        assert(step(old(d)@, self.request(), client_id, now, d@, r@));
        r
    }
}

/// Any one command. (A function returning `Box<dyn Command>` cannot carry
/// a contract in Verus, so `into_command` returns this enum, which is a
/// `Command` itself.)
pub enum AnyCommand {
    Get(Get),
    SetKey(SetKey),
    Del(Del),
    Incr(Incr),
    Decr(Decr),
    Save(Save),
    Load(Load),
    Drop(Drop),
    Publish(Publish),
    Subscribe(Subscribe),
    Unsubscribe(Unsubscribe),
    Ttl(Ttl),
    Exists(Exists),
}

impl Command for AnyCommand {
    open spec fn request(&self) -> RequestView {
        match self {
            AnyCommand::Get(c) => c.request(),
            AnyCommand::SetKey(c) => c.request(),
            AnyCommand::Del(c) => c.request(),
            AnyCommand::Incr(c) => c.request(),
            AnyCommand::Decr(c) => c.request(),
            AnyCommand::Save(c) => c.request(),
            AnyCommand::Load(c) => c.request(),
            AnyCommand::Drop(c) => c.request(),
            AnyCommand::Publish(c) => c.request(),
            AnyCommand::Subscribe(c) => c.request(),
            AnyCommand::Unsubscribe(c) => c.request(),
            AnyCommand::Ttl(c) => c.request(),
            AnyCommand::Exists(c) => c.request(),
        }
    }

    fn execute(&self, d: &mut Dispatcher, client_id: u64) -> (r: Return) {
        let r = match self {
            AnyCommand::Get(c) => c.execute(d, client_id),
            AnyCommand::SetKey(c) => c.execute(d, client_id),
            AnyCommand::Del(c) => c.execute(d, client_id),
            AnyCommand::Incr(c) => c.execute(d, client_id),
            AnyCommand::Decr(c) => c.execute(d, client_id),
            AnyCommand::Save(c) => c.execute(d, client_id),
            AnyCommand::Load(c) => c.execute(d, client_id),
            AnyCommand::Drop(c) => c.execute(d, client_id),
            AnyCommand::Publish(c) => c.execute(d, client_id),
            AnyCommand::Subscribe(c) => c.execute(d, client_id),
            AnyCommand::Unsubscribe(c) => c.execute(d, client_id),
            AnyCommand::Ttl(c) => c.execute(d, client_id),
            AnyCommand::Exists(c) => c.execute(d, client_id),
        };
        proof {
            let now = choose|now: u64| #[trigger]
                step(old(d)@, self.request(), client_id, now, d@, r@);
            assert(step(old(d)@, self.request(), client_id, now, d@, r@));
        }
        r
    }
}

impl Request {
    /// The command object that carries out this request.
    pub fn into_command(self) -> (c: AnyCommand)
        ensures
            c.request() == self@,
    {
        match self {
            Request::GET(key) => AnyCommand::Get(Get { key }),
            Request::SET { key, value, expiration } => AnyCommand::SetKey(
                SetKey { key, value, expiration },
            ),
            Request::DEL(key) => AnyCommand::Del(Del { key }),
            Request::INCR(key) => AnyCommand::Incr(Incr { key }),
            Request::DECR(key) => AnyCommand::Decr(Decr { key }),
            Request::SAVE(filename) => AnyCommand::Save(Save { filename }),
            Request::LOAD(filename) => AnyCommand::Load(Load { filename }),
            Request::DROP() => AnyCommand::Drop(Drop),
            Request::PUB { channel, message } => AnyCommand::Publish(Publish { channel, message }),
            Request::SUB(channel) => AnyCommand::Subscribe(Subscribe { channel }),
            Request::UNSUB(channel) => AnyCommand::Unsubscribe(Unsubscribe { channel }),
            Request::TTL(key) => AnyCommand::Ttl(Ttl { key }),
            Request::EXISTS(keys) => AnyCommand::Exists(Exists { keys }),
        }
    }
}

/// Runs `req` as a command object for client `client_id`: the same as
/// serving it.
pub fn run(req: Request, d: &mut Dispatcher, client_id: u64) -> (r: Return)
    ensures
        exists|now: u64| #[trigger] step(old(d)@, req@, client_id, now, final(d)@, r@),
{
    let c = req.into_command();
    c.execute(d, client_id)
}

} // verus!
