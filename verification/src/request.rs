//! The line protocol: one request per line, a command word (in any case)
//! followed by whitespace-separated arguments.

use vstd::prelude::*;

use crate::text::{
    ends_with, folded_is, has_suffix, join, join_range, lower_is, parse_u64, parse_u64_str,
    split_words, string_views, upper_is, views, words,
};

verus! {

#[derive(Debug, PartialEq, Eq)]
pub enum Request {
    GET(String),
    SET { key: String, value: String, expiration: Option<u64> },
    DEL(String),
    INCR(String),
    DECR(String),
    SAVE(String),
    LOAD(String),
    DROP(),
    PUB { channel: String, message: String },
    SUB(String),
    UNSUB(String),
    TTL(String),
    EXISTS(Vec<String>),
}

/// A request, with each string taken by its characters.
pub enum RequestView {
    GET(Seq<char>),
    SET { key: Seq<char>, value: Seq<char>, expiration: Option<u64> },
    DEL(Seq<char>),
    INCR(Seq<char>),
    DECR(Seq<char>),
    SAVE(Seq<char>),
    LOAD(Seq<char>),
    DROP(),
    PUB { channel: Seq<char>, message: Seq<char> },
    SUB(Seq<char>),
    UNSUB(Seq<char>),
    TTL(Seq<char>),
    EXISTS(Seq<Seq<char>>),
}

impl View for Request {
    type V = RequestView;

    open spec fn view(&self) -> RequestView {
        match self {
            Request::GET(k) => RequestView::GET(k@),
            Request::SET { key, value, expiration } => RequestView::SET {
                key: key@,
                value: value@,
                expiration: *expiration,
            },
            Request::DEL(k) => RequestView::DEL(k@),
            Request::INCR(k) => RequestView::INCR(k@),
            Request::DECR(k) => RequestView::DECR(k@),
            Request::SAVE(f) => RequestView::SAVE(f@),
            Request::LOAD(f) => RequestView::LOAD(f@),
            Request::DROP() => RequestView::DROP(),
            Request::PUB { channel, message } => RequestView::PUB {
                channel: channel@,
                message: message@,
            },
            Request::SUB(c) => RequestView::SUB(c@),
            Request::UNSUB(c) => RequestView::UNSUB(c@),
            Request::TTL(k) => RequestView::TTL(k@),
            Request::EXISTS(keys) => RequestView::EXISTS(string_views(keys@)),
        }
    }
}

/// A parse outcome, with the request or the error message by its characters.
pub open spec fn outcome(r: Result<Request, String>) -> Result<RequestView, Seq<char>> {
    match r {
        Ok(req) => Ok(req@),
        Err(e) => Err(e@),
    }
}

/// The rule shared by the commands that take exactly one argument.
pub open spec fn one_arg_spec(
    parts: Seq<Seq<char>>,
    too_few: Seq<char>,
    too_many: Seq<char>,
    made: RequestView,
) -> Result<RequestView, Seq<char>> {
    if parts.len() < 2 {
        Err(too_few)
    } else if parts.len() > 2 {
        Err(too_many)
    } else {
        Ok(made)
    }
}

pub open spec fn get_spec(parts: Seq<Seq<char>>) -> Result<RequestView, Seq<char>> {
    one_arg_spec(
        parts,
        "Invalid GET request. Too few arguments"@,
        "Invalid GET request. Too many arguments"@,
        RequestView::GET(parts[1]),
    )
}

pub open spec fn del_spec(parts: Seq<Seq<char>>) -> Result<RequestView, Seq<char>> {
    one_arg_spec(
        parts,
        "Invalid DEL request. Too few arguments"@,
        "Invalid DEL request. Too many arguments"@,
        RequestView::DEL(parts[1]),
    )
}

pub open spec fn incr_spec(parts: Seq<Seq<char>>) -> Result<RequestView, Seq<char>> {
    one_arg_spec(
        parts,
        "Invalid INCR request. Too few arguments"@,
        "Invalid INCR request. Too many arguments"@,
        RequestView::INCR(parts[1]),
    )
}

pub open spec fn decr_spec(parts: Seq<Seq<char>>) -> Result<RequestView, Seq<char>> {
    one_arg_spec(
        parts,
        "Invalid DECR request. Too few arguments"@,
        "Invalid DECR request. Too many arguments"@,
        RequestView::DECR(parts[1]),
    )
}

pub open spec fn sub_spec(parts: Seq<Seq<char>>) -> Result<RequestView, Seq<char>> {
    one_arg_spec(
        parts,
        "Invalid SUB request. Need channel argument."@,
        "Invalid SUB request. Too many arguments."@,
        RequestView::SUB(parts[1]),
    )
}

pub open spec fn unsub_spec(parts: Seq<Seq<char>>) -> Result<RequestView, Seq<char>> {
    one_arg_spec(
        parts,
        "Invalid UNSUB request. Need channel argument."@,
        "Invalid UNSUB request. Too many arguments."@,
        RequestView::UNSUB(parts[1]),
    )
}

pub open spec fn ttl_spec(parts: Seq<Seq<char>>) -> Result<RequestView, Seq<char>> {
    one_arg_spec(
        parts,
        "Invalid TTL request. Need key argument."@,
        "Invalid TTL request. Too many arguments."@,
        RequestView::TTL(parts[1]),
    )
}

pub open spec fn save_spec(parts: Seq<Seq<char>>) -> Result<RequestView, Seq<char>> {
    if parts.len() < 2 {
        Err("Invalid SAVE request. Need filename argument."@)
    } else if parts.len() > 2 {
        Err("Invalid SAVE request. Too many arguments"@)
    } else if !has_suffix(parts[1], ".json"@) {
        Err("Invalid SAVE request. Filename must end with .json"@)
    } else {
        Ok(RequestView::SAVE(parts[1]))
    }
}

pub open spec fn load_spec(parts: Seq<Seq<char>>) -> Result<RequestView, Seq<char>> {
    if parts.len() < 2 {
        Err("Invalid LOAD request. Need filename argument."@)
    } else if parts.len() > 2 {
        Err("Invalid LOAD request. Too many arguments"@)
    } else if !has_suffix(parts[1], ".json"@) {
        Err("Invalid LOAD request. Filename must end with .json"@)
    } else {
        Ok(RequestView::LOAD(parts[1]))
    }
}

pub open spec fn pub_spec(parts: Seq<Seq<char>>) -> Result<RequestView, Seq<char>> {
    if parts.len() < 3 {
        Err("Invalid PUB request. Need channel and message arguments."@)
    } else {
        Ok(
            RequestView::PUB {
                channel: parts[1],
                message: join(parts.subrange(2, parts.len() as int), " "@),
            },
        )
    }
}

pub open spec fn exists_spec(parts: Seq<Seq<char>>) -> Result<RequestView, Seq<char>> {
    if parts.len() < 2 {
        Err("Invalid EXISTS request. Need key argument."@)
    } else {
        Ok(RequestView::EXISTS(parts.subrange(1, parts.len() as int)))
    }
}

/// The first index at or after `i` of a part that reads `EXP` in any case.
pub open spec fn exp_index_from(parts: Seq<Seq<char>>, i: int) -> Option<int>
    decreases parts.len() - i,
{
    if i < 0 || i >= parts.len() {
        None
    } else if upper_is(parts[i], "EXP"@) {
        Some(i)
    } else {
        exp_index_from(parts, i + 1)
    }
}

pub open spec fn set_spec(parts: Seq<Seq<char>>) -> Result<RequestView, Seq<char>> {
    if parts.len() < 3 {
        Err("Invalid SET request. Too few arguments"@)
    } else {
        match exp_index_from(parts, 0) {
            Some(idx) => {
                if idx < 3 {
                    Err("Invalid SET request. EXP cannot be before key and value"@)
                } else if idx + 1 >= parts.len() {
                    Err("Invalid SET request. EXP requires a value"@)
                } else {
                    match parse_u64(parts[idx + 1]) {
                        Some(exp) => Ok(
                            RequestView::SET {
                                key: parts[1],
                                value: join(parts.subrange(2, idx), " "@),
                                expiration: Some(exp),
                            },
                        ),
                        None => Err("Invalid expiration value"@),
                    }
                }
            },
            None => Ok(
                RequestView::SET {
                    key: parts[1],
                    value: join(parts.subrange(2, parts.len() as int), " "@),
                    expiration: None,
                },
            ),
        }
    }
}

/// What a request line parses to: its words, the first chosen by
/// case-insensitive comparison with the command names.
pub open spec fn parse_spec(input: Seq<char>) -> Result<RequestView, Seq<char>> {
    let parts = words(input);
    if parts.len() == 0 {
        Err("Invalid request"@)
    } else {
        let cmd = parts[0];
        if lower_is(cmd, "get"@) {
            get_spec(parts)
        } else if lower_is(cmd, "set"@) {
            set_spec(parts)
        } else if lower_is(cmd, "del"@) {
            del_spec(parts)
        } else if lower_is(cmd, "incr"@) {
            incr_spec(parts)
        } else if lower_is(cmd, "decr"@) {
            decr_spec(parts)
        } else if lower_is(cmd, "save"@) {
            save_spec(parts)
        } else if lower_is(cmd, "load"@) {
            load_spec(parts)
        } else if lower_is(cmd, "drop"@) {
            Ok(RequestView::DROP())
        } else if lower_is(cmd, "pub"@) {
            pub_spec(parts)
        } else if lower_is(cmd, "sub"@) {
            sub_spec(parts)
        } else if lower_is(cmd, "unsub"@) {
            unsub_spec(parts)
        } else if lower_is(cmd, "ttl"@) {
            ttl_spec(parts)
        } else if lower_is(cmd, "exists"@) {
            exists_spec(parts)
        } else {
            Err("Unknown command"@)
        }
    }
}

fn err_msg(msg: &str) -> (r: Result<Request, String>)
    ensures
        outcome(r) == Err::<RequestView, Seq<char>>(msg@),
{
    Err(String::from_str(msg))
}

impl Request {
    /// Parses one request line.
    pub fn parse(input: &str) -> (r: Result<Self, String>)
        ensures
            outcome(r) == parse_spec(input@),
    {
        let parts = split_words(input);
        if parts.len() == 0 {
            return err_msg("Invalid request");
        }
        let cmd = parts[0];
        if folded_is(cmd, "get", true) {
            Request::get_callback(parts)
        } else if folded_is(cmd, "set", true) {
            Request::set_callback(parts)
        } else if folded_is(cmd, "del", true) {
            Request::del_callback(parts)
        } else if folded_is(cmd, "incr", true) {
            Request::incr_callback(parts)
        } else if folded_is(cmd, "decr", true) {
            Request::decr_callback(parts)
        } else if folded_is(cmd, "save", true) {
            Request::save_callback(parts)
        } else if folded_is(cmd, "load", true) {
            Request::load_callback(parts)
        } else if folded_is(cmd, "drop", true) {
            Request::drop_callback()
        } else if folded_is(cmd, "pub", true) {
            Request::pub_callback(parts)
        } else if folded_is(cmd, "sub", true) {
            Request::sub_callback(parts)
        } else if folded_is(cmd, "unsub", true) {
            Request::unsub_callback(parts)
        } else if folded_is(cmd, "ttl", true) {
            Request::ttl_callback(parts)
        } else if folded_is(cmd, "exists", true) {
            Request::exists_callback(parts)
        } else {
            err_msg("Unknown command")
        }
    }

    pub fn get_callback(parts: Vec<&str>) -> (r: Result<Self, String>)
        ensures
            outcome(r) == get_spec(views(parts@)),
    {
        if parts.len() < 2 {
            err_msg("Invalid GET request. Too few arguments")
        } else if parts.len() > 2 {
            err_msg("Invalid GET request. Too many arguments")
        } else {
            Ok(Request::GET(String::from_str(parts[1])))
        }
    }

    pub fn set_callback(parts: Vec<&str>) -> (r: Result<Self, String>)
        ensures
            outcome(r) == set_spec(views(parts@)),
    {
        let ghost ps = views(parts@);
        if parts.len() < 3 {
            return err_msg("Invalid SET request. Too few arguments");
        }
        let mut i: usize = 0;
        let mut exp_index: Option<usize> = None;
        while i < parts.len() && exp_index.is_none()
            invariant
                ps == views(parts@),
                i <= parts@.len(),
                exp_index is None ==> exp_index_from(ps, 0) == exp_index_from(ps, i as int),
                exp_index matches Some(idx) ==> exp_index_from(ps, 0) == Some(idx as int) && idx
                    < parts@.len(),
            decreases parts@.len() - i + (if exp_index is None { 1int } else { 0int }),
        {
            assert(ps[i as int] == parts@[i as int]@);
            if folded_is(parts[i], "EXP", false) {
                exp_index = Some(i);
            } else {
                i = i + 1;
            }
        }
        let key = String::from_str(parts[1]);
        match exp_index {
            Some(idx) => {
                if idx < 3 {
                    return err_msg("Invalid SET request. EXP cannot be before key and value");
                }
                if idx + 1 >= parts.len() {
                    return err_msg("Invalid SET request. EXP requires a value");
                }
                match parse_u64_str(parts[idx + 1]) {
                    Some(exp) => {
                        let value = join_range(&parts, 2, idx, " ");
                        Ok(Request::SET { key, value, expiration: Some(exp) })
                    },
                    None => err_msg("Invalid expiration value"),
                }
            },
            None => {
                let value = join_range(&parts, 2, parts.len(), " ");
                Ok(Request::SET { key, value, expiration: None })
            },
        }
    }

    pub fn del_callback(parts: Vec<&str>) -> (r: Result<Self, String>)
        ensures
            outcome(r) == del_spec(views(parts@)),
    {
        if parts.len() < 2 {
            err_msg("Invalid DEL request. Too few arguments")
        } else if parts.len() > 2 {
            err_msg("Invalid DEL request. Too many arguments")
        } else {
            Ok(Request::DEL(String::from_str(parts[1])))
        }
    }

    pub fn incr_callback(parts: Vec<&str>) -> (r: Result<Self, String>)
        ensures
            outcome(r) == incr_spec(views(parts@)),
    {
        if parts.len() < 2 {
            err_msg("Invalid INCR request. Too few arguments")
        } else if parts.len() > 2 {
            err_msg("Invalid INCR request. Too many arguments")
        } else {
            Ok(Request::INCR(String::from_str(parts[1])))
        }
    }

    pub fn decr_callback(parts: Vec<&str>) -> (r: Result<Self, String>)
        ensures
            outcome(r) == decr_spec(views(parts@)),
    {
        if parts.len() < 2 {
            err_msg("Invalid DECR request. Too few arguments")
        } else if parts.len() > 2 {
            err_msg("Invalid DECR request. Too many arguments")
        } else {
            Ok(Request::DECR(String::from_str(parts[1])))
        }
    }

    pub fn save_callback(parts: Vec<&str>) -> (r: Result<Self, String>)
        ensures
            outcome(r) == save_spec(views(parts@)),
    {
        if parts.len() < 2 {
            err_msg("Invalid SAVE request. Need filename argument.")
        } else if parts.len() > 2 {
            err_msg("Invalid SAVE request. Too many arguments")
        } else {
            if !ends_with(parts[1], ".json") {
                return err_msg("Invalid SAVE request. Filename must end with .json");
            }
            Ok(Request::SAVE(String::from_str(parts[1])))
        }
    }

    pub fn load_callback(parts: Vec<&str>) -> (r: Result<Self, String>)
        ensures
            outcome(r) == load_spec(views(parts@)),
    {
        if parts.len() < 2 {
            err_msg("Invalid LOAD request. Need filename argument.")
        } else if parts.len() > 2 {
            err_msg("Invalid LOAD request. Too many arguments")
        } else {
            if !ends_with(parts[1], ".json") {
                return err_msg("Invalid LOAD request. Filename must end with .json");
            }
            Ok(Request::LOAD(String::from_str(parts[1])))
        }
    }

    pub fn drop_callback() -> (r: Result<Self, String>)
        ensures
            outcome(r) == Ok::<RequestView, Seq<char>>(RequestView::DROP()),
    {
        Ok(Request::DROP())
    }

    pub fn pub_callback(parts: Vec<&str>) -> (r: Result<Self, String>)
        ensures
            outcome(r) == pub_spec(views(parts@)),
    {
        if parts.len() < 3 {
            err_msg("Invalid PUB request. Need channel and message arguments.")
        } else {
            let channel = String::from_str(parts[1]);
            let message = join_range(&parts, 2, parts.len(), " ");
            Ok(Request::PUB { channel, message })
        }
    }

    pub fn sub_callback(parts: Vec<&str>) -> (r: Result<Self, String>)
        ensures
            outcome(r) == sub_spec(views(parts@)),
    {
        if parts.len() < 2 {
            err_msg("Invalid SUB request. Need channel argument.")
        } else if parts.len() > 2 {
            err_msg("Invalid SUB request. Too many arguments.")
        } else {
            Ok(Request::SUB(String::from_str(parts[1])))
        }
    }

    pub fn unsub_callback(parts: Vec<&str>) -> (r: Result<Self, String>)
        ensures
            outcome(r) == unsub_spec(views(parts@)),
    {
        if parts.len() < 2 {
            err_msg("Invalid UNSUB request. Need channel argument.")
        } else if parts.len() > 2 {
            err_msg("Invalid UNSUB request. Too many arguments.")
        } else {
            Ok(Request::UNSUB(String::from_str(parts[1])))
        }
    }

    pub fn ttl_callback(parts: Vec<&str>) -> (r: Result<Self, String>)
        ensures
            outcome(r) == ttl_spec(views(parts@)),
    {
        if parts.len() < 2 {
            err_msg("Invalid TTL request. Need key argument.")
        } else if parts.len() > 2 {
            err_msg("Invalid TTL request. Too many arguments.")
        } else {
            Ok(Request::TTL(String::from_str(parts[1])))
        }
    }

    pub fn exists_callback(parts: Vec<&str>) -> (r: Result<Self, String>)
        ensures
            outcome(r) == exists_spec(views(parts@)),
    {
        if parts.len() < 2 {
            err_msg("Invalid EXISTS request. Need key argument.")
        } else {
            let mut keys: Vec<String> = Vec::new();
            let mut i: usize = 1;
            while i < parts.len()
                invariant
                    1 <= i <= parts@.len(),
                    string_views(keys@) =~= views(parts@).subrange(1, i as int),
                decreases parts@.len() - i,
            {
                let ghost before = keys@;
                keys.push(String::from_str(parts[i]));
                assert(string_views(keys@) =~= string_views(before).push(parts@[i as int]@));
                i = i + 1;
            }
            Ok(Request::EXISTS(keys))
        }
    }
}

} // verus!
