use vstd::prelude::*;
use vstd::string::StringExecFns;

use crate::value::{Kvpair, VValue, Value};

verus! {

/// Status code of a successful response.
pub const STATUS_OK: u32 = 200;

/// Status code of a request whose entry is absent.
pub const STATUS_NOT_FOUND: u32 = 404;

/// Status code of a request that carries no command.
pub const STATUS_BAD_REQUEST: u32 = 400;

/// Status code of a backend or conversion failure.
pub const STATUS_INTERNAL: u32 = 500;

#[derive(Clone, Debug, PartialEq, Eq)]
pub struct Hget {
    pub table: String,
    pub key: String,
}

#[derive(Clone, Debug, PartialEq, Eq)]
pub struct Hgetall {
    pub table: String,
}

#[derive(Clone, Debug, PartialEq, Eq)]
pub struct Hset {
    pub table: String,
    pub pair: Option<Kvpair>,
}

#[derive(Clone, Debug, PartialEq, Eq)]
pub struct Hmget {
    pub table: String,
    pub keys: Vec<String>,
}

#[derive(Clone, Debug, PartialEq, Eq)]
pub struct Hmset {
    pub table: String,
    pub pairs: Vec<Kvpair>,
}

#[derive(Clone, Debug, PartialEq, Eq)]
pub struct Hdel {
    pub table: String,
    pub key: String,
}

#[derive(Clone, Debug, PartialEq, Eq)]
pub struct Hmdel {
    pub table: String,
    pub keys: Vec<String>,
}

#[derive(Clone, Debug, PartialEq, Eq)]
pub struct Hexist {
    pub table: String,
    pub key: String,
}

#[derive(Clone, Debug, PartialEq, Eq)]
pub struct Hmexist {
    pub table: String,
    pub keys: Vec<String>,
}

/// The command a request carries.
#[derive(Clone, Debug, PartialEq, Eq)]
pub enum RequestData {
    Hget(Hget),
    Hgetall(Hgetall),
    Hset(Hset),
    Hmget(Hmget),
    Hmset(Hmset),
    Hdel(Hdel),
    Hmdel(Hmdel),
    Hexist(Hexist),
    Hmexist(Hmexist),
}

/// A request: one command, or none when the request is malformed.
#[derive(Clone, Debug, PartialEq, Eq)]
pub struct CommandRequest {
    pub request_data: Option<RequestData>,
}

impl CommandRequest {
    pub fn new_hget(table: &str, key: &str) -> (r: CommandRequest)
        ensures
            r.request_data matches Some(RequestData::Hget(p)) && p.table@ == table@ && p.key@
                == key@,
    {
        CommandRequest {
            request_data: Some(
                RequestData::Hget(Hget { table: table.to_string(), key: key.to_string() }),
            ),
        }
    }

    pub fn new_hgetall(table: &str) -> (r: CommandRequest)
        ensures
            r.request_data matches Some(RequestData::Hgetall(p)) && p.table@ == table@,
    {
        CommandRequest {
            request_data: Some(RequestData::Hgetall(Hgetall { table: table.to_string() })),
        }
    }

    pub fn new_hset(table: &str, key: &str, value: Value) -> (r: CommandRequest)
        ensures
            r.request_data matches Some(RequestData::Hset(p)) && p.table@ == table@ && (
            p.pair matches Some(kv) && kv@ == (key@, value@)),
    {
        CommandRequest {
            request_data: Some(
                RequestData::Hset(
                    Hset { table: table.to_string(), pair: Some(Kvpair::new(key, value)) },
                ),
            ),
        }
    }

    pub fn new_hmget(table: &str, keys: Vec<String>) -> (r: CommandRequest)
        ensures
            r.request_data matches Some(RequestData::Hmget(p)) && p.table@ == table@ && p.keys
                == keys,
    {
        CommandRequest {
            request_data: Some(RequestData::Hmget(Hmget { table: table.to_string(), keys })),
        }
    }

    pub fn new_hmset(table: &str, pairs: Vec<Kvpair>) -> (r: CommandRequest)
        ensures
            r.request_data matches Some(RequestData::Hmset(p)) && p.table@ == table@ && p.pairs
                == pairs,
    {
        CommandRequest {
            request_data: Some(RequestData::Hmset(Hmset { table: table.to_string(), pairs })),
        }
    }

    pub fn new_hdel(table: &str, key: &str) -> (r: CommandRequest)
        ensures
            r.request_data matches Some(RequestData::Hdel(p)) && p.table@ == table@ && p.key@
                == key@,
    {
        CommandRequest {
            request_data: Some(
                RequestData::Hdel(Hdel { table: table.to_string(), key: key.to_string() }),
            ),
        }
    }

    pub fn new_hmdel(table: &str, keys: Vec<String>) -> (r: CommandRequest)
        ensures
            r.request_data matches Some(RequestData::Hmdel(p)) && p.table@ == table@ && p.keys
                == keys,
    {
        CommandRequest {
            request_data: Some(RequestData::Hmdel(Hmdel { table: table.to_string(), keys })),
        }
    }

    pub fn new_hexist(table: &str, key: &str) -> (r: CommandRequest)
        ensures
            r.request_data matches Some(RequestData::Hexist(p)) && p.table@ == table@ && p.key@
                == key@,
    {
        CommandRequest {
            request_data: Some(
                RequestData::Hexist(Hexist { table: table.to_string(), key: key.to_string() }),
            ),
        }
    }

    pub fn new_hmexist(table: &str, keys: Vec<String>) -> (r: CommandRequest)
        ensures
            r.request_data matches Some(RequestData::Hmexist(p)) && p.table@ == table@ && p.keys
                == keys,
    {
        CommandRequest {
            request_data: Some(RequestData::Hmexist(Hmexist { table: table.to_string(), keys })),
        }
    }
}

/// Mathematical model of a [`CommandResponse`].
pub ghost struct RespView {
    pub status: u32,
    pub message: Seq<char>,
    pub values: Seq<VValue>,
    pub pairs: Seq<(Seq<char>, VValue)>,
}

/// The reply to one request.
#[derive(Clone, Debug, PartialEq, Eq, Default)]
pub struct CommandResponse {
    pub status: u32,
    pub message: String,
    pub values: Vec<Value>,
    pub pairs: Vec<Kvpair>,
}

pub open spec fn values_view(vs: Seq<Value>) -> Seq<VValue> {
    vs.map_values(|v: Value| v@)
}

pub open spec fn pairs_view(ps: Seq<Kvpair>) -> Seq<(Seq<char>, VValue)> {
    ps.map_values(|p: Kvpair| p@)
}

impl View for CommandResponse {
    type V = RespView;

    open spec fn view(&self) -> RespView {
        RespView {
            status: self.status,
            message: self.message@,
            values: values_view(self.values@),
            pairs: pairs_view(self.pairs@),
        }
    }
}

/// A successful response carrying values.
pub open spec fn ok_values(values: Seq<VValue>) -> RespView {
    RespView { status: STATUS_OK, message: Seq::empty(), values, pairs: Seq::empty() }
}

/// A successful response carrying pairs.
pub open spec fn ok_pairs(pairs: Seq<(Seq<char>, VValue)>) -> RespView {
    RespView { status: STATUS_OK, message: Seq::empty(), values: Seq::empty(), pairs }
}

/// A failed response: a code and a diagnostic, no payload.
pub open spec fn failure(status: u32, message: Seq<char>) -> RespView {
    RespView { status, message, values: Seq::empty(), pairs: Seq::empty() }
}

impl CommandResponse {
    /// A successful response with one value.
    pub fn from_value(v: Value) -> (r: CommandResponse)
        ensures
            r@ == ok_values(seq![v@]),
    {
        let mut values: Vec<Value> = Vec::new();
        values.push(v);
        let r = CommandResponse { status: STATUS_OK, message: String::new(), values, pairs: Vec::new() };
        assert(r@.values =~= seq![v@]);
        assert(r@.pairs =~= Seq::<(Seq<char>, VValue)>::empty());
        r
    }

    /// A successful response with the given values, in order.
    pub fn from_values(values: Vec<Value>) -> (r: CommandResponse)
        ensures
            r@ == ok_values(values_view(values@)),
    {
        let r = CommandResponse { status: STATUS_OK, message: String::new(), values, pairs: Vec::new() };
        assert(r@.pairs =~= Seq::<(Seq<char>, VValue)>::empty());
        r
    }

    /// A successful response with the given pairs, in order.
    pub fn from_pairs(pairs: Vec<Kvpair>) -> (r: CommandResponse)
        ensures
            r@ == ok_pairs(pairs_view(pairs@)),
    {
        let r = CommandResponse { status: STATUS_OK, message: String::new(), values: Vec::new(), pairs };
        assert(r@.values =~= Seq::<VValue>::empty());
        r
    }

    /// The failed response that reports an error.
    pub fn from_error(e: KvError) -> (r: CommandResponse)
        ensures
            r@ == failure(e.status(), e.message()),
    {
        let status = e.code();
        let message = e.describe();
        let r = CommandResponse { status, message, values: Vec::new(), pairs: Vec::new() };
        assert(r@.values =~= Seq::<VValue>::empty());
        assert(r@.pairs =~= Seq::<(Seq<char>, VValue)>::empty());
        r
    }
}

/// What can go wrong while serving a request.
#[derive(Clone, Debug, PartialEq, Eq)]
pub enum KvError {
    /// The entry (table, key) is absent.
    NotFound(String, String),
    /// The request carries no recognised command.
    InvalidCommand(String),
    /// Stored bytes do not decode into a value.
    ConvertError(String),
    /// The backend failed.
    BackendError(String),
    /// A frame broke the protocol: too long, cut short, or undecodable.
    ProtocolError(String),
}

impl KvError {
    pub open spec fn status(&self) -> u32 {
        match self {
            KvError::NotFound(..) => STATUS_NOT_FOUND,
            KvError::InvalidCommand(..) => STATUS_BAD_REQUEST,
            KvError::ConvertError(..) => STATUS_INTERNAL,
            KvError::BackendError(..) => STATUS_INTERNAL,
            KvError::ProtocolError(..) => STATUS_INTERNAL,
        }
    }

    pub open spec fn message(&self) -> Seq<char> {
        match self {
            KvError::NotFound(t, k) => not_found_message(t@, k@),
            KvError::InvalidCommand(s) => "Invalid command: "@ + s@,
            KvError::ConvertError(s) => "Cannot convert value: "@ + s@,
            KvError::BackendError(s) => "Backend error: "@ + s@,
            KvError::ProtocolError(s) => "Protocol error: "@ + s@,
        }
    }

    /// The status code that reports this error.
    pub fn code(&self) -> (r: u32)
        ensures
            r == self.status(),
    {
        match self {
            KvError::NotFound(..) => STATUS_NOT_FOUND,
            KvError::InvalidCommand(..) => STATUS_BAD_REQUEST,
            KvError::ConvertError(..) => STATUS_INTERNAL,
            KvError::BackendError(..) => STATUS_INTERNAL,
            KvError::ProtocolError(..) => STATUS_INTERNAL,
        }
    }

    /// A human-readable diagnostic for this error.
    pub fn describe(&self) -> (r: String)
        ensures
            r@ == self.message(),
    {
        match self {
            KvError::NotFound(t, k) => {
                let mut s = String::from_str("Not found for table: ");
                s.append(t.as_str());
                s.append(", key: ");
                s.append(k.as_str());
                s
            },
            KvError::InvalidCommand(m) => {
                let mut s = String::from_str("Invalid command: ");
                s.append(m.as_str());
                s
            },
            KvError::ConvertError(m) => {
                let mut s = String::from_str("Cannot convert value: ");
                s.append(m.as_str());
                s
            },
            KvError::BackendError(m) => {
                let mut s = String::from_str("Backend error: ");
                s.append(m.as_str());
                s
            },
            KvError::ProtocolError(m) => {
                let mut s = String::from_str("Protocol error: ");
                s.append(m.as_str());
                s
            },
        }
    }
}

/// The diagnostic of an absent entry.
pub open spec fn not_found_message(table: Seq<char>, key: Seq<char>) -> Seq<char> {
    "Not found for table: "@ + table + ", key: "@ + key
}

} // verus!
