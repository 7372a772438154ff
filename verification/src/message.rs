//! The protocol message model and decoder.  An inbound frame is one JSON
//! text whose shape, not an explicit discriminant, decides what it means:
//! object payloads are told apart by which fields they carry, in a fixed
//! order of preference; array payloads by the shape of their elements.
//! Classification is a total function from the parsed document and yields a
//! decode failure, never more, on every unmatched shape.

use crate::json::Json;
use crate::json::json_of;
use crate::json::obj_first;
use crate::json::obj_get;
use crate::json::parse_json;
use crate::subscriber::Update as SingleUpdate;
use crate::subscriber::UpdateView;
use crate::text::parse_i32;
use crate::text::parse_i32_spec;
use crate::text::parse_u64;
use crate::text::parse_u64_spec;
use crate::text::parse_usize;
use crate::text::parse_usize_spec;
use vstd::prelude::*;
use vstd::string::StringExecFns;

verus! {

/// Connection-level platform status, carried inside an Info message.
#[derive(Debug, Clone, PartialEq)]
pub struct Platform {
    pub status: i32,
}

/// One decoded protocol frame: the closed set of shapes the feed sends.
#[derive(Debug, PartialEq)]
pub enum Message {
    Info { event: String, version: i32, server_id: String, platform: Platform },
    Subscribed { event: String, channel: String, id: usize, symbol: String, pair: String },
    Unsubscribed { event: String, status: String, id: usize },
    Error { event: String, msg: String, code: i32 },
    Pong { event: String, ts: u64, cid: u32 },
    Snapshot(usize, Vec<SingleUpdate>),
    Update(usize, String, SingleUpdate),
    HeartBeat(usize, String),
}

/// The mathematical shape of one decoded frame.
#[verifier::ext_equal]
pub ghost enum MessageView {
    Info { event: Seq<char>, version: i32, server_id: Seq<char>, status: i32 },
    Subscribed { event: Seq<char>, channel: Seq<char>, id: usize, symbol: Seq<char>, pair: Seq<char> },
    Unsubscribed { event: Seq<char>, status: Seq<char>, id: usize },
    Error { event: Seq<char>, msg: Seq<char>, code: i32 },
    Pong { event: Seq<char>, ts: u64, cid: u32 },
    Snapshot(usize, Seq<UpdateView>),
    Update(usize, Seq<char>, UpdateView),
    HeartBeat(usize, Seq<char>),
}

impl View for Message {
    type V = MessageView;

    open spec fn view(&self) -> MessageView {
        match *self {
            Message::Info { event, version, server_id, platform } => MessageView::Info {
                event: event@,
                version,
                server_id: server_id@,
                status: platform.status,
            },
            Message::Subscribed { event, channel, id, symbol, pair } => MessageView::Subscribed {
                event: event@,
                channel: channel@,
                id,
                symbol: symbol@,
                pair: pair@,
            },
            Message::Unsubscribed { event, status, id } => MessageView::Unsubscribed {
                event: event@,
                status: status@,
                id,
            },
            Message::Error { event, msg, code } => MessageView::Error {
                event: event@,
                msg: msg@,
                code,
            },
            Message::Pong { event, ts, cid } => MessageView::Pong { event: event@, ts, cid },
            Message::Snapshot(id, ups) => MessageView::Snapshot(
                id,
                crate::subscriber::updates_view(ups@),
            ),
            Message::Update(id, tag, u) => MessageView::Update(id, tag@, u@),
            Message::HeartBeat(id, tag) => MessageView::HeartBeat(id, tag@),
        }
    }
}

/// The view of an optional decoded frame.
pub open spec fn opt_view(r: Option<Message>) -> Option<MessageView> {
    match r {
        Some(m) => Some(m@),
        None => None,
    }
}

/// A string-valued field of an object.
pub open spec fn str_field(fs: Seq<(String, Json)>, key: Seq<char>) -> Option<Seq<char>> {
    match obj_first(fs, key) {
        Some(Json::Str(s)) => Some(s@),
        _ => None,
    }
}

/// A signed 32-bit numeric field of an object.
pub open spec fn i32_field(fs: Seq<(String, Json)>, key: Seq<char>) -> Option<i32> {
    match obj_first(fs, key) {
        Some(Json::Num(t)) => parse_i32_spec(t@),
        _ => None,
    }
}

/// An unsigned 64-bit numeric field of an object.
pub open spec fn u64_field(fs: Seq<(String, Json)>, key: Seq<char>) -> Option<u64> {
    match obj_first(fs, key) {
        Some(Json::Num(t)) => parse_u64_spec(t@),
        _ => None,
    }
}

/// A channel-id-sized numeric field of an object.
pub open spec fn usize_field(fs: Seq<(String, Json)>, key: Seq<char>) -> Option<usize> {
    match obj_first(fs, key) {
        Some(Json::Num(t)) => parse_usize_spec(t@),
        _ => None,
    }
}

/// The status of the nested platform object of an Info message.
pub open spec fn platform_status(fs: Seq<(String, Json)>) -> Option<i32> {
    match obj_first(fs, "platform"@) {
        Some(Json::Obj(pfs)) => i32_field(pfs@, "status"@),
        _ => None,
    }
}

/// An object decodes as Info when it carries a string event, an integer
/// version, a string serverId and a platform object with an integer status.
pub open spec fn info_view(fs: Seq<(String, Json)>) -> Option<MessageView> {
    match (str_field(fs, "event"@), i32_field(fs, "version"@), str_field(fs, "serverId"@), platform_status(fs)) {
        (Some(ev), Some(ver), Some(sid), Some(st)) => Some(MessageView::Info {
            event: ev,
            version: ver,
            server_id: sid,
            status: st,
        }),
        _ => None,
    }
}

/// An object decodes as Subscribed when it carries a string event, a string
/// channel, a numeric chanId, a string symbol and a string pair.
pub open spec fn subscribed_view(fs: Seq<(String, Json)>) -> Option<MessageView> {
    match (str_field(fs, "event"@), str_field(fs, "channel"@), usize_field(fs, "chanId"@), str_field(fs, "symbol"@), str_field(fs, "pair"@)) {
        (Some(ev), Some(ch), Some(id), Some(sym), Some(pair)) => Some(MessageView::Subscribed {
            event: ev,
            channel: ch,
            id: id,
            symbol: sym,
            pair: pair,
        }),
        _ => None,
    }
}

/// An object decodes as Unsubscribed when it carries a string event, a
/// string status and a numeric chanId.
pub open spec fn unsubscribed_view(fs: Seq<(String, Json)>) -> Option<MessageView> {
    match (str_field(fs, "event"@), str_field(fs, "status"@), usize_field(fs, "chanId"@)) {
        (Some(ev), Some(st), Some(id)) => Some(MessageView::Unsubscribed {
            event: ev,
            status: st,
            id: id,
        }),
        _ => None,
    }
}

/// An object decodes as Error when it carries a string event, a string msg
/// and an integer code.
pub open spec fn error_view(fs: Seq<(String, Json)>) -> Option<MessageView> {
    match (str_field(fs, "event"@), str_field(fs, "msg"@), i32_field(fs, "code"@)) {
        (Some(ev), Some(msg), Some(code)) => Some(MessageView::Error {
            event: ev,
            msg: msg,
            code: code,
        }),
        _ => None,
    }
}

/// An object decodes as Pong when it carries a string event, a numeric ts
/// and a numeric cid.
pub open spec fn pong_view(fs: Seq<(String, Json)>) -> Option<MessageView> {
    match (str_field(fs, "event"@), u64_field(fs, "ts"@), u64_field(fs, "cid"@)) {
        (Some(ev), Some(ts), Some(cid)) => if cid <= u32::MAX {
            Some(MessageView::Pong { event: ev, ts: ts, cid: cid as u32 })
        } else {
            None
        },
        _ => None,
    }
}

/// How an object payload is classified: the first of Info, Subscribed,
/// Unsubscribed, Error and Pong whose fields are all present, else a decode
/// failure.
pub open spec fn object_view(fs: Seq<(String, Json)>) -> Option<MessageView> {
    if info_view(fs) is Some {
        info_view(fs)
    } else if subscribed_view(fs) is Some {
        subscribed_view(fs)
    } else if unsubscribed_view(fs) is Some {
        unsubscribed_view(fs)
    } else if error_view(fs) is Some {
        error_view(fs)
    } else if pong_view(fs) is Some {
        pong_view(fs)
    } else {
        None
    }
}

/// One trade record on the wire: an array of exactly four numbers, the first
/// two unsigned integers, the last two kept as their decimal text.
pub open spec fn update_view_of(j: Json) -> Option<UpdateView> {
    match j {
        Json::Arr(v) => if v@.len() == 4 {
            match (v@[0], v@[1], v@[2], v@[3]) {
                (Json::Num(t0), Json::Num(t1), Json::Num(a), Json::Num(p)) => {
                    match (parse_u64_spec(t0@), parse_u64_spec(t1@)) {
                        (Some(id), Some(mts)) => Some(
                            UpdateView { id: id, mts: mts, amount: a@, price: p@ },
                        ),
                        _ => None,
                    }
                },
                _ => None,
            }
        } else {
            None
        },
        _ => None,
    }
}

/// A channel id at the head of an array payload.
pub open spec fn chan_of(j: Json) -> Option<usize> {
    match j {
        Json::Num(t) => parse_usize_spec(t@),
        _ => None,
    }
}

/// Every element of the sequence is a well-formed trade record.
pub open spec fn all_updates(v: Seq<Json>) -> bool {
    forall|i: int| 0 <= i < v.len() ==> update_view_of(#[trigger] v[i]) is Some
}

/// The records of a snapshot batch, in order.
pub open spec fn updates_views(v: Seq<Json>) -> Seq<UpdateView> {
    Seq::new(v.len(), |i: int| update_view_of(v[i]).unwrap())
}

/// How an array payload is classified by its second element: a nested array
/// of records is a Snapshot; a string followed by one record is an Update; a
/// string alone is a HeartBeat; everything else is a decode failure.
pub open spec fn array_view(v: Seq<Json>) -> Option<MessageView> {
    if v.len() == 2 && chan_of(v[0]) is Some && v[1] matches Json::Arr(_) {
        match v[1] {
            Json::Arr(inner) => if all_updates(inner@) {
                Some(MessageView::Snapshot(chan_of(v[0]).unwrap(), updates_views(inner@)))
            } else {
                None
            },
            _ => None,
        }
    } else if v.len() == 3 && chan_of(v[0]) is Some {
        match (v[1], update_view_of(v[2])) {
            (Json::Str(tag), Some(u)) => Some(
                MessageView::Update(chan_of(v[0]).unwrap(), tag@, u),
            ),
            _ => None,
        }
    } else if v.len() == 2 && chan_of(v[0]) is Some {
        match v[1] {
            Json::Str(tag) => Some(MessageView::HeartBeat(chan_of(v[0]).unwrap(), tag@)),
            _ => None,
        }
    } else {
        None
    }
}

/// How a whole document is classified: objects and arrays as above, every
/// other document is a decode failure.
pub open spec fn classify_view(j: Json) -> Option<MessageView> {
    match j {
        Json::Obj(fs) => object_view(fs@),
        Json::Arr(v) => array_view(v@),
        _ => None,
    }
}

/// What decoding a whole text frame yields: the classification of its JSON
/// document, or a decode failure where the text is not valid JSON.
pub open spec fn decode_view(s: Seq<char>) -> Option<MessageView> {
    match json_of(s) {
        Some(j) => classify_view(j),
        None => None,
    }
}

/// Reads a string field out of an object, exactly `str_field`.
fn get_str_field(fs: &Vec<(String, Json)>, key: &String) -> (r: Option<String>)
    ensures
        match r {
            Some(s) => str_field(fs@, key@) == Some(s@),
            None => str_field(fs@, key@) is None,
        },
{
    match obj_get(fs, key) {
        Some(Json::Str(s)) => Some(s.clone()),
        _ => None,
    }
}

/// Reads a signed 32-bit numeric field out of an object, exactly `i32_field`.
fn get_i32_field(fs: &Vec<(String, Json)>, key: &String) -> (r: Option<i32>)
    ensures
        r == i32_field(fs@, key@),
{
    match obj_get(fs, key) {
        Some(Json::Num(t)) => parse_i32(t.as_str()),
        _ => None,
    }
}

/// Reads an unsigned 64-bit numeric field out of an object, exactly `u64_field`.
fn get_u64_field(fs: &Vec<(String, Json)>, key: &String) -> (r: Option<u64>)
    ensures
        r == u64_field(fs@, key@),
{
    match obj_get(fs, key) {
        Some(Json::Num(t)) => parse_u64(t.as_str()),
        _ => None,
    }
}

/// Reads a channel-id-sized numeric field out of an object, exactly `usize_field`.
fn get_usize_field(fs: &Vec<(String, Json)>, key: &String) -> (r: Option<usize>)
    ensures
        r == usize_field(fs@, key@),
{
    match obj_get(fs, key) {
        Some(Json::Num(t)) => parse_usize(t.as_str()),
        _ => None,
    }
}

/// Decodes an object payload as Info, exactly `info_view`.
fn try_info(fs: &Vec<(String, Json)>) -> (r: Option<Message>)
    ensures
        opt_view(r) == info_view(fs@),
{
    let ev = match get_str_field(fs, &String::from_str("event")) {
        Some(s) => s,
        None => {
            return None;
        },
    };
    let ver = match get_i32_field(fs, &String::from_str("version")) {
        Some(v) => v,
        None => {
            return None;
        },
    };
    let sid = match get_str_field(fs, &String::from_str("serverId")) {
        Some(s) => s,
        None => {
            return None;
        },
    };
    let st = match obj_get(fs, &String::from_str("platform")) {
        Some(Json::Obj(pfs)) => match get_i32_field(pfs, &String::from_str("status")) {
            Some(v) => v,
            None => {
                return None;
            },
        },
        _ => {
            return None;
        },
    };
    Some(Message::Info { event: ev, version: ver, server_id: sid, platform: Platform { status: st } })
}

/// Decodes an object payload as Subscribed, exactly `subscribed_view`.
fn try_subscribed(fs: &Vec<(String, Json)>) -> (r: Option<Message>)
    ensures
        opt_view(r) == subscribed_view(fs@),
{
    let ev = match get_str_field(fs, &String::from_str("event")) {
        Some(s) => s,
        None => {
            return None;
        },
    };
    let ch = match get_str_field(fs, &String::from_str("channel")) {
        Some(s) => s,
        None => {
            return None;
        },
    };
    let id = match get_usize_field(fs, &String::from_str("chanId")) {
        Some(v) => v,
        None => {
            return None;
        },
    };
    let sym = match get_str_field(fs, &String::from_str("symbol")) {
        Some(s) => s,
        None => {
            return None;
        },
    };
    let pair = match get_str_field(fs, &String::from_str("pair")) {
        Some(s) => s,
        None => {
            return None;
        },
    };
    Some(Message::Subscribed { event: ev, channel: ch, id: id, symbol: sym, pair: pair })
}

/// Decodes an object payload as Unsubscribed, exactly `unsubscribed_view`.
fn try_unsubscribed(fs: &Vec<(String, Json)>) -> (r: Option<Message>)
    ensures
        opt_view(r) == unsubscribed_view(fs@),
{
    let ev = match get_str_field(fs, &String::from_str("event")) {
        Some(s) => s,
        None => {
            return None;
        },
    };
    let st = match get_str_field(fs, &String::from_str("status")) {
        Some(s) => s,
        None => {
            return None;
        },
    };
    let id = match get_usize_field(fs, &String::from_str("chanId")) {
        Some(v) => v,
        None => {
            return None;
        },
    };
    Some(Message::Unsubscribed { event: ev, status: st, id: id })
}

/// Decodes an object payload as Error, exactly `error_view`.
fn try_error(fs: &Vec<(String, Json)>) -> (r: Option<Message>)
    ensures
        opt_view(r) == error_view(fs@),
{
    let ev = match get_str_field(fs, &String::from_str("event")) {
        Some(s) => s,
        None => {
            return None;
        },
    };
    let msg = match get_str_field(fs, &String::from_str("msg")) {
        Some(s) => s,
        None => {
            return None;
        },
    };
    let code = match get_i32_field(fs, &String::from_str("code")) {
        Some(v) => v,
        None => {
            return None;
        },
    };
    Some(Message::Error { event: ev, msg: msg, code: code })
}

/// Decodes an object payload as Pong, exactly `pong_view`.
fn try_pong(fs: &Vec<(String, Json)>) -> (r: Option<Message>)
    ensures
        opt_view(r) == pong_view(fs@),
{
    let ev = match get_str_field(fs, &String::from_str("event")) {
        Some(s) => s,
        None => {
            return None;
        },
    };
    let ts = match get_u64_field(fs, &String::from_str("ts")) {
        Some(v) => v,
        None => {
            return None;
        },
    };
    let cid = match get_u64_field(fs, &String::from_str("cid")) {
        Some(v) => v,
        None => {
            return None;
        },
    };
    if cid <= u32::MAX as u64 {
        Some(Message::Pong { event: ev, ts: ts, cid: cid as u32 })
    } else {
        None
    }
}

/// Decodes one wire trade record, exactly `update_view_of`.
fn update_from(j: &Json) -> (r: Option<SingleUpdate>)
    ensures
        match r {
            Some(u) => update_view_of(*j) == Some(u@),
            None => update_view_of(*j) is None,
        },
{
    match j {
        Json::Arr(v) => {
            if v.len() != 4 {
                return None;
            }
            let id = match &v[0] {
                Json::Num(t) => match parse_u64(t.as_str()) {
                    Some(x) => x,
                    None => {
                        return None;
                    },
                },
                _ => {
                    return None;
                },
            };
            let mts = match &v[1] {
                Json::Num(t) => match parse_u64(t.as_str()) {
                    Some(x) => x,
                    None => {
                        return None;
                    },
                },
                _ => {
                    return None;
                },
            };
            let amount = match &v[2] {
                Json::Num(t) => t.clone(),
                _ => {
                    return None;
                },
            };
            let price = match &v[3] {
                Json::Num(t) => t.clone(),
                _ => {
                    return None;
                },
            };
            Some(SingleUpdate { id: id, mts: mts, amount: amount, price: price })
        },
        _ => None,
    }
}

/// Classifies an object payload, exactly `object_view`.
fn classify_obj(fs: &Vec<(String, Json)>) -> (r: Option<Message>)
    ensures
        opt_view(r) == object_view(fs@),
{
    if let Some(m) = try_info(fs) {
        return Some(m);
    }
    if let Some(m) = try_subscribed(fs) {
        return Some(m);
    }
    if let Some(m) = try_unsubscribed(fs) {
        return Some(m);
    }
    if let Some(m) = try_error(fs) {
        return Some(m);
    }
    if let Some(m) = try_pong(fs) {
        return Some(m);
    }
    None
}

/// Classifies an array payload, exactly `array_view`.
fn classify_arr(v: &Vec<Json>) -> (r: Option<Message>)
    ensures
        opt_view(r) == array_view(v@),
{
    if v.len() == 2 {
        let id = match &v[0] {
            Json::Num(t) => match parse_usize(t.as_str()) {
                Some(x) => x,
                None => {
                    return None;
                },
            },
            _ => {
                return None;
            },
        };
        match &v[1] {
            Json::Arr(inner) => {
                let mut ups: Vec<SingleUpdate> = Vec::new();
                let mut i: usize = 0;
                while i < inner.len()
                    invariant
                        v@.len() == 2,
                        chan_of(v@[0]) == Some(id),
                        v@[1] == Json::Arr(*inner),
                        i <= inner@.len(),
                        ups@.len() == i,
                        forall|j: int|
                            0 <= j < i ==> update_view_of(#[trigger] inner@[j]) is Some,
                        forall|j: int|
                            0 <= j < i ==> #[trigger] ups@[j]@ == update_view_of(
                                inner@[j],
                            ).unwrap(),
                    decreases inner@.len() - i,
                {
                    match update_from(&inner[i]) {
                        Some(u) => ups.push(u),
                        None => {
                            assert(!all_updates(inner@));
                            return None;
                        },
                    }
                    i = i + 1;
                }
                let m = Message::Snapshot(id, ups);
                proof {
                    assert(all_updates(inner@));
                    assert(crate::subscriber::updates_view(m->Snapshot_1@) =~= updates_views(
                        inner@,
                    ));
                }
                Some(m)
            },
            Json::Str(tag) => Some(Message::HeartBeat(id, tag.clone())),
            _ => None,
        }
    } else if v.len() == 3 {
        let id = match &v[0] {
            Json::Num(t) => match parse_usize(t.as_str()) {
                Some(x) => x,
                None => {
                    return None;
                },
            },
            _ => {
                return None;
            },
        };
        let tag = match &v[1] {
            Json::Str(s) => s.clone(),
            _ => {
                return None;
            },
        };
        match update_from(&v[2]) {
            Some(u) => Some(Message::Update(id, tag, u)),
            None => None,
        }
    } else {
        None
    }
}

/// Classifies one parsed document, exactly `classify_view`.
pub fn classify(j: &Json) -> (r: Option<Message>)
    ensures
        opt_view(r) == classify_view(*j),
{
    match j {
        Json::Obj(fs) => classify_obj(fs),
        Json::Arr(v) => classify_arr(v),
        _ => None,
    }
}

impl Message {
    /// Decodes one inbound text frame, exactly `decode_view`: the document's
    /// classification, or `None` for invalid JSON and unmatched shapes.
    pub fn try_new(s: &str) -> (r: Option<Message>)
        ensures
            opt_view(r) == decode_view(s@),
    {
        match parse_json(s) {
            Some(j) => classify(&j),
            None => None,
        }
    }
}

} // verus!
