//! The hypervisor's control protocol: carriage-return-delimited JSON
//! values on a stream, where unsolicited events interleave with command
//! replies. This module splits the stream into frames, decodes each frame
//! through serde_json, classifies it as event, reply or error, and picks
//! the reply out of a drained buffer. Socket reads and writes live with
//! the caller.

use vstd::prelude::*;

verus! {

/// What a JSON value is, mathematically. Object keys map to values;
/// numbers outside the integers are noted but carry nothing, since none
/// of the protocol's fields use them.
pub enum JsonV {
    Null,
    Bool(bool),
    Int(int),
    Float,
    Str(Seq<char>),
    Arr(Seq<JsonV>),
    Obj(Map<Seq<char>, JsonV>),
}

#[verifier::external_type_specification]
#[verifier::external_body]
pub struct ExValue(serde_json::Value);

/// The model of a decoded serde_json value.
pub uninterp spec fn json_view(v: serde_json::Value) -> JsonV;

/// What serde_json::from_str returns for a text: its value, or nothing
/// when the text is outside the JSON grammar. The result depends on the
/// text alone.
pub uninterp spec fn json_of(s: Seq<char>) -> Option<JsonV>;

/// Relies on serde_json::from_str: decodes one JSON text, deterministic
/// in the text; the error case is collapsed to None.
#[verifier::external_body]
fn json_from_str(s: &str) -> (r: Option<serde_json::Value>)
    ensures
        match r {
            Some(v) => json_of(s@) == Some(json_view(v)),
            None => json_of(s@) is None,
        },
{
    serde_json::from_str(s).ok()
}

/// Relies on serde_json::Value::get: looks a key up in an object; None
/// for absent keys and for values that are not objects.
#[verifier::external_body]
fn json_get<'a>(v: &'a serde_json::Value, key: &str) -> (r: Option<&'a serde_json::Value>)
    ensures
        match r {
            Some(w) => json_view(*v) matches JsonV::Obj(m) && m.contains_key(key@) && json_view(
                *w,
            ) == m[key@],
            None => !(json_view(*v) matches JsonV::Obj(m) && m.contains_key(key@)),
        },
{
    v.get(key)
}

/// Relies on serde_json::Value::is_object.
#[verifier::external_body]
fn json_is_object(v: &serde_json::Value) -> (r: bool)
    ensures
        r == (json_view(*v) matches JsonV::Obj(_)),
{
    v.is_object()
}

/// Relies on serde_json::Value::as_str: the characters of a string value.
#[verifier::external_body]
fn json_as_str<'a>(v: &'a serde_json::Value) -> (r: Option<&'a str>)
    ensures
        match r {
            Some(s) => json_view(*v) == JsonV::Str(s@),
            None => !(json_view(*v) matches JsonV::Str(_)),
        },
{
    v.as_str()
}

/// Relies on serde_json::Value::as_u64: Some exactly for integer numbers
/// representable in a u64.
#[verifier::external_body]
fn json_as_u64(v: &serde_json::Value) -> (r: Option<u64>)
    ensures
        match r {
            Some(n) => json_view(*v) == JsonV::Int(n as int),
            None => !(json_view(*v) matches JsonV::Int(i) && 0 <= i <= u64::MAX),
        },
{
    v.as_u64()
}

/// Relies on serde_json::Value::as_array: the elements of an array value.
#[verifier::external_body]
fn json_as_array<'a>(v: &'a serde_json::Value) -> (r: Option<&'a Vec<serde_json::Value>>)
    ensures
        match r {
            Some(a) => json_view(*v) matches JsonV::Arr(s) && a@.len() == s.len() && forall|i: int|
                0 <= i < s.len() ==> #[trigger] json_view(a@[i]) == s[i],
            None => !(json_view(*v) matches JsonV::Arr(_)),
        },
{
    v.as_array()
}

/// The value is an object carrying key `k`.
pub open spec fn obj_has(m: JsonV, k: Seq<char>) -> bool {
    m matches JsonV::Obj(o) && o.contains_key(k)
}

/// The value at key `k` of an object.
pub open spec fn obj_at(m: JsonV, k: Seq<char>) -> JsonV
    recommends
        obj_has(m, k),
{
    m->Obj_0[k]
}

/// The value is a string.
pub open spec fn is_str(m: JsonV) -> bool {
    m matches JsonV::Str(_)
}

/// The characters of a string value.
pub open spec fn str_of(m: JsonV) -> Seq<char> {
    m->Str_0
}

/// The value is an integer representable in a u64.
pub open spec fn is_u64_int(m: JsonV) -> bool {
    m matches JsonV::Int(i) && 0 <= i <= u64::MAX
}

/// A monitor timestamp: seconds and microseconds.
#[derive(Debug, Clone, PartialEq, Eq)]
pub struct Timestamp {
    pub seconds: u64,
    pub microseconds: u64,
}

/// An asynchronous event the server volunteered.
#[derive(Debug, Clone, PartialEq, Eq)]
pub struct Event {
    pub timestamp: Timestamp,
    pub event: String,
}

/// A successful reply. Of the free-form payload, the one field the
/// library reads -- the `status` string -- is kept.
#[derive(Debug, Clone, PartialEq, Eq)]
pub struct Return {
    pub status: Option<String>,
}

/// An error reply: the server's classification and description.
#[derive(Debug, Clone, PartialEq, Eq)]
pub struct Error {
    pub class: String,
    pub desc: String,
}

impl Error {
    /// The server's description of what went wrong.
    pub fn desc(&self) -> (r: &str)
        ensures
            r@ == self.desc@,
    {
        self.desc.as_str()
    }
}

/// A correlated reply: success or error.
#[derive(Debug, Clone, PartialEq, Eq)]
pub enum Response {
    Return(Return),
    Error(Error),
}

/// Any discrete value the server sends while a command is outstanding.
#[derive(Debug, Clone, PartialEq, Eq)]
pub enum Message {
    Event(Event),
    Response(Response),
}

/// The value announces an asynchronous event.
pub open spec fn is_event_val(m: JsonV) -> bool {
    obj_has(m, "event"@)
}

/// A well-formed event: a string name and an integer timestamp pair.
pub open spec fn event_wf(m: JsonV) -> bool {
    &&& obj_has(m, "event"@)
    &&& is_str(obj_at(m, "event"@))
    &&& obj_has(m, "timestamp"@)
    &&& obj_has(obj_at(m, "timestamp"@), "seconds"@)
    &&& is_u64_int(obj_at(obj_at(m, "timestamp"@), "seconds"@))
    &&& obj_has(obj_at(m, "timestamp"@), "microseconds"@)
    &&& is_u64_int(obj_at(obj_at(m, "timestamp"@), "microseconds"@))
}

/// A well-formed success reply: the `return` key holds an object.
pub open spec fn return_wf(m: JsonV) -> bool {
    &&& obj_has(m, "return"@)
    &&& obj_at(m, "return"@) matches JsonV::Obj(_)
}

/// A well-formed error reply: the `error` key holds an object with
/// string `class` and `desc` fields.
pub open spec fn error_wf(m: JsonV) -> bool {
    &&& obj_has(m, "error"@)
    &&& obj_has(obj_at(m, "error"@), "class"@)
    &&& is_str(obj_at(obj_at(m, "error"@), "class"@))
    &&& obj_has(obj_at(m, "error"@), "desc"@)
    &&& is_str(obj_at(obj_at(m, "error"@), "desc"@))
}

/// The value can be classified: an event when the event key is present,
/// otherwise a success reply when the return key is present, otherwise an
/// error reply.
pub open spec fn value_classifiable(m: JsonV) -> bool {
    if is_event_val(m) {
        event_wf(m)
    } else if obj_has(m, "return"@) {
        return_wf(m)
    } else {
        error_wf(m)
    }
}

/// The status string inside a success payload, when one is there.
pub open spec fn status_in(ret: JsonV) -> Option<Seq<char>> {
    if obj_has(ret, "status"@) && is_str(obj_at(ret, "status"@)) {
        Some(str_of(obj_at(ret, "status"@)))
    } else {
        None
    }
}

/// The message `msg` is what the value `m` classifies to.
pub open spec fn msg_matches(m: JsonV, msg: Message) -> bool {
    match msg {
        Message::Event(e) => {
            &&& is_event_val(m)
            &&& e.event@ == str_of(obj_at(m, "event"@))
            &&& JsonV::Int(e.timestamp.seconds as int) == obj_at(
                obj_at(m, "timestamp"@),
                "seconds"@,
            )
            &&& JsonV::Int(e.timestamp.microseconds as int) == obj_at(
                obj_at(m, "timestamp"@),
                "microseconds"@,
            )
        },
        Message::Response(Response::Return(ret)) => {
            &&& !is_event_val(m)
            &&& obj_has(m, "return"@)
            &&& match ret.status {
                Some(s) => status_in(obj_at(m, "return"@)) == Some(s@),
                None => status_in(obj_at(m, "return"@)) is None,
            }
        },
        Message::Response(Response::Error(err)) => {
            &&& !is_event_val(m)
            &&& !obj_has(m, "return"@)
            &&& err.class@ == str_of(obj_at(obj_at(m, "error"@), "class"@))
            &&& err.desc@ == str_of(obj_at(obj_at(m, "error"@), "desc"@))
        },
    }
}

/// Classify one decoded value as the server's event, reply or error.
fn classify_value(v: &serde_json::Value) -> (r: Result<Message, crate::error::Error>)
    ensures
        match r {
            Ok(msg) => value_classifiable(json_view(*v)) && msg_matches(json_view(*v), msg),
            Err(e) => e == crate::error::Error::Malformed && !value_classifiable(json_view(*v)),
        },
{
    match json_get(v, "event") {
        Some(ev) => {
            let name = match json_as_str(ev) {
                Some(s) => s,
                None => {
                    return Err(crate::error::Error::Malformed);
                },
            };
            let ts = match json_get(v, "timestamp") {
                Some(t) => t,
                None => {
                    return Err(crate::error::Error::Malformed);
                },
            };
            let seconds = match json_get(ts, "seconds") {
                Some(sv) => match json_as_u64(sv) {
                    Some(n) => n,
                    None => {
                        return Err(crate::error::Error::Malformed);
                    },
                },
                None => {
                    return Err(crate::error::Error::Malformed);
                },
            };
            let microseconds = match json_get(ts, "microseconds") {
                Some(sv) => match json_as_u64(sv) {
                    Some(n) => n,
                    None => {
                        return Err(crate::error::Error::Malformed);
                    },
                },
                None => {
                    return Err(crate::error::Error::Malformed);
                },
            };
            Ok(
                Message::Event(
                    Event {
                        timestamp: Timestamp { seconds, microseconds },
                        event: name.to_owned(),
                    },
                ),
            )
        },
        None => {
            match json_get(v, "return") {
                Some(ret) => {
                    if !json_is_object(ret) {
                        return Err(crate::error::Error::Malformed);
                    }
                    let status = match json_get(ret, "status") {
                        Some(sv) => match json_as_str(sv) {
                            Some(s) => Some(s.to_owned()),
                            None => None,
                        },
                        None => None,
                    };
                    Ok(Message::Response(Response::Return(Return { status })))
                },
                None => {
                    let errv = match json_get(v, "error") {
                        Some(e) => e,
                        None => {
                            return Err(crate::error::Error::Malformed);
                        },
                    };
                    let class = match json_get(errv, "class") {
                        Some(cv) => match json_as_str(cv) {
                            Some(s) => s.to_owned(),
                            None => {
                                return Err(crate::error::Error::Malformed);
                            },
                        },
                        None => {
                            return Err(crate::error::Error::Malformed);
                        },
                    };
                    let desc = match json_get(errv, "desc") {
                        Some(dv) => match json_as_str(dv) {
                            Some(s) => s.to_owned(),
                            None => {
                                return Err(crate::error::Error::Malformed);
                            },
                        },
                        None => {
                            return Err(crate::error::Error::Malformed);
                        },
                    };
                    Ok(Message::Response(Response::Error(Error { class, desc })))
                },
            }
        },
    }
}

/// Index of the first carriage return, or -1.
pub open spec fn first_cr(s: Seq<char>) -> int
    decreases s.len(),
{
    if s.len() == 0 {
        -1
    } else if s[0] == '\r' {
        0
    } else {
        let t = first_cr(s.drop_first());
        if t == -1 {
            -1
        } else {
            t + 1
        }
    }
}

/// A piece worth decoding: nonempty and not the bare linefeed left over
/// from a CR LF pair.
pub open spec fn keep_frame(f: Seq<char>) -> bool {
    f.len() > 0 && f != seq!['\n']
}

/// The frames of a read: the CR-separated pieces that are worth decoding.
pub open spec fn qapi_frames(s: Seq<char>) -> Seq<Seq<char>>
    decreases s.len(),
{
    let i = first_cr(s);
    if i < 0 || s.len() <= i {
        if keep_frame(s) {
            seq![s]
        } else {
            Seq::empty()
        }
    } else {
        let rest = qapi_frames(s.skip(i + 1));
        if keep_frame(s.take(i)) {
            seq![s.take(i)] + rest
        } else {
            rest
        }
    }
}

/// The frame sequence a frame vector stands for.
pub open spec fn frames_view(s: Seq<String>) -> Seq<Seq<char>> {
    Seq::new(s.len(), |i: int| s[i]@)
}

/// A text without carriage returns has no first one.
proof fn lemma_first_cr_none(s: Seq<char>)
    requires
        forall|k: int| 0 <= k < s.len() ==> s[k] != '\r',
    ensures
        first_cr(s) == -1,
    decreases s.len(),
{
    if s.len() > 0 {
        let t = s.drop_first();
        assert forall|k: int| 0 <= k < t.len() implies t[k] != '\r' by {
            assert(t[k] == s[k + 1]);
        }
        lemma_first_cr_none(t);
    }
}

/// Splitting starts at the first carriage return: with a CR-free head,
/// the head becomes one piece and the tail splits on its own.
proof fn lemma_qapi_frames_step(a: Seq<char>, b: Seq<char>)
    requires
        forall|k: int| 0 <= k < a.len() ==> a[k] != '\r',
    ensures
        qapi_frames(a + seq!['\r'] + b) == if keep_frame(a) {
            seq![a] + qapi_frames(b)
        } else {
            qapi_frames(b)
        },
    decreases a.len(),
{
    let s = a + seq!['\r'] + b;
    if a.len() == 0 {
        assert(s[0] == '\r');
        assert(first_cr(s) == 0);
        assert(s.take(0) =~= a);
        assert(s.skip(1) =~= b);
        assert(!keep_frame(a));
    } else {
        assert(s[0] == a[0]);
        assert(s[0] != '\r');
        let t = s.drop_first();
        let a1 = a.drop_first();
        assert(t =~= a1 + seq!['\r'] + b);
        assert forall|k: int| 0 <= k < a1.len() implies a1[k] != '\r' by {
            assert(a1[k] == a[k + 1]);
        }
        lemma_first_cr_of_concat(a1, b);
        lemma_first_cr_of_concat(a, b);
        assert(first_cr(s) == a.len());
        assert(s.take(a.len() as int) =~= a);
        assert(s.skip(a.len() as int + 1) =~= b);
    }
}

/// The first carriage return after a CR-free head sits right behind it.
proof fn lemma_first_cr_of_concat(a: Seq<char>, b: Seq<char>)
    requires
        forall|k: int| 0 <= k < a.len() ==> a[k] != '\r',
    ensures
        first_cr(a + seq!['\r'] + b) == a.len(),
    decreases a.len(),
{
    let s = a + seq!['\r'] + b;
    if a.len() == 0 {
        assert(s[0] == '\r');
    } else {
        assert(s[0] == a[0]);
        let t = s.drop_first();
        let a1 = a.drop_first();
        assert(t =~= a1 + seq!['\r'] + b);
        assert forall|k: int| 0 <= k < a1.len() implies a1[k] != '\r' by {
            assert(a1[k] == a[k + 1]);
        }
        lemma_first_cr_of_concat(a1, b);
    }
}

/// Split a monitor read into its frames.
pub fn split_frames(buf: &str) -> (r: Vec<String>)
    ensures
        frames_view(r@) == qapi_frames(buf@),
{
    let n = buf.unicode_len();
    let mut out: Vec<String> = Vec::new();
    let mut cur = String::new();
    let mut i: usize = 0;
    proof {
        assert(cur@ + buf@.skip(0) =~= buf@);
        assert(frames_view(out@) + qapi_frames(buf@) =~= qapi_frames(buf@));
    }
    while i < n
        invariant
            0 <= i <= n,
            n == buf@.len(),
            forall|k: int| 0 <= k < cur@.len() ==> cur@[k] != '\r',
            qapi_frames(buf@) =~= frames_view(out@) + qapi_frames(cur@ + buf@.skip(i as int)),
        decreases n - i,
    {
        let c = buf.get_char(i);
        let ghost cur0 = cur@;
        let ghost tail = buf@.skip(i as int + 1);
        if c as u32 == 13 {
            proof {
                assert(c == '\r');
                assert(buf@.skip(i as int) =~= seq!['\r'] + tail);
                assert(cur0 + buf@.skip(i as int) =~= cur0 + seq!['\r'] + tail);
                lemma_qapi_frames_step(cur0, tail);
            }
            if keep_frame_exec(&cur) {
                let ghost out0 = out@;
                out.push(cur);
                proof {
                    assert(frames_view(out@) =~= frames_view(out0).push(cur0));
                    assert(frames_view(out0).push(cur0) + qapi_frames(tail) =~= frames_view(out0)
                        + (seq![cur0] + qapi_frames(tail)));
                }
            }
            cur = String::new();
            proof {
                assert(cur@ + tail =~= tail);
                assert(qapi_frames(cur@ + tail) == qapi_frames(tail));
            }
        } else {
            proof {
                assert(c != '\r');
                assert((cur0 + buf@.skip(i as int)) =~= (cur0.push(c) + tail));
            }
            cur.push(c);
        }
        i = i + 1;
    }
    proof {
        assert(cur@ + buf@.skip(n as int) =~= cur@);
        lemma_first_cr_none(cur@);
    }
    if keep_frame_exec(&cur) {
        let ghost out0 = out@;
        let ghost cur0 = cur@;
        out.push(cur);
        proof {
            assert(frames_view(out@) =~= frames_view(out0).push(cur0));
            assert(qapi_frames(cur0) =~= seq![cur0]);
            assert(frames_view(out@) =~= qapi_frames(buf@));
        }
    } else {
        proof {
            assert(qapi_frames(cur@) =~= Seq::<Seq<char>>::empty());
            assert(frames_view(out@) + qapi_frames(cur@) =~= frames_view(out@));
            assert(frames_view(out@) =~= qapi_frames(buf@));
        }
    }
    out
}

/// Whether a piece is worth decoding.
fn keep_frame_exec(f: &String) -> (r: bool)
    ensures
        r == keep_frame(f@),
{
    let n = f.as_str().unicode_len();
    if n == 0 {
        return false;
    }
    if n == 1 && f.as_str().get_char(0) as u32 == 10 {
        proof {
            assert(f@ =~= seq!['\n']);
        }
        return false;
    }
    proof {
        if n == 1 {
            assert(f@[0] != '\n');
            assert(f@ != seq!['\n']);
        } else {
            assert(f@.len() != seq!['\n'].len());
        }
    }
    true
}

/// Decode and classify every frame of a monitor read.
///
/// All frames must decode and classify; the first that does not makes the
/// whole read malformed, as the stream is then out of step.
#[verifier::loop_isolation(false)]
pub fn parse_qapi_stream(buf: &str) -> (r: Result<Vec<Message>, crate::error::Error>)
    ensures
        match r {
            Ok(msgs) => {
                let fs = qapi_frames(buf@);
                &&& msgs@.len() == fs.len()
                &&& forall|i: int|
                    0 <= i < fs.len() ==> ((#[trigger] json_of(fs[i])) matches Some(m)
                        && value_classifiable(m) && msg_matches(m, msgs@[i]))
            },
            Err(e) => {
                &&& e == crate::error::Error::Malformed
                &&& exists|i: int|
                    0 <= i < qapi_frames(buf@).len() && !((#[trigger] json_of(
                        qapi_frames(buf@)[i],
                    )) matches Some(m) && value_classifiable(m))
            },
        },
{
    let frames = split_frames(buf);
    let ghost fs = qapi_frames(buf@);
    let mut msgs: Vec<Message> = Vec::new();
    let mut i: usize = 0;
    while i < frames.len()
        invariant
            0 <= i <= frames@.len(),
            frames_view(frames@) == fs,
            msgs@.len() == i,
            forall|k: int|
                0 <= k < i ==> ((#[trigger] json_of(fs[k])) matches Some(m)
                    && value_classifiable(m) && msg_matches(m, msgs@[k])),
        decreases frames@.len() - i,
    {
        proof {
            assert(qapi_frames(buf@).len() == frames@.len());
            assert(frames@[i as int]@ == qapi_frames(buf@)[i as int]);
        }
        let v = match json_from_str(frames[i].as_str()) {
            Some(v) => v,
            None => {
                proof {
                    assert(json_of(frames@[i as int]@) is None);
                    assert(json_of(qapi_frames(buf@)[i as int]) is None);
                }
                return Err(crate::error::Error::Malformed);
            },
        };
        let msg = match classify_value(&v) {
            Ok(m) => m,
            Err(e) => {
                proof {
                    assert(json_of(qapi_frames(buf@)[i as int]) == Some(json_view(v)));
                    assert(!value_classifiable(json_view(v)));
                }
                return Err(e);
            },
        };
        msgs.push(msg);
        i = i + 1;
    }
    Ok(msgs)
}

/// Index of the first reply among drained messages, or -1.
pub open spec fn first_response_index(msgs: Seq<Message>) -> int
    decreases msgs.len(),
{
    if msgs.len() == 0 {
        -1
    } else if msgs[0] matches Message::Response(_) {
        0
    } else {
        let t = first_response_index(msgs.drop_first());
        if t == -1 {
            -1
        } else {
            t + 1
        }
    }
}

/// Pick the correlated reply out of drained messages: the events that
/// came before it are surfaced on the side, and everything after the
/// reply is discarded, as the drain stops there.
#[verifier::loop_isolation(false)]
pub fn scan_messages(msgs: Vec<Message>) -> (r: (Vec<Event>, Option<Response>))
    ensures
        ({
            let j = first_response_index(msgs@);
            if j >= 0 {
                &&& r.1 == Some(msgs@[j]->Response_0)
                &&& r.0@.len() == j
                &&& forall|k: int| 0 <= k < j ==> msgs@[k] == Message::Event(#[trigger] r.0@[k])
            } else {
                &&& r.1 is None
                &&& r.0@.len() == msgs@.len()
                &&& forall|k: int|
                    0 <= k < msgs@.len() ==> msgs@[k] == Message::Event(#[trigger] r.0@[k])
            }
        }),
{
    let ghost orig = msgs@;
    let mut rest = msgs;
    let mut events: Vec<Event> = Vec::new();
    while rest.len() > 0
        invariant
            events@.len() + rest@.len() == orig.len(),
            rest@ =~= orig.skip(events@.len() as int),
            forall|k: int|
                0 <= k < events@.len() ==> orig[k] == Message::Event(#[trigger] events@[k]),
        decreases rest@.len(),
    {
        let ghost j = events@.len() as int;
        let m = rest.remove(0);
        assert(m == orig[j]);
        match m {
            Message::Event(e) => {
                events.push(e);
                proof {
                    assert(rest@ =~= orig.skip(events@.len() as int));
                }
            },
            Message::Response(resp) => {
                proof {
                    assert forall|k: int| 0 <= k < j implies (#[trigger] orig[k]) matches Message::Event(_) by {
                        assert(orig[k] == Message::Event(events@[k]));
                    }
                    assert(orig[j] == Message::Response(resp));
                    lemma_first_response_at(orig, j);
                    assert(first_response_index(orig) == j);
                    assert(events@.len() == j);
                    assert(orig[j]->Response_0 == resp);
                }
                return (events, Some(resp));
            },
        }
    }
    proof {
        assert forall|k: int| 0 <= k < orig.len() implies (#[trigger] orig[k]) matches Message::Event(_) by {
            assert(orig[k] == Message::Event(events@[k]));
        }
        lemma_first_response_none(orig);
    }
    (events, None)
}

/// A scan that stops at the first reply finds the first index.
proof fn lemma_first_response_at(msgs: Seq<Message>, i: int)
    requires
        0 <= i < msgs.len(),
        msgs[i] matches Message::Response(_),
        forall|k: int| 0 <= k < i ==> (#[trigger] msgs[k]) matches Message::Event(_),
    ensures
        first_response_index(msgs) == i,
    decreases msgs.len(),
{
    if i == 0 {
    } else {
        let t = msgs.drop_first();
        assert(msgs[0] matches Message::Event(_));
        assert forall|k: int| 0 <= k < i - 1 implies (#[trigger] t[k]) matches Message::Event(
            _,
        ) by {
            assert(t[k] == msgs[k + 1]);
        }
        assert(t[i - 1] == msgs[i]);
        lemma_first_response_at(t, i - 1);
    }
}

/// A scan of events only means there is no reply.
proof fn lemma_first_response_none(msgs: Seq<Message>)
    requires
        forall|k: int| 0 <= k < msgs.len() ==> (#[trigger] msgs[k]) matches Message::Event(_),
    ensures
        first_response_index(msgs) == -1,
    decreases msgs.len(),
{
    if msgs.len() > 0 {
        let t = msgs.drop_first();
        assert forall|k: int| 0 <= k < t.len() implies (#[trigger] t[k]) matches Message::Event(
            _,
        ) by {
            assert(t[k] == msgs[k + 1]);
        }
        lemma_first_response_none(t);
    }
}

/// The capability-negotiation command, as written on the wire.
pub fn capabilities_command() -> (r: String)
    ensures
        r@ == "{\"arguments\":{},\"execute\":\"qmp_capabilities\"}"@,
{
    "{\"arguments\":{},\"execute\":\"qmp_capabilities\"}".to_owned()
}

/// A command with no arguments, as written on the wire.
pub fn command_string(name: &str) -> (r: String)
    ensures
        r@ == "{\"execute\":\""@ + name@ + "\"}"@,
{
    let mut s = "{\"execute\":\"".to_owned();
    s.append(name);
    s.append("\"}");
    proof {
        assert(s@ =~= "{\"execute\":\""@ + name@ + "\"}"@);
    }
    s
}

/// The protocol version triple the greeting announces.
#[derive(Debug, Clone, PartialEq, Eq)]
pub struct VersionTriple {
    pub major: u64,
    pub minor: u64,
    pub micro: u64,
}

/// The server version block of the greeting.
#[derive(Debug, Clone, PartialEq, Eq)]
pub struct VersionInfo {
    pub qemu: VersionTriple,
    pub package: String,
}

/// The payload of the greeting.
#[derive(Debug, Clone, PartialEq, Eq)]
pub struct GreetingInner {
    pub version: VersionInfo,
    pub capabilities: Vec<String>,
}

/// The one message the server opens the connection with.
#[derive(Debug, Clone, PartialEq, Eq)]
pub struct Greeting {
    pub qmp: GreetingInner,
}

/// A well-formed greeting: a QMP block with a version -- integer triple
/// and package string -- and a capability list of strings.
pub open spec fn greeting_wf(m: JsonV) -> bool {
    &&& obj_has(m, "QMP"@)
    &&& obj_has(obj_at(m, "QMP"@), "version"@)
    &&& obj_has(obj_at(obj_at(m, "QMP"@), "version"@), "qemu"@)
    &&& is_u64_int(obj_at(obj_at(obj_at(obj_at(m, "QMP"@), "version"@), "qemu"@), "major"@))
    &&& obj_has(obj_at(obj_at(obj_at(m, "QMP"@), "version"@), "qemu"@), "major"@)
    &&& obj_has(obj_at(obj_at(obj_at(m, "QMP"@), "version"@), "qemu"@), "minor"@)
    &&& is_u64_int(obj_at(obj_at(obj_at(obj_at(m, "QMP"@), "version"@), "qemu"@), "minor"@))
    &&& obj_has(obj_at(obj_at(obj_at(m, "QMP"@), "version"@), "qemu"@), "micro"@)
    &&& is_u64_int(obj_at(obj_at(obj_at(obj_at(m, "QMP"@), "version"@), "qemu"@), "micro"@))
    &&& obj_has(obj_at(obj_at(m, "QMP"@), "version"@), "package"@)
    &&& is_str(obj_at(obj_at(obj_at(m, "QMP"@), "version"@), "package"@))
    &&& obj_has(obj_at(m, "QMP"@), "capabilities"@)
    &&& obj_at(obj_at(m, "QMP"@), "capabilities"@) matches JsonV::Arr(cs) && forall|i: int|
        0 <= i < cs.len() ==> is_str(#[trigger] cs[i])
}

/// The greeting `g` is what the value `m` describes.
pub open spec fn greeting_matches(m: JsonV, g: Greeting) -> bool {
    let ver = obj_at(obj_at(m, "QMP"@), "version"@);
    let qm = obj_at(ver, "qemu"@);
    &&& JsonV::Int(g.qmp.version.qemu.major as int) == obj_at(qm, "major"@)
    &&& JsonV::Int(g.qmp.version.qemu.minor as int) == obj_at(qm, "minor"@)
    &&& JsonV::Int(g.qmp.version.qemu.micro as int) == obj_at(qm, "micro"@)
    &&& g.qmp.version.package@ == str_of(obj_at(ver, "package"@))
    &&& obj_at(obj_at(m, "QMP"@), "capabilities"@) matches JsonV::Arr(cs) && g.qmp.capabilities@.len()
        == cs.len() && forall|i: int|
        0 <= i < cs.len() ==> (#[trigger] g.qmp.capabilities@[i])@ == str_of(cs[i])
}

/// Parse the greeting that must open every monitor connection. Anything
/// but a well-formed greeting means the stream is out of step, which is
/// fatal for the connection.
#[verifier::loop_isolation(false)]
pub fn parse_greeting(line: &str) -> (r: Result<Greeting, crate::error::Error>)
    ensures
        match r {
            Ok(g) => json_of(line@) matches Some(m) && greeting_wf(m) && greeting_matches(m, g),
            Err(e) => e == crate::error::Error::Malformed && !(json_of(line@) matches Some(m)
                && greeting_wf(m)),
        },
{
    let v = match json_from_str(line) {
        Some(v) => v,
        None => {
            return Err(crate::error::Error::Malformed);
        },
    };
    let ghost m = json_view(v);
    let qmp = match json_get(&v, "QMP") {
        Some(q) => q,
        None => {
            assert(!greeting_wf(m));
            return Err(crate::error::Error::Malformed);
        },
    };
    let ver = match json_get(qmp, "version") {
        Some(w) => w,
        None => {
            assert(!greeting_wf(m));
            return Err(crate::error::Error::Malformed);
        },
    };
    let qm = match json_get(ver, "qemu") {
        Some(w) => w,
        None => {
            assert(!greeting_wf(m));
            return Err(crate::error::Error::Malformed);
        },
    };
    let major = match json_get(qm, "major") {
        Some(w) => match json_as_u64(w) {
            Some(n) => n,
            None => {
                assert(!greeting_wf(m));
                return Err(crate::error::Error::Malformed);
            },
        },
        None => {
            assert(!greeting_wf(m));
            return Err(crate::error::Error::Malformed);
        },
    };
    let minor = match json_get(qm, "minor") {
        Some(w) => match json_as_u64(w) {
            Some(n) => n,
            None => {
                assert(!greeting_wf(m));
                return Err(crate::error::Error::Malformed);
            },
        },
        None => {
            assert(!greeting_wf(m));
            return Err(crate::error::Error::Malformed);
        },
    };
    let micro = match json_get(qm, "micro") {
        Some(w) => match json_as_u64(w) {
            Some(n) => n,
            None => {
                assert(!greeting_wf(m));
                return Err(crate::error::Error::Malformed);
            },
        },
        None => {
            assert(!greeting_wf(m));
            return Err(crate::error::Error::Malformed);
        },
    };
    let package = match json_get(ver, "package") {
        Some(w) => match json_as_str(w) {
            Some(p) => p.to_owned(),
            None => {
                assert(!greeting_wf(m));
                return Err(crate::error::Error::Malformed);
            },
        },
        None => {
            assert(!greeting_wf(m));
            return Err(crate::error::Error::Malformed);
        },
    };
    let caps_val = match json_get(qmp, "capabilities") {
        Some(w) => w,
        None => {
            assert(!greeting_wf(m));
            return Err(crate::error::Error::Malformed);
        },
    };
    let arr = match json_as_array(caps_val) {
        Some(a) => a,
        None => {
            assert(!greeting_wf(m));
            return Err(crate::error::Error::Malformed);
        },
    };
    let ghost cs = json_view(*caps_val)->Arr_0;
    let mut capabilities: Vec<String> = Vec::new();
    let mut i: usize = 0;
    while i < arr.len()
        invariant
            0 <= i <= arr@.len(),
            arr@.len() == cs.len(),
            json_view(*caps_val) == JsonV::Arr(cs),
            forall|k: int| 0 <= k < cs.len() ==> #[trigger] json_view(arr@[k]) == cs[k],
            capabilities@.len() == i,
            forall|k: int|
                0 <= k < i ==> is_str(#[trigger] cs[k]) && (capabilities@[k])@ == str_of(cs[k]),
        decreases arr@.len() - i,
    {
        match json_as_str(&arr[i]) {
            Some(cap) => {
                let ghost capv = cap@;
                capabilities.push(cap.to_owned());
                proof {
                    assert(json_view(arr@[i as int]) == cs[i as int]);
                    assert(cs[i as int] == JsonV::Str(capv));
                    assert(capabilities@[i as int]@ == capv);
                }
            },
            None => {
                proof {
                    assert(json_view(arr@[i as int]) == cs[i as int]);
                    assert(!is_str(cs[i as int]));
                    assert(json_view(*qmp) == obj_at(m, "QMP"@));
                    assert(json_view(*caps_val) == obj_at(obj_at(m, "QMP"@), "capabilities"@));
                    assert(obj_at(obj_at(m, "QMP"@), "capabilities"@) matches JsonV::Arr(cs2)
                        && cs2 == cs);
                    assert(!greeting_wf(m));
                }
                return Err(crate::error::Error::Malformed);
            },
        }
        i = i + 1;
    }
    let g = Greeting {
        qmp: GreetingInner {
            version: VersionInfo { qemu: VersionTriple { major, minor, micro }, package },
            capabilities,
        },
    };
    proof {
        assert(greeting_wf(m));
        assert(greeting_matches(m, g));
    }
    Ok(g)
}

/// Turn a reply into the caller's result: a success keeps its payload,
/// an error surfaces the server's description.
pub fn response_into_result(resp: Response) -> (r: Result<Return, crate::error::Error>)
    ensures
        match resp {
            Response::Return(ret) => r == Ok::<Return, crate::error::Error>(ret),
            Response::Error(err) => r matches Err(e) && e matches crate::error::Error::Monitor(d)
                && d@ == err.desc@,
        },
{
    match resp {
        Response::Return(ret) => Ok(ret),
        Response::Error(err) => Err(crate::error::Error::Monitor(err.desc)),
    }
}

} // verus!
