//! The connection dispatcher.  It owns the registration map from
//! server-assigned channel ids to per-channel writers, decodes inbound
//! frames, routes updates to the writer of their channel, keeps the
//! connection alive with a ping on a fixed idle cadence, and, when the
//! liveness flag is cleared, drains and stops every writer and closes the
//! transport, at most once.  All outward effects are returned as actions for
//! the caller to perform on the transport and the worker threads.

use crate::message::Message;
use crate::message::MessageView;
use crate::message::decode_view;
use crate::subscriber::HandlerView;
use crate::subscriber::SubscriberHandler;
use crate::subscriber::Update;
use crate::subscriber::UpdateView;
use crate::subscriber::updates_view;
use crate::text::u64_digits;
use crate::text::u64_to_string;
use vstd::prelude::*;
use vstd::string::StringExecFns;

verus! {

/// One inbound transport frame.  Binary frames are never decoded.
pub enum Frame {
    Text(String),
    Binary(Vec<u8>),
}

/// One outward effect the dispatcher asks its caller to perform.
#[derive(Debug, PartialEq)]
pub enum Action {
    /// Send a text frame over the transport.
    SendText(String),
    /// Start a writer for the channel id, on the named output resource.
    SpawnWriter(usize, String),
    /// Forget the writer for the channel id without stopping it.
    RemoveWriter(usize),
    /// Hand one update to the writer for the channel id.
    PushUpdate(usize, Update),
    /// Request the writer's termination and wait for it to finish.
    ShutdownWriter(usize),
    /// Close the transport with a normal-closure code.
    CloseTransport,
}

/// The mathematical shape of one action.
#[verifier::ext_equal]
pub ghost enum ActionView {
    SendText(Seq<char>),
    SpawnWriter(usize, Seq<char>),
    RemoveWriter(usize),
    PushUpdate(usize, UpdateView),
    ShutdownWriter(usize),
    CloseTransport,
}

impl View for Action {
    type V = ActionView;

    open spec fn view(&self) -> ActionView {
        match *self {
            Action::SendText(s) => ActionView::SendText(s@),
            Action::SpawnWriter(id, name) => ActionView::SpawnWriter(id, name@),
            Action::RemoveWriter(id) => ActionView::RemoveWriter(id),
            Action::PushUpdate(id, u) => ActionView::PushUpdate(id, u@),
            Action::ShutdownWriter(id) => ActionView::ShutdownWriter(id),
            Action::CloseTransport => ActionView::CloseTransport,
        }
    }
}

/// The views of a sequence of actions.
pub open spec fn acts_view(a: Seq<Action>) -> Seq<ActionView> {
    a.map_values(|x: Action| x@)
}

/// The keepalive cadence: one ping when more than this many milliseconds
/// pass between processed inbound frames.
pub const PING_INTERVAL_MS: u64 = 300000;

/// The outbound subscribe request for one instrument.
pub open spec fn subscribe_text(pair: Seq<char>) -> Seq<char> {
    "{\"event\":\"subscribe\",\"channel\":\"trades\",\"symbol\":\""@ + pair + "\"}"@
}

/// Builds the subscribe request for one instrument, exactly `subscribe_text`.
pub fn subscribe_request(pair: &String) -> (s: String)
    ensures
        s@ == subscribe_text(pair@),
{
    let mut s = String::from_str("{\"event\":\"subscribe\",\"channel\":\"trades\",\"symbol\":\"");
    s.append(pair.as_str());
    s.append("\"}");
    assert(s@ =~= subscribe_text(pair@));
    s
}

/// The outbound keepalive ping request.
pub open spec fn ping_text() -> Seq<char> {
    "{\"event\":\"ping\",\"cid\":1234}"@
}

/// Builds the keepalive ping request, exactly `ping_text`.
pub fn ping_request() -> (s: String)
    ensures
        s@ == ping_text(),
{
    String::from_str("{\"event\":\"ping\",\"cid\":1234}")
}

/// The name of the output resource for one channel: channel kind,
/// instrument pair and server-assigned id, dot-separated.
pub open spec fn resource_name_spec(channel: Seq<char>, pair: Seq<char>, id: usize) -> Seq<char> {
    channel + "."@ + pair + "."@ + u64_digits(id as int) + ".csv"@
}

/// Builds the output resource name, exactly `resource_name_spec`.
pub fn resource_name(channel: &String, pair: &String, id: usize) -> (s: String)
    ensures
        s@ == resource_name_spec(channel@, pair@, id),
{
    let mut s = channel.clone();
    s.append(".");
    s.append(pair.as_str());
    s.append(".");
    let d = u64_to_string(id as u64);
    s.append(d.as_str());
    s.append(".csv");
    assert(s@ =~= resource_name_spec(channel@, pair@, id));
    s
}

/// The index of the first registration for a channel id, or the length of
/// the sequence where there is none.
pub open spec fn find_id(s: Seq<(usize, HandlerView)>, id: usize) -> int
    decreases s.len(),
{
    if s.len() == 0 {
        0
    } else if s[0].0 == id {
        0
    } else {
        1 + find_id(s.drop_first(), id)
    }
}

/// `find_id` lies in range, lands on the id where the id is present, and
/// nothing before it carries the id.
pub proof fn lemma_find_id(s: Seq<(usize, HandlerView)>, id: usize)
    ensures
        0 <= find_id(s, id) <= s.len(),
        find_id(s, id) < s.len() ==> s[find_id(s, id)].0 == id,
        forall|j: int| 0 <= j < find_id(s, id) ==> (#[trigger] s[j]).0 != id,
    decreases s.len(),
{
    if s.len() > 0 && s[0].0 != id {
        lemma_find_id(s.drop_first(), id);
        assert forall|j: int| 0 <= j < find_id(s, id) implies (#[trigger] s[j]).0 != id by {
            if j >= 1 {
                assert(s.drop_first()[j - 1] == s[j]);
            }
        }
    }
}

/// Where an id first occurs at a known index, `find_id` returns it.
pub proof fn lemma_find_id_at(s: Seq<(usize, HandlerView)>, id: usize, i: int)
    requires
        0 <= i < s.len(),
        s[i].0 == id,
        forall|j: int| 0 <= j < i ==> (#[trigger] s[j]).0 != id,
    ensures
        find_id(s, id) == i,
    decreases s.len(),
{
    if i > 0 {
        assert forall|j: int| 0 <= j < i - 1 implies (#[trigger] s.drop_first()[j]).0 != id by {
            assert(s.drop_first()[j] == s[j + 1]);
        }
        assert(s.drop_first()[i - 1] == s[i]);
        lemma_find_id_at(s.drop_first(), id, i - 1);
    }
}

/// Where no registration carries the id, `find_id` returns the length.
pub proof fn lemma_find_id_none(s: Seq<(usize, HandlerView)>, id: usize)
    requires
        forall|j: int| 0 <= j < s.len() ==> (#[trigger] s[j]).0 != id,
    ensures
        find_id(s, id) == s.len(),
    decreases s.len(),
{
    if s.len() > 0 {
        assert forall|j: int| 0 <= j < s.drop_first().len() implies (#[trigger] s.drop_first()[j]).0
            != id by {
            assert(s.drop_first()[j] == s[j + 1]);
        }
        lemma_find_id_none(s.drop_first(), id);
    }
}

/// Removing an element and inserting another at the same place is one
/// in-place replacement.
pub proof fn lemma_remove_insert<T>(s: Seq<T>, i: int, x: T)
    requires
        0 <= i < s.len(),
    ensures
        s.remove(i).insert(i, x) == s.update(i, x),
{
    assert(s.remove(i).insert(i, x) =~= s.update(i, x));
}

/// A well-formed registration: at most one writer per channel id, and no
/// writer still registered after its termination was requested.
pub open spec fn subs_wf(s: Seq<(usize, HandlerView)>) -> bool {
    &&& forall|i: int, j: int| 0 <= i < j < s.len() ==> (#[trigger] s[i]).0 != (#[trigger] s[j]).0
    &&& forall|i: int| 0 <= i < s.len() ==> !(#[trigger] s[i]).1.closed
}

/// A freshly spawned writer for a named resource.
pub open spec fn empty_handler(name: Seq<char>) -> HandlerView {
    HandlerView { name: name, received: Seq::empty(), closed: false }
}

/// Appends a batch of updates to the writer registered for a channel id, in
/// order; a batch for an unknown id goes nowhere.
pub open spec fn deliver(s: Seq<(usize, HandlerView)>, id: usize, ups: Seq<UpdateView>) -> Seq<
    (usize, HandlerView),
> {
    let i = find_id(s, id);
    if i < s.len() {
        s.update(
            i,
            (
                id,
                HandlerView {
                    name: s[i].1.name,
                    received: s[i].1.received + ups,
                    closed: s[i].1.closed,
                },
            ),
        )
    } else {
        s
    }
}

/// What one decoded message does to the registration map.
pub open spec fn dispatch_model(s: Seq<(usize, HandlerView)>, m: MessageView) -> Seq<
    (usize, HandlerView),
> {
    match m {
        MessageView::Subscribed { channel, id, pair, .. } => {
            let h = empty_handler(resource_name_spec(channel, pair, id));
            let i = find_id(s, id);
            if i < s.len() {
                s.update(i, (id, h))
            } else {
                s.push((id, h))
            }
        },
        MessageView::Unsubscribed { id, .. } => {
            let i = find_id(s, id);
            if i < s.len() {
                s.remove(i)
            } else {
                s
            }
        },
        MessageView::Snapshot(id, ups) => deliver(s, id, ups),
        MessageView::Update(id, _, u) => deliver(s, id, seq![u]),
        _ => s,
    }
}

/// The actions one decoded message asks the caller to perform.
pub open spec fn dispatch_acts_model(s: Seq<(usize, HandlerView)>, m: MessageView) -> Seq<
    ActionView,
> {
    match m {
        MessageView::Subscribed { channel, id, pair, .. } => seq![
            ActionView::SpawnWriter(id, resource_name_spec(channel, pair, id)),
        ],
        MessageView::Unsubscribed { id, .. } => seq![ActionView::RemoveWriter(id)],
        MessageView::Snapshot(id, ups) => if find_id(s, id) < s.len() {
            Seq::new(ups.len(), |i: int| ActionView::PushUpdate(id, ups[i]))
        } else {
            Seq::empty()
        },
        MessageView::Update(id, _, u) => if find_id(s, id) < s.len() {
            seq![ActionView::PushUpdate(id, u)]
        } else {
            Seq::empty()
        },
        _ => Seq::empty(),
    }
}

/// The actions of an orderly close: one termination request per registered
/// writer, in registration order, then the transport close, last.
pub open spec fn close_acts_model(s: Seq<(usize, HandlerView)>) -> Seq<ActionView> {
    Seq::new(s.len(), |i: int| ActionView::ShutdownWriter(s[i].0)).push(ActionView::CloseTransport)
}

/// `find_id` looks only at the channel ids.
pub proof fn lemma_find_id_keys(
    s1: Seq<(usize, HandlerView)>,
    s2: Seq<(usize, HandlerView)>,
    id: usize,
)
    requires
        s1.len() == s2.len(),
        forall|j: int| 0 <= j < s1.len() ==> (#[trigger] s1[j]).0 == (#[trigger] s2[j]).0,
    ensures
        find_id(s1, id) == find_id(s2, id),
    decreases s1.len(),
{
    if s1.len() > 0 && s1[0].0 != id {
        assert forall|j: int| 0 <= j < s1.drop_first().len() implies (
        #[trigger] s1.drop_first()[j]).0 == (#[trigger] s2.drop_first()[j]).0 by {
            assert(s1.drop_first()[j] == s1[j + 1] && s2.drop_first()[j] == s2[j + 1]);
        }
        lemma_find_id_keys(s1.drop_first(), s2.drop_first(), id);
    }
}

/// Dispatching any message keeps the registration well-formed.
pub proof fn lemma_dispatch_model_wf(s: Seq<(usize, HandlerView)>, m: MessageView)
    requires
        subs_wf(s),
    ensures
        subs_wf(dispatch_model(s, m)),
{
    let post = dispatch_model(s, m);
    match m {
        MessageView::Subscribed { channel, id, pair, .. } => {
            lemma_find_id(s, id);
            if find_id(s, id) < s.len() {
                assert forall|x: int| 0 <= x < post.len() implies (#[trigger] post[x]).0
                    == s[x].0 by {}
            } else {
                assert forall|a: int, b: int| 0 <= a < b < post.len() implies (
                #[trigger] post[a]).0 != (#[trigger] post[b]).0 by {
                    if b < s.len() {
                        assert(post[a] == s[a] && post[b] == s[b]);
                    } else {
                        assert(post[b].0 == id && post[a] == s[a]);
                    }
                }
            }
        },
        MessageView::Unsubscribed { id, .. } => {
            lemma_find_id(s, id);
            let i = find_id(s, id);
            if i < s.len() {
                assert forall|a: int, b: int| 0 <= a < b < post.len() implies (
                #[trigger] post[a]).0 != (#[trigger] post[b]).0 by {
                    let a0: int = if a < i { a } else { a + 1 };
                    let b0: int = if b < i { b } else { b + 1 };
                    assert(post[a] == s[a0] && post[b] == s[b0]);
                }
                assert forall|a: int| 0 <= a < post.len() implies !(#[trigger] post[a]).1.closed by {
                    let a0: int = if a < i { a } else { a + 1 };
                    assert(post[a] == s[a0]);
                }
            }
        },
        MessageView::Snapshot(id, ups) => {
            lemma_find_id(s, id);
            assert forall|x: int| 0 <= x < post.len() implies (#[trigger] post[x]).0 == s[x].0
                && post[x].1.closed == s[x].1.closed by {}
        },
        MessageView::Update(id, _, u) => {
            lemma_find_id(s, id);
            assert forall|x: int| 0 <= x < post.len() implies (#[trigger] post[x]).0 == s[x].0
                && post[x].1.closed == s[x].1.closed by {}
        },
        _ => {},
    }
}

/// After a subscribe acknowledgement for a channel id, a snapshot batch for
/// the id and then a single update for it reach exactly that channel's
/// writer, in that order and nothing else; after an unsubscribe for the id,
/// the registration is gone, and a further update for the id changes nothing
/// and asks for no action.
pub proof fn lemma_routing_lifecycle(
    s0: Seq<(usize, HandlerView)>,
    ev: Seq<char>,
    channel: Seq<char>,
    id: usize,
    symbol: Seq<char>,
    pair: Seq<char>,
    ups: Seq<UpdateView>,
    tag1: Seq<char>,
    u: UpdateView,
    ev2: Seq<char>,
    status: Seq<char>,
    tag2: Seq<char>,
    u2: UpdateView,
)
    requires
        subs_wf(s0),
    ensures
        ({
            let m1 = MessageView::Subscribed {
                event: ev,
                channel: channel,
                id: id,
                symbol: symbol,
                pair: pair,
            };
            let s1 = dispatch_model(s0, m1);
            let s2 = dispatch_model(s1, MessageView::Snapshot(id, ups));
            let s3 = dispatch_model(s2, MessageView::Update(id, tag1, u));
            let m4 = MessageView::Unsubscribed { event: ev2, status: status, id: id };
            let s4 = dispatch_model(s3, m4);
            let s5 = dispatch_model(s4, MessageView::Update(id, tag2, u2));
            &&& find_id(s3, id) < s3.len()
            &&& s3[find_id(s3, id)].1.received == ups + seq![u]
            &&& find_id(s4, id) == s4.len()
            &&& s5 == s4
            &&& dispatch_acts_model(s4, MessageView::Update(id, tag2, u2))
                == Seq::<ActionView>::empty()
        }),
{
    let m1 = MessageView::Subscribed {
        event: ev,
        channel: channel,
        id: id,
        symbol: symbol,
        pair: pair,
    };
    let s1 = dispatch_model(s0, m1);
    let h0 = empty_handler(resource_name_spec(channel, pair, id));
    lemma_find_id(s0, id);
    lemma_dispatch_model_wf(s0, m1);
    let i0 = find_id(s0, id);
    if i0 < s0.len() {
        assert(s1 == s0.update(i0, (id, h0)));
        assert forall|j: int| 0 <= j < i0 implies (#[trigger] s1[j]).0 != id by {
            assert(s1[j] == s0[j]);
        }
        lemma_find_id_at(s1, id, i0);
    } else {
        assert(s1 == s0.push((id, h0)));
        assert forall|j: int| 0 <= j < s0.len() implies (#[trigger] s1[j]).0 != id by {
            assert(s1[j] == s0[j]);
        }
        lemma_find_id_at(s1, id, s0.len() as int);
    }
    let i1 = find_id(s1, id);
    assert(s1[i1] == (id, h0));

    let s2 = dispatch_model(s1, MessageView::Snapshot(id, ups));
    lemma_dispatch_model_wf(s1, MessageView::Snapshot(id, ups));
    lemma_find_id(s1, id);
    assert(s2 == s1.update(
        i1,
        (id, HandlerView { name: h0.name, received: h0.received + ups, closed: h0.closed }),
    ));
    assert forall|x: int| 0 <= x < s2.len() implies (#[trigger] s2[x]).0 == s1[x].0 by {}
    lemma_find_id_keys(s2, s1, id);
    let i2 = find_id(s2, id);
    assert(i2 == i1);
    assert(s2[i2].1.received =~= ups);

    let s3 = dispatch_model(s2, MessageView::Update(id, tag1, u));
    lemma_dispatch_model_wf(s2, MessageView::Update(id, tag1, u));
    lemma_find_id(s2, id);
    assert forall|x: int| 0 <= x < s3.len() implies (#[trigger] s3[x]).0 == s2[x].0 by {}
    lemma_find_id_keys(s3, s2, id);
    let i3 = find_id(s3, id);
    assert(i3 == i1);
    assert(s3[i3].1.received =~= ups + seq![u]);

    let m4 = MessageView::Unsubscribed { event: ev2, status: status, id: id };
    let s4 = dispatch_model(s3, m4);
    lemma_dispatch_model_wf(s3, m4);
    lemma_find_id(s3, id);
    assert(s4 == s3.remove(i3));
    assert forall|j: int| 0 <= j < s4.len() implies (#[trigger] s4[j]).0 != id by {
        let j0: int = if j < i3 { j } else { j + 1 };
        assert(s4[j] == s3[j0]);
        assert(s3[i3].0 == id);
        if j0 < i3 {
            assert(s3[j0].0 != s3[i3].0);
        } else {
            assert(s3[i3].0 != s3[j0].0);
        }
    }
    lemma_find_id_none(s4, id);
}

/// How many keepalive pings a run of actions carries.
pub open spec fn count_pings(acts: Seq<ActionView>) -> nat
    decreases acts.len(),
{
    if acts.len() == 0 {
        0
    } else {
        (if acts.last() == ActionView::SendText(ping_text()) {
            1 as nat
        } else {
            0 as nat
        }) + count_pings(acts.drop_last())
    }
}

/// Ping counts add over concatenation.
pub proof fn lemma_count_pings_concat(a: Seq<ActionView>, b: Seq<ActionView>)
    ensures
        count_pings(a + b) == count_pings(a) + count_pings(b),
    decreases b.len(),
{
    if b.len() == 0 {
        assert(a + b =~= a);
    } else {
        assert((a + b).drop_last() =~= a + b.drop_last());
        assert((a + b).last() == b.last());
        lemma_count_pings_concat(a, b.drop_last());
    }
}

/// A run of actions none of which is the ping carries no ping.
pub proof fn lemma_count_pings_none(acts: Seq<ActionView>)
    requires
        forall|j: int| 0 <= j < acts.len() ==> #[trigger] acts[j] != ActionView::SendText(
            ping_text(),
        ),
    ensures
        count_pings(acts) == 0,
    decreases acts.len(),
{
    if acts.len() > 0 {
        lemma_count_pings_none(acts.drop_last());
    }
}

/// The routing actions of a message carry no ping.
pub proof fn lemma_dispatch_acts_no_ping(s: Seq<(usize, HandlerView)>, m: MessageView)
    ensures
        count_pings(dispatch_acts_model(s, m)) == 0,
{
    let acts = dispatch_acts_model(s, m);
    assert forall|j: int| 0 <= j < acts.len() implies #[trigger] acts[j] != ActionView::SendText(
        ping_text(),
    ) by {}
    lemma_count_pings_none(acts);
}

/// The actions of an orderly close carry no ping.
pub proof fn lemma_close_acts_no_ping(s: Seq<(usize, HandlerView)>)
    ensures
        count_pings(close_acts_model(s)) == 0,
{
    let acts = close_acts_model(s);
    assert forall|j: int| 0 <= j < acts.len() implies #[trigger] acts[j] != ActionView::SendText(
        ping_text(),
    ) by {}
    lemma_count_pings_none(acts);
}

/// With a simulated clock, no ping goes out while the keepalive interval
/// since the last ping has not yet passed, and the ping clock stands; once
/// it has passed, exactly one ping goes out and the clock resets to now.
pub proof fn lemma_keepalive(
    pre: ClientView,
    f: Frame,
    now_ms: u64,
    alive: bool,
    post: ClientView,
    acts: Seq<ActionView>,
)
    requires
        on_message_spec(pre, f, now_ms, alive, post, acts),
        !pre.closed,
        pre.last_ping <= now_ms,
    ensures
        now_ms - pre.last_ping <= PING_INTERVAL_MS ==> count_pings(acts) == 0 && post.last_ping
            == pre.last_ping,
        now_ms - pre.last_ping > PING_INTERVAL_MS ==> count_pings(acts) == 1 && post.last_ping
            == now_ms,
{
    let m = frame_msg(f);
    let mid = match m {
        Some(mv) => dispatch_model(pre.subs, mv),
        None => pre.subs,
    };
    let macts = match m {
        Some(mv) => dispatch_acts_model(pre.subs, mv),
        None => Seq::<ActionView>::empty(),
    };
    match m {
        Some(mv) => lemma_dispatch_acts_no_ping(pre.subs, mv),
        None => lemma_count_pings_none(macts),
    }
    let ping = now_ms - pre.last_ping > PING_INTERVAL_MS;
    let pacts: Seq<ActionView> = if ping {
        seq![ActionView::SendText(ping_text())]
    } else {
        Seq::<ActionView>::empty()
    };
    if ping {
        assert(pacts.len() == 1);
        assert(pacts.last() == ActionView::SendText(ping_text()));
        assert(pacts.drop_last() =~= Seq::<ActionView>::empty());
        assert(count_pings(pacts.drop_last()) == 0);
        assert(count_pings(pacts) == 1);
    } else {
        assert(count_pings(pacts) == 0);
    }
    lemma_count_pings_concat(macts, pacts);
    if !alive {
        lemma_close_acts_no_ping(mid);
        lemma_count_pings_concat(macts + pacts, close_acts_model(mid));
    }
}

/// Clearing the liveness flag makes the dispatcher, in the same processing
/// cycle, request the termination of every writer still registered after
/// the frame was routed, and close the transport with the final action;
/// afterwards no writer is registered and the dispatcher is closed, so no
/// further update can reach any writer.
pub proof fn lemma_liveness_close(
    pre: ClientView,
    f: Frame,
    now_ms: u64,
    post: ClientView,
    acts: Seq<ActionView>,
)
    requires
        on_message_spec(pre, f, now_ms, false, post, acts),
        !pre.closed,
    ensures
        post.closed,
        post.subs.len() == 0,
        acts.len() >= 1,
        acts.last() == ActionView::CloseTransport,
        ({
            let mid = match frame_msg(f) {
                Some(mv) => dispatch_model(pre.subs, mv),
                None => pre.subs,
            };
            let base = acts.len() - 1 - mid.len();
            forall|j: int|
                0 <= j < mid.len() ==> acts[base + j] == ActionView::ShutdownWriter(
                    (#[trigger] mid[j]).0,
                )
        }),
{
    let mid = match frame_msg(f) {
        Some(mv) => dispatch_model(pre.subs, mv),
        None => pre.subs,
    };
    let macts = match frame_msg(f) {
        Some(mv) => dispatch_acts_model(pre.subs, mv),
        None => Seq::<ActionView>::empty(),
    };
    let ping = now_ms - pre.last_ping > PING_INTERVAL_MS;
    let pacts: Seq<ActionView> = if ping {
        seq![ActionView::SendText(ping_text())]
    } else {
        Seq::<ActionView>::empty()
    };
    assert(acts == macts + pacts + close_acts_model(mid));
    let base = acts.len() - 1 - mid.len();
    assert(base == macts.len() + pacts.len());
    assert forall|j: int| 0 <= j < mid.len() implies acts[base + j] == ActionView::ShutdownWriter(
        (#[trigger] mid[j]).0,
    ) by {
        assert(close_acts_model(mid)[j] == ActionView::ShutdownWriter(mid[j].0));
    }
    assert(acts.last() == close_acts_model(mid).last());
}

/// Once the dispatcher has closed, every later processing cycle is a no-op:
/// its state stands and it asks for no action, so no writer can be spawned
/// or receive anything further.
pub proof fn lemma_closed_is_final(
    pre: ClientView,
    f: Frame,
    now_ms: u64,
    alive: bool,
    post: ClientView,
    acts: Seq<ActionView>,
)
    requires
        on_message_spec(pre, f, now_ms, alive, post, acts),
        pre.closed,
    ensures
        post == pre,
        acts.len() == 0,
{
}

/// The dispatcher: the configured instruments, the registration map from
/// channel id to writer, the time of the last keepalive ping, and whether
/// the connection was closed.
pub struct Client {
    pairs: Vec<String>,
    subscribers: Vec<(usize, SubscriberHandler)>,
    last_ping: u64,
    closed: bool,
}

/// The mathematical shape of the dispatcher.
#[verifier::ext_equal]
pub ghost struct ClientView {
    pub pairs: Seq<Seq<char>>,
    pub subs: Seq<(usize, HandlerView)>,
    pub last_ping: u64,
    pub closed: bool,
}

impl View for Client {
    type V = ClientView;

    closed spec fn view(&self) -> ClientView {
        ClientView {
            pairs: self.pairs@.map_values(|s: String| s@),
            subs: self.subscribers@.map_values(|p: (usize, SubscriberHandler)| (p.0, p.1@)),
            last_ping: self.last_ping,
            closed: self.closed,
        }
    }
}

/// What a decoded text frame yields, and that a binary frame yields nothing.
pub open spec fn frame_msg(f: Frame) -> Option<MessageView> {
    match f {
        Frame::Text(s) => decode_view(s@),
        Frame::Binary(_) => None,
    }
}

/// What one inbound frame does to the dispatcher: the decoded message is
/// dispatched; a ping goes out exactly when more than the keepalive interval
/// passed since the last one; the liveness flag is checked last and, cleared,
/// closes every writer and the transport, once.  A closed dispatcher does
/// nothing.
pub open spec fn on_message_spec(
    pre: ClientView,
    f: Frame,
    now_ms: u64,
    alive: bool,
    post: ClientView,
    acts: Seq<ActionView>,
) -> bool {
    if pre.closed {
        post == pre && acts == Seq::<ActionView>::empty()
    } else {
        let m = frame_msg(f);
        let mid = match m {
            Some(mv) => dispatch_model(pre.subs, mv),
            None => pre.subs,
        };
        let macts = match m {
            Some(mv) => dispatch_acts_model(pre.subs, mv),
            None => Seq::<ActionView>::empty(),
        };
        let ping = now_ms - pre.last_ping > PING_INTERVAL_MS;
        let pacts: Seq<ActionView> = if ping {
            seq![ActionView::SendText(ping_text())]
        } else {
            Seq::<ActionView>::empty()
        };
        &&& post.pairs == pre.pairs
        &&& post.last_ping == (if ping {
            now_ms
        } else {
            pre.last_ping
        })
        &&& (if !alive {
            &&& post.subs == Seq::<(usize, HandlerView)>::empty()
            &&& post.closed
            &&& acts == macts + pacts + close_acts_model(mid)
        } else {
            &&& post.subs == mid
            &&& post.closed == pre.closed
            &&& acts == macts + pacts
        })
    }
}

impl Client {
    /// The registration map is well-formed.
    pub open spec fn wf(&self) -> bool {
        subs_wf(self@.subs)
    }

    /// A fresh dispatcher: the given instruments, no writer, the keepalive
    /// clock started now, not closed.
    pub fn new(pairs: Vec<String>, now_ms: u64) -> (c: Client)
        ensures
            c.wf(),
            c@.pairs == pairs@.map_values(|s: String| s@),
            c@.subs == Seq::<(usize, HandlerView)>::empty(),
            c@.last_ping == now_ms,
            !c@.closed,
    {
        let c = Client { pairs, subscribers: Vec::new(), last_ping: now_ms, closed: false };
        proof {
            assert(c@.subs =~= Seq::<(usize, HandlerView)>::empty());
        }
        c
    }

    /// Whether the connection was closed.
    pub fn is_closed(&self) -> (r: bool)
        ensures
            r == self@.closed,
    {
        self.closed
    }

    /// The subscribe requests to send at open: one per configured
    /// instrument, in input order.
    pub fn on_open(&self) -> (frames: Vec<String>)
        ensures
            frames@.len() == self@.pairs.len(),
            forall|i: int|
                0 <= i < frames@.len() ==> (#[trigger] frames@[i])@ == subscribe_text(
                    self@.pairs[i],
                ),
    {
        let mut frames: Vec<String> = Vec::new();
        let mut i: usize = 0;
        while i < self.pairs.len()
            invariant
                i <= self.pairs@.len(),
                frames@.len() == i,
                forall|j: int|
                    0 <= j < i ==> (#[trigger] frames@[j])@ == subscribe_text(self@.pairs[j]),
            decreases self.pairs@.len() - i,
        {
            frames.push(subscribe_request(&self.pairs[i]));
            i = i + 1;
        }
        frames
    }

    /// The index of the writer registered for a channel id.
    fn find_index(&self, id: usize) -> (r: Option<usize>)
        ensures
            match r {
                Some(i) => i < self@.subs.len() && find_id(self@.subs, id) == i as int,
                None => find_id(self@.subs, id) == self@.subs.len(),
            },
    {
        let mut i: usize = 0;
        while i < self.subscribers.len()
            invariant
                i <= self.subscribers@.len(),
                forall|j: int| 0 <= j < i ==> (#[trigger] self@.subs[j]).0 != id,
            decreases self.subscribers@.len() - i,
        {
            if self.subscribers[i].0 == id {
                proof {
                    lemma_find_id_at(self@.subs, id, i as int);
                }
                return Some(i);
            }
            i = i + 1;
        }
        proof {
            lemma_find_id_none(self@.subs, id);
        }
        None
    }

    /// Routes one decoded message: a subscribe acknowledgement spawns a
    /// writer for the announced id, replacing any prior registration for the
    /// id; an unsubscribe removes the registration without stopping the
    /// writer; snapshot and update frames go, in order, to the writer of
    /// their id and nowhere on an unknown id; everything else changes
    /// nothing.
    pub fn dispatch(&mut self, m: Message) -> (acts: Vec<Action>)
        requires
            old(self).wf(),
        ensures
            final(self).wf(),
            final(self)@.pairs == old(self)@.pairs,
            final(self)@.last_ping == old(self)@.last_ping,
            final(self)@.closed == old(self)@.closed,
            final(self)@.subs == dispatch_model(old(self)@.subs, m@),
            acts_view(acts@) == dispatch_acts_model(old(self)@.subs, m@),
    {
        let ghost pre = self@.subs;
        match m {
            Message::Subscribed { channel, id, pair, .. } => {
                let name = resource_name(&channel, &pair, id);
                let h = SubscriberHandler::create(name.clone());
                proof {
                    assert(h@ == empty_handler(resource_name_spec(channel@, pair@, id)));
                }
                match self.find_index(id) {
                    Some(i) => {
                        self.subscribers.remove(i);
                        self.subscribers.insert(i, (id, h));
                        proof {
                            lemma_find_id(pre, id);
                            assert(self@.subs =~= pre.update(
                                i as int,
                                (id, empty_handler(resource_name_spec(channel@, pair@, id))),
                            ));
                            assert forall|x: int| 0 <= x < self@.subs.len() implies (
                            #[trigger] self@.subs[x]).0 == pre[x].0 by {}
                        }
                    },
                    None => {
                        self.subscribers.push((id, h));
                        proof {
                            lemma_find_id(pre, id);
                            assert(self@.subs =~= pre.push(
                                (id, empty_handler(resource_name_spec(channel@, pair@, id))),
                            ));
                            assert forall|a: int, b: int|
                                0 <= a < b < self@.subs.len() implies (
                            #[trigger] self@.subs[a]).0 != (#[trigger] self@.subs[b]).0 by {
                                if b < pre.len() {
                                    assert(self@.subs[a] == pre[a] && self@.subs[b] == pre[b]);
                                } else {
                                    assert(self@.subs[b].0 == id && self@.subs[a] == pre[a]);
                                }
                            }
                        }
                    },
                }
                let mut acts: Vec<Action> = Vec::new();
                acts.push(Action::SpawnWriter(id, name));
                proof {
                    assert(acts_view(acts@) =~= dispatch_acts_model(pre, m@));
                }
                acts
            },
            Message::Unsubscribed { id, .. } => {
                match self.find_index(id) {
                    Some(i) => {
                        self.subscribers.remove(i);
                        proof {
                            assert(self@.subs =~= pre.remove(i as int));
                            assert forall|a: int, b: int|
                                0 <= a < b < self@.subs.len() implies (
                            #[trigger] self@.subs[a]).0 != (#[trigger] self@.subs[b]).0 by {
                                let a0: int = if a < i as int { a } else { a + 1 };
                                let b0: int = if b < i as int { b } else { b + 1 };
                                assert(self@.subs[a] == pre[a0] && self@.subs[b] == pre[b0]);
                            }
                            assert forall|a: int| 0 <= a < self@.subs.len() implies !(
                            #[trigger] self@.subs[a]).1.closed by {
                                let a0: int = if a < i as int { a } else { a + 1 };
                                assert(self@.subs[a] == pre[a0]);
                            }
                        }
                    },
                    None => {},
                }
                let mut acts: Vec<Action> = Vec::new();
                acts.push(Action::RemoveWriter(id));
                proof {
                    assert(acts_view(acts@) =~= dispatch_acts_model(pre, m@));
                }
                acts
            },
            Message::Snapshot(id, ups) => {
                let acts = self.forward(id, ups);
                proof {
                    lemma_find_id(pre, id);
                    assert(acts_view(acts@) =~= dispatch_acts_model(pre, m@));
                }
                acts
            },
            Message::Update(id, tag, u) => {
                let ghost uv = u@;
                let mut batch: Vec<Update> = Vec::new();
                batch.push(u);
                proof {
                    assert(updates_view(batch@) =~= seq![uv]);
                }
                let acts = self.forward(id, batch);
                proof {
                    lemma_find_id(pre, id);
                    assert(acts_view(acts@) =~= dispatch_acts_model(pre, m@));
                }
                acts
            },
            _ => {
                let acts: Vec<Action> = Vec::new();
                proof {
                    assert(acts_view(acts@) =~= dispatch_acts_model(pre, m@));
                }
                acts
            },
        }
    }

    /// Hands a batch of updates, in order, to the writer registered for a
    /// channel id; a batch for an unknown id goes nowhere.
    fn forward(&mut self, id: usize, ups: Vec<Update>) -> (acts: Vec<Action>)
        requires
            old(self).wf(),
        ensures
            final(self).wf(),
            final(self)@.pairs == old(self)@.pairs,
            final(self)@.last_ping == old(self)@.last_ping,
            final(self)@.closed == old(self)@.closed,
            final(self)@.subs == deliver(old(self)@.subs, id, updates_view(ups@)),
            find_id(old(self)@.subs, id) < old(self)@.subs.len() ==> acts@.len() == ups@.len()
                && (forall|j: int|
                0 <= j < ups@.len() ==> (#[trigger] acts@[j])@ == ActionView::PushUpdate(
                    id,
                    ups@[j]@,
                )),
            find_id(old(self)@.subs, id) >= old(self)@.subs.len() ==> acts@.len() == 0,
    {
        let ghost pre = self@.subs;
        let ghost pre_vec = self.subscribers@;
        match self.find_index(id) {
            Some(i) => {
                proof {
                    lemma_find_id(pre, id);
                }
                let (key, mut h) = self.subscribers.remove(i);
                let ghost pre_h = h@;
                proof {
                    assert(pre[i as int] == (pre_vec[i as int].0, pre_vec[i as int].1@));
                    assert(key == pre[i as int].0 && pre_h == pre[i as int].1);
                }
                let mut acts: Vec<Action> = Vec::new();
                let mut k: usize = 0;
                while k < ups.len()
                    invariant
                        k <= ups@.len(),
                        h@.name == pre_h.name,
                        h@.closed == pre_h.closed,
                        !pre_h.closed,
                        h@.received =~= pre_h.received + updates_view(ups@).take(k as int),
                        acts@.len() == k,
                        forall|j: int|
                            0 <= j < k ==> (#[trigger] acts@[j])@ == ActionView::PushUpdate(
                                id,
                                ups@[j]@,
                            ),
                    decreases ups@.len() - k,
                {
                    let u = ups[k].duplicate();
                    h.send(u);
                    acts.push(Action::PushUpdate(id, ups[k].duplicate()));
                    proof {
                        assert(updates_view(ups@).take(k + 1) =~= updates_view(ups@).take(
                            k as int,
                        ).push(ups@[k as int]@));
                    }
                    k = k + 1;
                }
                proof {
                    assert(updates_view(ups@).take(ups@.len() as int) =~= updates_view(ups@));
                    assert(h@.received =~= pre_h.received + updates_view(ups@));
                }
                let ghost mid_vec = self.subscribers@;
                self.subscribers.insert(i, (key, h));
                proof {
                    assert(mid_vec == pre_vec.remove(i as int));
                    lemma_remove_insert(pre_vec, i as int, self.subscribers@[i as int]);
                    assert(self.subscribers@ =~= pre_vec.update(
                        i as int,
                        self.subscribers@[i as int],
                    ));
                    assert(self@.subs =~~= deliver(pre, id, updates_view(ups@)));
                }
                acts
            },
            None => {
                let acts: Vec<Action> = Vec::new();
                acts
            },
        }
    }

    /// Decodes one text frame and routes the result; a frame that does not
    /// decode is dropped and changes nothing.
    pub fn handle_message(&mut self, s: &str) -> (acts: Vec<Action>)
        requires
            old(self).wf(),
        ensures
            final(self).wf(),
            final(self)@.pairs == old(self)@.pairs,
            final(self)@.last_ping == old(self)@.last_ping,
            final(self)@.closed == old(self)@.closed,
            final(self)@.subs == (match decode_view(s@) {
                Some(mv) => dispatch_model(old(self)@.subs, mv),
                None => old(self)@.subs,
            }),
            acts_view(acts@) == (match decode_view(s@) {
                Some(mv) => dispatch_acts_model(old(self)@.subs, mv),
                None => Seq::<ActionView>::empty(),
            }),
    {
        match Message::try_new(s) {
            Some(m) => self.dispatch(m),
            None => {
                let acts: Vec<Action> = Vec::new();
                proof {
                    assert(acts_view(acts@) =~= Seq::<ActionView>::empty());
                }
                acts
            },
        }
    }

    /// Drains and stops every registered writer, in registration order, then
    /// closes the transport.
    pub fn close(&mut self) -> (acts: Vec<Action>)
        requires
            old(self).wf(),
        ensures
            final(self).wf(),
            final(self)@.pairs == old(self)@.pairs,
            final(self)@.last_ping == old(self)@.last_ping,
            final(self)@.subs == Seq::<(usize, HandlerView)>::empty(),
            final(self)@.closed,
            acts_view(acts@) == close_acts_model(old(self)@.subs),
    {
        let ghost pre = self@.subs;
        let mut acts: Vec<Action> = Vec::new();
        let mut i: usize = 0;
        while i < self.subscribers.len()
            invariant
                self@.subs == pre,
                i <= self.subscribers@.len(),
                acts@.len() == i,
                forall|j: int|
                    0 <= j < i ==> (#[trigger] acts@[j])@ == ActionView::ShutdownWriter(
                        pre[j].0,
                    ),
            decreases self.subscribers@.len() - i,
        {
            acts.push(Action::ShutdownWriter(self.subscribers[i].0));
            i = i + 1;
        }
        self.subscribers = Vec::new();
        acts.push(Action::CloseTransport);
        self.closed = true;
        proof {
            assert(self@.subs =~= Seq::<(usize, HandlerView)>::empty());
            assert(acts_view(acts@) =~= close_acts_model(pre));
        }
        acts
    }

    /// Checks the liveness flag: cleared, it performs the orderly close,
    /// once; set, it changes nothing.
    pub fn check_close(&mut self, alive: bool) -> (acts: Vec<Action>)
        requires
            old(self).wf(),
        ensures
            final(self).wf(),
            alive || old(self)@.closed ==> final(self)@ == old(self)@ && acts@.len() == 0,
            !alive && !old(self)@.closed ==> {
                &&& final(self)@.pairs == old(self)@.pairs
                &&& final(self)@.last_ping == old(self)@.last_ping
                &&& final(self)@.subs == Seq::<(usize, HandlerView)>::empty()
                &&& final(self)@.closed
                &&& acts_view(acts@) == close_acts_model(old(self)@.subs)
            },
    {
        if !alive && !self.closed {
            self.close()
        } else {
            Vec::new()
        }
    }

    /// The recurring idle timer fired: only the liveness check runs.
    pub fn on_timeout(&mut self, alive: bool) -> (acts: Vec<Action>)
        requires
            old(self).wf(),
        ensures
            final(self).wf(),
            alive || old(self)@.closed ==> final(self)@ == old(self)@ && acts@.len() == 0,
            !alive && !old(self)@.closed ==> {
                &&& final(self)@.pairs == old(self)@.pairs
                &&& final(self)@.last_ping == old(self)@.last_ping
                &&& final(self)@.subs == Seq::<(usize, HandlerView)>::empty()
                &&& final(self)@.closed
                &&& acts_view(acts@) == close_acts_model(old(self)@.subs)
            },
    {
        self.check_close(alive)
    }

    /// One inbound frame: a text frame is decoded and routed, a binary frame
    /// is ignored outright; then the keepalive cadence is checked, then the
    /// liveness flag, exactly as `on_message_spec` says.
    pub fn on_message(&mut self, frame: &Frame, now_ms: u64, alive: bool) -> (acts: Vec<Action>)
        requires
            old(self).wf(),
            old(self)@.last_ping <= now_ms,
        ensures
            final(self).wf(),
            on_message_spec(old(self)@, *frame, now_ms, alive, final(self)@, acts_view(acts@)),
    {
        if self.closed {
            let acts: Vec<Action> = Vec::new();
            proof {
                assert(acts_view(acts@) =~= Seq::<ActionView>::empty());
            }
            return acts;
        }
        let ghost pre = self@;
        let ghost m_opt = frame_msg(*frame);
        let mut acts: Vec<Action> = match frame {
            Frame::Text(s) => {
                proof {
                    assert(m_opt == decode_view(s@));
                }
                self.handle_message(s.as_str())
            },
            Frame::Binary(_) => {
                let a: Vec<Action> = Vec::new();
                proof {
                    assert(acts_view(a@) =~= Seq::<ActionView>::empty());
                }
                a
            },
        };
        let ghost macts = acts_view(acts@);
        let ghost mid = self@.subs;
        proof {
            assert(mid == (match m_opt {
                Some(mv) => dispatch_model(pre.subs, mv),
                None => pre.subs,
            }));
            assert(macts == (match m_opt {
                Some(mv) => dispatch_acts_model(pre.subs, mv),
                None => Seq::<ActionView>::empty(),
            }));
        }
        let ghost ping = now_ms - pre.last_ping > PING_INTERVAL_MS;
        if now_ms - self.last_ping > PING_INTERVAL_MS {
            acts.push(Action::SendText(ping_request()));
            self.last_ping = now_ms;
            proof {
                assert(acts_view(acts@) =~= macts + seq![ActionView::SendText(ping_text())]);
            }
        }
        let ghost pacts: Seq<ActionView> = if ping {
            seq![ActionView::SendText(ping_text())]
        } else {
            Seq::<ActionView>::empty()
        };
        let ghost phase2 = acts_view(acts@);
        proof {
            assert(phase2 =~= macts + pacts);
        }
        let mut more = self.check_close(alive);
        let ghost mview = acts_view(more@);
        acts.append(&mut more);
        proof {
            assert(acts_view(acts@) =~= phase2 + mview);
            if !alive {
                assert(mview == close_acts_model(mid));
                assert(acts_view(acts@) =~= macts + pacts + close_acts_model(mid));
            } else {
                assert(mview =~= Seq::<ActionView>::empty());
                assert(acts_view(acts@) =~= macts + pacts);
            }
        }
        acts
    }

    /// The output content of the writer registered for a channel id: the
    /// header, then one record per update delivered to it, in order.
    pub fn subscriber_output(&self, id: usize) -> (r: Option<Vec<String>>)
        ensures
            match r {
                Some(lines) => find_id(self@.subs, id) < self@.subs.len() && ({
                    let h = self@.subs[find_id(self@.subs, id)].1;
                    &&& lines@.len() == 1 + h.received.len()
                    &&& lines@[0]@ == crate::subscriber::header_line()
                    &&& forall|i: int|
                        0 <= i < h.received.len() ==> (#[trigger] lines@[i + 1])@
                            == crate::subscriber::record_line(h.received[i])
                }),
                None => find_id(self@.subs, id) == self@.subs.len(),
            },
    {
        match self.find_index(id) {
            Some(i) => Some(self.subscribers[i].1.output_lines()),
            None => None,
        }
    }
}

} // verus!
