//! The connection multiplexer, as a pure state machine.
//!
//! One task owns the socket and this state exclusively. Every outside
//! effect is an action handed back to that task: write these frame bodies,
//! deliver this completed response to the caller waiting on this
//! correlation id, tell every outstanding caller the connection is gone,
//! or fail fast on a protocol desync. The embedding runs the event loop and
//! performs the I/O; every decision is made here, under contract.

use vstd::prelude::*;
use vstd::bytes::{spec_u16_from_le_bytes, spec_u32_from_le_bytes, spec_u64_from_le_bytes};
use crate::remote::message::{
    frame_views, is_flag_set, spec_flag_set, Frame, FrameView, Message, MessageView,
    END_FRAGMENT_FLAG, IS_FINAL_FLAG,
};

verus! {

/// The response frames accumulated so far for one outstanding call.
#[derive(Debug)]
pub struct PendingEntry {
    pub id: u64,
    pub frames: Vec<Frame>,
}

/// Mathematical image of a [`PendingEntry`].
#[verifier::ext_equal]
pub ghost struct PendingView {
    pub id: u64,
    pub frames: Seq<FrameView>,
}

impl View for PendingEntry {
    type V = PendingView;

    open spec fn view(&self) -> PendingView {
        PendingView { id: self.id, frames: frame_views(self.frames@) }
    }
}

/// The views of a sequence of pending entries.
pub open spec fn pending_views(s: Seq<PendingEntry>) -> Seq<PendingView> {
    Seq::new(s.len(), |i: int| s[i]@)
}

/// Some entry in the table carries this correlation id.
pub open spec fn contains_id(s: Seq<PendingView>, id: u64) -> bool {
    exists|i: int| 0 <= i < s.len() && #[trigger] s[i].id == id
}

/// No two entries carry the same correlation id.
pub open spec fn distinct_ids(s: Seq<PendingView>) -> bool {
    forall|i: int, j: int| 0 <= i < j < s.len() ==> #[trigger] s[i].id != #[trigger] s[j].id
}

/// Mathematical image of a [`ChannelState`].
#[verifier::ext_equal]
pub ghost struct ChannelStateView {
    pub correlations: Seq<PendingView>,
    pub active: Option<u64>,
    pub next_id: u64,
}

/// The state the connection's owning task threads through [`step`]: the
/// correlation table (at most one live entry per id), the active-correlation
/// cursor of the ingress side, and the monotone correlation-id sequencer.
///
/// [`step`]: ChannelState::step
#[derive(Debug)]
pub struct ChannelState {
    pub correlations: Vec<PendingEntry>,
    pub active: Option<u64>,
    pub next_id: u64,
}

impl View for ChannelState {
    type V = ChannelStateView;

    open spec fn view(&self) -> ChannelStateView {
        ChannelStateView {
            correlations: pending_views(self.correlations@),
            active: self.active,
            next_id: self.next_id,
        }
    }
}

/// One input to the multiplexer: a message a caller wants sent, one raw
/// frame body arriving from the transport framer, or the end of the
/// connection.
#[derive(Debug)]
pub enum ChannelEvent {
    Egress(Message),
    Ingress(Vec<u8>),
    Closed,
}

/// What the owning task must do next. `Write` carries the wire bodies of
/// one message's frames, to go out in order and uninterleaved; `Deliver`
/// completes the caller waiting on the given correlation id with its
/// reassembled response; `Fatal` is an unrecoverable protocol desync (close
/// the connection rather than guess); `Abort` lists every caller that must
/// be told the connection is gone.
#[derive(Debug)]
pub enum ChannelAction {
    Write(Vec<Vec<u8>>),
    Deliver(u64, Message),
    Continue,
    Fatal,
    Abort(Vec<u64>),
}

/// The views of a sequence of byte buffers.
pub open spec fn byte_vec_views(s: Seq<Vec<u8>>) -> Seq<Seq<u8>> {
    Seq::new(s.len(), |i: int| s[i]@)
}

/// The wire bodies of a message's frames: each frame's flags and content,
/// with the final-message bit OR'ed into the last frame's flags only.
pub open spec fn spec_message_payloads(frames: Seq<FrameView>) -> Seq<Seq<u8>> {
    Seq::new(
        frames.len(),
        |i: int|
            vstd::bytes::spec_u16_to_le_bytes(
                if i == frames.len() - 1 {
                    frames[i].flags | IS_FINAL_FLAG
                } else {
                    frames[i].flags
                },
            ) + frames[i].content,
    )
}

/// How one forwarded frame changes the state: appended to the entry of its
/// correlation id; on the final-message bit the completed message is
/// delivered and the entry retired, on the end-fragment bit the active
/// cursor clears, otherwise the correlation stays active.
pub open spec fn spec_forward(
    pre: ChannelStateView,
    id: u64,
    fv: FrameView,
    post: ChannelStateView,
    action: ChannelAction,
) -> bool {
    exists|i: int|
        #![trigger pre.correlations[i]]
        {
            &&& 0 <= i < pre.correlations.len()
            &&& pre.correlations[i].id == id
            &&& if spec_flag_set(fv.flags, IS_FINAL_FLAG) {
                &&& post.correlations == pre.correlations.remove(i)
                &&& post.active is None
                &&& post.next_id == pre.next_id
                &&& action matches ChannelAction::Deliver(did, m) && did == id && m@.id == id
                    && m@.frames == pre.correlations[i].frames.push(fv) && m@.message_type
                    == pre.correlations[i].frames.push(fv)[0].message_type
            } else {
                &&& post.correlations == pre.correlations.update(
                    i,
                    PendingView { id, frames: pre.correlations[i].frames.push(fv) },
                )
                &&& post.active == if spec_flag_set(fv.flags, END_FRAGMENT_FLAG) {
                    Option::<u64>::None
                } else {
                    Option::<u64>::Some(id)
                }
                &&& post.next_id == pre.next_id
                &&& action is Continue
            }
        }
}

/// How a caller's outgoing message changes the state: its frame bodies are
/// written in order and its correlation id registered, unless the id is
/// already live, which is a protocol-state fault.
pub open spec fn spec_egress_post(
    pre: ChannelStateView,
    m: MessageView,
    post: ChannelStateView,
    action: ChannelAction,
) -> bool {
    if contains_id(pre.correlations, m.id) {
        post == pre && action is Fatal
    } else {
        &&& post.correlations == pre.correlations.push(
            PendingView { id: m.id, frames: Seq::empty() },
        )
        &&& post.active == pre.active
        &&& post.next_id == pre.next_id
        &&& action matches ChannelAction::Write(ps) && byte_vec_views(ps@)
            == spec_message_payloads(m.frames)
    }
}

/// How one inbound frame body changes the state. With no correlation
/// active it is a first frame: its correlation id and message type are
/// extracted and its id looked up, an unknown id being a fatal desync.
/// With a correlation active the frame is forwarded to it. A body too
/// short to parse is a fatal desync too.
pub open spec fn spec_ingress_post(
    pre: ChannelStateView,
    bytes: Seq<u8>,
    post: ChannelStateView,
    action: ChannelAction,
) -> bool {
    match pre.active {
        None => {
            if bytes.len() < 14 {
                post == pre && action is Fatal
            } else {
                let flags = spec_u16_from_le_bytes(bytes.subrange(0, 2));
                let id = spec_u64_from_le_bytes(bytes.subrange(6, 14));
                let fv = FrameView {
                    content: bytes.skip(2),
                    flags,
                    message_type: spec_u32_from_le_bytes(bytes.subrange(2, 6)),
                    correlation_id: id,
                    is_first: true,
                };
                if !contains_id(pre.correlations, id) {
                    post == pre && action is Fatal
                } else {
                    spec_forward(pre, id, fv, post, action)
                }
            }
        },
        Some(a) => {
            if bytes.len() < 2 {
                post == pre && action is Fatal
            } else {
                let fv = FrameView {
                    content: bytes.skip(2),
                    flags: spec_u16_from_le_bytes(bytes.subrange(0, 2)),
                    message_type: 0,
                    correlation_id: 0,
                    is_first: false,
                };
                spec_forward(pre, a, fv, post, action)
            }
        },
    }
}

/// How the end of the connection changes the state: the table empties and
/// every outstanding caller is named in the abort action, in table order.
pub open spec fn spec_closed_post(
    pre: ChannelStateView,
    post: ChannelStateView,
    action: ChannelAction,
) -> bool {
    &&& post.correlations == Seq::<PendingView>::empty()
    &&& post.active is None
    &&& post.next_id == pre.next_id
    &&& action matches ChannelAction::Abort(ids) && ids@ == Seq::new(
        pre.correlations.len(),
        |i: int| pre.correlations[i].id,
    )
}

impl ChannelState {
    /// At most one live entry per correlation id; an active correlation
    /// always has a non-empty entry to deliver from.
    pub open spec fn wf(&self) -> bool {
        &&& distinct_ids(self@.correlations)
        &&& match self@.active {
            Some(a) => exists|i: int|
                #![auto]
                0 <= i < self@.correlations.len() && self@.correlations[i].id == a
                    && self@.correlations[i].frames.len() > 0,
            None => true,
        }
    }

    /// A fresh multiplexer with no outstanding calls.
    pub fn new() -> (r: ChannelState)
        ensures
            r@.correlations == Seq::<PendingView>::empty(),
            r@.active is None,
            r@.next_id == 0,
            r.wf(),
    {
        let r = ChannelState { correlations: Vec::new(), active: None, next_id: 0 };
        proof {
            assert(pending_views(r.correlations@) =~= Seq::<PendingView>::empty());
        }
        r
    }

    /// The next correlation id from the monotone sequencer. Wraparound
    /// reuse is out of scope: the sequencer must not be exhausted.
    pub fn fresh_correlation_id(&mut self) -> (r: u64)
        requires
            old(self).next_id < u64::MAX,
        ensures
            r == old(self).next_id,
            final(self)@ == (ChannelStateView {
                next_id: (old(self).next_id + 1) as u64,
                ..old(self)@
            }),
            old(self).wf() ==> final(self).wf(),
    {
        let id = self.next_id;
        self.next_id = self.next_id + 1;
        id
    }

    /// The index of the entry holding this correlation id, if any.
    fn find_index(&self, id: u64) -> (r: Option<usize>)
        ensures
            match r {
                Some(i) => i < self@.correlations.len() && self@.correlations[i as int].id == id,
                None => !contains_id(self@.correlations, id),
            },
    {
        let n = self.correlations.len();
        let mut i: usize = 0;
        while i < n
            invariant
                n == self.correlations@.len(),
                i <= n,
                forall|j: int| 0 <= j < i ==> #[trigger] self@.correlations[j].id != id,
            decreases n - i,
        {
            if self.correlations[i].id == id {
                return Some(i);
            }
            i = i + 1;
        }
        None
    }

    /// Appends the frame to the entry at `i` and resolves the frame's
    /// fragmentation bits into the next state and action.
    fn forward(&mut self, i: usize, frame: Frame) -> (action: ChannelAction)
        requires
            old(self).wf(),
            i < old(self)@.correlations.len(),
        ensures
            final(self).wf(),
            spec_forward(
                old(self)@,
                old(self)@.correlations[i as int].id,
                frame@,
                final(self)@,
                action,
            ),
    {
        let ghost pre = self@;
        let ghost pre_entries = self.correlations@;
        let ghost gi = i as int;
        let is_final = is_flag_set(frame.flags, IS_FINAL_FLAG);
        let is_end_fragment = is_flag_set(frame.flags, END_FRAGMENT_FLAG);
        let mut entry = self.correlations.remove(i);
        let id = entry.id;
        entry.frames.push(frame);
        proof {
            assert(entry@.frames =~= pre.correlations[gi].frames.push(frame@));
            pre_entries.remove_ensures(gi);
        }
        if is_final {
            let message_type = entry.frames[0].message_type;
            let message = Message { id: entry.id, message_type, frames: entry.frames };
            self.active = None;
            proof {
                pre.correlations.remove_ensures(gi);
                assert(pending_views(self.correlations@) =~= pre.correlations.remove(gi));
                assert(spec_forward(pre, id, frame@, self@, ChannelAction::Deliver(id, message)))
                    by {
                    assert(0 <= gi < pre.correlations.len() && pre.correlations[gi].id == id
                        && pre.correlations.remove(gi) == self@.correlations);
                }
                assert(distinct_ids(self@.correlations)) by {
                    assert forall|a: int, b: int|
                        0 <= a < b < self@.correlations.len() implies #[trigger] self@
                        .correlations[a].id != #[trigger] self@.correlations[b].id by {
                        let a2 = if a < gi {
                            a
                        } else {
                            a + 1
                        };
                        let b2 = if b < gi {
                            b
                        } else {
                            b + 1
                        };
                        assert(self@.correlations[a] == pre.correlations[a2]);
                        assert(self@.correlations[b] == pre.correlations[b2]);
                    }
                }
            }
            ChannelAction::Deliver(id, message)
        } else {
            self.correlations.insert(i, entry);
            self.active = if is_end_fragment {
                None
            } else {
                Some(id)
            };
            proof {
                let removed = pre_entries.remove(gi);
                removed.insert_ensures(gi, entry);
                let target = pre.correlations.update(
                    gi,
                    PendingView { id, frames: pre.correlations[gi].frames.push(frame@) },
                );
                assert(pending_views(self.correlations@) =~~= target) by {
                    assert forall|j: int|
                        0 <= j < self.correlations@.len() implies pending_views(
                        self.correlations@,
                    )[j] =~~= target[j] by {
                        if j < gi {
                            assert(self.correlations@[j] == pre_entries[j]);
                        } else if j == gi {
                            assert(self.correlations@[j] == entry);
                        } else {
                            assert(removed[j - 1] == pre_entries[j]);
                            assert(self.correlations@[j] == removed[j - 1]);
                        }
                    }
                }
                assert(spec_forward(pre, id, frame@, self@, ChannelAction::Continue)) by {
                    assert({
                        &&& 0 <= gi < pre.correlations.len()
                        &&& pre.correlations[gi].id == id
                        &&& self@.correlations == target
                        &&& self@.active == if spec_flag_set(frame@.flags, END_FRAGMENT_FLAG) {
                            Option::<u64>::None
                        } else {
                            Option::<u64>::Some(id)
                        }
                        &&& self@.next_id == pre.next_id
                    });
                }
                assert(distinct_ids(self@.correlations)) by {
                    assert forall|a: int, b: int|
                        0 <= a < b < self@.correlations.len() implies #[trigger] self@
                        .correlations[a].id != #[trigger] self@.correlations[b].id by {
                        assert(self@.correlations[a].id == pre.correlations[a].id);
                        assert(self@.correlations[b].id == pre.correlations[b].id);
                    }
                }
                assert(self@.correlations[gi].id == id && self@.correlations[gi].frames.len() > 0);
            }
            ChannelAction::Continue
        }
    }

    /// Advances the multiplexer by one event.
    ///
    /// Egress: the message's frame bodies are returned for writing, in
    /// order, the final-message bit set on the last only, and its
    /// correlation id is registered. Ingress: the frame is routed by the
    /// active-correlation cursor, never to a caller with a different id,
    /// and a completed response is delivered exactly when its final frame
    /// arrives. Closed: every outstanding caller is reported for
    /// notification and the table empties.
    pub fn step(&mut self, event: ChannelEvent) -> (action: ChannelAction)
        requires
            old(self).wf(),
        ensures
            final(self).wf(),
            match event {
                ChannelEvent::Egress(m) => spec_egress_post(old(self)@, m@, final(self)@, action),
                ChannelEvent::Ingress(bytes) => spec_ingress_post(
                    old(self)@,
                    bytes@,
                    final(self)@,
                    action,
                ),
                ChannelEvent::Closed => spec_closed_post(old(self)@, final(self)@, action),
            },
    {
        match event {
            ChannelEvent::Egress(message) => {
                match self.find_index(message.id()) {
                    Some(_) => ChannelAction::Fatal,
                    None => {
                        let mut payloads: Vec<Vec<u8>> = Vec::new();
                        let n = message.len();
                        let mut i: usize = 0;
                        proof {
                            assert(byte_vec_views(payloads@) =~= spec_message_payloads(
                                message@.frames,
                            ).take(0));
                        }
                        while i < n
                            invariant
                                n == message@.frames.len(),
                                i <= n,
                                byte_vec_views(payloads@) == spec_message_payloads(
                                    message@.frames,
                                ).take(i as int),
                            decreases n - i,
                        {
                            let is_final = i + 1 == n;
                            let p = message.frame_at(i).payload(is_final);
                            payloads.push(p);
                            proof {
                                assert(spec_message_payloads(message@.frames).take(
                                    i as int,
                                ).len() == i);
                                assert(byte_vec_views(payloads@) =~~= spec_message_payloads(
                                    message@.frames,
                                ).take(i + 1));
                            }
                            i = i + 1;
                        }
                        proof {
                            assert(spec_message_payloads(message@.frames).take(n as int)
                                =~= spec_message_payloads(message@.frames));
                        }
                        let entry = PendingEntry { id: message.id(), frames: Vec::new() };
                        let ghost pre = self@;
                        self.correlations.push(entry);
                        proof {
                            assert(pending_views(self.correlations@) =~~= pre.correlations.push(
                                PendingView { id: message@.id, frames: Seq::empty() },
                            ));
                            assert(distinct_ids(self@.correlations)) by {
                                assert forall|a: int, b: int|
                                    0 <= a < b < self@.correlations.len() implies #[trigger] self@
                                    .correlations[a].id != #[trigger] self@
                                    .correlations[b].id by {
                                    if b == self@.correlations.len() - 1 {
                                        assert(self@.correlations[a] == pre.correlations[a]);
                                        assert(self@.correlations[b].id == message@.id);
                                    } else {
                                        assert(self@.correlations[a] == pre.correlations[a]);
                                        assert(self@.correlations[b] == pre.correlations[b]);
                                    }
                                }
                            }
                            if let Some(act) = pre.active {
                                let w = choose|w: int|
                                    #![auto]
                                    0 <= w < pre.correlations.len() && pre.correlations[w].id
                                        == act && pre.correlations[w].frames.len() > 0;
                                assert(self@.correlations[w] == pre.correlations[w]);
                            }
                        }
                        ChannelAction::Write(payloads)
                    },
                }
            },
            ChannelEvent::Ingress(bytes) => {
                match self.active {
                    None => {
                        if bytes.len() < 14 {
                            return ChannelAction::Fatal;
                        }
                        let frame = Frame::from(bytes, true);
                        let id = frame.id();
                        match self.find_index(id) {
                            Some(i) => self.forward(i, frame),
                            None => ChannelAction::Fatal,
                        }
                    },
                    Some(a) => {
                        if bytes.len() < 2 {
                            return ChannelAction::Fatal;
                        }
                        let frame = Frame::from(bytes, false);
                        match self.find_index(a) {
                            Some(i) => self.forward(i, frame),
                            None => {
                                proof {
                                    assert(contains_id(self@.correlations, a));
                                    assert(false);
                                }
                                ChannelAction::Fatal
                            },
                        }
                    },
                }
            },
            ChannelEvent::Closed => {
                let n = self.correlations.len();
                let mut ids: Vec<u64> = Vec::new();
                let mut i: usize = 0;
                while i < n
                    invariant
                        n == self.correlations@.len(),
                        i <= n,
                        ids@ == Seq::new(i as nat, |j: int| self@.correlations[j].id),
                    decreases n - i,
                {
                    ids.push(self.correlations[i].id);
                    proof {
                        assert(ids@ =~= Seq::new((i + 1) as nat, |j: int| self@.correlations[j].id));
                    }
                    i = i + 1;
                }
                self.correlations = Vec::new();
                self.active = None;
                proof {
                    assert(pending_views(self.correlations@) =~= Seq::<PendingView>::empty());
                }
                ChannelAction::Abort(ids)
            },
        }
    }
}

/// A response is only ever delivered to the caller that registered its
/// correlation id: a delivery on an ingress step names an id that was
/// outstanding, hands over a message carrying exactly that id, and
/// retires the id, so no later frame can reach the same caller twice and
/// no caller can receive another's response.
pub proof fn lemma_deliver_routes(
    pre: ChannelStateView,
    bytes: Seq<u8>,
    post: ChannelStateView,
    action: ChannelAction,
)
    requires
        distinct_ids(pre.correlations),
        spec_ingress_post(pre, bytes, post, action),
    ensures
        action matches ChannelAction::Deliver(id, m) ==> {
            &&& contains_id(pre.correlations, id)
            &&& m@.id == id
            &&& !contains_id(post.correlations, id)
        },
{
    if let ChannelAction::Deliver(id, m) = action {
        let fid = if pre.active is None {
            spec_u64_from_le_bytes(bytes.subrange(6, 14))
        } else {
            pre.active->0
        };
        let i = choose|i: int|
            #![auto]
            0 <= i < pre.correlations.len() && pre.correlations[i].id == fid
                && post.correlations == pre.correlations.remove(i);
        assert(0 <= i < pre.correlations.len() && pre.correlations[i].id == fid
            && post.correlations == pre.correlations.remove(i));
        assert(contains_id(pre.correlations, fid));
        if contains_id(post.correlations, fid) {
            let j = choose|j: int|
                0 <= j < post.correlations.len() && #[trigger] post.correlations[j].id == fid;
            if j < i {
                assert(pre.correlations[j].id == fid);
            } else {
                assert(pre.correlations[j + 1].id == fid);
            }
        }
    }
}

} // verus!
