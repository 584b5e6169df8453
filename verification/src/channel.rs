use vstd::prelude::*;
use crate::frame::RendererFrame;
use crate::updates::TextureUpdateList;

verus! {

/// Counters the frame builder gathered while producing one frame,
/// carried alongside the snapshot for display by the consumer.
#[derive(Copy, Clone, Debug, Eq, PartialEq, Structural, Hash)]
pub struct BackendProfileCounters {
    pub total_time_ns: u64,
}

/// One delivery unit of the frame result channel: a texture-cache
/// update batch to replay, a shader path to reload before the next
/// draw that uses it, or a completed frame snapshot with its
/// profiling counters.
pub enum ResultMsg {
    UpdateTextureCache(TextureUpdateList),
    RefreshShader(String),
    NewFrame(RendererFrame, BackendProfileCounters),
}

/// The frame result channel: the one synchronization point between
/// the producer and the GPU-owning consumer, modeled as an explicit
/// ordered queue. Sends append, receives take the front, so the
/// consumer observes and applies messages strictly in send order.
pub struct ResultChannel {
    pub pending: Vec<ResultMsg>,
    pub delivered: Ghost<Seq<ResultMsg>>,
}

impl ResultChannel {
    /// Every message sent on the channel so far, in send order.
    pub open spec fn sent(self) -> Seq<ResultMsg> {
        self.delivered@ + self.pending@
    }

    /// Every message the consumer has taken so far, in the order it
    /// took them.
    pub open spec fn spec_delivered(self) -> Seq<ResultMsg> {
        self.delivered@
    }

    /// A fresh channel with nothing sent or delivered.
    pub fn new() -> (r: ResultChannel)
        ensures
            r.sent().len() == 0,
            r.spec_delivered().len() == 0,
            r.pending@.len() == 0,
    {
        ResultChannel { pending: Vec::new(), delivered: Ghost(Seq::empty()) }
    }

    /// Sends one message: it joins the back of the queue, and nothing
    /// already sent or delivered moves.
    pub fn send(&mut self, msg: ResultMsg)
        ensures
            final(self).pending@ == old(self).pending@.push(msg),
            final(self).spec_delivered() == old(self).spec_delivered(),
            final(self).sent() == old(self).sent().push(msg),
    {
        self.pending.push(msg);
        proof {
            assert(self.sent() =~= old(self).sent().push(msg));
        }
    }

    /// Receives the oldest message not yet delivered, if any: the
    /// queue loses exactly its front, and what was sent is unchanged.
    pub fn recv(&mut self) -> (r: Option<ResultMsg>)
        ensures
            final(self).sent() == old(self).sent(),
            old(self).pending@.len() == 0 ==> r is None && *final(self) == *old(self),
            old(self).pending@.len() > 0 ==> {
                &&& r matches Some(m) && m == old(self).pending@[0]
                &&& final(self).pending@ == old(self).pending@.drop_first()
                &&& final(self).spec_delivered() == old(self).spec_delivered().push(
                    old(self).pending@[0])
            },
    {
        if self.pending.len() == 0 {
            return None;
        }
        let m = self.pending.remove(0);
        proof {
            assert(self.pending@ =~= old(self).pending@.drop_first());
        }
        self.delivered = Ghost(self.delivered@.push(m));
        proof {
            assert(self.sent() =~= old(self).sent());
        }
        Some(m)
    }

    /// Message order law: what the consumer has observed is exactly
    /// the oldest prefix of what the producer sent, in send order, so
    /// the effects of a message sent earlier are applied before those
    /// of any message sent later.
    pub proof fn lemma_fifo_order(self)
        ensures
            self.spec_delivered().len() <= self.sent().len(),
            self.spec_delivered() == self.sent().take(self.spec_delivered().len() as int),
    {
        assert(self.spec_delivered() =~= self.sent().take(self.spec_delivered().len() as int));
    }
}

} // verus!
