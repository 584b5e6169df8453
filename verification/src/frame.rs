use vstd::prelude::*;

verus! {

/// A per-pipeline, monotonically increasing version counter marking
/// which layout state has been rendered.
#[derive(Copy, Clone, Debug, Eq, PartialEq, Structural, Hash)]
pub struct Epoch(pub u32);

/// Identifies one content pipeline feeding the renderer.
#[derive(Copy, Clone, Debug, Eq, PartialEq, Structural, Hash)]
pub struct PipelineId(pub u32, pub u32);

/// Identifies one scrollable layer within a pipeline.
#[derive(Copy, Clone, Debug, Eq, PartialEq, Structural, Hash)]
pub struct ScrollLayerId {
    pub pipeline_id: PipelineId,
    pub index: usize,
}

/// The fully built frame payload handed over by the frame builder.
/// Its contents belong to the tiling collaborator and are opaque at
/// this boundary; the snapshot only carries it.
pub struct Frame {}

/// An immutable snapshot of one completed frame: the epoch last
/// rendered for each pipeline present in the frame, the scroll layers
/// currently affected by the overscroll-bounce animation, and the
/// built frame payload (absent only when nothing changed). Created
/// once by the producer and superseded, never mutated, by the next
/// frame.
pub struct RendererFrame {
    pub pipeline_epoch_map: Vec<(PipelineId, Epoch)>,
    pub layers_bouncing_back: Vec<ScrollLayerId>,
    pub frame: Option<Frame>,
}

impl RendererFrame {
    /// The epoch map carries one entry per pipeline and the bouncing
    /// set one entry per layer.
    pub open spec fn wf(self) -> bool {
        &&& forall|i: int, j: int|
            0 <= i < j < self.pipeline_epoch_map@.len() ==> (
            #[trigger] self.pipeline_epoch_map@[i]).0 != (#[trigger] self.pipeline_epoch_map@[j]).0
        &&& forall|i: int, j: int|
            0 <= i < j < self.layers_bouncing_back@.len() ==> (
            #[trigger] self.layers_bouncing_back@[i]) != (#[trigger] self.layers_bouncing_back@[j])
    }

    /// Whether the snapshot records an epoch for pipeline `p`.
    pub open spec fn spec_has_pipeline(self, p: PipelineId) -> bool {
        exists|i: int|
            0 <= i < self.pipeline_epoch_map@.len() && (#[trigger] self.pipeline_epoch_map@[i]).0
                == p
    }

    /// The epoch the snapshot records for pipeline `p`.
    pub open spec fn spec_epoch(self, p: PipelineId) -> Epoch {
        self.pipeline_epoch_map@[choose|i: int|
            0 <= i < self.pipeline_epoch_map@.len() && (#[trigger] self.pipeline_epoch_map@[i]).0
                == p].1
    }

    /// In a well-formed snapshot, the entry at a position holding `p`
    /// is the one entry `spec_epoch` denotes.
    proof fn lemma_pipeline_idx(self, p: PipelineId, i: int)
        requires
            self.wf(),
            0 <= i < self.pipeline_epoch_map@.len(),
            self.pipeline_epoch_map@[i].0 == p,
        ensures
            self.spec_has_pipeline(p),
            self.spec_epoch(p) == self.pipeline_epoch_map@[i].1,
    {
        assert(self.spec_has_pipeline(p));
        let j = choose|j: int|
            0 <= j < self.pipeline_epoch_map@.len() && (#[trigger] self.pipeline_epoch_map@[j]).0
                == p;
        if j < i {
            assert(self.pipeline_epoch_map@[j].0 != self.pipeline_epoch_map@[i].0);
        }
        if i < j {
            assert(self.pipeline_epoch_map@[i].0 != self.pipeline_epoch_map@[j].0);
        }
    }

    /// Bundles one completed frame: the snapshot holds exactly what
    /// was handed in and nothing else.
    pub fn new(
        pipeline_epoch_map: Vec<(PipelineId, Epoch)>,
        layers_bouncing_back: Vec<ScrollLayerId>,
        frame: Option<Frame>,
    ) -> (r: RendererFrame)
        requires
            forall|i: int, j: int|
                0 <= i < j < pipeline_epoch_map@.len() ==> (#[trigger] pipeline_epoch_map@[i]).0
                    != (#[trigger] pipeline_epoch_map@[j]).0,
            forall|i: int, j: int|
                0 <= i < j < layers_bouncing_back@.len() ==> (#[trigger] layers_bouncing_back@[i])
                    != (#[trigger] layers_bouncing_back@[j]),
        ensures
            r.pipeline_epoch_map@ == pipeline_epoch_map@,
            r.layers_bouncing_back@ == layers_bouncing_back@,
            r.frame == frame,
            r.wf(),
    {
        RendererFrame { pipeline_epoch_map, layers_bouncing_back, frame }
    }

    /// The epoch recorded for pipeline `p`, when the frame covers it.
    pub fn get_epoch(&self, p: PipelineId) -> (r: Option<Epoch>)
        requires
            self.wf(),
        ensures
            match r {
                Some(e) => self.spec_has_pipeline(p) && e == self.spec_epoch(p),
                None => !self.spec_has_pipeline(p),
            },
    {
        let mut i: usize = 0;
        while i < self.pipeline_epoch_map.len()
            invariant
                self.wf(),
                i <= self.pipeline_epoch_map@.len(),
                forall|m: int| 0 <= m < i ==> (#[trigger] self.pipeline_epoch_map@[m]).0 != p,
            decreases self.pipeline_epoch_map@.len() - i,
        {
            if self.pipeline_epoch_map[i].0 == p {
                proof {
                    self.lemma_pipeline_idx(p, i as int);
                }
                return Some(self.pipeline_epoch_map[i].1);
            }
            i += 1;
        }
        proof {
            if self.spec_has_pipeline(p) {
                let j = choose|j: int|
                    0 <= j < self.pipeline_epoch_map@.len() && (
                    #[trigger] self.pipeline_epoch_map@[j]).0 == p;
                assert(self.pipeline_epoch_map@[j].0 != p);
            }
        }
        None
    }
}

/// For every pipeline both snapshots cover, the later snapshot's
/// epoch has not fallen behind the earlier one's.
pub open spec fn epochs_monotonic(prev: RendererFrame, next: RendererFrame) -> bool {
    forall|p: PipelineId|
        #![trigger prev.spec_has_pipeline(p), next.spec_has_pipeline(p)]
        prev.spec_has_pipeline(p) && next.spec_has_pipeline(p) ==> next.spec_epoch(p).0
            >= prev.spec_epoch(p).0
}

/// Detection harness for epoch staleness: true exactly when `next`
/// may follow `prev` on the frame result channel, that is when no
/// pipeline's recorded epoch moves backwards between the two
/// snapshots.
pub fn check_epochs_monotonic(prev: &RendererFrame, next: &RendererFrame) -> (r: bool)
    requires
        prev.wf(),
        next.wf(),
    ensures
        r == epochs_monotonic(*prev, *next),
{
    let mut i: usize = 0;
    while i < prev.pipeline_epoch_map.len()
        invariant
            prev.wf(),
            next.wf(),
            i <= prev.pipeline_epoch_map@.len(),
            forall|m: int|
                0 <= m < i ==> (next.spec_has_pipeline((#[trigger] prev.pipeline_epoch_map@[m]).0)
                    ==> next.spec_epoch(prev.pipeline_epoch_map@[m].0).0
                    >= prev.pipeline_epoch_map@[m].1.0),
        decreases prev.pipeline_epoch_map@.len() - i,
    {
        let p = prev.pipeline_epoch_map[i].0;
        let e1 = prev.pipeline_epoch_map[i].1;
        proof {
            prev.lemma_pipeline_idx(p, i as int);
        }
        match next.get_epoch(p) {
            Some(e2) => {
                if e2.0 < e1.0 {
                    proof {
                        assert(prev.spec_has_pipeline(p) && next.spec_has_pipeline(p)
                            && next.spec_epoch(p).0 < prev.spec_epoch(p).0);
                    }
                    return false;
                }
            },
            None => {},
        }
        i += 1;
    }
    proof {
        assert forall|p: PipelineId|
            prev.spec_has_pipeline(p) && next.spec_has_pipeline(p) implies next.spec_epoch(p).0
            >= prev.spec_epoch(p).0 by {
            let j = choose|j: int|
                0 <= j < prev.pipeline_epoch_map@.len() && (#[trigger] prev.pipeline_epoch_map@[j]).0
                    == p;
            prev.lemma_pipeline_idx(p, j);
        }
    }
    true
}

} // verus!
