use vstd::prelude::*;
use crate::rendering::{PostProcessPipeline, ShaderChainCamera};

verus! {

/// One of the two textures a view target ping-pongs between.
#[derive(Clone, Copy, PartialEq, Eq, Structural, Debug)]
pub enum TextureSlot {
    A,
    B,
}

/// The texture that is not `s`.
pub open spec fn other(s: TextureSlot) -> TextureSlot {
    match s {
        TextureSlot::A => TextureSlot::B,
        TextureSlot::B => TextureSlot::A,
    }
}

/// The main texture after `k` post-process writes starting from `start`.
pub open spec fn slot_after(start: TextureSlot, k: int) -> TextureSlot {
    if k % 2 == 0 {
        start
    } else {
        other(start)
    }
}

/// A camera's render target: which of its two textures is the main one.
#[derive(Clone, Copy, PartialEq, Eq, Structural, Debug)]
pub struct ViewTarget {
    pub main: TextureSlot,
}

/// The two views of one post-process write.
#[derive(Clone, Copy, PartialEq, Eq, Structural, Debug)]
pub struct PostProcessWrite {
    pub source: TextureSlot,
    pub destination: TextureSlot,
}

impl ViewTarget {
    /// Starts a post-process write: reads the current main texture, writes
    /// the other one, which becomes the main texture.
    pub fn post_process_write(&mut self) -> (r: PostProcessWrite)
        ensures
            r.source == old(self).main,
            r.destination == other(old(self).main),
            final(self).main == other(old(self).main),
    {
        let source = self.main;
        let destination = match source {
            TextureSlot::A => TextureSlot::B,
            TextureSlot::B => TextureSlot::A,
        };
        self.main = destination;
        PostProcessWrite { source, destination }
    }
}

/// One full-screen pass: draw with `pipeline`, sampling `source`, into
/// `destination`.
#[derive(Clone, Copy, PartialEq, Eq, Structural, Debug)]
pub struct PassStep {
    pub pipeline: u64,
    pub source: TextureSlot,
    pub destination: TextureSlot,
}

/// The passes of the first `n` pipelines of `ids`, ping-ponging from `start`.
pub open spec fn planned_steps(ids: Seq<u64>, n: nat, start: TextureSlot) -> Seq<PassStep> {
    Seq::new(
        n,
        |i: int| PassStep { pipeline: ids[i], source: slot_after(start, i), destination: slot_after(start, i + 1) },
    )
}

/// The cached pipelines of chain `iid`; none when it is not cached.
pub open spec fn chain_pipelines(cache: PostProcessPipeline, iid: u32) -> Seq<u64> {
    if cache.chains().contains_key(iid) {
        cache.chains()[iid]
    } else {
        Seq::empty()
    }
}

/// The passes of one frame: the chain's pipelines in order up to, not
/// including, the first one that is not ready.
pub open spec fn executed(ids: Seq<u64>, ready: Seq<u64>, start: TextureSlot, steps: Seq<PassStep>) -> bool {
    &&& steps.len() <= ids.len()
    &&& forall|i: int| 0 <= i < steps.len() ==> ready.contains(#[trigger] ids[i])
    &&& steps.len() < ids.len() ==> !ready.contains(ids[steps.len() as int])
    &&& steps == planned_steps(ids, steps.len(), start)
}

/// What each texture holds, as the pipelines applied to the camera's output
/// so far.
pub open spec fn content(a: Seq<u64>, b: Seq<u64>, s: TextureSlot) -> Seq<u64> {
    match s {
        TextureSlot::A => a,
        TextureSlot::B => b,
    }
}

/// The two textures' contents after running `steps`: each pass writes its
/// destination with its source's content followed by its pipeline.
pub open spec fn render(steps: Seq<PassStep>, a: Seq<u64>, b: Seq<u64>) -> (Seq<u64>, Seq<u64>)
    decreases steps.len(),
{
    if steps.len() == 0 {
        (a, b)
    } else {
        let (a1, b1) = render(steps.drop_last(), a, b);
        let st = steps.last();
        let out = content(a1, b1, st.source).push(st.pipeline);
        match st.destination {
            TextureSlot::A => (out, b1),
            TextureSlot::B => (a1, out),
        }
    }
}

/// After the planned passes of the first `n` pipelines, the main texture
/// holds the untouched source followed by exactly those pipelines, in order.
pub proof fn lemma_planned_output(ids: Seq<u64>, n: nat, start: TextureSlot, a: Seq<u64>, b: Seq<u64>)
    requires
        n <= ids.len(),
    ensures
        ({
            let (a2, b2) = render(planned_steps(ids, n, start), a, b);
            content(a2, b2, slot_after(start, n as int)) == content(a, b, start) + ids.subrange(0, n as int)
        }),
    decreases n,
{
    let steps = planned_steps(ids, n, start);
    if n == 0 {
        assert(ids.subrange(0, 0) =~= Seq::<u64>::empty());
        assert(content(a, b, start) + Seq::<u64>::empty() =~= content(a, b, start));
    } else {
        let m = (n - 1) as nat;
        lemma_planned_output(ids, m, start, a, b);
        assert(steps.drop_last() =~= planned_steps(ids, m, start));
        let (a1, b1) = render(planned_steps(ids, m, start), a, b);
        let st = steps.last();
        assert(st.source == slot_after(start, m as int));
        assert(st.destination == slot_after(start, n as int));
        assert(ids.subrange(0, n as int) =~= ids.subrange(0, m as int).push(ids[m as int]));
        assert(content(a, b, start) + ids.subrange(0, n as int) =~= (content(a, b, start) + ids.subrange(
            0,
            m as int,
        )).push(ids[m as int]));
    }
}

/// The render-graph node that runs a camera's shader chain.
pub struct PostProcessNode;

impl PostProcessNode {
    /// Plans this frame's passes of `chain`: nothing when its pipelines are
    /// not cached; otherwise its cached pipelines in order, each sampling the
    /// current main texture and writing the other, stopping before the first
    /// pipeline that is not among `ready`. `view_target` ends with the last
    /// destination written as its main texture.
    pub fn run(
        &self,
        cache: &PostProcessPipeline,
        view_target: &mut ViewTarget,
        chain: &ShaderChainCamera,
        ready: &Vec<u64>,
    ) -> (r: Vec<PassStep>)
        ensures
            executed(chain_pipelines(*cache, chain.iid), ready@, old(view_target).main, r@),
            final(view_target).main == slot_after(old(view_target).main, r@.len() as int),
    {
        let ghost start = view_target.main;
        let mut steps: Vec<PassStep> = Vec::new();
        let ids = match cache.get(chain.iid) {
            Some(ids) => ids,
            None => {
                assert(steps@ =~= planned_steps(Seq::empty(), 0, start));
                return steps;
            },
        };
        let mut i: usize = 0;
        while i < ids.len()
            invariant
                ids@ == chain_pipelines(*cache, chain.iid),
                i <= ids@.len(),
                steps@ == planned_steps(ids@, i as nat, start),
                steps@.len() == i,
                start == old(view_target).main,
                forall|j: int| 0 <= j < i ==> ready@.contains(#[trigger] ids@[j]),
                view_target.main == slot_after(start, i as int),
            decreases ids@.len() - i,
        {
            let id = ids[i];
            if !contains(ready, id) {
                return steps;
            }
            let write = view_target.post_process_write();
            steps.push(PassStep { pipeline: id, source: write.source, destination: write.destination });
            i = i + 1;
            assert(steps@ =~= planned_steps(ids@, i as nat, start));
        }
        steps
    }
}

/// Whether `id` is among `ids`.
fn contains(ids: &Vec<u64>, id: u64) -> (r: bool)
    ensures
        r == ids@.contains(id),
{
    let mut i: usize = 0;
    while i < ids.len()
        invariant
            i <= ids@.len(),
            forall|j: int| 0 <= j < i ==> ids@[j] != id,
        decreases ids@.len() - i,
    {
        if ids[i] == id {
            assert(ids@[i as int] == id);
            return true;
        }
        i = i + 1;
    }
    false
}

/// When every pipeline of the chain is ready, the frame's output is the
/// source with all of them applied, in chain order.
pub proof fn lemma_chain_all_ready(
    ids: Seq<u64>,
    ready: Seq<u64>,
    start: TextureSlot,
    steps: Seq<PassStep>,
    a: Seq<u64>,
    b: Seq<u64>,
)
    requires
        forall|i: int| 0 <= i < ids.len() ==> ready.contains(#[trigger] ids[i]),
        executed(ids, ready, start, steps),
    ensures
        steps.len() == ids.len(),
        ({
            let (a2, b2) = render(steps, a, b);
            content(a2, b2, slot_after(start, steps.len() as int)) == content(a, b, start) + ids
        }),
{
    if steps.len() < ids.len() {
        assert(ready.contains(ids[steps.len() as int]));
    }
    lemma_planned_output(ids, steps.len(), start, a, b);
    assert(ids.subrange(0, ids.len() as int) == ids);
}

/// When pipeline `k` is the first that is not ready, the frame's output is
/// the source with the pipelines before `k` applied, in order, and no later
/// pipeline runs.
pub proof fn lemma_chain_stops_at_unready(
    ids: Seq<u64>,
    ready: Seq<u64>,
    start: TextureSlot,
    steps: Seq<PassStep>,
    a: Seq<u64>,
    b: Seq<u64>,
    k: int,
)
    requires
        0 <= k < ids.len(),
        !ready.contains(ids[k]),
        forall|i: int| 0 <= i < k ==> ready.contains(#[trigger] ids[i]),
        executed(ids, ready, start, steps),
    ensures
        steps.len() == k,
        ({
            let (a2, b2) = render(steps, a, b);
            content(a2, b2, slot_after(start, k)) == content(a, b, start) + ids.subrange(0, k)
        }),
{
    if steps.len() > k {
        assert(ready.contains(ids[k]));
    }
    if steps.len() < k {
        assert(ready.contains(ids[steps.len() as int]));
    }
    lemma_planned_output(ids, steps.len(), start, a, b);
}

} // verus!
