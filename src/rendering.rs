use vstd::prelude::*;
use std::collections::HashMap;

verus! {

broadcast use vstd::std_specs::hash::group_hash_axioms;

/// A camera's post-processing chain: shader asset paths in pass order, and
/// the identifier under which its pipelines are cached.
#[derive(Clone, Debug)]
pub struct ShaderChainCamera {
    pub shaders: Vec<String>,
    pub iid: u32,
}

/// A fragment pipeline to queue for compilation: id `pipeline`, specialised
/// to the shader at path `shader`, sharing the chain's layout and the
/// full-screen vertex stage.
#[derive(Clone, Debug)]
pub struct PipelineRequest {
    pub pipeline: u64,
    pub shader: String,
}

/// The shader paths of a chain, as character sequences.
pub open spec fn shader_names(cam: ShaderChainCamera) -> Seq<Seq<char>> {
    cam.shaders@.map_values(|s: String| s@)
}

/// Requests seen as (pipeline id, shader path) pairs.
pub open spec fn request_views(reqs: Seq<PipelineRequest>) -> Seq<(u64, Seq<char>)> {
    reqs.map_values(|r: PipelineRequest| (r.pipeline, r.shader@))
}

/// The cache after observing chain `iid` with `shaders`, the next free
/// pipeline id, and the compile requests issued: nothing for a cached
/// identifier; otherwise one fresh consecutive id per shader, in order.
pub open spec fn prepare(chains: Map<u32, Seq<u64>>, next: int, iid: u32, shaders: Seq<Seq<char>>) -> (
    Map<u32, Seq<u64>>,
    int,
    Seq<(u64, Seq<char>)>,
) {
    if chains.contains_key(iid) {
        (chains, next, Seq::empty())
    } else {
        (
            chains.insert(iid, Seq::new(shaders.len(), |i: int| (next + i) as u64)),
            next + shaders.len(),
            Seq::new(shaders.len(), |i: int| ((next + i) as u64, shaders[i])),
        )
    }
}

/// [`prepare`] applied to each camera in turn, the requests concatenated.
pub open spec fn prepare_all(chains: Map<u32, Seq<u64>>, next: int, cams: Seq<ShaderChainCamera>) -> (
    Map<u32, Seq<u64>>,
    int,
    Seq<(u64, Seq<char>)>,
)
    decreases cams.len(),
{
    if cams.len() == 0 {
        (chains, next, Seq::empty())
    } else {
        let (c1, n1, r1) = prepare_all(chains, next, cams.drop_last());
        let (c2, n2, r2) = prepare(c1, n1, cams.last().iid, shader_names(cams.last()));
        (c2, n2, r1 + r2)
    }
}

/// Number of shaders over all the cameras.
pub open spec fn total_shaders(cams: Seq<ShaderChainCamera>) -> int
    decreases cams.len(),
{
    if cams.len() == 0 {
        0
    } else {
        total_shaders(cams.drop_last()) + cams.last().shaders@.len()
    }
}

proof fn lemma_total_prefix(cams: Seq<ShaderChainCamera>, i: int)
    requires
        0 <= i <= cams.len(),
    ensures
        0 <= total_shaders(cams.subrange(0, i)) <= total_shaders(cams),
    decreases cams.len(),
{
    if i < cams.len() {
        assert(cams.subrange(0, i) == cams.drop_last().subrange(0, i));
        lemma_total_prefix(cams.drop_last(), i);
    } else {
        assert(cams.subrange(0, i) == cams);
        lemma_total_nonneg(cams);
    }
}

proof fn lemma_total_nonneg(cams: Seq<ShaderChainCamera>)
    ensures
        total_shaders(cams) >= 0,
    decreases cams.len(),
{
    if cams.len() > 0 {
        lemma_total_nonneg(cams.drop_last());
    }
}

proof fn lemma_prepare_all_next(chains: Map<u32, Seq<u64>>, next: int, cams: Seq<ShaderChainCamera>)
    ensures
        next <= prepare_all(chains, next, cams).1 <= next + total_shaders(cams),
    decreases cams.len(),
{
    if cams.len() > 0 {
        lemma_prepare_all_next(chains, next, cams.drop_last());
    }
}

/// Compiled pipelines of every chain seen so far, by chain identifier, and
/// the next free pipeline id.
pub struct PostProcessPipeline {
    pub pipelines: HashMap<u32, Vec<u64>>,
    pub next_pipeline: u64,
}

/// The cache of the shader-chain post-processing effect.
pub struct ShaderChainPlugin;

impl ShaderChainPlugin {
    /// An empty cache; pipeline ids start at zero.
    pub fn build(&self) -> (r: PostProcessPipeline)
        ensures
            r.chains() == Map::<u32, Seq<u64>>::empty(),
            r.next_pipeline == 0,
    {
        let r = PostProcessPipeline { pipelines: HashMap::new(), next_pipeline: 0 };
        assert(r.chains() =~= Map::<u32, Seq<u64>>::empty());
        r
    }
}

impl PostProcessPipeline {
    /// The cached pipeline ids of each chain identifier.
    pub open spec fn chains(&self) -> Map<u32, Seq<u64>> {
        self.pipelines@.map_values(|v: Vec<u64>| v@)
    }

    /// The cached pipeline ids of chain `iid`, if it is cached.
    pub fn get(&self, iid: u32) -> (r: Option<&Vec<u64>>)
        ensures
            match r {
                Some(v) => self.chains().contains_key(iid) && v@ == self.chains()[iid],
                None => !self.chains().contains_key(iid),
            },
    {
        self.pipelines.get(&iid)
    }

    /// Observes one camera's chain. On the first sight of its identifier,
    /// assigns one consecutive pipeline id per shader, caches them under the
    /// identifier and returns the compile requests in chain order; a cached
    /// identifier is a pure lookup and returns no request.
    pub fn prepare_chain(&mut self, chain: &ShaderChainCamera) -> (r: Vec<PipelineRequest>)
        requires
            old(self).next_pipeline + chain.shaders@.len() <= u64::MAX,
        ensures
            (final(self).chains(), final(self).next_pipeline as int, request_views(r@)) == prepare(
                old(self).chains(),
                old(self).next_pipeline as int,
                chain.iid,
                shader_names(*chain),
            ),
    {
        let ghost names = shader_names(*chain);
        if self.pipelines.contains_key(&chain.iid) {
            let r: Vec<PipelineRequest> = Vec::new();
            assert(request_views(r@) =~= Seq::<(u64, Seq<char>)>::empty());
            return r;
        }
        let start = self.next_pipeline;
        let mut ids: Vec<u64> = Vec::new();
        let mut reqs: Vec<PipelineRequest> = Vec::new();
        let mut i: usize = 0;
        while i < chain.shaders.len()
            invariant
                i <= chain.shaders@.len(),
                start + chain.shaders@.len() <= u64::MAX,
                names == shader_names(*chain),
                ids@ == Seq::new(i as nat, |j: int| (start + j) as u64),
                reqs@.len() == i,
                request_views(reqs@) == Seq::new(i as nat, |j: int| ((start + j) as u64, names[j])),
            decreases chain.shaders@.len() - i,
        {
            let id = start + i as u64;
            let shader = chain.shaders[i].clone();
            assert(shader@ == names[i as int]);
            let ghost before = reqs@;
            ids.push(id);
            reqs.push(PipelineRequest { pipeline: id, shader });
            i = i + 1;
            assert(reqs@ == before.push(PipelineRequest { pipeline: id, shader }));
            assert(ids@ =~= Seq::new(i as nat, |j: int| (start + j) as u64));
            assert forall|j: int| 0 <= j < i implies #[trigger] request_views(reqs@)[j] == ((start + j) as u64, names[j]) by {
                if j < i - 1 {
                    assert(reqs@[j] == before[j]);
                    assert(request_views(before)[j] == (before[j].pipeline, before[j].shader@));
                    assert(request_views(before)[j] == ((start + j) as u64, names[j]));
                }
            }
            assert(request_views(reqs@) =~= Seq::new(i as nat, |j: int| ((start + j) as u64, names[j])));
        }
        self.pipelines.insert(chain.iid, ids);
        self.next_pipeline = start + chain.shaders.len() as u64;
        assert(self.chains() =~= old(self).chains().insert(
            chain.iid,
            Seq::new(names.len(), |j: int| (start + j) as u64),
        ));
        reqs
    }

    /// Whether the pipeline ids left suffice for every shader of `cameras`,
    /// as [`Self::find_chains`] requires.
    pub fn has_room_for(&self, cameras: &Vec<ShaderChainCamera>) -> (r: bool)
        ensures
            r == (self.next_pipeline + total_shaders(cameras@) <= u64::MAX),
    {
        let mut room: u64 = u64::MAX - self.next_pipeline;
        let mut i: usize = 0;
        while i < cameras.len()
            invariant
                i <= cameras@.len(),
                room == u64::MAX - self.next_pipeline - total_shaders(cameras@.subrange(0, i as int)),
            decreases cameras@.len() - i,
        {
            proof {
                assert(cameras@.subrange(0, i + 1).drop_last() == cameras@.subrange(0, i as int));
                lemma_total_prefix(cameras@, i + 1);
            }
            let n = cameras[i].shaders.len();
            if n as u64 > room {
                proof {
                    lemma_total_prefix(cameras@, i + 1);
                }
                return false;
            }
            room = room - n as u64;
            i = i + 1;
        }
        assert(cameras@.subrange(0, i as int) == cameras@);
        true
    }

    /// Observes each camera's chain in turn, as [`Self::prepare_chain`] does,
    /// and returns all compile requests in order.
    pub fn find_chains(&mut self, cameras: &Vec<ShaderChainCamera>) -> (r: Vec<PipelineRequest>)
        requires
            old(self).next_pipeline + total_shaders(cameras@) <= u64::MAX,
        ensures
            (final(self).chains(), final(self).next_pipeline as int, request_views(r@)) == prepare_all(
                old(self).chains(),
                old(self).next_pipeline as int,
                cameras@,
            ),
    {
        let ghost c0 = self.chains();
        let ghost n0 = self.next_pipeline as int;
        let mut all: Vec<PipelineRequest> = Vec::new();
        let mut i: usize = 0;
        while i < cameras.len()
            invariant
                i <= cameras@.len(),
                n0 + total_shaders(cameras@) <= u64::MAX,
                (self.chains(), self.next_pipeline as int, request_views(all@)) == prepare_all(
                    c0,
                    n0,
                    cameras@.subrange(0, i as int),
                ),
            decreases cameras@.len() - i,
        {
            let ghost pre = cameras@.subrange(0, i as int);
            proof {
                assert(cameras@.subrange(0, i + 1).drop_last() == pre);
                lemma_prepare_all_next(c0, n0, pre);
                lemma_total_prefix(cameras@, i + 1);
            }
            let mut reqs = self.prepare_chain(&cameras[i]);
            let ghost before = request_views(all@);
            all.append(&mut reqs);
            i = i + 1;
            assert(request_views(all@) =~= before + prepare(
                prepare_all(c0, n0, pre).0,
                prepare_all(c0, n0, pre).1,
                cameras@[i - 1].iid,
                shader_names(cameras@[i - 1]),
            ).2);
        }
        assert(cameras@.subrange(0, i as int) == cameras@);
        all
    }

    /// Evicts chain `iid`, so that its next sighting compiles it anew.
    pub fn invalidate(&mut self, iid: u32) -> (r: bool)
        ensures
            r == old(self).chains().contains_key(iid),
            final(self).chains() == old(self).chains().remove(iid),
            final(self).next_pipeline == old(self).next_pipeline,
    {
        let r = self.pipelines.remove(&iid).is_some();
        assert(self.chains() =~= old(self).chains().remove(iid));
        r
    }
}

/// Observing a chain twice compiles it once: the first sighting of an
/// uncached identifier issues one request per shader, the second issues none
/// and leaves the cache as the first left it.
pub proof fn lemma_prepare_idempotent(chains: Map<u32, Seq<u64>>, next: int, iid: u32, shaders: Seq<Seq<char>>)
    ensures
        ({
            let (c1, n1, r1) = prepare(chains, next, iid, shaders);
            let (c2, n2, r2) = prepare(c1, n1, iid, shaders);
            &&& c1.contains_key(iid)
            &&& r2.len() == 0
            &&& c2 == c1
            &&& n2 == n1
            &&& !chains.contains_key(iid) ==> r1.len() == shaders.len() && c1[iid].len() == shaders.len()
            &&& chains.contains_key(iid) ==> r1.len() == 0 && c1 == chains
        }),
{
}

} // verus!
