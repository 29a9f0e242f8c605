use module_host::chain_node::{PassStep, PostProcessNode, TextureSlot, ViewTarget};
use module_host::rendering::{PostProcessPipeline, ShaderChainCamera, ShaderChainPlugin};

fn camera(iid: u32, shaders: &[&str]) -> ShaderChainCamera {
    ShaderChainCamera { shaders: shaders.iter().map(|s| s.to_string()).collect(), iid }
}

/// Replays the planned passes on two textures whose contents are the
/// pipelines applied so far; returns the main texture's content.
fn replay(steps: &[PassStep], start: TextureSlot, source: Vec<u64>) -> Vec<u64> {
    let mut a = source.clone();
    let mut b: Vec<u64> = Vec::new();
    if start == TextureSlot::B {
        std::mem::swap(&mut a, &mut b);
    }
    let mut main = start;
    for st in steps {
        assert_eq!(st.source, main);
        let mut out = if st.source == TextureSlot::A { a.clone() } else { b.clone() };
        out.push(st.pipeline);
        if st.destination == TextureSlot::A {
            a = out;
        } else {
            b = out;
        }
        main = st.destination;
    }
    if main == TextureSlot::A { a } else { b }
}

fn cached(cache: &PostProcessPipeline, iid: u32) -> Vec<u64> {
    cache.get(iid).cloned().unwrap_or_default()
}

#[test]
fn first_sighting_compiles_each_shader_in_order() {
    let mut cache = ShaderChainPlugin.build();
    let reqs = cache.prepare_chain(&camera(7, &["shaders/a.wgsl", "shaders/b.wgsl", "shaders/c.wgsl"]));
    assert_eq!(reqs.len(), 3);
    assert_eq!(reqs.iter().map(|r| r.pipeline).collect::<Vec<_>>(), vec![0, 1, 2]);
    assert_eq!(reqs[0].shader, "shaders/a.wgsl");
    assert_eq!(reqs[2].shader, "shaders/c.wgsl");
    assert_eq!(cached(&cache, 7), vec![0, 1, 2]);
    assert_eq!(cache.next_pipeline, 3);
}

#[test]
fn second_sighting_is_a_cache_hit() {
    let mut cache = ShaderChainPlugin.build();
    let cam = camera(7, &["shaders/a.wgsl", "shaders/b.wgsl"]);
    let first = cache.prepare_chain(&cam);
    let second = cache.prepare_chain(&cam);
    assert_eq!(first.len(), 2);
    assert!(second.is_empty());
    assert_eq!(cached(&cache, 7), vec![0, 1]);
    assert_eq!(cache.next_pipeline, 2);
}

#[test]
fn find_chains_over_several_cameras() {
    let mut cache = ShaderChainPlugin.build();
    let cams = vec![camera(1, &["x.wgsl"]), camera(2, &["y.wgsl", "z.wgsl"]), camera(1, &["x.wgsl"])];
    let reqs = cache.find_chains(&cams);
    assert_eq!(reqs.iter().map(|r| r.pipeline).collect::<Vec<_>>(), vec![0, 1, 2]);
    assert_eq!(reqs[1].shader, "y.wgsl");
    assert_eq!(cached(&cache, 1), vec![0]);
    assert_eq!(cached(&cache, 2), vec![1, 2]);
}

#[test]
fn invalidate_forces_recompilation() {
    let mut cache = ShaderChainPlugin.build();
    let cam = camera(4, &["a.wgsl"]);
    cache.prepare_chain(&cam);
    assert!(cache.invalidate(4));
    assert!(!cache.invalidate(4));
    let again = cache.prepare_chain(&cam);
    assert_eq!(again.len(), 1);
    assert_eq!(again[0].pipeline, 1);
    assert_eq!(cached(&cache, 4), vec![1]);
}

#[test]
fn all_ready_chain_applies_every_pass_in_order() {
    let mut cache = ShaderChainPlugin.build();
    let cam = camera(3, &["blur.wgsl", "tint.wgsl", "grain.wgsl"]);
    cache.prepare_chain(&cam);
    let mut target = ViewTarget { main: TextureSlot::A };
    let steps = PostProcessNode.run(&cache, &mut target, &cam, &vec![0, 1, 2]);
    assert_eq!(steps.len(), 3);
    assert_eq!(steps[0], PassStep { pipeline: 0, source: TextureSlot::A, destination: TextureSlot::B });
    assert_eq!(steps[1], PassStep { pipeline: 1, source: TextureSlot::B, destination: TextureSlot::A });
    assert_eq!(steps[2], PassStep { pipeline: 2, source: TextureSlot::A, destination: TextureSlot::B });
    assert_eq!(target.main, TextureSlot::B);
    assert_eq!(replay(&steps, TextureSlot::A, vec![99]), vec![99, 0, 1, 2]);
}

#[test]
fn unready_second_pass_stops_the_chain() {
    let mut cache = ShaderChainPlugin.build();
    let cam = camera(3, &["blur.wgsl", "tint.wgsl", "grain.wgsl"]);
    cache.prepare_chain(&cam);
    let mut target = ViewTarget { main: TextureSlot::A };
    let steps = PostProcessNode.run(&cache, &mut target, &cam, &vec![0, 2]);
    assert_eq!(steps, vec![PassStep { pipeline: 0, source: TextureSlot::A, destination: TextureSlot::B }]);
    assert_eq!(target.main, TextureSlot::B);
    assert_eq!(replay(&steps, TextureSlot::A, vec![99]), vec![99, 0]);
}

#[test]
fn unready_first_pass_leaves_source() {
    let mut cache = ShaderChainPlugin.build();
    let cam = camera(3, &["blur.wgsl", "tint.wgsl"]);
    cache.prepare_chain(&cam);
    let mut target = ViewTarget { main: TextureSlot::B };
    let steps = PostProcessNode.run(&cache, &mut target, &cam, &vec![1]);
    assert!(steps.is_empty());
    assert_eq!(target.main, TextureSlot::B);
}

#[test]
fn uncached_chain_is_skipped() {
    let cache = ShaderChainPlugin.build();
    let mut target = ViewTarget { main: TextureSlot::A };
    let steps = PostProcessNode.run(&cache, &mut target, &camera(9, &["blur.wgsl"]), &vec![0]);
    assert!(steps.is_empty());
    assert_eq!(target.main, TextureSlot::A);
}

#[test]
fn post_process_write_flips_main() {
    let mut target = ViewTarget { main: TextureSlot::B };
    let w = target.post_process_write();
    assert_eq!((w.source, w.destination), (TextureSlot::B, TextureSlot::A));
    assert_eq!(target.main, TextureSlot::A);
}
