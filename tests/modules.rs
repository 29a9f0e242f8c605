use module_host::broker::{resize_image_observer, spawn_module_observer};
use module_host::dispatch::{deliver_resize, deliver_spawn, ModulePlugin};
use module_host::host::ModuleHost;
use module_host::module::{
    HDirection, ModuleClass, NoiseMaterial, PartKind, ResizeModule, SpawnModuleEvent, VDirection,
    BOXHEIGHT, BOXWIDTH,
};
use module_host::noise::{resize_surface, spawn_noise_module, NOISE_SPEED_MILLI};
use module_host::pong::spawn_module;
use module_host::registry::ModuleSpawnerConfig;

fn spawn_and_deliver(host: &mut ModuleHost, class: ModuleClass) -> u64 {
    let events = spawn_module_observer(host, &SpawnModuleEvent { moduleclass: class });
    let root = host.roots.last().unwrap().id;
    for ev in events.iter() {
        deliver_spawn(host, ev);
    }
    root
}

fn resize_and_deliver(host: &mut ModuleHost, entity: u64, width: u32, height: u32) -> usize {
    let events = resize_image_observer(host, &ResizeModule { entity, width, height });
    for ev in events.iter() {
        deliver_resize(host, ev);
    }
    events.len()
}

#[test]
fn registry_lookup_unknown_class_is_empty() {
    let config = ModuleSpawnerConfig::new();
    assert!(config.lookup(ModuleClass::Noise).is_empty());
    assert_eq!(config.class_of(7), None);
}

#[test]
fn registry_register_appends_per_class() {
    let mut config = ModuleSpawnerConfig::new();
    config.register(ModuleClass::Noise, 10);
    config.register(ModuleClass::Pong, 11);
    config.register(ModuleClass::Noise, 12);
    assert_eq!(config.lookup(ModuleClass::Noise), vec![10, 12]);
    assert_eq!(config.lookup(ModuleClass::Pong), vec![11]);
    assert_eq!(config.class_of(12), Some(ModuleClass::Noise));
    assert_eq!(config.class_of(11), Some(ModuleClass::Pong));
}

#[test]
fn plugin_registers_noise_then_pong() {
    let host = ModulePlugin.build();
    assert_eq!(host.spawnconfig.lookup(ModuleClass::Noise), vec![1]);
    assert_eq!(host.spawnconfig.lookup(ModuleClass::Pong), vec![2]);
    assert_eq!(host.layer_counter.0, 1);
    assert!(host.roots.is_empty());
    assert!(host.parts.is_empty());
}

#[test]
fn spawn_unregistered_class_creates_one_empty_root() {
    let mut host = ModuleHost::new();
    let events = spawn_module_observer(&mut host, &SpawnModuleEvent { moduleclass: ModuleClass::Pong });
    assert!(events.is_empty());
    assert_eq!(host.roots.len(), 1);
    assert!(host.parts.is_empty());
    let root = host.roots[0];
    assert!(host.module_with_parts(root.id).0.is_empty());
    assert_eq!(root.class, ModuleClass::Pong);
    assert_eq!((root.width, root.height), (BOXWIDTH, BOXHEIGHT));
    assert_eq!((root.surface.width, root.surface.height), (BOXWIDTH, BOXHEIGHT));
}

#[test]
fn spawn_fans_out_to_every_spawner_with_same_root() {
    let mut host = ModuleHost::new();
    let s1 = host.add_spawner(ModuleClass::Noise);
    let s2 = host.add_spawner(ModuleClass::Pong);
    let s3 = host.add_spawner(ModuleClass::Noise);
    let events = spawn_module_observer(&mut host, &SpawnModuleEvent { moduleclass: ModuleClass::Noise });
    let root = host.roots[0].id;
    assert_eq!(events.len(), 2);
    assert_eq!(events[0].spawner, s1);
    assert_eq!(events[1].spawner, s3);
    assert!(events.iter().all(|e| e.root_id == root && e.moduleclass == ModuleClass::Noise));
    assert!(events.iter().all(|e| e.spawner != s2));
    assert_eq!(events[0].get_module_class(), ModuleClass::Noise);
}

#[test]
fn layer_tokens_strictly_increase() {
    let mut host = ModuleHost::new();
    host.add_spawner(ModuleClass::Noise);
    let e1 = spawn_module_observer(&mut host, &SpawnModuleEvent { moduleclass: ModuleClass::Noise });
    let e2 = spawn_module_observer(&mut host, &SpawnModuleEvent { moduleclass: ModuleClass::Noise });
    assert_eq!(e1[0].layer, 1);
    assert_eq!(e2[0].layer, 2);
    assert_eq!(host.roots[0].surface.depth_slot, 1);
    assert_eq!(host.roots[1].surface.depth_slot, 2);
    assert_ne!(host.roots[0].id, host.roots[1].id);
    assert_eq!(host.layer_counter.0, 3);
}

#[test]
fn resize_stale_root_is_noop() {
    let mut host = ModulePlugin.build();
    let root = spawn_and_deliver(&mut host, ModuleClass::Noise);
    let roots_before = host.roots.clone();
    let parts_before = host.parts.clone();
    let next_before = host.next_object;
    let events = resize_image_observer(&mut host, &ResizeModule { entity: root + 100, width: 800, height: 600 });
    assert!(events.is_empty());
    assert_eq!(host.roots, roots_before);
    assert_eq!(host.parts, parts_before);
    assert_eq!(host.next_object, next_before);
}

#[test]
fn resize_routes_only_to_own_class() {
    let mut host = ModulePlugin.build();
    let root = spawn_and_deliver(&mut host, ModuleClass::Pong);
    let events = resize_image_observer(&mut host, &ResizeModule { entity: root, width: 640, height: 480 });
    assert_eq!(events.len(), 1);
    assert_eq!(events[0].spawner, 2);
    assert_eq!(events[0].moduleroot, root);
    assert_eq!((events[0].width, events[0].height), (640, 480));
}

#[test]
fn destroy_root_cascades_to_parts() {
    let mut host = ModulePlugin.build();
    let noise = spawn_and_deliver(&mut host, ModuleClass::Noise);
    let pong = spawn_and_deliver(&mut host, ModuleClass::Pong);
    assert_eq!(host.parts.len(), 2);
    assert_eq!(host.module_with_parts(noise).0.len(), 1);
    assert!(host.destroy_root(noise));
    assert!(host.module_with_parts(noise).0.is_empty());
    assert_eq!(host.module_with_parts(pong).0.len(), 1);
    assert_eq!(host.roots.len(), 1);
    assert_eq!(host.roots[0].id, pong);
    assert_eq!(host.parts.len(), 1);
    assert!(host.parts.iter().all(|p| p.root == pong));
    assert!(!host.destroy_root(noise));
    assert_eq!(host.parts.len(), 1);
}

#[test]
fn teardown_keeps_registry_and_counters() {
    let mut host = ModulePlugin.build();
    spawn_and_deliver(&mut host, ModuleClass::Noise);
    host.teardown();
    assert!(host.roots.is_empty());
    assert!(host.parts.is_empty());
    assert_eq!(host.spawnconfig.lookup(ModuleClass::Noise), vec![1]);
    assert_eq!(host.layer_counter.0, 2);
    let events = spawn_module_observer(&mut host, &SpawnModuleEvent { moduleclass: ModuleClass::Noise });
    assert_eq!(events[0].layer, 2);
}

#[test]
fn pong_spawn_adds_ball() {
    let mut host = ModulePlugin.build();
    let root = spawn_and_deliver(&mut host, ModuleClass::Pong);
    assert_eq!(host.parts.len(), 1);
    assert_eq!(host.parts[0].root, root);
    assert_eq!(host.parts[0].kind, PartKind::PongBall { h: HDirection::Right, v: VDirection::Up });
}

#[test]
fn handlers_ignore_stale_or_foreign_events() {
    let mut host = ModulePlugin.build();
    let events = spawn_module_observer(&mut host, &SpawnModuleEvent { moduleclass: ModuleClass::Pong });
    let mut foreign = events[0];
    assert_eq!(spawn_noise_module(&mut host, &foreign), None);
    foreign.root_id = 999;
    assert_eq!(spawn_module(&mut host, &foreign), None);
    assert!(host.parts.is_empty());
}

#[test]
fn noise_resize_skips_other_parts() {
    let mut host = ModulePlugin.build();
    let pong = spawn_and_deliver(&mut host, ModuleClass::Pong);
    let noise = spawn_and_deliver(&mut host, ModuleClass::Noise);
    let ball = host.parts[0];
    resize_surface(
        &mut host,
        &module_host::module::ResizeModuleInternal { spawner: 1, moduleroot: pong, width: 10, height: 20 },
    );
    assert_eq!(host.parts[0], ball);
    match host.parts[1].kind {
        PartKind::NoiseSurface { scale_w, scale_h, .. } => assert_eq!((scale_w, scale_h), (BOXWIDTH, BOXHEIGHT)),
        _ => panic!("expected the noise quad"),
    }
    assert_eq!(host.parts[1].root, noise);
}

#[test]
fn noise_spawn_then_resize_to_800_by_600() {
    let mut host = ModulePlugin.build();
    let root = spawn_and_deliver(&mut host, ModuleClass::Noise);
    assert_eq!(host.roots.len(), 1);
    assert_eq!((host.roots[0].surface.width, host.roots[0].surface.height), (BOXWIDTH, BOXHEIGHT));
    assert_eq!(host.parts.len(), 1);
    assert_eq!(host.parts[0].root, root);
    assert_eq!(
        host.parts[0].kind,
        PartKind::NoiseSurface {
            scale_w: BOXWIDTH,
            scale_h: BOXHEIGHT,
            material: NoiseMaterial { width: BOXWIDTH, height: BOXHEIGHT, speed_milli: NOISE_SPEED_MILLI },
        }
    );
    let routed = resize_and_deliver(&mut host, root, 800, 600);
    assert_eq!(routed, 1);
    assert_eq!(
        host.parts[0].kind,
        PartKind::NoiseSurface {
            scale_w: 800,
            scale_h: 600,
            material: NoiseMaterial { width: 800, height: 600, speed_milli: NOISE_SPEED_MILLI },
        }
    );
    assert_eq!((host.roots[0].width, host.roots[0].height), (800, 600));
    assert_eq!((host.roots[0].surface.width, host.roots[0].surface.height), (800, 600));
}

#[test]
fn module_with_parts_lists_owned_parts_in_order() {
    let mut host = ModulePlugin.build();
    let a = spawn_and_deliver(&mut host, ModuleClass::Noise);
    let b = spawn_and_deliver(&mut host, ModuleClass::Pong);
    let events = spawn_module_observer(&mut host, &SpawnModuleEvent { moduleclass: ModuleClass::Noise });
    let mut again = events[0];
    again.root_id = a;
    let extra = spawn_noise_module(&mut host, &again).unwrap();
    let first = host.parts[0].id;
    assert_eq!(host.module_with_parts(a).0, vec![first, extra]);
    assert_eq!(host.module_with_parts(b).0, vec![host.parts[1].id]);
}
