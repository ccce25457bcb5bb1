use sanji_engine::animation::keyframes::KeyframeTrack;
use sanji_engine::audio::listener::ListenerManager;
use sanji_engine::particles::manager::ParticleSystemManager;
use sanji_engine::animation::skeleton::Skeleton;
use sanji_engine::audio::audio_system::{AudioClip, AudioSystem};
use sanji_engine::audio::PlaybackState;
use sanji_engine::ecs::component::{MeshRenderer, Name, Tag};
use sanji_engine::ecs::entity::EntityQuery;
use sanji_engine::ecs::system::LifecycleSystem;
use sanji_engine::engine_core::engine::{EngineAction, EngineCore, WindowInput};
use sanji_engine::input::input_manager::MOUSE_LEFT;
use sanji_engine::input::keyboard::KEY_W;
use sanji_engine::particles::emitter::EmitterState;
use sanji_engine::particles::{ParticlePreset, ParticleSystemFactory, ParticleSystemHelper};
use sanji_engine::EngineError;

fn asset_message(r: Result<(), EngineError>) -> String {
    match r {
        Err(EngineError::AssetError(m)) => m,
        _ => panic!("asset error expected"),
    }
}

#[test]
fn skeleton_hierarchy() {
    let mut s = Skeleton::new();
    let root = s.add_bone("root", None);
    let spine = s.add_bone("spine", Some(root));
    let head = s.add_bone("head", Some(spine));
    assert_eq!((root, spine, head), (0, 1, 2));
    assert_eq!(s.bone_count(), 3);
    assert_eq!(s.find_bone("spine"), Some(1));
    assert_eq!(s.find_bone("tail"), None);
    assert_eq!(s.get_bone(0).unwrap().children, vec![1]);
    assert_eq!(s.get_bone(1).unwrap().children, vec![2]);
    assert_eq!(s.get_bone(2).unwrap().parent, Some(1));
    assert!(s.get_bone(3).is_none());
    assert_eq!(s.root_bones, vec![0]);
    assert!(s.validate().is_ok());
}

#[test]
fn skeleton_validation_errors() {
    let mut s = Skeleton::new();
    s.add_bone("a", None);
    s.add_bone("b", Some(7));
    assert_eq!(asset_message(s.validate()), "Bone 1 has invalid parent index 7");
    let mut t = Skeleton::new();
    t.add_bone("a", None);
    t.bones[0].children.push(5);
    assert_eq!(asset_message(t.validate()), "Bone 0 has invalid child index 5");
    let mut u = Skeleton::new();
    let me = u.add_bone("self", Some(0));
    assert_eq!(u.get_bone(me).unwrap().children, vec![0]);
    assert!(u.validate().is_ok());
}

#[test]
fn audio_clips_and_sources() {
    let mut a = AudioSystem::new();
    a.add_clip(AudioClip::new("beep", 100, 44100, 1));
    a.add_clip(AudioClip::new("music", 1000, 48000, 2).set_looping(true));
    assert_eq!(a.clip_count(), 2);
    assert!(a.has_clip("beep"));
    assert_eq!(asset_message(a.play_clip("missing", 1)), "音频剪辑未找到: missing");
    assert!(a.play_clip("beep", 1).is_ok());
    assert!(a.play_clip("music", 2).is_ok());
    assert_eq!(a.active_source_count(), 2);
    assert_eq!(a.source_sample_rates(), vec![44100, 48000]);
    a.pause(2);
    let s = a.stats();
    assert_eq!((s.total_clips, s.active_sources, s.playing_sources, s.paused_sources), (2, 2, 1, 1));
    a.resume(2);
    assert_eq!(a.stats().playing_sources, 2);
    assert!(a.update_fits(&vec![60, 600]));
    assert!(a.update(&vec![60, 600]).is_ok());
    assert_eq!(a.active_source_count(), 2);
    assert!(a.update(&vec![60, 600]).is_ok());
    assert_eq!(a.active_source_count(), 1);
    assert_eq!(a.source_sample_rates(), vec![48000]);
    a.set_looping(2, false);
    a.stop(2);
    assert_eq!(a.stats().playing_sources, 0);
    a.stop_all();
    assert_eq!(a.active_source_count(), 0);
    assert!(a.remove_clip("beep"));
    assert!(!a.remove_clip("beep"));
    a.clear_clips();
    assert_eq!(a.clip_count(), 0);
}

#[test]
fn audio_muted_system_does_not_advance() {
    let mut a = AudioSystem::default();
    a.add_clip(AudioClip::new("beep", 10, 8000, 1));
    a.play_clip("beep", 5).unwrap();
    a.set_muted(true);
    assert!(a.is_muted());
    a.update(&vec![100]).unwrap();
    assert_eq!(a.active_source_count(), 1);
    a.set_muted(false);
    a.update(&vec![100]).unwrap();
    assert_eq!(a.active_source_count(), 0);
    assert!(a.play_one_shot("beep").is_ok());
    assert_eq!(a.active_source_count(), 1);
    assert_eq!(asset_message(a.play_one_shot("none")), "音频剪辑未找到: none");
    assert!(a.update_fits(&vec![usize::MAX]));
    a.update(&vec![5]).unwrap();
    assert!(!a.update_fits(&vec![usize::MAX]));
    assert!(a.update_fits(&vec![usize::MAX - 5]));
}

#[test]
fn audio_pause_then_resume_restores_source() {
    let mut a = AudioSystem::new();
    a.add_clip(AudioClip::new("c", 10, 100, 1));
    a.play_clip("c", 3).unwrap();
    a.update(&vec![4]).unwrap();
    a.pause(3);
    a.resume(3);
    a.update(&vec![5]).unwrap();
    assert_eq!(a.active_source_count(), 1);
    a.update(&vec![1]).unwrap();
    assert_eq!(a.active_source_count(), 0);
    assert_eq!(PlaybackState::Paused.resumed(), PlaybackState::Playing);
}

#[test]
fn tags_and_queries() {
    let mut t = Tag::new().with_tag("enemy");
    t.add_tag("enemy");
    t.add_tag("destroy");
    assert_eq!(t.tags, vec!["enemy", "destroy"]);
    assert!(t.has_tag("destroy"));
    t.remove_tag("enemy");
    assert!(!t.has_tag("enemy"));
    let tags = vec![Tag::new().with_tag("destroy"), Tag::new(), t];
    assert_eq!(LifecycleSystem::new().entities_to_destroy(&tags), vec![0, 2]);
    assert_eq!(EntityQuery::find_by_tag(&tags, "destroy"), vec![0, 2]);
    let names = vec![Name::new("a"), Name::new("b"), Name::new("b")];
    assert_eq!(EntityQuery::find_by_name(&names, "b"), Some(1));
    assert_eq!(EntityQuery::find_by_name(&names, "c"), None);
    let m = MeshRenderer::new("cube", "stone");
    assert_eq!(m.mesh_name, "cube");
    assert_eq!(m.material_name, "stone");
}

#[test]
fn engine_reacts_to_window_events() {
    let mut e = EngineCore::new();
    assert!(!e.running());
    e.start();
    assert!(e.running());
    assert_eq!(
        e.handle_window_event(WindowInput::Resized { width: 640, height: 480 }),
        (EngineAction::ResizeRenderer { width: 640, height: 480 }, false)
    );
    assert_eq!(e.handle_window_event(WindowInput::Key { key: KEY_W, pressed: true }), (EngineAction::Nothing, false));
    assert!(e.input().keyboard().is_key_down(KEY_W));
    e.handle_window_event(WindowInput::MouseButton { button: MOUSE_LEFT, pressed: true });
    assert!(e.input().mouse().is_button_pressed(MOUSE_LEFT));
    assert_eq!(e.handle_window_event(WindowInput::RedrawRequested), (EngineAction::Render, false));
    assert_eq!(e.handle_window_event(WindowInput::CursorMoved), (EngineAction::MoveCursor, false));
    assert_eq!(e.handle_window_event(WindowInput::CloseRequested), (EngineAction::Nothing, true));
    assert!(!e.running());
}

#[test]
fn particle_effect_names() {
    assert_eq!(ParticleSystemHelper::one_shot_preset("explosion"), Some(ParticlePreset::Explosion));
    assert_eq!(ParticleSystemHelper::one_shot_preset("magic_orb"), Some(ParticlePreset::MagicOrb));
    assert_eq!(ParticleSystemHelper::one_shot_preset("snow"), None);
    assert_eq!(ParticleSystemHelper::ambient_preset("snow"), Some(ParticlePreset::Snow));
    assert_eq!(ParticleSystemHelper::ambient_preset("fire"), Some(ParticlePreset::Fire));
    assert_eq!(ParticleSystemHelper::ambient_preset("smoke"), None);
    assert!(!ParticleSystemFactory::fire_auto_destroy());
    assert!(ParticleSystemFactory::explosion_auto_destroy());
    assert!(!ParticleSystemFactory::healing_auto_destroy());
}

#[test]
fn emitter_transitions() {
    assert_eq!(EmitterState::Stopped.started(), EmitterState::Playing);
    assert_eq!(EmitterState::Playing.paused(), EmitterState::Paused);
    assert_eq!(EmitterState::Stopped.paused(), EmitterState::Stopped);
    assert_eq!(EmitterState::Paused.resumed(), EmitterState::Playing);
    assert_eq!(EmitterState::Playing.paused().resumed(), EmitterState::Playing);
    assert!(EmitterState::Playing.is_active());
    assert!(!EmitterState::Paused.is_active());
    assert_eq!(EmitterState::Playing.stopped(), EmitterState::Stopped);
}

#[test]
fn particle_manager_bookkeeping() {
    let mut m = ParticleSystemManager::new(100);
    let a = m.create_emitter();
    let b = m.create_emitter();
    assert_eq!((a, b), (1, 2));
    let mut ids = m.get_emitter_ids();
    ids.sort();
    assert_eq!(ids, vec![1, 2]);
    m.start_emitter(a);
    m.start_emitter(b);
    m.pause_emitter(b);
    m.begin_update();
    assert_eq!(m.update_budget(), 100);
    m.record_emitter_update(a, EmitterState::Playing, 30);
    assert_eq!(m.update_budget(), 70);
    m.record_emitter_update(b, EmitterState::Paused, 5);
    let s = m.get_stats();
    assert_eq!((s.total_emitters, s.active_emitters, s.total_particles, s.max_particles), (2, 1, 35, 100));
    m.stop_emitter(a);
    assert_eq!(m.get_stats().total_particles, 5);
    assert_eq!(m.get_stats().active_emitters, 0);
    assert!(m.remove_emitter(b));
    assert!(!m.remove_emitter(b));
    assert_eq!(m.get_emitter_ids(), vec![1]);
    m.clear_all_particles();
    assert_eq!(m.update_budget(), 100);
    let c = m.create_emitter();
    assert_eq!(c, 3);
    assert!(m.remove_emitter(c));
    assert_eq!(m.get_emitter_ids(), vec![1]);
}

#[test]
fn listener_marks() {
    let mut l = ListenerManager::default();
    assert_eq!(l.listeners(), &vec![true]);
    assert_eq!(l.main_listener(), Some(0));
    assert_eq!(l.add_listener(false), 1);
    assert_eq!(l.add_listener(true), 2);
    assert_eq!(l.listeners(), &vec![false, false, true]);
    assert_eq!(l.main_listener(), Some(2));
    assert!(l.set_main_listener(1));
    assert!(!l.set_main_listener(3));
    assert_eq!(l.listeners(), &vec![false, true, false]);
    assert_eq!(l.remove_listener(1), Some(true));
    assert_eq!(l.listeners(), &vec![true, false]);
    assert_eq!(l.main_listener(), Some(0));
    assert_eq!(l.remove_listener(1), Some(false));
    assert_eq!(l.remove_listener(5), None);
    assert_eq!(l.count(), 1);
    l.clear();
    assert_eq!(l.main_listener(), None);
}

#[test]
fn removing_before_the_main_listener_keeps_its_recorded_place() {
    let mut l = ListenerManager::new();
    l.add_listener(false);
    l.add_listener(true);
    assert_eq!(l.remove_listener(0), Some(false));
    assert_eq!(l.main_listener(), None);
    assert_eq!(l.listeners(), &vec![true]);
}

#[test]
fn keyframes_stay_ordered_by_key() {
    let mut t: KeyframeTrack<&str> = KeyframeTrack::new();
    assert!(t.is_empty());
    assert_eq!(t.neighbors(5), (None, None));
    t.insert(500, "b");
    t.insert(0, "a");
    t.insert(1000, "c");
    t.insert(500, "B");
    assert_eq!(t.len(), 3);
    assert_eq!(t.keys(), vec![0, 500, 1000]);
    assert_eq!(t.get(500), Some(&"B"));
    assert_eq!(t.get(600), None);
    assert_eq!(t.neighbors(500), (Some(500), Some(500)));
    assert_eq!(t.neighbors(750), (Some(500), Some(1000)));
    assert_eq!(t.neighbors(2000), (Some(1000), None));
    t.clear();
    assert_eq!(t.len(), 0);
}
