use sanji_engine::events::{
    Event, EventHandler, EventSystem, FunctionHandler, KeyPressedEvent, SceneLoadedEvent, WindowResizedEvent,
    EngineEvent,
};

#[test]
fn event_names() {
    assert_eq!(WindowResizedEvent { width: 1, height: 2 }.event_name(), "WindowResized");
    assert_eq!(EngineEvent::KeyPressed(KeyPressedEvent { key_code: 3, repeat: false }).event_name(), "KeyPressed");
    assert_eq!(EngineEvent::SceneLoaded(SceneLoadedEvent { scene_name: "s".to_string() }).event_name(), "SceneLoaded");
    assert_eq!(EngineEvent::Custom { kind: "Explosion", id: 4 }.event_name(), "Explosion");
}

#[test]
fn queued_events_come_out_first_in_first_out() {
    let mut es = EventSystem::new();
    let a = es.subscribe("WindowResized");
    let b = es.subscribe("KeyPressed");
    let c = es.subscribe("WindowResized");
    assert_eq!((a, b, c), (0, 1, 2));
    assert!(es.publish_window_resized(800, 600).is_none());
    assert!(es.publish_key_pressed(7, true).is_none());
    assert!(es.publish_window_closed().is_none());
    assert_eq!(es.queue_size(), 3);
    let out = es.process_events();
    assert_eq!(es.queue_size(), 0);
    assert_eq!(out.len(), 3);
    assert!(matches!(out[0].event, EngineEvent::WindowResized(WindowResizedEvent { width: 800, height: 600 })));
    assert_eq!(out[0].listeners, vec![0, 2]);
    assert!(matches!(out[1].event, EngineEvent::KeyPressed(KeyPressedEvent { key_code: 7, repeat: true })));
    assert_eq!(out[1].listeners, vec![1]);
    assert!(matches!(out[2].event, EngineEvent::WindowClosed(_)));
    assert!(out[2].listeners.is_empty());
}

#[test]
fn immediate_mode_delivers_at_once() {
    let mut es = EventSystem::new();
    let l = es.subscribe("Explosion");
    es.set_immediate_mode(true);
    let d = es.publish(EngineEvent::Custom { kind: "Explosion", id: 9 }).unwrap();
    assert_eq!(d.listeners, vec![l]);
    assert!(matches!(d.event, EngineEvent::Custom { id: 9, .. }));
    assert_eq!(es.queue_size(), 0);
    assert_eq!(es.handle_event_immediate(&EngineEvent::Custom { kind: "Other", id: 1 }), Vec::<u64>::new());
}

#[test]
fn unsubscribing_and_clearing() {
    let mut es = EventSystem::default();
    es.subscribe("KeyPressed");
    es.subscribe("KeyReleased");
    es.unsubscribe_all("KeyPressed");
    es.publish_key_pressed(1, false);
    es.receive(vec![EngineEvent::Custom { kind: "KeyReleased", id: 0 }]);
    assert_eq!(es.queue_size(), 2);
    let out = es.process_events();
    assert!(out[0].listeners.is_empty());
    assert_eq!(out[1].listeners, vec![1]);
    es.clear_listeners();
    es.publish_window_closed();
    es.clear_queue();
    assert_eq!(es.queue_size(), 0);
    assert_eq!(es.subscribe("WindowClosed"), 2);
}

#[test]
fn function_handler_calls_its_function() {
    let seen = std::cell::Cell::new(0u32);
    let mut h = FunctionHandler::new(|e: &KeyPressedEvent| seen.set(e.key_code));
    h.handle(&KeyPressedEvent { key_code: 42, repeat: false });
    assert_eq!(seen.get(), 42);
}
