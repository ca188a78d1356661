use piano_core::detect::DetectionMode;
use piano_core::model::ModelInfo;
use piano_core::settings::{
    active_model, resolve_device_index, settings_update, AppState, AudioConfig, Backend, DetectionKey,
    DetectionWatch, DeviceInfo, DeviceWatch, FirstFrameGate, KeyboardWatch, MenuState, SettingsSnapshot,
    UiState,
};
use piano_core::{KeyboardKind, Note, Tone};

#[test]
fn backend_names() {
    assert_eq!(Backend::from_str("cpal"), Backend::Cpal);
    assert_eq!(Backend::from_str("CPAL"), Backend::Cpal);
    assert_eq!(Backend::from_str("CpAl"), Backend::Cpal);
    assert_eq!(Backend::from_str("portaudio"), Backend::PortAudio);
    assert_eq!(Backend::from_str("cpal2"), Backend::PortAudio);
    assert_eq!(Backend::from_str(""), Backend::PortAudio);
    let c = AudioConfig::default();
    assert_eq!((c.device_index, c.backend), (0, Backend::PortAudio));
}

#[test]
fn device_index_by_name() {
    let devs = vec![
        DeviceInfo { index: 2, name: "Mic".to_string() },
        DeviceInfo { index: 5, name: "USB".to_string() },
        DeviceInfo { index: 9, name: "USB".to_string() },
    ];
    assert_eq!(resolve_device_index(&Some("USB".to_string()), &devs), 5);
    assert_eq!(resolve_device_index(&Some("Mic".to_string()), &devs), 2);
    assert_eq!(resolve_device_index(&Some("none".to_string()), &devs), 0);
    assert_eq!(resolve_device_index(&None, &devs), 0);
}

#[test]
fn active_model_lookup() {
    let models = vec![ModelInfo {
        name: "A".to_string(),
        filename: "a.bin".to_string(),
        start_tone: Tone::new(Note::C, 3),
        key_count: 12,
    }];
    assert_eq!(active_model(&models, Some(0)).map(|m| m.name.as_str()), Some("A"));
    assert!(active_model(&models, Some(1)).is_none());
    assert!(active_model(&models, None).is_none());
}

#[test]
fn watches() {
    let k1 = DetectionKey { mode: DetectionMode::Polyphonic, model_index: Some(0) };
    let k2 = DetectionKey { mode: DetectionMode::Monophonic, model_index: Some(0) };
    let mut w = DetectionWatch::new();
    assert!(!w.observe(k1));
    assert!(!w.observe(k1));
    assert!(w.observe(k2));
    assert!(!w.observe(k2));

    let mut d = DeviceWatch::new();
    assert!(!d.observe(&None));
    assert!(!d.observe(&None));
    assert!(d.observe(&Some("USB".to_string())));
    assert!(!d.observe(&Some("USB".to_string())));

    let mut kb = KeyboardWatch::new();
    assert!(kb.observe(KeyboardKind::Piano88));
    assert!(!kb.observe(KeyboardKind::Piano88));
    assert!(kb.observe(KeyboardKind::PianoSmall));

    let mut g = FirstFrameGate::new();
    assert!(!g.pass(true));
    assert!(!g.pass(false));
    assert!(g.pass(true));
}

#[test]
fn menus() {
    assert_eq!(AppState::default(), AppState::MainMenu);
    let mut m = MenuState::default();
    assert!(!m.open);
    m.toggle();
    assert!(m.open);
    assert_eq!(m.navigate(AppState::MainMenu, AppState::MainMenu), None);
    assert!(m.open);
    assert_eq!(m.navigate(AppState::MainMenu, AppState::LiveListen), Some(AppState::LiveListen));
    assert!(!m.open);

    let mut u = UiState::default();
    assert!(!u.menu_open());
    u.toggle_menu();
    assert!(u.menu_open());
    u.toggle_menu();
    assert!(!u.menu_open());
}

#[test]
fn settings_changes() {
    let base = SettingsSnapshot {
        keyboard_kind: KeyboardKind::Piano88,
        device_name: None,
        detection_mode: DetectionMode::Polyphonic,
        active_model_index: None,
    };
    let u = settings_update(&base, &base.clone(), false, AppState::LiveListen, true);
    assert!(!u.commit && !u.restart_pipeline && !u.rebuild_keyboard);
    let u = settings_update(&base, &base.clone(), true, AppState::LiveListen, true);
    assert!(u.commit && !u.restart_pipeline && !u.rebuild_keyboard);
    let mut kb = base.clone();
    kb.keyboard_kind = KeyboardKind::PianoSmall;
    let u = settings_update(&base, &kb, false, AppState::LiveListen, true);
    assert!(u.commit && !u.restart_pipeline && u.rebuild_keyboard);
    let u = settings_update(&base, &kb, false, AppState::MainMenu, true);
    assert!(u.commit && !u.restart_pipeline && !u.rebuild_keyboard);
    let mut dev = base.clone();
    dev.device_name = Some("USB".to_string());
    let u = settings_update(&base, &dev, false, AppState::MainMenu, true);
    assert!(u.commit && u.restart_pipeline && !u.rebuild_keyboard);
    let mut model = base.clone();
    model.active_model_index = Some(1);
    assert!(settings_update(&base, &model, false, AppState::MainMenu, true).restart_pipeline);
}

#[test]
fn settings_untouched_while_menu_closed() {
    let base = SettingsSnapshot {
        keyboard_kind: KeyboardKind::Piano88,
        device_name: None,
        detection_mode: DetectionMode::Polyphonic,
        active_model_index: None,
    };
    let mut edited = base.clone();
    edited.keyboard_kind = KeyboardKind::PianoSmall;
    edited.device_name = Some("USB".to_string());
    let u = settings_update(&base, &edited, true, AppState::LiveListen, false);
    assert!(!u.commit && !u.restart_pipeline && !u.rebuild_keyboard);
}
