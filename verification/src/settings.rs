use vstd::prelude::*;

use crate::detect::DetectionMode;
use crate::keyboard::KeyboardKind;
use crate::model::ModelInfo;
use crate::text::{eq_ignore_ascii_case, eq_ignore_ascii_case_spec};

verus! {

/// The audio library that captures sound.
#[derive(Debug, Clone, Copy, PartialEq, Eq, Structural)]
pub enum Backend {
    PortAudio,
    Cpal,
}

impl Backend {
    /// The backend that a name selects: `cpal` in any letter case selects Cpal, anything else
    /// PortAudio.
    pub fn from_str(s: &str) -> (b: Backend)
        ensures
            b == (if eq_ignore_ascii_case_spec(s@, "cpal"@) {
                Backend::Cpal
            } else {
                Backend::PortAudio
            }),
    {
        if eq_ignore_ascii_case(s, "cpal") {
            Backend::Cpal
        } else {
            Backend::PortAudio
        }
    }
}

/// Which audio input to capture from.
#[derive(Debug, Clone, Copy, PartialEq, Eq, Structural)]
pub struct AudioConfig {
    pub device_index: usize,
    pub backend: Backend,
}

impl Default for AudioConfig {
    /// The first device, through PortAudio.
    fn default() -> (c: AudioConfig)
        ensures
            c.device_index == 0,
            c.backend == Backend::PortAudio,
    {
        AudioConfig { device_index: 0, backend: Backend::PortAudio }
    }
}

/// An audio input device: its number and its name.
#[derive(Debug, Clone)]
pub struct DeviceInfo {
    pub index: usize,
    pub name: String,
}

/// The position of the first device with the given name, if any.
pub open spec fn first_device_named(devices: Seq<DeviceInfo>, name: Seq<char>) -> Option<int>
    decreases devices.len(),
{
    if devices.len() == 0 {
        None
    } else {
        match first_device_named(devices.drop_last(), name) {
            Some(j) => Some(j),
            None => if devices.last().name@ == name {
                Some(devices.len() - 1)
            } else {
                None
            },
        }
    }
}

/// The device number to capture from: that of the first listed device with the chosen name,
/// or 0 when no name is chosen or no listed device has it.
pub open spec fn spec_device_index(device_name: Option<Seq<char>>, devices: Seq<DeviceInfo>) -> usize {
    match device_name {
        Some(name) => match first_device_named(devices, name) {
            Some(j) => devices[j].index,
            None => 0,
        },
        None => 0,
    }
}

proof fn lemma_first_device_prefix(devices: Seq<DeviceInfo>, k: int, name: Seq<char>)
    requires
        0 <= k <= devices.len(),
        first_device_named(devices.take(k), name) is Some,
    ensures
        first_device_named(devices, name) == first_device_named(devices.take(k), name),
    decreases devices.len() - k,
{
    if k < devices.len() {
        assert(devices.take(k + 1).drop_last() =~= devices.take(k));
        lemma_first_device_prefix(devices, k + 1, name);
    } else {
        assert(devices.take(k) =~= devices);
    }
}

/// The text of an optional name.
pub open spec fn opt_text(s: Option<String>) -> Option<Seq<char>> {
    match s {
        Some(t) => Some(t@),
        None => None,
    }
}

/// The number of the device to capture from, found by its name among the listed devices.
pub fn resolve_device_index(device_name: &Option<String>, devices: &[DeviceInfo]) -> (i: usize)
    ensures
        i == spec_device_index(opt_text(*device_name), devices@),
{
    match device_name {
        None => 0,
        Some(name) => {
            let mut k: usize = 0;
            while k < devices.len()
                invariant
                    k <= devices@.len(),
                    opt_text(*device_name) == Some(name@),
                    first_device_named(devices@.take(k as int), name@) is None,
                decreases devices@.len() - k,
            {
                assert(devices@.take(k + 1).drop_last() =~= devices@.take(k as int));
                if devices[k].name == *name {
                    proof {
                        assert(devices@.take(k + 1).last() == devices@[k as int]);
                        assert(first_device_named(devices@.take(k + 1), name@) == Some(k as int));
                        lemma_first_device_prefix(devices@, k + 1, name@);
                    }
                    return devices[k].index;
                }
                k = k + 1;
            }
            assert(devices@.take(devices@.len() as int) =~= devices@);
            0
        },
    }
}

/// The active model: the one at the active position of the list, when there is one.
pub fn active_model(models: &[ModelInfo], active_index: Option<usize>) -> (m: Option<&ModelInfo>)
    ensures
        match active_index {
            Some(i) => if i < models@.len() {
                m == Some(&models@[i as int])
            } else {
                m is None
            },
            None => m is None,
        },
{
    match active_index {
        Some(i) => if i < models.len() {
            Some(&models[i])
        } else {
            None
        },
        None => None,
    }
}

/// What the detection depends on: how notes are detected and with which model.
#[derive(Debug, Clone, Copy, PartialEq, Eq, Structural)]
pub struct DetectionKey {
    pub mode: DetectionMode,
    pub model_index: Option<usize>,
}

/// Watches the detection settings from one frame to the next, to restart the detection when
/// they change.
#[derive(Debug, Clone, Copy, PartialEq, Eq, Structural)]
pub struct DetectionWatch {
    pub last: Option<DetectionKey>,
}

impl DetectionWatch {
    /// A watch that has seen nothing yet.
    pub fn new() -> (w: DetectionWatch)
        ensures
            w.last is None,
    {
        DetectionWatch { last: None }
    }

    /// Takes the settings of this frame and tells whether the detection must restart: only
    /// when settings were seen before and they differ; the first frame only records them.
    pub fn observe(&mut self, key: DetectionKey) -> (restart: bool)
        ensures
            final(self).last == Some(key),
            restart == (old(self).last is Some && old(self).last != Some(key)),
    {
        let restart = match self.last {
            Some(k) => k != key,
            None => false,
        };
        self.last = Some(key);
        restart
    }
}

/// Whether two optional names are the same.
pub fn same_name(a: &Option<String>, b: &Option<String>) -> (r: bool)
    ensures
        r == (opt_text(*a) == opt_text(*b)),
{
    match (a, b) {
        (Some(x), Some(y)) => *x == *y,
        (None, None) => true,
        _ => false,
    }
}

/// Watches the chosen input device from one frame to the next, to restart the capture when
/// it changes.
#[derive(Debug, Clone)]
pub struct DeviceWatch {
    pub current: Option<Option<String>>,
}

impl DeviceWatch {
    /// A watch that has seen nothing yet.
    pub fn new() -> (w: DeviceWatch)
        ensures
            w.current is None,
    {
        DeviceWatch { current: None }
    }

    /// Takes the device name of this frame and tells whether the capture must restart: only
    /// when a name was seen before and this one differs; the first frame only records it.
    pub fn observe(&mut self, name: &Option<String>) -> (restart: bool)
        ensures
            final(self).current is Some,
            opt_text(final(self).current.unwrap()) == opt_text(*name),
            restart == (match old(self).current {
                Some(c) => opt_text(c) != opt_text(*name),
                None => false,
            }),
    {
        let restart = match &self.current {
            Some(c) => !same_name(c, name),
            None => false,
        };
        self.current = Some(name.clone());
        restart
    }
}

/// Watches the keyboard kind from one frame to the next, to rebuild the keyboard when it
/// changes.
#[derive(Debug, Clone, Copy, PartialEq, Eq, Structural)]
pub struct KeyboardWatch {
    pub last: Option<KeyboardKind>,
}

impl KeyboardWatch {
    /// A watch that has seen nothing yet.
    pub fn new() -> (w: KeyboardWatch)
        ensures
            w.last is None,
    {
        KeyboardWatch { last: None }
    }

    /// Takes the keyboard kind of this frame and tells whether the keyboard must be built:
    /// on the first frame and whenever the kind differs from the last one seen.
    pub fn observe(&mut self, kind: KeyboardKind) -> (rebuild: bool)
        ensures
            final(self).last == Some(kind),
            rebuild == (old(self).last != Some(kind)),
    {
        if self.last == Some(kind) {
            return false;
        }
        self.last = Some(kind);
        true
    }
}

/// Lets events through from the second frame on.
#[derive(Debug, Clone, Copy, PartialEq, Eq, Structural)]
pub struct FirstFrameGate {
    pub initialized: bool,
}

impl FirstFrameGate {
    /// A gate that has seen no frame yet.
    pub fn new() -> (g: FirstFrameGate)
        ensures
            !g.initialized,
    {
        FirstFrameGate { initialized: false }
    }

    /// Takes whether the audio source changed in this frame and tells whether the detection
    /// must restart: never on the first frame, afterwards whenever the source changed.
    pub fn pass(&mut self, changed: bool) -> (restart: bool)
        ensures
            final(self).initialized,
            restart == (old(self).initialized && changed),
    {
        if !self.initialized {
            self.initialized = true;
            return false;
        }
        changed
    }
}

/// The screens of the application.
#[derive(Debug, Clone, Copy, PartialEq, Eq, Structural)]
pub enum AppState {
    MainMenu,
    LiveListen,
    ModelRecording,
}

impl Default for AppState {
    /// The application opens on the main menu.
    fn default() -> (s: AppState)
        ensures
            s == AppState::MainMenu,
    {
        AppState::MainMenu
    }
}

/// Whether the settings menu is open.
#[derive(Debug, Clone, Copy, PartialEq, Eq, Structural)]
pub struct MenuState {
    pub open: bool,
}

impl Default for MenuState {
    /// The menu starts closed.
    fn default() -> (m: MenuState)
        ensures
            !m.open,
    {
        MenuState { open: false }
    }
}

impl MenuState {
    /// The menu button was clicked: the menu opens if closed and closes if open.
    pub fn toggle(&mut self)
        ensures
            final(self).open == !old(self).open,
    {
        self.open = !self.open;
    }

    /// A screen was picked in the menu while `current` is shown: picking another screen
    /// switches to it and closes the menu; picking the current one changes nothing.
    pub fn navigate(&mut self, current: AppState, target: AppState) -> (next: Option<AppState>)
        ensures
            current == target ==> next is None && final(self).open == old(self).open,
            current != target ==> next == Some(target) && !final(self).open,
    {
        if current == target {
            None
        } else {
            self.open = false;
            Some(target)
        }
    }
}

/// Whether the menu of the single-screen application is open.
#[derive(Debug, Clone, Copy, PartialEq, Eq, Structural)]
pub struct UiState {
    menu_open: bool,
}

impl Default for UiState {
    /// The menu starts closed.
    fn default() -> (u: UiState)
        ensures
            !u.is_menu_open(),
    {
        UiState { menu_open: false }
    }
}

impl UiState {
    /// Whether the menu is open.
    pub closed spec fn is_menu_open(&self) -> bool {
        self.menu_open
    }

    /// Whether the menu is open.
    pub fn menu_open(&self) -> (b: bool)
        ensures
            b == self.is_menu_open(),
    {
        self.menu_open
    }

    /// The menu button was clicked: the menu opens if closed and closes if open.
    pub fn toggle_menu(&mut self)
        ensures
            final(self).is_menu_open() == !old(self).is_menu_open(),
    {
        self.menu_open = !self.menu_open;
    }
}

/// The settings that decide what must be rebuilt when they change.
#[derive(Debug, Clone)]
pub struct SettingsSnapshot {
    pub keyboard_kind: KeyboardKind,
    pub device_name: Option<String>,
    pub detection_mode: DetectionMode,
    pub active_model_index: Option<usize>,
}

/// What to do after the settings menu has been drawn.
#[derive(Debug, Clone, Copy, PartialEq, Eq, Structural)]
pub struct SettingsUpdate {
    /// Store the edited settings.
    pub commit: bool,
    /// Restart the audio capture and the detection.
    pub restart_pipeline: bool,
    /// Rebuild the drawn keyboard.
    pub rebuild_keyboard: bool,
}

/// Decides what follows one frame of the settings menu. While the menu is closed (`menu_shown`
/// false) nothing is drawn and nothing happens. Otherwise the stored settings are compared
/// with the edited ones (`others_differ` telling whether any setting not in the snapshot
/// differs): any difference is stored; a different device, detection mode or active model
/// restarts the capture and detection; a different keyboard rebuilds the keyboard when the
/// live screen is shown.
pub fn settings_update(
    current: &SettingsSnapshot,
    draft: &SettingsSnapshot,
    others_differ: bool,
    screen: AppState,
    menu_shown: bool,
) -> (u: SettingsUpdate)
    ensures
        !menu_shown ==> !u.commit && !u.restart_pipeline && !u.rebuild_keyboard,
        menu_shown ==> ({
            let pipeline = opt_text(current.device_name) != opt_text(draft.device_name)
                || current.detection_mode != draft.detection_mode || current.active_model_index
                != draft.active_model_index;
            let keyboard = current.keyboard_kind != draft.keyboard_kind;
            let any = pipeline || keyboard || others_differ;
            &&& u.commit == any
            &&& u.restart_pipeline == (any && pipeline)
            &&& u.rebuild_keyboard == (any && keyboard && screen == AppState::LiveListen)
        }),
{
    let nothing = SettingsUpdate { commit: false, restart_pipeline: false, rebuild_keyboard: false };
    if !menu_shown {
        return nothing;
    }
    let pipeline = !same_name(&current.device_name, &draft.device_name) || current.detection_mode
        != draft.detection_mode || current.active_model_index != draft.active_model_index;
    let keyboard = current.keyboard_kind != draft.keyboard_kind;
    if !(pipeline || keyboard || others_differ) {
        return nothing;
    }
    SettingsUpdate {
        commit: true,
        restart_pipeline: pipeline,
        rebuild_keyboard: keyboard && screen == AppState::LiveListen,
    }
}

} // verus!
