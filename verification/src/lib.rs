pub mod channels;
pub mod cli;
pub mod collect;
pub mod detect;
pub mod keyboard;
pub mod layout;
pub mod model;
pub mod note;
pub mod onset;
pub mod piano;
pub mod settings;
pub mod text;
pub mod tone;

pub use keyboard::{generate_keys, KeyInfo, KeyboardKind, KeyboardSpec};
pub use model::ModelInfo;
pub use note::Note;
pub use tone::{Pitch, Tone};
