//! Core of a global-hotkey binder: modifier-set canonicalization, expansion
//! of a modifier set into the native grab masks that make lock keys
//! irrelevant, and the press/release callback registry whose grab and ungrab
//! requests are tied to first-insert and last-remove per key code.
//!
//! The host windowing system itself (opening a display, grabbing a key,
//! reading an event) is an external collaborator: the registry hands back
//! explicit grab and ungrab requests, and an event loop around the library
//! feeds decoded events in.

pub mod expand;
pub mod hotkey;
pub mod modifiers;
pub mod storage;

pub use hotkey::HotKey;
pub use hotkey::TriggerOn;
pub use modifiers::Modifier;
pub use modifiers::canonicalize;
pub use expand::ANY_MODIFIER;
pub use expand::IGNORED_MODIFIER_MASK;
pub use storage::CallbackStorage;
pub use storage::EventKind;
pub use storage::GrabRequest;
pub use storage::InputEvent;
