//! Search, ranking and usage tracking for a catalogue of emoji symbols.
//!
//! The crate holds the catalogue store with its line format, the search
//! index and query engine, the coalescing of query input, and the small
//! pieces of localisation logic that go with them. Every function is
//! verified against the contract it states.

pub mod aufruf;
pub mod emoji_tabs;
pub mod gtk_theme;
pub mod i18n;
pub mod katalog;
pub mod rundreise;
pub mod settings;
pub mod shortcut;
pub mod suchlogik;
pub mod text;
pub mod verlauf;
pub mod zahl;
