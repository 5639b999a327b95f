//! Core logic of a handheld WiFi sniffer: button debounce and press
//! classification, menu navigation, 802.11 frame field extraction, bounded
//! hand-off queue, MAC deduplication with a scan budget, the append-only
//! binary record format with its space admission check, and the host-facing
//! dump protocol. All hardware access (GPIO, display, radio, flash driver)
//! stays outside; these components work on plain values handed in by the
//! caller.

pub mod button;
pub mod dedup;
pub mod dump;
pub mod frame;
pub mod mac;
pub mod menu;
pub mod queue;
pub mod report;
pub mod storage;
pub mod store;
pub mod text;
