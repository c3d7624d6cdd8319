//! Session-management core of a driver for button-grid stream controllers:
//! the catalog of supported device kinds, the scan that turns attached HID
//! interfaces into connection candidates, and the dispatcher that keeps the
//! registry of connected devices and routes messages between them and the host.
pub mod kind;
pub mod scan;
pub mod dispatcher;
