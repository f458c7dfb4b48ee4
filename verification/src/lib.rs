//! The verified core of the COSMIC on-screen display: the audio device model
//! that decides when a volume OSD is owed, the polkit helper protocol, the
//! authentication dialog's state machine and the OSD inhibit window.
pub mod components;
pub mod subscriptions;
