//! The UI side: the data it exchanges with the daemon and the logic of its
//! forms.
pub mod dto;
pub mod forms;
pub mod android;
