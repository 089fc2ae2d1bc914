//! One keyboard, mouse and clipboard across every machine on a local network.
//!
//! One machine hosts: it owns the real keyboard and mouse and does all the
//! coordinate maths. The others are clients: they replay absolute coordinates
//! that the host has already put into their own pixels.
//!
//! This library holds what the two roles decide and compute, as values in and
//! values out. Sockets, threads, hooks and files belong to the program around
//! it, which performs the actions that the roles' states hand back and reports
//! what happened.
//!
//! - [`protocol`], [`crypto`], [`transport`]: what goes over the wire, and how
//!   it is keyed, sealed and framed.
//! - [`layout`]: the wall, one coordinate space with every device's monitors in
//!   it, and the pointer that travels over it.
//! - [`host`], [`client`]: the two roles, as states that take events.
//! - [`capture`], [`inject`], [`permission`]: input read from one machine and
//!   replayed on another, per platform.
//! - [`clipboard`], [`discovery`], [`displays`], [`settings`], [`control`]: the
//!   rest of what the program shares, finds, stores and shows.
//! - [`platform`], [`text`], [`table`], [`order`]: what the others are built on.
//!
//! The contracts of the functions say what each of them does. What that amounts
//! to, for whoever sits in front of the machines, is stated and proved in the
//! modules named `laws`, such as [`layout::laws`] and [`inject::laws`].
pub mod capture;
pub mod client;
pub mod clipboard;
pub mod control;
pub mod crypto;
pub mod discovery;
pub mod displays;
pub mod host;
pub mod inject;
pub mod layout;
pub mod order;
pub mod permission;
pub mod platform;
pub mod protocol;
pub mod settings;
pub mod table;
pub mod text;
pub mod transport;
