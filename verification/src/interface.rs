//! Shared control-surface types: intents a user interface emits, updates
//! the application pushes back, and configuration values that may be
//! forced for a single session.
//!
//! The asynchronous halves of this surface — intent receivers and
//! updaters bound to channel endpoints — live with the application
//! around the library, not here.

use vstd::prelude::*;

verus! {

/// An action requested by a user interface.
#[derive(Debug, Clone)]
pub enum UserIntent {
    Exit,
    ConnectToRemote,
    DisconnectRemote,
}

/// A state change pushed to connected user interfaces.
#[derive(Debug, Clone)]
pub enum AppUpdate {
    Exit,
}

/// A configuration value together with whether it was forced for this
/// session rather than read the ordinary way.
pub struct Forcable<T: Sized> {
    forced: bool,
    value: T,
}

impl<T: Sized> Forcable<T> {
    /// Whether the value was forced.
    pub closed spec fn spec_is_forced(self) -> bool {
        self.forced
    }

    /// The value held.
    pub closed spec fn spec_value(self) -> T {
        self.value
    }

    /// Wraps a value read the ordinary way.
    pub fn new(value: T) -> (r: Self)
        ensures
            !r.spec_is_forced(),
            r.spec_value() == value,
    {
        Self { forced: false, value }
    }

    /// Wraps a value forced for this session.
    pub fn new_forced(value: T) -> (r: Self)
        ensures
            r.spec_is_forced(),
            r.spec_value() == value,
    {
        Self { forced: true, value }
    }

    /// Takes the value out.
    pub fn get_value(self) -> (r: T)
        ensures
            r == self.spec_value(),
    {
        self.value
    }

    /// Whether the value was forced.
    pub fn is_forced(&self) -> (r: bool)
        ensures
            r == self.spec_is_forced(),
    {
        self.forced
    }
}

/// Connection details of a remote instance to attach to.
pub struct Remote {
    pub id: u64,
    pub password: Option<String>,
}

/// Listening details of a server this instance may run.
pub struct Server {
    pub port: Option<u16>,
    pub password: Option<String>,
}

/// Application state that owns a configuration.
pub trait State: Sized {
    type Config: Config;

    fn config_mut(&mut self) -> &mut Self::Config;

    fn config(&self) -> &Self::Config;
}

/// Stored configuration with per-session overrides.
pub trait Config: Sized {
    fn remote(&self) -> Forcable<Option<Remote>>;

    fn server(&self) -> Forcable<Option<Server>>;

    fn force_remote(&mut self, val: Option<Remote>);

    fn force_server(&mut self, val: Option<Server>);
}

} // verus!
