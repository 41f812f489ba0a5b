//! What is done about errors that the database cannot go on after.

use vstd::prelude::*;

verus! {

/// Used by the database to signal that it has encountered a fatal error.
#[derive(Debug)]
pub struct ShutdownSignal<S> {
    pub shutdown_tx: Option<S>,
}

/// What a fatal error leads to.
#[derive(Debug)]
pub enum ShutdownAction<'a, S> {
    /// The error is broadcast; it does not matter whether anyone receives it.
    Broadcast(&'a S),
    /// Nobody is told. The process panics with this message.
    Panic(String),
}

impl<S: Clone> Clone for ShutdownSignal<S> {
    fn clone(&self) -> (copy: Self)
        ensures
            match (self.shutdown_tx, copy.shutdown_tx) {
                (Some(tx), Some(other)) => cloned(tx, other),
                (None, None) => true,
                _ => false,
            },
    {
        match &self.shutdown_tx {
            Some(tx) => ShutdownSignal { shutdown_tx: Some(tx.clone()) },
            None => ShutdownSignal { shutdown_tx: None },
        }
    }
}

impl<S> ShutdownSignal<S> {
    /// A signal that reaches those who listen to a channel.
    pub fn new(shutdown_tx: S) -> (signal: ShutdownSignal<S>)
        ensures
            signal.shutdown_tx == Some(shutdown_tx),
    {
        ShutdownSignal { shutdown_tx: Some(shutdown_tx) }
    }

    /// A signal that panics.
    pub fn panic() -> (signal: ShutdownSignal<S>)
        ensures
            signal.shutdown_tx is None,
    {
        ShutdownSignal { shutdown_tx: None }
    }

    /// What is to be done about a fatal error.
    pub fn signal(&self, fatal_error: &str) -> (action: ShutdownAction<'_, S>)
        ensures
            match self.shutdown_tx {
                Some(tx) => action == ShutdownAction::Broadcast(&tx),
                None => {
                    &&& action matches ShutdownAction::Panic(msg)
                    &&& msg@ == "Shutting down due to fatal error: "@ + fatal_error@
                },
            },
    {
        match &self.shutdown_tx {
            Some(tx) => ShutdownAction::Broadcast(tx),
            None => ShutdownAction::Panic(
                "Shutting down due to fatal error: ".to_owned().concat(fatal_error),
            ),
        }
    }
}

} // verus!
