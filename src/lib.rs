//! Request correlation and process lifecycle core of an HTTP staging proxy.
//!
//! A front listener registers each inbound request with an arbiter, which
//! hands back a fresh correlation identifier and a one-shot receiver. The
//! result arrives later, from a spawned OS process or from an external
//! reporter, and is matched to its waiter exactly once.

pub mod arbiter;
pub mod backserv;
pub mod cmdlineparser;
pub mod frontserv;
pub mod procenv;
pub mod processcontroller;
pub mod requestsvisor;
pub mod restmessage;
pub mod serviceconf;
pub mod table;
pub mod urconfig;
