//! Event-propagation core for a tree of scriptable objects.
//!
//! Objects live in a display tree and may register interest in named
//! events.  An event dispatched on a node travels root-to-target
//! (capture phase), fires at the target, and travels back up
//! (bubble phase), invoking listeners in priority order.  Listener
//! invocation itself belongs to the host interpreter: dispatch is
//! exposed as a stepper that hands callback handles out one at a time,
//! so listeners may re-enter the registry between steps.

pub mod event;
pub mod listeners;
pub mod registry;
pub mod broadcast;
pub mod dispatcher;
pub mod dispatch;
