//! In-process, synchronous event notification.
//!
//! Two independent broadcast mechanisms:
//! - [`subject::Subject`]: an observer registry that notifies every attached
//!   observer with the same payload;
//! - [`publisher::Publisher`]: a keyed registry that routes a payload only to
//!   the handlers subscribed under the notified event key.

pub mod dispatch;
pub mod publisher;
pub mod subject;

pub use publisher::Publisher;
pub use publisher::Subscriber;
pub use subject::Observer;
pub use subject::Subject;
