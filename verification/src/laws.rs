//! What holds of the bridge as a whole, beyond what each of its functions promises.
pub mod audio;
pub mod authentication;
pub mod calls;
pub mod headers;
pub mod identity;
pub mod inbound;
pub mod numbers;
pub mod offers;
pub mod outbound;
pub mod peers;
pub mod reading;
pub mod service;
pub mod time;
