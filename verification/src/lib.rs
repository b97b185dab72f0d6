//! The logic of a Wayland Unix socket listener, verified.
//!
//! A listener claims a socket name, accepts clients, cuts the bytes that each
//! client sends into requests for the compositor, and writes the compositor's
//! events back. Everything that is decided or computed on the way stands here:
//!
//! - [`messages`]: the values that pass between a client and the compositor
//! - [`handles`]: the asynchronous handles that are passed along with them
//! - [`wire`]: the Wayland wire format, as a decoder and an encoder
//! - [`client`]: the receiving side of one client's connection
//! - [`sender`]: the sending side of one client's connection
//! - [`naming`]: the claiming of a socket name
//! - [`listener`]: the life of a listening socket, and the ids of its clients
//!
//! The modules [`client_laws`], [`sender_laws`] and [`listener_laws`] state
//! what holds of each step and of a whole run, from its first event to its
//! last, [`naming_laws`] what holds of claims while locks are held,
//! [`token_laws`] what a cancellation reaches, and [`view_laws`] that the
//! mathematical values hold what the types hold.
//!
//! The crate performs no input or output. Where a decision depends on what the
//! system answers, a type of this crate says what to do next, and its caller
//! does it and says what came of it.

pub mod client;
pub mod client_laws;
pub mod handles;
pub mod listener;
pub mod listener_laws;
pub mod messages;
pub mod naming;
pub mod naming_laws;
pub mod sender;
pub mod sender_laws;
pub mod token_laws;
pub mod view_laws;
pub mod wire;

pub use client::ClientAction;
pub use client::ClientEvent;
pub use client::ClientReader;
pub use listener::retain_running;
pub use listener::ClientIds;
pub use listener::Listener;
pub use listener::ListenerAction;
pub use listener::ListenerEvent;
pub use messages::WaylandEvent;
pub use messages::WaylandNewClientMessage;
pub use messages::WaylandReadBatch;
pub use messages::WaylandRequest;
pub use messages::WaylandRequestWithClientInfo;
pub use messages::WaylandSocketMessage;
pub use naming::claim_socket_name;
pub use naming::lock_path;
pub use naming::LockAttempt;
pub use naming::NameSearch;
pub use naming::SearchStep;
pub use naming::SocketNameError;
pub use sender::EventWriter;
pub use sender::SendAction;
pub use sender::SendEvent;
pub use wire::encode_event;
pub use wire::take_message;
pub use wire::take_messages;
pub use wire::Framed;
