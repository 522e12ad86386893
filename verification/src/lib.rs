//! Typed data model for AsyncAPI documents.
//!
//! The crate decodes a structural JSON-like value tree into strongly typed
//! entities (channels, messages, bindings, schemas) and encodes them back,
//! preserving unrecognized specification-extension fields losslessly.

pub mod api;
pub mod channel;
pub mod channel_binding;
pub mod components;
pub mod correlation_id;
pub mod discriminator;
pub mod external_documentation;
pub mod fields;
pub mod info;
pub mod message;
pub mod message_binding;
pub mod message_trait;
pub mod operation_binding;
pub mod reference;
pub mod schema;
pub mod server;
pub mod tag;
pub mod value;
pub mod vec_or_single;

pub use api::AsyncAPI;
pub use channel::Channel;
pub use channel::Operation;
pub use channel_binding::ChannelBinding;
pub use components::Components;
pub use correlation_id::CorrelationId;
pub use discriminator::Discriminator;
pub use external_documentation::ExternalDocumentation;
pub use info::Info;
pub use message::Message;
pub use message::Payload;
pub use message_binding::MessageBinding;
pub use message_trait::MessageTrait;
pub use operation_binding::OperationBinding;
pub use reference::Ref;
pub use reference::RefOr;
pub use schema::Schema;
pub use server::Server;
pub use tag::Tag;
pub use value::DecodeError;
pub use value::Value;
pub use vec_or_single::VecOrSingle;
