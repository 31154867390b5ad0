use vstd::prelude::*;

pub mod bus;
pub mod codec;
pub mod config;
pub mod delivery;
pub mod connection;
pub mod dims;
pub mod dispatch;
pub mod endpoint;
pub mod endpoint_table;
pub mod grpc_register;
pub mod envelope;
pub mod error;
pub mod json;
pub mod message;
pub mod message_bus;
pub mod registry;
pub mod route;
pub mod throttle;
pub mod uuids;
pub mod ws_connection;
pub mod ws_session;

pub use bus::Bus;
pub use codec::{from_wire, to_wire, WireMessage};
pub use config::{dimensions_from_json, parse_dimensions, DimSpec, DimensionsError};
pub use connection::ConnectionTable;
pub use dims::{LabelDim, ProducerDim, SizeDim};
pub use dispatch::{DispatchEvent, EventMeta};
pub use endpoint::{Endpoint, EndpointType};
pub use envelope::{Envelope, ProducerId};
pub use error::JackfieldError;
pub use json::Json;
pub use message::{BaseMessage, Message};
pub use registry::{Candidate, EntryScore, RegistrationBuilder, Registry};
pub use route::{AffinityRouter, AffinitySelection, BlindRouter, BlindScan, EventKind, RouteAction, SkipReason};
pub use throttle::Throttle;
pub use endpoint_table::{EndpointEntry, EndpointTable};
pub use message_bus::MessageBus;
pub use ws_session::WsSession;
