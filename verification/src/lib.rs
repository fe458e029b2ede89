//! Transport layer of a peer-to-peer node: connection contracts, scheme
//! dispatch among transports, and the mesh that multiplexes many
//! connections behind bounded queues. Beside it stand the configuration
//! of the REST API and of the node, and the commands of the console.

pub mod console;
pub mod error;
pub mod mesh;
pub mod node;
pub mod payload;
pub mod rest_api;
pub mod text;
pub mod transport;
