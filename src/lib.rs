//! Peer discovery and negotiated file-batch transfer over a local network.
//!
//! The modules hold the decisions of the protocol: the membership table of
//! reachable peers, the table of pending offers, and the framing and
//! progress bookkeeping of a transfer. Sockets, timers and files are driven
//! by the caller, which hands the library plain values.

pub mod discovery;
pub mod framing;
pub mod interfaces;
pub mod offers;
pub mod registry;
pub mod transfer;

pub use discovery::{
    broadcast_targets, handle_presence, heartbeat, is_local_address, should_notify, TickActions,
    DISCOVERY_PORT, HEARTBEAT_MS, PEER_TIMEOUT_MS,
};
pub use framing::{
    decision_byte, decode_length, frame_header, ACCEPT_BYTE, LENGTH_PREFIX_LEN, REJECT_BYTE,
};
pub use interfaces::{
    get_network_interfaces, interface_broadcasts, local_addresses, InterfaceAddress,
    NetworkInterfaceInfo,
};
pub use offers::{accept_file_offer, reject_file_offer, OfferBroker, Resolution};
pub use registry::{settings_for_host, Peer, PeerRegistry, PeerView, UpsertOutcome, UserSettings};
pub use transfer::{
    check_answer, total_size, BatchProgress, BatchStep, FileMetadata, FileProgress,
    TransferError, CHUNK_LEN, FILE_TRANSFER_PORT,
};
