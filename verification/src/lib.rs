//! Quest-completion certificates: the bookkeeping of the certificate
//! contract (metadata per token, one certificate per quest and recipient,
//! per-user certificate lists, revocation tombstones and the metadata base
//! URI), with every operation specified over a mathematical model.
pub mod address;
pub mod contract;
pub mod effects;
pub mod error;
pub mod history;
pub mod laws;
pub mod metadata;
pub mod model;
pub mod table;

pub use address::{Address, QuestKey};
pub use error::Error;
pub use metadata::{CertificateMetadata, MetadataView};
pub use table::{Table, TableKey};
pub use contract::{
    CertificateContract, COLLECTION_BASE_URI, COLLECTION_NAME, COLLECTION_SYMBOL, TTL_BUMP,
    TTL_THRESHOLD,
};
pub use model::StoreView;
