//! The decisions of a transactional document database: which tables and
//! indexes a snapshot has, how a fresh database is laid out, how change feeds
//! and snapshot listings are cut into pages, and when a transaction is retried.

pub mod answer_laws;
pub mod attempt_laws;
pub mod clock;
pub mod database;
pub mod deltas;
pub mod deltas_laws;
pub mod deltas_page_laws;
pub mod errors;
pub mod filters;
pub mod identity;
pub mod ids;
pub mod initial_writes;
pub mod initialize;
pub mod initialize_laws;
pub mod listing;
pub mod listing_laws;
pub mod listing_page_laws;
pub mod loading_laws;
pub mod lookup_laws;
pub mod meta_ids;
pub mod metadata;
pub mod metadata_laws;
pub mod name_map;
pub mod names;
pub mod numbering_laws;
pub mod occ;
pub mod operation_laws;
pub mod ordered;
pub mod plan_laws;
pub mod reading_laws;
pub mod registry;
pub mod retry;
pub mod retry_laws;
pub mod scan;
pub mod search;
pub mod search_laws;
pub mod shutdown;
pub mod snapshot;
pub mod sorted_names;
pub mod startup_laws;
pub mod storage;
pub mod storage_laws;
pub mod table_mapping;
pub mod text;
pub mod text_laws;
pub mod transaction_laws;
