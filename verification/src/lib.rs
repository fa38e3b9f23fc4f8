//! Verified core of the Noted desktop and iOS security library.
pub mod analytics;
pub mod applecal;
pub mod approval_broker;
pub mod backup;
pub mod base64_codec;
pub mod brain;
pub mod canonical;
pub mod category_schema;
pub mod context_packet;
pub mod context_pass;
pub mod db;
pub mod digest;
pub mod direct_authority_store;
pub mod direct_pairing;
pub mod direct_pairing_delivery;
pub mod error;
pub mod fixture_record_crypto;
pub mod models;
pub mod record_crypto;
pub mod text;
