//! Resolution of IP addresses to geolocation and network-ownership records
//! over MaxMind DB readers.
//!
//! An identifier is parsed as an address ([`address`]; [`spelling`] holds
//! what is proved of the syntax), looked up in the city database and, where
//! there is one, in the ASN database ([`store`]); what the databases hold is
//! normalized into one record ([`record`]). A single lookup answers for the
//! address a request names or for the one its proxy headers give
//! ([`resolve`]); a batch resolves every identifier on its own and collects
//! records and errors side by side ([`batch`]), each in a [`dictionary`].

pub mod address;
pub mod batch;
pub mod dictionary;
pub mod record;
pub mod resolve;
pub mod spelling;
pub mod store;
pub mod text;

pub use crate::address::{parse_ip, IpAddress};
pub use crate::batch::{batch_lookup, BatchLookupRequest, BatchLookupResponse};
pub use crate::dictionary::Dictionary;
pub use crate::record::{GeoData, Number, RawAsnRecord, RawCityRecord};
pub use crate::resolve::{get_ip, lookup, lookup_ip, Error, LookupReply};
pub use crate::store::{load_databases, Database, DatabaseLoadError, Databases};
