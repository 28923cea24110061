//! Wire-format codec for a simplified DNS message: the fixed header, domain
//! names with compression pointers, questions, and the synthesized response.

pub mod error;
pub mod header;
pub mod name;
pub mod query;
pub mod response;

pub use error::DnsError;
pub use header::{parse_header, DnsHeader, HEADER_SIZE};
pub use name::{parse_label_sequence, MAX_POINTER_HOPS};
pub use query::{parse_query, DnsQuery};
pub use response::{build_response, choose_reply, resolve_local};
