use vstd::prelude::*;

pub mod backend;
pub mod blocklist;
pub mod error;
pub mod forms;
pub mod models;
pub mod net;
pub mod pool;
pub mod table;
pub mod text;

pub use backend::app_error_from_query;
pub use blocklist::add_ip;
pub use blocklist::get_ip;
pub use blocklist::import_ips;
pub use blocklist::parse_nets;
pub use error::AppError;
pub use error::BackendError;
pub use error::DbError;
pub use forms::BlocklistIp;
pub use forms::BlocklistIpVersion;
pub use models::IpVersion;
pub use net::IpNet;
pub use pool::DbConnection;
pub use pool::Pool;
pub use table::Blocklist;
pub use text::parse_from_string;
pub use table::BlocklistTable;

verus! {

} // verus!
