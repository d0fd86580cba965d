pub mod cycle;
pub mod server;
pub mod status;

pub use status::LinkEvent;
pub use status::NodeStat;
