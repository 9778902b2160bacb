//! IP addresses: which may be published, their textual forms, reading them
//! from text, and choosing one among the host's interface addresses.

pub mod addr;
pub mod format;
pub mod host;
pub mod parse;
pub mod round_trip;

pub use addr::{is_eligible_ipv4, is_eligible_ipv6, IpAddr, Ipv4Addr, Ipv6Addr};
pub use format::{ip_text, ipv4_text, ipv6_text};
pub use host::{
    families_to_fetch, is_main_interface, select_system_ipv4, select_system_ipv6, InterfaceEntry,
};
pub use parse::{parse_ipv4, parse_ipv4_web_response, parse_ipv6, parse_ipv6_web_response};
