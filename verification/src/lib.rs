//! A TCP reachability probe library: port-range parsing, address-resolution
//! policy, timed probe bookkeeping, and per-port statistics.

mod decimal;
mod net;
mod ports;
mod session;
mod stats;

pub use decimal::dec_digits;
pub use decimal::digit_char;
pub use decimal::format_centi_percent;
pub use decimal::format_millis;
pub use decimal::millis_display;
pub use decimal::percent_display;
pub use decimal::u64_to_decimal;

pub use net::after_literal_attempt;
pub use net::after_lookup;
pub use net::literal_candidate;
pub use net::IpAddrRepr;
pub use net::ResolveError;
pub use net::ResolveStep;
pub use net::SocketAddrRepr;

pub use ports::all_tokens_valid;
pub use ports::errs_at_first_invalid;
pub use ports::lemma_decimal_digits_value;
pub use ports::lemma_port_token_round_trip;
pub use ports::parse_port_range;
pub use ports::port_in_range;
pub use ports::ports_in_order;
pub use ports::range_of_tokens;
pub use ports::split_dash;
pub use ports::token_error_is;
pub use ports::token_value;
pub use ports::valid_port_token;
pub use ports::PortError;
pub use ports::PortRange;

pub use session::summarize;
pub use session::PortSummary;
pub use session::ProbeSession;
pub use session::SessionAction;

pub use stats::lemma_statistics_invariants;
pub use stats::sum_micros;
pub use stats::ProbeStatistics;
