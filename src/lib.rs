//! Turns a declarative description of a site's DHCP service into the
//! configuration file of a dnsmasq-family daemon.
pub mod config;
pub mod emit;
pub mod driver;
pub mod load;
