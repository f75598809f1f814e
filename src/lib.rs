//! Host-side control of an FPGA card's management system and AXI firewall,
//! built on word-granular register reads and writes.
pub mod axi_firewall;
pub mod cms;
pub mod sim;
pub mod transport;
