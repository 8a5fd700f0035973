[package]
name = "flowtrack"
version = "0.1.0"
edition = "2021"
publish = false

[dependencies]
etherparse = "0.9"
eui48 = "0.4"
libc = "0.2"
log = "0.4"
pcap = "0.7"
simple_logger = "1"
termion = "1.5"
tui = "0.2"
