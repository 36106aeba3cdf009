[package]
name = "capucho_os"
version = "0.1.0"
edition = "2021"
publish = false

[dependencies]
x86_64 = { version = "=0.15.5", default-features = false, features = ["instructions"] }
bootloader = "=0.9.35"
spin = "=0.9.9"
log = "=0.4.34"
bitflags = "1"
lazy_static = "1"
buddy_system_allocator = "=0.8.0"
pc-keyboard = "*"
pci_types = "=0.3.0"
acpi = "=3.1.0"
