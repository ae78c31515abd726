//! Verified core logic of a family of storage and USB device drivers:
//! on-wire and in-memory record layouts (NVMe, SCSI, USB descriptors),
//! the decisions the drivers take on them, and the small state machines
//! (queue rings, HID report state) that the daemons drive.

pub mod ata;
pub mod bits;
pub mod block;
pub mod bot;
pub mod bytes;
pub mod decimal;
pub mod dwc3;
pub mod hid;
pub mod hid_input;
pub mod lived;
pub mod nvme;
pub mod partition;
pub mod port_id;
pub mod scsi;
pub mod sdhci;
pub mod usb;
pub mod xhci_drivers;
pub mod xhci_iface;
pub mod xhci_path;
pub mod xhci_regs;
pub mod xhci_scheme;
