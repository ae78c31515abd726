//! The DesignWare USB3 device controller: its register map and the values
//! the driver writes while it sets the controller up.

use vstd::prelude::*;

verus! {

/// A USB gadget that a device controller serves.
pub trait USBGadget {
}

/// What the driver keeps of a controller: where its registers are, how many
/// ports of each speed it drives, and the size of its event buffer once
/// allocated.
#[derive(Clone, Copy, Debug, PartialEq, Eq, Structural)]
pub struct DWC3 {
    pub address: usize,
    pub event_buf_len: Option<usize>,
    pub num_usb3_ports: u32,
    pub num_usb2_ports: u32,
}

impl DWC3 {
    pub const EVENT_BUFFERS_SIZE: u32 = 4096;
    pub const GSBUSCFG0: u32 = 0xc100;
    pub const GCTL: u32 = 0xc110;
    pub const GSTS: u32 = 0xc118;
    pub const GSNPSID: u32 = 0xc120;
    pub const GUID: u32 = 0xc128;
    pub const GUSB3PIPECTL_UX_EXIT_PX: u32 = 0x0800_0000;
    pub const GUSB3PIPECTL_SUSPHY: u32 = 0x0002_0000;

    /// A controller at `address`, probed as one port of each speed, with no
    /// event buffer yet.
    pub fn new(address: usize) -> (r: Self)
        ensures
            r == (DWC3 { address, event_buf_len: None, num_usb3_ports: 1, num_usb2_ports: 1 }),
    {
        DWC3 { address, event_buf_len: None, num_usb3_ports: 1, num_usb2_ports: 1 }
    }

    /// The scale-down field of GCTL set to `n`: `n` shifted to bit 4, the
    /// bits shifted past bit 31 dropped.
    pub fn gctl_scaledown(n: u32) -> (r: u32)
        ensures
            r == n << 4u32,
    {
        n << 4u32
    }

    /// The offset of the USB3 PIPE control register of port `n`.
    pub fn gusb3pipectl(n: u32) -> (r: u32)
        requires
            0xc2c0 + n * 4 <= u32::MAX,
        ensures
            r == 0xc2c0 + n * 4,
    {
        0xc2c0 + n * 0x04
    }

    /// The offset of the low half of event buffer `n`'s address.
    pub fn gevntadrlo(n: u32) -> (r: u32)
        requires
            0xc400 + n * 0x10 <= u32::MAX,
        ensures
            r == 0xc400 + n * 0x10,
    {
        0xc400 + n * 0x10
    }

    /// The offset of the high half of event buffer `n`'s address.
    pub fn gevntadrhi(n: u32) -> (r: u32)
        requires
            0xc404 + n * 0x10 <= u32::MAX,
        ensures
            r == 0xc404 + n * 0x10,
    {
        0xc404 + n * 0x10
    }

    /// The offset of event buffer `n`'s size.
    pub fn gevntsiz(n: u32) -> (r: u32)
        requires
            0xc408 + n * 0x10 <= u32::MAX,
        ensures
            r == 0xc408 + n * 0x10,
    {
        0xc408 + n * 0x10
    }

    /// The offset of event buffer `n`'s event count.
    pub fn gevntcount(n: u32) -> (r: u32)
        requires
            0xc40c + n * 0x10 <= u32::MAX,
        ensures
            r == 0xc40c + n * 0x10,
    {
        0xc40c + n * 0x10
    }

    /// GCTL with the scale-down field cleared.
    pub fn global_control(gctl: u32) -> (r: u32)
        ensures
            r == gctl & !0x30u32,
    {
        let mask = Self::gctl_scaledown(3);
        assert(mask == 0x30u32) by (bit_vector)
            requires
                mask == 3u32 << 4u32,
        ;
        gctl & !mask
    }

    /// A USB3 PIPE control value with U1/U2 exit in P3 and PHY suspend cleared.
    pub fn ss_phy_control(reg: u32) -> (r: u32)
        ensures
            r == reg & !0x0800_0000u32 & !0x0002_0000u32,
    {
        reg & !Self::GUSB3PIPECTL_UX_EXIT_PX & !Self::GUSB3PIPECTL_SUSPHY
    }

    /// The values written to event buffer 0's registers for a buffer at
    /// physical address `dma` of `length` bytes: low and high halves of the
    /// address, and the low 32 bits of the length.
    pub fn event_buffer_registers(dma: u64, length: u64) -> (r: (u32, u32, u32))
        ensures
            r == ((dma % 0x1_0000_0000) as u32, (dma / 0x1_0000_0000) as u32, (length % 0x1_0000_0000) as u32),
    {
        ((dma % 0x1_0000_0000) as u32, (dma / 0x1_0000_0000) as u32, (length % 0x1_0000_0000) as u32)
    }
}

} // verus!
