//! Values that the xHCI driver reads from and writes to the controller: the
//! fields of the capability registers, the port status and control
//! register, and the positions in a TRB ring.

use vstd::prelude::*;

verus! {

/// Field extraction and write-back masks of 32-bit registers, as divisions,
/// remainders and bit tests.
pub proof fn lemma_xhci_register_fields()
    by (bit_vector)
    ensures
        forall|a: u32| #[trigger] ((a & 0xFF00_0000) >> 24u32) == a / 0x100_0000,
        forall|a: u32| #[trigger] (a & 0x0000_00FF) == a % 256,
        forall|a: u32| #[trigger] ((a & 0xF000) >> 12u32) == (a / 4096) % 16,
        forall|a: u32| #[trigger] ((a & 0xFFFF_0000) >> 16u32) == a / 65536,
        forall|a: u32| #[trigger] ((a & 0xF800_0000) >> 27u32) == a / 0x800_0000,
        forall|a: u32| #[trigger] ((a & 0x03E0_0000) >> 21u32) == (a / 0x20_0000) % 32,
        forall|a: u32| #[trigger] ((a & 0x1E0) >> 5u32) == (a / 32) % 16,
        forall|a: u32| #[trigger] ((a & 0x3C00) >> 10u32) == (a / 1024) % 16,
        forall|a: u32, m: u32| #[trigger] ((a & m) & m) == a & m,
        forall|a: u32, m: u32, b: u32| (m & b) == 0 ==> #[trigger] (((a & m) | b) & m) == a & m,
        forall|a: u32, m: u32, b: u32, c: u32|
            (m & c) == 0 ==> #[trigger] (((a & m) | b) & c) == b & c,
        forall|lo: u16, hi: u16| lo < 32 && hi < 32 ==> #[trigger] (lo | (hi << 5u16)) == lo + hi * 32,
        forall|a: u32| (#[trigger] (a & 0x0000_0001) != 0) == (a % 2 == 1),
        forall|a: u32| (#[trigger] (a & 0x0000_0004) != 0) == ((a / 4) % 2 == 1),
        forall|a: u32| (#[trigger] (a & 0x0000_0010) != 0) == ((a / 16) % 2 == 1),
        forall|a: u32| (#[trigger] (a & 0x0000_0020) != 0) == ((a / 32) % 2 == 1),
        forall|a: u32| (#[trigger] (a & 0x0400_0000) != 0) == ((a / 0x400_0000) % 2 == 1),
        0x4E00_FFE9u32 & 0x0002_0000u32 == 0,
        0x4E00_FFE9u32 & 0x0020_0000u32 == 0,
        0x4E00_FFE9u32 & 0x0000_0010u32 == 0,
        0x4E00_FFE9u32 & 0x00FE_0002u32 == 0,
        0x4E00_FFE9u32 & 0x8000_0010u32 == 0,
        0x0002_0000u32 & 0x00FE_0002u32 == 0x0002_0000u32,
        0x0020_0000u32 & 0x00FE_0002u32 == 0x0020_0000u32,
        0x0000_0010u32 & 0x00FE_0002u32 == 0,
        0x0002_0000u32 & 0x8000_0010u32 == 0,
        0x0020_0000u32 & 0x8000_0010u32 == 0,
        0x0000_0010u32 & 0x8000_0010u32 == 0x0000_0010u32,
{
}

pub const HCC_PARAMS1_AC64_BIT: u32 = 0x0000_0001;
pub const HCC_PARAMS1_CSZ_BIT: u32 = 0x0000_0004;
pub const HCC_PARAMS1_MAXPSASIZE_MASK: u32 = 0xF000;
pub const HCC_PARAMS1_XECP_MASK: u32 = 0xFFFF_0000;
pub const HCC_PARAMS2_LEC_BIT: u32 = 0x0000_0010;
pub const HCC_PARAMS2_CIC_BIT: u32 = 0x0000_0020;
pub const HCS_PARAMS1_MAX_PORTS_MASK: u32 = 0xFF00_0000;
pub const HCS_PARAMS1_MAX_SLOTS_MASK: u32 = 0x0000_00FF;
pub const HCS_PARAMS2_MAX_SCRATCHPAD_BUFS_LO_MASK: u32 = 0xF800_0000;
pub const HCS_PARAMS2_SPR_BIT: u32 = 0x0400_0000;
pub const HCS_PARAMS2_MAX_SCRATCHPAD_BUFS_HI_MASK: u32 = 0x03E0_0000;

/// The capability registers of a controller that the driver decodes, as
/// read.
#[derive(Clone, Copy, Debug, PartialEq, Eq, Structural)]
pub struct CapabilityRegs {
    pub hcs_params1: u32,
    pub hcs_params2: u32,
    pub hcc_params1: u32,
    pub hcc_params2: u32,
}

impl CapabilityRegs {
    /// 64-bit addressing (AC64, bit 0 of HCCPARAMS1).
    pub fn ac64(&self) -> (r: bool)
        ensures
            r == (self.hcc_params1 % 2 == 1),
    {
        proof {
            lemma_xhci_register_fields();
        }
        self.hcc_params1 & HCC_PARAMS1_AC64_BIT != 0
    }

    /// 64-byte contexts (CSZ, bit 2 of HCCPARAMS1).
    pub fn csz(&self) -> (r: bool)
        ensures
            r == ((self.hcc_params1 / 4) % 2 == 1),
    {
        proof {
            lemma_xhci_register_fields();
        }
        self.hcc_params1 & HCC_PARAMS1_CSZ_BIT != 0
    }

    /// Large ESIT payloads (LEC, bit 4 of HCCPARAMS2).
    pub fn lec(&self) -> (r: bool)
        ensures
            r == ((self.hcc_params2 / 16) % 2 == 1),
    {
        proof {
            lemma_xhci_register_fields();
        }
        self.hcc_params2 & HCC_PARAMS2_LEC_BIT != 0
    }

    /// Configuration information (CIC, bit 5 of HCCPARAMS2).
    pub fn cic(&self) -> (r: bool)
        ensures
            r == ((self.hcc_params2 / 32) % 2 == 1),
    {
        proof {
            lemma_xhci_register_fields();
        }
        self.hcc_params2 & HCC_PARAMS2_CIC_BIT != 0
    }

    /// The largest primary stream array size (bits 15:12 of HCCPARAMS1).
    pub fn max_psa_size(&self) -> (r: u8)
        ensures
            r == (self.hcc_params1 / 4096) % 16,
    {
        proof {
            lemma_xhci_register_fields();
        }
        ((self.hcc_params1 & HCC_PARAMS1_MAXPSASIZE_MASK) >> 12u32) as u8
    }

    /// The number of root hub ports (bits 31:24 of HCSPARAMS1).
    pub fn max_ports(&self) -> (r: u8)
        ensures
            r == self.hcs_params1 / 0x100_0000,
    {
        proof {
            lemma_xhci_register_fields();
        }
        ((self.hcs_params1 & HCS_PARAMS1_MAX_PORTS_MASK) >> 24u32) as u8
    }

    /// The number of device slots (bits 7:0 of HCSPARAMS1).
    pub fn max_slots(&self) -> (r: u8)
        ensures
            r == self.hcs_params1 % 256,
    {
        proof {
            lemma_xhci_register_fields();
        }
        (self.hcs_params1 & HCS_PARAMS1_MAX_SLOTS_MASK) as u8
    }

    /// Where the extended capabilities start, in dwords from the register
    /// base (bits 31:16 of HCCPARAMS1).
    pub fn ext_caps_ptr_in_dwords(&self) -> (r: u16)
        ensures
            r == self.hcc_params1 / 65536,
    {
        proof {
            lemma_xhci_register_fields();
        }
        ((self.hcc_params1 & HCC_PARAMS1_XECP_MASK) >> 16u32) as u16
    }

    /// The low five bits of the scratchpad buffer count (bits 31:27 of
    /// HCSPARAMS2).
    pub fn max_scratchpad_bufs_lo(&self) -> (r: u8)
        ensures
            r == self.hcs_params2 / 0x800_0000,
    {
        proof {
            lemma_xhci_register_fields();
        }
        ((self.hcs_params2 & HCS_PARAMS2_MAX_SCRATCHPAD_BUFS_LO_MASK) >> 27u32) as u8
    }

    /// Scratchpad restore (SPR, bit 26 of HCSPARAMS2).
    pub fn spr(&self) -> (r: bool)
        ensures
            r == ((self.hcs_params2 / 0x400_0000) % 2 == 1),
    {
        proof {
            lemma_xhci_register_fields();
        }
        self.hcs_params2 & HCS_PARAMS2_SPR_BIT != 0
    }

    /// The high five bits of the scratchpad buffer count (bits 25:21 of
    /// HCSPARAMS2).
    pub fn max_scratchpad_bufs_hi(&self) -> (r: u8)
        ensures
            r == (self.hcs_params2 / 0x20_0000) % 32,
    {
        proof {
            lemma_xhci_register_fields();
        }
        ((self.hcs_params2 & HCS_PARAMS2_MAX_SCRATCHPAD_BUFS_HI_MASK) >> 21u32) as u8
    }

    /// The number of scratchpad buffers the controller asks for.
    pub fn max_scratchpad_bufs(&self) -> (r: u16)
        ensures
            r == self.hcs_params2 / 0x800_0000 + ((self.hcs_params2 / 0x20_0000) % 32) * 32,
    {
        let lo = self.max_scratchpad_bufs_lo() as u16;
        let hi = self.max_scratchpad_bufs_hi() as u16;
        proof {
            lemma_xhci_register_fields();
        }
        lo | (hi << 5u16)
    }
}

/// The bits of the port status and control register.
pub struct PortFlags;

impl PortFlags {
    pub const CCS: u32 = 0x0000_0001;
    pub const PED: u32 = 0x0000_0002;
    pub const OCA: u32 = 0x0000_0008;
    pub const PR: u32 = 0x0000_0010;
    pub const PLS: u32 = 0x0000_01E0;
    pub const PP: u32 = 0x0000_0200;
    pub const SPEED: u32 = 0x0000_3C00;
    pub const PIC: u32 = 0x0000_C000;
    pub const LWS: u32 = 0x0001_0000;
    pub const CSC: u32 = 0x0002_0000;
    pub const PEC: u32 = 0x0004_0000;
    pub const WRC: u32 = 0x0008_0000;
    pub const OCC: u32 = 0x0010_0000;
    pub const PRC: u32 = 0x0020_0000;
    pub const PLC: u32 = 0x0040_0000;
    pub const CEC: u32 = 0x0080_0000;
    pub const CAS: u32 = 0x0100_0000;
    pub const WCE: u32 = 0x0200_0000;
    pub const WDE: u32 = 0x0400_0000;
    pub const WOE: u32 = 0x0800_0000;
    pub const DR: u32 = 0x4000_0000;
    pub const WPR: u32 = 0x8000_0000;
}

/// The read-only and read-write bits, which a write must give back as read:
/// CCS, OCA, PLS, PP, speed, PIC, WCE, WDE, WOE and DR.
pub const PORT_PRESERVED: u32 = 0x4E00_FFE9;

/// The write-one-to-clear bits: PED and the change bits CSC to CEC.
pub const PORT_CHANGE_BITS: u32 = 0x00FE_0002;

/// The write-one-to-set bits: PR and WPR.
pub const PORT_SET_BITS: u32 = 0x8000_0010;

/// A root hub port's status and control register, as read.
#[derive(Clone, Copy, Debug, PartialEq, Eq, Structural)]
pub struct Port {
    pub portsc: u32,
}

impl Port {
    /// The raw register value.
    pub fn read(&self) -> (r: u32)
        ensures
            r == self.portsc,
    {
        self.portsc
    }

    /// The port link state (bits 8:5).
    pub fn state(&self) -> (r: u8)
        ensures
            r == (self.portsc / 32) % 16,
    {
        proof {
            lemma_xhci_register_fields();
        }
        ((self.portsc & 0x1E0) >> 5u32) as u8
    }

    /// The port speed (bits 13:10).
    pub fn speed(&self) -> (r: u8)
        ensures
            r == (self.portsc / 1024) % 16,
    {
        proof {
            lemma_xhci_register_fields();
        }
        ((self.portsc & 0x3C00) >> 10u32) as u8
    }

    /// The bits that a write gives back unchanged.
    pub fn flags_preserved(&self) -> (r: u32)
        ensures
            r == self.portsc & PORT_PRESERVED,
    {
        self.portsc & PORT_PRESERVED
    }

    /// The value that acknowledges a connect status change: it keeps the
    /// preserved bits, clears CSC and no other change bit, and sets nothing.
    pub fn clear_csc(&self) -> (r: u32)
        ensures
            r == (self.portsc & PORT_PRESERVED) | PortFlags::CSC,
            r & PORT_PRESERVED == self.portsc & PORT_PRESERVED,
            r & PORT_CHANGE_BITS == PortFlags::CSC,
            r & PORT_SET_BITS == 0,
    {
        proof {
            lemma_xhci_register_fields();
        }
        self.flags_preserved() | PortFlags::CSC
    }

    /// The value that acknowledges a completed port reset: it keeps the
    /// preserved bits, clears PRC and no other change bit, and sets nothing.
    pub fn clear_prc(&self) -> (r: u32)
        ensures
            r == (self.portsc & PORT_PRESERVED) | PortFlags::PRC,
            r & PORT_PRESERVED == self.portsc & PORT_PRESERVED,
            r & PORT_CHANGE_BITS == PortFlags::PRC,
            r & PORT_SET_BITS == 0,
    {
        proof {
            lemma_xhci_register_fields();
        }
        self.flags_preserved() | PortFlags::PRC
    }

    /// The value that starts a port reset: it keeps the preserved bits, sets
    /// PR and nothing else, and clears no change bit.
    pub fn set_pr(&self) -> (r: u32)
        ensures
            r == (self.portsc & PORT_PRESERVED) | PortFlags::PR,
            r & PORT_PRESERVED == self.portsc & PORT_PRESERVED,
            r & PORT_CHANGE_BITS == 0,
            r & PORT_SET_BITS == PortFlags::PR,
    {
        proof {
            lemma_xhci_register_fields();
        }
        self.flags_preserved() | PortFlags::PR
    }
}

/// Size of a transfer request block.
pub const TRB_SIZE: usize = 16;

/// A ring of transfer request blocks, as the driver walks it: its length,
/// the physical address of its first block, the next block to hand out, the
/// current cycle bit, and whether its last block links back to the first.
#[derive(Clone, Copy, Debug, PartialEq, Eq, Structural)]
pub struct Ring {
    pub link: bool,
    pub len: usize,
    pub phys: u64,
    pub i: usize,
    pub cycle: bool,
}

/// A link block to write: at which index, with which cycle bit.
#[derive(Clone, Copy, Debug, PartialEq, Eq, Structural)]
pub struct LinkWrite {
    pub index: usize,
    pub cycle: bool,
}

/// A block handed out by a ring, and the link block written on the way
/// where the ring wrapped.
#[derive(Clone, Copy, Debug, PartialEq, Eq, Structural)]
pub struct RingStep {
    pub index: usize,
    pub link_at: Option<LinkWrite>,
}

impl Ring {
    /// The next index lies in the ring; a linked ring has a block besides
    /// its link block.
    pub open spec fn wf(&self) -> bool {
        &&& self.i < self.len
        &&& self.link ==> self.len >= 2
    }

    /// A ring of `len` blocks at `phys`, starting at its first block with
    /// the cycle bit set where it is linked.
    pub fn new(phys: u64, len: usize, link: bool) -> (r: Self)
        ensures
            r == (Ring { link, len, phys, i: 0, cycle: link }),
    {
        Ring { link, len, phys, i: 0, cycle: link }
    }

    /// The dequeue or enqueue pointer for the controller: the address of the
    /// next block with the cycle bit in bit 0.
    pub fn register(&self) -> (r: u64)
        requires
            self.phys + self.i * 16 <= u64::MAX,
        ensures
            r == ((self.phys + self.i * 16) as u64 | (if self.cycle { 1u64 } else { 0u64 })),
    {
        let addr = self.phys + (self.i as u64) * 16;
        addr | (if self.cycle { 1u64 } else { 0u64 })
    }

    /// Hands out the next block. Where the end of the ring is reached, the
    /// index goes back to the first block; on a linked ring the last block
    /// becomes a link block carrying the current cycle bit, the cycle bit
    /// flips, and the first block is handed out.
    pub fn next_index(&mut self) -> (r: RingStep)
        requires
            old(self).wf(),
        ensures
            final(self).wf(),
            final(self).len == old(self).len,
            final(self).link == old(self).link,
            final(self).phys == old(self).phys,
            r.index < old(self).len,
            old(self).i + 1 < old(self).len ==> {
                &&& r == (RingStep { index: old(self).i, link_at: None })
                &&& final(self).i == old(self).i + 1
                &&& final(self).cycle == old(self).cycle
            },
            old(self).i + 1 == old(self).len && !old(self).link ==> {
                &&& r == (RingStep { index: old(self).i, link_at: None })
                &&& final(self).i == 0
                &&& final(self).cycle == old(self).cycle
            },
            old(self).i + 1 == old(self).len && old(self).link ==> {
                &&& r == (RingStep { index: 0, link_at: Some(LinkWrite { index: old(self).i, cycle: old(self).cycle }) })
                &&& final(self).i == 1
                &&& final(self).cycle == !old(self).cycle
            },
            old(self).link ==> r.index + 1 < old(self).len,
    {
        let i = self.i;
        self.i = self.i + 1;
        if self.i >= self.len {
            self.i = 0;
            if self.link {
                let link_at = Some(LinkWrite { index: i, cycle: self.cycle });
                self.cycle = !self.cycle;
                let j = self.i;
                self.i = self.i + 1;
                return RingStep { index: j, link_at };
            }
        }
        RingStep { index: i, link_at: None }
    }

    /// The index of the block at physical address `paddr`, or `None` where
    /// the address lies outside the ring: before it (the base is cut to 32
    /// bits without 64-bit addressing) or at or past its end.
    pub fn phys_addr_to_index(&self, ac64: bool, paddr: u64) -> (r: Option<usize>)
        requires
            ({
                let base = if ac64 { self.phys } else { self.phys % 0x1_0000_0000 };
                paddr >= base ==> (paddr - base) % 16 == 0
            }),
        ensures
            ({
                let base = if ac64 { self.phys } else { self.phys % 0x1_0000_0000 };
                r == (if paddr < base || (paddr - base) / 16 >= self.len {
                    None
                } else {
                    Some(((paddr - base) / 16) as usize)
                })
            }),
    {
        let base = if ac64 { self.phys } else { self.phys % 0x1_0000_0000 };
        if paddr < base {
            return None;
        }
        let index = (paddr - base) / 16;
        if index >= self.len as u64 {
            return None;
        }
        Some(index as usize)
    }

    /// The physical address of block `index` of the ring (the base cut to
    /// 32 bits without 64-bit addressing).
    pub fn trb_phys_ptr(&self, ac64: bool, index: usize) -> (r: u64)
        requires
            index <= self.len,
            (if ac64 { self.phys } else { self.phys % 0x1_0000_0000 }) + index * 16 <= u64::MAX,
        ensures
            r == (if ac64 { self.phys } else { self.phys % 0x1_0000_0000 }) + index * 16,
    {
        let base = if ac64 { self.phys } else { self.phys % 0x1_0000_0000 };
        base + (index as u64) * 16
    }
}

} // verus!
