use drivers::xhci_regs::{
    CapabilityRegs, LinkWrite, Port, PortFlags, Ring, RingStep, PORT_CHANGE_BITS,
    PORT_PRESERVED, PORT_SET_BITS,
};

#[test]
fn capability_fields() {
    let c = CapabilityRegs {
        hcs_params1: 0x0800_0040,
        hcs_params2: (3 << 27) | (1 << 26) | (2 << 21),
        hcc_params1: 0x0050_5005,
        hcc_params2: 0x30,
    };
    assert_eq!(c.max_ports(), 8);
    assert_eq!(c.max_slots(), 0x40);
    assert_eq!(c.max_scratchpad_bufs_lo(), 3);
    assert_eq!(c.max_scratchpad_bufs_hi(), 2);
    assert!(c.spr());
    assert_eq!(c.max_scratchpad_bufs(), 67);
    assert!(c.ac64());
    assert!(c.csz());
    assert_eq!(c.max_psa_size(), 5);
    assert_eq!(c.ext_caps_ptr_in_dwords(), 0x50);
    assert!(c.lec());
    assert!(c.cic());
    let z = CapabilityRegs { hcs_params1: 0, hcs_params2: 0, hcc_params1: 0, hcc_params2: 0 };
    assert!(!z.ac64() && !z.csz() && !z.lec() && !z.cic() && !z.spr());
}

#[test]
fn port_fields_and_write_values() {
    let p = Port { portsc: 0x0000_0A03 };
    assert_eq!(p.read(), 0xA03);
    assert_eq!(p.state(), 0);
    assert_eq!(p.speed(), 2);
    let all = Port { portsc: 0xFFFF_FFFF };
    assert_eq!(all.state(), 15);
    assert_eq!(all.flags_preserved(), 0x4E00_FFE9);
    assert_eq!(all.clear_csc(), 0x4E02_FFE9);
    assert_eq!(all.clear_prc(), 0x4E20_FFE9);
    assert_eq!(all.set_pr(), 0x4E00_FFF9);
    for v in [0u32, 0xA03, 0x00FE_0002, 0xFFFF_FFFF, 0x1234_5678] {
        let p = Port { portsc: v };
        assert_eq!(p.clear_csc() & PORT_CHANGE_BITS, PortFlags::CSC);
        assert_eq!(p.clear_prc() & PORT_CHANGE_BITS, PortFlags::PRC);
        assert_eq!(p.set_pr() & PORT_CHANGE_BITS, 0);
        assert_eq!(p.set_pr() & PORT_SET_BITS, PortFlags::PR);
        assert_eq!(p.clear_csc() & PORT_PRESERVED, v & PORT_PRESERVED);
    }
}

#[test]
fn linked_ring_skips_its_link_block() {
    let mut r = Ring::new(0x1000, 4, true);
    assert!(r.cycle);
    assert_eq!(r.next_index(), RingStep { index: 0, link_at: None });
    assert_eq!(r.next_index(), RingStep { index: 1, link_at: None });
    assert_eq!(r.next_index(), RingStep { index: 2, link_at: None });
    assert_eq!(
        r.next_index(),
        RingStep { index: 0, link_at: Some(LinkWrite { index: 3, cycle: true }) }
    );
    assert!(!r.cycle);
    assert_eq!(r.i, 1);
    assert_eq!(r.register(), 0x1010);
}

#[test]
fn unlinked_ring_wraps() {
    let mut r = Ring::new(0x2000, 2, false);
    assert_eq!(r.next_index().index, 0);
    assert_eq!(r.next_index().index, 1);
    assert_eq!(r.i, 0);
    assert_eq!(r.next_index().index, 0);
    assert!(!r.cycle);
}

#[test]
fn ring_addresses() {
    let r = Ring::new(0x1000, 4, true);
    assert_eq!(r.register(), 0x1001);
    assert_eq!(r.phys_addr_to_index(true, 0x1020), Some(2));
    assert_eq!(r.phys_addr_to_index(true, 0x0FF0), None);
    assert_eq!(r.phys_addr_to_index(true, 0x1030), Some(3));
    // Just past the last block: outside the ring.
    assert_eq!(r.phys_addr_to_index(true, 0x1040), None);
    assert_eq!(r.phys_addr_to_index(true, 0x1050), None);
    let high = Ring::new(0x1_0000_1000, 4, true);
    assert_eq!(high.phys_addr_to_index(false, 0x1010), Some(1));
    assert_eq!(high.trb_phys_ptr(false, 3), 0x1030);
    assert_eq!(high.trb_phys_ptr(true, 3), 0x1_0000_1030);
}
