# drivers

The logic of a set of storage and USB device drivers, verified with Verus:
what the daemons compute and decide, separated from the register accesses,
DMA buffers and scheme I/O around it.

## Layout

- `src/` — the verified library, one module per area:
  - storage: `ata` (AHCI/IDE commands, identify data, ATAPI reads, port and
    slot decoding), `block` (partition-relative block access, disk scheme
    paths, listings and stat), `partition` (MBR and GPT tables), `lived`
    (RAM-overlaid live disk), `nvme` (identify structures, queues, command
    chunking, completion bookkeeping), `scsi` (SCSI commands and responses,
    mode pages, the disk scheme of USB mass storage), `bot` (USB bulk-only
    transport wrappers and status), `sdhci` (SD host clock and card setup);
  - USB: `usb` (setup packets, descriptors, BOS, hub port status), `port_id`
    (port identifiers and their text form), `xhci_iface` (the interface the
    xHCI daemon offers class drivers), `xhci_regs` (capability and port
    registers, command and transfer rings), `xhci_scheme` (descriptor
    parsing, endpoint state machines, device and endpoint contexts, transfer
    planning, port requests), `xhci_path` (the scheme's path grammar),
    `xhci_drivers` (choosing class drivers and their command lines), `hid`
    and `hid_input` (HID report descriptors and input reports), `dwc3`
    (DWC3 register values);
  - shared: `bytes`, `bits`, `decimal`.
- `tests/` — tests of the library on concrete values.
- `app/` — a small command-line tool over the library: reads partition
  tables from disk images, HID report descriptors, and scheme paths.
