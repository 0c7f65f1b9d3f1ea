//! The AMD PCnet network card's descriptor rings and registers.
use vstd::prelude::*;

verus! {

/// Bytes of one transmit or receive buffer.
pub const BUFFER_ENTRY_SIZE: u32 = 2048;

/// The buffer-size field of a descriptor: the two's complement of the
/// buffer size in the low twelve bits, with bits 12-15 set.
pub const BUFFER_SIZE_MASK: u32 = 0xF800;

/// Descriptors per ring.
pub const SEND_BUFFER_CNT: usize = 8;
pub const RECV_BUFFER_CNT: usize = 8;

/// The descriptor's ownership bit: set while the card owns it.
pub const DESC_OWN: u32 = 0x8000_0000;

/// The card's IPv4 address, 192.168.1.100, as the card stores it.
pub const IP_ADDR: u32 = 0x6401_A8C0;

/// Why a frame was not sent.
#[derive(Clone, Copy, Debug, PartialEq, Eq, Structural)]
pub enum SendError {
    BufferFull,
}

/// A ring descriptor.
#[derive(Clone, Copy, Debug, PartialEq, Eq, Structural)]
pub struct BufferDescriptor {
    pub address: u32,
    pub flags: u32,
    pub flags_2: u32,
    pub avail: u32,
}

/// The I/O port base of the card.
pub struct PCNETIOPort(pub u16);

impl PCNETIOPort {
    /// The register address port.
    pub fn rap_port(&self) -> (p: u16)
        requires
            self.0 + 0x1C <= u16::MAX,
        ensures
            p == self.0 + 0x14,
    {
        self.0 + 0x14
    }

    /// The control and status register data port.
    pub fn rdp_port(&self) -> (p: u16)
        requires
            self.0 + 0x1C <= u16::MAX,
        ensures
            p == self.0 + 0x10,
    {
        self.0 + 0x10
    }

    /// The bus configuration register data port.
    pub fn bdp_port(&self) -> (p: u16)
        requires
            self.0 + 0x1C <= u16::MAX,
        ensures
            p == self.0 + 0x1C,
    {
        self.0 + 0x1C
    }

    /// The reset port.
    pub fn reset_port(&self) -> (p: u16)
        requires
            self.0 + 0x1C <= u16::MAX,
        ensures
            p == self.0 + 0x18,
    {
        self.0 + 0x18
    }
}

/// The MAC address from the two address ports: the low four bytes, then
/// the low two bytes of the second port.
pub fn mac_from_ports(low: u32, high: u32) -> (mac: u64)
    ensures
        mac == (high % 65536) * 4294967296 + low,
{
    let mac = low as u64;
    let mac2 = high as u64 & 0xFFFF;
    let h = high as u64;
    assert(h & 0xFFFF == h % 65536) by (bit_vector);
    assert((mac2 << 32u64) | mac == mac2 * 4294967296 + mac) by (bit_vector)
        requires
            mac2 < 65536,
            mac < 4294967296,
    ;
    mac2 << 32 | mac
}

/// CSR58 set to 32-bit software style: the low byte becomes 2.
pub fn software_style_32(csr58: u32) -> (v: u32)
    ensures
        v == (csr58 / 256 % 256) * 256 + 2,
{
    let c = csr58;
    assert((c & 0xFF00) | 2 == (c / 256 % 256) * 256 + 2) by (bit_vector);
    (csr58 & 0xFF00) | 2
}

/// The flags of a transmit descriptor handed to the card for a frame of
/// `len` bytes: owned by the card, start and end of packet, the must-be-ones
/// bits, and the two's complement of the length.
pub fn send_descriptor_flags(len: usize) -> (f: u32)
    requires
        0 < len <= BUFFER_ENTRY_SIZE,
    ensures
        f == 0x8300_F000u32 | (65536 - len) as u32,
{
    let low = (65536 - len) as u32;
    0x8300F000 | low
}

/// The first transmit descriptor that the driver owns, if any.
pub fn find_free_send_descriptor(descs: &[BufferDescriptor]) -> (r: Option<usize>)
    ensures
        match r {
            Some(i) => i < descs@.len() && descs@[i as int].flags & DESC_OWN == 0 && forall|j: int|
                0 <= j < i ==> descs@[j].flags & DESC_OWN != 0,
            None => forall|j: int| 0 <= j < descs@.len() ==> descs@[j].flags & DESC_OWN != 0,
        },
{
    let mut i: usize = 0;
    while i < descs.len()
        invariant
            0 <= i <= descs@.len(),
            forall|j: int| 0 <= j < i ==> descs@[j].flags & DESC_OWN != 0,
        decreases descs@.len() - i,
    {
        if descs[i].flags & DESC_OWN == 0 {
            return Some(i);
        }
        i = i + 1;
    }
    None
}

/// What to do with a receive descriptor. One the card still owns is left
/// alone. One the driver owns is handed back to the card; if it holds a
/// good frame (no error bit, start or end of packet set) the frame of the
/// given length is delivered first.
#[derive(Clone, Copy, Debug, PartialEq, Eq, Structural)]
pub enum ReceiveAction {
    Skip,
    Recycle,
    Deliver { size: usize },
}

/// Decides what to do with a receive descriptor.
pub fn receive_action(flags: u32, flags_2: u32) -> (a: ReceiveAction)
    ensures
        flags & DESC_OWN != 0 ==> a == ReceiveAction::Skip,
        flags & DESC_OWN == 0 && flags & 0x4000_0000 == 0 && flags & 0x0300_0000 > 0 ==> a
            == (ReceiveAction::Deliver { size: (flags_2 % 65536) as usize }),
        flags & DESC_OWN == 0 && !(flags & 0x4000_0000 == 0 && flags & 0x0300_0000 > 0) ==> a
            == ReceiveAction::Recycle,
{
    if flags & 0x80000000 == 0 {
        if flags & 0x40000000 == 0 && flags & 0x03000000 > 0 {
            let f2 = flags_2;
            assert(f2 & 0xFFFF == f2 % 65536) by (bit_vector);
            ReceiveAction::Deliver { size: (flags_2 & 0xFFFF) as usize }
        } else {
            ReceiveAction::Recycle
        }
    } else {
        ReceiveAction::Skip
    }
}

/// A receive descriptor handed back to the card.
pub fn recycled_descriptor(d: BufferDescriptor) -> (r: BufferDescriptor)
    ensures
        r == (BufferDescriptor { flags: DESC_OWN | BUFFER_SIZE_MASK, flags_2: 0, ..d }),
{
    BufferDescriptor { flags: 0x80000000 | BUFFER_SIZE_MASK, flags_2: 0, ..d }
}

/// The causes of an interrupt, from CSR0.
#[derive(Clone, Copy, Debug, PartialEq, Eq, Structural)]
pub struct Csr0Events {
    pub error: bool,
    pub collision: bool,
    pub missed_frame: bool,
    pub memory_error: bool,
    pub received: bool,
    pub sent: bool,
    pub init_done: bool,
}

/// Decodes the interrupt causes of CSR0.
pub fn csr0_events(csr0: u32) -> (e: Csr0Events)
    ensures
        e.error == (csr0 & 0x8000 > 0),
        e.collision == (csr0 & 0x2000 > 0),
        e.missed_frame == (csr0 & 0x1000 > 0),
        e.memory_error == (csr0 & 0x800 > 0),
        e.received == (csr0 & 0x400 > 0),
        e.sent == (csr0 & 0x200 > 0),
        e.init_done == (csr0 & 0x100 > 0),
{
    Csr0Events {
        error: csr0 & 0x8000 > 0,
        collision: csr0 & 0x2000 > 0,
        missed_frame: csr0 & 0x1000 > 0,
        memory_error: csr0 & 0x800 > 0,
        received: csr0 & 0x400 > 0,
        sent: csr0 & 0x200 > 0,
        init_done: csr0 & 0x100 > 0,
    }
}

/// CSR0 with interrupts disabled (IENA cleared) while the handler runs.
pub fn interrupts_held(csr0: u32) -> (v: u32)
    ensures
        v == csr0 & !0x40u32,
{
    csr0 & !0x40
}

/// The log2 of the descriptors per ring, as the initialization block
/// gives it.
pub const BUFFER_CNT_LOG: u8 = 3;

/// The bytes of the initialization block.
pub const INIT_BLOCK_SIZE: u32 = 28;

/// The bytes of a ring descriptor.
pub const DESCRIPTOR_SIZE: u32 = 16;

/// Whether a PCI device is the PCnet card the driver handles.
pub fn is_supported_device(vendor_id: u16, device_id: u16) -> (b: bool)
    ensures
        b == (vendor_id == 0x1022 && device_id == 0x2000),
{
    vendor_id == 0x1022 && device_id == 0x2000
}

/// The block the card reads when it initializes: its mode, the sizes of the
/// rings, its MAC and IP addresses, and where the rings are.
#[derive(Clone, Copy, Debug, PartialEq, Eq, Structural)]
pub struct InitBlock {
    pub mode: u16,
    pub num_send_buffers: u8,
    pub num_recv_buffers: u8,
    pub physical_address: u64,
    pub logical_address: u64,
    pub recv_buffer_desc_addr: u32,
    pub send_buffer_desc_addr: u32,
}

/// The layout of the page that holds the initialization block and the two
/// rings: the block first, then the send ring, then the receive ring.
#[derive(Clone, Copy, Debug, PartialEq, Eq, Structural)]
pub struct RingLayout {
    pub init_block: u32,
    pub send_ring: u32,
    pub recv_ring: u32,
    pub end: u32,
}

/// Lays out the block and the rings in the page at `page`.
pub fn ring_layout(page: u32) -> (l: RingLayout)
    requires
        page <= u32::MAX - 0x1000,
    ensures
        l.init_block == page,
        l.send_ring == page + INIT_BLOCK_SIZE,
        l.recv_ring == l.send_ring + DESCRIPTOR_SIZE * SEND_BUFFER_CNT,
        l.end == l.recv_ring + DESCRIPTOR_SIZE * RECV_BUFFER_CNT,
        l.end <= page + 0x1000,
{
    let send_ring = page + INIT_BLOCK_SIZE;
    let recv_ring = send_ring + DESCRIPTOR_SIZE * SEND_BUFFER_CNT as u32;
    RingLayout {
        init_block: page,
        send_ring,
        recv_ring,
        end: recv_ring + DESCRIPTOR_SIZE * RECV_BUFFER_CNT as u32,
    }
}

/// The initialization block: not promiscuous, eight descriptors in each
/// ring, the card's MAC, the fixed IP address, and the rings of the layout.
pub fn init_block(mac: u64, layout: &RingLayout) -> (b: InitBlock)
    ensures
        b == (InitBlock {
            mode: 0,
            num_send_buffers: BUFFER_CNT_LOG,
            num_recv_buffers: BUFFER_CNT_LOG,
            physical_address: mac,
            logical_address: IP_ADDR as u64,
            recv_buffer_desc_addr: layout.recv_ring,
            send_buffer_desc_addr: layout.send_ring,
        }),
{
    InitBlock {
        mode: 0,
        num_send_buffers: BUFFER_CNT_LOG,
        num_recv_buffers: BUFFER_CNT_LOG,
        physical_address: mac,
        logical_address: IP_ADDR as u64,
        recv_buffer_desc_addr: layout.recv_ring,
        send_buffer_desc_addr: layout.send_ring,
    }
}

/// A ring's descriptors: each page holds two buffers, at its start and
/// half-way; send descriptors start owned by the driver, receive
/// descriptors by the card.
pub fn descriptor_ring(pages: &Vec<u32>, recv: bool) -> (d: Vec<BufferDescriptor>)
    requires
        forall|i: int| 0 <= i < pages@.len() ==> pages@[i] <= u32::MAX - 2048,
    ensures
        d@.len() == 2 * pages@.len(),
        forall|i: int|
            0 <= i < d@.len() ==> #[trigger] d@[i] == (BufferDescriptor {
                address: (pages@[i / 2] + 2048 * (i % 2)) as u32,
                flags: if recv {
                    BUFFER_SIZE_MASK | DESC_OWN
                } else {
                    BUFFER_SIZE_MASK
                },
                flags_2: 0,
                avail: 0,
            }),
{
    let flags = if recv {
        BUFFER_SIZE_MASK | DESC_OWN
    } else {
        BUFFER_SIZE_MASK
    };
    let mut d: Vec<BufferDescriptor> = Vec::new();
    let mut i: usize = 0;
    while i < pages.len()
        invariant
            i <= pages@.len(),
            d@.len() == 2 * i,
            forall|k: int| 0 <= k < pages@.len() ==> pages@[k] <= u32::MAX - 2048,
            flags == if recv {
                BUFFER_SIZE_MASK | DESC_OWN
            } else {
                BUFFER_SIZE_MASK
            },
            forall|k: int|
                0 <= k < d@.len() ==> #[trigger] d@[k] == (BufferDescriptor {
                    address: (pages@[k / 2] + 2048 * (k % 2)) as u32,
                    flags,
                    flags_2: 0,
                    avail: 0,
                }),
        decreases pages.len() - i,
    {
        let p = pages[i];
        d.push(BufferDescriptor { address: p, flags, flags_2: 0, avail: 0 });
        d.push(BufferDescriptor { address: p + 2048, flags, flags_2: 0, avail: 0 });
        proof {
            assert forall|k: int| 0 <= k < d@.len() implies #[trigger] d@[k] == (BufferDescriptor {
                address: (pages@[k / 2] + 2048 * (k % 2)) as u32,
                flags,
                flags_2: 0,
                avail: 0,
            }) by {
                if k >= 2 * i {
                    assert(k / 2 == i);
                }
            }
        }
        i += 1;
    }
    d
}

/// The values written to CSR1 and CSR2 to give the card the block's
/// address: CSR1 gets the whole address, CSR2 its upper half.
pub fn init_block_registers(addr: u32) -> (r: (u32, u32))
    ensures
        r.0 == addr,
        r.1 == addr / 0x10000,
{
    assert(addr >> 16 == addr / 0x10000) by (bit_vector);
    (addr, addr >> 16)
}

/// Whether CSR0 shows the initialization done (bit 7).
pub fn init_done(csr0: u32) -> (b: bool)
    ensures
        b == ((csr0 / 0x80) % 2 == 1),
{
    assert(csr0 & 0x80 != 0 <==> (csr0 / 0x80) % 2 == 1) by (bit_vector);
    csr0 & 0x80 != 0
}

/// The CSR0 value the card must show once initialized: done, interrupt,
/// and init.
pub const CSR0_AFTER_INIT: u32 = 0b1_1000_0001;

/// The CSR0 value that starts the card with interrupts enabled.
pub const CSR0_START: u32 = 0x42;

} // verus!
