//! Device-level logic: the 16550 serial port over the I/O port bus, the
//! console character device, and TLB invalidation requests.
use vstd::prelude::*;
use crate::error::KernelError;
use crate::interrupts::{InterruptConfig, InterruptDescriptor, TriggerMode};

verus! {

/// How a driver names the devices it handles: by a device-tree
/// `compatible` string.
#[derive(Debug, PartialEq, Eq, Hash, PartialOrd, Ord)]
pub enum DeviceMatchType {
    FdtCompatible(&'static str),
}

/// One access to the I/O port bus.
#[derive(Debug, Clone, Copy, PartialEq, Eq, Structural)]
pub enum PortAccess {
    /// A byte read from a port, and the byte that came back.
    In(u16, u8),
    /// A byte written to a port.
    Out(u16, u8),
}

/// The I/O port bus, described by the accesses made to it: every read
/// and write is appended to the record in order.
pub trait PortIo {
    /// The accesses made so far, in order.
    spec fn accesses(&self) -> Seq<PortAccess>;

    /// Read a byte from `port`.
    fn inb(&mut self, port: u16) -> (r: u8)
        ensures
            final(self).accesses() == old(self).accesses().push(PortAccess::In(port, r)),
    ;

    /// Write `value` to `port`.
    fn outb(&mut self, port: u16, value: u8)
        ensures
            final(self).accesses() == old(self).accesses().push(PortAccess::Out(port, value)),
    ;
}

/// A port bus that answers reads from a script and records every access
/// (a device model for exercising drivers).
pub struct ScriptedPorts {
    pub replies: Vec<u8>,
    pub next: usize,
    pub log: Vec<PortAccess>,
}

impl ScriptedPorts {
    /// A bus that answers successive reads with `replies`, then with 0.
    pub fn new(replies: Vec<u8>) -> (r: Self)
        ensures
            r.replies@ == replies@,
            r.next == 0,
            r.log@ == Seq::<PortAccess>::empty(),
    {
        ScriptedPorts { replies, next: 0, log: Vec::new() }
    }
}

impl PortIo for ScriptedPorts {
    open spec fn accesses(&self) -> Seq<PortAccess> {
        self.log@
    }

    fn inb(&mut self, port: u16) -> (r: u8) {
        let r = if self.next < self.replies.len() {
            let v = self.replies[self.next];
            self.next = self.next + 1;
            v
        } else {
            0
        };
        self.log.push(PortAccess::In(port, r));
        r
    }

    fn outb(&mut self, port: u16, value: u8) {
        self.log.push(PortAccess::Out(port, value));
    }
}

/// The machine's raw port bus: what a port read returns and what a port
/// write does are the hardware's business.
pub trait RawPortBus {
    /// Read a byte from `port`.
    fn read_port(&mut self, port: u16) -> u8;

    /// Write `value` to `port`.
    fn write_port(&mut self, port: u16, value: u8);
}

/// A port bus over a raw bus that records every access made through it.
pub struct RecordingPorts<R: RawPortBus> {
    pub raw: R,
    pub log: Vec<PortAccess>,
}

impl<R: RawPortBus> RecordingPorts<R> {
    /// The bus `raw`, with nothing recorded yet.
    pub fn new(raw: R) -> (r: Self)
        ensures
            r.log@ == Seq::<PortAccess>::empty(),
    {
        RecordingPorts { raw, log: Vec::new() }
    }
}

impl<R: RawPortBus> PortIo for RecordingPorts<R> {
    open spec fn accesses(&self) -> Seq<PortAccess> {
        self.log@
    }

    fn inb(&mut self, port: u16) -> (r: u8) {
        let r = self.raw.read_port(port);
        self.log.push(PortAccess::In(port, r));
        r
    }

    fn outb(&mut self, port: u16, value: u8) {
        self.raw.write_port(port, value);
        self.log.push(PortAccess::Out(port, value));
    }
}

/// Register offsets of a 16550 UART.
pub const THR_RBR: u16 = 0;
pub const IER: u16 = 1;
pub const IIR_FCR: u16 = 2;
pub const LCR: u16 = 3;
pub const MCR: u16 = 4;
pub const LSR: u16 = 5;
/// LSR: data ready.
pub const LSR_DR: u8 = 0x01;
/// LSR: transmit holding register empty.
pub const LSR_THRE: u8 = 0x20;
/// I/O base of COM1.
pub const COM1_BASE: u16 = 0x3F8;
/// Interrupt line of COM1.
pub const COM1_IRQ: usize = 4;

/// A 16550-compatible UART at an I/O port base.
pub struct Uart16550 {
    pub base: u16,
    pub name: &'static str,
}

/// The register writes that set a 16550 up: interrupts off, divisor 1
/// (115200 baud) through DLAB, 8N1, FIFOs enabled and cleared, DTR and
/// RTS set, and the receive interrupt enabled.
pub open spec fn uart_init_writes(base: u16) -> Seq<PortAccess> {
    seq![
        PortAccess::Out((base + IER) as u16, 0x00),
        PortAccess::Out((base + LCR) as u16, 0x80),
        PortAccess::Out((base + THR_RBR) as u16, 0x01),
        PortAccess::Out((base + IER) as u16, 0x00),
        PortAccess::Out((base + LCR) as u16, 0x03),
        PortAccess::Out((base + IIR_FCR) as u16, 0x07),
        PortAccess::Out((base + MCR) as u16, 0x03),
        PortAccess::Out((base + IER) as u16, 0x01),
    ]
}

/// What draining `n` received bytes looks like on the bus, after
/// `prefix`: for each byte a status read with data ready, then the data
/// read.
pub open spec fn rx_reads(trace: Seq<PortAccess>, base: u16, bytes: Seq<u8>) -> bool {
    &&& trace.len() == 2 * bytes.len()
    &&& forall|k: int|
        0 <= k < bytes.len() ==> {
            &&& (#[trigger] trace[2 * k]) matches PortAccess::In(p, s) && p == base + LSR && s & LSR_DR != 0
            &&& trace[2 * k + 1] == PortAccess::In((base + THR_RBR) as u16, bytes[k])
        }
}

impl Uart16550 {
    /// The driver for the UART at `base`, set up on `io`.
    pub fn new<P: PortIo>(base: u16, io: &mut P) -> (r: Self)
        requires
            base + 7 <= u16::MAX,
        ensures
            r.base == base,
            r.name@ == "uart16550"@,
            final(io).accesses() == old(io).accesses() + uart_init_writes(base),
    {
        let mut uart = Uart16550 { base, name: "uart16550" };
        uart.init(io);
        uart
    }

    /// Programme the UART (see `uart_init_writes`).
    pub fn init<P: PortIo>(&mut self, io: &mut P)
        requires
            old(self).base + 7 <= u16::MAX,
        ensures
            final(self).base == old(self).base,
            final(self).name == old(self).name,
            final(io).accesses() == old(io).accesses() + uart_init_writes(old(self).base),
    {
        let ghost a0 = io.accesses();
        let base = self.base;
        io.outb(base + IER, 0x00);
        io.outb(base + LCR, 0x80);
        // Divisor 1 (115200 baud): low byte 1, high byte 0.
        io.outb(base + THR_RBR, 0x01);
        io.outb(base + IER, 0x00);
        io.outb(base + LCR, 0x03);
        // FIFO enable, clear receive and transmit FIFOs.
        io.outb(base + IIR_FCR, 0x07);
        // DTR and RTS.
        io.outb(base + MCR, 0x03);
        io.outb(base + IER, 0x01);
        proof {
            assert(io.accesses() =~= a0 + uart_init_writes(base));
        }
    }

    /// Send `byte` if the transmitter can take it: read the line status
    /// and write the byte only when the holding register is empty. The
    /// result says whether the byte went out; the caller retries until it
    /// does.
    pub fn try_send<P: PortIo>(&self, io: &mut P, byte: u8) -> (r: bool)
        requires
            self.base + 7 <= u16::MAX,
        ensures
            exists|status: u8|
                {
                    &&& r == (status & LSR_THRE != 0)
                    &&& final(io).accesses() == if r {
                        old(io).accesses().push(PortAccess::In((self.base + LSR) as u16, status)).push(
                            PortAccess::Out((self.base + THR_RBR) as u16, byte),
                        )
                    } else {
                        old(io).accesses().push(PortAccess::In((self.base + LSR) as u16, status))
                    }
                },
    {
        let status = io.inb(self.base + LSR);
        if status & LSR_THRE == 0 {
            return false;
        }
        io.outb(self.base + THR_RBR, byte);
        true
    }

    /// Move received bytes into `buf` until it is full or no byte is
    /// waiting: each round reads the line status and, while data is
    /// ready, the receive register. Returns the number of bytes stored;
    /// the rest of `buf` is unchanged.
    pub fn drain_uart_rx<P: PortIo>(&mut self, io: &mut P, buf: &mut Vec<u8>) -> (r: usize)
        requires
            old(self).base + 7 <= u16::MAX,
        ensures
            final(self).base == old(self).base,
            r <= old(buf)@.len(),
            final(buf)@.len() == old(buf)@.len(),
            final(buf)@.skip(r as int) == old(buf)@.skip(r as int),
            final(io).accesses().len() >= old(io).accesses().len(),
            final(io).accesses().subrange(0, old(io).accesses().len() as int) == old(io).accesses(),
            ({
                let fresh = final(io).accesses().skip(old(io).accesses().len() as int);
                let got = final(buf)@.take(r as int);
                &&& r == old(buf)@.len() ==> rx_reads(fresh, old(self).base, got)
                &&& r < old(buf)@.len() ==> rx_reads(fresh.drop_last(), old(self).base, got) && fresh.len() > 0 && (
                fresh.last() matches PortAccess::In(p, s) && p == old(self).base + LSR && s & LSR_DR == 0)
            }),
    {
        let ghost a0 = io.accesses();
        let ghost b0 = buf@;
        let base = self.base;
        let mut bytes_read: usize = 0;
        while bytes_read < buf.len()
            invariant_except_break
                base + 7 <= u16::MAX,
                bytes_read <= buf@.len() == b0.len(),
                buf@.skip(bytes_read as int) == b0.skip(bytes_read as int),
                io.accesses().len() >= a0.len(),
                io.accesses().subrange(0, a0.len() as int) == a0,
                rx_reads(io.accesses().skip(a0.len() as int), base, buf@.take(bytes_read as int)),
            ensures
                bytes_read <= buf@.len() == b0.len(),
                buf@.skip(bytes_read as int) == b0.skip(bytes_read as int),
                io.accesses().len() >= a0.len(),
                io.accesses().subrange(0, a0.len() as int) == a0,
                bytes_read == b0.len() ==> rx_reads(io.accesses().skip(a0.len() as int), base, buf@.take(bytes_read as int)),
                bytes_read < b0.len() ==> rx_reads(io.accesses().skip(a0.len() as int).drop_last(), base, buf@.take(bytes_read as int))
                    && io.accesses().skip(a0.len() as int).len() > 0 && (io.accesses().skip(a0.len() as int).last() matches PortAccess::In(
                    p,
                    s,
                ) && p == base + LSR && s & LSR_DR == 0),
            decreases b0.len() - bytes_read,
        {
            let ghost before = io.accesses();
            let lsr = io.inb(base + LSR);
            if lsr & LSR_DR == 0 {
                proof {
                    assert(io.accesses().skip(a0.len() as int).drop_last() =~= before.skip(a0.len() as int));
                    assert(io.accesses().subrange(0, a0.len() as int) =~= a0);
                }
                break;
            }
            let ghost mid = io.accesses();
            let byte = io.inb(base + THR_RBR);
            let ghost bb = buf@;
            buf.set(bytes_read, byte);
            bytes_read = bytes_read + 1;
            proof {
                let fresh = io.accesses().skip(a0.len() as int);
                let got = buf@.take(bytes_read as int);
                assert(fresh =~= before.skip(a0.len() as int).push(PortAccess::In((base + LSR) as u16, lsr)).push(
                    PortAccess::In((base + THR_RBR) as u16, byte),
                ));
                assert(got =~= buf@.take(bytes_read - 1).push(byte));
                assert(buf@.take(bytes_read - 1) =~= old(buf)@.take(0).add(buf@.take(bytes_read - 1)));
                assert forall|k: int| 0 <= k < got.len() implies {
                    &&& (#[trigger] fresh[2 * k]) matches PortAccess::In(p, s) && p == base + LSR && s & LSR_DR != 0
                    &&& fresh[2 * k + 1] == PortAccess::In((base + THR_RBR) as u16, got[k])
                } by {
                    if k < got.len() - 1 {
                        assert(fresh[2 * k] == before.skip(a0.len() as int)[2 * k]);
                        assert(fresh[2 * k + 1] == before.skip(a0.len() as int)[2 * k + 1]);
                    }
                }
                assert forall|k: int| 0 <= k < buf@.len() - bytes_read implies buf@.skip(bytes_read as int)[k] == b0.skip(
                    bytes_read as int,
                )[k] by {
                    assert(bb.skip(bytes_read - 1)[k + 1] == b0.skip(bytes_read - 1)[k + 1]);
                }
                assert(buf@.skip(bytes_read as int) =~= b0.skip(bytes_read as int));
                assert(io.accesses().subrange(0, a0.len() as int) =~= a0);
            }
        }
        bytes_read
    }
}

/// The interrupt COM1 raises: line 4, edge-triggered.
pub fn uart16550_interrupt_config() -> (r: InterruptConfig)
    ensures
        r == (InterruptConfig { descriptor: InterruptDescriptor::Spi(COM1_IRQ), trigger: TriggerMode::EdgeRising }),
{
    InterruptConfig { descriptor: InterruptDescriptor::Spi(COM1_IRQ), trigger: TriggerMode::EdgeRising }
}

/// Set up the UART at COM1 on `io` as the console driver; it needs the
/// interrupt controller and the UART character device to exist.
pub fn uart16550_init<P: PortIo>(io: &mut P, interrupt_root_ready: bool, uart_chardev_ready: bool) -> (r: Result<
    Uart16550,
    KernelError,
>)
    ensures
        !interrupt_root_ready || !uart_chardev_ready ==> r == Err::<Uart16550, KernelError>(KernelError::NotSupported)
            && final(io).accesses() == old(io).accesses(),
        interrupt_root_ready && uart_chardev_ready ==> (r matches Ok(u) && u.base == COM1_BASE && final(io).accesses()
            == old(io).accesses() + uart_init_writes(COM1_BASE)),
{
    if !interrupt_root_ready {
        return Err(KernelError::NotSupported);
    }
    if !uart_chardev_ready {
        return Err(KernelError::NotSupported);
    }
    Ok(Uart16550::new(COM1_BASE, io))
}

/// A character device number.
#[derive(Debug, Clone, Copy, PartialEq, Eq, Structural)]
pub struct CharDevDescriptor {
    pub major: u64,
    pub minor: u64,
}

/// Where console output goes.
#[derive(Debug, Clone, Copy, PartialEq, Eq, Structural)]
pub enum ConsoleState {
    /// Output is buffered until a device registers.
    Buffered,
    /// A character device is the console.
    Device(CharDevDescriptor),
}

/// The devices of the console character driver.
#[derive(Debug, Clone, Copy, PartialEq, Eq, Structural)]
pub enum ConsoleDevice {
    /// `/dev/tty`: the task's controlling terminal.
    Tty,
    /// `/dev/console`: the kernel console.
    Console,
}

/// A device node to create.
pub struct DeviceNode {
    pub name: String,
    pub dev: CharDevDescriptor,
    pub mode: u16,
}

/// The console character driver.
pub struct ConsoleCharDev {
    pub major: u64,
}

impl ConsoleCharDev {
    /// The driver under `major`, with the nodes it creates: `console`
    /// (minor 1) and `tty` (minor 0), both mode 0600.
    pub fn new(major: u64) -> (r: (Self, Vec<DeviceNode>))
        ensures
            r.0.major == major,
            r.1@.len() == 2,
            r.1@[0].name@ == "console"@ && r.1@[0].dev == (CharDevDescriptor { major, minor: 1 }) && r.1@[0].mode == 0o600,
            r.1@[1].name@ == "tty"@ && r.1@[1].dev == (CharDevDescriptor { major, minor: 0 }) && r.1@[1].mode == 0o600,
    {
        let mut nodes: Vec<DeviceNode> = Vec::new();
        nodes.push(DeviceNode { name: "console".to_string(), dev: CharDevDescriptor { major, minor: 1 }, mode: 0o600 });
        nodes.push(DeviceNode { name: "tty".to_string(), dev: CharDevDescriptor { major, minor: 0 }, mode: 0o600 });
        (ConsoleCharDev { major }, nodes)
    }

    /// The device with minor number `minor`: 0 is the tty, 1 the
    /// console.
    pub fn get_device(&self, minor: u64) -> (r: Option<ConsoleDevice>)
        ensures
            r == (if minor == 0 {
                Some(ConsoleDevice::Tty)
            } else if minor == 1 {
                Some(ConsoleDevice::Console)
            } else {
                None::<ConsoleDevice>
            }),
    {
        match minor {
            0 => Some(ConsoleDevice::Tty),
            1 => Some(ConsoleDevice::Console),
            _ => None,
        }
    }
}

/// Initialise the console character driver: the driver to register
/// under `major` and the device nodes to create for it (see
/// `ConsoleCharDev::new`).
pub fn console_chardev_init(major: u64) -> (r: (ConsoleCharDev, Vec<DeviceNode>))
    ensures
        r.0.major == major,
        r.1@.len() == 2,
        r.1@[0].name@ == "console"@ && r.1@[0].dev == (CharDevDescriptor { major, minor: 1 }) && r.1@[0].mode == 0o600,
        r.1@[1].name@ == "tty"@ && r.1@[1].dev == (CharDevDescriptor { major, minor: 0 }) && r.1@[1].mode == 0o600,
{
    ConsoleCharDev::new(major)
}

/// Opening `/dev/console`: the console must have a device; that device's
/// driver (looked up by major, `driver_present`) must exist and have the
/// minor (`device_present`). The result is the device to open, or
/// `NoDevice`.
pub fn console_open_target(state: ConsoleState, driver_present: bool, device_present: bool) -> (r: Result<
    CharDevDescriptor,
    KernelError,
>)
    ensures
        r == (match state {
            ConsoleState::Buffered => Err(KernelError::NoDevice),
            ConsoleState::Device(d) => if driver_present && device_present {
                Ok(d)
            } else {
                Err(KernelError::NoDevice)
            },
        }),
{
    let desc = match state {
        ConsoleState::Buffered => {
            return Err(KernelError::NoDevice);
        },
        ConsoleState::Device(d) => d,
    };
    if !driver_present {
        return Err(KernelError::NoDevice);
    }
    if !device_present {
        return Err(KernelError::NoDevice);
    }
    Ok(desc)
}

/// A request to flush every TLB entry (by reloading CR3) when done.
pub struct AllTlbInvalidator {}

impl AllTlbInvalidator {
    pub fn new() -> (r: Self)
        ensures
            r == (AllTlbInvalidator {}),
    {
        AllTlbInvalidator {}
    }
}

/// A request to flush the TLB entry of one address (`invlpg`) when done.
pub struct SingleTlbInvalidator {
    pub addr: u64,
}

impl SingleTlbInvalidator {
    pub fn new(addr: u64) -> (r: Self)
        ensures
            r.addr == addr,
    {
        SingleTlbInvalidator { addr }
    }
}

} // verus!
