use moss::devices::{PortIo, DeviceMatchType};
use moss::devices::{
    console_chardev_init, console_open_target, uart16550_init, uart16550_interrupt_config, AllTlbInvalidator, CharDevDescriptor,
    ConsoleCharDev, ConsoleDevice, ConsoleState, PortAccess, ScriptedPorts, SingleTlbInvalidator, Uart16550,
};
use moss::error::KernelError;
use moss::interrupts::{InterruptDescriptor, TriggerMode};

fn init_writes(base: u16) -> Vec<PortAccess> {
    vec![
        PortAccess::Out(base + 1, 0x00),
        PortAccess::Out(base + 3, 0x80),
        PortAccess::Out(base, 0x01),
        PortAccess::Out(base + 1, 0x00),
        PortAccess::Out(base + 3, 0x03),
        PortAccess::Out(base + 2, 0x07),
        PortAccess::Out(base + 4, 0x03),
        PortAccess::Out(base + 1, 0x01),
    ]
}

#[test]
fn uart_setup_sequence() {
    let mut ports = ScriptedPorts::new(vec![]);
    let u = Uart16550::new(0x2F8, &mut ports);
    assert_eq!(u.base, 0x2F8);
    assert_eq!(u.name, "uart16550");
    assert_eq!(ports.log, init_writes(0x2F8));
}

#[test]
fn uart_sends_only_when_the_transmitter_is_empty() {
    let mut ports = ScriptedPorts::new(vec![0x00, 0x20]);
    let u = Uart16550 { base: 0x3F8, name: "uart16550" };
    assert!(!u.try_send(&mut ports, b'x'));
    assert!(u.try_send(&mut ports, b'x'));
    assert_eq!(
        ports.log,
        vec![PortAccess::In(0x3FD, 0x00), PortAccess::In(0x3FD, 0x20), PortAccess::Out(0x3F8, b'x')]
    );
}

#[test]
fn uart_drains_until_no_data_is_ready() {
    let mut ports = ScriptedPorts::new(vec![0x01, b'a', 0x21, b'b', 0x60]);
    let mut u = Uart16550 { base: 0x3F8, name: "uart16550" };
    let mut buf = vec![0u8; 4];
    assert_eq!(u.drain_uart_rx(&mut ports, &mut buf), 2);
    assert_eq!(buf, vec![b'a', b'b', 0, 0]);
    assert_eq!(ports.log.len(), 5);
    assert_eq!(ports.log[4], PortAccess::In(0x3FD, 0x60));
}

#[test]
fn uart_drain_stops_when_the_buffer_is_full() {
    let mut ports = ScriptedPorts::new(vec![0x01, b'a', 0x01, b'b']);
    let mut u = Uart16550 { base: 0x3F8, name: "uart16550" };
    let mut buf = vec![0u8; 1];
    assert_eq!(u.drain_uart_rx(&mut ports, &mut buf), 1);
    assert_eq!(buf, vec![b'a']);
    assert_eq!(ports.log, vec![PortAccess::In(0x3FD, 0x01), PortAccess::In(0x3F8, b'a')]);
}

#[test]
fn uart_init_needs_its_services() {
    let mut ports = ScriptedPorts::new(vec![]);
    assert!(matches!(uart16550_init(&mut ports, false, true), Err(KernelError::NotSupported)));
    assert!(matches!(uart16550_init(&mut ports, true, false), Err(KernelError::NotSupported)));
    assert!(ports.log.is_empty());
    let u = uart16550_init(&mut ports, true, true).unwrap();
    assert_eq!(u.base, 0x3F8);
    assert_eq!(ports.log, init_writes(0x3F8));
    let c = uart16550_interrupt_config();
    assert_eq!(c.descriptor, InterruptDescriptor::Spi(4));
    assert_eq!(c.trigger, TriggerMode::EdgeRising);
}

#[test]
fn console_device_nodes_and_minors() {
    let (dev, nodes) = ConsoleCharDev::new(5);
    assert_eq!(dev.major, 5);
    assert_eq!(nodes[0].name, "console");
    assert_eq!(nodes[0].dev, CharDevDescriptor { major: 5, minor: 1 });
    assert_eq!(nodes[0].mode, 0o600);
    assert_eq!(nodes[1].name, "tty");
    assert_eq!(nodes[1].dev, CharDevDescriptor { major: 5, minor: 0 });
    assert_eq!(dev.get_device(0), Some(ConsoleDevice::Tty));
    assert_eq!(dev.get_device(1), Some(ConsoleDevice::Console));
    assert_eq!(dev.get_device(2), None);
}

#[test]
fn opening_the_console() {
    let d = CharDevDescriptor { major: 4, minor: 64 };
    assert_eq!(console_open_target(ConsoleState::Buffered, true, true), Err(KernelError::NoDevice));
    assert_eq!(console_open_target(ConsoleState::Device(d), false, true), Err(KernelError::NoDevice));
    assert_eq!(console_open_target(ConsoleState::Device(d), true, false), Err(KernelError::NoDevice));
    assert_eq!(console_open_target(ConsoleState::Device(d), true, true), Ok(d));
}

#[test]
fn tlb_invalidation_requests() {
    let _all = AllTlbInvalidator::new();
    assert_eq!(SingleTlbInvalidator::new(0x40_1000).addr, 0x40_1000);
}

#[test]
fn console_driver_initialisation() {
    let (dev, nodes) = console_chardev_init(5);
    assert_eq!(dev.major, 5);
    assert_eq!(nodes.len(), 2);
    assert_eq!(nodes[0].name, "console");
    assert_eq!(nodes[1].dev, CharDevDescriptor { major: 5, minor: 0 });
    assert_eq!(nodes[1].mode, 0o600);
}

struct EchoBus {
    last: u8,
}

impl moss::devices::RawPortBus for EchoBus {
    fn read_port(&mut self, _port: u16) -> u8 {
        self.last
    }

    fn write_port(&mut self, _port: u16, value: u8) {
        self.last = value;
    }
}

#[test]
fn recording_bus_logs_every_access() {
    let mut bus = moss::devices::RecordingPorts::new(EchoBus { last: 0 });
    bus.outb(0x3F8, 0x41);
    assert_eq!(bus.inb(0x3FD), 0x41);
    assert_eq!(bus.log, vec![PortAccess::Out(0x3F8, 0x41), PortAccess::In(0x3FD, 0x41)]);
}

#[test]
fn device_match_types_compare_by_compatible_string() {
    assert_eq!(DeviceMatchType::FdtCompatible("ns16550a"), DeviceMatchType::FdtCompatible("ns16550a"));
    assert!(DeviceMatchType::FdtCompatible("arm,pl011") < DeviceMatchType::FdtCompatible("ns16550a"));
}
