//! Tests of the device-register decodings: AHCI and SATA capability and
//! status words, APIC redirection entries, PCI configuration addresses,
//! ACPI sleep-state values, and interrupt routing.

use capucho_os::acpi::{sleep_typ_values, slp_command, SleepState, SLP_EN};
use capucho_os::ahci;
use capucho_os::apic::{Apic, DeliveryMode, IOApic, InterruptSourceOverride, RedirEntry};
use capucho_os::interrupts::controller::{EndOfInterrupt, InterruptController};
use capucho_os::interrupts::{InterruptIndex, PIC_1_OFFSET, PIC_2_OFFSET};
use capucho_os::pci::{config_address, offset_aligned};
use capucho_os::sata;
use capucho_os::QemuExitCode;

#[test]
fn ahci_capability_fields() {
    let cap = ahci::HBACapabilities::new(5 | (7 << 8) | (2 << 20));
    assert_eq!(cap.number_of_ports(), 5);
    assert_eq!(cap.number_of_cmd_slots(), 7);
    assert_eq!(cap.if_speed(), ahci::InterfaceSpeed::Gen2);
    assert_eq!(
        ahci::HBACapabilities::new(3 << 20).if_speed(),
        ahci::InterfaceSpeed::Gen3,
    );
    assert_eq!(
        ahci::HBACapabilities::new(9 << 20).if_speed(),
        ahci::InterfaceSpeed::Reserved,
    );
}

#[test]
fn ahci_status_port_decodes() {
    let status = ahci::StatusPort::new(0x3 | (2 << 4) | (1 << 8));
    assert_eq!(status.detection(), ahci::DeviceDetection::Device);
    assert_eq!(status.if_speed(), ahci::InterfaceSpeed::Gen2);
    assert_eq!(
        status.if_power_management(),
        ahci::InterfacePowerManagement::Active,
    );
    assert_eq!(
        ahci::StatusPort::new(8 << 8).if_power_management(),
        ahci::InterfacePowerManagement::DevSleep,
    );
    assert!(status.detection().has_device());
    assert!(ahci::DeviceDetection::DeviceNoPhy.has_device());
    assert!(!ahci::DeviceDetection::NoDevice.has_device());
    assert!(!ahci::DeviceDetection::InterfaceDisabled.has_device());
}

#[test]
fn ahci_port_addresses_round_trip() {
    let mut port = ahci::HBAPortRegisters::new();
    assert_eq!(port.cmd_list_addr(), 0);
    port.set_cmd_list_addr(0x1_2345_6C00);
    assert_eq!(port.cmd_list_addr(), 0x1_2345_6C00);
    assert_eq!(port.fis_addr(), 0);
    port.set_fb_list_addr(0xABCD_E400);
    assert_eq!(port.fis_addr(), 0xABCD_E400);
    assert_eq!(port.cmd_list_addr(), 0x1_2345_6C00);
}

#[test]
fn ahci_port_count_is_popcount() {
    let mut regs = ahci::HBAMemoryRegisters {
        cap: ahci::HBACapabilities::new(0),
        ghc: ahci::GlobalHBAControl { bits: 0 },
        int_status: 0,
        port_implemented: 0b1011,
        version: 0,
        ccc_ctl: 0,
        ccc_ports: 0,
        em_loc: 0,
        em_ctl: 0,
        cap_ext: 0,
        bohc: 0,
    };
    assert_eq!(regs.port_count(), 3);
    regs.port_implemented = 0;
    assert_eq!(regs.port_count(), 0);
    regs.port_implemented = u32::MAX;
    assert_eq!(regs.port_count(), 32);
}

#[test]
fn sata_capability_fields() {
    let cap = sata::HBACapabilities::new(4 | (31 << 8) | (1 << 20));
    assert_eq!(cap.number_of_ports(), 4);
    assert_eq!(cap.number_of_cmd_slots(), 31);
    assert_eq!(cap.if_speed(), sata::InterfaceSpeed::Gen1);
}

#[test]
fn sata_port_addresses() {
    let mut port = sata::HBAPortRegisters {
        clb: 0,
        clbu: 0,
        fb: 0xE400,
        fbu: 0x1,
        int_status: 0,
        int_enable: 0,
        cmd: 0,
        tfd: 0,
        sig: 0,
        ssts: 0,
        sctl: 0,
        serr: 0,
        sact: 0,
        cmd_issue: 0,
        sntf: 0,
        fbs: 0,
    };
    assert_eq!(port.fis_addr(), 0x1_0000_E400);
    port.set_cmd_list_addr(0x7_6543_2800);
    assert_eq!(port.cmd_list_addr(), 0x7_6543_2800);
    assert_eq!(port.fis_addr(), 0x1_0000_E400);
}

#[test]
fn redir_entry_fields() {
    let mut entry = RedirEntry::new(0x2F);
    assert_eq!(entry.vector(), 0x2F);
    assert_eq!(entry.bits(), 0x2F);
    entry.set_vector(0x10);
    // Setting ors the bits in.
    assert_eq!(entry.vector(), 0x3F);

    let entry = RedirEntry::from_bits(1 << 8);
    assert_eq!(entry.delivery_mode(), DeliveryMode::LowPriority);
    let entry = RedirEntry::from_bits(7 << 8);
    assert_eq!(entry.delivery_mode(), DeliveryMode::External);
    let entry = RedirEntry::from_bits(3 << 8);
    assert_eq!(entry.delivery_mode(), DeliveryMode::Reserved);

    // The setter flips the whole field and ors the encoding in, so the
    // outcome depends on the old field: from External (all bits set) any
    // mode lands exactly, while from Init the flip leaves stray bits.
    let mut entry = RedirEntry::from_bits(7 << 8);
    entry.set_delivery_mode(DeliveryMode::Normal);
    assert_eq!(entry.delivery_mode(), DeliveryMode::Normal);
    let mut entry = RedirEntry::from_bits(5 << 8);
    entry.set_delivery_mode(DeliveryMode::Normal);
    assert_eq!(entry.delivery_mode(), DeliveryMode::SMInterrupt);

    let entry = RedirEntry::from_bits(1 << 12);
    assert!(entry.is_busy());
    let entry = RedirEntry::from_bits(1 << 14);
    assert!(!entry.lapic_responded());
    assert!(RedirEntry::from_bits(0).lapic_responded());
    let entry = RedirEntry::from_bits(0xF << 56);
    assert_eq!(entry.destination_id(), 0xF);
}

#[test]
fn redir_entry_toggling_setters() {
    // The setters flip the field and or the new value in: on a clear
    // entry, writing `false` leaves the bit set. The contracts state this
    // exactly.
    let mut entry = RedirEntry::from_bits(0);
    entry.set_masked(false);
    assert!(entry.masked());
    let mut entry = RedirEntry::from_bits(0);
    entry.set_masked(true);
    assert!(entry.masked());
    let mut entry = RedirEntry::from_bits(1 << 16);
    entry.set_masked(false);
    assert!(!entry.masked());

    let mut entry = RedirEntry::from_bits(0);
    entry.set_level_sensitive(true);
    assert!(entry.level_sensitive());
    let mut entry = RedirEntry::from_bits(0);
    entry.set_logical_mode(true);
    assert!(entry.logical_mode());
    let mut entry = RedirEntry::from_bits(0);
    entry.set_low_is_active(true);
    assert!(entry.low_is_active());
}

#[test]
fn interrupt_source_overrides_apply() {
    let apic = Apic {
        interrupt_source_overrides: vec![
            InterruptSourceOverride { isa_source: 0, global_system_interrupt: 2 },
            InterruptSourceOverride { isa_source: 9, global_system_interrupt: 9 },
        ],
        io_apics: vec![IOApic::new(0xFEC0_0000, 0)],
    };
    assert_eq!(apic.get_interrupt_source(0), 2);
    assert_eq!(apic.get_interrupt_source(9), 9);
    assert_eq!(apic.get_interrupt_source(1), 1);
}

#[test]
fn ioapic_selection_scan() {
    let apic = Apic {
        interrupt_source_overrides: vec![],
        io_apics: vec![
            IOApic::new(0xFEC0_0000, 0),
            IOApic::new(0xFEC1_0000, 24),
        ],
    };
    assert_eq!(apic.get_interrupt_ioapic(3), 0);
    assert_eq!(apic.get_interrupt_ioapic(30), 1);
}

#[test]
fn pci_config_address_encoding() {
    assert_eq!(
        config_address(0, 1, 2),
        (2 << 8) | (1 << 11) | (1 << 31),
    );
    assert_eq!(
        config_address(0xAB, 31, 7),
        (7 << 8) | (31 << 11) | (0xAB << 16) | (1 << 31),
    );
    assert!(offset_aligned(0));
    assert!(offset_aligned(4));
    assert!(!offset_aligned(2));
    assert!(!offset_aligned(3));
}

#[test]
fn sleep_state_decoding() {
    assert_eq!(SleepState::S5.as_aml_name(), "\\_S5");
    assert_eq!(SleepState::S1.as_aml_name(), "\\_S1");
    assert_eq!(sleep_typ_values(0x0305), (5, 3));
    assert_eq!(sleep_typ_values(0xFFFF), (7, 7));
    assert_eq!(slp_command(5), SLP_EN | (5 << 10));
    assert_eq!(slp_command(0), 0x2000);
}

#[test]
fn interrupt_vectors_and_eoi() {
    assert_eq!(InterruptIndex::Timer.as_u8(), 32);
    assert_eq!(InterruptIndex::Keyboard.as_u8(), 33);
    assert_eq!(PIC_2_OFFSET, PIC_1_OFFSET + 8);

    let mut pics = InterruptController::new(PIC_1_OFFSET, PIC_2_OFFSET);
    assert_eq!(pics.end_of_interrupt(33), EndOfInterrupt::Pic1);
    assert_eq!(pics.end_of_interrupt(41), EndOfInterrupt::Both);
    assert_eq!(pics.end_of_interrupt(10), EndOfInterrupt::Nothing);
    pics.apic_handover(0xFEE0_0000);
    assert_eq!(
        pics.end_of_interrupt(33),
        EndOfInterrupt::Apic { base_address: 0xFEE0_0000 },
    );
}

#[test]
fn qemu_exit_codes() {
    assert_eq!(QemuExitCode::Success.code(), 0x10);
    assert_eq!(QemuExitCode::Failed.code(), 0x11);
}
