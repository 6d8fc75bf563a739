//! The shared data model: the finished chip record and everything it
//! carries.  These are plain value types; the assembler builds them and the
//! surrounding tooling serializes them.

use vstd::prelude::*;

verus! {

/// One interrupt/event descriptor of a family's interrupt table.
///
/// The `peripheral`, `channel` and `signal` fields are derived from the
/// event name once, by the name parser, and only read thereafter.
#[derive(Debug, Clone, PartialEq)]
pub struct Interrupt {
    pub name: String,
    pub value: u32,
    pub description: Option<String>,
    /// IRQ slots of a grouped interrupt: four evenly spaced positions.
    pub irq_number: Option<Vec<u32>>,
    /// The peripheral this interrupt belongs to (e.g., "GPT", "SCI", "IIC")
    pub peripheral: Option<String>,
    /// The channel/instance number of the peripheral (e.g., 0 for GPT0)
    pub channel: Option<u32>,
    /// The specific event signal (e.g., "COUNTER_OVERFLOW", "RXI", "TXI")
    pub signal: Option<String>,
}

/// Mathematical value of an [`Interrupt`].
pub ghost struct InterruptV {
    pub name: Seq<char>,
    pub value: u32,
    pub description: Option<Seq<char>>,
    pub irq_number: Option<Seq<u32>>,
    pub peripheral: Option<Seq<char>>,
    pub channel: Option<u32>,
    pub signal: Option<Seq<char>>,
}

impl DeepView for Interrupt {
    type V = InterruptV;

    open spec fn deep_view(&self) -> InterruptV {
        InterruptV {
            name: self.name@,
            value: self.value,
            description: self.description.deep_view(),
            irq_number: self.irq_number.deep_view(),
            peripheral: self.peripheral.deep_view(),
            channel: self.channel,
            signal: self.signal.deep_view(),
        }
    }
}

/// One region of the memory map.
#[derive(Debug, Clone, PartialEq)]
pub struct Memory {
    pub name: String,
    pub kind: String,
    pub address: u64,
    pub size: u64,
}

/// Mathematical value of a [`Memory`].
pub ghost struct MemoryV {
    pub name: Seq<char>,
    pub kind: Seq<char>,
    pub address: u64,
    pub size: u64,
}

impl DeepView for Memory {
    type V = MemoryV;

    open spec fn deep_view(&self) -> MemoryV {
        MemoryV { name: self.name@, kind: self.kind@, address: self.address, size: self.size }
    }
}

/// The module-stop (clock gating) position of a peripheral.
#[derive(Debug, Clone, PartialEq)]
pub struct Mstp {
    pub register: String,
    pub bit: u32,
}

/// Mathematical value of an [`Mstp`].
pub ghost struct MstpV {
    pub register: Seq<char>,
    pub bit: u32,
}

impl DeepView for Mstp {
    type V = MstpV;

    open spec fn deep_view(&self) -> MstpV {
        MstpV { register: self.register@, bit: self.bit }
    }
}

/// One resolved peripheral of a finished chip record.
#[derive(Debug, Clone, PartialEq)]
pub struct Peripheral {
    pub name: String,
    pub address: u64,
    pub peri_type: String,
    pub version: String,
    pub block: String,
    pub mstp: Option<Mstp>,
    /// Signals of the interrupts/events of this peripheral; the full event
    /// name is `"{peripheral_name}_{signal}"`.
    pub interrupts: Vec<String>,
}

/// Mathematical value of a [`Peripheral`].
pub ghost struct PeripheralV {
    pub name: Seq<char>,
    pub address: u64,
    pub peri_type: Seq<char>,
    pub version: Seq<char>,
    pub block: Seq<char>,
    pub mstp: Option<MstpV>,
    pub interrupts: Seq<Seq<char>>,
}

impl DeepView for Peripheral {
    type V = PeripheralV;

    open spec fn deep_view(&self) -> PeripheralV {
        PeripheralV {
            name: self.name@,
            address: self.address,
            peri_type: self.peri_type@,
            version: self.version@,
            block: self.block@,
            mstp: self.mstp.deep_view(),
            interrupts: self.interrupts.deep_view(),
        }
    }
}

/// One pin of a package layout.
#[derive(Debug, Clone, PartialEq)]
pub struct Pin {
    pub position: String,
    pub signals: Vec<String>,
}

/// Mathematical value of a [`Pin`].
pub ghost struct PinV {
    pub position: Seq<char>,
    pub signals: Seq<Seq<char>>,
}

impl DeepView for Pin {
    type V = PinV;

    open spec fn deep_view(&self) -> PinV {
        PinV { position: self.position@, signals: self.signals.deep_view() }
    }
}

/// One named pin package of a chip.
#[derive(Debug, Clone, PartialEq)]
pub struct Package {
    pub chip: String,
    pub package: String,
    pub pins: Vec<Pin>,
}

/// Mathematical value of a [`Package`].
pub ghost struct PackageV {
    pub chip: Seq<char>,
    pub package: Seq<char>,
    pub pins: Seq<PinV>,
}

impl DeepView for Package {
    type V = PackageV;

    open spec fn deep_view(&self) -> PackageV {
        PackageV { chip: self.chip@, package: self.package@, pins: self.pins.deep_view() }
    }
}

/// A finished, self-contained chip record.
#[derive(Debug, Clone, PartialEq)]
pub struct Chip {
    pub name: String,
    pub family: String,
    pub core: String,
    pub interrupt_count: u32,
    pub memory: Vec<Memory>,
    pub peripherals: Vec<Peripheral>,
    pub interrupts: Vec<Interrupt>,
    pub packages: Vec<Package>,
    /// The GPIO pin names seen in the packages, upper-cased, sorted and
    /// de-duplicated.
    pub pins: Vec<String>,
}

/// Mathematical value of a [`Chip`].
pub ghost struct ChipV {
    pub name: Seq<char>,
    pub family: Seq<char>,
    pub core: Seq<char>,
    pub interrupt_count: u32,
    pub memory: Seq<MemoryV>,
    pub peripherals: Seq<PeripheralV>,
    pub interrupts: Seq<InterruptV>,
    pub packages: Seq<PackageV>,
    pub pins: Seq<Seq<char>>,
}

impl DeepView for Chip {
    type V = ChipV;

    open spec fn deep_view(&self) -> ChipV {
        ChipV {
            name: self.name@,
            family: self.family@,
            core: self.core@,
            interrupt_count: self.interrupt_count,
            memory: self.memory.deep_view(),
            peripherals: self.peripherals.deep_view(),
            interrupts: self.interrupts.deep_view(),
            packages: self.packages.deep_view(),
            pins: self.pins.deep_view(),
        }
    }
}

/// Flash/RAM sizes and package names of one orderable part.
#[derive(Debug, Clone, PartialEq)]
pub struct Part {
    pub flash_size: u32,
    pub ram_size: u32,
    pub packages: Vec<String>,
}

/// Mathematical value of a [`Part`].
pub ghost struct PartV {
    pub flash_size: u32,
    pub ram_size: u32,
    pub packages: Seq<Seq<char>>,
}

impl DeepView for Part {
    type V = PartV;

    open spec fn deep_view(&self) -> PartV {
        PartV {
            flash_size: self.flash_size,
            ram_size: self.ram_size,
            packages: self.packages.deep_view(),
        }
    }
}

} // verus!
