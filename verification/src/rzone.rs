//! The parsed form of a vendor resource-zone description: one entry per
//! chip, each with its family, core, interrupt count, memory regions and
//! raw peripheral instances.  Reading and decoding the vendor files is the
//! surrounding tooling's job; it hands the decoded entries in here.

use vstd::prelude::*;

verus! {

/// One region of a chip's memory map, as declared by the vendor.
#[derive(Debug, Clone, PartialEq)]
pub struct Memory {
    pub name: String,
    pub kind: String,
    pub address: u64,
    pub size: u64,
}

/// Mathematical value of a [`Memory`].
pub ghost struct RzMemoryV {
    pub name: Seq<char>,
    pub kind: Seq<char>,
    pub address: u64,
    pub size: u64,
}

impl DeepView for Memory {
    type V = RzMemoryV;

    open spec fn deep_view(&self) -> RzMemoryV {
        RzMemoryV { name: self.name@, kind: self.kind@, address: self.address, size: self.size }
    }
}

/// One raw peripheral instance: its declared name and base address.
#[derive(Debug, Clone, PartialEq)]
pub struct Peripheral {
    pub name: String,
    pub address: u64,
}

/// Mathematical value of a [`Peripheral`].
pub ghost struct RzPeripheralV {
    pub name: Seq<char>,
    pub address: u64,
}

impl DeepView for Peripheral {
    type V = RzPeripheralV;

    open spec fn deep_view(&self) -> RzPeripheralV {
        RzPeripheralV { name: self.name@, address: self.address }
    }
}

/// Everything one resource-zone file declares for a chip.
#[derive(Debug, Clone, PartialEq)]
pub struct ParsedRzone {
    pub family: String,
    pub core: String,
    pub interrupt_count: u32,
    pub memories: Vec<Memory>,
    pub peripherals: Vec<Peripheral>,
}

/// Mathematical value of a [`ParsedRzone`].
pub ghost struct ParsedRzoneV {
    pub family: Seq<char>,
    pub core: Seq<char>,
    pub interrupt_count: u32,
    pub memories: Seq<RzMemoryV>,
    pub peripherals: Seq<RzPeripheralV>,
}

impl DeepView for ParsedRzone {
    type V = ParsedRzoneV;

    open spec fn deep_view(&self) -> ParsedRzoneV {
        ParsedRzoneV {
            family: self.family@,
            core: self.core@,
            interrupt_count: self.interrupt_count,
            memories: self.memories.deep_view(),
            peripherals: self.peripherals.deep_view(),
        }
    }
}

/// The decoded resource-zone entries, one `(chip name, entry)` pair per
/// chip, in the order the caller collected them (sorted by chip name).
#[derive(Debug, PartialEq)]
pub struct RzonesParsed(pub Vec<(String, ParsedRzone)>);

/// The same entries, wrapped for the assembler.
#[derive(Debug, PartialEq)]
pub struct Rzones {
    pub rzones: Vec<(String, ParsedRzone)>,
}

impl Rzones {
    /// Take over the decoded entries and list the chip names.
    pub fn parse(parsed: RzonesParsed) -> (r: (Vec<String>, Self))
        ensures
            r.0.deep_view() == parsed.0.deep_view().map_values(
                |e: (Seq<char>, ParsedRzoneV)| e.0,
            ),
            r.1.rzones.deep_view() == parsed.0.deep_view(),
    {
        let mut chips: Vec<String> = Vec::new();
        let mut i: usize = 0;
        let n = parsed.0.len();
        while i < n
            invariant
                i <= n,
                n == parsed.0.len(),
                chips@.len() == i,
                forall|j: int| 0 <= j < i ==> #[trigger] chips@[j]@ == parsed.0@[j].0@,
            decreases n - i,
        {
            chips.push(parsed.0[i].0.clone());
            i = i + 1;
        }
        proof {
            let m = parsed.0.deep_view().map_values(|e: (Seq<char>, ParsedRzoneV)| e.0);
            assert forall|j: int| 0 <= j < n implies chips.deep_view()[j] == m[j] by {
                assert(parsed.0.deep_view()[j] == parsed.0@[j].deep_view());
                assert(chips.deep_view()[j] == chips@[j]@);
            }
            assert(chips.deep_view() =~= m);
        }
        (chips, Rzones { rzones: parsed.0 })
    }
}

} // verus!
