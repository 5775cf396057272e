//! The panel's initialisation table: the vendor's sequence of commands,
//! payloads and pauses that takes the controller from reset to a lit,
//! addressable panel. The bytes are the vendor's and are kept as given.

use crate::peripherals::display::commands;
use vstd::prelude::*;

verus! {

/// One entry of a panel sequence.
#[derive(Debug, Clone, PartialEq, Eq)]
pub enum Operation {
    /// Send a command byte.
    Command(u8),
    /// Send a payload.
    Data(Vec<u8>),
    /// Pause for this many milliseconds.
    Delay(u64),
}

/// What an [`Operation`] means: the same variants, with the payload as a
/// mathematical sequence.
#[verifier::ext_equal]
pub enum OperationView {
    Command(u8),
    Data(Seq<u8>),
    Delay(u64),
}

impl View for Operation {
    type V = OperationView;

    open spec fn view(&self) -> OperationView {
        match *self {
            Operation::Command(command) => OperationView::Command(command),
            Operation::Data(bytes) => OperationView::Data(bytes@),
            Operation::Delay(millis) => OperationView::Delay(millis),
        }
    }
}

/// The meaning of a table, entry by entry.
pub open spec fn table_view(table: Seq<Operation>) -> Seq<OperationView> {
    Seq::new(table.len(), |i: int| table[i]@)
}

/// No payload of the table is empty.
pub open spec fn payloads_present(table: Seq<OperationView>) -> bool {
    forall|i: int|
        0 <= i < table.len() ==> (#[trigger] table[i] matches OperationView::Data(bytes)
            ==> bytes.len() > 0)
}

/// Entries 1 to 13 of the initialisation table.
pub open spec fn init_part_1() -> Seq<OperationView> {
    seq![
        OperationView::Command(0xEF),
        OperationView::Command(0xEB),
        OperationView::Data(seq![0x14]),
        OperationView::Command(0xFE),
        OperationView::Command(0xEF),
        OperationView::Command(0xEB),
        OperationView::Data(seq![0x14]),
        OperationView::Command(0x84),
        OperationView::Data(seq![0x40]),
        OperationView::Command(0x85),
        OperationView::Data(seq![0xFF]),
        OperationView::Command(0x86),
        OperationView::Data(seq![0xFF]),
    ]
}

/// Entries 14 to 25 of the initialisation table.
pub open spec fn init_part_2() -> Seq<OperationView> {
    seq![
        OperationView::Command(0x87),
        OperationView::Data(seq![0xFF]),
        OperationView::Command(0x88),
        OperationView::Data(seq![0x0A]),
        OperationView::Command(0x89),
        OperationView::Data(seq![0x21]),
        OperationView::Command(0x8A),
        OperationView::Data(seq![0x00]),
        OperationView::Command(0x8B),
        OperationView::Data(seq![0x80]),
        OperationView::Command(0x8C),
        OperationView::Data(seq![0x01]),
    ]
}

/// Entries 26 to 37 of the initialisation table.
pub open spec fn init_part_3() -> Seq<OperationView> {
    seq![
        OperationView::Command(0x8D),
        OperationView::Data(seq![0x01]),
        OperationView::Command(0x8E),
        OperationView::Data(seq![0xFF]),
        OperationView::Command(0x8F),
        OperationView::Data(seq![0xFF]),
        OperationView::Command(0xB6),
        OperationView::Data(seq![0x00, 0x20]),
        OperationView::Command(commands::MADCTL),
        OperationView::Data(seq![0x08]),
        OperationView::Command(commands::COLMOD),
        OperationView::Data(seq![0x05]),
    ]
}

/// Entries 38 to 49 of the initialisation table.
pub open spec fn init_part_4() -> Seq<OperationView> {
    seq![
        OperationView::Command(0x90),
        OperationView::Data(seq![0x08, 0x08, 0x08, 0x08]),
        OperationView::Command(0xBD),
        OperationView::Data(seq![0x06]),
        OperationView::Command(0xBC),
        OperationView::Data(seq![0x00]),
        OperationView::Command(0xFF),
        OperationView::Data(seq![0x60, 0x01, 0x04]),
        OperationView::Command(0xC3),
        OperationView::Data(seq![0x13]),
        OperationView::Command(0xC4),
        OperationView::Data(seq![0x13]),
    ]
}

/// Entries 50 to 61 of the initialisation table.
pub open spec fn init_part_5() -> Seq<OperationView> {
    seq![
        OperationView::Command(0xC9),
        OperationView::Data(seq![0x22]),
        OperationView::Command(0xBE),
        OperationView::Data(seq![0x11]),
        OperationView::Command(0xE1),
        OperationView::Data(seq![0x10, 0x0E]),
        OperationView::Command(0xDF),
        OperationView::Data(seq![0x21, 0x0C, 0x02]),
        OperationView::Command(0xF0),
        OperationView::Data(seq![0x45, 0x09, 0x08, 0x08, 0x26, 0x2A]),
        OperationView::Command(0xF1),
        OperationView::Data(seq![0x43, 0x70, 0x72, 0x36, 0x37, 0x6F]),
    ]
}

/// Entries 62 to 73 of the initialisation table.
pub open spec fn init_part_6() -> Seq<OperationView> {
    seq![
        OperationView::Command(0xF2),
        OperationView::Data(seq![0x45, 0x09, 0x08, 0x08, 0x26, 0x2A]),
        OperationView::Command(0xF3),
        OperationView::Data(seq![0x43, 0x70, 0x72, 0x36, 0x37, 0x6F]),
        OperationView::Command(0xED),
        OperationView::Data(seq![0x1B, 0x0B]),
        OperationView::Command(0xAE),
        OperationView::Data(seq![0x77]),
        OperationView::Command(0xCD),
        OperationView::Data(seq![0x63]),
        OperationView::Command(0x70),
        OperationView::Data(seq![0x07, 0x07, 0x04, 0x0E, 0x0F, 0x09, 0x07, 0x08, 0x03]),
    ]
}

/// Entries 74 to 85 of the initialisation table.
pub open spec fn init_part_7() -> Seq<OperationView> {
    seq![
        OperationView::Command(0xE8),
        OperationView::Data(seq![0x34]),
        OperationView::Command(0x62),
        OperationView::Data(seq![0x18, 0x0D, 0x71, 0xED, 0x70, 0x70, 0x18, 0x0F, 0x71, 0xEF, 0x70, 0x70]),
        OperationView::Command(0x63),
        OperationView::Data(seq![0x18, 0x11, 0x71, 0xF1, 0x70, 0x70, 0x18, 0x13, 0x71, 0xF3, 0x70, 0x70]),
        OperationView::Command(0x64),
        OperationView::Data(seq![0x28, 0x29, 0xF1, 0x01, 0xF1, 0x00, 0x07]),
        OperationView::Command(0x66),
        OperationView::Data(seq![0x3C, 0x00, 0xCD, 0x67, 0x45, 0x45, 0x10, 0x00, 0x00, 0x00]),
        OperationView::Command(0x67),
        OperationView::Data(seq![0x00, 0x3C, 0x00, 0x00, 0x00, 0x01, 0x54, 0x10, 0x32, 0x98]),
    ]
}

/// Entries 86 to 95 of the initialisation table.
pub open spec fn init_part_8() -> Seq<OperationView> {
    seq![
        OperationView::Command(0x74),
        OperationView::Data(seq![0x10, 0x85, 0x80, 0x00, 0x00, 0x4E, 0x00]),
        OperationView::Command(0x98),
        OperationView::Data(seq![0x3E, 0x07]),
        OperationView::Command(commands::TEON),
        OperationView::Command(commands::INVON),
        OperationView::Command(commands::SLPOUT),
        OperationView::Delay(120),
        OperationView::Command(commands::DISPON),
        OperationView::Delay(20),
    ]
}

/// The whole initialisation table, in order.
pub open spec fn init_table() -> Seq<OperationView> {
    init_part_1() + init_part_2() + init_part_3() + init_part_4() + init_part_5() + init_part_6() + init_part_7() + init_part_8()
}

/// Entries 1 to 13 of the initialisation table.
fn part_1() -> (part: Vec<Operation>)
    ensures
        table_view(part@) == init_part_1(),
        payloads_present(table_view(part@)),
{
    let part: Vec<Operation> = vec![
        Operation::Command(0xEF),
        Operation::Command(0xEB),
        Operation::Data(vec![0x14]),
        Operation::Command(0xFE),
        Operation::Command(0xEF),
        Operation::Command(0xEB),
        Operation::Data(vec![0x14]),
        Operation::Command(0x84),
        Operation::Data(vec![0x40]),
        Operation::Command(0x85),
        Operation::Data(vec![0xFF]),
        Operation::Command(0x86),
        Operation::Data(vec![0xFF]),
    ];
    assert(table_view(part@) =~~= init_part_1());
    part
}

/// Entries 14 to 25 of the initialisation table.
fn part_2() -> (part: Vec<Operation>)
    ensures
        table_view(part@) == init_part_2(),
        payloads_present(table_view(part@)),
{
    let part: Vec<Operation> = vec![
        Operation::Command(0x87),
        Operation::Data(vec![0xFF]),
        Operation::Command(0x88),
        Operation::Data(vec![0x0A]),
        Operation::Command(0x89),
        Operation::Data(vec![0x21]),
        Operation::Command(0x8A),
        Operation::Data(vec![0x00]),
        Operation::Command(0x8B),
        Operation::Data(vec![0x80]),
        Operation::Command(0x8C),
        Operation::Data(vec![0x01]),
    ];
    assert(table_view(part@) =~~= init_part_2());
    part
}

/// Entries 26 to 37 of the initialisation table.
fn part_3() -> (part: Vec<Operation>)
    ensures
        table_view(part@) == init_part_3(),
        payloads_present(table_view(part@)),
{
    let part: Vec<Operation> = vec![
        Operation::Command(0x8D),
        Operation::Data(vec![0x01]),
        Operation::Command(0x8E),
        Operation::Data(vec![0xFF]),
        Operation::Command(0x8F),
        Operation::Data(vec![0xFF]),
        Operation::Command(0xB6),
        Operation::Data(vec![0x00, 0x20]),
        Operation::Command(commands::MADCTL),
        Operation::Data(vec![0x08]),
        Operation::Command(commands::COLMOD),
        Operation::Data(vec![0x05]),
    ];
    assert(table_view(part@) =~~= init_part_3());
    part
}

/// Entries 38 to 49 of the initialisation table.
fn part_4() -> (part: Vec<Operation>)
    ensures
        table_view(part@) == init_part_4(),
        payloads_present(table_view(part@)),
{
    let part: Vec<Operation> = vec![
        Operation::Command(0x90),
        Operation::Data(vec![0x08, 0x08, 0x08, 0x08]),
        Operation::Command(0xBD),
        Operation::Data(vec![0x06]),
        Operation::Command(0xBC),
        Operation::Data(vec![0x00]),
        Operation::Command(0xFF),
        Operation::Data(vec![0x60, 0x01, 0x04]),
        Operation::Command(0xC3),
        Operation::Data(vec![0x13]),
        Operation::Command(0xC4),
        Operation::Data(vec![0x13]),
    ];
    assert(table_view(part@) =~~= init_part_4());
    part
}

/// Entries 50 to 61 of the initialisation table.
fn part_5() -> (part: Vec<Operation>)
    ensures
        table_view(part@) == init_part_5(),
        payloads_present(table_view(part@)),
{
    let part: Vec<Operation> = vec![
        Operation::Command(0xC9),
        Operation::Data(vec![0x22]),
        Operation::Command(0xBE),
        Operation::Data(vec![0x11]),
        Operation::Command(0xE1),
        Operation::Data(vec![0x10, 0x0E]),
        Operation::Command(0xDF),
        Operation::Data(vec![0x21, 0x0C, 0x02]),
        Operation::Command(0xF0),
        Operation::Data(vec![0x45, 0x09, 0x08, 0x08, 0x26, 0x2A]),
        Operation::Command(0xF1),
        Operation::Data(vec![0x43, 0x70, 0x72, 0x36, 0x37, 0x6F]),
    ];
    assert(table_view(part@) =~~= init_part_5());
    part
}

/// Entries 62 to 73 of the initialisation table.
fn part_6() -> (part: Vec<Operation>)
    ensures
        table_view(part@) == init_part_6(),
        payloads_present(table_view(part@)),
{
    let part: Vec<Operation> = vec![
        Operation::Command(0xF2),
        Operation::Data(vec![0x45, 0x09, 0x08, 0x08, 0x26, 0x2A]),
        Operation::Command(0xF3),
        Operation::Data(vec![0x43, 0x70, 0x72, 0x36, 0x37, 0x6F]),
        Operation::Command(0xED),
        Operation::Data(vec![0x1B, 0x0B]),
        Operation::Command(0xAE),
        Operation::Data(vec![0x77]),
        Operation::Command(0xCD),
        Operation::Data(vec![0x63]),
        Operation::Command(0x70),
        Operation::Data(vec![0x07, 0x07, 0x04, 0x0E, 0x0F, 0x09, 0x07, 0x08, 0x03]),
    ];
    assert(table_view(part@) =~~= init_part_6());
    part
}

/// Entries 74 to 85 of the initialisation table.
fn part_7() -> (part: Vec<Operation>)
    ensures
        table_view(part@) == init_part_7(),
        payloads_present(table_view(part@)),
{
    let part: Vec<Operation> = vec![
        Operation::Command(0xE8),
        Operation::Data(vec![0x34]),
        Operation::Command(0x62),
        Operation::Data(vec![0x18, 0x0D, 0x71, 0xED, 0x70, 0x70, 0x18, 0x0F, 0x71, 0xEF, 0x70, 0x70]),
        Operation::Command(0x63),
        Operation::Data(vec![0x18, 0x11, 0x71, 0xF1, 0x70, 0x70, 0x18, 0x13, 0x71, 0xF3, 0x70, 0x70]),
        Operation::Command(0x64),
        Operation::Data(vec![0x28, 0x29, 0xF1, 0x01, 0xF1, 0x00, 0x07]),
        Operation::Command(0x66),
        Operation::Data(vec![0x3C, 0x00, 0xCD, 0x67, 0x45, 0x45, 0x10, 0x00, 0x00, 0x00]),
        Operation::Command(0x67),
        Operation::Data(vec![0x00, 0x3C, 0x00, 0x00, 0x00, 0x01, 0x54, 0x10, 0x32, 0x98]),
    ];
    assert(table_view(part@) =~~= init_part_7());
    part
}

/// Entries 86 to 95 of the initialisation table.
fn part_8() -> (part: Vec<Operation>)
    ensures
        table_view(part@) == init_part_8(),
        payloads_present(table_view(part@)),
{
    let part: Vec<Operation> = vec![
        Operation::Command(0x74),
        Operation::Data(vec![0x10, 0x85, 0x80, 0x00, 0x00, 0x4E, 0x00]),
        Operation::Command(0x98),
        Operation::Data(vec![0x3E, 0x07]),
        Operation::Command(commands::TEON),
        Operation::Command(commands::INVON),
        Operation::Command(commands::SLPOUT),
        Operation::Delay(120),
        Operation::Command(commands::DISPON),
        Operation::Delay(20),
    ];
    assert(table_view(part@) =~~= init_part_8());
    part
}

/// Appends `part` to `table`.
fn extend(table: &mut Vec<Operation>, part: Vec<Operation>)
    requires
        payloads_present(table_view(old(table)@)),
        payloads_present(table_view(part@)),
    ensures
        table_view(final(table)@) == table_view(old(table)@) + table_view(part@),
        payloads_present(table_view(final(table)@)),
{
    let mut part = part;
    let ghost added = part@;
    table.append(&mut part);
    assert(table_view(table@) =~= table_view(old(table)@) + table_view(added));
    assert forall|i: int| 0 <= i < table_view(table@).len() implies (#[trigger] table_view(
        table@,
    )[i] matches OperationView::Data(bytes) ==> bytes.len() > 0) by {
        if i < old(table)@.len() {
            assert(table_view(table@)[i] == table_view(old(table)@)[i]);
        } else {
            assert(table_view(table@)[i] == table_view(added)[i - old(table)@.len()]);
        }
    }
}

/// The initialisation table.
pub fn config() -> (table: Vec<Operation>)
    ensures
        table_view(table@) == init_table(),
        payloads_present(table_view(table@)),
{
    let mut table: Vec<Operation> = part_1();
    extend(&mut table, part_2());
    extend(&mut table, part_3());
    extend(&mut table, part_4());
    extend(&mut table, part_5());
    extend(&mut table, part_6());
    extend(&mut table, part_7());
    extend(&mut table, part_8());
    table
}

} // verus!
