//! Data store for Modbus registers and coils.
//!
//! Four fixed-size banks (coils, discrete inputs, input registers,
//! holding registers) covering the full 16-bit address space, a typed
//! variable catalog, and one defined-address set per bank.
//!
//! Strict address validation: every read or write through the
//! protocol path requires every touched address to be defined by the
//! current catalog; otherwise the operation fails with
//! `IllegalDataAddress` and changes nothing.

use vstd::prelude::*;

verus! {

use crate::codec::ExceptionCode;
use crate::types::{ModbusArea, ModbusDataType, ModbusValue, ModbusVariable, spec_register_count};
use crate::types::{
    spec_number_from_u16, spec_number_from_i16, spec_number_from_u32, spec_number_from_single,
};
/// Size of each data area: the full Modbus address space.
pub const BANK_SIZE: usize = 65536;

/// Mathematical state of the data store.
pub ghost struct StoreModel {
    pub coils: Seq<bool>,
    pub discrete_inputs: Seq<bool>,
    pub input_registers: Seq<u16>,
    pub holding_registers: Seq<u16>,
    pub variables: Seq<ModbusVariable>,
    pub defined_coils: Seq<bool>,
    pub defined_discrete_inputs: Seq<bool>,
    pub defined_holding_registers: Seq<bool>,
    pub defined_input_registers: Seq<bool>,
}

impl StoreModel {
    /// Every bank and defined-set spans the whole address space, and
    /// catalog ids are unique.
    pub open spec fn wf(self) -> bool {
        &&& self.coils.len() == BANK_SIZE
        &&& self.discrete_inputs.len() == BANK_SIZE
        &&& self.input_registers.len() == BANK_SIZE
        &&& self.holding_registers.len() == BANK_SIZE
        &&& self.defined_coils.len() == BANK_SIZE
        &&& self.defined_discrete_inputs.len() == BANK_SIZE
        &&& self.defined_holding_registers.len() == BANK_SIZE
        &&& self.defined_input_registers.len() == BANK_SIZE
        &&& forall|i: int, j: int|
            0 <= i < j < self.variables.len() ==> self.variables[i].id@ != self.variables[j].id@
    }

    /// The defined-set of an area, as a predicate on addresses.
    pub open spec fn defined(self, area: ModbusArea, a: int) -> bool {
        match area {
            ModbusArea::Coil => self.defined_coils[a],
            ModbusArea::DiscreteInput => self.defined_discrete_inputs[a],
            ModbusArea::InputRegister => self.defined_input_registers[a],
            ModbusArea::HoldingRegister => self.defined_holding_registers[a],
        }
    }

    /// Every address in `[start, start + count)` lies in the address
    /// space and is defined for the area.
    pub open spec fn range_defined(self, area: ModbusArea, start: int, count: int) -> bool {
        match area {
            ModbusArea::Coil => spec_range_defined(self.defined_coils, start, count),
            ModbusArea::DiscreteInput => spec_range_defined(self.defined_discrete_inputs, start, count),
            ModbusArea::InputRegister => spec_range_defined(self.defined_input_registers, start, count),
            ModbusArea::HoldingRegister => spec_range_defined(self.defined_holding_registers, start, count),
        }
    }
}

/// Every address in `[start, start + count)` lies in the bank and is
/// marked in the defined-set.
pub open spec fn spec_range_defined(defined: Seq<bool>, start: int, count: int) -> bool {
    &&& start + count <= BANK_SIZE
    &&& forall|a: int| start <= a < start + count ==> defined[a]
}

/// High 16-bit word of a 32-bit value.
pub open spec fn spec_hi32(v: u32) -> u16 {
    (v / 0x10000) as u16
}

/// Low 16-bit word of a 32-bit value.
pub open spec fn spec_lo32(v: u32) -> u16 {
    (v % 0x10000) as u16
}

/// The `i16` a register cell reinterprets to.
pub open spec fn spec_cell_as_i16(v: u16) -> i16 {
    if v <= 32767 {
        v as i16
    } else {
        (v - 65536) as i16
    }
}

/// A register bank after a typed value is encoded at an address.
/// Two-word types write the high word at the lower address; a
/// two-word value whose second word would fall outside the bank is
/// not written at all.
pub open spec fn spec_encode_registers(
    regs: Seq<u16>,
    address: u16,
    dt: ModbusDataType,
    value: ModbusValue,
) -> Seq<u16> {
    let a = address as int;
    match dt {
        ModbusDataType::Bool => if a < regs.len() {
            regs.update(
                a,
                if value.spec_as_bool() {
                    1u16
                } else {
                    0u16
                },
            )
        } else {
            regs
        },
        ModbusDataType::Uint16 => if a < regs.len() {
            regs.update(a, value.spec_as_u16())
        } else {
            regs
        },
        ModbusDataType::Int16 => if a < regs.len() {
            regs.update(a, spec_i16_as_u16(value.spec_as_i16()))
        } else {
            regs
        },
        ModbusDataType::Uint32 => if a + 1 < regs.len() {
            regs.update(a, spec_hi32(value.spec_as_u32())).update(
                a + 1,
                spec_lo32(value.spec_as_u32()),
            )
        } else {
            regs
        },
        ModbusDataType::Float32 => if a + 1 < regs.len() {
            regs.update(a, spec_hi32(value.spec_as_single_bits())).update(
                a + 1,
                spec_lo32(value.spec_as_single_bits()),
            )
        } else {
            regs
        },
    }
}

/// The model after one variable's value is written to its bank.
pub open spec fn spec_write_variable(m: StoreModel, v: ModbusVariable) -> StoreModel {
    let a = v.address as int;
    match v.area {
        ModbusArea::Coil => StoreModel {
            coils: if a < m.coils.len() {
                m.coils.update(a, v.value.spec_as_bool())
            } else {
                m.coils
            },
            ..m
        },
        ModbusArea::DiscreteInput => StoreModel {
            discrete_inputs: if a < m.discrete_inputs.len() {
                m.discrete_inputs.update(a, v.value.spec_as_bool())
            } else {
                m.discrete_inputs
            },
            ..m
        },
        ModbusArea::InputRegister => StoreModel {
            input_registers: spec_encode_registers(m.input_registers, v.address, v.data_type, v.value),
            ..m
        },
        ModbusArea::HoldingRegister => StoreModel {
            holding_registers: spec_encode_registers(
                m.holding_registers,
                v.address,
                v.data_type,
                v.value,
            ),
            ..m
        },
    }
}

/// Whether a variable covers address `a` of its area: a multi-word
/// type contributes every word it occupies (within the bank).
pub open spec fn spec_covers(v: ModbusVariable, area: ModbusArea, a: int) -> bool {
    &&& v.area == area
    &&& v.address <= a < v.address + spec_register_count(v.data_type)
    &&& a < BANK_SIZE
}

/// The model after the addresses of one variable are marked defined.
pub open spec fn spec_mark_defined(m: StoreModel, v: ModbusVariable) -> StoreModel {
    match v.area {
        ModbusArea::Coil => StoreModel {
            defined_coils: Seq::new(
                m.defined_coils.len(),
                |a: int| m.defined_coils[a] || spec_covers(v, ModbusArea::Coil, a),
            ),
            ..m
        },
        ModbusArea::DiscreteInput => StoreModel {
            defined_discrete_inputs: Seq::new(
                m.defined_discrete_inputs.len(),
                |a: int| m.defined_discrete_inputs[a] || spec_covers(v, ModbusArea::DiscreteInput, a),
            ),
            ..m
        },
        ModbusArea::InputRegister => StoreModel {
            defined_input_registers: Seq::new(
                m.defined_input_registers.len(),
                |a: int| m.defined_input_registers[a] || spec_covers(v, ModbusArea::InputRegister, a),
            ),
            ..m
        },
        ModbusArea::HoldingRegister => StoreModel {
            defined_holding_registers: Seq::new(
                m.defined_holding_registers.len(),
                |a: int|
                    m.defined_holding_registers[a] || spec_covers(v, ModbusArea::HoldingRegister, a),
            ),
            ..m
        },
    }
}

/// The variable with its value replaced.
pub open spec fn spec_with_value(v: ModbusVariable, value: ModbusValue) -> ModbusVariable {
    ModbusVariable {
        id: v.id,
        name: v.name,
        area: v.area,
        address: v.address,
        data_type: v.data_type,
        value,
        bit: v.bit,
        readonly: v.readonly,
        note: v.note,
    }
}

/// Whether some catalog entry carries the given id.
pub open spec fn spec_has_id(vars: Seq<ModbusVariable>, id: Seq<char>) -> bool {
    exists|i: int| 0 <= i < vars.len() && vars[i].id@ == id
}

/// The index of the catalog entry with the given id.
pub open spec fn spec_index_of_id(vars: Seq<ModbusVariable>, id: Seq<char>) -> int {
    choose|i: int| 0 <= i < vars.len() && vars[i].id@ == id
}

/// A catalog after insert-or-replace by id: a new id is appended, a
/// known one is replaced in place.
pub open spec fn spec_insert_catalog(
    vars: Seq<ModbusVariable>,
    v: ModbusVariable,
) -> Seq<ModbusVariable> {
    if spec_has_id(vars, v.id@) {
        vars.update(spec_index_of_id(vars, v.id@), v)
    } else {
        vars.push(v)
    }
}

/// The model after one variable is loaded: cataloged, its addresses
/// marked defined, and its value encoded into the banks.
pub open spec fn spec_load_one(m: StoreModel, v: ModbusVariable) -> StoreModel {
    let m1 = StoreModel { variables: spec_insert_catalog(m.variables, v), ..m };
    let m2 = spec_mark_defined(m1, v);
    spec_write_variable(m2, v)
}

/// The model after a whole list of variables is loaded in order.
pub open spec fn spec_load(m: StoreModel, vars: Seq<ModbusVariable>) -> StoreModel
    decreases vars.len(),
{
    if vars.len() == 0 {
        m
    } else {
        spec_load(spec_load_one(m, vars[0]), vars.drop_first())
    }
}

/// The model with the catalog and every defined-set emptied; bank
/// cells are kept.
pub open spec fn spec_clear_catalog(m: StoreModel) -> StoreModel {
    StoreModel {
        variables: Seq::empty(),
        defined_coils: Seq::new(m.defined_coils.len(), |a: int| false),
        defined_discrete_inputs: Seq::new(m.defined_discrete_inputs.len(), |a: int| false),
        defined_holding_registers: Seq::new(m.defined_holding_registers.len(), |a: int| false),
        defined_input_registers: Seq::new(m.defined_input_registers.len(), |a: int| false),
        ..m
    }
}

/// The value a register bank decodes to at an address, for a data
/// type, or `None` where a two-word type would run out of the bank.
pub open spec fn spec_decode_value(
    dt: ModbusDataType,
    regs: Seq<u16>,
    a: int,
) -> Option<ModbusValue> {
    match dt {
        ModbusDataType::Bool => if a < regs.len() {
            Some(ModbusValue::Bool(regs[a] != 0))
        } else {
            None
        },
        ModbusDataType::Uint16 => if a < regs.len() {
            Some(ModbusValue::Number(spec_number_from_u16(regs[a])))
        } else {
            None
        },
        ModbusDataType::Int16 => if a < regs.len() {
            Some(ModbusValue::Number(spec_number_from_i16(spec_cell_as_i16(regs[a]))))
        } else {
            None
        },
        ModbusDataType::Uint32 => if a + 1 < regs.len() {
            Some(
                ModbusValue::Number(
                    spec_number_from_u32((regs[a] * 0x10000 + regs[a + 1]) as u32),
                ),
            )
        } else {
            None
        },
        ModbusDataType::Float32 => if a + 1 < regs.len() {
            Some(
                ModbusValue::Number(
                    spec_number_from_single((regs[a] * 0x10000 + regs[a + 1]) as u32),
                ),
            )
        } else {
            None
        },
    }
}

/// The catalog after a coil write at one address: every coil variable
/// at exactly that address takes the written boolean.
pub open spec fn spec_sync_coil(
    vars: Seq<ModbusVariable>,
    address: u16,
    value: bool,
) -> Seq<ModbusVariable> {
    Seq::new(
        vars.len(),
        |i: int|
            if vars[i].area == ModbusArea::Coil && vars[i].address == address {
                spec_with_value(vars[i], ModbusValue::Bool(value))
            } else {
                vars[i]
            },
    )
}

/// The catalog after a coil range write: every coil variable whose
/// address lies in the range takes its written boolean.
pub open spec fn spec_sync_coil_range(
    vars: Seq<ModbusVariable>,
    start: u16,
    values: Seq<bool>,
) -> Seq<ModbusVariable> {
    Seq::new(
        vars.len(),
        |i: int|
            if vars[i].area == ModbusArea::Coil && start <= vars[i].address < start + values.len() {
                spec_with_value(vars[i], ModbusValue::Bool(values[vars[i].address - start]))
            } else {
                vars[i]
            },
    )
}

/// The catalog after a register write at one address: every variable
/// of the area anchored at exactly that address is re-decoded from
/// the bank.
pub open spec fn spec_sync_register(
    vars: Seq<ModbusVariable>,
    area: ModbusArea,
    address: u16,
    regs: Seq<u16>,
) -> Seq<ModbusVariable> {
    Seq::new(
        vars.len(),
        |i: int|
            if vars[i].area == area && vars[i].address == address {
                match spec_decode_value(vars[i].data_type, regs, address as int) {
                    Some(val) => spec_with_value(vars[i], val),
                    None => vars[i],
                }
            } else {
                vars[i]
            },
    )
}

/// The catalog after a register range write: every variable of the
/// area anchored in the range is re-decoded from the bank.
pub open spec fn spec_sync_register_range(
    vars: Seq<ModbusVariable>,
    area: ModbusArea,
    start: u16,
    count: int,
    regs: Seq<u16>,
) -> Seq<ModbusVariable> {
    Seq::new(
        vars.len(),
        |i: int|
            if vars[i].area == area && start <= vars[i].address < start + count {
                match spec_decode_value(vars[i].data_type, regs, vars[i].address as int) {
                    Some(val) => spec_with_value(vars[i], val),
                    None => vars[i],
                }
            } else {
                vars[i]
            },
    )
}

/// The model after an update of catalog entry `i`'s value: the entry
/// is replaced and its value re-encoded into the banks.
pub open spec fn spec_update_variable(m: StoreModel, i: int, value: ModbusValue) -> StoreModel {
    spec_write_variable(
        StoreModel {
            variables: m.variables.update(i, spec_with_value(m.variables[i], value)),
            ..m
        },
        spec_with_value(m.variables[i], value),
    )
}

/// Loading a list and then one more variable is loading the extended
/// list.
pub proof fn lemma_spec_load_snoc(m: StoreModel, s: Seq<ModbusVariable>, v: ModbusVariable)
    ensures
        spec_load(m, s.push(v)) == spec_load_one(spec_load(m, s), v),
    decreases s.len(),
{
    if s.len() == 0 {
        assert(s.push(v)[0] == v);
        assert(s.push(v).drop_first() =~= Seq::<ModbusVariable>::empty());
        assert(spec_load(m, s.push(v)) == spec_load(
            spec_load_one(m, v),
            Seq::<ModbusVariable>::empty(),
        ));
        assert(spec_load(spec_load_one(m, v), Seq::<ModbusVariable>::empty()) == spec_load_one(
            m,
            v,
        ));
        assert(spec_load(m, s) == m);
    } else {
        assert(s.push(v)[0] == s[0]);
        assert(s.push(v).drop_first() =~= s.drop_first().push(v));
        lemma_spec_load_snoc(spec_load_one(m, s[0]), s.drop_first(), v);
        assert(spec_load(m, s.push(v)) == spec_load(
            spec_load_one(m, s[0]),
            s.drop_first().push(v),
        ));
        assert(spec_load(m, s) == spec_load(spec_load_one(m, s[0]), s.drop_first()));
    }
}

/// Syncing one more coil address on top of a synced prefix of a
/// range write gives the synced longer prefix.
pub proof fn lemma_sync_coil_range_step(
    vars: Seq<ModbusVariable>,
    start: u16,
    values: Seq<bool>,
    i: int,
)
    requires
        0 <= i < values.len(),
        start + values.len() <= BANK_SIZE,
    ensures
        spec_sync_coil(
            spec_sync_coil_range(vars, start, values.subrange(0, i)),
            (start + i) as u16,
            values[i],
        ) == spec_sync_coil_range(vars, start, values.subrange(0, i + 1)),
{
    let lhs = spec_sync_coil(
        spec_sync_coil_range(vars, start, values.subrange(0, i)),
        (start + i) as u16,
        values[i],
    );
    let rhs = spec_sync_coil_range(vars, start, values.subrange(0, i + 1));
    assert forall|k: int| 0 <= k < vars.len() implies lhs[k] == rhs[k] by {
        let v = vars[k];
        if v.area == ModbusArea::Coil && start <= v.address < start + i {
            assert(lhs[k] == spec_with_value(v, ModbusValue::Bool(values[v.address - start])));
        } else if v.area == ModbusArea::Coil && v.address == start + i {
            assert(lhs[k] == spec_with_value(v, ModbusValue::Bool(values[i])));
        } else {
            assert(lhs[k] == v);
        }
    };
    assert(lhs =~= rhs);
}

/// Syncing one more register address on top of a synced prefix of a
/// range write gives the synced longer prefix.
pub proof fn lemma_sync_register_range_step(
    vars: Seq<ModbusVariable>,
    area: ModbusArea,
    start: u16,
    i: int,
    regs: Seq<u16>,
)
    requires
        0 <= i,
        start + i < BANK_SIZE,
    ensures
        spec_sync_register(
            spec_sync_register_range(vars, area, start, i, regs),
            area,
            (start + i) as u16,
            regs,
        ) == spec_sync_register_range(vars, area, start, i + 1, regs),
{
    let lhs = spec_sync_register(
        spec_sync_register_range(vars, area, start, i, regs),
        area,
        (start + i) as u16,
        regs,
    );
    let rhs = spec_sync_register_range(vars, area, start, i + 1, regs);
    assert forall|k: int| 0 <= k < vars.len() implies lhs[k] == rhs[k] by {
        let v = vars[k];
        if v.area == area && start <= v.address < start + i {
            match spec_decode_value(v.data_type, regs, v.address as int) {
                Some(val) => {
                    assert(lhs[k] == spec_with_value(v, val));
                },
                None => {
                    assert(lhs[k] == v);
                },
            }
        } else if v.area == area && v.address == start + i {
            match spec_decode_value(v.data_type, regs, v.address as int) {
                Some(val) => {
                    assert(lhs[k] == spec_with_value(v, val));
                },
                None => {
                    assert(lhs[k] == v);
                },
            }
        } else {
            assert(lhs[k] == v);
        }
    };
    assert(lhs =~= rhs);
}

/// Thread-compatible Modbus data store; callers serialise access (the
/// server wraps one store in a lock and holds it across each whole
/// operation, which keeps multi-word reads and writes atomic for
/// concurrent clients).
#[derive(Debug)]
pub struct ModbusDataStore {
    /// Coils (0x) - bit array
    coils: Vec<bool>,
    /// Discrete Inputs (1x) - bit array
    discrete_inputs: Vec<bool>,
    /// Input Registers (3x) - u16 array
    input_registers: Vec<u16>,
    /// Holding Registers (4x) - u16 array
    holding_registers: Vec<u16>,
    /// The variable catalog, in load order, ids unique.
    variables: Vec<ModbusVariable>,
    /// Defined coil addresses.
    defined_coils: Vec<bool>,
    /// Defined discrete input addresses.
    defined_discrete_inputs: Vec<bool>,
    /// Defined holding register addresses.
    defined_holding_registers: Vec<bool>,
    /// Defined input register addresses.
    defined_input_registers: Vec<bool>,
}

impl View for ModbusDataStore {
    type V = StoreModel;

    closed spec fn view(&self) -> StoreModel {
        StoreModel {
            coils: self.coils@,
            discrete_inputs: self.discrete_inputs@,
            input_registers: self.input_registers@,
            holding_registers: self.holding_registers@,
            variables: self.variables@,
            defined_coils: self.defined_coils@,
            defined_discrete_inputs: self.defined_discrete_inputs@,
            defined_holding_registers: self.defined_holding_registers@,
            defined_input_registers: self.defined_input_registers@,
        }
    }
}

/// Relies on `str`'s `PartialEq`: two string slices compare equal
/// exactly when their character sequences do.
#[verifier::external_body]
fn str_eq(a: &str, b: &str) -> (r: bool)
    ensures
        r == (a@ == b@),
{
    a == b
}

/// Whether every address in `[start, start + count)` lies in the
/// bank and is marked in the given defined-set.
fn range_all_defined(defined: &Vec<bool>, start: u16, count: usize) -> (b: bool)
    requires
        defined@.len() == BANK_SIZE,
    ensures
        b == spec_range_defined(defined@, start as int, count as int),
{
    if count > BANK_SIZE - start as usize {
        return false;
    }
    let end: usize = start as usize + count;
    let mut a: usize = start as usize;
    while a < end
        invariant
            start as usize <= a <= end,
            end == start + count <= BANK_SIZE,
            defined@.len() == BANK_SIZE,
            forall|k: int| start <= k < a ==> defined@[k],
        decreases end - a,
    {
        if !defined[a] {
            return false;
        }
        a = a + 1;
    }
    true
}

/// Copy `count` booleans starting at `start`.
fn copy_bool_range(bank: &Vec<bool>, start: u16, count: u16) -> (r: Vec<bool>)
    requires
        start + count <= bank@.len(),
    ensures
        r@ == bank@.subrange(start as int, start as int + count as int),
{
    let mut out: Vec<bool> = Vec::new();
    let mut i: usize = 0;
    while i < count as usize
        invariant
            i <= count,
            start + count <= bank@.len(),
            out@ == bank@.subrange(start as int, start as int + i as int),
        decreases count - i,
    {
        out.push(bank[start as usize + i]);
        proof {
            assert(out@ =~= bank@.subrange(start as int, start as int + i + 1));
        }
        i = i + 1;
    }
    out
}

/// Copy `count` words starting at `start`.
fn copy_u16_range(bank: &Vec<u16>, start: u16, count: u16) -> (r: Vec<u16>)
    requires
        start + count <= bank@.len(),
    ensures
        r@ == bank@.subrange(start as int, start as int + count as int),
{
    let mut out: Vec<u16> = Vec::new();
    let mut i: usize = 0;
    while i < count as usize
        invariant
            i <= count,
            start + count <= bank@.len(),
            out@ == bank@.subrange(start as int, start as int + i as int),
        decreases count - i,
    {
        out.push(bank[start as usize + i]);
        proof {
            assert(out@ =~= bank@.subrange(start as int, start as int + i + 1));
        }
        i = i + 1;
    }
    out
}

/// The `u16` cell an `i16` value encodes to (two's complement).
fn i16_to_cell(v: i16) -> (r: u16)
    ensures
        r == spec_i16_as_u16(v),
{
    if v >= 0 {
        v as u16
    } else {
        ((v as i32) + 65536) as u16
    }
}

/// The `i16` a register cell reinterprets to.
fn cell_to_i16(v: u16) -> (r: i16)
    ensures
        r == spec_cell_as_i16(v),
{
    if v <= 32767 {
        v as i16
    } else {
        ((v as i32) - 65536) as i16
    }
}

/// Write a typed value into a register bank at an address.
fn write_register_value(
    regs: &mut Vec<u16>,
    address: u16,
    data_type: &ModbusDataType,
    value: &ModbusValue,
)
    ensures
        final(regs)@ == spec_encode_registers(old(regs)@, address, *data_type, *value),
{
    let addr = address as usize;
    match data_type {
        ModbusDataType::Bool => {
            if addr < regs.len() {
                regs.set(
                    addr,
                    if value.as_bool() {
                        1
                    } else {
                        0
                    },
                );
            }
        },
        ModbusDataType::Uint16 => {
            if addr < regs.len() {
                regs.set(addr, value.as_u16());
            }
        },
        ModbusDataType::Int16 => {
            if addr < regs.len() {
                regs.set(addr, i16_to_cell(value.as_i16()));
            }
        },
        ModbusDataType::Uint32 => {
            let val = value.as_u32();
            if addr + 1 < regs.len() {
                // Big-endian: high word first
                regs.set(addr, (val / 0x10000) as u16);
                regs.set(addr + 1, (val % 0x10000) as u16);
            }
        },
        ModbusDataType::Float32 => {
            let bits = value.as_single_bits();
            if addr + 1 < regs.len() {
                // Big-endian: high word first
                regs.set(addr, (bits / 0x10000) as u16);
                regs.set(addr + 1, (bits % 0x10000) as u16);
            }
        },
    }
}

/// Mark `rc` addresses from `address` in a defined-set, clamped to
/// the bank.
fn mark_range(defined: &mut Vec<bool>, address: u16, rc: u16)
    requires
        old(defined)@.len() == BANK_SIZE,
        rc == 1 || rc == 2,
    ensures
        final(defined)@ == Seq::new(
            old(defined)@.len(),
            |a: int| old(defined)@[a] || (address <= a < address + rc && a < BANK_SIZE),
        ),
{
    defined.set(address as usize, true);
    if rc == 2 {
        let a1 = address as usize + 1;
        if a1 < BANK_SIZE {
            defined.set(a1, true);
        }
    }
    proof {
        assert(defined@ =~= Seq::new(
            old(defined)@.len(),
            |a: int| old(defined)@[a] || (address <= a < address + rc && a < BANK_SIZE),
        ));
    }
}

/// The `u16` cell an `i16` value encodes to, as a spec.
pub open spec fn spec_i16_as_u16(v: i16) -> u16 {
    if v >= 0 {
        v as u16
    } else {
        (v + 65536) as u16
    }
}

/// Decode the value a register bank holds at an address, for a data
/// type; `None` where a two-word type runs out of the bank.
fn decode_value(regs: &Vec<u16>, dt: &ModbusDataType, address: u16) -> (r: Option<ModbusValue>)
    ensures
        r == spec_decode_value(*dt, regs@, address as int),
{
    let addr = address as usize;
    match dt {
        ModbusDataType::Bool => {
            if addr < regs.len() {
                Some(ModbusValue::Bool(regs[addr] != 0))
            } else {
                None
            }
        },
        ModbusDataType::Uint16 => {
            if addr < regs.len() {
                Some(ModbusValue::Number(crate::types::ModbusNumber::from_u16(regs[addr])))
            } else {
                None
            }
        },
        ModbusDataType::Int16 => {
            if addr < regs.len() {
                Some(
                    ModbusValue::Number(
                        crate::types::ModbusNumber::from_i16(cell_to_i16(regs[addr])),
                    ),
                )
            } else {
                None
            }
        },
        ModbusDataType::Uint32 => {
            if addr + 1 < regs.len() {
                let val: u32 = (regs[addr] as u32) * 0x10000 + (regs[addr + 1] as u32);
                Some(ModbusValue::Number(crate::types::ModbusNumber::from_u32(val)))
            } else {
                None
            }
        },
        ModbusDataType::Float32 => {
            if addr + 1 < regs.len() {
                let bits: u32 = (regs[addr] as u32) * 0x10000 + (regs[addr + 1] as u32);
                Some(ModbusValue::Number(crate::types::ModbusNumber::from_single(bits)))
            } else {
                None
            }
        },
    }
}

/// A vector of `n` copies of a boolean.
fn filled_bool(n: usize, x: bool) -> (v: Vec<bool>)
    ensures
        v@.len() == n,
        forall|i: int| 0 <= i < n ==> v@[i] == x,
{
    let mut v: Vec<bool> = Vec::new();
    let mut i: usize = 0;
    while i < n
        invariant
            i <= n,
            v@.len() == i,
            forall|k: int| 0 <= k < i ==> v@[k] == x,
        decreases n - i,
    {
        v.push(x);
        i = i + 1;
    }
    v
}

/// A vector of `n` zero words.
fn filled_u16(n: usize) -> (v: Vec<u16>)
    ensures
        v@.len() == n,
        forall|i: int| 0 <= i < n ==> v@[i] == 0u16,
{
    let mut v: Vec<u16> = Vec::new();
    let mut i: usize = 0;
    while i < n
        invariant
            i <= n,
            v@.len() == i,
            forall|k: int| 0 <= k < i ==> v@[k] == 0u16,
        decreases n - i,
    {
        v.push(0);
        i = i + 1;
    }
    v
}

impl ModbusDataStore {
    /// Create a new data store: zeroed banks, empty catalog, nothing
    /// defined.
    pub fn new() -> (s: Self)
        ensures
            s@.wf(),
            s@.variables.len() == 0,
            forall|i: int| 0 <= i < BANK_SIZE ==> !s@.coils[i] && !s@.discrete_inputs[i],
            forall|i: int|
                0 <= i < BANK_SIZE ==> s@.input_registers[i] == 0u16 && s@.holding_registers[i]
                    == 0u16,
            forall|i: int|
                0 <= i < BANK_SIZE ==> !s@.defined_coils[i] && !s@.defined_discrete_inputs[i]
                    && !s@.defined_holding_registers[i] && !s@.defined_input_registers[i],
    {
        ModbusDataStore {
            coils: filled_bool(BANK_SIZE, false),
            discrete_inputs: filled_bool(BANK_SIZE, false),
            input_registers: filled_u16(BANK_SIZE),
            holding_registers: filled_u16(BANK_SIZE),
            variables: Vec::new(),
            defined_coils: filled_bool(BANK_SIZE, false),
            defined_discrete_inputs: filled_bool(BANK_SIZE, false),
            defined_holding_registers: filled_bool(BANK_SIZE, false),
            defined_input_registers: filled_bool(BANK_SIZE, false),
        }
    }

    /// Clear all data: zero every bank cell, empty the catalog and
    /// the defined-sets.
    pub fn clear(&mut self)
        requires
            old(self)@.wf(),
        ensures
            final(self)@.wf(),
            final(self)@.variables.len() == 0,
            forall|i: int|
                0 <= i < BANK_SIZE ==> !final(self)@.coils[i] && !final(self)@.discrete_inputs[i],
            forall|i: int|
                0 <= i < BANK_SIZE ==> final(self)@.input_registers[i] == 0u16
                    && final(self)@.holding_registers[i] == 0u16,
            forall|i: int|
                0 <= i < BANK_SIZE ==> !final(self)@.defined_coils[i]
                    && !final(self)@.defined_discrete_inputs[i]
                    && !final(self)@.defined_holding_registers[i]
                    && !final(self)@.defined_input_registers[i],
    {
        self.coils = filled_bool(BANK_SIZE, false);
        self.discrete_inputs = filled_bool(BANK_SIZE, false);
        self.input_registers = filled_u16(BANK_SIZE);
        self.holding_registers = filled_u16(BANK_SIZE);
        self.variables = Vec::new();
        self.defined_coils = filled_bool(BANK_SIZE, false);
        self.defined_discrete_inputs = filled_bool(BANK_SIZE, false);
        self.defined_holding_registers = filled_bool(BANK_SIZE, false);
        self.defined_input_registers = filled_bool(BANK_SIZE, false);
    }

    /// Read coils starting from an address.  Strict: every address
    /// in the range must be defined.
    pub fn read_coils(&self, start: u16, count: u16) -> (r: Result<Vec<bool>, ExceptionCode>)
        requires
            self@.wf(),
        ensures
            r is Ok <==> self@.range_defined(ModbusArea::Coil, start as int, count as int),
            r is Err ==> r == Err::<Vec<bool>, ExceptionCode>(ExceptionCode::IllegalDataAddress),
            r is Ok ==> r->Ok_0@ == self@.coils.subrange(start as int, start as int + count as int),
    {
        if !range_all_defined(&self.defined_coils, start, count as usize) {
            return Err(ExceptionCode::IllegalDataAddress);
        }
        Ok(copy_bool_range(&self.coils, start, count))
    }

    /// Read discrete inputs starting from an address.  Strict.
    pub fn read_discrete_inputs(&self, start: u16, count: u16) -> (r: Result<
        Vec<bool>,
        ExceptionCode,
    >)
        requires
            self@.wf(),
        ensures
            r is Ok <==> self@.range_defined(ModbusArea::DiscreteInput, start as int, count as int),
            r is Err ==> r == Err::<Vec<bool>, ExceptionCode>(ExceptionCode::IllegalDataAddress),
            r is Ok ==> r->Ok_0@ == self@.discrete_inputs.subrange(
                start as int,
                start as int + count as int,
            ),
    {
        if !range_all_defined(&self.defined_discrete_inputs, start, count as usize) {
            return Err(ExceptionCode::IllegalDataAddress);
        }
        Ok(copy_bool_range(&self.discrete_inputs, start, count))
    }

    /// Read holding registers starting from an address.  Strict.
    pub fn read_holding_registers(&self, start: u16, count: u16) -> (r: Result<
        Vec<u16>,
        ExceptionCode,
    >)
        requires
            self@.wf(),
        ensures
            r is Ok <==> self@.range_defined(
                ModbusArea::HoldingRegister,
                start as int,
                count as int,
            ),
            r is Err ==> r == Err::<Vec<u16>, ExceptionCode>(ExceptionCode::IllegalDataAddress),
            r is Ok ==> r->Ok_0@ == self@.holding_registers.subrange(
                start as int,
                start as int + count as int,
            ),
    {
        if !range_all_defined(&self.defined_holding_registers, start, count as usize) {
            return Err(ExceptionCode::IllegalDataAddress);
        }
        Ok(copy_u16_range(&self.holding_registers, start, count))
    }

    /// Read input registers starting from an address.  Strict.
    pub fn read_input_registers(&self, start: u16, count: u16) -> (r: Result<
        Vec<u16>,
        ExceptionCode,
    >)
        requires
            self@.wf(),
        ensures
            r is Ok <==> self@.range_defined(ModbusArea::InputRegister, start as int, count as int),
            r is Err ==> r == Err::<Vec<u16>, ExceptionCode>(ExceptionCode::IllegalDataAddress),
            r is Ok ==> r->Ok_0@ == self@.input_registers.subrange(
                start as int,
                start as int + count as int,
            ),
    {
        if !range_all_defined(&self.defined_input_registers, start, count as usize) {
            return Err(ExceptionCode::IllegalDataAddress);
        }
        Ok(copy_u16_range(&self.input_registers, start, count))
    }

    /// Write one variable's value into the bank its area names.
    fn write_variable_value(&mut self, var: &ModbusVariable)
        ensures
            final(self)@ == spec_write_variable(old(self)@, *var),
    {
        match &var.area {
            ModbusArea::Coil => {
                let value = var.value.as_bool();
                if (var.address as usize) < self.coils.len() {
                    self.coils.set(var.address as usize, value);
                }
            },
            ModbusArea::DiscreteInput => {
                let value = var.value.as_bool();
                if (var.address as usize) < self.discrete_inputs.len() {
                    self.discrete_inputs.set(var.address as usize, value);
                }
            },
            ModbusArea::InputRegister => {
                write_register_value(
                    &mut self.input_registers,
                    var.address,
                    &var.data_type,
                    &var.value,
                );
            },
            ModbusArea::HoldingRegister => {
                write_register_value(
                    &mut self.holding_registers,
                    var.address,
                    &var.data_type,
                    &var.value,
                );
            },
        }
    }

    /// Mark every address a variable covers in its area's
    /// defined-set.
    fn mark_addresses_defined(&mut self, var: &ModbusVariable)
        requires
            old(self)@.wf(),
        ensures
            final(self)@ == spec_mark_defined(old(self)@, *var),
    {
        let rc = var.data_type.register_count();
        match &var.area {
            ModbusArea::Coil => {
                mark_range(&mut self.defined_coils, var.address, rc);
                proof {
                    assert(self@.defined_coils =~= spec_mark_defined(
                        old(self)@,
                        *var,
                    ).defined_coils);
                }
            },
            ModbusArea::DiscreteInput => {
                mark_range(&mut self.defined_discrete_inputs, var.address, rc);
                proof {
                    assert(self@.defined_discrete_inputs =~= spec_mark_defined(
                        old(self)@,
                        *var,
                    ).defined_discrete_inputs);
                }
            },
            ModbusArea::InputRegister => {
                mark_range(&mut self.defined_input_registers, var.address, rc);
                proof {
                    assert(self@.defined_input_registers =~= spec_mark_defined(
                        old(self)@,
                        *var,
                    ).defined_input_registers);
                }
            },
            ModbusArea::HoldingRegister => {
                mark_range(&mut self.defined_holding_registers, var.address, rc);
                proof {
                    assert(self@.defined_holding_registers =~= spec_mark_defined(
                        old(self)@,
                        *var,
                    ).defined_holding_registers);
                }
            },
        }
    }

    /// Insert a variable into the catalog, replacing an entry with
    /// the same id in place.
    fn insert_catalog(&mut self, var: &ModbusVariable)
        requires
            old(self)@.wf(),
        ensures
            final(self)@ == (StoreModel {
                variables: spec_insert_catalog(old(self)@.variables, *var),
                ..old(self)@
            }),
            final(self)@.wf(),
    {
        let ghost old_vars = self.variables@;
        let mut i: usize = 0;
        while i < self.variables.len()
            invariant
                i <= self.variables@.len(),
                self@ == old(self)@,
                old_vars == old(self)@.variables,
                old(self)@.wf(),
                forall|k: int| 0 <= k < i ==> self.variables@[k].id@ != var.id@,
            decreases self.variables@.len() - i,
        {
            if str_eq(self.variables[i].id.as_str(), var.id.as_str()) {
                self.variables.set(i, var.clone());
                proof {
                    assert(spec_has_id(old_vars, var.id@)) by {
                        assert(0 <= i < old_vars.len() && old_vars[i as int].id@ == var.id@);
                    }
                    let j = spec_index_of_id(old_vars, var.id@);
                    assert(0 <= j < old_vars.len() && old_vars[j].id@ == var.id@);
                    assert(j == i);
                }
                return ;
            }
            i = i + 1;
        }
        self.variables.push(var.clone());
        proof {
            assert(!spec_has_id(old_vars, var.id@));
        }
    }

    /// Load a variable catalog: clear the old catalog and every
    /// defined-set, then catalog, mark, and encode each variable in
    /// order.  Bank cells of formerly defined addresses are kept.
    pub fn load_variables(&mut self, variables: &[ModbusVariable])
        requires
            old(self)@.wf(),
        ensures
            final(self)@ == spec_load(spec_clear_catalog(old(self)@), variables@),
            final(self)@.wf(),
    {
        self.variables = Vec::new();
        self.defined_coils = filled_bool(BANK_SIZE, false);
        self.defined_discrete_inputs = filled_bool(BANK_SIZE, false);
        self.defined_holding_registers = filled_bool(BANK_SIZE, false);
        self.defined_input_registers = filled_bool(BANK_SIZE, false);
        proof {
            assert(self@.defined_coils =~= spec_clear_catalog(old(self)@).defined_coils);
            assert(self@.defined_discrete_inputs =~= spec_clear_catalog(
                old(self)@,
            ).defined_discrete_inputs);
            assert(self@.defined_holding_registers =~= spec_clear_catalog(
                old(self)@,
            ).defined_holding_registers);
            assert(self@.defined_input_registers =~= spec_clear_catalog(
                old(self)@,
            ).defined_input_registers);
            assert(self@ == spec_clear_catalog(old(self)@));
        }

        let ghost base = self@;
        let mut i: usize = 0;
        while i < variables.len()
            invariant
                i <= variables@.len(),
                base.wf(),
                self@.wf(),
                self@ == spec_load(base, variables@.subrange(0, i as int)),
            decreases variables@.len() - i,
        {
            let var = &variables[i];
            let ghost pre = self@;
            self.insert_catalog(var);
            self.mark_addresses_defined(var);
            self.write_variable_value(var);
            proof {
                assert(self@ == spec_load_one(pre, variables@[i as int]));
                lemma_spec_load_snoc(base, variables@.subrange(0, i as int), variables@[i as int]);
                assert(variables@.subrange(0, i as int).push(variables@[i as int])
                    =~= variables@.subrange(0, i + 1));
            }
            i = i + 1;
        }
        proof {
            assert(variables@.subrange(0, variables@.len() as int) =~= variables@);
        }
    }

    /// Update a variable's value by its id: replace the catalog
    /// value and re-encode it into the bank cells.  Returns whether
    /// the id was found.  Defined-sets are untouched.
    pub fn update_variable(&mut self, id: &str, value: ModbusValue) -> (r: bool)
        requires
            old(self)@.wf(),
        ensures
            r == spec_has_id(old(self)@.variables, id@),
            !r ==> final(self)@ == old(self)@,
            r ==> final(self)@ == spec_update_variable(
                old(self)@,
                spec_index_of_id(old(self)@.variables, id@),
                value,
            ),
            final(self)@.wf(),
    {
        let ghost old_vars = self.variables@;
        let mut i: usize = 0;
        while i < self.variables.len()
            invariant
                i <= self.variables@.len(),
                self@ == old(self)@,
                old_vars == old(self)@.variables,
                old(self)@.wf(),
                forall|k: int| 0 <= k < i ==> self.variables@[k].id@ != id@,
            decreases self.variables@.len() - i,
        {
            if str_eq(self.variables[i].id.as_str(), id) {
                let mut var = self.variables[i].clone();
                var.value = value;
                let var_clone = var.clone();
                self.variables.set(i, var);
                self.write_variable_value(&var_clone);
                proof {
                    assert(spec_has_id(old_vars, id@)) by {
                        assert(0 <= i < old_vars.len() && old_vars[i as int].id@ == id@);
                    }
                    let j = spec_index_of_id(old_vars, id@);
                    assert(0 <= j < old_vars.len() && old_vars[j].id@ == id@);
                    assert(j == i);
                    assert(var_clone == spec_with_value(old_vars[i as int], value));
                }
                return true;
            }
            i = i + 1;
        }
        proof {
            assert(!spec_has_id(old_vars, id@));
        }
        false
    }

    /// Set every coil variable at exactly this address to the
    /// written boolean.
    fn sync_variable_from_coil(&mut self, address: u16, value: bool)
        ensures
            final(self)@ == (StoreModel {
                variables: spec_sync_coil(old(self)@.variables, address, value),
                ..old(self)@
            }),
    {
        let ghost old_vars = self.variables@;
        let mut i: usize = 0;
        while i < self.variables.len()
            invariant
                i <= self.variables@.len(),
                self.variables@.len() == old_vars.len(),
                self@ == (StoreModel { variables: self.variables@, ..old(self)@ }),
                forall|k: int|
                    0 <= k < i ==> self.variables@[k] == spec_sync_coil(old_vars, address, value)[k],
                forall|k: int| i <= k < old_vars.len() ==> self.variables@[k] == old_vars[k],
            decreases self.variables@.len() - i,
        {
            let matched = match self.variables[i].area {
                ModbusArea::Coil => self.variables[i].address == address,
                _ => false,
            };
            if matched {
                let mut var = self.variables[i].clone();
                var.value = ModbusValue::Bool(value);
                self.variables.set(i, var);
            }
            i = i + 1;
        }
        proof {
            assert(self.variables@ =~= spec_sync_coil(old_vars, address, value));
        }
    }

    /// Re-decode every register variable anchored at exactly this
    /// address from the current bank cells.
    fn sync_variable_from_register(&mut self, area: ModbusArea, address: u16)
        ensures
            area == ModbusArea::HoldingRegister ==> final(self)@ == (StoreModel {
                variables: spec_sync_register(
                    old(self)@.variables,
                    area,
                    address,
                    old(self)@.holding_registers,
                ),
                ..old(self)@
            }),
            area == ModbusArea::InputRegister ==> final(self)@ == (StoreModel {
                variables: spec_sync_register(
                    old(self)@.variables,
                    area,
                    address,
                    old(self)@.input_registers,
                ),
                ..old(self)@
            }),
            area == ModbusArea::Coil || area == ModbusArea::DiscreteInput ==> final(self)@ == old(self)@,
    {
        let use_holding = match area {
            ModbusArea::HoldingRegister => true,
            ModbusArea::InputRegister => false,
            _ => {
                return ;
            },
        };
        let ghost old_vars = self.variables@;
        let ghost regs = if use_holding {
            self.holding_registers@
        } else {
            self.input_registers@
        };
        let mut i: usize = 0;
        while i < self.variables.len()
            invariant
                i <= self.variables@.len(),
                self.variables@.len() == old_vars.len(),
                use_holding == (area == ModbusArea::HoldingRegister),
                use_holding || area == ModbusArea::InputRegister,
                regs == if use_holding {
                    old(self)@.holding_registers
                } else {
                    old(self)@.input_registers
                },
                self@ == (StoreModel { variables: self.variables@, ..old(self)@ }),
                forall|k: int|
                    0 <= k < i ==> self.variables@[k] == spec_sync_register(
                        old_vars,
                        area,
                        address,
                        regs,
                    )[k],
                forall|k: int| i <= k < old_vars.len() ==> self.variables@[k] == old_vars[k],
            decreases self.variables@.len() - i,
        {
            let matched = match self.variables[i].area {
                ModbusArea::HoldingRegister => use_holding && self.variables[i].address == address,
                ModbusArea::InputRegister => !use_holding && self.variables[i].address == address,
                _ => false,
            };
            if matched {
                let decoded = if use_holding {
                    decode_value(&self.holding_registers, &self.variables[i].data_type, address)
                } else {
                    decode_value(&self.input_registers, &self.variables[i].data_type, address)
                };
                if let Some(val) = decoded {
                    let mut var = self.variables[i].clone();
                    var.value = val;
                    self.variables.set(i, var);
                }
            }
            i = i + 1;
        }
        proof {
            assert(self.variables@ =~= spec_sync_register(old_vars, area, address, regs));
        }
    }

    /// Write a single coil.  Strict: the address must be defined.
    pub fn write_single_coil(&mut self, address: u16, value: bool) -> (r: Result<
        (),
        ExceptionCode,
    >)
        requires
            old(self)@.wf(),
        ensures
            r is Ok <==> old(self)@.defined(ModbusArea::Coil, address as int),
            r is Err ==> r == Err::<(), ExceptionCode>(ExceptionCode::IllegalDataAddress) && final(self)@ == old(self)@,
            r is Ok ==> final(self)@ == (StoreModel {
                coils: old(self)@.coils.update(address as int, value),
                variables: spec_sync_coil(old(self)@.variables, address, value),
                ..old(self)@
            }),
            final(self)@.wf(),
    {
        if !self.defined_coils[address as usize] {
            return Err(ExceptionCode::IllegalDataAddress);
        }
        self.coils.set(address as usize, value);
        self.sync_variable_from_coil(address, value);
        Ok(())
    }

    /// Write multiple coils.  Strict and atomic: on any undefined
    /// address nothing changes.
    pub fn write_multiple_coils(&mut self, start: u16, values: &[bool]) -> (r: Result<
        (),
        ExceptionCode,
    >)
        requires
            old(self)@.wf(),
        ensures
            r is Ok <==> old(self)@.range_defined(
                ModbusArea::Coil,
                start as int,
                values@.len() as int,
            ),
            r is Err ==> r == Err::<(), ExceptionCode>(ExceptionCode::IllegalDataAddress) && final(self)@ == old(self)@,
            r is Ok ==> final(self)@ == (StoreModel {
                coils: Seq::new(
                    old(self)@.coils.len(),
                    |a: int|
                        if start <= a < start + values@.len() {
                            values@[a - start]
                        } else {
                            old(self)@.coils[a]
                        },
                ),
                variables: spec_sync_coil_range(old(self)@.variables, start, values@),
                ..old(self)@
            }),
            final(self)@.wf(),
    {
        if !range_all_defined(&self.defined_coils, start, values.len()) {
            return Err(ExceptionCode::IllegalDataAddress);
        }
        let ghost base = self@;
        proof {
            assert(Seq::new(
                base.coils.len(),
                |a: int|
                    if start <= a < start + 0 {
                        values@[a - start]
                    } else {
                        base.coils[a]
                    },
            ) =~= base.coils);
        }
        let mut i: usize = 0;
        while i < values.len()
            invariant
                i <= values@.len(),
                start + values@.len() <= BANK_SIZE,
                base.coils.len() == BANK_SIZE,
                self@ == (StoreModel {
                    coils: Seq::new(
                        base.coils.len(),
                        |a: int|
                            if start <= a < start + i {
                                values@[a - start]
                            } else {
                                base.coils[a]
                            },
                    ),
                    ..base
                }),
            decreases values@.len() - i,
        {
            self.coils.set(start as usize + i, values[i]);
            proof {
                assert(self@.coils =~= Seq::new(
                    base.coils.len(),
                    |a: int|
                        if start <= a < start + i + 1 {
                            values@[a - start]
                        } else {
                            base.coils[a]
                        },
                ));
            }
            i = i + 1;
        }

        // Sync catalog variables address by address.
        let ghost mid = self@;
        proof {
            assert(spec_sync_coil_range(mid.variables, start, values@.subrange(0, 0))
                =~= mid.variables);
        }
        let mut i: usize = 0;
        while i < values.len()
            invariant
                i <= values@.len(),
                start + values@.len() <= BANK_SIZE,
                self@ == (StoreModel {
                    variables: spec_sync_coil_range(
                        mid.variables,
                        start,
                        values@.subrange(0, i as int),
                    ),
                    ..mid
                }),
            decreases values@.len() - i,
        {
            self.sync_variable_from_coil(start + i as u16, values[i]);
            proof {
                lemma_sync_coil_range_step(mid.variables, start, values@, i as int);
                assert(values@.subrange(0, i as int) =~= values@.subrange(0, i + 1).drop_last());
            }
            i = i + 1;
        }
        proof {
            assert(values@.subrange(0, values@.len() as int) =~= values@);
        }
        Ok(())
    }

    /// Write a single holding register.  Strict.
    pub fn write_single_register(&mut self, address: u16, value: u16) -> (r: Result<
        (),
        ExceptionCode,
    >)
        requires
            old(self)@.wf(),
        ensures
            r is Ok <==> old(self)@.defined(ModbusArea::HoldingRegister, address as int),
            r is Err ==> r == Err::<(), ExceptionCode>(ExceptionCode::IllegalDataAddress) && final(self)@ == old(self)@,
            r is Ok ==> final(self)@ == (StoreModel {
                holding_registers: old(self)@.holding_registers.update(address as int, value),
                variables: spec_sync_register(
                    old(self)@.variables,
                    ModbusArea::HoldingRegister,
                    address,
                    old(self)@.holding_registers.update(address as int, value),
                ),
                ..old(self)@
            }),
            final(self)@.wf(),
    {
        if !self.defined_holding_registers[address as usize] {
            return Err(ExceptionCode::IllegalDataAddress);
        }
        self.holding_registers.set(address as usize, value);
        self.sync_variable_from_register(ModbusArea::HoldingRegister, address);
        Ok(())
    }

    /// Write multiple holding registers.  Strict and atomic.
    pub fn write_multiple_registers(&mut self, start: u16, values: &[u16]) -> (r: Result<
        (),
        ExceptionCode,
    >)
        requires
            old(self)@.wf(),
        ensures
            r is Ok <==> old(self)@.range_defined(
                ModbusArea::HoldingRegister,
                start as int,
                values@.len() as int,
            ),
            r is Err ==> r == Err::<(), ExceptionCode>(ExceptionCode::IllegalDataAddress) && final(self)@ == old(self)@,
            r is Ok ==> final(self)@.holding_registers == Seq::new(
                old(self)@.holding_registers.len(),
                |a: int|
                    if start <= a < start + values@.len() {
                        values@[a - start]
                    } else {
                        old(self)@.holding_registers[a]
                    },
            ),
            r is Ok ==> final(self)@ == (StoreModel {
                holding_registers: final(self)@.holding_registers,
                variables: spec_sync_register_range(
                    old(self)@.variables,
                    ModbusArea::HoldingRegister,
                    start,
                    values@.len() as int,
                    final(self)@.holding_registers,
                ),
                ..old(self)@
            }),
            final(self)@.wf(),
    {
        if !range_all_defined(&self.defined_holding_registers, start, values.len()) {
            return Err(ExceptionCode::IllegalDataAddress);
        }
        let ghost base = self@;
        proof {
            assert(Seq::new(
                base.holding_registers.len(),
                |a: int|
                    if start <= a < start + 0 {
                        values@[a - start]
                    } else {
                        base.holding_registers[a]
                    },
            ) =~= base.holding_registers);
        }
        let mut i: usize = 0;
        while i < values.len()
            invariant
                i <= values@.len(),
                start + values@.len() <= BANK_SIZE,
                base.holding_registers.len() == BANK_SIZE,
                self@ == (StoreModel {
                    holding_registers: Seq::new(
                        base.holding_registers.len(),
                        |a: int|
                            if start <= a < start + i {
                                values@[a - start]
                            } else {
                                base.holding_registers[a]
                            },
                    ),
                    ..base
                }),
            decreases values@.len() - i,
        {
            self.holding_registers.set(start as usize + i, values[i]);
            proof {
                assert(self@.holding_registers =~= Seq::new(
                    base.holding_registers.len(),
                    |a: int|
                        if start <= a < start + i + 1 {
                            values@[a - start]
                        } else {
                            base.holding_registers[a]
                        },
                ));
            }
            i = i + 1;
        }

        // Sync catalog variables for each written address; the bank
        // no longer changes, so every decode sees the final cells.
        let ghost mid = self@;
        proof {
            assert(spec_sync_register_range(
                mid.variables,
                ModbusArea::HoldingRegister,
                start,
                0,
                mid.holding_registers,
            ) =~= mid.variables);
        }
        let mut i: usize = 0;
        while i < values.len()
            invariant
                i <= values@.len(),
                start + values@.len() <= BANK_SIZE,
                self@ == (StoreModel {
                    variables: spec_sync_register_range(
                        mid.variables,
                        ModbusArea::HoldingRegister,
                        start,
                        i as int,
                        mid.holding_registers,
                    ),
                    ..mid
                }),
            decreases values@.len() - i,
        {
            self.sync_variable_from_register(ModbusArea::HoldingRegister, start + i as u16);
            proof {
                lemma_sync_register_range_step(
                    mid.variables,
                    ModbusArea::HoldingRegister,
                    start,
                    i as int,
                    mid.holding_registers,
                );
            }
            i = i + 1;
        }
        Ok(())
    }

    /// Get a snapshot of all current variables with their values.
    pub fn get_variables(&self) -> (v: Vec<ModbusVariable>)
        ensures
            v@ == self@.variables,
    {
        let mut out: Vec<ModbusVariable> = Vec::new();
        let mut i: usize = 0;
        while i < self.variables.len()
            invariant
                i <= self.variables@.len(),
                out@ == self.variables@.subrange(0, i as int),
            decreases self.variables@.len() - i,
        {
            out.push(self.variables[i].clone());
            proof {
                assert(out@ =~= self.variables@.subrange(0, i + 1));
            }
            i = i + 1;
        }
        proof {
            assert(out@ =~= self.variables@);
        }
        out
    }
}


/// The bit bank of a bit area.
pub open spec fn spec_area_bits(m: StoreModel, area: ModbusArea) -> Seq<bool> {
    if area == ModbusArea::Coil {
        m.coils
    } else {
        m.discrete_inputs
    }
}

/// The word bank of a register area.
pub open spec fn spec_area_words(m: StoreModel, area: ModbusArea) -> Seq<u16> {
    if area == ModbusArea::HoldingRegister {
        m.holding_registers
    } else {
        m.input_registers
    }
}

/// Whether an area is a bit area.
pub open spec fn spec_is_bit_area(area: ModbusArea) -> bool {
    area == ModbusArea::Coil || area == ModbusArea::DiscreteInput
}

/// The words a typed value encodes to, high word first.
pub open spec fn spec_encoded_words(dt: ModbusDataType, value: ModbusValue) -> Seq<u16> {
    match dt {
        ModbusDataType::Bool => seq![
            if value.spec_as_bool() {
                1u16
            } else {
                0u16
            },
        ],
        ModbusDataType::Uint16 => seq![value.spec_as_u16()],
        ModbusDataType::Int16 => seq![spec_i16_as_u16(value.spec_as_i16())],
        ModbusDataType::Uint32 => seq![
            spec_hi32(value.spec_as_u32()),
            spec_lo32(value.spec_as_u32()),
        ],
        ModbusDataType::Float32 => seq![
            spec_hi32(value.spec_as_single_bits()),
            spec_lo32(value.spec_as_single_bits()),
        ],
    }
}

/// The value a freshly encoded value reads back as: the original up
/// to its type's lossy coercion (null and booleans come back as the
/// numbers or bits they encode to).
pub open spec fn spec_canonical_value(dt: ModbusDataType, value: ModbusValue) -> ModbusValue {
    match dt {
        ModbusDataType::Bool => ModbusValue::Bool(value.spec_as_bool()),
        ModbusDataType::Uint16 => ModbusValue::Number(spec_number_from_u16(value.spec_as_u16())),
        ModbusDataType::Int16 => ModbusValue::Number(spec_number_from_i16(value.spec_as_i16())),
        ModbusDataType::Uint32 => ModbusValue::Number(spec_number_from_u32(value.spec_as_u32())),
        ModbusDataType::Float32 => ModbusValue::Number(
            spec_number_from_single(value.spec_as_single_bits()),
        ),
    }
}

/// Decoding a span that holds a value's encoded words gives the
/// value back, up to its type's lossy coercion.
pub proof fn lemma_decode_encoded_span(
    regs: Seq<u16>,
    address: u16,
    dt: ModbusDataType,
    value: ModbusValue,
)
    requires
        address + spec_register_count(dt) <= regs.len(),
        regs.subrange(
            address as int,
            address + spec_register_count(dt),
        ) == spec_encoded_words(dt, value),
    ensures
        spec_decode_value(dt, regs, address as int) == Some(spec_canonical_value(dt, value)),
{
    let a = address as int;
    let rc = spec_register_count(dt) as int;
    let span = regs.subrange(a, a + rc);
    assert(regs[a] == span[0]);
    match dt {
        ModbusDataType::Bool => {
        },
        ModbusDataType::Uint16 => {
        },
        ModbusDataType::Int16 => {
            let v = value.spec_as_i16();
            assert(spec_cell_as_i16(spec_i16_as_u16(v)) == v);
        },
        ModbusDataType::Uint32 => {
            assert(regs[a + 1] == span[1]);
            let v = value.spec_as_u32();
            assert(spec_hi32(v) * 0x10000 + spec_lo32(v) == v);
        },
        ModbusDataType::Float32 => {
            assert(regs[a + 1] == span[1]);
            let v = value.spec_as_single_bits();
            assert(spec_hi32(v) * 0x10000 + spec_lo32(v) == v);
        },
    }
}

/// Multi-word atomicity, as the sequential core guarantees it: the
/// bank a successful multiple-register write produces holds exactly
/// the new words over the written span and the old words everywhere
/// else.  A reader therefore sees the whole new span after the call
/// and the whole old span before it, never a mix (the server holds
/// the store lock across each complete operation).
pub proof fn lemma_multi_word_atomicity(regs: Seq<u16>, start: u16, values: Seq<u16>)
    requires
        start + values.len() <= regs.len(),
    ensures
        Seq::new(
            regs.len(),
            |a: int|
                if start <= a < start + values.len() {
                    values[a - start]
                } else {
                    regs[a]
                },
        ).subrange(start as int, start + values.len()) == values,
        forall|a: int|
            0 <= a < regs.len() && !(start <= a < start + values.len()) ==> Seq::new(
                regs.len(),
                |b: int|
                    if start <= b < start + values.len() {
                        values[b - start]
                    } else {
                        regs[b]
                    },
            )[a] == regs[a],
{
    assert(Seq::new(
        regs.len(),
        |a: int|
            if start <= a < start + values.len() {
                values[a - start]
            } else {
                regs[a]
            },
    ).subrange(start as int, start + values.len()) =~= values);
}

/// Two variables whose occupied spans intersect in the same area.
pub open spec fn spec_spans_overlap(v: ModbusVariable, w: ModbusVariable) -> bool {
    &&& v.area == w.area
    &&& v.address < w.address + spec_register_count(w.data_type)
    &&& w.address < v.address + spec_register_count(v.data_type)
}

/// A catalog list fit for a round trip: every span inside the
/// address space, ids unique, no two spans overlapping.
pub open spec fn spec_loadable(vars: Seq<ModbusVariable>) -> bool {
    &&& forall|i: int|
        0 <= i < vars.len() ==> (#[trigger] vars[i]).address + spec_register_count(
            vars[i].data_type,
        ) <= BANK_SIZE
    &&& forall|i: int, j: int| 0 <= i < j < vars.len() ==> vars[i].id@ != vars[j].id@
    &&& forall|i: int, j: int|
        0 <= i < j < vars.len() ==> !spec_spans_overlap(vars[i], vars[j])
}

/// All nine banks and sets span the whole address space.
pub open spec fn spec_shape_ok(m: StoreModel) -> bool {
    &&& m.coils.len() == BANK_SIZE
    &&& m.discrete_inputs.len() == BANK_SIZE
    &&& m.input_registers.len() == BANK_SIZE
    &&& m.holding_registers.len() == BANK_SIZE
    &&& m.defined_coils.len() == BANK_SIZE
    &&& m.defined_discrete_inputs.len() == BANK_SIZE
    &&& m.defined_holding_registers.len() == BANK_SIZE
    &&& m.defined_input_registers.len() == BANK_SIZE
}

/// Loading one variable keeps the shape.
pub proof fn lemma_load_one_shape(m: StoreModel, v: ModbusVariable)
    requires
        spec_shape_ok(m),
    ensures
        spec_shape_ok(spec_load_one(m, v)),
{
}

/// Loading keeps the shape.
pub proof fn lemma_load_shape(m: StoreModel, vars: Seq<ModbusVariable>)
    requires
        spec_shape_ok(m),
    ensures
        spec_shape_ok(spec_load(m, vars)),
    decreases vars.len(),
{
    if vars.len() > 0 {
        lemma_load_one_shape(m, vars[0]);
        lemma_load_shape(spec_load_one(m, vars[0]), vars.drop_first());
    }
}

/// Loading never removes a defined mark.
pub proof fn lemma_load_grows_defined(
    m: StoreModel,
    vars: Seq<ModbusVariable>,
    area: ModbusArea,
    a: int,
)
    requires
        spec_shape_ok(m),
        0 <= a < BANK_SIZE,
        m.defined(area, a),
    ensures
        spec_load(m, vars).defined(area, a),
    decreases vars.len(),
{
    if vars.len() > 0 {
        lemma_load_one_shape(m, vars[0]);
        assert(spec_load_one(m, vars[0]).defined(area, a));
        lemma_load_grows_defined(spec_load_one(m, vars[0]), vars.drop_first(), area, a);
    }
}

/// Loading variables none of which covers a given address of an area
/// leaves that cell of the area's bank unchanged.
pub proof fn lemma_load_preserves_cell(
    m: StoreModel,
    vars: Seq<ModbusVariable>,
    area: ModbusArea,
    a: int,
)
    requires
        spec_shape_ok(m),
        0 <= a < BANK_SIZE,
        forall|i: int|
            0 <= i < vars.len() ==> !((#[trigger] vars[i]).area == area && vars[i].address <= a
                < vars[i].address + spec_register_count(vars[i].data_type)),
    ensures
        spec_is_bit_area(area) ==> spec_area_bits(spec_load(m, vars), area)[a] == spec_area_bits(
            m,
            area,
        )[a],
        !spec_is_bit_area(area) ==> spec_area_words(spec_load(m, vars), area)[a]
            == spec_area_words(m, area)[a],
    decreases vars.len(),
{
    if vars.len() > 0 {
        let v = vars[0];
        let m1 = spec_load_one(m, v);
        lemma_load_one_shape(m, v);
        assert(spec_is_bit_area(area) ==> spec_area_bits(m1, area)[a] == spec_area_bits(
            m,
            area,
        )[a]);
        assert(!spec_is_bit_area(area) ==> spec_area_words(m1, area)[a] == spec_area_words(
            m,
            area,
        )[a]);
        assert(forall|i: int|
            0 <= i < vars.drop_first().len() ==> vars.drop_first()[i] == vars[i + 1]);
        lemma_load_preserves_cell(m1, vars.drop_first(), area, a);
    }
}

/// Loading variables with fresh, unique ids appends them to the
/// catalog in order.
pub proof fn lemma_load_catalog(m: StoreModel, vars: Seq<ModbusVariable>)
    requires
        forall|i: int, j: int|
            0 <= i < j < m.variables.len() ==> m.variables[i].id@ != m.variables[j].id@,
        forall|i: int, j: int|
            0 <= i < vars.len() && 0 <= j < m.variables.len() ==> (#[trigger] vars[i]).id@ != (
            #[trigger] m.variables[j]).id@,
        forall|i: int, j: int| 0 <= i < j < vars.len() ==> vars[i].id@ != vars[j].id@,
    ensures
        spec_load(m, vars).variables == m.variables + vars,
    decreases vars.len(),
{
    if vars.len() == 0 {
        assert(m.variables + vars =~= m.variables);
    } else {
        let v = vars[0];
        assert(!spec_has_id(m.variables, v.id@));
        let m1 = spec_load_one(m, v);
        assert(m1.variables == m.variables.push(v));
        assert(forall|i: int|
            0 <= i < vars.drop_first().len() ==> vars.drop_first()[i] == vars[i + 1]);
        lemma_load_catalog(m1, vars.drop_first());
        assert(m.variables.push(v) + vars.drop_first() =~= m.variables + vars);
    }
}

/// Loading one variable writes its encoded words over its span and
/// marks every address of the span defined.
pub proof fn lemma_load_one_effect(m: StoreModel, v: ModbusVariable)
    requires
        spec_shape_ok(m),
        v.address + spec_register_count(v.data_type) <= BANK_SIZE,
    ensures
        spec_is_bit_area(v.area) ==> spec_area_bits(spec_load_one(m, v), v.area)[v.address as int]
            == v.value.spec_as_bool(),
        !spec_is_bit_area(v.area) ==> spec_area_words(spec_load_one(m, v), v.area).subrange(
            v.address as int,
            v.address + spec_register_count(v.data_type),
        ) == spec_encoded_words(v.data_type, v.value),
        forall|a: int|
            v.address <= a < v.address + spec_register_count(v.data_type) ==> spec_load_one(
                m,
                v,
            ).defined(v.area, a),
{
    let m2 = spec_load_one(m, v);
    let rc = spec_register_count(v.data_type) as int;
    if !spec_is_bit_area(v.area) {
        assert(spec_area_words(m2, v.area).subrange(v.address as int, v.address + rc)
            =~= spec_encoded_words(v.data_type, v.value));
    }
}

/// Round trip: after a fresh load of a loadable catalog, each
/// variable's span is defined in its area, the bank cells under the
/// span hold exactly the variable's encoded words (its boolean, for
/// bit areas), and the catalog lists the variables unchanged, in
/// order.  With `lemma_decode_encoded_span`, the span decodes back
/// to the variable's value up to its type's lossy coercion.
pub proof fn lemma_load_round_trip(m: StoreModel, vars: Seq<ModbusVariable>, k: int)
    requires
        m.wf(),
        spec_loadable(vars),
        0 <= k < vars.len(),
    ensures
        spec_load(spec_clear_catalog(m), vars).variables == vars,
        spec_load(spec_clear_catalog(m), vars).range_defined(
            vars[k].area,
            vars[k].address as int,
            spec_register_count(vars[k].data_type) as int,
        ),
        spec_is_bit_area(vars[k].area) ==> spec_area_bits(
            spec_load(spec_clear_catalog(m), vars),
            vars[k].area,
        )[vars[k].address as int] == vars[k].value.spec_as_bool(),
        !spec_is_bit_area(vars[k].area) ==> spec_area_words(
            spec_load(spec_clear_catalog(m), vars),
            vars[k].area,
        ).subrange(
            vars[k].address as int,
            vars[k].address + spec_register_count(vars[k].data_type),
        ) == spec_encoded_words(vars[k].data_type, vars[k].value),
{
    let m0 = spec_clear_catalog(m);
    assert(spec_shape_ok(m0));
    lemma_load_catalog(m0, vars);
    assert(m0.variables + vars =~= vars);
    lemma_load_body(m0, vars, k);
}

/// Induction core of the round trip, generalised over the starting
/// model.
proof fn lemma_load_body(m0: StoreModel, vars: Seq<ModbusVariable>, k: int)
    requires
        spec_shape_ok(m0),
        spec_loadable(vars),
        0 <= k < vars.len(),
    ensures
        spec_load(m0, vars).range_defined(
            vars[k].area,
            vars[k].address as int,
            spec_register_count(vars[k].data_type) as int,
        ),
        spec_is_bit_area(vars[k].area) ==> spec_area_bits(
            spec_load(m0, vars),
            vars[k].area,
        )[vars[k].address as int] == vars[k].value.spec_as_bool(),
        !spec_is_bit_area(vars[k].area) ==> spec_area_words(
            spec_load(m0, vars),
            vars[k].area,
        ).subrange(
            vars[k].address as int,
            vars[k].address + spec_register_count(vars[k].data_type),
        ) == spec_encoded_words(vars[k].data_type, vars[k].value),
    decreases vars.len(),
{
    let v0 = vars[0];
    let m1 = spec_load_one(m0, v0);
    lemma_load_one_shape(m0, v0);
    lemma_load_shape(m1, vars.drop_first());
    assert(spec_load(m0, vars) == spec_load(m1, vars.drop_first()));
    assert(forall|i: int|
        0 <= i < vars.drop_first().len() ==> vars.drop_first()[i] == vars[i + 1]);
    if k == 0 {
        let v = vars[0];
        let rc = spec_register_count(v.data_type) as int;
        lemma_load_one_effect(m0, v);
        // Later variables do not overlap this span, so its cells
        // survive the rest of the load.
        assert forall|a: int| v.address <= a < v.address + rc implies (spec_is_bit_area(v.area)
            ==> spec_area_bits(spec_load(m1, vars.drop_first()), v.area)[a] == spec_area_bits(
            m1,
            v.area,
        )[a]) && (!spec_is_bit_area(v.area) ==> spec_area_words(
            spec_load(m1, vars.drop_first()),
            v.area,
        )[a] == spec_area_words(m1, v.area)[a]) && spec_load(m1, vars.drop_first()).defined(
            v.area,
            a,
        ) by {
            assert(forall|i: int|
                0 <= i < vars.drop_first().len() ==> !spec_spans_overlap(
                    v,
                    #[trigger] vars.drop_first()[i],
                ));
            lemma_load_preserves_cell(m1, vars.drop_first(), v.area, a);
            lemma_load_grows_defined(m1, vars.drop_first(), v.area, a);
        }
        if !spec_is_bit_area(v.area) {
            assert(spec_area_words(spec_load(m1, vars.drop_first()), v.area).subrange(
                v.address as int,
                v.address + rc,
            ) =~= spec_area_words(m1, v.area).subrange(v.address as int, v.address + rc));
        }
        let m2 = spec_load(m0, vars);
        match v.area {
            ModbusArea::Coil => {
                assert forall|a: int| v.address <= a < v.address + rc implies m2.defined_coils[a] by {
                    lemma_load_grows_defined(m1, vars.drop_first(), v.area, a);
                    assert(m2.defined(v.area, a));
                }
            },
            ModbusArea::DiscreteInput => {
                assert forall|a: int|
                    v.address <= a < v.address + rc implies m2.defined_discrete_inputs[a] by {
                    lemma_load_grows_defined(m1, vars.drop_first(), v.area, a);
                    assert(m2.defined(v.area, a));
                }
            },
            ModbusArea::InputRegister => {
                assert forall|a: int|
                    v.address <= a < v.address + rc implies m2.defined_input_registers[a] by {
                    lemma_load_grows_defined(m1, vars.drop_first(), v.area, a);
                    assert(m2.defined(v.area, a));
                }
            },
            ModbusArea::HoldingRegister => {
                assert forall|a: int|
                    v.address <= a < v.address + rc implies m2.defined_holding_registers[a] by {
                    lemma_load_grows_defined(m1, vars.drop_first(), v.area, a);
                    assert(m2.defined(v.area, a));
                }
            },
        }
    } else {
        lemma_load_body(m1, vars.drop_first(), k - 1);
        assert(vars.drop_first()[k - 1] == vars[k]);
    }
}

} // verus!
