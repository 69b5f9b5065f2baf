//! Core data model: memory areas, data types, values and variables.

use vstd::prelude::*;

verus! {

use crate::ieee::{
    single_of_u32, single_to_u16, single_to_i16, single_to_u32, spec_single_of_u32,
    spec_single_to_u16, spec_single_to_i16, spec_single_to_u32, single_is_nonzero,
};

/// Modbus memory area.
#[derive(Debug, Clone, Copy, PartialEq, Eq, Structural)]
pub enum ModbusArea {
    /// Coils (0x) - read/write single bit
    Coil,
    /// Discrete Inputs (1x) - read-only single bit
    DiscreteInput,
    /// Input Registers (3x) - read-only 16-bit
    InputRegister,
    /// Holding Registers (4x) - read/write 16-bit
    HoldingRegister,
}

/// Data type for interpreting register values.
#[derive(Debug, Clone, Copy, PartialEq, Eq, Structural)]
pub enum ModbusDataType {
    Bool,
    Uint16,
    Int16,
    Uint32,
    Float32,
}

/// Number of 16-bit words a data type occupies, as a spec-level view.
pub open spec fn spec_register_count(dt: ModbusDataType) -> u16 {
    match dt {
        ModbusDataType::Bool => 1,
        ModbusDataType::Uint16 => 1,
        ModbusDataType::Int16 => 1,
        ModbusDataType::Uint32 => 2,
        ModbusDataType::Float32 => 2,
    }
}

impl ModbusDataType {
    /// Returns the number of 16-bit registers this data type occupies.
    pub fn register_count(&self) -> (n: u16)
        ensures
            n == spec_register_count(*self),
    {
        match self {
            ModbusDataType::Bool => 1,
            ModbusDataType::Uint16 => 1,
            ModbusDataType::Int16 => 1,
            ModbusDataType::Uint32 => 2,
            ModbusDataType::Float32 => 2,
        }
    }
}

/// A catalog number, held as the fixed-width encodings the protocol
/// path reads from it.  The desktop front end deals in double-precision
/// numbers; the boundary converts each incoming number once into this
/// record (truncating, saturating casts and the single-precision bit
/// pattern), and the verified core never touches a float.
#[derive(Debug, Clone, Copy, PartialEq, Eq, Structural)]
pub struct ModbusNumber {
    /// The number cast to `u16` (truncated toward zero, saturating).
    pub to_u16: u16,
    /// The number cast to `i16`.
    pub to_i16: i16,
    /// The number cast to `u32`.
    pub to_u32: u32,
    /// IEEE-754 single-precision bits of the number.
    pub single_bits: u32,
    /// Whether the number compares unequal to zero.
    pub nonzero: bool,
}

/// The number zero.
pub open spec fn spec_number_zero() -> ModbusNumber {
    ModbusNumber { to_u16: 0, to_i16: 0, to_u32: 0, single_bits: 0, nonzero: false }
}

/// The number a 16-bit register cell decodes to.
pub open spec fn spec_number_from_u16(v: u16) -> ModbusNumber {
    ModbusNumber {
        to_u16: v,
        to_i16: if v > 32767 {
            32767i16
        } else {
            v as i16
        },
        to_u32: v as u32,
        single_bits: spec_single_of_u32(v as u32),
        nonzero: v != 0,
    }
}

/// The number a signed 16-bit cell decodes to.
pub open spec fn spec_number_from_i16(v: i16) -> ModbusNumber {
    ModbusNumber {
        to_u16: if v < 0 {
            0u16
        } else {
            v as u16
        },
        to_i16: v,
        to_u32: if v < 0 {
            0u32
        } else {
            v as u32
        },
        single_bits: if v >= 0 {
            spec_single_of_u32(v as u32)
        } else {
            (0x80000000 + spec_single_of_u32((-(v as int)) as u32)) as u32
        },
        nonzero: v != 0,
    }
}

/// The number a 32-bit register pair decodes to.
pub open spec fn spec_number_from_u32(v: u32) -> ModbusNumber {
    ModbusNumber {
        to_u16: if v > 0xFFFF {
            0xFFFFu16
        } else {
            v as u16
        },
        to_i16: if v > 32767 {
            32767i16
        } else {
            v as i16
        },
        to_u32: v,
        single_bits: spec_single_of_u32(v),
        nonzero: v != 0,
    }
}

/// The number a single-precision register pair decodes to.
pub open spec fn spec_number_from_single(bits: u32) -> ModbusNumber {
    ModbusNumber {
        to_u16: spec_single_to_u16(bits),
        to_i16: spec_single_to_i16(bits),
        to_u32: spec_single_to_u32(bits),
        single_bits: bits,
        nonzero: single_is_nonzero(bits),
    }
}

impl ModbusNumber {
    /// The number equal to the given unsigned 16-bit integer.
    pub fn from_u16(v: u16) -> (n: ModbusNumber)
        ensures
            n == spec_number_from_u16(v),
    {
        ModbusNumber {
            to_u16: v,
            to_i16: if v > 32767 {
                32767
            } else {
                v as i16
            },
            to_u32: v as u32,
            single_bits: single_of_u32(v as u32),
            nonzero: v != 0,
        }
    }

    /// The number equal to the given signed 16-bit integer.
    pub fn from_i16(v: i16) -> (n: ModbusNumber)
        ensures
            n == spec_number_from_i16(v),
    {
        let mag_bits: u32 = if v >= 0 {
            single_of_u32(v as u32)
        } else {
            let mag: i32 = -(v as i32);
            let enc: u32 = single_of_u32(mag as u32);
            proof {
                crate::ieee::lemma_single_of_u32_bound(mag as u32);
            }
            0x80000000u32 + enc
        };
        ModbusNumber {
            to_u16: if v < 0 {
                0
            } else {
                v as u16
            },
            to_i16: v,
            to_u32: if v < 0 {
                0
            } else {
                v as u32
            },
            single_bits: mag_bits,
            nonzero: v != 0,
        }
    }

    /// The number equal to the given unsigned 32-bit integer.
    pub fn from_u32(v: u32) -> (n: ModbusNumber)
        ensures
            n == spec_number_from_u32(v),
    {
        ModbusNumber {
            to_u16: if v > 0xFFFF {
                0xFFFF
            } else {
                v as u16
            },
            to_i16: if v > 32767 {
                32767
            } else {
                v as i16
            },
            to_u32: v,
            single_bits: single_of_u32(v),
            nonzero: v != 0,
        }
    }

    /// The number carried by the given single-precision bits.
    pub fn from_single(bits: u32) -> (n: ModbusNumber)
        ensures
            n == spec_number_from_single(bits),
    {
        ModbusNumber {
            to_u16: single_to_u16(bits),
            to_i16: single_to_i16(bits),
            to_u32: single_to_u32(bits),
            single_bits: bits,
            nonzero: bits != 0 && bits != 0x80000000,
        }
    }
}

/// Value of a variable: a boolean, a number, or null.  Null coerces
/// to zero and false everywhere.
#[derive(Debug, Clone, Copy, PartialEq, Eq, Structural)]
pub enum ModbusValue {
    Bool(bool),
    Number(ModbusNumber),
    Null,
}

impl ModbusValue {
    /// The boolean coercion, as reads of coil-area variables use it.
    pub open spec fn spec_as_bool(self) -> bool {
        match self {
            ModbusValue::Bool(b) => b,
            ModbusValue::Number(n) => n.nonzero,
            ModbusValue::Null => false,
        }
    }

    /// The `u16` coercion.
    pub open spec fn spec_as_u16(self) -> u16 {
        match self {
            ModbusValue::Bool(b) => if b {
                1u16
            } else {
                0u16
            },
            ModbusValue::Number(n) => n.to_u16,
            ModbusValue::Null => 0u16,
        }
    }

    /// The `i16` coercion.
    pub open spec fn spec_as_i16(self) -> i16 {
        match self {
            ModbusValue::Bool(b) => if b {
                1i16
            } else {
                0i16
            },
            ModbusValue::Number(n) => n.to_i16,
            ModbusValue::Null => 0i16,
        }
    }

    /// The `u32` coercion.
    pub open spec fn spec_as_u32(self) -> u32 {
        match self {
            ModbusValue::Bool(b) => if b {
                1u32
            } else {
                0u32
            },
            ModbusValue::Number(n) => n.to_u32,
            ModbusValue::Null => 0u32,
        }
    }

    /// The single-precision bits of the value (1.0 or 0.0 for booleans).
    pub open spec fn spec_as_single_bits(self) -> u32 {
        match self {
            ModbusValue::Bool(b) => if b {
                0x3F800000u32
            } else {
                0u32
            },
            ModbusValue::Number(n) => n.single_bits,
            ModbusValue::Null => 0u32,
        }
    }

    /// Convert the value to a boolean (for coils/discrete inputs).
    pub fn as_bool(&self) -> (r: bool)
        ensures
            r == self.spec_as_bool(),
    {
        match self {
            ModbusValue::Bool(b) => *b,
            ModbusValue::Number(n) => n.nonzero,
            ModbusValue::Null => false,
        }
    }

    /// Convert the value to a `u16` (for registers).
    pub fn as_u16(&self) -> (r: u16)
        ensures
            r == self.spec_as_u16(),
    {
        match self {
            ModbusValue::Bool(b) => if *b {
                1
            } else {
                0
            },
            ModbusValue::Number(n) => n.to_u16,
            ModbusValue::Null => 0,
        }
    }

    /// Convert the value to an `i16`.
    pub fn as_i16(&self) -> (r: i16)
        ensures
            r == self.spec_as_i16(),
    {
        match self {
            ModbusValue::Bool(b) => if *b {
                1
            } else {
                0
            },
            ModbusValue::Number(n) => n.to_i16,
            ModbusValue::Null => 0,
        }
    }

    /// Convert the value to a `u32`.
    pub fn as_u32(&self) -> (r: u32)
        ensures
            r == self.spec_as_u32(),
    {
        match self {
            ModbusValue::Bool(b) => if *b {
                1
            } else {
                0
            },
            ModbusValue::Number(n) => n.to_u32,
            ModbusValue::Null => 0,
        }
    }

    /// The single-precision bits of the value.
    pub fn as_single_bits(&self) -> (r: u32)
        ensures
            r == self.spec_as_single_bits(),
    {
        match self {
            ModbusValue::Bool(b) => if *b {
                0x3F800000
            } else {
                0
            },
            ModbusValue::Number(n) => n.single_bits,
            ModbusValue::Null => 0,
        }
    }
}

impl Default for ModbusValue {
    /// The default value is the number zero.
    fn default() -> (r: Self)
        ensures
            r == ModbusValue::Number(spec_number_zero()),
    {
        ModbusValue::Number(
            ModbusNumber { to_u16: 0, to_i16: 0, to_u32: 0, single_bits: 0, nonzero: false },
        )
    }
}

/// A single Modbus variable definition.
#[derive(Debug)]
pub struct ModbusVariable {
    /// Unique id within a catalog load.
    pub id: String,
    pub name: String,
    pub area: ModbusArea,
    /// Address of the register/coil (0-based, first occupied word).
    pub address: u16,
    pub data_type: ModbusDataType,
    /// Current value that is returned to the master.
    pub value: ModbusValue,
    /// Bit within register (for bool in holding/input register), optional.
    pub bit: Option<u8>,
    /// Whether this variable is read-only.
    pub readonly: Option<bool>,
    /// User note/comment.
    pub note: Option<String>,
}

impl Clone for ModbusVariable {
    /// Field-for-field copy.
    fn clone(&self) -> (res: Self)
        ensures
            res == *self,
    {
        ModbusVariable {
            id: self.id.clone(),
            name: self.name.clone(),
            area: self.area,
            address: self.address,
            data_type: self.data_type,
            value: self.value,
            bit: self.bit,
            readonly: self.readonly,
            note: match &self.note {
                Some(s) => Some(s.clone()),
                None => None,
            },
        }
    }
}

/// Connection profile for the Modbus slave.
#[derive(Debug)]
pub struct ModbusConnectionProfile {
    pub id: String,
    pub name: String,
    pub host: String,
    pub port: u16,
    pub unit_id: u8,
}

impl Clone for ModbusConnectionProfile {
    /// Field-for-field copy.
    fn clone(&self) -> (res: Self)
        ensures
            res == *self,
    {
        ModbusConnectionProfile {
            id: self.id.clone(),
            name: self.name.clone(),
            host: self.host.clone(),
            port: self.port,
            unit_id: self.unit_id,
        }
    }
}

impl Default for ModbusConnectionProfile {
    /// The local default profile.
    fn default() -> (r: Self)
        ensures
            r.id@ == "default"@,
            r.host@ == "127.0.0.1"@,
            r.port == 502,
            r.unit_id == 1,
    {
        ModbusConnectionProfile {
            id: "default".to_owned(),
            name: "Local server".to_owned(),
            host: "127.0.0.1".to_owned(),
            port: 502,
            unit_id: 1,
        }
    }
}

/// Full project configuration.
#[derive(Debug)]
pub struct ModbusProject {
    pub profiles: Vec<ModbusConnectionProfile>,
    pub current_profile_id: Option<String>,
    pub variables: Vec<ModbusVariable>,
}

impl Default for ModbusProject {
    /// One default profile, selected, and no variables.
    fn default() -> (r: Self)
        ensures
            r.profiles@.len() == 1,
            r.variables@.len() == 0,
            r.current_profile_id is Some,
    {
        let profile = ModbusConnectionProfile::default();
        let current = profile.id.clone();
        let mut profiles: Vec<ModbusConnectionProfile> = Vec::new();
        profiles.push(profile);
        ModbusProject { current_profile_id: Some(current), profiles, variables: Vec::new() }
    }
}

/// Server status information reported to the controlling process.
#[derive(Debug)]
pub struct ServerStatus {
    pub running: bool,
    pub host: String,
    pub port: u16,
    pub unit_id: u8,
    pub connections_count: usize,
    pub error: Option<String>,
}

impl Clone for ServerStatus {
    /// Field-for-field copy.
    fn clone(&self) -> (res: Self)
        ensures
            res == *self,
    {
        ServerStatus {
            running: self.running,
            host: self.host.clone(),
            port: self.port,
            unit_id: self.unit_id,
            connections_count: self.connections_count,
            error: match &self.error {
                Some(s) => Some(s.clone()),
                None => None,
            },
        }
    }
}

impl Default for ServerStatus {
    /// Stopped, on the wildcard address and default port.
    fn default() -> (r: Self)
        ensures
            !r.running,
            r.host@ == "0.0.0.0"@,
            r.port == 502,
            r.unit_id == 1,
            r.connections_count == 0,
            r.error is None,
    {
        ServerStatus {
            running: false,
            host: "0.0.0.0".to_owned(),
            port: 502,
            unit_id: 1,
            connections_count: 0,
            error: None,
        }
    }
}

} // verus!
