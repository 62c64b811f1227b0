//! The wire format shared by the assembler and the interpreter: registers,
//! addressing-mode selectors and the operand packet `DDSSRRrr`.

use vstd::prelude::*;

verus! {

/// One of the four architectural registers.
#[derive(Clone, Copy, Debug, PartialEq, Eq, Structural)]
pub enum Register {
    GeneralPurpose0,
    GeneralPurpose1,
    Flag,
    ProgramCounter,
}

/// How an operand is fetched.
#[derive(Clone, Copy, Debug, PartialEq, Eq, Structural)]
pub enum Selector {
    Register,
    Immediate,
    RegisterAddress,
    ImmediateAddress,
}

/// Why two bits could not be read as a register or a selector.
#[derive(Clone, Copy, Debug, PartialEq, Eq, Structural)]
pub enum FieldError {
    /// The value does not fit the two bits of a register index.
    InvalidRegister(u8),
    /// The value does not fit the two bits of a selector.
    InvalidSelector(u8),
}

impl Register {
    /// The two bits that encode this register.
    pub open spec fn bits(self) -> u8 {
        match self {
            Register::GeneralPurpose0 => 0b00,
            Register::GeneralPurpose1 => 0b01,
            Register::Flag => 0b10,
            Register::ProgramCounter => 0b11,
        }
    }

    /// The register that two bits encode.
    pub open spec fn of_bits(bits: u8) -> Register
        recommends
            bits < 4,
    {
        if bits == 0b00 {
            Register::GeneralPurpose0
        } else if bits == 0b01 {
            Register::GeneralPurpose1
        } else if bits == 0b10 {
            Register::Flag
        } else {
            Register::ProgramCounter
        }
    }

    /// Encodes the register in two bits.
    pub fn index(&self) -> (bits: u8)
        ensures
            bits == self.bits(),
            bits < 4,
    {
        match self {
            Register::GeneralPurpose0 => 0b00,
            Register::GeneralPurpose1 => 0b01,
            Register::Flag => 0b10,
            Register::ProgramCounter => 0b11,
        }
    }

    /// The register that two bits encode.
    pub fn from_bits(bits: u8) -> (register: Register)
        requires
            bits < 4,
        ensures
            register == Register::of_bits(bits),
            register.bits() == bits,
    {
        if bits == 0b00 {
            Register::GeneralPurpose0
        } else if bits == 0b01 {
            Register::GeneralPurpose1
        } else if bits == 0b10 {
            Register::Flag
        } else {
            Register::ProgramCounter
        }
    }

    /// Decodes a register index; every value above `0b11` is refused.
    pub fn try_from(value: u8) -> (decoded: Result<Register, FieldError>)
        ensures
            value < 4 ==> decoded == Ok::<Register, FieldError>(Register::of_bits(value)),
            value >= 4 ==> decoded == Err::<Register, FieldError>(FieldError::InvalidRegister(value)),
    {
        match value {
            0b00 => Ok(Register::GeneralPurpose0),
            0b01 => Ok(Register::GeneralPurpose1),
            0b10 => Ok(Register::Flag),
            0b11 => Ok(Register::ProgramCounter),
            value => Err(FieldError::InvalidRegister(value)),
        }
    }
}

impl Selector {
    /// The two bits that encode this selector.
    pub open spec fn bits(self) -> u8 {
        match self {
            Selector::Register => 0b00,
            Selector::Immediate => 0b01,
            Selector::RegisterAddress => 0b10,
            Selector::ImmediateAddress => 0b11,
        }
    }

    /// The selector that two bits encode.
    pub open spec fn of_bits(bits: u8) -> Selector
        recommends
            bits < 4,
    {
        if bits == 0b00 {
            Selector::Register
        } else if bits == 0b01 {
            Selector::Immediate
        } else if bits == 0b10 {
            Selector::RegisterAddress
        } else {
            Selector::ImmediateAddress
        }
    }

    /// Whether an operand with this selector is followed by a 32-bit immediate.
    pub open spec fn has_immediate(self) -> bool {
        self == Selector::Immediate || self == Selector::ImmediateAddress
    }

    /// Encodes the selector in two bits.
    pub fn index(&self) -> (bits: u8)
        ensures
            bits == self.bits(),
            bits < 4,
    {
        match self {
            Selector::Register => 0b00,
            Selector::Immediate => 0b01,
            Selector::RegisterAddress => 0b10,
            Selector::ImmediateAddress => 0b11,
        }
    }

    /// The selector that two bits encode.
    pub fn from_bits(bits: u8) -> (selector: Selector)
        requires
            bits < 4,
        ensures
            selector == Selector::of_bits(bits),
            selector.bits() == bits,
    {
        if bits == 0b00 {
            Selector::Register
        } else if bits == 0b01 {
            Selector::Immediate
        } else if bits == 0b10 {
            Selector::RegisterAddress
        } else {
            Selector::ImmediateAddress
        }
    }

    /// Decodes a selector; every value above `0b11` is refused.
    pub fn try_from(value: u8) -> (decoded: Result<Selector, FieldError>)
        ensures
            value < 4 ==> decoded == Ok::<Selector, FieldError>(Selector::of_bits(value)),
            value >= 4 ==> decoded == Err::<Selector, FieldError>(FieldError::InvalidSelector(value)),
    {
        match value {
            0b00 => Ok(Selector::Register),
            0b01 => Ok(Selector::Immediate),
            0b10 => Ok(Selector::RegisterAddress),
            0b11 => Ok(Selector::ImmediateAddress),
            value => Err(FieldError::InvalidSelector(value)),
        }
    }
}

/// The operand packet `DDSSRRrr`: destination selector, source selector,
/// destination register index, source register index.
pub open spec fn packet(dd: u8, ss: u8, rr: u8, r: u8) -> u8
    recommends
        dd < 4,
        ss < 4,
        rr < 4,
        r < 4,
{
    dd << 6 | ss << 4 | rr << 2 | r
}

/// The destination selector bits of a packet.
pub open spec fn packet_destination_selector(packet: u8) -> u8 {
    (packet & 0b1100_0000) >> 6
}

/// The source selector bits of a packet.
pub open spec fn packet_source_selector(packet: u8) -> u8 {
    (packet & 0b0011_0000) >> 4
}

/// The destination register bits of a packet.
pub open spec fn packet_destination_register(packet: u8) -> u8 {
    (packet & 0b0000_1100) >> 2
}

/// The source register bits of a packet.
pub open spec fn packet_source_register(packet: u8) -> u8 {
    packet & 0b0000_0011
}

/// Each field of a packet fits in two bits.
pub proof fn lemma_packet_fields_fit(packet: u8)
    ensures
        packet_destination_selector(packet) < 4,
        packet_source_selector(packet) < 4,
        packet_destination_register(packet) < 4,
        packet_source_register(packet) < 4,
{
    assert((packet & 0b1100_0000) >> 6 < 4) by (bit_vector);
    assert((packet & 0b0011_0000) >> 4 < 4) by (bit_vector);
    assert((packet & 0b0000_1100) >> 2 < 4) by (bit_vector);
    assert(packet & 0b0000_0011 < 4) by (bit_vector);
}

/// The four fields of a packet are the ones it was built from.
pub proof fn lemma_packet_fields(dd: u8, ss: u8, rr: u8, r: u8)
    requires
        dd < 4,
        ss < 4,
        rr < 4,
        r < 4,
    ensures
        packet_destination_selector(packet(dd, ss, rr, r)) == dd,
        packet_source_selector(packet(dd, ss, rr, r)) == ss,
        packet_destination_register(packet(dd, ss, rr, r)) == rr,
        packet_source_register(packet(dd, ss, rr, r)) == r,
{
    assert({
        &&& ((dd << 6 | ss << 4 | rr << 2 | r) & 0b1100_0000) >> 6 == dd
        &&& ((dd << 6 | ss << 4 | rr << 2 | r) & 0b0011_0000) >> 4 == ss
        &&& ((dd << 6 | ss << 4 | rr << 2 | r) & 0b0000_1100) >> 2 == rr
        &&& (dd << 6 | ss << 4 | rr << 2 | r) & 0b0000_0011 == r
    }) by (bit_vector)
        requires
            dd < 4,
            ss < 4,
            rr < 4,
            r < 4,
    ;
}

/// The four fields of a packet: destination selector, source selector,
/// destination register, source register.
pub struct PacketFields {
    pub destination_selector: Selector,
    pub source_selector: Selector,
    pub destination: Register,
    pub source: Register,
}

/// Splits an operand packet into its four fields.
pub fn split_packet(packet: u8) -> (fields: PacketFields)
    ensures
        fields.destination_selector == Selector::of_bits(packet_destination_selector(packet)),
        fields.source_selector == Selector::of_bits(packet_source_selector(packet)),
        fields.destination == Register::of_bits(packet_destination_register(packet)),
        fields.source == Register::of_bits(packet_source_register(packet)),
{
    proof {
        lemma_packet_fields_fit(packet);
    }
    PacketFields {
        destination_selector: Selector::from_bits((packet & 0b1100_0000) >> 6),
        source_selector: Selector::from_bits((packet & 0b0011_0000) >> 4),
        destination: Register::from_bits((packet & 0b0000_1100) >> 2),
        source: Register::from_bits(packet & 0b0000_0011),
    }
}

/// Builds the operand packet from its four fields.
pub fn make_packet(dd: u8, ss: u8, rr: u8, r: u8) -> (byte: u8)
    requires
        dd < 4,
        ss < 4,
        rr < 4,
        r < 4,
    ensures
        byte == packet(dd, ss, rr, r),
{
    dd << 6 | ss << 4 | rr << 2 | r
}

} // verus!
