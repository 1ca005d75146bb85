//! The register file: program counter, stack pointer, accumulator, index
//! registers and processor status, with wrapping counters and flag access by
//! name.

use vstd::prelude::*;

verus! {

/// The flags of the processor status register, least significant bit first.
#[derive(Copy, Clone, Debug, PartialEq, Eq, Structural)]
pub enum ProcessorStatusBit {
    /// Carry flag, set if the last operation resulted in a carry.
    Carry,
    /// Zero flag, set if the last operation resulted in a zero.
    Zero,
    /// Interrupt disable flag, set if interrupts are disabled.
    InterruptDisable,
    /// Decimal mode flag, set if the processor is in decimal mode.
    DecimalMode,
    /// Break command flag, set if the last operation was a break command.
    BreakCommand,
    /// The bit without a meaning of its own.
    Unused,
    /// Overflow flag, set if the last operation resulted in an overflow.
    Overflow,
    /// Negative flag, set if the last operation resulted in a negative value.
    Negative,
}

impl ProcessorStatusBit {
    /// The position of the flag in the status byte; bit 0 is the least
    /// significant one.
    pub open spec fn spec_index(self) -> u8 {
        match self {
            ProcessorStatusBit::Carry => 0,
            ProcessorStatusBit::Zero => 1,
            ProcessorStatusBit::InterruptDisable => 2,
            ProcessorStatusBit::DecimalMode => 3,
            ProcessorStatusBit::BreakCommand => 4,
            ProcessorStatusBit::Unused => 5,
            ProcessorStatusBit::Overflow => 6,
            ProcessorStatusBit::Negative => 7,
        }
    }

    /// The status byte in which this flag is set and no other.
    pub open spec fn mask(self) -> u8 {
        1u8 << self.spec_index()
    }

    /// The position of the flag in the status byte, always below 8.
    #[verifier::when_used_as_spec(spec_index)]
    pub fn index(self) -> (i: u8)
        ensures
            i == self.spec_index(),
            i < 8,
    {
        match self {
            ProcessorStatusBit::Carry => 0,
            ProcessorStatusBit::Zero => 1,
            ProcessorStatusBit::InterruptDisable => 2,
            ProcessorStatusBit::DecimalMode => 3,
            ProcessorStatusBit::BreakCommand => 4,
            ProcessorStatusBit::Unused => 5,
            ProcessorStatusBit::Overflow => 6,
            ProcessorStatusBit::Negative => 7,
        }
    }
}

/// Whether `bit` is set in the status byte `p`.
pub open spec fn flag_set(p: u8, bit: ProcessorStatusBit) -> bool {
    p & bit.mask() != 0
}

/// The status byte `p` with `bit` set to `value` and every other bit kept.
pub open spec fn with_flag(p: u8, bit: ProcessorStatusBit, value: bool) -> u8 {
    if value {
        p | bit.mask()
    } else {
        p & !bit.mask()
    }
}

/// The status byte `p` with `bit` inverted and every other bit kept.
pub open spec fn toggled(p: u8, bit: ProcessorStatusBit) -> u8 {
    p ^ bit.mask()
}

/// What a set flag adds to the value of the status byte: its mask if `bit` is
/// set in `p`, nothing otherwise.
pub open spec fn flag_weight(p: u8, bit: ProcessorStatusBit) -> int {
    if flag_set(p, bit) {
        bit.mask() as int
    } else {
        0
    }
}

/// `n` reduced to the sixteen bits of the program counter.
pub open spec fn wrap16(n: int) -> u16 {
    (n % 0x1_0000) as u16
}

/// `n` reduced to the eight bits of the stack pointer.
pub open spec fn wrap8(n: int) -> u8 {
    (n % 0x100) as u8
}

/// The values of the six registers.
pub struct RegisterState {
    /// The 16-bit program counter.
    pub pc: u16,
    /// The 8-bit stack pointer.
    pub sp: u8,
    /// The 8-bit X index register.
    pub x: u8,
    /// The 8-bit Y index register.
    pub y: u8,
    /// The 8-bit accumulator.
    pub a: u8,
    /// The 8-bit processor status register.
    pub p: u8,
}

/// A processor's registers, with methods for the common manipulations.
#[derive(Clone, Debug)]
pub struct Registers {
    pc: u16,
    sp: u8,
    x: u8,
    y: u8,
    a: u8,
    p: u8,
}

impl View for Registers {
    type V = RegisterState;

    closed spec fn view(&self) -> RegisterState {
        RegisterState { pc: self.pc, sp: self.sp, x: self.x, y: self.y, a: self.a, p: self.p }
    }
}

/// Moves a sixteen-bit counter `count` steps up, or down if `up` is false.
/// This is the one place that decides what a counter does at the end of its
/// range: it wraps around.
pub fn step16(value: u16, count: u16, up: bool) -> (r: u16)
    ensures
        r == wrap16(if up { value + count } else { value - count }),
{
    if up {
        value.wrapping_add(count)
    } else {
        value.wrapping_sub(count)
    }
}

/// Moves an eight-bit counter `count` steps up, or down if `up` is false,
/// wrapping around like `step16`.
pub fn step8(value: u8, count: u8, up: bool) -> (r: u8)
    ensures
        r == wrap8(if up { value + count } else { value - count }),
{
    if up {
        value.wrapping_add(count)
    } else {
        value.wrapping_sub(count)
    }
}

impl Registers {
    /// Creates a register file with every register set to 0.
    pub fn new() -> (r: Registers)
        ensures
            r@ == (RegisterState { pc: 0, sp: 0, x: 0, y: 0, a: 0, p: 0 }),
    {
        Registers { pc: 0, sp: 0, x: 0, y: 0, a: 0, p: 0 }
    }

    /// The current value of the program counter.
    pub fn pc(&self) -> (value: u16)
        ensures
            value == self@.pc,
    {
        self.pc
    }

    /// Increments the program counter by `count`, wrapping around past
    /// 0xFFFF.
    pub fn incr_pr(&mut self, count: u16)
        ensures
            final(self)@ == (RegisterState { pc: wrap16(old(self)@.pc + count), ..old(self)@ }),
    {
        self.pc = step16(self.pc, count, true);
    }

    /// Decrements the program counter by `count`, wrapping around below 0.
    pub fn decr_pr(&mut self, count: u16)
        ensures
            final(self)@ == (RegisterState { pc: wrap16(old(self)@.pc - count), ..old(self)@ }),
    {
        self.pc = step16(self.pc, count, false);
    }

    /// Sets the program counter.
    pub fn set_pc(&mut self, value: u16)
        ensures
            final(self)@ == (RegisterState { pc: value, ..old(self)@ }),
    {
        self.pc = value;
    }

    /// The current value of the stack pointer.
    pub fn sp(&self) -> (value: u8)
        ensures
            value == self@.sp,
    {
        self.sp
    }

    /// Increments the stack pointer by `count`, wrapping around past 0xFF.
    pub fn incr_sp(&mut self, count: u8)
        ensures
            final(self)@ == (RegisterState { sp: wrap8(old(self)@.sp + count), ..old(self)@ }),
    {
        self.sp = step8(self.sp, count, true);
    }

    /// Decrements the stack pointer by `count`, wrapping around below 0.
    pub fn decr_sp(&mut self, count: u8)
        ensures
            final(self)@ == (RegisterState { sp: wrap8(old(self)@.sp - count), ..old(self)@ }),
    {
        self.sp = step8(self.sp, count, false);
    }

    /// Sets the stack pointer.
    pub fn set_sp(&mut self, value: u8)
        ensures
            final(self)@ == (RegisterState { sp: value, ..old(self)@ }),
    {
        self.sp = value;
    }

    /// The current value of the X index register.
    pub fn x(&self) -> (value: u8)
        ensures
            value == self@.x,
    {
        self.x
    }

    /// Sets the X index register.
    pub fn set_x(&mut self, value: u8)
        ensures
            final(self)@ == (RegisterState { x: value, ..old(self)@ }),
    {
        self.x = value;
    }

    /// The current value of the Y index register.
    pub fn y(&self) -> (value: u8)
        ensures
            value == self@.y,
    {
        self.y
    }

    /// Sets the Y index register.
    pub fn set_y(&mut self, value: u8)
        ensures
            final(self)@ == (RegisterState { y: value, ..old(self)@ }),
    {
        self.y = value;
    }

    /// The current value of the accumulator.
    pub fn a(&self) -> (value: u8)
        ensures
            value == self@.a,
    {
        self.a
    }

    /// Sets the accumulator.
    pub fn set_a(&mut self, value: u8)
        ensures
            final(self)@ == (RegisterState { a: value, ..old(self)@ }),
    {
        self.a = value;
    }

    /// The current value of the processor status register.
    pub fn p(&self) -> (value: u8)
        ensures
            value == self@.p,
    {
        self.p
    }

    /// Sets the processor status register, all eight flags at once.
    pub fn set_p(&mut self, value: u8)
        ensures
            final(self)@ == (RegisterState { p: value, ..old(self)@ }),
    {
        self.p = value;
    }

    /// Whether the flag `ps_bit` is set in the processor status register.
    pub fn p_bit(&self, ps_bit: ProcessorStatusBit) -> (set: bool)
        ensures
            set == flag_set(self@.p, ps_bit),
    {
        let bit: u8 = ps_bit.index();
        (self.p & (1u8 << bit)) != 0
    }

    /// Sets the flag `ps_bit` of the processor status register to `value`.
    pub fn set_p_bit(&mut self, ps_bit: ProcessorStatusBit, value: bool)
        ensures
            final(self)@ == (RegisterState {
                p: with_flag(old(self)@.p, ps_bit, value),
                ..old(self)@
            }),
    {
        let bit: u8 = ps_bit.index();
        if value {
            self.p = self.p | (1u8 << bit);
        } else {
            self.p = self.p & !(1u8 << bit);
        }
    }

    /// Inverts the flag `ps_bit` of the processor status register.
    pub fn toggle_p_bit(&mut self, ps_bit: ProcessorStatusBit)
        ensures
            final(self)@ == (RegisterState { p: toggled(old(self)@.p, ps_bit), ..old(self)@ }),
    {
        let bit: u8 = ps_bit.index();
        self.p = self.p ^ (1u8 << bit);
    }
}

/// The mask of a flag is two to the power of its index: 1 for carry, 2 for
/// zero, and so on up to 128 for negative.
pub proof fn lemma_mask_is_power_of_two(bit: ProcessorStatusBit)
    ensures
        bit.mask() as int == vstd::arithmetic::power2::pow2(bit.spec_index() as nat),
        bit.mask() == match bit {
            ProcessorStatusBit::Carry => 0x01u8,
            ProcessorStatusBit::Zero => 0x02u8,
            ProcessorStatusBit::InterruptDisable => 0x04u8,
            ProcessorStatusBit::DecimalMode => 0x08u8,
            ProcessorStatusBit::BreakCommand => 0x10u8,
            ProcessorStatusBit::Unused => 0x20u8,
            ProcessorStatusBit::Overflow => 0x40u8,
            ProcessorStatusBit::Negative => 0x80u8,
        },
{
    vstd::arithmetic::power2::lemma2_to64();
    assert(1u8 << 0u8 == 0x01u8 && 1u8 << 1u8 == 0x02u8 && 1u8 << 2u8 == 0x04u8 && 1u8 << 3u8
        == 0x08u8 && 1u8 << 4u8 == 0x10u8 && 1u8 << 5u8 == 0x20u8 && 1u8 << 6u8 == 0x40u8 && 1u8
        << 7u8 == 0x80u8) by (bit_vector);
}

/// Setting a flag makes it read back as the value given and changes no other
/// flag.
pub proof fn lemma_set_then_get(
    p: u8,
    bit: ProcessorStatusBit,
    value: bool,
    other: ProcessorStatusBit,
)
    ensures
        flag_set(with_flag(p, bit, value), bit) == value,
        other != bit ==> flag_set(with_flag(p, bit, value), other) == flag_set(p, other),
{
    let i: u8 = bit.spec_index();
    let j: u8 = other.spec_index();
    assert((p | (1u8 << i)) & (1u8 << i) != 0 && (p & !(1u8 << i)) & (1u8 << i) == 0)
        by (bit_vector)
        requires
            i < 8,
    ;
    if other != bit {
        assert(((p | (1u8 << i)) & (1u8 << j) != 0) == (p & (1u8 << j) != 0) && ((p & !(1u8 << i))
            & (1u8 << j) != 0) == (p & (1u8 << j) != 0)) by (bit_vector)
            requires
                i < 8,
                j < 8,
                i != j,
        ;
    }
}

/// Toggling a flag inverts it and changes no other flag.
pub proof fn lemma_toggle_then_get(p: u8, bit: ProcessorStatusBit, other: ProcessorStatusBit)
    ensures
        flag_set(toggled(p, bit), bit) == !flag_set(p, bit),
        other != bit ==> flag_set(toggled(p, bit), other) == flag_set(p, other),
{
    let i: u8 = bit.spec_index();
    let j: u8 = other.spec_index();
    assert(((p ^ (1u8 << i)) & (1u8 << i) != 0) == !(p & (1u8 << i) != 0)) by (bit_vector)
        requires
            i < 8,
    ;
    if other != bit {
        assert(((p ^ (1u8 << i)) & (1u8 << j) != 0) == (p & (1u8 << j) != 0)) by (bit_vector)
            requires
                i < 8,
                j < 8,
                i != j,
        ;
    }
}

/// Toggling the same flag twice gives back the status byte one started from.
pub proof fn lemma_toggle_twice(p: u8, bit: ProcessorStatusBit)
    ensures
        toggled(toggled(p, bit), bit) == p,
{
    let m: u8 = bit.mask();
    assert((p ^ m) ^ m == p) by (bit_vector);
}

/// Setting a flag to the value it already has leaves the status byte as it is.
pub proof fn lemma_set_same_value(p: u8, bit: ProcessorStatusBit)
    ensures
        with_flag(p, bit, flag_set(p, bit)) == p,
{
    let i: u8 = bit.spec_index();
    assert((p & (1u8 << i) != 0 ==> p | (1u8 << i) == p) && (p & (1u8 << i) == 0 ==> p & !(1u8
        << i) == p)) by (bit_vector)
        requires
            i < 8,
    ;
}

/// The eight flags read from a status byte give the byte back: its value is
/// the sum of the masks of the flags that are set.
pub proof fn lemma_flags_make_byte(p: u8)
    ensures
        p == flag_weight(p, ProcessorStatusBit::Carry) + flag_weight(p, ProcessorStatusBit::Zero)
            + flag_weight(p, ProcessorStatusBit::InterruptDisable) + flag_weight(
            p,
            ProcessorStatusBit::DecimalMode,
        ) + flag_weight(p, ProcessorStatusBit::BreakCommand) + flag_weight(
            p,
            ProcessorStatusBit::Unused,
        ) + flag_weight(p, ProcessorStatusBit::Overflow) + flag_weight(
            p,
            ProcessorStatusBit::Negative,
        ),
{
    lemma_mask_is_power_of_two(ProcessorStatusBit::Carry);
    lemma_mask_is_power_of_two(ProcessorStatusBit::Zero);
    lemma_mask_is_power_of_two(ProcessorStatusBit::InterruptDisable);
    lemma_mask_is_power_of_two(ProcessorStatusBit::DecimalMode);
    lemma_mask_is_power_of_two(ProcessorStatusBit::BreakCommand);
    lemma_mask_is_power_of_two(ProcessorStatusBit::Unused);
    lemma_mask_is_power_of_two(ProcessorStatusBit::Overflow);
    lemma_mask_is_power_of_two(ProcessorStatusBit::Negative);
    assert(p == (p & 0x01u8) + (p & 0x02u8) + (p & 0x04u8) + (p & 0x08u8) + (p & 0x10u8) + (p
        & 0x20u8) + (p & 0x40u8) + (p & 0x80u8)) by (bit_vector);
    assert((p & 0x01u8 == 0 || p & 0x01u8 == 0x01u8) && (p & 0x02u8 == 0 || p & 0x02u8 == 0x02u8)
        && (p & 0x04u8 == 0 || p & 0x04u8 == 0x04u8) && (p & 0x08u8 == 0 || p & 0x08u8 == 0x08u8)
        && (p & 0x10u8 == 0 || p & 0x10u8 == 0x10u8) && (p & 0x20u8 == 0 || p & 0x20u8 == 0x20u8)
        && (p & 0x40u8 == 0 || p & 0x40u8 == 0x40u8) && (p & 0x80u8 == 0 || p & 0x80u8 == 0x80u8))
        by (bit_vector);
}

/// Two status bytes that agree on every flag are the same byte.
pub proof fn lemma_flags_decide_byte(p: u8, q: u8)
    requires
        forall|bit: ProcessorStatusBit| flag_set(p, bit) == flag_set(q, bit),
    ensures
        p == q,
{
    lemma_flags_make_byte(p);
    lemma_flags_make_byte(q);
    assert(flag_set(p, ProcessorStatusBit::Carry) == flag_set(q, ProcessorStatusBit::Carry));
    assert(flag_set(p, ProcessorStatusBit::Zero) == flag_set(q, ProcessorStatusBit::Zero));
    assert(flag_set(p, ProcessorStatusBit::InterruptDisable) == flag_set(
        q,
        ProcessorStatusBit::InterruptDisable,
    ));
    assert(flag_set(p, ProcessorStatusBit::DecimalMode) == flag_set(
        q,
        ProcessorStatusBit::DecimalMode,
    ));
    assert(flag_set(p, ProcessorStatusBit::BreakCommand) == flag_set(
        q,
        ProcessorStatusBit::BreakCommand,
    ));
    assert(flag_set(p, ProcessorStatusBit::Unused) == flag_set(q, ProcessorStatusBit::Unused));
    assert(flag_set(p, ProcessorStatusBit::Overflow) == flag_set(q, ProcessorStatusBit::Overflow));
    assert(flag_set(p, ProcessorStatusBit::Negative) == flag_set(q, ProcessorStatusBit::Negative));
}

/// Counting up and then down by the same amount, or down and then up, brings
/// a counter back to where it was, however often it wrapped on the way.
pub proof fn lemma_step_there_and_back(pc: u16, sp: u8, count16: u16, count8: u8)
    ensures
        wrap16(wrap16(pc + count16) - count16) == pc,
        wrap16(wrap16(pc - count16) + count16) == pc,
        wrap8(wrap8(sp + count8) - count8) == sp,
        wrap8(wrap8(sp - count8) + count8) == sp,
{
}

/// Two steps in a row amount to one step by the sum of the two counts.
pub proof fn lemma_steps_add_up(pc: u16, sp: u8, first: int, second: int)
    ensures
        wrap16(wrap16(pc + first) + second) == wrap16(pc + first + second),
        wrap8(wrap8(sp + first) + second) == wrap8(sp + first + second),
{
    vstd::arithmetic::div_mod::lemma_add_mod_noop(pc + first, second, 0x1_0000);
    vstd::arithmetic::div_mod::lemma_add_mod_noop(sp + first, second, 0x100);
    vstd::arithmetic::div_mod::lemma_mod_twice(pc + first, 0x1_0000);
    vstd::arithmetic::div_mod::lemma_mod_twice(sp + first, 0x100);
}

} // verus!
