//! What the processor does with the code: a model of the instructions that the code is made of.
use vstd::arithmetic::power2::pow2;
use vstd::prelude::*;

verus! {

/// Two to the power of the bits of a register.
pub open spec fn register_modulus() -> int {
    0x1_0000_0000_0000_0000
}

/// The registers, the flags, the memory, and the place of the instruction that comes next.
///
/// The registers are numbered as instructions number them: `rax`, `rcx`, `rdx`, `rbx`, `rsp`, `rbp`,
/// `rsi`, `rdi` and `r8` to `r15`. The memory holds bytes by their addresses.
pub ghost struct Machine {
    pub registers: Seq<u64>,
    pub zero: bool,
    pub sign: bool,
    pub carry: bool,
    pub overflow: bool,
    pub memory: Map<int, u8>,
    pub at: int,
}

/// What comes of an instruction.
pub ghost enum Outcome {
    /// The program goes on.
    Running(Machine),
    /// The program is stopped.
    Trapped,
    /// The function has returned.
    Returned(Machine),
    /// The model does not know the instruction.
    Unknown,
}

/// What an instruction reads or writes.
pub ghost enum Operand {
    Register(int),
    /// The byte at a base register, with a displacement and perhaps a scaled index register.
    Memory { base: int, index: Option<(int, int)>, displacement: int },
    Immediate(int),
}

pub ghost enum Operation {
    Add,
    Or,
    And,
    Subtract,
    Xor,
    Compare,
    Test,
}

pub ghost enum Shifting {
    Left,
    Right,
    SignedRight,
}

pub ghost enum Arithmetic {
    Not,
    Negate,
    Multiply,
    Divide,
    SignedDivide,
}

/// An instruction. Sizes are given in bits.
pub ghost enum Step {
    Move { size: int, to: Operand, from: Operand },
    Widen { signed: bool, size: int, to: int, from_size: int, from: Operand },
    Operate { operation: Operation, size: int, to: Operand, from: Operand },
    Shift { shifting: Shifting, size: int, to: Operand, count: Operand },
    Compute { arithmetic: Arithmetic, size: int, with: Operand },
    SignedMultiply { size: int, to: int, with: Operand },
    Exchange { size: int, first: int, second: Operand },
    Address { to: int, address: Operand },
    Push(int),
    Pop(int),
    /// Fills `rdx` with the sign of `rax`.
    SpreadSign,
    Answer { condition: int, to: Operand },
    Jump { target: int },
    Branch { condition: int, target: int },
    Return,
    Stop,
}

/// A byte of the code.
pub open spec fn byte_at(code: Seq<u8>, at: int) -> int {
    if 0 <= at < code.len() {
        code[at] as int
    } else {
        -1
    }
}

/// A number of one byte in the code, with its sign.
pub open spec fn short_at(code: Seq<u8>, at: int) -> int {
    if byte_at(code, at) >= 128 {
        byte_at(code, at) - 256
    } else {
        byte_at(code, at)
    }
}

/// A number of four bytes in the code, without a sign.
pub open spec fn unsigned_word_at(code: Seq<u8>, at: int) -> int {
    byte_at(code, at) + 256 * byte_at(code, at + 1) + 65536 * byte_at(code, at + 2) + 16777216
        * byte_at(code, at + 3)
}

/// A number of four bytes in the code, with its sign.
pub open spec fn word_at(code: Seq<u8>, at: int) -> int {
    if unsigned_word_at(code, at) >= 0x8000_0000 {
        unsigned_word_at(code, at) - 0x1_0000_0000
    } else {
        unsigned_word_at(code, at)
    }
}

/// The operand that a byte behind the opcode gives, with the bytes behind that, and how many bytes
/// all of them are. `high` numbers the high registers: the one in the operand, and the index.
pub open spec fn operand_at(code: Seq<u8>, at: int, high: int, high_index: int) -> (Operand, int) {
    let form = byte_at(code, at) / 64;
    let low = byte_at(code, at) % 8;
    if form == 3 {
        (Operand::Register(low + 8 * high), 1)
    } else if low == 4 {
        let scaled = byte_at(code, at + 1);
        let index = scaled / 8 % 8 + 8 * high_index;
        let index = if index == 4 {
            None
        } else {
            Some(
                (
                    index,
                    if scaled / 64 == 0 {
                        1int
                    } else if scaled / 64 == 1 {
                        2
                    } else if scaled / 64 == 2 {
                        4
                    } else {
                        8
                    },
                ),
            )
        };
        let base = scaled % 8 + 8 * high;
        if form == 0 {
            (Operand::Memory { base, index, displacement: 0 }, 2)
        } else if form == 1 {
            (Operand::Memory { base, index, displacement: short_at(code, at + 2) }, 3)
        } else {
            (Operand::Memory { base, index, displacement: word_at(code, at + 2) }, 6)
        }
    } else if form == 0 {
        (Operand::Memory { base: low + 8 * high, index: None, displacement: 0 }, 1)
    } else if form == 1 {
        (
            Operand::Memory {
                base: low + 8 * high,
                index: None,
                displacement: short_at(code, at + 1),
            },
            2,
        )
    } else {
        (
            Operand::Memory {
                base: low + 8 * high,
                index: None,
                displacement: word_at(code, at + 1),
            },
            5,
        )
    }
}

/// The register that the byte behind the opcode names beside the operand.
pub open spec fn register_at(code: Seq<u8>, at: int, high: int) -> int {
    byte_at(code, at) / 8 % 8 + 8 * high
}

/// The instruction whose opcode is at a place and begins with `0f`, and the place behind it.
pub open spec fn long_step_at(
    code: Seq<u8>,
    at: int,
    wide: bool,
    reg: int,
    index: int,
    base: int,
) -> Option<(Step, int)> {
    let opcode = byte_at(code, at);
    let (operand, length) = operand_at(code, at + 1, base, index);
    let register = register_at(code, at + 1, reg);
    let size: int = if wide {
        64
    } else {
        32
    };
    if opcode == 0x0b {
        Some((Step::Stop, at + 1))
    } else if 0x80 <= opcode <= 0x8f {
        Some(
            (
                Step::Branch { condition: opcode - 0x80, target: at + 5 + word_at(code, at + 1) },
                at + 5,
            ),
        )
    } else if 0x90 <= opcode <= 0x9f {
        Some((Step::Answer { condition: opcode - 0x90, to: operand }, at + 1 + length))
    } else if opcode == 0xaf {
        Some((Step::SignedMultiply { size, to: register, with: operand }, at + 1 + length))
    } else if opcode == 0xb6 || opcode == 0xb7 || opcode == 0xbe || opcode == 0xbf {
        Some(
            (
                Step::Widen {
                    signed: opcode >= 0xbe,
                    size,
                    to: register,
                    from_size: if opcode == 0xb6 || opcode == 0xbe {
                        8
                    } else {
                        16
                    },
                    from: operand,
                },
                at + 1 + length,
            ),
        )
    } else {
        None
    }
}

/// The operation that an opcode or the byte behind it numbers.
pub open spec fn operation_numbered(number: int) -> Option<Operation> {
    if number == 0 {
        Some(Operation::Add)
    } else if number == 1 {
        Some(Operation::Or)
    } else if number == 4 {
        Some(Operation::And)
    } else if number == 5 {
        Some(Operation::Subtract)
    } else if number == 6 {
        Some(Operation::Xor)
    } else if number == 7 {
        Some(Operation::Compare)
    } else {
        None
    }
}

pub open spec fn shifting_numbered(number: int) -> Option<Shifting> {
    if number == 4 {
        Some(Shifting::Left)
    } else if number == 5 {
        Some(Shifting::Right)
    } else if number == 7 {
        Some(Shifting::SignedRight)
    } else {
        None
    }
}

pub open spec fn arithmetic_numbered(number: int) -> Option<Arithmetic> {
    if number == 2 {
        Some(Arithmetic::Not)
    } else if number == 3 {
        Some(Arithmetic::Negate)
    } else if number == 4 {
        Some(Arithmetic::Multiply)
    } else if number == 6 {
        Some(Arithmetic::Divide)
    } else if number == 7 {
        Some(Arithmetic::SignedDivide)
    } else {
        None
    }
}

/// The instruction whose opcode is at a place, and the place behind it. `size` is that of its
/// operands; `reg`, `index` and `base` tell which of its registers are high ones.
pub open spec fn short_step_at(
    code: Seq<u8>,
    at: int,
    size: int,
    reg: int,
    index: int,
    base: int,
) -> Option<(Step, int)> {
    let opcode = byte_at(code, at);
    let (operand, length) = operand_at(code, at + 1, base, index);
    let register = register_at(code, at + 1, reg);
    let number = byte_at(code, at + 1) / 8 % 8;
    let behind = at + 1 + length;
    if opcode == 0x0f {
        long_step_at(code, at + 1, size == 64, reg, index, base)
    } else if 0 <= opcode < 0x40 && opcode % 8 == 1 {
        match operation_numbered(opcode / 8) {
            Some(operation) => Some(
                (
                    Step::Operate { operation, size, to: operand, from: Operand::Register(register) },
                    behind,
                ),
            ),
            None => None,
        }
    } else if 0 <= opcode < 0x40 && opcode % 8 == 3 {
        match operation_numbered(opcode / 8) {
            Some(operation) => Some(
                (
                    Step::Operate { operation, size, to: Operand::Register(register), from: operand },
                    behind,
                ),
            ),
            None => None,
        }
    } else if 0 <= opcode < 0x40 && opcode % 8 == 5 {
        match operation_numbered(opcode / 8) {
            Some(operation) => Some(
                (
                    Step::Operate {
                        operation,
                        size,
                        to: Operand::Register(0),
                        from: Operand::Immediate(word_at(code, at + 1)),
                    },
                    at + 5,
                ),
            ),
            None => None,
        }
    } else if 0x50 <= opcode <= 0x57 {
        Some((Step::Push(opcode - 0x50 + 8 * base), at + 1))
    } else if 0x58 <= opcode <= 0x5f {
        Some((Step::Pop(opcode - 0x58 + 8 * base), at + 1))
    } else if opcode == 0x63 {
        Some(
            (
                Step::Widen { signed: true, size, to: register, from_size: 32, from: operand },
                behind,
            ),
        )
    } else if 0x70 <= opcode <= 0x7f {
        Some(
            (
                Step::Branch { condition: opcode - 0x70, target: at + 2 + short_at(code, at + 1) },
                at + 2,
            ),
        )
    } else if opcode == 0x80 || opcode == 0x83 {
        match operation_numbered(number) {
            Some(operation) => Some(
                (
                    Step::Operate {
                        operation,
                        size: if opcode == 0x80 {
                            8
                        } else {
                            size
                        },
                        to: operand,
                        from: Operand::Immediate(short_at(code, behind)),
                    },
                    behind + 1,
                ),
            ),
            None => None,
        }
    } else if opcode == 0x81 {
        match operation_numbered(number) {
            Some(operation) => Some(
                (
                    Step::Operate {
                        operation,
                        size,
                        to: operand,
                        from: Operand::Immediate(word_at(code, behind)),
                    },
                    behind + 4,
                ),
            ),
            None => None,
        }
    } else if opcode == 0x85 {
        Some(
            (
                Step::Operate {
                    operation: Operation::Test,
                    size,
                    to: operand,
                    from: Operand::Register(register),
                },
                behind,
            ),
        )
    } else if opcode == 0x87 {
        Some((Step::Exchange { size, first: register, second: operand }, behind))
    } else if opcode == 0x88 {
        Some((Step::Move { size: 8, to: operand, from: Operand::Register(register) }, behind))
    } else if opcode == 0x89 {
        Some((Step::Move { size, to: operand, from: Operand::Register(register) }, behind))
    } else if opcode == 0x8b {
        Some((Step::Move { size, to: Operand::Register(register), from: operand }, behind))
    } else if opcode == 0x8d {
        Some((Step::Address { to: register, address: operand }, behind))
    } else if opcode == 0x99 {
        Some((Step::SpreadSign, at + 1))
    } else if 0xb8 <= opcode <= 0xbf {
        let to = Operand::Register(opcode - 0xb8 + 8 * base);
        if size == 64 {
            Some(
                (
                    Step::Move {
                        size,
                        to,
                        from: Operand::Immediate(
                            unsigned_word_at(code, at + 1) + 0x1_0000_0000 * unsigned_word_at(
                                code,
                                at + 5,
                            ),
                        ),
                    },
                    at + 9,
                ),
            )
        } else {
            Some(
                (
                    Step::Move { size, to, from: Operand::Immediate(unsigned_word_at(code, at + 1)) },
                    at + 5,
                ),
            )
        }
    } else if opcode == 0xc1 {
        match shifting_numbered(number) {
            Some(shifting) => Some(
                (
                    Step::Shift {
                        shifting,
                        size,
                        to: operand,
                        count: Operand::Immediate(byte_at(code, behind)),
                    },
                    behind + 1,
                ),
            ),
            None => None,
        }
    } else if opcode == 0xc3 {
        Some((Step::Return, at + 1))
    } else if opcode == 0xd3 {
        match shifting_numbered(number) {
            Some(shifting) => Some(
                (Step::Shift { shifting, size, to: operand, count: Operand::Register(1) }, behind),
            ),
            None => None,
        }
    } else if opcode == 0xe9 {
        Some((Step::Jump { target: at + 5 + word_at(code, at + 1) }, at + 5))
    } else if opcode == 0xf7 {
        match arithmetic_numbered(number) {
            Some(arithmetic) => Some((Step::Compute { arithmetic, size, with: operand }, behind)),
            None => None,
        }
    } else {
        None
    }
}

/// The instruction at a place, and the place behind it.
#[verifier::opaque]
pub open spec fn step_at(code: Seq<u8>, at: int) -> Option<(Step, int)> {
    let first = byte_at(code, at);
    if first == 0x66 {
        short_step_at(code, at + 1, 16, 0, 0, 0)
    } else if 0x40 <= first <= 0x4f {
        short_step_at(
            code,
            at + 1,
            if first >= 0x48 {
                64
            } else {
                32
            },
            first / 4 % 2,
            first / 2 % 2,
            first % 2,
        )
    } else {
        short_step_at(code, at, 32, 0, 0, 0)
    }
}

/// Two to the power of the bits of a size.
pub open spec fn size_modulus(size: int) -> int {
    if size == 8 {
        0x100
    } else if size == 16 {
        0x1_0000
    } else if size == 32 {
        0x1_0000_0000
    } else {
        0x1_0000_0000_0000_0000
    }
}

/// What the bits of a size stand for in two's complement.
pub open spec fn with_sign(value: int, size: int) -> int {
    if 2 * value >= size_modulus(size) {
        value - size_modulus(size)
    } else {
        value
    }
}

/// The number that is held in a register.
pub open spec fn register(m: Machine, number: int) -> u64 {
    m.registers[number]
}

pub open spec fn with_register(m: Machine, number: int, value: u64) -> Machine {
    Machine { registers: m.registers.update(number, value), ..m }
}

/// The address of an operand in memory.
pub open spec fn address_of(m: Machine, base: int, index: Option<(int, int)>, displacement: int) -> int {
    (register(m, base) + displacement + match index {
        Some((index, scale)) => scale * register(m, index),
        None => 0,
    }) % register_modulus()
}

/// The number in some bytes of memory, the lowest byte first.
pub open spec fn loaded(memory: Map<int, u8>, address: int, bytes: int) -> int
    decreases bytes,
{
    if bytes <= 0 {
        0
    } else {
        memory[address] + 256 * loaded(memory, address + 1, bytes - 1)
    }
}

/// Memory with a number in some of its bytes.
pub open spec fn stored(memory: Map<int, u8>, address: int, bytes: int, value: int) -> Map<int, u8>
    decreases bytes,
{
    if bytes <= 0 {
        memory
    } else {
        stored(memory.insert(address, (value % 256) as u8), address + 1, bytes - 1, value / 256)
    }
}

/// The number that an operand gives.
pub open spec fn value_of(m: Machine, operand: Operand, size: int) -> int {
    match operand {
        Operand::Register(number) => register(m, number) as int % size_modulus(size),
        Operand::Memory { base, index, displacement } => loaded(
            m.memory,
            address_of(m, base, index, displacement),
            size / 8,
        ),
        Operand::Immediate(value) => value % size_modulus(size),
    }
}

/// A machine in which an operand holds a number. A register that is written in 32 bits is zero above
/// them; one that is written in fewer keeps the others.
pub open spec fn with_value(m: Machine, operand: Operand, size: int, value: int) -> Machine {
    match operand {
        Operand::Register(number) => with_register(
            m,
            number,
            if size >= 32 {
                value as u64
            } else {
                (register(m, number) - register(m, number) as int % size_modulus(size)
                    + value) as u64
            },
        ),
        Operand::Memory { base, index, displacement } => Machine {
            memory: stored(m.memory, address_of(m, base, index, displacement), size / 8, value),
            ..m
        },
        Operand::Immediate(_) => m,
    }
}

/// A machine whose flags tell of a result.
pub open spec fn with_flags(m: Machine, result: int, size: int, carry: bool, overflow: bool) -> Machine {
    Machine {
        zero: result == 0,
        sign: 2 * result >= size_modulus(size),
        carry,
        overflow,
        ..m
    }
}

/// Whether the flags meet a condition.
pub open spec fn meets(m: Machine, condition: int) -> bool {
    if condition == 0 {
        m.overflow
    } else if condition == 1 {
        !m.overflow
    } else if condition == 2 {
        m.carry
    } else if condition == 3 {
        !m.carry
    } else if condition == 4 {
        m.zero
    } else if condition == 5 {
        !m.zero
    } else if condition == 6 {
        m.carry || m.zero
    } else if condition == 7 {
        !m.carry && !m.zero
    } else if condition == 8 {
        m.sign
    } else if condition == 9 {
        !m.sign
    } else if condition == 12 {
        m.sign != m.overflow
    } else if condition == 13 {
        m.sign == m.overflow
    } else if condition == 14 {
        m.zero || m.sign != m.overflow
    } else {
        !m.zero && m.sign == m.overflow
    }
}

/// Two numbers that an operation works on, bit by bit.
pub open spec fn operated(operation: Operation, left: int, right: int) -> int {
    match operation {
        Operation::Or => (left as u64 | right as u64) as int,
        Operation::Xor => (left as u64 ^ right as u64) as int,
        _ => (left as u64 & right as u64) as int,
    }
}

/// What an operation on two numbers does.
#[verifier::opaque]
pub open spec fn after_operation(
    m: Machine,
    operation: Operation,
    size: int,
    to: Operand,
    left: int,
    right: int,
) -> Machine {
    let modulus = size_modulus(size);
    match operation {
        Operation::Add => {
            let sum = with_sign(left, size) + with_sign(right, size);
            let result = (left + right) % modulus;
            with_flags(
                with_value(m, to, size, result),
                result,
                size,
                left + right >= modulus,
                !(-modulus <= 2 * sum < modulus),
            )
        },
        Operation::Subtract | Operation::Compare => {
            let difference = with_sign(left, size) - with_sign(right, size);
            let result = (left - right) % modulus;
            let kept = if operation is Compare {
                m
            } else {
                with_value(m, to, size, result)
            };
            with_flags(kept, result, size, left < right, !(-modulus <= 2 * difference < modulus))
        },
        Operation::Test => with_flags(
            m,
            operated(Operation::And, left, right),
            size,
            false,
            false,
        ),
        _ => {
            let result = operated(operation, left, right);
            with_flags(with_value(m, to, size, result), result, size, false, false)
        },
    }
}

/// What a shift gives. Only some bits of the count matter.
#[verifier::opaque]
pub open spec fn shifted(shifting: Shifting, size: int, value: int, count: int) -> int {
    let places = count % if size == 64 {
        64
    } else {
        32int
    };
    let factor = pow2(places as nat) as int;
    match shifting {
        Shifting::Left => value * factor % size_modulus(size),
        Shifting::Right => value / factor,
        Shifting::SignedRight => with_sign(value, size) / factor % size_modulus(size),
    }
}

/// A quotient without its fraction.
pub open spec fn quotient(dividend: int, divisor: int) -> int {
    let magnitude = (if dividend < 0 {
        -dividend
    } else {
        dividend
    }) / (if divisor < 0 {
        -divisor
    } else {
        divisor
    });
    if (dividend < 0) == (divisor < 0) {
        magnitude
    } else {
        -magnitude
    }
}

/// What arithmetic on one operand does.
#[verifier::opaque]
pub open spec fn after_arithmetic(m: Machine, arithmetic: Arithmetic, size: int, with: Operand) -> Outcome {
    let modulus = size_modulus(size);
    let value = value_of(m, with, size);
    match arithmetic {
        Arithmetic::Not => Outcome::Running(with_value(m, with, size, modulus - 1 - value)),
        Arithmetic::Negate => {
            let result = -value % modulus;
            Outcome::Running(
                with_flags(
                    with_value(m, with, size, result),
                    result,
                    size,
                    value != 0,
                    2 * value == modulus,
                ),
            )
        },
        Arithmetic::Multiply => {
            let product = value_of(m, Operand::Register(0), size) * value;
            let low = with_value(m, Operand::Register(0), size, product % modulus);
            Outcome::Running(
                with_flags(
                    with_value(low, Operand::Register(2), size, product / modulus),
                    product % modulus,
                    size,
                    product >= modulus,
                    product >= modulus,
                ),
            )
        },
        Arithmetic::Divide => {
            let dividend = value_of(m, Operand::Register(2), size) * modulus + value_of(
                m,
                Operand::Register(0),
                size,
            );
            if value == 0 || dividend / value >= modulus {
                Outcome::Trapped
            } else {
                let low = with_value(m, Operand::Register(0), size, dividend / value);
                Outcome::Running(with_value(low, Operand::Register(2), size, dividend % value))
            }
        },
        Arithmetic::SignedDivide => {
            let dividend = with_sign(value_of(m, Operand::Register(2), size), size) * modulus
                + value_of(m, Operand::Register(0), size);
            let divisor = with_sign(value, size);
            let result = quotient(dividend, divisor);
            if value == 0 || !(-modulus <= 2 * result < modulus) {
                Outcome::Trapped
            } else {
                let low = with_value(m, Operand::Register(0), size, result % modulus);
                Outcome::Running(
                    with_value(
                        low,
                        Operand::Register(2),
                        size,
                        (dividend - result * divisor) % modulus,
                    ),
                )
            }
        },
    }
}

/// What an instruction does, where the machine already stands behind it.
#[verifier::opaque]
pub open spec fn performed(m: Machine, step: Step) -> Outcome {
    match step {
        Step::Move { size, to, from } => Outcome::Running(
            with_value(m, to, size, value_of(m, from, size)),
        ),
        Step::Widen { signed, size, to, from_size, from } => {
            let value = value_of(m, from, from_size);
            Outcome::Running(
                with_value(
                    m,
                    Operand::Register(to),
                    size,
                    if signed {
                        with_sign(value, from_size) % size_modulus(size)
                    } else {
                        value
                    },
                ),
            )
        },
        Step::Operate { operation, size, to, from } => Outcome::Running(
            after_operation(m, operation, size, to, value_of(m, to, size), value_of(m, from, size)),
        ),
        Step::Shift { shifting, size, to, count } => Outcome::Running(
            with_value(
                m,
                to,
                size,
                shifted(shifting, size, value_of(m, to, size), value_of(m, count, 8)),
            ),
        ),
        Step::Compute { arithmetic, size, with } => after_arithmetic(m, arithmetic, size, with),
        Step::SignedMultiply { size, to, with } => {
            let product = with_sign(value_of(m, Operand::Register(to), size), size) * with_sign(
                value_of(m, with, size),
                size,
            );
            let result = product % size_modulus(size);
            Outcome::Running(
                with_flags(
                    with_value(m, Operand::Register(to), size, result),
                    result,
                    size,
                    with_sign(result, size) != product,
                    with_sign(result, size) != product,
                ),
            )
        },
        Step::Exchange { size, first, second } => {
            let left = value_of(m, Operand::Register(first), size);
            let right = value_of(m, second, size);
            Outcome::Running(
                with_value(
                    with_value(m, second, size, left),
                    Operand::Register(first),
                    size,
                    right,
                ),
            )
        },
        Step::Address { to, address } => match address {
            Operand::Memory { base, index, displacement } => Outcome::Running(
                with_register(m, to, address_of(m, base, index, displacement) as u64),
            ),
            _ => Outcome::Unknown,
        },
        Step::Push(number) => {
            let top = (register(m, 4) - 8) % register_modulus();
            Outcome::Running(
                Machine {
                    memory: stored(m.memory, top, 8, register(m, number) as int),
                    ..with_register(m, 4, top as u64)
                },
            )
        },
        Step::Pop(number) => {
            let top = register(m, 4) as int;
            Outcome::Running(
                with_register(
                    with_register(m, 4, ((top + 8) % register_modulus()) as u64),
                    number,
                    loaded(m.memory, top, 8) as u64,
                ),
            )
        },
        Step::SpreadSign => Outcome::Running(
            with_register(
                m,
                2,
                if register(m, 0) >= 0x8000_0000_0000_0000 {
                    0xffff_ffff_ffff_ffff
                } else {
                    0
                },
            ),
        ),
        Step::Answer { condition, to } => Outcome::Running(
            with_value(
                m,
                to,
                8,
                if meets(m, condition) {
                    1
                } else {
                    0
                },
            ),
        ),
        Step::Jump { target } => Outcome::Running(Machine { at: target, ..m }),
        Step::Branch { condition, target } => Outcome::Running(
            if meets(m, condition) {
                Machine { at: target, ..m }
            } else {
                m
            },
        ),
        Step::Return => Outcome::Returned(m),
        Step::Stop => Outcome::Trapped,
    }
}

/// What comes of the next instruction.
pub open spec fn next(code: Seq<u8>, m: Machine) -> Outcome {
    match step_at(code, m.at) {
        Some((step, behind)) => performed(Machine { at: behind, ..m }, step),
        None => Outcome::Unknown,
    }
}

/// What comes of some instructions in turn.
pub open spec fn execution(code: Seq<u8>, m: Machine, count: nat) -> Outcome
    decreases count,
{
    if count == 0 {
        Outcome::Running(m)
    } else {
        match next(code, m) {
            Outcome::Running(after) => execution(code, after, (count - 1) as nat),
            outcome => outcome,
        }
    }
}

/// Whether the code leads from one machine to an outcome.
pub open spec fn leads(code: Seq<u8>, m: Machine, outcome: Outcome) -> bool {
    exists|count: nat| execution(code, m, count) == outcome
}

/// Code that leads to a machine and on from there leads on.
pub proof fn leading_goes_on(code: Seq<u8>, m: Machine, middle: Machine, outcome: Outcome)
    requires
        leads(code, m, Outcome::Running(middle)),
        leads(code, middle, outcome),
    ensures
        leads(code, m, outcome),
{
    let first = choose|count: nat| execution(code, m, count) == Outcome::Running(middle);
    let second = choose|count: nat| execution(code, middle, count) == outcome;
    execution_goes_on(code, m, middle, first, second);
    assert(execution(code, m, first + second) == outcome);
}

proof fn execution_goes_on(code: Seq<u8>, m: Machine, middle: Machine, first: nat, second: nat)
    requires
        execution(code, m, first) == Outcome::Running(middle),
    ensures
        execution(code, m, first + second) == execution(code, middle, second),
    decreases first,
{
    if first > 0 {
        let after = next(code, m)->Running_0;
        execution_goes_on(code, after, middle, (first - 1) as nat, second);
        assert((first + second - 1) as nat == (first - 1) as nat + second);
    }
}

/// The next instruction, and what comes of it.
pub proof fn next_leads(code: Seq<u8>, m: Machine)
    ensures
        leads(code, m, next(code, m)),
{
    let after = next(code, m);
    if let Outcome::Running(n) = after {
        assert(execution(code, n, 0) == Outcome::Running(n));
    }
    assert(execution(code, m, 1) == after);
}

/// The next instruction goes on to what the machine after it leads to.
pub proof fn next_leads_on(code: Seq<u8>, m: Machine, after: Machine, outcome: Outcome)
    requires
        next(code, m) == Outcome::Running(after),
        leads(code, after, outcome),
    ensures
        leads(code, m, outcome),
{
    next_leads(code, m);
    leading_goes_on(code, m, after, outcome);
}

/// A machine leads to itself.
pub proof fn stays(code: Seq<u8>, m: Machine)
    ensures
        leads(code, m, Outcome::Running(m)),
{
    assert(execution(code, m, 0) == Outcome::Running(m));
}

} // verus!
