use vstd::prelude::*;

use crate::flags::flag_of;
use crate::flags::ConditionFlags;
use crate::flags::FLAG_NEG;
use crate::flags::FLAG_POS;
use crate::flags::FLAG_ZRO;
use crate::opcodes::opcode_wf;
use crate::opcodes::spec_decode;
use crate::opcodes::Opcode;
use crate::opcodes::OpcodeError;
use crate::traps::Trap;
use crate::traps::TrapError;

verus! {

/// Number of addressable 16-bit words.
pub const MEMORY_MAX: usize = 0x10000;

/// Index of the program counter in the register file.
pub const REG_PC: u16 = 8;

/// Index of the condition-flag register in the register file.
pub const REG_COND: u16 = 9;

/// Address at which execution conventionally starts.
pub const PC_START: u16 = 0x3000;

/// A failure of the program-image loader; a failed load leaves the machine
/// untouched.
#[derive(Clone, Copy, Debug, PartialEq, Eq, Structural)]
pub enum ImageLoadError {
    /// The image is too short to hold the origin word.
    MissingOrigin,
    /// The image ends in a half word.
    OddByteCount,
    /// Origin plus word count runs past the end of the address space.
    DoesNotFit,
}

/// Everything that can go wrong while loading or running a program. The
/// register- and memory-addressing variants are defensive: correctly decoded
/// instructions never produce them.
#[derive(Clone, Copy, Debug, PartialEq, Eq, Structural)]
pub enum VMError {
    /// The program image was rejected by the loader.
    LoadProgram(ImageLoadError),
    /// Program-counter access failed; defensive only, PC arithmetic wraps.
    ProgramCounter,
    /// Fetching the word at the given address failed; defensive only, every
    /// 16-bit address is in range.
    Fetch(u16),
    /// Flag update named a register outside the file.
    Flags(u16),
    /// The fetched word could not be decoded.
    Decode(OpcodeError),
    /// A register write named a register outside the file.
    GetRegister(u16),
    /// A register read named a register outside the file.
    ReadRegister(u16),
    /// The TRAP instruction named a vector outside the service table.
    Execute(TrapError),
    /// A memory access named an address outside the space; defensive only.
    Memory(u16),
}

/// The mathematical state of the machine: the 65536 memory words, the ten
/// registers (eight general registers, then PC, then COND), and the run flag.
#[verifier::ext_equal]
pub ghost struct VMView {
    pub memory: Seq<u16>,
    pub registers: Seq<u16>,
    pub running: bool,
}

impl VMView {
    /// The machine shape: full memory and a ten-word register file.
    pub open spec fn wf(self) -> bool {
        self.memory.len() == MEMORY_MAX && self.registers.len() == 10
    }

    /// The program counter.
    pub open spec fn pc(self) -> u16 {
        self.registers[REG_PC as int]
    }

    /// The condition-flag register.
    pub open spec fn cond(self) -> u16 {
        self.registers[REG_COND as int]
    }

    /// The register at index `i`.
    pub open spec fn reg(self, i: int) -> u16 {
        self.registers[i]
    }

    /// This state with another register file.
    pub open spec fn with_regs(self, registers: Seq<u16>) -> VMView {
        VMView { memory: self.memory, registers: registers, running: self.running }
    }

    /// This state with other memory contents.
    pub open spec fn with_mem(self, memory: Seq<u16>) -> VMView {
        VMView { memory: memory, registers: self.registers, running: self.running }
    }

    /// This state with the run flag changed.
    pub open spec fn with_running(self, running: bool) -> VMView {
        VMView { memory: self.memory, registers: self.registers, running: running }
    }

    /// This state with the program counter moved.
    pub open spec fn with_pc(self, pc: u16) -> VMView {
        self.with_regs(self.registers.update(REG_PC as int, pc))
    }

    /// This state after a flag-setting write of `value` to general register
    /// `dr`: the register takes the value and COND takes its flag word.
    pub open spec fn write_reg(self, dr: int, value: u16) -> VMView {
        self.with_regs(self.registers.update(dr, value).update(REG_COND as int, flag_of(value)))
    }
}

/// The machine state right after reset: zeroed memory and registers, the
/// program counter at the conventional start address, the machine stopped.
pub open spec fn init_view() -> VMView {
    VMView {
        memory: Seq::new(MEMORY_MAX as nat, |i: int| 0u16),
        registers: seq![0u16, 0u16, 0u16, 0u16, 0u16, 0u16, 0u16, 0u16, PC_START, 0u16],
        running: false,
    }
}

/// The virtual machine: memory, register file, and run flag. All state
/// changes are described against the abstract [`VMView`] reached through
/// `@`.
pub struct VM {
    memory: Vec<u16>,
    registers: Vec<u16>,
    pub running: bool,
}

impl View for VM {
    type V = VMView;

    closed spec fn view(&self) -> VMView {
        VMView { memory: self.memory@, registers: self.registers@, running: self.running }
    }
}

impl Default for VM {
    /// A machine at reset: memory and registers zeroed, PC at the start
    /// address, not running.
    fn default() -> (vm: VM)
        ensures
            vm@ == init_view(),
            vm@.wf(),
    {
        let mut memory: Vec<u16> = Vec::new();
        while memory.len() < MEMORY_MAX
            invariant
                memory@.len() <= MEMORY_MAX,
                forall|i: int| 0 <= i < memory@.len() ==> memory@[i] == 0u16,
            decreases MEMORY_MAX - memory@.len(),
        {
            memory.push(0);
        }
        let mut registers: Vec<u16> = Vec::new();
        let mut i: usize = 0;
        while i < 8
            invariant
                i <= 8,
                registers@.len() == i,
                forall|j: int| 0 <= j < i ==> registers@[j] == 0u16,
            decreases 8 - i,
        {
            registers.push(0);
            i += 1;
        }
        registers.push(PC_START);
        registers.push(0);
        let vm = VM { memory, registers, running: false };
        proof {
            assert(vm@.memory =~= init_view().memory);
            assert(vm@.registers =~= init_view().registers);
            assert(vm@ =~= init_view());
        }
        vm
    }
}

impl VM {
    /// Reads the word at a memory address. Every 16-bit address is inside
    /// the space, so this always succeeds with the stored word.
    pub fn read_word(&self, address: u16) -> (r: Result<Option<u16>, VMError>)
        requires
            self@.wf(),
        ensures
            r == Ok::<Option<u16>, VMError>(Some(self@.memory[address as int])),
    {
        Ok(Some(self.memory[address as usize]))
    }

    /// Writes a word at a memory address; every 16-bit address is inside the
    /// space, so this always succeeds and changes that one word.
    pub fn store_word(&mut self, address: u16, value: u16) -> (r: Result<(), VMError>)
        requires
            old(self)@.wf(),
        ensures
            final(self)@.wf(),
            r == Ok::<(), VMError>(()),
            final(self)@ == old(self)@.with_mem(old(self)@.memory.update(address as int, value)),
    {
        self.memory[address as usize] = value;
        Ok(())
    }

    /// Decodes a fetched word; see [`Opcode::try_from`].
    pub fn decode(instruction: u16) -> (r: Result<Opcode, OpcodeError>)
        ensures
            r == Ok::<Opcode, OpcodeError>(crate::opcodes::spec_decode(instruction)),
    {
        Opcode::try_from(instruction)
    }

    /// Reads a register by index; indices eight and nine name PC and COND.
    /// An index outside the file is the defensive register-addressing error.
    pub fn get_register_value(&self, register: u16) -> (r: Result<u16, VMError>)
        requires
            self@.wf(),
        ensures
            register <= 9 ==> r == Ok::<u16, VMError>(self@.reg(register as int)),
            register > 9 ==> r == Err::<u16, VMError>(VMError::ReadRegister(register)),
    {
        if register <= 9 {
            Ok(self.registers[register as usize])
        } else {
            Err(VMError::ReadRegister(register))
        }
    }

    /// Writes a register by index; indices eight and nine name PC and COND.
    /// An index outside the file is the defensive register-addressing error
    /// and leaves the machine unchanged.
    pub fn update_register(&mut self, register: u16, value: u16) -> (r: Result<(), VMError>)
        requires
            old(self)@.wf(),
        ensures
            final(self)@.wf(),
            register <= 9 ==> r == Ok::<(), VMError>(()) && final(self)@ == old(self)@.with_regs(
                old(self)@.registers.update(register as int, value),
            ),
            register > 9 ==> r == Err::<(), VMError>(VMError::GetRegister(register)) && final(self)@
                == old(self)@,
    {
        match self.get_register(register) {
            Ok(register_value) => {
                *register_value = value;
                Ok(())
            },
            Err(e) => Err(e),
        }
    }

    /// Borrows a register by index for writing; indices eight and nine name
    /// PC and COND. Whatever the caller writes through the borrow lands in
    /// the register file. An index outside the file is the defensive
    /// register-addressing error.
    pub fn get_register(&mut self, register: u16) -> (r: Result<&mut u16, VMError>)
        requires
            old(self)@.wf(),
        ensures
            register <= 9 ==> (r matches Ok(v) && *v == old(self)@.reg(register as int)
                && final(self)@ == old(self)@.with_regs(
                old(self)@.registers.update(register as int, *final(v)),
            )),
            register > 9 ==> (r matches Err(e) && e == VMError::GetRegister(register)
                && final(self)@ == old(self)@),
    {
        if register <= 9 {
            Ok(&mut self.registers[register as usize])
        } else {
            Err(VMError::GetRegister(register))
        }
    }

    /// Recomputes COND from the value held by the given register: negative
    /// if its sign bit is set, zero if it is zero, positive otherwise. An
    /// index outside the file is the defensive flag error.
    pub fn update_flags(&mut self, register: u16) -> (r: Result<bool, VMError>)
        requires
            old(self)@.wf(),
        ensures
            final(self)@.wf(),
            register <= 9 ==> r == Ok::<bool, VMError>(true) && final(self)@ == old(
                self,
            )@.with_regs(
                old(self)@.registers.update(
                    REG_COND as int,
                    flag_of(old(self)@.reg(register as int)),
                ),
            ),
            register > 9 ==> r == Err::<bool, VMError>(VMError::Flags(register)) && final(self)@
                == old(self)@,
    {
        if register > 9 {
            return Err(VMError::Flags(register));
        }
        let value = self.registers[register as usize];
        proof {
            assert((value >> 15) == 1 <==> value >= 0x8000) by (bit_vector);
        }
        let flag = if value == 0 {
            ConditionFlags::ZRO
        } else if (value >> 15) == 1 {
            ConditionFlags::NEG
        } else {
            ConditionFlags::POS
        };
        self.registers[9] = flag.word();
        Ok(true)
    }

    /// The condition-flag word.
    pub fn get_flags(&self) -> (r: Result<u16, VMError>)
        requires
            self@.wf(),
        ensures
            r == Ok::<u16, VMError>(self@.cond()),
    {
        self.get_register_value(REG_COND)
    }

    /// The program counter.
    pub fn get_pc(&self) -> (r: Result<u16, VMError>)
        requires
            self@.wf(),
        ensures
            r == Ok::<u16, VMError>(self@.pc()),
    {
        self.get_register_value(REG_PC)
    }

    /// Moves the program counter.
    pub fn set_pc(&mut self, value: u16) -> (r: Result<(), VMError>)
        requires
            old(self)@.wf(),
        ensures
            final(self)@.wf(),
            r == Ok::<(), VMError>(()),
            final(self)@ == old(self)@.with_pc(value),
    {
        self.update_register(REG_PC, value)
    }

    /// Advances the program counter by one, wrapping at the end of the
    /// address space.
    pub fn increment_pc(&mut self)
        requires
            old(self)@.wf(),
        ensures
            final(self)@.wf(),
            final(self)@ == old(self)@.with_pc(old(self)@.pc().wrapping_add(1)),
    {
        let pc = self.registers[8];
        self.registers[8] = pc.wrapping_add(1);
    }

    /// Adds an offset to the program counter, wrapping at the end of the
    /// address space.
    pub fn add_to_pc(&mut self, offset: u16)
        requires
            old(self)@.wf(),
        ensures
            final(self)@.wf(),
            final(self)@ == old(self)@.with_pc(old(self)@.pc().wrapping_add(offset)),
    {
        let pc = self.registers[8];
        self.registers[8] = pc.wrapping_add(offset);
    }

    /// Hands the machine the character a pending input request asked for;
    /// the character lands in R0.
    pub fn supply_input(&mut self, input: u8)
        requires
            old(self)@.wf(),
        ensures
            final(self)@.wf(),
            final(self)@ == old(self)@.with_regs(
                old(self)@.registers.update(0, input as u16),
            ),
    {
        self.registers[0] = input as u16;
    }
}

/// The 16-bit word formed from two big-endian bytes.
pub open spec fn join16(hi: u8, lo: u8) -> u16 {
    (hi * 0x100 + lo) as u16
}

/// The load origin of an image: its first big-endian word.
pub open spec fn image_origin(bytes: Seq<u8>) -> int {
    join16(bytes[0], bytes[1]) as int
}

/// The number of payload words following the origin word of an image.
pub open spec fn image_words(bytes: Seq<u8>) -> int {
    bytes.len() as int / 2 - 1
}

/// The payload word at index `i` of an image.
pub open spec fn image_word(bytes: Seq<u8>, i: int) -> u16 {
    join16(bytes[2 * i + 2], bytes[2 * i + 3])
}

/// Whether the loader accepts an image: a whole origin word, an even byte
/// count, and a payload that stays inside the address space.
pub open spec fn load_ok(bytes: Seq<u8>) -> bool {
    &&& bytes.len() >= 2
    &&& bytes.len() % 2 == 0
    &&& image_origin(bytes) + image_words(bytes) <= 0xFFFF
}

/// The loader error a rejected image draws.
pub open spec fn load_err(bytes: Seq<u8>) -> ImageLoadError {
    if bytes.len() < 2 {
        ImageLoadError::MissingOrigin
    } else if bytes.len() % 2 != 0 {
        ImageLoadError::OddByteCount
    } else {
        ImageLoadError::DoesNotFit
    }
}

/// Memory after a successful load: the payload words sit consecutively from
/// the origin and every other word keeps its contents.
pub open spec fn load_mem(mem: Seq<u16>, bytes: Seq<u8>) -> Seq<u16> {
    Seq::new(
        mem.len(),
        |a: int|
            if image_origin(bytes) <= a < image_origin(bytes) + image_words(bytes) {
                image_word(bytes, a - image_origin(bytes))
            } else {
                mem[a]
            },
    )
}

impl VM {
    /// Joins the first two bytes of a slice into one big-endian word.
    pub fn join_bytes(bytes: &[u8]) -> (r: Option<u16>)
        ensures
            bytes@.len() >= 2 ==> r == Some(join16(bytes@[0], bytes@[1])),
            bytes@.len() < 2 ==> r == None::<u16>,
    {
        if bytes.len() < 2 {
            return None;
        }
        let hi = bytes[0] as u16;
        let lo = bytes[1] as u16;
        Some(hi * 0x100 + lo)
    }

    /// Loads a program image: the first big-endian word names the origin,
    /// every following word lands consecutively from there. A rejected image
    /// (half a word, no origin word, or a payload running past the end of
    /// the address space) leaves the whole machine exactly as it was: the
    /// load is all or nothing.
    pub fn load_bytes(&mut self, bytes: &[u8]) -> (r: Result<(), VMError>)
        requires
            old(self)@.wf(),
        ensures
            final(self)@.wf(),
            load_ok(bytes@) ==> r == Ok::<(), VMError>(()) && final(self)@ == old(self)@.with_mem(
                load_mem(old(self)@.memory, bytes@),
            ),
            !load_ok(bytes@) ==> r == Err::<(), VMError>(VMError::LoadProgram(load_err(bytes@)))
                && final(self)@ == old(self)@,
    {
        if bytes.len() < 2 {
            return Err(VMError::LoadProgram(ImageLoadError::MissingOrigin));
        }
        if bytes.len() % 2 != 0 {
            return Err(VMError::LoadProgram(ImageLoadError::OddByteCount));
        }
        let origin = match Self::join_bytes(bytes) {
            Some(origin) => origin,
            None => {
                return Err(VMError::LoadProgram(ImageLoadError::MissingOrigin));
            },
        };
        let count = bytes.len() / 2 - 1;
        if count > 0xFFFF - origin as usize {
            return Err(VMError::LoadProgram(ImageLoadError::DoesNotFit));
        }
        let mut i: usize = 0;
        while i < count
            invariant
                self@.wf(),
                i <= count,
                count == image_words(bytes@),
                origin == image_origin(bytes@),
                origin + count <= 0xFFFF,
                bytes@.len() == 2 * count + 2,
                self@.registers == old(self)@.registers,
                self@.running == old(self)@.running,
                forall|a: int|
                    0 <= a < MEMORY_MAX && !(origin <= a < origin + i) ==> self@.memory[a] == old(
                        self,
                    )@.memory[a],
                forall|j: int| 0 <= j < i ==> self@.memory[origin + j] == image_word(bytes@, j),
            decreases count - i,
        {
            let hi = bytes[2 * i + 2] as u16;
            let lo = bytes[2 * i + 3] as u16;
            self.memory[origin as usize + i] = hi * 0x100 + lo;
            i += 1;
        }
        proof {
            assert(self@.memory =~= load_mem(old(self)@.memory, bytes@));
            assert(self@ =~= old(self)@.with_mem(load_mem(old(self)@.memory, bytes@)));
        }
        Ok(())
    }
}

/// A 5-bit two's-complement field widened to 16 bits.
pub open spec fn sext5(v: u16) -> u16
    recommends
        v < 0x20,
{
    if v >= 0x10 {
        (v + 0xFFE0) as u16
    } else {
        v
    }
}

/// A 6-bit two's-complement field widened to 16 bits.
pub open spec fn sext6(v: u16) -> u16
    recommends
        v < 0x40,
{
    if v >= 0x20 {
        (v + 0xFFC0) as u16
    } else {
        v
    }
}

/// A 9-bit two's-complement field widened to 16 bits.
pub open spec fn sext9(v: u16) -> u16
    recommends
        v < 0x200,
{
    if v >= 0x100 {
        (v + 0xFE00) as u16
    } else {
        v
    }
}

/// An 11-bit two's-complement field widened to 16 bits.
pub open spec fn sext11(v: u16) -> u16
    recommends
        v < 0x800,
{
    if v >= 0x400 {
        (v + 0xF800) as u16
    } else {
        v
    }
}

/// Sign-extension law at width 5: a field whose sign bit is set gains every
/// high bit (the OR of the mask above the field); one whose sign bit is clear
/// is unchanged.
pub proof fn lemma_sign_extend_5_mask(v: u16)
    requires
        v < 0x20,
    ensures
        v >= 0x10 ==> sext5(v) == (v | 0xFFE0),
        v < 0x10 ==> sext5(v) == v,
{
    assert(v >= 0x10 && v < 0x20 ==> (v | 0xFFE0) == (v + 0xFFE0) as u16) by (bit_vector);
}

/// Sign-extension law at width 6; see `lemma_sign_extend_5_mask`.
pub proof fn lemma_sign_extend_6_mask(v: u16)
    requires
        v < 0x40,
    ensures
        v >= 0x20 ==> sext6(v) == (v | 0xFFC0),
        v < 0x20 ==> sext6(v) == v,
{
    assert(v >= 0x20 && v < 0x40 ==> (v | 0xFFC0) == (v + 0xFFC0) as u16) by (bit_vector);
}

/// Sign-extension law at width 9; see `lemma_sign_extend_5_mask`.
pub proof fn lemma_sign_extend_9_mask(v: u16)
    requires
        v < 0x200,
    ensures
        v >= 0x100 ==> sext9(v) == (v | 0xFE00),
        v < 0x100 ==> sext9(v) == v,
{
    assert(v >= 0x100 && v < 0x200 ==> (v | 0xFE00) == (v + 0xFE00) as u16) by (bit_vector);
}

/// Sign-extension law at width 11; see `lemma_sign_extend_5_mask`.
pub proof fn lemma_sign_extend_11_mask(v: u16)
    requires
        v < 0x800,
    ensures
        v >= 0x400 ==> sext11(v) == (v | 0xF800),
        v < 0x400 ==> sext11(v) == v,
{
    assert(v >= 0x400 && v < 0x800 ==> (v | 0xF800) == (v + 0xF800) as u16) by (bit_vector);
}

/// Widens a 5-bit two's-complement field to 16 bits.
pub fn sign_extend_5_bits(num: u8) -> (r: u16)
    requires
        num < 0x20,
    ensures
        r == sext5(num as u16),
{
    let n: u16 = num as u16;
    proof {
        assert(n < 0x20 ==> (((n >> 4) == 1) <==> n >= 0x10)) by (bit_vector);
        lemma_sign_extend_5_mask(n);
    }
    if (n >> 4) == 1 {
        n | 0xFFE0
    } else {
        n
    }
}

/// Widens a 6-bit two's-complement field to 16 bits.
pub fn sign_extend_6_bits(num: u8) -> (r: u16)
    requires
        num < 0x40,
    ensures
        r == sext6(num as u16),
{
    let n: u16 = num as u16;
    proof {
        assert(n < 0x40 ==> (((n >> 5) == 1) <==> n >= 0x20)) by (bit_vector);
        lemma_sign_extend_6_mask(n);
    }
    if (n >> 5) == 1 {
        n | 0xFFC0
    } else {
        n
    }
}

/// Widens a 9-bit two's-complement field to 16 bits.
pub fn sign_extend_9_bits(num: u16) -> (r: u16)
    requires
        num < 0x200,
    ensures
        r == sext9(num),
{
    proof {
        assert(num < 0x200 ==> (((num >> 8) == 1) <==> num >= 0x100)) by (bit_vector);
        lemma_sign_extend_9_mask(num);
    }
    if (num >> 8) == 1 {
        num | 0xFE00
    } else {
        num
    }
}

/// Widens an 11-bit two's-complement field to 16 bits.
pub fn sign_extend_11_bits(num: u16) -> (r: u16)
    requires
        num < 0x800,
    ensures
        r == sext11(num),
{
    proof {
        assert(num < 0x800 ==> (((num >> 10) == 1) <==> num >= 0x400)) by (bit_vector);
        lemma_sign_extend_11_mask(num);
    }
    if (num >> 10) == 1 {
        num | 0xF800
    } else {
        num
    }
}

/// What the host must do after one executed instruction. The machine never
/// touches the console itself: it hands bytes out and asks for bytes here.
#[derive(Debug, PartialEq, Eq)]
pub enum Effect {
    /// Nothing external happened; fetch the next instruction.
    Continue,
    /// Write these bytes to the console.
    Output(Vec<u8>),
    /// Read one character and hand it back through [`VM::supply_input`];
    /// with `echo` set, show a prompt first and echo the character read.
    AwaitInput { echo: bool },
    /// The halt service ran; the run flag is now clear.
    Halted,
}

/// The mathematical shadow of an [`Effect`].
pub ghost enum EffectView {
    Continue,
    Output(Seq<u8>),
    AwaitInput { echo: bool },
    Halted,
}

impl View for Effect {
    type V = EffectView;

    open spec fn view(&self) -> EffectView {
        match self {
            Effect::Continue => EffectView::Continue,
            Effect::Output(bytes) => EffectView::Output(bytes@),
            Effect::AwaitInput { echo } => EffectView::AwaitInput { echo: *echo },
            Effect::Halted => EffectView::Halted,
        }
    }
}

/// The NUL-terminated string of one character per word that starts at
/// `addr`: the low byte of each word up to but not including the first zero
/// word, never running more than `fuel` words.
pub open spec fn puts_seq(mem: Seq<u16>, addr: u16, fuel: nat) -> Seq<u8>
    decreases fuel,
{
    if fuel == 0 || mem[addr as int] == 0 {
        Seq::empty()
    } else {
        seq![(mem[addr as int] & 0xFF) as u8] + puts_seq(mem, addr.wrapping_add(1), (fuel - 1) as nat)
    }
}

/// The NUL-terminated string of two packed characters per word that starts
/// at `addr`: for each word up to the first zero word, its low byte and
/// then, if nonzero, its high byte.
pub open spec fn putsp_seq(mem: Seq<u16>, addr: u16, fuel: nat) -> Seq<u8>
    decreases fuel,
{
    if fuel == 0 || mem[addr as int] == 0 {
        Seq::empty()
    } else {
        let w = mem[addr as int];
        (if (w >> 8) as u8 == 0 {
            seq![(w & 0xFF) as u8]
        } else {
            seq![(w & 0xFF) as u8, (w >> 8) as u8]
        }) + putsp_seq(mem, addr.wrapping_add(1), (fuel - 1) as nat)
    }
}

/// Extracts the low byte of a word.
fn low_byte(w: u16) -> (r: u8)
    ensures
        r == (w & 0xFF) as u8,
{
    proof {
        assert((w & 0xFF) < 0x100) by (bit_vector);
    }
    (w & 0xFF) as u8
}

/// Extracts the high byte of a word.
fn high_byte(w: u16) -> (r: u8)
    ensures
        r == (w >> 8) as u8,
{
    proof {
        assert((w >> 8) < 0x100) by (bit_vector);
    }
    (w >> 8) as u8
}

/// The state and error of an ADD or AND instruction: the second operand is
/// an immediate or a register read, the combination lands in the
/// destination and sets the flags. A second-operand field that names no
/// register in the file is the defensive register-read error, raised before
/// anything changes.
pub open spec fn spec_binop(pre: VMView, dr: u8, sr1: u8, mode: bool, sr2: u8, is_add: bool) -> (
    VMView,
    Result<EffectView, VMError>,
) {
    if !mode && sr2 > 9 {
        (pre, Err(VMError::ReadRegister(sr2 as u16)))
    } else {
        let rhs = if mode {
            sext5(sr2 as u16)
        } else {
            pre.reg(sr2 as int)
        };
        let result = if is_add {
            pre.reg(sr1 as int).wrapping_add(rhs)
        } else {
            pre.reg(sr1 as int) & rhs
        };
        (pre.write_reg(dr as int, result), Ok(EffectView::Continue))
    }
}

/// The state and effect of a TRAP instruction: a vector outside the service
/// table aborts the step unchanged; the halt service clears the run flag;
/// the others leave the machine alone and name what the host must do.
pub open spec fn spec_trap(pre: VMView, trap_vec: u8) -> (VMView, Result<EffectView, VMError>) {
    match Trap::spec_try_from(trap_vec) {
        Err(e) => (pre, Err(VMError::Execute(e))),
        Ok(Trap::GetC) => (pre, Ok(EffectView::AwaitInput { echo: false })),
        Ok(Trap::Out) => (pre, Ok(EffectView::Output(seq![(pre.reg(0) & 0xFF) as u8]))),
        Ok(Trap::Puts) => (
            pre,
            Ok(EffectView::Output(puts_seq(pre.memory, pre.reg(0), MEMORY_MAX as nat))),
        ),
        Ok(Trap::In) => (pre, Ok(EffectView::AwaitInput { echo: true })),
        Ok(Trap::Putsp) => (
            pre,
            Ok(EffectView::Output(putsp_seq(pre.memory, pre.reg(0), MEMORY_MAX as nat))),
        ),
        Ok(Trap::Halt) => (pre.with_running(false), Ok(EffectView::Halted)),
    }
}

/// The state and effect of one instruction executed from `pre`, whose
/// program counter has already advanced past it. Offsets are measured from
/// that advanced counter; all address arithmetic wraps at the end of the
/// address space.
pub open spec fn spec_exec(pre: VMView, op: Opcode) -> (VMView, Result<EffectView, VMError>)
    recommends
        pre.wf(),
        opcode_wf(op),
{
    match op {
        Opcode::BR { n, z, p, offset } => {
            let taken = (n && pre.cond() == FLAG_NEG) || (z && pre.cond() == FLAG_ZRO) || (p
                && pre.cond() == FLAG_POS);
            if taken {
                (pre.with_pc(pre.pc().wrapping_add(sext9(offset))), Ok(EffectView::Continue))
            } else {
                (pre, Ok(EffectView::Continue))
            }
        },
        Opcode::ADD { dr, sr1, mode, sr2 } => spec_binop(pre, dr, sr1, mode, sr2, true),
        Opcode::AND { dr, sr1, mode, sr2 } => spec_binop(pre, dr, sr1, mode, sr2, false),
        Opcode::LD { dr, offset } => {
            let value = pre.memory[pre.pc().wrapping_add(sext9(offset)) as int];
            (pre.write_reg(dr as int, value), Ok(EffectView::Continue))
        },
        Opcode::ST { sr, offset } => {
            let address = pre.pc().wrapping_add(sext9(offset));
            (
                pre.with_mem(pre.memory.update(address as int, pre.reg(sr as int))),
                Ok(EffectView::Continue),
            )
        },
        Opcode::JSR { mode, offset } => {
            let saved = pre.with_regs(pre.registers.update(7, pre.pc()));
            if mode {
                (saved.with_pc(pre.pc().wrapping_add(sext11(offset))), Ok(EffectView::Continue))
            } else {
                let base = offset >> 6;
                if base > 9 {
                    (saved, Err(VMError::ReadRegister(base)))
                } else {
                    (saved.with_pc(saved.reg(base as int)), Ok(EffectView::Continue))
                }
            }
        },
        Opcode::LDR { dr, base_r, offset } => {
            let value = pre.memory[pre.reg(base_r as int).wrapping_add(sext6(offset as u16)) as int];
            (pre.write_reg(dr as int, value), Ok(EffectView::Continue))
        },
        Opcode::STR { sr, base_r, offset } => {
            let address = pre.reg(base_r as int).wrapping_add(sext6(offset as u16));
            (
                pre.with_mem(pre.memory.update(address as int, pre.reg(sr as int))),
                Ok(EffectView::Continue),
            )
        },
        Opcode::RTI {  } => (pre, Ok(EffectView::Continue)),
        Opcode::NOT { dr, sr } => (
            pre.write_reg(dr as int, !pre.reg(sr as int)),
            Ok(EffectView::Continue),
        ),
        Opcode::LDI { dr, offset } => {
            let pointer = pre.memory[pre.pc().wrapping_add(sext9(offset)) as int];
            (pre.write_reg(dr as int, pre.memory[pointer as int]), Ok(EffectView::Continue))
        },
        Opcode::STI { sr, offset } => {
            let pointer = pre.memory[pre.pc().wrapping_add(sext9(offset)) as int];
            (
                pre.with_mem(pre.memory.update(pointer as int, pre.reg(sr as int))),
                Ok(EffectView::Continue),
            )
        },
        Opcode::JMP { base_r } => (pre.with_pc(pre.reg(base_r as int)), Ok(EffectView::Continue)),
        Opcode::RES {  } => (pre, Ok(EffectView::Continue)),
        Opcode::LEA { dr, offset } => (
            pre.write_reg(dr as int, pre.pc().wrapping_add(sext9(offset))),
            Ok(EffectView::Continue),
        ),
        Opcode::TRAP { trap_vec } => spec_trap(pre, trap_vec),
    }
}

/// One whole machine cycle from `pre`: fetch the word under the program
/// counter, advance the counter, then execute the decoded instruction.
pub open spec fn spec_step(pre: VMView) -> (VMView, Result<EffectView, VMError>)
    recommends
        pre.wf(),
{
    let w = pre.memory[pre.pc() as int];
    spec_exec(pre.with_pc(pre.pc().wrapping_add(1)), spec_decode(w))
}

/// The destination register of an instruction that recomputes COND, if any.
pub open spec fn flag_setting_dest(op: Opcode) -> Option<u8> {
    match op {
        Opcode::ADD { dr, .. } => Some(dr),
        Opcode::AND { dr, .. } => Some(dr),
        Opcode::NOT { dr, .. } => Some(dr),
        Opcode::LD { dr, .. } => Some(dr),
        Opcode::LDI { dr, .. } => Some(dr),
        Opcode::LDR { dr, .. } => Some(dr),
        Opcode::LEA { dr, .. } => Some(dr),
        _ => None,
    }
}

/// Flag invariant: an instruction that defines a destination register
/// leaves COND holding exactly one of the three flag words, the one that
/// matches the sign or zero state of the value just written.
pub proof fn lemma_flag_invariant(pre: VMView, op: Opcode)
    requires
        pre.wf(),
        opcode_wf(op),
    ensures
        ({
            let (post, r) = spec_exec(pre, op);
            match flag_setting_dest(op) {
                Some(dr) => r is Ok ==> crate::flags::is_flag_word(post.cond()) && post.cond()
                    == flag_of(post.reg(dr as int)),
                None => true,
            }
        }),
{
    match op {
        Opcode::ADD { .. } => {},
        Opcode::AND { .. } => {},
        Opcode::NOT { .. } => {},
        Opcode::LD { .. } => {},
        Opcode::LDI { .. } => {},
        Opcode::LDR { .. } => {},
        Opcode::LEA { .. } => {},
        _ => {},
    }
}

/// Every instruction keeps the machine well formed, and a COND register
/// holding one of the three flag words still does so afterwards.
pub proof fn lemma_exec_wf(pre: VMView, op: Opcode)
    requires
        pre.wf(),
        opcode_wf(op),
    ensures
        spec_exec(pre, op).0.wf(),
        crate::flags::is_flag_word(pre.cond()) ==> crate::flags::is_flag_word(
            spec_exec(pre, op).0.cond(),
        ),
{
    match op {
        Opcode::BR { .. } => {},
        Opcode::ADD { .. } => {},
        Opcode::AND { .. } => {},
        Opcode::LD { .. } => {},
        Opcode::ST { .. } => {},
        Opcode::JSR { .. } => {},
        Opcode::LDR { .. } => {},
        Opcode::STR { .. } => {},
        Opcode::RTI { .. } => {},
        Opcode::NOT { .. } => {},
        Opcode::LDI { .. } => {},
        Opcode::STI { .. } => {},
        Opcode::JMP { .. } => {},
        Opcode::RES { .. } => {},
        Opcode::LEA { .. } => {},
        Opcode::TRAP { .. } => {},
    }
}

/// A whole machine cycle keeps the machine well formed and keeps COND one
/// of the three flag words.
pub proof fn lemma_step_wf(pre: VMView)
    requires
        pre.wf(),
    ensures
        spec_step(pre).0.wf(),
        crate::flags::is_flag_word(pre.cond()) ==> crate::flags::is_flag_word(
            spec_step(pre).0.cond(),
        ),
{
    let w = pre.memory[pre.pc() as int];
    crate::opcodes::lemma_decode_wf(w);
    lemma_exec_wf(pre.with_pc(pre.pc().wrapping_add(1)), spec_decode(w));
}

/// Wrapping arithmetic: register-mode ADD stores the sum of its two source
/// registers reduced modulo two to the sixteenth; overflow is defined
/// behavior, never a fault, and the flags follow the stored value.
pub proof fn lemma_add_wraps(pre: VMView, dr: u8, sr1: u8, sr2: u8)
    requires
        pre.wf(),
        dr < 8,
        sr1 < 8,
        sr2 < 8,
    ensures
        ({
            let (post, r) = spec_exec(pre, Opcode::ADD { dr, sr1, mode: false, sr2 });
            &&& r is Ok
            &&& post.reg(dr as int) == (pre.reg(sr1 as int) + pre.reg(sr2 as int)) % 0x10000
            &&& post.cond() == flag_of(post.reg(dr as int))
        }),
{
    let s = pre.reg(sr1 as int) + pre.reg(sr2 as int);
    if s < 0x10000 {
        assert(s % 0x10000 == s) by (nonlinear_arith)
            requires
                0 <= s < 0x10000,
        ;
    } else {
        assert(s % 0x10000 == s - 0x10000) by (nonlinear_arith)
            requires
                0x10000 <= s < 0x20000,
        ;
    }
}

/// Indirect load: when the word reached from the advanced program counter
/// plus offset holds a pointer, LDI stores the word that pointer names in
/// the destination register and sets the flags from it.
pub proof fn lemma_ldi_indirect(pre: VMView)
    requires
        pre.wf(),
    ensures
        ({
            let pc1 = pre.pc().wrapping_add(1);
            match spec_decode(pre.memory[pre.pc() as int]) {
                Opcode::LDI { dr, offset } => {
                    let pointer = pre.memory[pc1.wrapping_add(sext9(offset)) as int];
                    let value = pre.memory[pointer as int];
                    let (post, r) = spec_step(pre);
                    r is Ok && post.reg(dr as int) == value && post.cond() == flag_of(value)
                },
                _ => true,
            }
        }),
{
    crate::opcodes::lemma_decode_wf(pre.memory[pre.pc() as int]);
}

/// Indirect store: when the word reached from the advanced program counter
/// plus offset holds a pointer, STI writes the source register's value to
/// the address that pointer names.
pub proof fn lemma_sti_indirect(pre: VMView)
    requires
        pre.wf(),
    ensures
        ({
            let pc1 = pre.pc().wrapping_add(1);
            match spec_decode(pre.memory[pre.pc() as int]) {
                Opcode::STI { sr, offset } => {
                    let pointer = pre.memory[pc1.wrapping_add(sext9(offset)) as int];
                    let (post, r) = spec_step(pre);
                    r is Ok && post.memory[pointer as int] == pre.reg(sr as int)
                },
                _ => true,
            }
        }),
{
    crate::opcodes::lemma_decode_wf(pre.memory[pre.pc() as int]);
}

/// Whether the instruction under the program counter aborts its cycle: a
/// TRAP naming a vector outside the service table, or a register-mode
/// operand field (an ADD or AND second operand, or a JSR base field) that
/// names no register in the file.
pub open spec fn step_faults(pre: VMView) -> bool {
    match spec_decode(pre.memory[pre.pc() as int]) {
        Opcode::ADD { mode, sr2, .. } => !mode && sr2 > 9,
        Opcode::AND { mode, sr2, .. } => !mode && sr2 > 9,
        Opcode::JSR { mode, offset } => !mode && (offset >> 6) > 9,
        Opcode::TRAP { trap_vec } => !(Trap::spec_try_from(trap_vec) is Ok),
        _ => false,
    }
}

/// When a machine cycle is owed success: it fails exactly on an invalid
/// trap vector or an operand field that names no register in the file;
/// every other instruction completes, overflow and address wrap-around
/// included.
pub proof fn lemma_step_success(pre: VMView)
    requires
        pre.wf(),
    ensures
        spec_step(pre).1 is Err <==> step_faults(pre),
{
    let w = pre.memory[pre.pc() as int];
    crate::opcodes::lemma_decode_wf(w);
    match spec_decode(w) {
        Opcode::BR { .. } => {},
        Opcode::ADD { .. } => {},
        Opcode::AND { .. } => {},
        Opcode::LD { .. } => {},
        Opcode::ST { .. } => {},
        Opcode::JSR { .. } => {},
        Opcode::LDR { .. } => {},
        Opcode::STR { .. } => {},
        Opcode::RTI { .. } => {},
        Opcode::NOT { .. } => {},
        Opcode::LDI { .. } => {},
        Opcode::STI { .. } => {},
        Opcode::JMP { .. } => {},
        Opcode::RES { .. } => {},
        Opcode::LEA { .. } => {},
        Opcode::TRAP { .. } => {},
    }
}

impl VM {
    /// Collects the string the PUTS service prints: one character per word
    /// from the address in R0 up to the first zero word.
    fn read_string_words(&self) -> (out: Vec<u8>)
        requires
            self@.wf(),
        ensures
            out@ == puts_seq(self@.memory, self@.reg(0), MEMORY_MAX as nat),
    {
        let mut out: Vec<u8> = Vec::new();
        let mut addr: u16 = self.registers[0];
        let mut count: usize = 0;
        while count < MEMORY_MAX && self.memory[addr as usize] != 0
            invariant
                self@.wf(),
                count <= MEMORY_MAX,
                puts_seq(self@.memory, self@.reg(0), MEMORY_MAX as nat) == out@ + puts_seq(
                    self@.memory,
                    addr,
                    (MEMORY_MAX - count) as nat,
                ),
            decreases MEMORY_MAX - count,
        {
            let w = self.memory[addr as usize];
            let ghost prev_out = out@;
            let ghost prev_addr = addr;
            let ghost prev_count = count;
            out.push(low_byte(w));
            addr = addr.wrapping_add(1);
            count += 1;
            proof {
                let mem = self@.memory;
                let fuel = (MEMORY_MAX - prev_count) as nat;
                let lo = (mem[prev_addr as int] & 0xFF) as u8;
                assert(puts_seq(mem, prev_addr, fuel) == seq![lo] + puts_seq(
                    mem,
                    prev_addr.wrapping_add(1),
                    (fuel - 1) as nat,
                ));
                assert(out@ =~= prev_out + seq![lo]);
                assert((prev_out + seq![lo]) + puts_seq(mem, addr, (MEMORY_MAX - count) as nat)
                    =~= prev_out + (seq![lo] + puts_seq(mem, addr, (MEMORY_MAX - count) as nat)));
            }
        }
        proof {
            assert(puts_seq(self@.memory, addr, (MEMORY_MAX - count) as nat) =~= Seq::<
                u8,
            >::empty());
            assert(out@ + Seq::<u8>::empty() =~= out@);
        }
        out
    }

    /// Collects the string the PUTSP service prints: two packed characters
    /// per word from the address in R0 up to the first zero word, skipping
    /// a zero high byte.
    fn read_string_packed(&self) -> (out: Vec<u8>)
        requires
            self@.wf(),
        ensures
            out@ == putsp_seq(self@.memory, self@.reg(0), MEMORY_MAX as nat),
    {
        let mut out: Vec<u8> = Vec::new();
        let mut addr: u16 = self.registers[0];
        let mut count: usize = 0;
        while count < MEMORY_MAX && self.memory[addr as usize] != 0
            invariant
                self@.wf(),
                count <= MEMORY_MAX,
                putsp_seq(self@.memory, self@.reg(0), MEMORY_MAX as nat) == out@ + putsp_seq(
                    self@.memory,
                    addr,
                    (MEMORY_MAX - count) as nat,
                ),
            decreases MEMORY_MAX - count,
        {
            let w = self.memory[addr as usize];
            let ghost prev_out = out@;
            let ghost prev_addr = addr;
            let ghost prev_count = count;
            out.push(low_byte(w));
            let hi = high_byte(w);
            if hi != 0 {
                out.push(hi);
            }
            addr = addr.wrapping_add(1);
            count += 1;
            proof {
                let mem = self@.memory;
                let fuel = (MEMORY_MAX - prev_count) as nat;
                let chunk = if (mem[prev_addr as int] >> 8) as u8 == 0 {
                    seq![(mem[prev_addr as int] & 0xFF) as u8]
                } else {
                    seq![(mem[prev_addr as int] & 0xFF) as u8, (mem[prev_addr as int] >> 8) as u8]
                };
                assert(putsp_seq(mem, prev_addr, fuel) == chunk + putsp_seq(
                    mem,
                    prev_addr.wrapping_add(1),
                    (fuel - 1) as nat,
                ));
                assert(out@ =~= prev_out + chunk);
                assert((prev_out + chunk) + putsp_seq(mem, addr, (MEMORY_MAX - count) as nat)
                    =~= prev_out + (chunk + putsp_seq(mem, addr, (MEMORY_MAX - count) as nat)));
            }
        }
        proof {
            assert(putsp_seq(self@.memory, addr, (MEMORY_MAX - count) as nat) =~= Seq::<
                u8,
            >::empty());
            assert(out@ + Seq::<u8>::empty() =~= out@);
        }
        out
    }

    /// Executes one decoded instruction against the machine, whose program
    /// counter must already have advanced past it. The returned effect is
    /// what the host must now do; an error aborts the step as [`spec_exec`]
    /// describes.
    pub fn execute(&mut self, opcode: Opcode) -> (r: Result<Effect, VMError>)
        requires
            old(self)@.wf(),
            opcode_wf(opcode),
        ensures
            final(self)@.wf(),
            final(self)@ == spec_exec(old(self)@, opcode).0,
            (match r {
                Ok(e) => spec_exec(old(self)@, opcode).1 == Ok::<EffectView, VMError>(e@),
                Err(e) => spec_exec(old(self)@, opcode).1 == Err::<EffectView, VMError>(e),
            }),
    {
        match opcode {
            Opcode::BR { n, z, p, offset } => {
                let flags_value = match self.get_flags() {
                    Ok(f) => f,
                    Err(e) => {
                        return Err(e);
                    },
                };
                let offset = sign_extend_9_bits(offset);
                if n && flags_value == FLAG_NEG {
                    self.add_to_pc(offset);
                }
                if z && flags_value == FLAG_ZRO {
                    self.add_to_pc(offset);
                }
                if p && flags_value == FLAG_POS {
                    self.add_to_pc(offset);
                }
                Ok(Effect::Continue)
            },
            Opcode::ADD { dr, sr1, mode, sr2 } => {
                let source_register_1 = match self.get_register_value(sr1 as u16) {
                    Ok(v) => v,
                    Err(e) => {
                        return Err(e);
                    },
                };
                let rhs = if mode {
                    sign_extend_5_bits(sr2)
                } else {
                    match self.get_register_value(sr2 as u16) {
                        Ok(v) => v,
                        Err(e) => {
                            return Err(e);
                        },
                    }
                };
                let result = source_register_1.wrapping_add(rhs);
                if let Err(e) = self.update_register(dr as u16, result) {
                    return Err(e);
                }
                if let Err(e) = self.update_flags(dr as u16) {
                    return Err(e);
                }
                Ok(Effect::Continue)
            },
            Opcode::AND { dr, sr1, mode, sr2 } => {
                let source_register_1 = match self.get_register_value(sr1 as u16) {
                    Ok(v) => v,
                    Err(e) => {
                        return Err(e);
                    },
                };
                let rhs = if mode {
                    sign_extend_5_bits(sr2)
                } else {
                    match self.get_register_value(sr2 as u16) {
                        Ok(v) => v,
                        Err(e) => {
                            return Err(e);
                        },
                    }
                };
                let result = source_register_1 & rhs;
                if let Err(e) = self.update_register(dr as u16, result) {
                    return Err(e);
                }
                if let Err(e) = self.update_flags(dr as u16) {
                    return Err(e);
                }
                Ok(Effect::Continue)
            },
            Opcode::LD { dr, offset } => {
                let pc_value = match self.get_pc() {
                    Ok(v) => v,
                    Err(e) => {
                        return Err(e);
                    },
                };
                let address = pc_value.wrapping_add(sign_extend_9_bits(offset));
                let word = match self.read_word(address) {
                    Ok(Some(w)) => w,
                    Ok(None) => {
                        return Err(VMError::Memory(address));
                    },
                    Err(e) => {
                        return Err(e);
                    },
                };
                if let Err(e) = self.update_register(dr as u16, word) {
                    return Err(e);
                }
                if let Err(e) = self.update_flags(dr as u16) {
                    return Err(e);
                }
                Ok(Effect::Continue)
            },
            Opcode::ST { sr, offset } => {
                let word = match self.get_register_value(sr as u16) {
                    Ok(v) => v,
                    Err(e) => {
                        return Err(e);
                    },
                };
                let pc_value = match self.get_pc() {
                    Ok(v) => v,
                    Err(e) => {
                        return Err(e);
                    },
                };
                let address = pc_value.wrapping_add(sign_extend_9_bits(offset));
                if let Err(e) = self.store_word(address, word) {
                    return Err(e);
                }
                Ok(Effect::Continue)
            },
            Opcode::JSR { mode, offset } => {
                let pc_value = match self.get_pc() {
                    Ok(v) => v,
                    Err(e) => {
                        return Err(e);
                    },
                };
                if let Err(e) = self.update_register(7, pc_value) {
                    return Err(e);
                }
                let new_pc_value = if mode {
                    pc_value.wrapping_add(sign_extend_11_bits(offset))
                } else {
                    match self.get_register_value(offset >> 6) {
                        Ok(v) => v,
                        Err(e) => {
                            return Err(e);
                        },
                    }
                };
                if let Err(e) = self.set_pc(new_pc_value) {
                    return Err(e);
                }
                Ok(Effect::Continue)
            },
            Opcode::LDR { dr, base_r, offset } => {
                let base_register_value = match self.get_register_value(base_r as u16) {
                    Ok(v) => v,
                    Err(e) => {
                        return Err(e);
                    },
                };
                let address = base_register_value.wrapping_add(sign_extend_6_bits(offset));
                let word = match self.read_word(address) {
                    Ok(Some(w)) => w,
                    Ok(None) => {
                        return Err(VMError::Memory(address));
                    },
                    Err(e) => {
                        return Err(e);
                    },
                };
                if let Err(e) = self.update_register(dr as u16, word) {
                    return Err(e);
                }
                if let Err(e) = self.update_flags(dr as u16) {
                    return Err(e);
                }
                Ok(Effect::Continue)
            },
            Opcode::STR { sr, base_r, offset } => {
                let base_register_value = match self.get_register_value(base_r as u16) {
                    Ok(v) => v,
                    Err(e) => {
                        return Err(e);
                    },
                };
                let address = base_register_value.wrapping_add(sign_extend_6_bits(offset));
                let word = match self.get_register_value(sr as u16) {
                    Ok(v) => v,
                    Err(e) => {
                        return Err(e);
                    },
                };
                if let Err(e) = self.store_word(address, word) {
                    return Err(e);
                }
                Ok(Effect::Continue)
            },
            Opcode::RTI {  } => Ok(Effect::Continue),
            Opcode::NOT { dr, sr } => {
                let source_register = match self.get_register_value(sr as u16) {
                    Ok(v) => v,
                    Err(e) => {
                        return Err(e);
                    },
                };
                let result = !source_register;
                if let Err(e) = self.update_register(dr as u16, result) {
                    return Err(e);
                }
                if let Err(e) = self.update_flags(dr as u16) {
                    return Err(e);
                }
                Ok(Effect::Continue)
            },
            Opcode::LDI { dr, offset } => {
                let pc_value = match self.get_pc() {
                    Ok(v) => v,
                    Err(e) => {
                        return Err(e);
                    },
                };
                let address_of_address = pc_value.wrapping_add(sign_extend_9_bits(offset));
                let address = match self.read_word(address_of_address) {
                    Ok(Some(w)) => w,
                    Ok(None) => {
                        return Err(VMError::Memory(address_of_address));
                    },
                    Err(e) => {
                        return Err(e);
                    },
                };
                let word = match self.read_word(address) {
                    Ok(Some(w)) => w,
                    Ok(None) => {
                        return Err(VMError::Memory(address));
                    },
                    Err(e) => {
                        return Err(e);
                    },
                };
                if let Err(e) = self.update_register(dr as u16, word) {
                    return Err(e);
                }
                if let Err(e) = self.update_flags(dr as u16) {
                    return Err(e);
                }
                Ok(Effect::Continue)
            },
            Opcode::STI { sr, offset } => {
                let pc_value = match self.get_pc() {
                    Ok(v) => v,
                    Err(e) => {
                        return Err(e);
                    },
                };
                let address_of_address = pc_value.wrapping_add(sign_extend_9_bits(offset));
                let address = match self.read_word(address_of_address) {
                    Ok(Some(w)) => w,
                    Ok(None) => {
                        return Err(VMError::Memory(address_of_address));
                    },
                    Err(e) => {
                        return Err(e);
                    },
                };
                let word = match self.get_register_value(sr as u16) {
                    Ok(v) => v,
                    Err(e) => {
                        return Err(e);
                    },
                };
                if let Err(e) = self.store_word(address, word) {
                    return Err(e);
                }
                Ok(Effect::Continue)
            },
            Opcode::JMP { base_r } => {
                let target = match self.get_register_value(base_r as u16) {
                    Ok(v) => v,
                    Err(e) => {
                        return Err(e);
                    },
                };
                if let Err(e) = self.set_pc(target) {
                    return Err(e);
                }
                Ok(Effect::Continue)
            },
            Opcode::RES {  } => Ok(Effect::Continue),
            Opcode::LEA { dr, offset } => {
                let pc_value = match self.get_pc() {
                    Ok(v) => v,
                    Err(e) => {
                        return Err(e);
                    },
                };
                let address = pc_value.wrapping_add(sign_extend_9_bits(offset));
                if let Err(e) = self.update_register(dr as u16, address) {
                    return Err(e);
                }
                if let Err(e) = self.update_flags(dr as u16) {
                    return Err(e);
                }
                Ok(Effect::Continue)
            },
            Opcode::TRAP { trap_vec } => {
                let trap = match Trap::try_from(trap_vec) {
                    Ok(t) => t,
                    Err(e) => {
                        return Err(VMError::Execute(e));
                    },
                };
                match trap {
                    Trap::GetC => Ok(Effect::AwaitInput { echo: false }),
                    Trap::Out => {
                        let value = match self.get_register_value(0) {
                            Ok(v) => v,
                            Err(e) => {
                                return Err(e);
                            },
                        };
                        let mut output: Vec<u8> = Vec::new();
                        output.push(low_byte(value));
                        proof {
                            assert(output@ =~= seq![(old(self)@.reg(0) & 0xFF) as u8]);
                        }
                        Ok(Effect::Output(output))
                    },
                    Trap::Puts => {
                        let output = self.read_string_words();
                        Ok(Effect::Output(output))
                    },
                    Trap::In => Ok(Effect::AwaitInput { echo: true }),
                    Trap::Putsp => {
                        let output = self.read_string_packed();
                        Ok(Effect::Output(output))
                    },
                    Trap::Halt => {
                        self.running = false;
                        proof {
                            assert(self@ =~= old(self)@.with_running(false));
                        }
                        Ok(Effect::Halted)
                    },
                }
            },
        }
    }

    /// Runs one whole machine cycle: fetch the word under the program
    /// counter, advance the counter, decode, execute. The machine changes
    /// and the host's duty is exactly what [`spec_step`] says of the state
    /// before the call.
    pub fn next_instruction(&mut self) -> (r: Result<Effect, VMError>)
        requires
            old(self)@.wf(),
        ensures
            final(self)@.wf(),
            final(self)@ == spec_step(old(self)@).0,
            (match r {
                Ok(e) => spec_step(old(self)@).1 == Ok::<EffectView, VMError>(e@),
                Err(e) => spec_step(old(self)@).1 == Err::<EffectView, VMError>(e),
            }),
    {
        let pc = match self.get_pc() {
            Ok(pc) => pc,
            Err(e) => {
                return Err(e);
            },
        };
        let instruction = match self.read_word(pc) {
            Ok(Some(w)) => w,
            Ok(None) => {
                return Err(VMError::Fetch(pc));
            },
            Err(e) => {
                return Err(e);
            },
        };
        let opcode = match Self::decode(instruction) {
            Ok(op) => op,
            Err(e) => {
                return Err(VMError::Decode(e));
            },
        };
        proof {
            crate::opcodes::lemma_decode_wf(instruction);
        }
        self.increment_pc();
        self.execute(opcode)
    }
}

} // verus!
