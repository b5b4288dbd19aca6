//! The machine core: program counter, call stack, random generator, machine
//! state, variable access, and the store/branch trailer protocol.

use vstd::prelude::*;

use crate::FatalError;
use crate::global_variables_view::GlobalVariablesView;
use crate::header::{Header, header_valid};
use crate::memory_view::{MemoryView, image_sized, with_word, word_at};
use crate::object_view::ObjectView;
use crate::opcode::OpCode;

use rand::Rng;
use rand::SeedableRng;

verus! {

/// What the machine is doing between steps.
#[derive(Clone, Copy, Debug, PartialEq, Eq, Structural)]
pub enum MachineState {
    /// Execution has ended for good.
    Stopped,
    /// A fresh image must be loaded and the machine reset.
    Restarting,
    /// The next instruction can be executed.
    Running,
    /// A `sread` is waiting for a line; the two buffer addresses it decoded
    /// are kept so the tokenizer can run when the line arrives.
    TakingInput { text_buffer: u16, parse_buffer: u16 },
}

/// The XorShift generator of the rand crate, used for the non-predictable
/// mode; its internals stay opaque to verification.
#[verifier::external_type_specification]
#[verifier::external_body]
pub struct ExXorShiftRng(rand::XorShiftRng);

/// Relies on `rand::thread_rng` and `Rng::gen::<u32>`: one draw from the
/// host entropy source.  Nothing can be promised of the value.
#[verifier::external_body]
fn entropy_u32() -> u32 {
    rand::thread_rng().gen::<u32>()
}

/// Relies on `XorShiftRng::from_seed`, which builds a deterministic
/// generator from the four seed words and panics on an all-zero seed.
#[verifier::external_body]
fn xorshift_from_seed(seed: [u32; 4]) -> rand::XorShiftRng
    requires
        !(seed[0] == 0 && seed[1] == 0 && seed[2] == 0 && seed[3] == 0),
{
    rand::XorShiftRng::from_seed(seed)
}

/// Relies on `Rng::gen_range`, which returns a uniform value in
/// `[low, high)` and panics when `low >= high`.
#[verifier::external_body]
fn xorshift_gen_range(rng: &mut rand::XorShiftRng, low: u16, high: u16) -> (r: u16)
    requires
        low < high,
    ensures
        low <= r < high,
{
    rng.gen_range(low, high)
}

/// The two random modes: a predictable counter (seeded with 1 to 999) that
/// cycles `1, 2, ..., seed, 1, ...`, and a pseudo-random generator seeded
/// from entropy (seed 0) or deterministically (seed 1000 and up).
pub struct RandomGen {
    /// The pseudo-random generator used outside predictable mode.
    pub generator: rand::XorShiftRng,
    /// Whether the predictable counter is in force.
    pub randoms_predictable: bool,
    /// The next value the predictable counter will produce.
    pub randoms_predictable_next: u16,
    /// The seed most recently given.
    pub random_seed: u16,
}

impl RandomGen {
    /// A generator in pseudo-random mode, seeded from entropy.
    pub fn new() -> (r: RandomGen)
        ensures
            !r.randoms_predictable,
    {
        RandomGen {
            generator: Self::entropy_generator(),
            random_seed: 1,
            randoms_predictable: false,
            randoms_predictable_next: 1,
        }
    }

    /// A fresh generator from four entropy words (made non-zero, which
    /// `from_seed` demands).
    fn entropy_generator() -> rand::XorShiftRng {
        let a = entropy_u32();
        let b = entropy_u32();
        let c = entropy_u32();
        let d = entropy_u32();
        if a == 0 && b == 0 && c == 0 && d == 0 {
            xorshift_from_seed([1, 2, 3, 4])
        } else {
            xorshift_from_seed([a, b, c, d])
        }
    }

    /// Applies a `random` seed request: 1 to 999 starts the predictable
    /// counter at 1; 0 re-randomizes from entropy; anything else seeds the
    /// pseudo-random generator deterministically.
    pub fn seed(&mut self, value: u16)
        ensures
            final(self).random_seed == value,
            final(self).randoms_predictable == (1 <= value < 1000),
            final(self).randoms_predictable_next == 1,
    {
        self.random_seed = value;
        self.randoms_predictable = value >= 1 && value < 1000;
        self.randoms_predictable_next = 1;
        if !self.randoms_predictable {
            if value == 0 {
                self.generator = Self::entropy_generator();
            } else {
                let val = value as u32;
                self.generator = xorshift_from_seed([val, val + 1, val + 2, val + 3]);
            }
        }
    }

    /// Draws a value in `[1, range]`.  In predictable mode the counter value
    /// is produced (folded into range when the range is smaller) and the
    /// counter advances, wrapping to 1 after reaching the seed; in
    /// pseudo-random mode the value comes from the generator and is uniform
    /// by rand's contract.
    pub fn next(&mut self, range: u16) -> (r: u16)
        requires
            range >= 1,
        ensures
            1 <= r <= range,
            old(self).randoms_predictable ==> ({
                let v0: u16 = if old(self).randoms_predictable_next < 1 {
                    1u16
                } else {
                    old(self).randoms_predictable_next
                };
                &&& r == (v0 - 1) % (range as int) + 1
                &&& final(self).randoms_predictable_next == (if v0 >= old(self).random_seed {
                    1u16
                } else {
                    (v0 + 1) as u16
                })
            }),
            final(self).randoms_predictable == old(self).randoms_predictable,
            final(self).random_seed == old(self).random_seed,
            !old(self).randoms_predictable ==> final(self).randoms_predictable_next == old(
                self,
            ).randoms_predictable_next,
    {
        if self.randoms_predictable {
            let v = if self.randoms_predictable_next < 1 {
                1
            } else {
                self.randoms_predictable_next
            };
            let r = if v > range {
                (v - 1) % range + 1
            } else {
                v
            };
            if v >= self.random_seed {
                self.randoms_predictable_next = 1;
            } else {
                self.randoms_predictable_next = v + 1;
            }
            proof {
                if v <= range {
                    vstd::arithmetic::div_mod::lemma_small_mod((v - 1) as nat, range as nat);
                }
            }
            r
        } else {
            if range == u16::MAX {
                let r0 = xorshift_gen_range(&mut self.generator, 0, u16::MAX);
                r0 + 1
            } else {
                xorshift_gen_range(&mut self.generator, 1, range + 1)
            }
        }
    }
}

/// The call stack: one vector of 16-bit words holding, frame by frame, the
/// caller's pending data, the saved return state, the saved frame pointer,
/// the locals, and the evaluation stack.  `top_of_frame` indexes the slot
/// holding the previous frame pointer; local `i` lives at
/// `top_of_frame + i`.
pub struct Stack {
    /// Index of the current frame's saved-previous-frame slot.
    pub top_of_frame: usize,
    /// The words.
    pub stack: Vec<u16>,
}

impl Stack {
    /// Reads local `num` (1 to 15) of the current frame.
    pub fn get_local_variable(&self, num: u8) -> (r: u16)
        requires
            self.top_of_frame + num < self.stack@.len(),
        ensures
            r == self.stack@[self.top_of_frame + num],
    {
        let _len = self.stack.len();
        let index = self.top_of_frame + num as usize;
        self.stack[index]
    }

    /// Writes local `num` (1 to 15) of the current frame.
    pub fn store_local_variable(&mut self, num: u8, value: u16)
        requires
            old(self).top_of_frame + num < old(self).stack@.len(),
        ensures
            final(self).stack@ == old(self).stack@.update(old(self).top_of_frame + num, value),
            final(self).top_of_frame == old(self).top_of_frame,
    {
        let _len = self.stack.len();
        let index = self.top_of_frame + num as usize;
        self.stack.set(index, value);
    }

    /// Opens a new frame: saves the current `top_of_frame` on the stack and
    /// points `top_of_frame` at that slot.
    pub fn switch_to_new_frame(&mut self)
        requires
            old(self).top_of_frame <= u16::MAX,
        ensures
            final(self).stack@ == old(self).stack@.push(old(self).top_of_frame as u16),
            final(self).top_of_frame == old(self).stack@.len(),
    {
        self.stack.push(self.top_of_frame as u16);
        self.top_of_frame = self.top_of_stack();
    }

    /// Closes the current frame: discards everything above the saved slot
    /// and restores the previous `top_of_frame` from it.  Fails when no
    /// frame is open.
    pub fn restore_last_frame(&mut self) -> (r: Result<(), FatalError>)
        ensures
            r is Ok <==> old(self).top_of_frame < old(self).stack@.len(),
            r matches Ok(_) ==> final(self).stack@ == old(self).stack@.take(
                old(self).top_of_frame as int,
            ) && final(self).top_of_frame == old(self).stack@[old(self).top_of_frame as int],
            r matches Err(e) ==> e == FatalError::StackUnderflow && *final(self) == *old(self),
    {
        if self.top_of_frame >= self.stack.len() {
            return Err(FatalError::StackUnderflow);
        }
        self.stack.truncate(self.top_of_frame + 1);
        let frame = match self.stack.pop() {
            Some(frame) => frame,
            None => {
                proof {
                    assert(false);
                }
                return Err(FatalError::StackUnderflow);
            },
        };
        self.top_of_frame = frame as usize;
        Ok(())
    }

    /// The index of the stack's top word.
    pub fn top_of_stack(&self) -> (r: usize)
        requires
            self.stack@.len() > 0,
        ensures
            r == self.stack@.len() - 1,
    {
        self.stack.len() - 1
    }
}

/// The interpreter: the story image, the parsed header, the program counter,
/// the call stack, the random generator, the machine state, and the output
/// it has produced for the presentation layer.
pub struct ZMachine {
    /// The call stack (evaluation stacks, frames and locals).
    pub call_stack: Stack,
    /// The header parsed at load.
    pub header: Header,
    /// The story image: the machine's whole addressable memory.
    pub memory: Vec<u8>,
    /// The program counter.
    pub ip: u32,
    /// The random generator behind the `random` opcode.
    pub random_generator: RandomGen,
    /// What the machine is doing.
    pub state: MachineState,
    /// Text the machine has printed and the presentation layer has not yet
    /// drained.
    pub output: Vec<char>,
    /// The left half of the status line, as most recently composed.
    pub status_left: Vec<char>,
    /// The right half of the status line, as most recently composed.
    pub status_right: Vec<char>,
}

impl ZMachine {
    /// The standing well-formedness of a loaded machine: a plausible image
    /// with its unconditionally dereferenced tables in range.  Writes cannot
    /// break it, because the image length is constant and the header is
    /// parsed once at load.
    pub open spec fn wf(self) -> bool {
        &&& image_sized(self.memory@)
        &&& self.memory@.len() >= 64
        &&& self.header.global_vars_table_location + 480 <= self.memory@.len()
        &&& self.header.object_table_location + 62 <= self.memory@.len()
        &&& 1 <= self.header.version <= 3
    }

    /// `b` differs from `a` at most in machine state, never in image length
    /// or parsed header, so well-formedness carries over.
    pub open spec fn same_shape(a: ZMachine, b: ZMachine) -> bool {
        &&& b.header == a.header
        &&& b.memory@.len() == a.memory@.len()
    }

    /// The base of the global-variables table.
    pub open spec fn glob(self) -> int {
        self.header.global_vars_table_location as int
    }

    /// The value variable `addr` holds, without popping: 0 peeks the top of
    /// the evaluation stack, 1-15 read a local, 16-255 read a global.
    pub open spec fn spec_peek_variable(self, addr: u8) -> int {
        if addr == 0 {
            self.call_stack.stack@.last() as int
        } else if addr <= 15 {
            self.call_stack.stack@[self.call_stack.top_of_frame + addr] as int
        } else {
            word_at(self.memory@, self.glob() + 2 * (addr - 16))
        }
    }

    /// Whether variable `addr` can be read in `self` (the stack or local
    /// slot it names exists; globals always can, under `wf`).
    pub open spec fn spec_peek_ok(self, addr: u8) -> bool {
        if addr == 0 {
            self.call_stack.stack@.len() > 0
        } else if addr <= 15 {
            self.call_stack.top_of_frame + addr < self.call_stack.stack@.len()
        } else {
            true
        }
    }

    /// `m1` is `m0`, its stack replaced by `stack0`, after a store to
    /// variable `addr` (0 pushes) with everything else unchanged.
    pub open spec fn spec_store_variable_parts(
        m0: ZMachine,
        stack0: Seq<u16>,
        m1: ZMachine,
        addr: u8,
        v: u16,
    ) -> bool {
        &&& m1.header == m0.header
        &&& m1.ip == m0.ip
        &&& m1.state == m0.state
        &&& m1.output@ == m0.output@
        &&& m1.random_generator == m0.random_generator
        &&& m1.status_left@ == m0.status_left@
        &&& m1.status_right@ == m0.status_right@
        &&& m1.call_stack.top_of_frame == m0.call_stack.top_of_frame
        &&& if addr == 0 {
            &&& m1.memory@ == m0.memory@
            &&& m1.call_stack.stack@ == stack0.push(v)
        } else if addr <= 15 {
            &&& m1.memory@ == m0.memory@
            &&& m1.call_stack.stack@ == stack0.update(m0.call_stack.top_of_frame + addr, v)
        } else {
            &&& m1.memory@ == with_word(m0.memory@, m0.glob() + 2 * (addr - 16), v)
            &&& m1.call_stack.stack@ == stack0
        }
    }

    /// `m1` is `m0` after a store to variable `addr` (0 pushes onto the
    /// evaluation stack) with everything else unchanged.
    pub open spec fn spec_store_variable(m0: ZMachine, m1: ZMachine, addr: u8, v: u16) -> bool {
        ZMachine::spec_store_variable_parts(m0, m0.call_stack.stack@, m1, addr, v)
    }

    /// `m1` is `m0` after an in-place write to variable `addr` (0 overwrites
    /// the top of the evaluation stack without pushing).
    pub open spec fn spec_write_in_place(m0: ZMachine, m1: ZMachine, addr: u8, v: u16) -> bool {
        if addr == 0 {
            &&& m1.header == m0.header
            &&& m1.ip == m0.ip
            &&& m1.state == m0.state
            &&& m1.output@ == m0.output@
            &&& m1.call_stack.top_of_frame == m0.call_stack.top_of_frame
            &&& m1.memory@ == m0.memory@
            &&& m1.call_stack.stack@ == m0.call_stack.stack@.update(
                m0.call_stack.stack@.len() - 1,
                v,
            )
        } else {
            ZMachine::spec_store_variable(m0, m1, addr, v)
        }
    }

    /// Loads a story image: parses and validates the header, points the
    /// program counter at its initial value, and starts with an empty call
    /// stack, a fresh random generator, and no output.
    pub fn new(data: Vec<u8>) -> (r: Result<ZMachine, FatalError>)
        ensures
            r is Ok <==> header_valid(data@),
            r matches Ok(m) ==> ({
                &&& m.wf()
                &&& m.memory@ == data@
                &&& m.header.parsed_from(data@)
                &&& m.ip == m.header.pc_start
                &&& m.call_stack.stack@.len() == 0
                &&& m.call_stack.top_of_frame == 0
                &&& m.state == MachineState::Running
                &&& m.output@.len() == 0
            }),
            r matches Err(e) ==> e == FatalError::MalformedImage,
    {
        let header = Header::create(&data)?;
        let pc_start = header.pc_start as u32;
        Ok(ZMachine {
            call_stack: Stack { top_of_frame: 0, stack: Vec::new() },
            header,
            ip: pc_start,
            memory: data,
            random_generator: RandomGen::new(),
            state: MachineState::Running,
            output: Vec::new(),
            status_left: Vec::new(),
            status_right: Vec::new(),
        })
    }

    /// The current program counter.
    pub fn current_ip(&self) -> (r: u32)
        ensures
            r == self.ip,
    {
        self.ip
    }

    /// The story version from the header.
    pub fn get_version(&self) -> (r: u8)
        ensures
            r == self.header.version,
    {
        self.header.version
    }

    /// A view whose base is the abbreviations table.
    pub fn get_abbreviations_view(&self) -> (r: MemoryView)
        ensures
            r.pointer == self.header.abbreviations_location,
    {
        MemoryView { pointer: self.header.abbreviations_location as u32 }
    }

    /// A view whose base is the dictionary.
    pub fn get_dictionary_view(&self) -> (r: MemoryView)
        ensures
            r.pointer == self.header.dictionary_location,
    {
        MemoryView { pointer: self.header.dictionary_location as u32 }
    }

    /// A view whose base is the current program counter.
    pub fn get_frame_view(&self) -> (r: MemoryView)
        ensures
            r.pointer == self.ip,
    {
        MemoryView { pointer: self.ip }
    }

    /// A view of the global-variables table.
    pub fn get_global_variables_view(&self) -> (r: GlobalVariablesView)
        ensures
            r.view.pointer == self.header.global_vars_table_location,
    {
        GlobalVariablesView {
            view: MemoryView { pointer: self.header.global_vars_table_location as u32 },
        }
    }

    /// A view of the whole image.
    pub fn get_memory_view(&self) -> (r: MemoryView)
        ensures
            r.pointer == 0,
    {
        MemoryView { pointer: 0 }
    }

    /// A view of object `object_id`'s 9-byte entry (versions 1-3: a 62-byte
    /// defaults array precedes the entries, and ids are 1-based).
    pub fn get_object_view(&self, object_id: u16) -> (r: ObjectView)
        requires
            object_id >= 1,
        ensures
            r.object_id == object_id,
            r.attributes_length == 4,
            r.related_obj_length == 1,
            r.defaults_view.pointer == self.header.object_table_location,
            r.view.pointer == self.header.object_table_location + 62 + 9 * (object_id - 1),
    {
        let object_length: u32 = 9;
        let property_defaults_length: u32 = 62;
        let offset = (object_id as u32 - 1) * object_length;
        let object_location = self.header.object_table_location as u32 + property_defaults_length
            + offset;
        ObjectView {
            object_id,
            attributes_length: 4,
            defaults_view: MemoryView { pointer: self.header.object_table_location as u32 },
            view: MemoryView { pointer: object_location },
            related_obj_length: 1,
        }
    }

    /// Reads variable `address` without disturbing the stack: variable 0
    /// peeks at the top of the evaluation stack without popping (the
    /// explicit popping form is the `pull` opcode; operand resolution pops
    /// on its own).
    pub fn read_variable(&self, address: u8) -> (r: Result<u16, FatalError>)
        requires
            self.wf(),
        ensures
            r is Ok <==> self.spec_peek_ok(address),
            r matches Ok(v) ==> v == self.spec_peek_variable(address),
            r matches Err(e) ==> e == FatalError::StackUnderflow,
    {
        if address == 0 {
            let len = self.call_stack.stack.len();
            if len == 0 {
                return Err(FatalError::StackUnderflow);
            }
            Ok(self.call_stack.stack[len - 1])
        } else if address <= 15 {
            let len = self.call_stack.stack.len();
            if self.call_stack.top_of_frame >= len || len - self.call_stack.top_of_frame
                <= address as usize {
                return Err(FatalError::StackUnderflow);
            }
            Ok(self.call_stack.get_local_variable(address))
        } else {
            let globals = self.get_global_variables_view();
            Ok(globals.read_global(&self.memory, (address - 16) as u16))
        }
    }

    /// Stores `value` to variable `address`, pushing onto the evaluation
    /// stack when it is 0.
    pub fn store_variable(&mut self, address: u8, value: u16) -> (r: Result<(), FatalError>)
        requires
            old(self).wf(),
        ensures
            r is Ok <==> (address == 0 || old(self).spec_peek_ok(address)),
            r matches Ok(_) ==> ZMachine::spec_store_variable(*old(self), *final(self), address,
                value),
            r is Err ==> *final(self) == *old(self),
            r matches Err(e) ==> e == FatalError::StackUnderflow,
            final(self).wf(),
            ZMachine::same_shape(*old(self), *final(self)),
    {
        if address == 0 {
            self.call_stack.stack.push(value);
            Ok(())
        } else if address <= 15 {
            let len = self.call_stack.stack.len();
            if self.call_stack.top_of_frame >= len || len - self.call_stack.top_of_frame
                <= address as usize {
                return Err(FatalError::StackUnderflow);
            }
            self.call_stack.store_local_variable(address, value);
            Ok(())
        } else {
            let globals = self.get_global_variables_view();
            globals.write_global(&mut self.memory, (address - 16) as u16, value);
            Ok(())
        }
    }

    /// Writes `value` to variable `address` in place: variable 0 overwrites
    /// the top of the evaluation stack without pushing.
    pub fn write_variable_in_place(&mut self, address: u8, value: u16) -> (r: Result<
        (),
        FatalError,
    >)
        requires
            old(self).wf(),
        ensures
            r is Ok <==> old(self).spec_peek_ok(address),
            r matches Ok(_) ==> ZMachine::spec_write_in_place(*old(self), *final(self), address,
                value),
            r is Err ==> *final(self) == *old(self),
            r matches Err(e) ==> e == FatalError::StackUnderflow,
            final(self).wf(),
            ZMachine::same_shape(*old(self), *final(self)),
    {
        if address == 0 {
            let len = self.call_stack.stack.len();
            if len == 0 {
                return Err(FatalError::StackUnderflow);
            }
            self.call_stack.stack.set(len - 1, value);
            Ok(())
        } else {
            self.store_variable(address, value)
        }
    }
}

impl ZMachine {
    /// The image after a store of `v` to the destination byte at
    /// `m0.ip + rb` (only a global store touches the image).
    pub open spec fn stored_mem(m0: ZMachine, rb: int, v: u16) -> Seq<u8> {
        let dest = m0.memory@[m0.ip + rb];
        if dest >= 16 {
            with_word(m0.memory@, m0.glob() + 2 * (dest - 16), v)
        } else {
            m0.memory@
        }
    }

    /// The call stack after a store of `v` to the destination byte at
    /// `m0.ip + rb` (destination 0 pushes, a local updates its slot).
    pub open spec fn stored_stack(m0: ZMachine, rb: int, v: u16) -> Seq<u16> {
        let dest = m0.memory@[m0.ip + rb];
        if dest == 0 {
            m0.call_stack.stack@.push(v)
        } else if dest <= 15 {
            m0.call_stack.stack@.update(m0.call_stack.top_of_frame + dest, v)
        } else {
            m0.call_stack.stack@
        }
    }

    /// The store trailer can be applied: the destination byte lies in the
    /// image and names a writable variable.
    pub open spec fn spec_store_ok(m0: ZMachine, rb: int) -> bool {
        &&& 0 <= m0.ip + rb < m0.memory@.len()
        &&& ({
            let dest = m0.memory@[m0.ip + rb];
            dest == 0 || dest > 15 || m0.call_stack.top_of_frame + dest
                < m0.call_stack.stack@.len()
        })
    }

    /// `m1` is `m0` with the store trailer applied (program counter still
    /// untouched): the named destination holds `v` and nothing else moved.
    pub open spec fn spec_store_applied(m0: ZMachine, rb: int, v: u16, m1: ZMachine) -> bool {
        let dest = m0.memory@[m0.ip + rb];
        &&& m1.ip == m0.ip
        &&& m1.header == m0.header
        &&& m1.state == m0.state
        &&& m1.output@ == m0.output@
        &&& m1.random_generator == m0.random_generator
        &&& m1.status_left@ == m0.status_left@
        &&& m1.status_right@ == m0.status_right@
        &&& m1.call_stack.top_of_frame == m0.call_stack.top_of_frame
        &&& m1.memory@ == ZMachine::stored_mem(m0, rb, v)
        &&& m1.call_stack.stack@ == ZMachine::stored_stack(m0, rb, v)
        &&& m1.spec_peek_ok(dest)
        &&& m1.spec_peek_variable(dest) == v
    }

    /// `m1` carries exactly the image `mem` and frame `stack`/`tof`, with
    /// everything not owned by the trailer protocol unchanged from `m0`.
    pub open spec fn spec_frame_is(
        m0: ZMachine,
        mem: Seq<u8>,
        stack: Seq<u16>,
        tof: int,
        m1: ZMachine,
    ) -> bool {
        &&& m1.memory@ == mem
        &&& m1.call_stack.stack@ == stack
        &&& m1.call_stack.top_of_frame as int == tof
        &&& m1.header == m0.header
        &&& m1.state == m0.state
        &&& m1.output@ == m0.output@
        &&& m1.random_generator == m0.random_generator
        &&& m1.status_left@ == m0.status_left@
        &&& m1.status_right@ == m0.status_right@
    }

    /// A one-byte meta-return (branch offset 0 or 1) can run: a frame is
    /// open and the caller's pending store destination is in range and
    /// writable.  `mem`/`stack`/`tof` are the values the return starts from.
    pub open spec fn spec_meta_return_ok(
        m0: ZMachine,
        mem: Seq<u8>,
        stack: Seq<u16>,
        tof: int,
    ) -> bool {
        &&& 3 <= tof < stack.len()
        &&& ({
            let resume = stack[tof - 2] * 0x10000 + stack[tof - 3];
            let rb2 = stack[tof - 1] as int;
            &&& 0 <= resume + rb2 < mem.len()
            &&& ({
                let dest = mem[resume + rb2];
                dest == 0 || dest > 15 || stack[tof] + dest < tof - 3
            })
        })
    }

    /// `m1` is the state after the full return protocol with value `v` run
    /// from image `mem` and frame `stack`/`tof`: the frame is discarded, the
    /// program counter resumes at the saved address, `v` lands in the
    /// destination byte that follows the caller's consumed bytes, and the
    /// counter moves past it.
    pub open spec fn spec_return_effect(
        m0: ZMachine,
        mem: Seq<u8>,
        stack: Seq<u16>,
        tof: int,
        m1: ZMachine,
        v: u16,
    ) -> bool {
        let resume = stack[tof - 2] * 0x10000 + stack[tof - 3];
        let rb = stack[tof - 1] as int;
        let dest_addr = resume + rb;
        &&& 3 <= tof < stack.len()
        &&& 0 <= dest_addr < mem.len()
        &&& ({
            let dest = mem[dest_addr];
            let stack1 = stack.take(tof - 3);
            &&& m1.header == m0.header
            &&& m1.state == m0.state
            &&& m1.output@ == m0.output@
            &&& m1.random_generator == m0.random_generator
            &&& m1.status_left@ == m0.status_left@
            &&& m1.status_right@ == m0.status_right@
            &&& m1.call_stack.top_of_frame as int == stack[tof] as int
            &&& m1.ip == resume + rb + 1
            &&& if dest == 0 {
                &&& m1.memory@ == mem
                &&& m1.call_stack.stack@ == stack1.push(v)
            } else if dest <= 15 {
                &&& m1.memory@ == mem
                &&& m1.call_stack.stack@ == stack1.update(stack[tof] + dest, v)
            } else {
                &&& m1.call_stack.stack@ == stack1
                &&& m1.memory@ == with_word(mem, m0.glob() + 2 * (dest - 16), v)
            }
        })
    }

    /// The branch trailer can be applied to the image `mem` and frame
    /// `stack`/`tof` with the branch byte at `m0.ip + rb`: the trailer bytes
    /// lie in the image, a computed target is in range, and a meta-return
    /// finds an open frame with a writable pending destination.
    pub open spec fn spec_branch_ok(
        m0: ZMachine,
        mem: Seq<u8>,
        stack: Seq<u16>,
        tof: int,
        rb: int,
        result: u16,
    ) -> bool {
        let a = m0.ip + rb;
        &&& 0 <= a < mem.len()
        &&& ({
            let b = mem[a];
            let on_true = b & 0x80 != 0;
            let one_byte = b & 0x40 != 0;
            let taken = (on_true && result > 0) || (!on_true && result == 0);
            if !taken {
                true
            } else if one_byte {
                let off = (b & 0x3f) as int;
                if off == 0 || off == 1 {
                    ZMachine::spec_meta_return_ok(m0, mem, stack, tof)
                } else {
                    true
                }
            } else {
                &&& a + 1 < mem.len()
                &&& ({
                    let raw = (word_at(mem, a) as u16 & 0x3fff) as int;
                    let off = if raw >= 0x2000 {
                        raw - 0x4000
                    } else {
                        raw
                    };
                    0 <= m0.ip + rb + off
                })
            }
        })
    }

    /// What the branch trailer does, run against image `mem` and frame
    /// `stack`/`tof` with the branch byte at `m0.ip + rb`: not taken steps
    /// past the trailer; a one-byte offset of 0 or 1 runs the full
    /// return-false / return-true protocol; otherwise the counter moves to
    /// `address after trailer + offset - 2`.
    pub open spec fn spec_branch_effect(
        m0: ZMachine,
        mem: Seq<u8>,
        stack: Seq<u16>,
        tof: int,
        rb: int,
        result: u16,
        m1: ZMachine,
    ) -> bool {
        let a = m0.ip + rb;
        &&& 0 <= a < mem.len()
        &&& ({
            let b = mem[a];
            let on_true = b & 0x80 != 0;
            let one_byte = b & 0x40 != 0;
            let taken = (on_true && result > 0) || (!on_true && result == 0);
            let trailer = if one_byte {
                1int
            } else {
                2int
            };
            let offset = if one_byte {
                (b & 0x3f) as int
            } else {
                let raw = (word_at(mem, a) as u16 & 0x3fff) as int;
                if raw >= 0x2000 {
                    raw - 0x4000
                } else {
                    raw
                }
            };
            &&& (!taken ==> m1.ip == m0.ip + rb + trailer && ZMachine::spec_frame_is(
                m0,
                mem,
                stack,
                tof,
                m1,
            ))
            &&& ((taken && one_byte && offset == 0) ==> ZMachine::spec_return_effect(
                m0,
                mem,
                stack,
                tof,
                m1,
                0,
            ))
            &&& ((taken && one_byte && offset == 1) ==> ZMachine::spec_return_effect(
                m0,
                mem,
                stack,
                tof,
                m1,
                1,
            ))
            &&& ((taken && !(one_byte && (offset == 0 || offset == 1))) ==> m1.ip == m0.ip + rb
                + trailer + offset - 2 && ZMachine::spec_frame_is(m0, mem, stack, tof, m1))
        })
    }

    /// What the trailer phase does after a handler has run: the opcode `c1`
    /// the handler left behind decides whether a store, a branch, both (the
    /// store first, the branch byte after the consumed destination byte) or
    /// a plain advance carries `m1` to `m2`.
    pub open spec fn spec_finish_effect(m1: ZMachine, c1: OpCode, m2: ZMachine) -> bool {
        let rb = c1.read_bytes as int;
        &&& ((c1.store && !c1.branch) ==> (m2.ip == m1.ip + rb + 1
            && ZMachine::spec_store_applied(
            m1,
            rb,
            c1.result,
            (ZMachine { ip: m1.ip, ..m2 }),
        )))
        &&& ((!c1.store && !c1.branch) ==> (m2.ip == m1.ip + rb && m2 == (ZMachine {
            ip: m2.ip,
            ..m1
        })))
        &&& ((!c1.store && c1.branch) ==> ZMachine::spec_branch_effect(
            m1,
            m1.memory@,
            m1.call_stack.stack@,
            m1.call_stack.top_of_frame as int,
            rb,
            c1.result,
            m2,
        ))
        &&& ((c1.store && c1.branch) ==> ZMachine::spec_branch_effect(
            m1,
            ZMachine::stored_mem(m1, rb, c1.result),
            ZMachine::stored_stack(m1, rb, c1.result),
            m1.call_stack.top_of_frame as int,
            rb + 1,
            c1.result,
            m2,
        ))
    }

    /// Applies the store trailer: reads the destination byte after the
    /// consumed bytes, stores the handler's result there, and counts the
    /// byte as consumed.  The program counter itself does not move here.
    fn apply_store_trailer(&mut self, op_code: &mut OpCode) -> (r: Result<(), FatalError>)
        requires
            old(self).wf(),
        ensures
            final(self).wf(),
            ZMachine::same_shape(*old(self), *final(self)),
            r is Ok <==> ZMachine::spec_store_ok(*old(self), old(op_code).read_bytes as int),
            r matches Ok(_) ==> ZMachine::spec_store_applied(
                *old(self),
                old(op_code).read_bytes as int,
                old(op_code).result,
                *final(self),
            ),
            r matches Ok(_) ==> *final(op_code) == (OpCode {
                read_bytes: (old(op_code).read_bytes + 1) as u32,
                ..*old(op_code)
            }),
            r is Err ==> *final(self) == *old(self) && *final(op_code) == *old(op_code),
            r matches Err(e) ==> (e == FatalError::BadAddress || e == FatalError::StackUnderflow),
    {
        if self.ip as u64 + op_code.read_bytes as u64 >= self.memory.len() as u64 {
            return Err(FatalError::BadAddress);
        }
        let view = MemoryView { pointer: self.ip };
        let destination = view.read_at_head(&self.memory, op_code.read_bytes);
        self.store_variable(destination, op_code.result)?;
        op_code.read_bytes = op_code.read_bytes + 1;
        proof {
            if destination >= 16 {
                crate::memory_view::lemma_word_round_trip(
                    old(self).memory@,
                    old(self).glob() + 2 * (destination - 16),
                    op_code.result,
                );
            }
        }
        Ok(())
    }

    /// Applies the store trailer (when the opcode stores) and moves the
    /// program counter past it: afterwards the named destination holds the
    /// handler's result and the counter points past the destination byte.
    fn finish_no_branch(&mut self, op_code: &mut OpCode) -> (r: Result<(), FatalError>)
        requires
            old(self).wf(),
        ensures
            final(self).wf(),
            ZMachine::same_shape(*old(self), *final(self)),
            r is Ok <==> (if old(op_code).store {
                ZMachine::spec_store_ok(*old(self), old(op_code).read_bytes as int)
            } else {
                old(self).ip + old(op_code).read_bytes <= u32::MAX
            }),
            (r matches Ok(_) && old(op_code).store) ==> ({
                let m0 = *old(self);
                let rb = old(op_code).read_bytes as int;
                &&& final(self).ip == m0.ip + rb + 1
                &&& ZMachine::spec_store_applied(
                    m0,
                    rb,
                    old(op_code).result,
                    (ZMachine { ip: m0.ip, ..*final(self) }),
                )
            }),
            (r matches Ok(_) && !old(op_code).store) ==> ({
                &&& final(self).ip == old(self).ip + old(op_code).read_bytes
                &&& *final(self) == (ZMachine { ip: final(self).ip, ..*old(self) })
            }),
    {
        if op_code.store {
            self.apply_store_trailer(op_code)?;
        }
        if self.ip as u64 + op_code.read_bytes as u64 > u32::MAX as u64 {
            return Err(FatalError::BadAddress);
        }
        self.ip = self.ip + op_code.read_bytes;
        Ok(())
    }

    /// Applies the trailers after a handler has run: the store trailer
    /// first (when the opcode stores), then the branch trailer (when it
    /// branches, reading the branch byte after the just-consumed destination
    /// byte) or the plain program-counter advance.
    pub fn finish_instruction(&mut self, op_code: &mut OpCode) -> (r: Result<(), FatalError>)
        requires
            old(self).wf(),
        ensures
            final(self).wf(),
            ZMachine::same_shape(*old(self), *final(self)),
            r is Ok <==> ({
                let m0 = *old(self);
                let rb = old(op_code).read_bytes as int;
                let v = old(op_code).result;
                if old(op_code).branch {
                    if old(op_code).store {
                        ZMachine::spec_store_ok(m0, rb) && ZMachine::spec_branch_ok(
                            m0,
                            ZMachine::stored_mem(m0, rb, v),
                            ZMachine::stored_stack(m0, rb, v),
                            m0.call_stack.top_of_frame as int,
                            rb + 1,
                            v,
                        )
                    } else {
                        ZMachine::spec_branch_ok(
                            m0,
                            m0.memory@,
                            m0.call_stack.stack@,
                            m0.call_stack.top_of_frame as int,
                            rb,
                            v,
                        )
                    }
                } else {
                    if old(op_code).store {
                        ZMachine::spec_store_ok(m0, rb)
                    } else {
                        m0.ip + rb <= u32::MAX
                    }
                }
            }),
            (r matches Ok(_) && old(op_code).store && !old(op_code).branch) ==> ({
                let m0 = *old(self);
                let rb = old(op_code).read_bytes as int;
                &&& final(self).ip == m0.ip + rb + 1
                &&& ZMachine::spec_store_applied(
                    m0,
                    rb,
                    old(op_code).result,
                    (ZMachine { ip: m0.ip, ..*final(self) }),
                )
            }),
            (r matches Ok(_) && !old(op_code).store && !old(op_code).branch) ==> ({
                &&& final(self).ip == old(self).ip + old(op_code).read_bytes
                &&& *final(self) == (ZMachine { ip: final(self).ip, ..*old(self) })
            }),
            (r matches Ok(_) && !old(op_code).store && old(op_code).branch)
                ==> ZMachine::spec_branch_effect(
                *old(self),
                old(self).memory@,
                old(self).call_stack.stack@,
                old(self).call_stack.top_of_frame as int,
                old(op_code).read_bytes as int,
                old(op_code).result,
                *final(self),
            ),
            (r matches Ok(_) && old(op_code).store && old(op_code).branch)
                ==> ZMachine::spec_branch_effect(
                *old(self),
                ZMachine::stored_mem(*old(self), old(op_code).read_bytes as int, old(
                    op_code,
                ).result),
                ZMachine::stored_stack(*old(self), old(op_code).read_bytes as int, old(
                    op_code,
                ).result),
                old(self).call_stack.top_of_frame as int,
                old(op_code).read_bytes + 1,
                old(op_code).result,
                *final(self),
            ),
    {
        if op_code.branch {
            if op_code.store {
                self.apply_store_trailer(op_code)?;
            }
            self.handle_branch(op_code)
        } else {
            self.finish_no_branch(op_code)
        }
    }

    /// Reads the branch trailer after the opcode's consumed bytes and
    /// applies it.  The high bit of the first byte picks the polarity; the
    /// next bit picks a 6-bit unsigned or 14-bit signed offset.  When the
    /// branch is not taken the counter moves past the trailer; offsets 0
    /// and 1 in the one-byte form run the full return-false / return-true
    /// protocol; otherwise the counter moves to the target
    /// `address after trailer + offset - 2`.
    pub fn handle_branch(&mut self, op_code: &mut OpCode) -> (r: Result<(), FatalError>)
        requires
            old(self).wf(),
        ensures
            final(self).wf(),
            ZMachine::same_shape(*old(self), *final(self)),
            r is Ok <==> ZMachine::spec_branch_ok(
                *old(self),
                old(self).memory@,
                old(self).call_stack.stack@,
                old(self).call_stack.top_of_frame as int,
                old(op_code).read_bytes as int,
                old(op_code).result,
            ),
            r matches Ok(_) ==> ZMachine::spec_branch_effect(
                *old(self),
                old(self).memory@,
                old(self).call_stack.stack@,
                old(self).call_stack.top_of_frame as int,
                old(op_code).read_bytes as int,
                old(op_code).result,
                *final(self),
            ),
    {
        if self.ip as u64 + op_code.read_bytes as u64 >= self.memory.len() as u64 {
            return Err(FatalError::BadAddress);
        }
        let view = MemoryView { pointer: self.ip };
        let condition = op_code.result;
        let first = view.read_at_head(&self.memory, op_code.read_bytes);
        let branch_on_true = (first & 0x80) != 0;
        let one_bit = (first & 0x40) != 0;
        let branch = (branch_on_true && condition > 0) || (!branch_on_true && condition == 0);
        let branch_byte_offset: u32 = if one_bit {
            1
        } else {
            2
        };
        if !branch {
            self.ip = self.ip + op_code.read_bytes + branch_byte_offset;
            return Ok(());
        }
        let offset: i32 = if one_bit {
            (first & 0x3f) as i32
        } else {
            if self.ip as u64 + op_code.read_bytes as u64 + 1 >= self.memory.len() as u64 {
                return Err(FatalError::BadAddress);
            }
            let word = view.read_u16_at_head(&self.memory, op_code.read_bytes);
            let raw = (word & 0x3fff) as i32;
            if raw >= 0x2000 {
                raw - 0x4000
            } else {
                raw
            }
        };
        if one_bit && offset == 0 {
            let mut meta = OpCode::form_rfalse();
            crate::instruction_set::rfalse(&mut meta, self)?;
            self.finish_no_branch(&mut meta)?;
            return Ok(());
        }
        if one_bit && offset == 1 {
            let mut meta = OpCode::form_rtrue();
            crate::instruction_set::rtrue(&mut meta, self)?;
            self.finish_no_branch(&mut meta)?;
            return Ok(());
        }
        let difference: i64 = op_code.read_bytes as i64 + offset as i64 + branch_byte_offset
            as i64 - 2;
        let new_ip: i64 = self.ip as i64 + difference;
        if new_ip < 0 {
            return Err(FatalError::BadAddress);
        }
        self.ip = new_ip as u32;
        Ok(())
    }

    /// Runs a decoded instruction: the handler, then the store trailer, then
    /// the branch trailer or the plain program-counter advance.
    pub fn execute_instruction(&mut self, op_code: &mut OpCode) -> (r: Result<(), FatalError>)
        requires
            old(self).wf(),
            old(op_code).operands@.len() == 4,
            old(op_code).operand_count <= 4,
        ensures
            final(self).wf(),
            ZMachine::same_shape(*old(self), *final(self)),
            (old(op_code).instruction == crate::opcode::Instruction::Nop && !old(op_code).store
                && !old(op_code).branch && old(self).ip + old(op_code).read_bytes <= u32::MAX)
                ==> (r is Ok && final(self).ip == old(self).ip + old(op_code).read_bytes
                && *final(self) == (ZMachine { ip: final(self).ip, ..*old(self) })),
            (old(op_code).instruction == crate::opcode::Instruction::Quit && !old(op_code).store
                && !old(op_code).branch) ==> (r is Ok && final(self).state
                == MachineState::Stopped),
            r is Ok ==> (exists|c_mid: OpCode, m_mid: ZMachine|
                {
                    &&& #[trigger] crate::instruction_set::spec_handler_effect(
                        old(op_code).instruction,
                        *old(op_code),
                        *old(self),
                        c_mid,
                        m_mid,
                    )
                    &&& ZMachine::spec_finish_effect(m_mid, c_mid, *final(self))
                }),
    {
        op_code.execute(self)?;
        let ghost c_mid = *op_code;
        let ghost m_mid = *self;
        let r2 = self.finish_instruction(op_code);
        proof {
            if r2 is Ok {
                assert(crate::instruction_set::spec_handler_effect(
                    old(op_code).instruction,
                    *old(op_code),
                    *old(self),
                    c_mid,
                    m_mid,
                ));
                assert(ZMachine::spec_finish_effect(m_mid, c_mid, *self));
            }
        }
        r2
    }

    /// Decodes and runs the instruction at the program counter: classifies
    /// the first bytes, looks up the handler, resolves the operands, and
    /// executes with its trailers.
    pub fn next_instruction(&mut self) -> (r: Result<(), FatalError>)
        requires
            old(self).wf(),
        ensures
            final(self).wf(),
            ZMachine::same_shape(*old(self), *final(self)),
            old(self).ip + 1 >= old(self).memory@.len() ==> r == Err::<(), FatalError>(
                FatalError::BadAddress,
            ),
            (old(self).ip + 1 < old(self).memory@.len() && old(self).memory@[old(self).ip as int]
                == 0xbe) ==> r == Err::<(), FatalError>(FatalError::ExtendedOpcode),
            ({
                let b0 = old(self).memory@[old(self).ip as int];
                let b1 = old(self).memory@[old(self).ip + 1];
                (old(self).ip + 1 < old(self).memory@.len() && b0 != 0xbe
                    && crate::opcode::spec_decoded_instruction(b0, b1) is None) ==> r == Err::<
                    (),
                    FatalError,
                >(FatalError::BadOpcode)
            }),
            r is Ok ==> ({
                let b0 = old(self).memory@[old(self).ip as int];
                let b1 = old(self).memory@[old(self).ip + 1];
                exists|c0: OpCode, c_res: OpCode, m_res: ZMachine, c_mid: OpCode, m_mid: ZMachine|
                    {
                        &&& #[trigger] c0.spec_formed(b0, b1)
                        &&& Some(c_res.instruction) == crate::opcode::spec_decoded_instruction(
                            b0,
                            b1,
                        )
                        &&& crate::opcode::spec_resolve(
                            c0.operands@,
                            0,
                            c0.operand_count as int,
                            old(self).memory@,
                            old(self).ip as int,
                            c0.read_bytes as int,
                            old(self).call_stack.stack@,
                            old(self).call_stack.top_of_frame as int,
                            old(self).glob(),
                        ) == Some(
                            (c_res.operands@, c_res.read_bytes as int, m_res.call_stack.stack@),
                        )
                        &&& c_res.ip == old(self).ip
                        &&& c_res.operand_count == c0.operand_count
                        &&& !c_res.store
                        &&& !c_res.branch
                        &&& c_res.result == 0
                        &&& m_res.call_stack.top_of_frame == old(self).call_stack.top_of_frame
                        &&& m_res == (ZMachine { call_stack: m_res.call_stack, ..*old(self) })
                        &&& #[trigger] crate::instruction_set::spec_handler_effect(
                            c_res.instruction,
                            c_res,
                            m_res,
                            c_mid,
                            m_mid,
                        )
                        &&& ZMachine::spec_finish_effect(m_mid, c_mid, *final(self))
                    }
            }),
    {
        if self.ip as u64 + 1 >= self.memory.len() as u64 {
            return Err(FatalError::BadAddress);
        }
        let view = self.get_frame_view();
        let globals = self.get_global_variables_view();
        let word = view.peek_at_instruction(&self.memory);
        let mut op_code = OpCode::form_opcode(word)?;
        let ghost c_formed = op_code;
        op_code.ip = self.ip;
        OpCode::assign_instruction(&mut op_code)?;
        op_code.read_variables(view, globals, &mut self.call_stack, &self.memory)?;
        let ghost c_res = op_code;
        let ghost m_res = *self;
        let r3 = self.execute_instruction(&mut op_code);
        proof {
            if r3 is Ok {
                let b0 = old(self).memory@[old(self).ip as int];
                let b1 = old(self).memory@[old(self).ip + 1];
                assert(c_formed.spec_formed(b0, b1));
                assert(Some(c_res.instruction) == crate::opcode::spec_decoded_instruction(
                    b0,
                    b1,
                ));
                let (c_mid, m_mid) = choose|c_mid: OpCode, m_mid: ZMachine|
                    {
                        &&& #[trigger] crate::instruction_set::spec_handler_effect(
                            c_res.instruction,
                            c_res,
                            m_res,
                            c_mid,
                            m_mid,
                        )
                        &&& ZMachine::spec_finish_effect(m_mid, c_mid, *self)
                    };
                assert(crate::instruction_set::spec_handler_effect(
                    c_res.instruction,
                    c_res,
                    m_res,
                    c_mid,
                    m_mid,
                ) && ZMachine::spec_finish_effect(m_mid, c_mid, *self));
            }
        }
        r3
    }

}

/// The predictable counter after `i` draws, having started at 1 with seed
/// `s`: it advances by one and wraps to 1 after reaching `s`.
pub open spec fn counter_after(s: u16, i: nat) -> int
    decreases i,
{
    if i == 0 {
        1
    } else {
        let prev = counter_after(s, (i - 1) as nat);
        if prev >= s {
            1
        } else {
            prev + 1
        }
    }
}

/// Seeded predictable mode cycles: with seed `s` the counter value at draw
/// `i` is `i mod s + 1`, so the draws run `1, 2, ..., s, 1, 2, ...` for any
/// range at least `s` (a draw returns the counter whenever the range allows
/// it, by the generator's contract).
pub proof fn lemma_predictable_cycle(s: u16, i: nat)
    requires
        s >= 1,
    ensures
        counter_after(s, i) == (i as int) % (s as int) + 1,
    decreases i,
{
    if i > 0 {
        let d = s as int;
        lemma_predictable_cycle(s, (i - 1) as nat);
        let prev = counter_after(s, (i - 1) as nat);
        assert(counter_after(s, i) == (if prev >= s {
            1int
        } else {
            prev + 1
        }));
        if prev >= s {
            assert((i - 1) as int % d == d - 1);
            vstd::arithmetic::div_mod::lemma_fundamental_div_mod((i - 1) as int, d);
            assert(i as int == (((i - 1) as int / d) + 1) * d) by (nonlinear_arith)
                requires
                    (i - 1) as int == d * ((i - 1) as int / d) + (d - 1),
            ;
            vstd::arithmetic::div_mod::lemma_mod_multiples_basic(((i - 1) as int / d) + 1, d);
            assert((i as int) % d == 0);
        } else {
            assert(prev == (i - 1) as int % d + 1);
            assert(d >= 2);
            vstd::arithmetic::div_mod::lemma_small_mod(1nat, d as nat);
            vstd::arithmetic::div_mod::lemma_mod_adds((i - 1) as int, 1, d);
            assert(((i - 1) as int + 1) % d == (i - 1) as int % d + 1);
            assert(((i - 1) as int + 1) % d == (i as int) % d);
        }
    } else {
        vstd::arithmetic::div_mod::lemma_small_mod(0nat, s as nat);
    }
}

impl ZMachine {
    /// Delivers a line of input to a machine suspended in `sread`: lower-
    /// cases and trims it, writes it to the text buffer, tokenizes it into
    /// the parse buffer, and resumes running.  An over-long line is
    /// discarded and the machine simply resumes.  With the machine not
    /// taking input, nothing happens.
    pub fn wait_for_input(&mut self, input: &Vec<u8>) -> (r: Result<(), FatalError>)
        requires
            old(self).wf(),
        ensures
            final(self).wf(),
            ZMachine::same_shape(*old(self), *final(self)),
            !(old(self).state matches MachineState::TakingInput { .. }) ==> *final(self) == *old(
                self,
            ),
            (r matches Ok(_) && old(self).state matches MachineState::TakingInput { .. })
                ==> final(self).state == MachineState::Running,
            r is Ok <==> (match old(self).state {
                MachineState::TakingInput { text_buffer: tb, parse_buffer: pb } => ({
                    let cleaned = crate::instruction_set::spec_clean(input@);
                    let ws = crate::instruction_set::split_spec(cleaned);
                    let line = crate::instruction_set::joined(ws);
                    &&& tb < old(self).memory@.len()
                    &&& (cleaned.len() > old(self).memory@[tb as int] || ({
                        let mem1 = crate::instruction_set::splice(
                            old(self).memory@,
                            tb + 1,
                            line,
                        );
                        &&& tb + 1 + line.len() <= old(self).memory@.len()
                        &&& (pb == 0 || ({
                            let n = vstd::math::min(mem1[pb as int] as int, ws.len() as int);
                            &&& pb < mem1.len()
                            &&& pb + 2 + 4 * n <= mem1.len()
                            &&& (n == 0 || crate::instruction_set::dict_readable(
                                mem1,
                                old(self).header.dictionary_location as int,
                            ))
                            &&& (forall|j: int|
                                0 <= j < n ==> (#[trigger] ws[j]).len() <= 0x10000000000
                                    && crate::instruction_set::word_pos(ws, j)
                                    <= 0x10000000000)
                        }))
                    }))
                }),
                _ => true,
            }),
            r matches Ok(_) ==> (match old(self).state {
                MachineState::TakingInput { text_buffer: tb, parse_buffer: pb } => ({
                    let cleaned = crate::instruction_set::spec_clean(input@);
                    let ws = crate::instruction_set::split_spec(cleaned);
                    let line = crate::instruction_set::joined(ws);
                    let mem1 = crate::instruction_set::splice(old(self).memory@, tb + 1, line);
                    &&& (cleaned.len() > old(self).memory@[tb as int] ==> final(self).memory@
                        == old(self).memory@)
                    &&& ((cleaned.len() <= old(self).memory@[tb as int] && pb == 0)
                        ==> final(self).memory@ == mem1)
                    &&& ((cleaned.len() <= old(self).memory@[tb as int] && pb != 0) ==> ({
                        let n = vstd::math::min(mem1[pb as int] as int, ws.len() as int);
                        &&& final(self).memory@[pb + 1] == n
                        &&& (forall|k: int|
                            0 <= k < n ==> crate::instruction_set::lookup_answer(
                                mem1,
                                old(self).header.dictionary_location as int,
                                #[trigger] ws[k],
                                crate::memory_view::word_at(final(self).memory@, pb + 2 + 4 * k),
                            ))
                        &&& (forall|k: int|
                            0 <= k < n ==> #[trigger] final(self).memory@[pb + 2 + 4 * k + 2] == (
                            ws[k].len() % 256) as u8)
                        &&& (forall|k: int|
                            0 <= k < n ==> #[trigger] final(self).memory@[pb + 2 + 4 * k + 3] == (
                            crate::instruction_set::word_pos(ws, k) % 256) as u8)
                        &&& (forall|i: int|
                            0 <= i < mem1.len() && !(pb + 1 <= i < pb + 2 + 4 * n)
                                ==> #[trigger] final(self).memory@[i] == mem1[i])
                    }))
                }),
                _ => true,
            }),
    {
        let (text_buffer, parse_buffer) = match self.state {
            MachineState::TakingInput { text_buffer, parse_buffer } => (
                text_buffer,
                parse_buffer,
            ),
            _ => {
                return Ok(());
            },
        };
        if text_buffer as u64 >= self.memory.len() as u64 {
            return Err(FatalError::BadAddress);
        }
        let view = MemoryView { pointer: 0 };
        let max_length = view.read_at(&self.memory, text_buffer as u32);
        let cleaned = crate::instruction_set::lowercase_and_trim(input);
        if cleaned.len() > max_length as usize {
            self.state = MachineState::Running;
            return Ok(());
        }
        let words = crate::instruction_set::split_words(&cleaned);
        let r = crate::instruction_set::sread_write_to_text_buffer(
            &view,
            &words,
            text_buffer as u32 + 1,
            &mut self.memory,
        );
        match r {
            Ok(_) => {},
            Err(e) => {
                proof {
                    assert(crate::instruction_set::word_views(words@)
                        == crate::instruction_set::split_spec(
                        crate::instruction_set::spec_clean(input@),
                    ));
                    assert(!(text_buffer + 1 + crate::instruction_set::joined(
                        crate::instruction_set::split_spec(
                            crate::instruction_set::spec_clean(input@),
                        ),
                    ).len() <= old(self).memory@.len()));
                }
                return Err(e);
            },
        }
        proof {
            assert(self.memory@ =~= crate::instruction_set::splice(
                old(self).memory@,
                text_buffer as u32 + 1,
                crate::instruction_set::joined(crate::instruction_set::word_views(words@)),
            ));
        }
        if parse_buffer != 0 {
            let dictionary_view = self.get_dictionary_view();
            let version = self.header.version;
            let r2 = crate::instruction_set::sread_write_to_parse_buffer(
                &view,
                &words,
                &dictionary_view,
                parse_buffer as u32,
                version,
                &mut self.memory,
            );
            match r2 {
                Ok(_) => {},
                Err(e) => {
                    proof {
                        assert(crate::instruction_set::word_views(words@)
                            == crate::instruction_set::split_spec(
                            crate::instruction_set::spec_clean(input@),
                        ));
                        assert forall|j: int|
                            0 <= j < words@.len() implies (#[trigger] words@[j])@
                            == crate::instruction_set::split_spec(
                            crate::instruction_set::spec_clean(input@),
                        )[j] by {
                            assert(crate::instruction_set::word_views(words@)[j] == words@[j]@);
                        }
                        assert forall|j: int|
                            0 <= j < words@.len() implies #[trigger] crate::instruction_set::split_spec(
                            crate::instruction_set::spec_clean(input@),
                        )[j] == words@[j]@ by {
                            assert(crate::instruction_set::word_views(words@)[j] == words@[j]@);
                        }
                    }
                    return Err(e);
                },
            }
        }
        self.state = MachineState::Running;
        Ok(())
    }
}

} // verus!
