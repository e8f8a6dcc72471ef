use vstd::prelude::*;

use crate::boundary;
use crate::GameResult;
use crate::Winner;

verus! {

/// Which exported entry point of the support module a raw boundary call
/// goes to. `new` binds each variant to the export of the same role:
/// `Alloc` to `allocate_bytes`, `Run` to `run_game`, the five accessors to
/// `result_get_winner` / `_ticks` / `_cycles` / `_reason_len` /
/// `_reason_byte`, and `Drop` to `result_drop`.
#[derive(Copy, Clone, PartialEq, Eq, Structural, Debug)]
pub enum EntryPoint {
    Alloc,
    Run,
    Winner,
    Ticks,
    Cycles,
    ReasonLen,
    ReasonByte,
    Drop,
}

/// One completed operation against the isolation boundary, as the host's
/// ghost log records it: a buffer allocation, a write into linear memory,
/// a game invocation carrying the buffer descriptors and the seed, a
/// field read on a result handle, or the release of a handle.
pub enum BoundaryOp {
    Allocate { size: u32, offset: i32 },
    Write { offset: i32, bytes: Seq<u8> },
    Invoke { red_ptr: i32, red_len: i32, blue_ptr: i32, blue_len: i32, seed: u32, handle: i32 },
    Read { which: EntryPoint, handle: i32, index: Option<i32>, value: i32 },
    Release { handle: i32 },
}

/// The call-sequence contract of one game against the boundary: a single
/// invocation first, then only field reads on the handle it produced, and
/// a single release of that handle last — in particular, no allocation
/// and no memory write during a game.
pub open spec fn game_transcript(t: Seq<BoundaryOp>, seed: u32, h: i32) -> bool {
    &&& t.len() >= 3
    &&& t[0] is Invoke
    &&& t[0]->Invoke_seed == seed
    &&& t[0]->Invoke_handle == h
    &&& t.last() == (BoundaryOp::Release { handle: h })
    &&& forall|i: int|
        1 <= i < t.len() - 1 ==> (#[trigger] t[i]) is Read && t[i]->Read_handle == h
}

/// That a game's invocation handed the run entry point exactly these
/// buffer descriptors.
pub open spec fn invoked_with(
    t: Seq<BoundaryOp>,
    red_ptr: i32,
    red_len: i32,
    blue_ptr: i32,
    blue_len: i32,
) -> bool {
    &&& t.len() > 0
    &&& t[0] is Invoke
    &&& t[0]->Invoke_red_ptr == red_ptr
    &&& t[0]->Invoke_red_len == red_len
    &&& t[0]->Invoke_blue_ptr == blue_ptr
    &&& t[0]->Invoke_blue_len == blue_len
}

/// What even an aborted game leaves in the log: nothing before its one
/// invocation, no second invocation, and nothing at all after a release —
/// the host never reads a field after release and never releases twice.
pub open spec fn well_formed_attempt(t: Seq<BoundaryOp>) -> bool {
    &&& t.len() > 0 ==> t[0] is Invoke
    &&& forall|i: int| 1 <= i < t.len() ==> !((#[trigger] t[i]) is Invoke)
    &&& forall|i: int| 0 <= i < t.len() ==> ((#[trigger] t[i]) is Release ==> i == t.len() - 1)
}

/// Law: in a game transcript the handle is released exactly once, as the
/// very last operation, every read of it comes before that release, and
/// the game issues no allocation and no memory write.
pub proof fn lemma_transcript_protocol(t: Seq<BoundaryOp>, seed: u32, h: i32)
    requires
        game_transcript(t, seed, h),
    ensures
        t[0] is Invoke,
        t.last() is Release,
        forall|i: int| 0 <= i < t.len() - 1 ==> !((#[trigger] t[i]) is Release),
        forall|i: int| 1 <= i < t.len() ==> !((#[trigger] t[i]) is Invoke),
        forall|i: int| 0 <= i < t.len() ==> !((#[trigger] t[i]) is Allocate),
        forall|i: int| 0 <= i < t.len() ==> !((#[trigger] t[i]) is Write),
{
}

/// The operations a call appended to a boundary log.
pub open spec fn appended(pre: Seq<BoundaryOp>, post: Seq<BoundaryOp>) -> Seq<BoundaryOp> {
    post.skip(pre.len() as int)
}

/// The reason bytes of a completed game transcript: the values of the
/// reads that follow the winner, tick, cycle and reason-length reads,
/// truncated to bytes.
pub open spec fn reason_bytes_of(t: Seq<BoundaryOp>) -> Seq<u8> {
    Seq::new((t.len() - 6) as nat, |i: int| t[5 + i]->Read_value as u8)
}

/// How a game's result is extracted from its transcript: the reads come
/// in ABI order — winner code, tick count, cycle count, reason length,
/// then one reason-byte read per index in increasing order — and each
/// field of the result is exactly what the corresponding read returned.
pub open spec fn ok_extraction(t: Seq<BoundaryOp>, g: GameResult) -> bool {
    &&& t.len() >= 6
    &&& t[1]->Read_which == EntryPoint::Winner
    &&& t[2]->Read_which == EntryPoint::Ticks
    &&& t[3]->Read_which == EntryPoint::Cycles
    &&& t[4]->Read_which == EntryPoint::ReasonLen
    &&& decode_winner_spec(t[1]->Read_value) == Ok::<Winner, RunError>(g.winner)
    &&& g.tick == t[2]->Read_value as u32
    &&& g.cycle == t[3]->Read_value as u32
    &&& t.len() - 6 == if t[4]->Read_value >= 0 {
        t[4]->Read_value as int
    } else {
        0
    }
    &&& forall|j: int|
        0 <= j < t.len() - 6 ==> (#[trigger] t[5 + j])->Read_which == EntryPoint::ReasonByte
            && t[5 + j]->Read_index == Some(j as i32)
    &&& g.lose_reason@ == boundary::utf8_lossy_of(reason_bytes_of(t))
    &&& t.len() == 6 ==> g.lose_reason@.len() == 0
}

/// A log that grew only at its end kept its past: the old log is a prefix
/// of the new one.
proof fn lemma_prefix(pre: Seq<BoundaryOp>, post: Seq<BoundaryOp>)
    requires
        pre.len() <= post.len(),
        forall|i: int| 0 <= i < pre.len() ==> post[i] == pre[i],
    ensures
        pre.is_prefix_of(post),
{
    assert(post.subrange(0, pre.len() as int) =~= pre);
}

/// What goes wrong before any game can run: a stage of building the
/// isolation boundary failed, with the boundary's own diagnostic.
#[derive(Debug)]
pub enum SetupError {
    Compile(String),
    Instantiate(String),
    MissingExport(String),
    AllocateFailed(String),
    MemoryWrite(String),
}

/// What ends a game without a fair outcome. The two invalid-competitor
/// errors signal that a side's module failed the VM's structural check;
/// they are never folded into the win/tie statistics.
#[derive(Debug)]
pub enum RunError {
    RedInvalid,
    BlueInvalid,
    UnknownWinnerCode(i32),
    CallFailed(String),
}

/// How a winner code read from the boundary is understood: 0, 1 and 2 are
/// the three fair outcomes; 3 and 4 mark the red or blue module as
/// structurally invalid; anything else is outside the ABI.
pub open spec fn decode_winner_spec(code: i32) -> Result<Winner, RunError> {
    if code == 0 {
        Ok(Winner::Red)
    } else if code == 1 {
        Ok(Winner::Blue)
    } else if code == 2 {
        Ok(Winner::Tie)
    } else if code == 3 {
        Err(RunError::RedInvalid)
    } else if code == 4 {
        Err(RunError::BlueInvalid)
    } else {
        Err(RunError::UnknownWinnerCode(code))
    }
}

/// Turns a winner code into a fair outcome or the error it designates;
/// an invalid-competitor code never becomes a `Winner`.
pub fn decode_winner(code: i32) -> (r: Result<Winner, RunError>)
    ensures
        r == decode_winner_spec(code),
{
    if code == 0 {
        Ok(Winner::Red)
    } else if code == 1 {
        Ok(Winner::Blue)
    } else if code == 2 {
        Ok(Winner::Tie)
    } else if code == 3 {
        Err(RunError::RedInvalid)
    } else if code == 4 {
        Err(RunError::BlueInvalid)
    } else {
        Err(RunError::UnknownWinnerCode(code))
    }
}

/// Decodes the reason bytes read from the boundary, with lossy
/// substitution for invalid UTF-8; no bytes give the empty string.
pub fn reason_from_bytes(bytes: &Vec<u8>) -> (r: String)
    ensures
        r@ == boundary::utf8_lossy_of(bytes@),
        bytes@.len() == 0 ==> r@.len() == 0,
{
    boundary::utf8_lossy(bytes)
}

/// One worker's private isolation boundary: a VM store holding the
/// instantiated support module, the two competitors' bytecode already
/// written into linear memory, the stored buffer descriptors, and the
/// bound exported entry points. The ghost log records every completed
/// boundary operation, setup and games alike.
pub struct SnakeRuntime {
    store: wasmer::Store,
    instance: wasmer::Instance,
    red_ptr: i32,
    red_len: u32,
    blue_ptr: i32,
    blue_len: u32,
    alloc_fn: wasmer::Function,
    run_fn: wasmer::Function,
    winner_fn: wasmer::Function,
    ticks_fn: wasmer::Function,
    cycles_fn: wasmer::Function,
    reason_len_fn: wasmer::Function,
    reason_byte_fn: wasmer::Function,
    drop_fn: wasmer::Function,
    trace: Ghost<Seq<BoundaryOp>>,
}

impl SnakeRuntime {
    /// Every completed boundary operation of this instance, in order:
    /// first the setup allocations and writes, then the games' ops.
    pub closed spec fn ops(self) -> Seq<BoundaryOp> {
        self.trace@
    }

    /// Offset of the red competitor's buffer in linear memory.
    pub closed spec fn red_offset(self) -> i32 {
        self.red_ptr
    }

    /// Byte length of the red competitor's buffer.
    pub closed spec fn red_size(self) -> u32 {
        self.red_len
    }

    /// Offset of the blue competitor's buffer in linear memory.
    pub closed spec fn blue_offset(self) -> i32 {
        self.blue_ptr
    }

    /// Byte length of the blue competitor's buffer.
    pub closed spec fn blue_size(self) -> u32 {
        self.blue_len
    }

    /// Relies on wasmer::Function::call: invokes the selected export with
    /// 32-bit integer arguments and hands back its first result when that
    /// is a 32-bit integer, or the trap that ended the call. The function
    /// and the store it runs in both belong to this instance — the pairing
    /// is fixed inside this body, so no caller can hand the call a foreign
    /// store. Touches neither the ghost log nor the buffer descriptors.
    #[verifier::external_body]
    fn raw_call(&mut self, which: EntryPoint, args: &Vec<i32>) -> (r: Result<Option<i32>, String>)
        ensures
            final(self).ops() == old(self).ops(),
            final(self).red_offset() == old(self).red_offset(),
            final(self).red_size() == old(self).red_size(),
            final(self).blue_offset() == old(self).blue_offset(),
            final(self).blue_size() == old(self).blue_size(),
    {
        let f = match which {
            EntryPoint::Alloc => &self.alloc_fn,
            EntryPoint::Run => &self.run_fn,
            EntryPoint::Winner => &self.winner_fn,
            EntryPoint::Ticks => &self.ticks_fn,
            EntryPoint::Cycles => &self.cycles_fn,
            EntryPoint::ReasonLen => &self.reason_len_fn,
            EntryPoint::ReasonByte => &self.reason_byte_fn,
            EntryPoint::Drop => &self.drop_fn,
        };
        let values: Vec<wasmer::Value> = args.iter().map(|a| wasmer::Value::I32(*a)).collect();
        match f.call(&mut self.store, &values) {
            Ok(results) => Ok(results.get(0).and_then(|v| v.i32())),
            Err(e) => Err(format!("{e}")),
        }
    }

    /// Relies on wasmer::Exports::get_memory and wasmer::MemoryView::write:
    /// copies the bytes into this instance's linear memory at the given
    /// offset, viewing the memory through this instance's own store — the
    /// pairing is fixed inside this body, so no caller can hand the view a
    /// foreign store. Out-of-bounds writes come back as errors.
    #[verifier::external_body]
    fn raw_write(&self, offset: u64, bytes: &[u8]) -> Result<(), String> {
        let memory = match self.instance.exports.get_memory("memory") {
            Ok(m) => m,
            Err(e) => return Err(format!("{e}")),
        };
        match memory.view(&self.store).write(offset, bytes) {
            Ok(()) => Ok(()),
            Err(e) => Err(format!("{e}")),
        }
    }

    /// Requests a buffer inside linear memory, logging the allocation.
    fn alloc_op(&mut self, size: u32) -> (r: Result<i32, String>)
        requires
            size <= 0x7fff_ffff,
        ensures
            final(self).red_offset() == old(self).red_offset(),
            final(self).red_size() == old(self).red_size(),
            final(self).blue_offset() == old(self).blue_offset(),
            final(self).blue_size() == old(self).blue_size(),
            match r {
                Ok(off) => final(self).ops() == old(self).ops().push(
                    BoundaryOp::Allocate { size, offset: off },
                ),
                Err(_) => final(self).ops() == old(self).ops(),
            },
    {
        let mut args: Vec<i32> = Vec::new();
        args.push(size as i32);
        match self.raw_call(EntryPoint::Alloc, &args) {
            Ok(Some(off)) => {
                self.trace = Ghost(self.trace@.push(BoundaryOp::Allocate { size, offset: off }));
                Ok(off)
            },
            Ok(None) => Err("the allocation export returned no offset".to_owned()),
            Err(m) => Err(m),
        }
    }

    /// Writes bytes at an allocated offset, logging the write.
    fn write_op(&mut self, offset: i32, bytes: &[u8]) -> (r: Result<(), String>)
        ensures
            final(self).red_offset() == old(self).red_offset(),
            final(self).red_size() == old(self).red_size(),
            final(self).blue_offset() == old(self).blue_offset(),
            final(self).blue_size() == old(self).blue_size(),
            match r {
                Ok(_) => final(self).ops() == old(self).ops().push(
                    BoundaryOp::Write { offset, bytes: bytes@ },
                ),
                Err(_) => final(self).ops() == old(self).ops(),
            },
    {
        let off_arg: u64 = #[verifier::truncate] (offset as u64);
        match self.raw_write(off_arg, bytes) {
            Ok(_) => {
                self.trace = Ghost(
                    self.trace@.push(BoundaryOp::Write { offset, bytes: bytes@ }),
                );
                Ok(())
            },
            Err(m) => Err(m),
        }
    }

    /// Starts one game with the stored buffer descriptors and the seed,
    /// logging the invocation and the handle it produced.
    fn invoke_op(&mut self, seed: u32) -> (r: Result<i32, String>)
        ensures
            final(self).red_offset() == old(self).red_offset(),
            final(self).red_size() == old(self).red_size(),
            final(self).blue_offset() == old(self).blue_offset(),
            final(self).blue_size() == old(self).blue_size(),
            match r {
                Ok(h) => final(self).ops() == old(self).ops().push(
                    BoundaryOp::Invoke {
                        red_ptr: old(self).red_offset(),
                        red_len: old(self).red_size() as i32,
                        blue_ptr: old(self).blue_offset(),
                        blue_len: old(self).blue_size() as i32,
                        seed,
                        handle: h,
                    },
                ),
                Err(_) => final(self).ops() == old(self).ops(),
            },
    {
        let red_len_arg: i32 = #[verifier::truncate] (self.red_len as i32);
        let blue_len_arg: i32 = #[verifier::truncate] (self.blue_len as i32);
        let seed_arg: i32 = #[verifier::truncate] (seed as i32);
        let mut args: Vec<i32> = Vec::new();
        args.push(self.red_ptr);
        args.push(red_len_arg);
        args.push(self.blue_ptr);
        args.push(blue_len_arg);
        args.push(seed_arg);
        match self.raw_call(EntryPoint::Run, &args) {
            Ok(Some(h)) => {
                self.trace = Ghost(
                    self.trace@.push(
                        BoundaryOp::Invoke {
                            red_ptr: self.red_ptr,
                            red_len: red_len_arg,
                            blue_ptr: self.blue_ptr,
                            blue_len: blue_len_arg,
                            seed,
                            handle: h,
                        },
                    ),
                );
                Ok(h)
            },
            Ok(None) => Err("the run entry point returned no handle".to_owned()),
            Err(m) => Err(m),
        }
    }

    /// Reads one result field through the selected accessor, logging the
    /// read with its handle, accessor and index.
    fn read_op(&mut self, which: EntryPoint, handle: i32, index: Option<i32>) -> (r: Result<
        i32,
        String,
    >)
        ensures
            final(self).red_offset() == old(self).red_offset(),
            final(self).red_size() == old(self).red_size(),
            final(self).blue_offset() == old(self).blue_offset(),
            final(self).blue_size() == old(self).blue_size(),
            match r {
                Ok(v) => final(self).ops() == old(self).ops().push(
                    BoundaryOp::Read { which, handle, index, value: v },
                ),
                Err(_) => final(self).ops() == old(self).ops(),
            },
    {
        let mut args: Vec<i32> = Vec::new();
        args.push(handle);
        match index {
            Some(i) => args.push(i),
            None => {},
        }
        match self.raw_call(which, &args) {
            Ok(Some(v)) => {
                self.trace = Ghost(
                    self.trace@.push(BoundaryOp::Read { which, handle, index, value: v }),
                );
                Ok(v)
            },
            Ok(None) => Err("a result accessor returned no value".to_owned()),
            Err(m) => Err(m),
        }
    }

    /// Releases a result handle, logging the release.
    fn release_op(&mut self, handle: i32) -> (r: Result<(), String>)
        ensures
            final(self).red_offset() == old(self).red_offset(),
            final(self).red_size() == old(self).red_size(),
            final(self).blue_offset() == old(self).blue_offset(),
            final(self).blue_size() == old(self).blue_size(),
            match r {
                Ok(_) => final(self).ops() == old(self).ops().push(
                    BoundaryOp::Release { handle },
                ),
                Err(_) => final(self).ops() == old(self).ops(),
            },
    {
        let mut args: Vec<i32> = Vec::new();
        args.push(handle);
        match self.raw_call(EntryPoint::Drop, &args) {
            Ok(_) => {
                self.trace = Ghost(self.trace@.push(BoundaryOp::Release { handle }));
                Ok(())
            },
            Err(m) => Err(m),
        }
    }
}

impl SnakeRuntime {
    /// Builds a worker's private boundary: compiles and instantiates the
    /// support module, binds the exported entry points, allocates one
    /// buffer per competitor inside the VM's linear memory and writes the
    /// competitors' bytecode there, once. On success the log shows exactly
    /// that setup — two allocations of the competitors' sizes and two
    /// writes of their bytes at the allocated offsets — and the stored
    /// descriptors are those allocation results. Any failure is fatal to
    /// setup and reported with its stage.
    pub fn new(runtime_wasm: &[u8], red_wasm: &[u8], blue_wasm: &[u8]) -> (r: Result<
        SnakeRuntime,
        SetupError,
    >)
        requires
            red_wasm@.len() <= 0x7fff_ffff,
            blue_wasm@.len() <= 0x7fff_ffff,
        ensures
            r is Ok ==> {
                let rt = r->Ok_0;
                &&& rt.red_size() == red_wasm@.len()
                &&& rt.blue_size() == blue_wasm@.len()
                &&& rt.ops() =~= seq![
                    BoundaryOp::Allocate {
                        size: red_wasm@.len() as u32,
                        offset: rt.red_offset(),
                    },
                    BoundaryOp::Allocate {
                        size: blue_wasm@.len() as u32,
                        offset: rt.blue_offset(),
                    },
                    BoundaryOp::Write { offset: rt.red_offset(), bytes: red_wasm@ },
                    BoundaryOp::Write { offset: rt.blue_offset(), bytes: blue_wasm@ },
                ]
            },
    {
        let mut store = boundary::new_store();
        let module = match boundary::compile_module(&store, runtime_wasm) {
            Ok(m) => m,
            Err(e) => return Err(SetupError::Compile(e)),
        };
        let instance = match boundary::instantiate(&mut store, &module) {
            Ok(i) => i,
            Err(e) => return Err(SetupError::Instantiate(e)),
        };
        let alloc_fn = match boundary::export_function(&instance, "allocate_bytes") {
            Ok(f) => f,
            Err(e) => return Err(SetupError::MissingExport(e)),
        };
        let run_fn = match boundary::export_function(&instance, "run_game") {
            Ok(f) => f,
            Err(e) => return Err(SetupError::MissingExport(e)),
        };
        let winner_fn = match boundary::export_function(&instance, "result_get_winner") {
            Ok(f) => f,
            Err(e) => return Err(SetupError::MissingExport(e)),
        };
        let ticks_fn = match boundary::export_function(&instance, "result_get_ticks") {
            Ok(f) => f,
            Err(e) => return Err(SetupError::MissingExport(e)),
        };
        let cycles_fn = match boundary::export_function(&instance, "result_get_cycles") {
            Ok(f) => f,
            Err(e) => return Err(SetupError::MissingExport(e)),
        };
        let reason_len_fn = match boundary::export_function(&instance, "result_get_reason_len") {
            Ok(f) => f,
            Err(e) => return Err(SetupError::MissingExport(e)),
        };
        let reason_byte_fn = match boundary::export_function(&instance, "result_get_reason_byte") {
            Ok(f) => f,
            Err(e) => return Err(SetupError::MissingExport(e)),
        };
        let drop_fn = match boundary::export_function(&instance, "result_drop") {
            Ok(f) => f,
            Err(e) => return Err(SetupError::MissingExport(e)),
        };

        let mut rt = SnakeRuntime {
            store,
            instance,
            red_ptr: 0,
            red_len: 0,
            blue_ptr: 0,
            blue_len: 0,
            alloc_fn,
            run_fn,
            winner_fn,
            ticks_fn,
            cycles_fn,
            reason_len_fn,
            reason_byte_fn,
            drop_fn,
            trace: Ghost(Seq::empty()),
        };

        let red_size: u32 = red_wasm.len() as u32;
        let blue_size: u32 = blue_wasm.len() as u32;
        let red_off = match rt.alloc_op(red_size) {
            Ok(o) => o,
            Err(e) => return Err(SetupError::AllocateFailed(e)),
        };
        let blue_off = match rt.alloc_op(blue_size) {
            Ok(o) => o,
            Err(e) => return Err(SetupError::AllocateFailed(e)),
        };
        match rt.write_op(red_off, red_wasm) {
            Ok(_) => {},
            Err(e) => return Err(SetupError::MemoryWrite(e)),
        }
        match rt.write_op(blue_off, blue_wasm) {
            Ok(_) => {},
            Err(e) => return Err(SetupError::MemoryWrite(e)),
        }
        rt.red_ptr = red_off;
        rt.red_len = red_size;
        rt.blue_ptr = blue_off;
        rt.blue_len = blue_size;
        proof {
            assert(rt.ops() =~= seq![
                BoundaryOp::Allocate { size: red_size, offset: red_off },
                BoundaryOp::Allocate { size: blue_size, offset: blue_off },
                BoundaryOp::Write { offset: red_off, bytes: red_wasm@ },
                BoundaryOp::Write { offset: blue_off, bytes: blue_wasm@ },
            ]);
        }
        Ok(rt)
    }

    /// Orchestrates one complete game: invokes the run entry point with
    /// the stored buffer descriptors — unchanged by the call, so every
    /// game of this instance reuses the same buffers — and the seed, reads
    /// the winner code (an invalid-competitor code becomes the matching
    /// error, never a winner), then the tick and cycle counts and the
    /// reason bytes, and releases the handle exactly once, after all
    /// reads, on the fair and the invalid paths alike. The appended log is
    /// a game transcript, and on success the result's fields are exactly
    /// what the reads returned. Even a game a trap cuts short appends a
    /// well-formed attempt: no read after a release, never two releases.
    #[verifier::loop_isolation(false)]
    pub fn run_game(&mut self, seed: u32) -> (r: Result<GameResult, RunError>)
        ensures
            old(self).ops().is_prefix_of(final(self).ops()),
            final(self).red_offset() == old(self).red_offset(),
            final(self).red_size() == old(self).red_size(),
            final(self).blue_offset() == old(self).blue_offset(),
            final(self).blue_size() == old(self).blue_size(),
            well_formed_attempt(appended(old(self).ops(), final(self).ops())),
            !(r is Err && r->Err_0 is CallFailed) ==> exists|h: i32|
                #[trigger] game_transcript(
                    appended(old(self).ops(), final(self).ops()),
                    seed,
                    h,
                ),
            !(r is Err && r->Err_0 is CallFailed) ==> invoked_with(
                appended(old(self).ops(), final(self).ops()),
                old(self).red_offset(),
                old(self).red_size() as i32,
                old(self).blue_offset(),
                old(self).blue_size() as i32,
            ),
            r is Ok ==> ok_extraction(appended(old(self).ops(), final(self).ops()), r->Ok_0),
            (r is Err && !(r->Err_0 is CallFailed)) ==> {
                let t = appended(old(self).ops(), final(self).ops());
                &&& t.len() == 3
                &&& decode_winner_spec(t[1]->Read_value) == Err::<Winner, RunError>(r->Err_0)
            },
    {
        let ghost pre = self.trace@;
        let h = match self.invoke_op(seed) {
            Ok(h) => h,
            Err(m) => {
                proof {
                    assert(appended(pre, self.trace@) =~= Seq::<BoundaryOp>::empty());
                    lemma_prefix(pre, self.trace@);
                }
                return Err(RunError::CallFailed(m));
            },
        };
        let ghost inv_op = self.trace@.last();

        let w_code = match self.read_op(EntryPoint::Winner, h, None) {
            Ok(v) => v,
            Err(m) => {
                let rel = self.release_op(h);
                proof {
                    if rel is Ok {
                        assert(appended(pre, self.trace@) =~= seq![
                            inv_op,
                            BoundaryOp::Release { handle: h },
                        ]);
                    } else {
                        assert(appended(pre, self.trace@) =~= seq![inv_op]);
                    }
                    assert(well_formed_attempt(appended(pre, self.trace@)));
                    lemma_prefix(pre, self.trace@);
                }
                return Err(RunError::CallFailed(m));
            },
        };
        let ghost w_op = BoundaryOp::Read {
            which: EntryPoint::Winner,
            handle: h,
            index: None,
            value: w_code,
        };

        let winner = match decode_winner(w_code) {
            Ok(w) => w,
            Err(e) => {
                let rel = self.release_op(h);
                match rel {
                    Ok(_) => {
                        proof {
                            let t = appended(pre, self.trace@);
                            assert(t =~= seq![
                                inv_op,
                                w_op,
                                BoundaryOp::Release { handle: h },
                            ]);
                            assert(game_transcript(t, seed, h));
                            assert(well_formed_attempt(t));
                            lemma_prefix(pre, self.trace@);
                        }
                        return Err(e);
                    },
                    Err(m) => {
                        proof {
                            assert(appended(pre, self.trace@) =~= seq![inv_op, w_op]);
                            assert(well_formed_attempt(appended(pre, self.trace@)));
                            lemma_prefix(pre, self.trace@);
                        }
                        return Err(RunError::CallFailed(m));
                    },
                }
            },
        };

        let t_val = match self.read_op(EntryPoint::Ticks, h, None) {
            Ok(v) => v,
            Err(m) => {
                let _rel = self.release_op(h);
                proof {
                    assert(well_formed_attempt(appended(pre, self.trace@)));
                    lemma_prefix(pre, self.trace@);
                }
                return Err(RunError::CallFailed(m));
            },
        };
        let c_val = match self.read_op(EntryPoint::Cycles, h, None) {
            Ok(v) => v,
            Err(m) => {
                let _rel = self.release_op(h);
                proof {
                    assert(well_formed_attempt(appended(pre, self.trace@)));
                    lemma_prefix(pre, self.trace@);
                }
                return Err(RunError::CallFailed(m));
            },
        };
        let len_val = match self.read_op(EntryPoint::ReasonLen, h, None) {
            Ok(v) => v,
            Err(m) => {
                let _rel = self.release_op(h);
                proof {
                    assert(well_formed_attempt(appended(pre, self.trace@)));
                    lemma_prefix(pre, self.trace@);
                }
                return Err(RunError::CallFailed(m));
            },
        };

        let ghost head = self.trace@;
        let ghost byte_count: int = if len_val >= 0 {
            len_val as int
        } else {
            0
        };
        proof {
            assert(head.len() == pre.len() + 5);
            assert(forall|j: int| 0 <= j < pre.len() ==> head[j] == pre[j]);
            assert(head[pre.len() as int] == inv_op);
            assert(head[pre.len() as int + 1] == w_op);
            assert(head[pre.len() as int + 2] == (BoundaryOp::Read {
                which: EntryPoint::Ticks,
                handle: h,
                index: None,
                value: t_val,
            }));
            assert(head[pre.len() as int + 3] == (BoundaryOp::Read {
                which: EntryPoint::Cycles,
                handle: h,
                index: None,
                value: c_val,
            }));
            assert(head[pre.len() as int + 4] == (BoundaryOp::Read {
                which: EntryPoint::ReasonLen,
                handle: h,
                index: None,
                value: len_val,
            }));
        }

        let mut bytes: Vec<u8> = Vec::new();
        let mut i: i32 = 0;
        while i < len_val
            invariant
                0 <= i <= byte_count,
                byte_count == if len_val >= 0 {
                    len_val as int
                } else {
                    0
                },
                bytes@.len() == i as int,
                self.trace@.len() == head.len() + i as int,
                forall|j: int| 0 <= j < head.len() ==> self.trace@[j] == head[j],
                forall|j: int|
                    0 <= j < i as int ==> {
                        let op = #[trigger] self.trace@[head.len() as int + j];
                        &&& op is Read
                        &&& op->Read_which == EntryPoint::ReasonByte
                        &&& op->Read_handle == h
                        &&& op->Read_index == Some(j as i32)
                        &&& op->Read_value as u8 == bytes@[j]
                    },
                self.red_offset() == old(self).red_offset(),
                self.red_size() == old(self).red_size(),
                self.blue_offset() == old(self).blue_offset(),
                self.blue_size() == old(self).blue_size(),
            decreases byte_count - i,
        {
            match self.read_op(EntryPoint::ReasonByte, h, Some(i)) {
                Ok(b) => {
                    let bv: u8 = #[verifier::truncate] (b as u8);
                    bytes.push(bv);
                    i = i + 1;
                },
                Err(m) => {
                    let ghost tl = self.trace@;
                    let _rel = self.release_op(h);
                    proof {
                        let app = appended(pre, self.trace@);
                        assert forall|k: int| 0 <= k < app.len() implies {
                            &&& (k >= 1 ==> !((#[trigger] app[k]) is Invoke))
                            &&& (app[k] is Release ==> k == app.len() - 1)
                            &&& (k == 0 ==> app[k] is Invoke)
                        } by {
                            assert(app[k] == self.trace@[pre.len() + k]);
                            if pre.len() + k < tl.len() {
                                assert(self.trace@[pre.len() + k] == tl[pre.len() + k]);
                                if k < 5 {
                                    assert(tl[pre.len() + k] == head[pre.len() + k]);
                                } else {
                                    assert(tl[head.len() as int + (k - 5)] is Read);
                                }
                            }
                        }
                        assert(well_formed_attempt(app));
                        lemma_prefix(pre, self.trace@);
                    }
                    return Err(RunError::CallFailed(m));
                },
            }
        }

        let reason = reason_from_bytes(&bytes);
        match self.release_op(h) {
            Ok(_) => {},
            Err(m) => {
                proof {
                    let app = appended(pre, self.trace@);
                    assert forall|k: int| 0 <= k < app.len() implies {
                        &&& (k >= 1 ==> !((#[trigger] app[k]) is Invoke))
                        &&& (app[k] is Release ==> k == app.len() - 1)
                        &&& (k == 0 ==> app[k] is Invoke)
                    } by {
                        assert(app[k] == self.trace@[pre.len() + k]);
                        if k < 5 {
                            assert(self.trace@[pre.len() + k] == head[pre.len() + k]);
                        } else {
                            assert(self.trace@[head.len() as int + (k - 5)] is Read);
                        }
                    }
                    assert(well_formed_attempt(app));
                    lemma_prefix(pre, self.trace@);
                }
                return Err(RunError::CallFailed(m));
            },
        }

        let tick: u32 = #[verifier::truncate] (t_val as u32);
        let cycle: u32 = #[verifier::truncate] (c_val as u32);
        let g = GameResult { winner, tick, cycle, lose_reason: reason };
        proof {
            let tr = self.trace@;
            let t = appended(pre, tr);
            assert(tr.len() == pre.len() + 6 + byte_count);
            assert(t.len() == 6 + byte_count);
            assert(t[0] == inv_op);
            assert(t[1] == w_op);
            assert(t[4] == (BoundaryOp::Read {
                which: EntryPoint::ReasonLen,
                handle: h,
                index: None,
                value: len_val,
            }));
            assert(t.last() == (BoundaryOp::Release { handle: h }));
            assert forall|k: int| 1 <= k < t.len() - 1 implies (#[trigger] t[k]) is Read
                && t[k]->Read_handle == h by {
                assert(t[k] == tr[pre.len() as int + k]);
                if k < 5 {
                    assert(tr[pre.len() as int + k] == head[pre.len() as int + k]);
                } else {
                    assert(tr[head.len() as int + (k - 5)] is Read);
                }
            }
            assert(game_transcript(t, seed, h));
            assert(well_formed_attempt(t));
            assert(invoked_with(
                t,
                old(self).red_offset(),
                old(self).red_size() as i32,
                old(self).blue_offset(),
                old(self).blue_size() as i32,
            ));
            assert(reason_bytes_of(t) =~= bytes@) by {
                assert forall|j: int| 0 <= j < byte_count implies t[5 + j]->Read_value as u8
                    == bytes@[j] by {
                    assert(t[5 + j] == tr[head.len() as int + j]);
                }
            }
            assert forall|j: int| 0 <= j < t.len() - 6 implies (#[trigger] t[5 + j])->Read_which
                == EntryPoint::ReasonByte && t[5 + j]->Read_index == Some(j as i32) by {
                assert(t[5 + j] == tr[head.len() as int + j]);
            }
            assert(g.lose_reason@ == boundary::utf8_lossy_of(reason_bytes_of(t)));
            if byte_count == 0 {
                assert(bytes@.len() == 0);
                assert(g.lose_reason@.len() == 0);
            }
            assert(ok_extraction(t, g));
            lemma_prefix(pre, tr);
        }
        Ok(g)
    }
}

} // verus!
