//! The delta-rule recurrence as one kernel: what it accepts, and how it is
//! launched.
use crate::device::{DType, Device};
use crate::error::{tensor_error, Failure, SystemOneError};
use crate::tensor::{
    copy_numbers, dim_error, dim_failure, elements_three, elements_two, rank_error, rank_failure, Grid,
    Launch, Span, TensorInfo,
};
use crate::text::{decimal, decimal_text};
use vstd::prelude::*;
use vstd::string::StringExecFns;

verus! {

/// A recurrence with its gates, and the state it starts from.
#[derive(Debug)]
pub struct DeltaRule {
    pub beta: TensorInfo,
    pub decay: TensorInfo,
    pub is_parallel: bool,
    pub initial_state: Option<TensorInfo>,
    pub should_save_state: bool,
}

/// A launch of the recurrence, the state it starts from, and the shape of what
/// it writes.
#[derive(Debug)]
pub struct DeltaLaunch {
    pub launch: Launch,
    pub initial_state: Option<Span>,
    pub shape: Vec<usize>,
}

/// Where output and state stand in what a recurrence wrote.
#[derive(Debug)]
pub struct DeltaParts {
    pub output: Span,
    pub state: Span,
    pub state_dims: Vec<usize>,
}

/// How many elements the states of all heads have.
pub open spec fn state_count(query: &TensorInfo, value: &TensorInfo) -> nat {
    query.dims@[1] as nat * query.dims@[2] as nat * value.dims@[2] as nat
}

impl DeltaRule {
    /// The tensors can be measured.
    pub open spec fn wf(&self) -> bool {
        &&& self.beta.wf()
        &&& self.decay.wf()
        &&& self.initial_state matches Some(state) ==> state.wf()
    }

    /// The dimensions belong together and the kernel can handle them.
    pub open spec fn dims_fit(
        &self,
        query: &TensorInfo,
        key: &TensorInfo,
        value: &TensorInfo,
    ) -> bool {
        let (seq, heads, key_dim) = (query.dims@[0], query.dims@[1], query.dims@[2]);
        let value_dim = value.dims@[2];
        &&& seq > 0
        &&& heads > 0
        &&& key_dim == 128
        &&& 0 < value_dim <= 1024
        &&& self.is_parallel ==> value_dim == 128
        &&& key.dims@ == query.dims@
        &&& value.dims@[0] == seq
        &&& value.dims@[1] == heads
        &&& self.beta.dims@ == seq![seq, heads]
        &&& self.decay.dims@ == seq![seq, heads]
        &&& query.count() <= u32::MAX
        &&& (seq + key_dim) * heads * value_dim <= u32::MAX
    }

    /// The state to start from suits the dimensions.
    pub open spec fn state_fits(&self, query: &TensorInfo, value: &TensorInfo) -> bool {
        self.initial_state matches Some(state) ==> {
            &&& state.dims@ == seq![query.dims@[1], query.dims@[2], value.dims@[2]]
            &&& state.dtype == DType::F32
            &&& state.beside(query)
        }
    }

    /// Everything is in one piece, of one type and on one CUDA device.
    pub open spec fn placed(
        &self,
        query: &TensorInfo,
        key: &TensorInfo,
        value: &TensorInfo,
    ) -> bool {
        &&& query.device == Device::Cuda
        &&& query.plain(DType::F32, query)
        &&& key.plain(DType::F32, query)
        &&& value.plain(DType::F32, query)
        &&& self.beta.plain(DType::F32, query)
        &&& self.decay.plain(DType::F32, query)
        &&& self.initial_state matches Some(state) ==> state.plain(DType::F32, query)
    }

    /// Why the kernel cannot be applied.
    pub open spec fn failure(
        &self,
        query: &TensorInfo,
        key: &TensorInfo,
        value: &TensorInfo,
    ) -> Option<Failure> {
        if query.dims@.len() != 3 {
            Some(rank_failure(3, query.dims@))
        } else if value.dims@.len() != 3 {
            Some(rank_failure(3, value.dims@))
        } else if !self.dims_fit(query, key, value) {
            Some(
                Failure::Candle(
                    "delta-rule kernel requires matching nonempty dimensions, key_dim 128 and value_dim fitting one block"@,
                ),
            )
        } else if !self.state_fits(query, value) {
            Some(
                Failure::Candle(
                    "delta-rule state has incompatible shape, dtype or device"@,
                ),
            )
        } else if !self.placed(query, key, value) {
            Some(
                Failure::Candle(
                    "delta-rule kernel requires contiguous F32 inputs on one CUDA device"@,
                ),
            )
        } else {
            None
        }
    }

    /// Whether the dimensions belong together and the kernel can handle them.
    fn do_dims_fit(&self, query: &TensorInfo, key: &TensorInfo, value: &TensorInfo) -> (yes: bool)
        requires
            query.wf(),
            query.dims@.len() == 3,
            value.dims@.len() == 3,
        ensures
            yes == self.dims_fit(query, key, value),
    {
        let seq: usize = query.dims[0];
        let heads: usize = query.dims[1];
        let key_dim: usize = query.dims[2];
        let value_dim: usize = value.dims[2];
        if seq == 0 || heads == 0 || key_dim != 128 || value_dim == 0 || value_dim > 1024 || (
        self.is_parallel && value_dim != 128) || !key.same_dims(query) || value.dims[0] != seq
            || value.dims[1] != heads || !self.beta.is_matrix(seq, heads) || !self.decay.is_matrix(
            seq,
            heads,
        ) {
            return false;
        }
        let count: usize = query.elem_count();
        if count as u64 > u32::MAX as u64 {
            return false;
        }
        proof {
            elements_three(query.dims@);
            assert(seq * heads <= 0x200_0000) by (nonlinear_arith)
                requires
                    seq * heads * 128 <= 0xffff_ffff,
            ;
            assert(heads <= seq * heads && seq <= seq * heads) by (nonlinear_arith)
                requires
                    seq > 0,
                    heads > 0,
            ;
            assert(0 <= (seq + key_dim) * heads) by (nonlinear_arith)
                requires
                    seq >= 0,
                    key_dim >= 0,
                    heads >= 0,
            ;
            assert((seq + key_dim) * heads == seq * heads + key_dim * heads) by (nonlinear_arith);
            assert(key_dim * heads == 128 * heads);
            assert((seq + key_dim) * heads <= 129 * 0x200_0000);
            assert((seq + key_dim) * heads * value_dim <= 129 * 0x200_0000 * 1024)
                by (nonlinear_arith)
                requires
                    0 <= (seq + key_dim) * heads <= 129 * 0x200_0000,
                    0 <= value_dim <= 1024,
            ;
        }
        let rows: u64 = (seq as u64 + key_dim as u64) * heads as u64;
        rows * value_dim as u64 <= u32::MAX as u64
    }

    /// Whether the state to start from suits the dimensions.
    fn does_state_fit(&self, query: &TensorInfo, value: &TensorInfo) -> (yes: bool)
        requires
            query.dims@.len() == 3,
            value.dims@.len() == 3,
        ensures
            yes == self.state_fits(query, value),
    {
        match &self.initial_state {
            Some(state) => state.is_cube(query.dims[1], query.dims[2], value.dims[2])
                && state.dtype == DType::F32 && state.same_device(query),
            None => true,
        }
    }

    /// Whether everything is in one piece, of one type and on one CUDA device.
    fn is_placed(&self, query: &TensorInfo, key: &TensorInfo, value: &TensorInfo) -> (yes: bool)
        ensures
            yes == self.placed(query, key, value),
    {
        let state_placed = match &self.initial_state {
            Some(state) => state.is_plain(DType::F32, query),
            None => true,
        };
        query.device == Device::Cuda && query.is_plain(DType::F32, query) && key.is_plain(
            DType::F32,
            query,
        ) && value.is_plain(DType::F32, query) && self.beta.is_plain(DType::F32, query)
            && self.decay.is_plain(DType::F32, query) && state_placed
    }

    /// Accepts what the kernel is to be applied to.
    pub fn apply(&self, query: &TensorInfo, key: &TensorInfo, value: &TensorInfo) -> (result: Result<
        (),
        SystemOneError,
    >)
        requires
            query.wf(),
        ensures
            match result {
                Ok(_) => self.failure(query, key, value) is None,
                Err(e) => self.failure(query, key, value) == Some(e@),
            },
    {
        if query.dims.len() != 3 {
            return Err(rank_error(3, &query.dims));
        }
        if value.dims.len() != 3 {
            return Err(rank_error(3, &value.dims));
        }
        if !self.do_dims_fit(query, key, value) {
            return Err(
                tensor_error(
                    "delta-rule kernel requires matching nonempty dimensions, key_dim 128 and value_dim fitting one block",
                ),
            );
        }
        if !self.does_state_fit(query, value) {
            return Err(tensor_error("delta-rule state has incompatible shape, dtype or device"));
        }
        if !self.is_placed(query, key, value) {
            return Err(
                tensor_error("delta-rule kernel requires contiguous F32 inputs on one CUDA device"),
            );
        }
        Ok(())
    }

    /// The kernel's name.
    pub open spec fn kernel_name(&self) -> Seq<char> {
        if self.is_parallel {
            "apply_delta_rule_parallel_f32"@
        } else {
            "apply_delta_rule_f32"@
        }
    }

    /// The kernel to load.
    pub fn kernel(&self) -> (name: &'static str)
        ensures
            name@ == self.kernel_name(),
    {
        if self.is_parallel {
            "apply_delta_rule_parallel_f32"
        } else {
            "apply_delta_rule_f32"
        }
    }

    /// How many columns of the values a block handles.
    pub open spec fn columns(&self, value_dim: usize) -> usize {
        if self.is_parallel {
            32
        } else {
            value_dim
        }
    }

    /// How many threads a block has.
    pub open spec fn threads(&self, value_dim: usize) -> usize {
        if self.is_parallel {
            256
        } else {
            value_dim
        }
    }

    /// How many elements of states are written.
    pub open spec fn saved(&self, query: &TensorInfo, value: &TensorInfo) -> nat {
        if self.should_save_state {
            state_count(query, value)
        } else {
            0
        }
    }

    /// A launch covers the operands, every head and every column.
    pub open spec fn launches(
        &self,
        query: &TensorInfo,
        key: &TensorInfo,
        value: &TensorInfo,
        plan: DeltaLaunch,
    ) -> bool {
        let value_dim = value.dims@[2];
        &&& plan.launch.has(
            self.kernel_name(),
            seq![
                query.span(query.count()),
                key.span(key.count()),
                value.span(value.count()),
                self.beta.span(self.beta.count()),
                self.decay.span(self.decay.count()),
            ],
            value.count() + self.saved(query, value),
            seq![
                query.dims@[0] as u32,
                query.dims@[1] as u32,
                value_dim as u32,
                if self.should_save_state {
                    1
                } else {
                    0
                },
            ],
            Grid {
                blocks: (
                    query.dims@[1] as u32,
                    (value_dim as int / self.columns(value_dim) as int) as u32,
                    1,
                ),
                threads: (self.threads(value_dim) as u32, 1, 1),
            },
        )
        &&& plan.initial_state == match self.initial_state {
            Some(state) => Some(state.span(state_count(query, value))),
            None => None,
        }
        &&& plan.shape@ == if self.should_save_state {
            seq![(value.count() + state_count(query, value)) as usize]
        } else {
            value.dims@
        }
    }

    /// Lays out a launch. `max_threads` is how many threads a block of the
    /// loaded kernel can have.
    pub fn cuda_fwd(
        &self,
        query: &TensorInfo,
        key: &TensorInfo,
        value: &TensorInfo,
        max_threads: usize,
    ) -> (result: Result<DeltaLaunch, SystemOneError>)
        requires
            self.wf(),
            query.wf(),
            key.wf(),
            value.wf(),
            self.failure(query, key, value) is None,
        ensures
            match result {
                Ok(plan) => self.threads(value.dims@[2]) <= max_threads && self.launches(
                    query,
                    key,
                    value,
                    plan,
                ),
                Err(e) => self.threads(value.dims@[2]) > max_threads && e@ == Failure::Candle(
                    "delta-rule block size "@ + decimal(self.threads(value.dims@[2]) as nat)
                        + " exceeds the kernel's block limit "@ + decimal(max_threads as nat),
                ),
            },
    {
        let seq: usize = query.dims[0];
        let heads: usize = query.dims[1];
        let key_dim: usize = query.dims[2];
        let value_dim: usize = value.dims[2];
        let columns: usize = if self.is_parallel {
            32
        } else {
            value_dim
        };
        let threads: usize = if self.is_parallel {
            256
        } else {
            value_dim
        };
        if threads > max_threads {
            let mut message = "delta-rule block size ".to_owned();
            message.append(decimal_text(threads).as_str());
            message.append(" exceeds the kernel's block limit ");
            message.append(decimal_text(max_threads).as_str());
            return Err(tensor_error(message.as_str()));
        }
        let key_count: usize = query.elem_count();
        let value_count: usize = value.elem_count();
        let gate_count: usize = self.beta.elem_count();
        proof {
            counts_fit(query, value);
            elements_two(self.beta.dims@);
            elements_two(self.decay.dims@);
        }
        let states: usize = heads * key_dim * value_dim;
        let initial_state: Option<Span> = match &self.initial_state {
            Some(state) => {
                proof {
                    elements_three(state.dims@);
                }
                Some(state.first(states))
            },
            None => None,
        };
        let output: usize = if self.should_save_state {
            value_count + states
        } else {
            value_count
        };
        let inputs: Vec<Span> = vec![
            query.first(key_count),
            key.first(key_count),
            value.first(value_count),
            self.beta.first(gate_count),
            self.decay.first(gate_count),
        ];
        let save: u32 = if self.should_save_state {
            1
        } else {
            0
        };
        let numbers: Vec<u32> = vec![seq as u32, heads as u32, value_dim as u32, save];
        let shape: Vec<usize> = if self.should_save_state {
            vec![output]
        } else {
            copy_numbers(&value.dims)
        };
        let launch = Launch {
            kernel: self.kernel(),
            inputs,
            output,
            numbers,
            grid: Grid {
                blocks: (heads as u32, (value_dim / columns) as u32, 1),
                threads: (threads as u32, 1, 1),
            },
        };
        let plan = DeltaLaunch { launch, initial_state, shape };
        proof {
            assert(value.count() + state_count(query, value) <= u32::MAX);
            assert(plan.launch.numbers@ =~= seq![
                query.dims@[0] as u32,
                query.dims@[1] as u32,
                value_dim as u32,
                if self.should_save_state {
                    1u32
                } else {
                    0u32
                },
            ]);
            if self.should_save_state {
                assert(plan.shape@ =~= seq![(value.count() + state_count(query, value)) as usize]);
            }
            assert(plan.launch.inputs@ =~= seq![
                query.span(query.count()),
                key.span(key.count()),
                value.span(value.count()),
                self.beta.span(self.beta.count()),
                self.decay.span(self.decay.count()),
            ]);
        }
        Ok(plan)
    }
}

/// What an accepted recurrence reads and writes can be counted.
proof fn counts_fit(query: &TensorInfo, value: &TensorInfo)
    requires
        query.dims@.len() == 3,
        value.dims@.len() == 3,
        query.dims@[0] > 0,
        query.dims@[1] > 0,
        query.dims@[2] == 128,
        value.dims@[2] > 0,
        value.dims@[0] == query.dims@[0],
        value.dims@[1] == query.dims@[1],
        (query.dims@[0] + query.dims@[2]) * query.dims@[1] * value.dims@[2] <= u32::MAX,
    ensures
        value.count() + state_count(query, value) == (query.dims@[0] + query.dims@[2])
            * query.dims@[1] * value.dims@[2],
        query.dims@[0] <= u32::MAX,
        query.dims@[1] <= u32::MAX,
        0 <= query.dims@[1] * query.dims@[2] <= u32::MAX,
        state_count(query, value) <= u32::MAX,
{
    elements_three(value.dims@);
    let (s, h, k) = (query.dims@[0] as int, query.dims@[1] as int, query.dims@[2] as int);
    let v = value.dims@[2] as int;
    assert((s + k) * h * v == s * h * v + h * k * v) by (nonlinear_arith);
    assert(s * h * v >= 0) by (nonlinear_arith)
        requires
            s >= 0,
            h >= 0,
            v >= 0,
    ;
    assert(h * k >= 0) by (nonlinear_arith)
        requires
            h >= 0,
            k >= 0,
    ;
    assert(h * k <= h * k * v) by (nonlinear_arith)
        requires
            h * k >= 0,
            v > 0,
    ;
    assert(s <= s * h * v) by (nonlinear_arith)
        requires
            s > 0,
            h > 0,
            v > 0,
    ;
    assert(h <= h * k * v) by (nonlinear_arith)
        requires
            h > 0,
            k > 0,
            v > 0,
    ;
}

/// Checks and lays out the recurrence over a whole sequence. The kernel with
/// parallel reductions serves 128 value columns.
pub fn apply_delta_rule(
    query: &TensorInfo,
    key: &TensorInfo,
    value: &TensorInfo,
    beta: TensorInfo,
    decay: TensorInfo,
) -> (result: Result<DeltaRule, SystemOneError>)
    requires
        query.wf(),
        beta.wf(),
        decay.wf(),
    ensures
        ({
            let rule = DeltaRule {
                beta,
                decay,
                is_parallel: value.dims@[2] == 128,
                initial_state: None,
                should_save_state: false,
            };
            match result {
                Ok(r) => value.dims@.len() > 2 && r == rule && rule.failure(query, key, value)
                    is None && rule.wf(),
                Err(e) => if value.dims@.len() <= 2 {
                    e@ == dim_failure(2, value.dims@)
                } else {
                    rule.failure(query, key, value) == Some(e@)
                },
            }
        }),
{
    if value.dims.len() <= 2 {
        return Err(dim_error(2, &value.dims));
    }
    let rule = DeltaRule {
        beta,
        decay,
        is_parallel: value.dims[2] == 128,
        initial_state: None,
        should_save_state: false,
    };
    match rule.apply(query, key, value) {
        Ok(_) => Ok(rule),
        Err(e) => Err(e),
    }
}

/// Checks and lays out the recurrence from a state, keeping the last state.
pub fn apply_delta_rule_with_state(
    query: &TensorInfo,
    key: &TensorInfo,
    value: &TensorInfo,
    beta: TensorInfo,
    decay: TensorInfo,
    initial_state: Option<TensorInfo>,
) -> (result: Result<DeltaRule, SystemOneError>)
    requires
        query.wf(),
        beta.wf(),
        decay.wf(),
        initial_state matches Some(state) ==> state.wf(),
    ensures
        ({
            let rule = DeltaRule {
                beta,
                decay,
                is_parallel: value.dims@[2] == 128,
                initial_state,
                should_save_state: true,
            };
            match result {
                Ok(r) => value.dims@.len() > 2 && r == rule && rule.failure(query, key, value)
                    is None && rule.wf(),
                Err(e) => if value.dims@.len() <= 2 {
                    e@ == dim_failure(2, value.dims@)
                } else {
                    rule.failure(query, key, value) == Some(e@)
                },
            }
        }),
{
    if value.dims.len() <= 2 {
        return Err(dim_error(2, &value.dims));
    }
    let rule = DeltaRule {
        beta,
        decay,
        is_parallel: value.dims[2] == 128,
        initial_state,
        should_save_state: true,
    };
    match rule.apply(query, key, value) {
        Ok(_) => Ok(rule),
        Err(e) => Err(e),
    }
}

/// Finds output and states in what a recurrence wrote that kept its state.
pub fn split_output_and_state(value: &TensorInfo, key_dim: usize) -> (parts: DeltaParts)
    requires
        value.wf(),
        value.dims@.len() == 3,
        value.dims@[1] * key_dim <= usize::MAX,
        value.count() + value.dims@[1] * key_dim * value.dims@[2] <= usize::MAX,
    ensures
        parts.output == (Span { start: 0, end: value.count() as usize }),
        parts.state == (Span {
            start: value.count() as usize,
            end: (value.count() + value.dims@[1] * key_dim * value.dims@[2]) as usize,
        }),
        parts.state_dims@ == seq![value.dims@[1], key_dim, value.dims@[2]],
{
    let heads: usize = value.dims[1];
    let value_dim: usize = value.dims[2];
    let count: usize = value.elem_count();
    let states: usize = heads * key_dim * value_dim;
    DeltaParts {
        output: Span { start: 0, end: count },
        state: Span { start: count, end: count + states },
        state_dims: vec![heads, key_dim, value_dim],
    }
}

/// A recurrence that keeps its state writes the output, then the states, and
/// nothing else: the two parts meet and together are all that was written.
pub proof fn saved_states_follow_the_output(
    rule: DeltaRule,
    query: &TensorInfo,
    key: &TensorInfo,
    value: &TensorInfo,
    plan: DeltaLaunch,
    parts: DeltaParts,
)
    requires
        rule.should_save_state,
        rule.failure(query, key, value) is None,
        rule.launches(query, key, value, plan),
        parts.output == (Span { start: 0, end: value.count() as usize }),
        parts.state == (Span {
            start: value.count() as usize,
            end: (value.count() + value.dims@[1] * query.dims@[2] * value.dims@[2]) as usize,
        }),
    ensures
        parts.output.start == 0,
        parts.output.end == parts.state.start,
        parts.state.end == plan.launch.output,
        plan.launch.output == (query.dims@[0] + query.dims@[2]) * query.dims@[1] * value.dims@[2],
{
    counts_fit(query, value);
}

/// The blocks of a launch cover every column of the values exactly once.
pub proof fn blocks_cover_every_column(
    rule: DeltaRule,
    query: &TensorInfo,
    key: &TensorInfo,
    value: &TensorInfo,
    plan: DeltaLaunch,
)
    requires
        rule.failure(query, key, value) is None,
        rule.launches(query, key, value, plan),
    ensures
        plan.launch.grid.blocks.1 * rule.columns(value.dims@[2]) == value.dims@[2],
        plan.launch.grid.blocks.0 == query.dims@[1],
{
    counts_fit(query, value);
    let v = value.dims@[2] as int;
    let c = rule.columns(value.dims@[2]) as int;
    if rule.is_parallel {
        assert(c == 32 && v == 128);
        assert(128int / 32int == 4);
        assert(4u32 * c == 128);
    } else {
        assert(v / v == 1) by (nonlinear_arith)
            requires
                v > 0,
        ;
        assert(plan.launch.grid.blocks.1 == 1);
        assert(1 * c == c);
    }
}

} // verus!
