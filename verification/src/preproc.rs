//! Chart preprocessor: decides which lines of a chart file count, by the blocks of its control
//! flow commands.

use rand::rngs::StdRng;
use vstd::prelude::*;
use crate::random::draw_between;

verus! {

/// Represents one line of a command that may affect the control flow.
#[derive(Clone, Copy, Debug, PartialEq, Eq)]
pub enum BmsFlowCommand {
    /// `#RANDOM`
    BmsRandom(i64),
    /// `#SETRANDOM`
    BmsSetRandom(i64),
    /// `#ENDRANDOM`
    BmsEndRandom,
    /// `#IF`
    BmsIf(i64),
    /// `#ELSEIF`
    BmsElseIf(i64),
    /// `#ELSE`
    BmsElse,
    /// `#ENDIF`
    BmsEndIf,
    /// `#SWITCH`
    BmsSwitch(i64),
    /// `#SETSWITCH`
    BmsSetSwitch(i64),
    /// `#ENDSW`
    BmsEndSw,
    /// `#CASE`
    BmsCase(i64),
    /// `#SKIP`
    BmsSkip,
    /// `#DEF`
    BmsDef,
}

/// A message of the preprocessor to the one who feeds it.
#[derive(Clone, Copy, Debug, PartialEq, Eq, Structural)]
pub enum BmsMessage {
    /// The command belongs to a kind of control flow that is not implemented.
    BmsHasUnimplementedFlow,
}

/// The state of the block, for determining which lines should be processed.
#[derive(Clone, Copy, Debug, PartialEq, Eq, Structural)]
pub enum BlockState {
    /// Not contained in the #IF block.
    Outside,
    /// Active.
    Process,
    /// Inactive, but (for the purpose of #IF/#ELSEIF/#ELSE/#ENDIF structure) can move to
    /// `Process` state when matching clause appears.
    Ignore,
    /// Inactive and won't be processed until the end of block.
    NoFurther,
}

impl BlockState {
    /// True in the two inactive states.
    pub open spec fn inactive_spec(self) -> bool {
        self is Ignore || self is NoFurther
    }

    /// Returns true if lines should be ignored in the current block given that the parent
    /// block was active.
    pub fn inactive(self) -> (r: bool)
        ensures
            r == self.inactive_spec(),
    {
        match self {
            BlockState::Outside | BlockState::Process => false,
            BlockState::Ignore | BlockState::NoFurther => true,
        }
    }
}

/// Block information. The parser keeps a list of nested blocks and determines if
/// a particular line should be processed or not.
///
/// Only one kind of blocks is recognized, starting with #RANDOM or #SETRANDOM and ending with
/// #ENDRANDOM or #END(IF) outside an #IF block. An #IF block is a state within #RANDOM, so it
/// follows that #RANDOM/#SETRANDOM blocks can nest but #IF can't nest unless its direct parent
/// is #RANDOM/#SETRANDOM.
#[derive(Clone, Copy, Debug, PartialEq, Eq)]
pub struct Block {
    /// A generated value if any. It can be `None` if this block is the topmost one (which
    /// is actually not a block but rather a sentinel) or the last `#RANDOM` or `#SETRANDOM`
    /// command was invalid, and #IF in that case will always evaluates to false.
    pub val: Option<i64>,
    /// The state of the block.
    pub state: BlockState,
    /// True if the parent block is already ignored so that this block should be ignored
    /// no matter what `state` is.
    pub skip: bool,
}

/// A generic chart preprocessor. `T` is normally a command, but there is no restriction.
pub struct Preprocessor<T> {
    /// The current block informations.
    blocks: Vec<Block>,
    /// Random number generator.
    r: StdRng,
    /// The messages so far, each with the number of its line if that is known.
    messages: Vec<(Option<usize>, BmsMessage)>,
    /// The commands are not kept: they go to the result at once.
    marker: core::marker::PhantomData<T>,
}

/// The blocks before any command: the sentinel alone.
pub open spec fn initial_blocks() -> Seq<Block> {
    seq![Block { val: None, state: BlockState::Outside, skip: false }]
}

/// True if a command at this position is ignored.
pub open spec fn inactive_in(blocks: Seq<Block>) -> bool {
    blocks.last().skip || blocks.last().state.inactive_spec()
}

/// The index of the last block that is not outside an #IF block, or -1 if there is none.
pub open spec fn last_inside(blocks: Seq<Block>) -> int
    decreases blocks.len(),
{
    if blocks.len() == 0 {
        -1
    } else if !(blocks.last().state is Outside) {
        blocks.len() - 1
    } else {
        last_inside(blocks.drop_last())
    }
}

/// The blocks with the state of the last one replaced.
pub open spec fn with_state(blocks: Seq<Block>, state: BlockState) -> Seq<Block> {
    blocks.update(blocks.len() - 1, Block { state: state, ..blocks.last() })
}

/// The value of a command, if it is positive.
pub open spec fn positive(val: i64) -> Option<i64> {
    if val <= 0 {
        None
    } else {
        Some(val)
    }
}

/// The upper bound of the number that a command draws, if it draws one: a `#RANDOM` with
/// a positive value at an active position draws a number from 1 to its value.
pub open spec fn draws(blocks: Seq<Block>, flow: BmsFlowCommand) -> Option<i64> {
    match flow {
        BmsFlowCommand::BmsRandom(val) => if val > 0 && !inactive_in(blocks) {
            Some(val)
        } else {
            None
        },
        _ => None,
    }
}

/// The state of an #IF block after an `#IF` or `#ELSEIF` with the given value.
pub open spec fn branch_state(last: Block, val: i64, haspriorelse: bool) -> BlockState {
    if (!haspriorelse && !last.state.inactive_spec()) || last.state is Ignore {
        if positive(val) is None || positive(val) != last.val {
            BlockState::Ignore
        } else {
            BlockState::Process
        }
    } else {
        BlockState::NoFurther
    }
}

/// The blocks after a flow command, where `drawn` is the number drawn if the command draws
/// one.
pub open spec fn flow_step(blocks: Seq<Block>, flow: BmsFlowCommand, drawn: i64) -> Seq<Block> {
    match flow {
        BmsFlowCommand::BmsRandom(val) => blocks.push(
            Block {
                val: if val > 0 && !inactive_in(blocks) {
                    Some(drawn)
                } else {
                    None
                },
                state: BlockState::Outside,
                skip: inactive_in(blocks),
            },
        ),
        BmsFlowCommand::BmsSetRandom(val) => blocks.push(
            Block { val: positive(val), state: BlockState::Outside, skip: inactive_in(blocks) },
        ),
        BmsFlowCommand::BmsEndRandom => if blocks.len() > 1 {
            blocks.drop_last()
        } else {
            blocks
        },
        BmsFlowCommand::BmsIf(val) => with_state(blocks, branch_state(blocks.last(), val, false)),
        BmsFlowCommand::BmsElseIf(val) => with_state(
            blocks,
            branch_state(blocks.last(), val, true),
        ),
        BmsFlowCommand::BmsElse => with_state(
            blocks,
            if blocks.last().state is Ignore {
                BlockState::Process
            } else {
                BlockState::NoFurther
            },
        ),
        BmsFlowCommand::BmsEndIf => {
            let idx = last_inside(blocks);
            let kept = if idx > 0 {
                blocks.take(idx + 1)
            } else {
                blocks
            };
            with_state(kept, BlockState::Outside)
        },
        _ => blocks,
    }
}

/// True for the commands of the kinds of control flow that are not implemented.
pub open spec fn unimplemented_flow(flow: BmsFlowCommand) -> bool {
    flow is BmsSwitch || flow is BmsSetSwitch || flow is BmsEndSw || flow is BmsCase || flow is BmsSkip
        || flow is BmsDef
}

impl<T> Preprocessor<T> {
    /// The current blocks, the sentinel first.
    pub closed spec fn blocks(&self) -> Seq<Block> {
        self.blocks@
    }

    /// The messages so far.
    pub closed spec fn messages_spec(&self) -> Seq<(Option<usize>, BmsMessage)> {
        self.messages@
    }

    /// A preprocessor always has its sentinel block.
    pub closed spec fn wf(&self) -> bool {
        self.blocks@.len() >= 1
    }

    /// True if a command at this position is ignored.
    pub open spec fn inactive_spec(&self) -> bool {
        inactive_in(self.blocks())
    }

    /// Creates a new preprocessor with given RNG.
    pub fn new(r: StdRng) -> (pp: Preprocessor<T>)
        ensures
            pp.wf(),
            pp.blocks() == initial_blocks(),
            pp.messages_spec() == Seq::<(Option<usize>, BmsMessage)>::empty(),
            !pp.inactive_spec(),
    {
        let mut blocks: Vec<Block> = Vec::new();
        blocks.push(Block { val: None, state: BlockState::Outside, skip: false });
        assert(blocks@ =~= initial_blocks());
        Preprocessor {
            blocks: blocks,
            r: r,
            messages: Vec::new(),
            marker: core::marker::PhantomData,
        }
    }

    /// Returns true if any command which appears at this position should be ignored.
    pub fn inactive(&self) -> (r: bool)
        requires
            self.wf(),
        ensures
            r == self.inactive_spec(),
    {
        let last = self.blocks[self.blocks.len() - 1];
        last.skip || last.state.inactive()
    }

    /// Returns the messages so far, each with the number of its line if that is known.
    pub fn messages(&self) -> (m: &Vec<(Option<usize>, BmsMessage)>)
        ensures
            m@ == self.messages_spec(),
    {
        &self.messages
    }

    /// Adds the non-flow command (or any appropriate data) into the preprocessor.
    /// `result` has the command appended unless the position is inactive.
    pub fn feed_other(&mut self, cmd: T, result: &mut Vec<T>)
        requires
            old(self).wf(),
        ensures
            final(self).wf(),
            final(self).blocks() == old(self).blocks(),
            final(self).messages_spec() == old(self).messages_spec(),
            final(result)@ == if old(self).inactive_spec() {
                old(result)@
            } else {
                old(result)@.push(cmd)
            },
    {
        if !self.inactive() {
            result.push(cmd);
        }
    }

    /// Adds the flow command into the preprocessor, with the number drawn for it where it
    /// draws one. `result` is left as it is. A command of a kind of control flow that is not
    /// implemented changes nothing and leaves a message.
    pub fn feed_flow_with(
        &mut self,
        lineno: Option<usize>,
        flow: &BmsFlowCommand,
        drawn: i64,
        _result: &mut Vec<T>,
    )
        requires
            old(self).wf(),
        ensures
            final(self).wf(),
            final(self).blocks() == flow_step(old(self).blocks(), *flow, drawn),
            final(self).messages_spec() == if unimplemented_flow(*flow) {
                old(self).messages_spec().push((lineno, BmsMessage::BmsHasUnimplementedFlow))
            } else {
                old(self).messages_spec()
            },
            final(_result)@ == old(_result)@,
    {
        let inactive = self.inactive();
        let n: usize = self.blocks.len();
        let last = self.blocks[n - 1];
        match *flow {
            BmsFlowCommand::BmsRandom(val) => {
                // do not generate a random value if the entire block is skipped (but it
                // still marks the start of block)
                let generated = if val > 0 && !inactive {
                    Some(drawn)
                } else {
                    None
                };
                self.blocks.push(Block { val: generated, state: BlockState::Outside, skip: inactive });
            },
            BmsFlowCommand::BmsSetRandom(val) => {
                let generated = if val <= 0 {
                    None
                } else {
                    Some(val)
                };
                self.blocks.push(Block { val: generated, state: BlockState::Outside, skip: inactive });
            },
            BmsFlowCommand::BmsEndRandom => {
                if n > 1 {
                    self.blocks.pop();
                }
            },
            BmsFlowCommand::BmsIf(val) => {
                let state = Self::branch(last, val, false);
                self.blocks.set(n - 1, Block { val: last.val, state: state, skip: last.skip });
            },
            BmsFlowCommand::BmsElseIf(val) => {
                let state = Self::branch(last, val, true);
                self.blocks.set(n - 1, Block { val: last.val, state: state, skip: last.skip });
            },
            BmsFlowCommand::BmsElse => {
                let state = match last.state {
                    BlockState::Ignore => BlockState::Process,
                    _ => BlockState::NoFurther,
                };
                self.blocks.set(n - 1, Block { val: last.val, state: state, skip: last.skip });
            },
            BmsFlowCommand::BmsEndIf => {
                let idx: usize = self.inside();
                if idx > 1 {
                    self.blocks.truncate(idx);
                }
                let m: usize = self.blocks.len();
                let top = self.blocks[m - 1];
                self.blocks.set(
                    m - 1,
                    Block { val: top.val, state: BlockState::Outside, skip: top.skip },
                );
            },
            BmsFlowCommand::BmsSwitch(_) | BmsFlowCommand::BmsSetSwitch(_)
            | BmsFlowCommand::BmsEndSw | BmsFlowCommand::BmsCase(_) | BmsFlowCommand::BmsSkip
            | BmsFlowCommand::BmsDef => {
                self.messages.push((lineno, BmsMessage::BmsHasUnimplementedFlow));
            },
        }
    }

    /// Adds the flow command into the preprocessor, drawing a number from the random number
    /// generator where the command draws one. `result` is left as it is.
    pub fn feed_flow(&mut self, lineno: Option<usize>, flow: &BmsFlowCommand, _result: &mut Vec<T>)
        requires
            old(self).wf(),
        ensures
            final(self).wf(),
            exists|drawn: i64|
                (draws(old(self).blocks(), *flow) matches Some(val) ==> 1 <= drawn <= val)
                    && final(self).blocks() == #[trigger] flow_step(
                    old(self).blocks(),
                    *flow,
                    drawn,
                ),
            final(self).messages_spec() == if unimplemented_flow(*flow) {
                old(self).messages_spec().push((lineno, BmsMessage::BmsHasUnimplementedFlow))
            } else {
                old(self).messages_spec()
            },
            final(_result)@ == old(_result)@,
    {
        let drawn: i64 = match *flow {
            BmsFlowCommand::BmsRandom(val) => {
                if val > 0 && !self.inactive() {
                    draw_between(&mut self.r, 1, val)
                } else {
                    0
                }
            },
            _ => 0,
        };
        self.feed_flow_with(lineno, flow, drawn, _result);
    }

    /// Terminates (and consumes) the preprocessor. `result` is left as it is.
    pub fn finish(self, _result: &mut Vec<T>)
        ensures
            final(_result)@ == old(_result)@,
    {
    }

    fn branch(last: Block, val: i64, haspriorelse: bool) -> (state: BlockState)
        ensures
            state == branch_state(last, val, haspriorelse),
    {
        let ignored = match last.state {
            BlockState::Ignore => true,
            _ => false,
        };
        if (!haspriorelse && !last.state.inactive()) || ignored {
            let matching = match last.val {
                Some(v) => val > 0 && v == val,
                None => false,
            };
            if matching {
                BlockState::Process
            } else {
                BlockState::Ignore
            }
        } else {
            BlockState::NoFurther
        }
    }

    /// Returns the number of blocks up to the last one that is not outside an #IF block.
    fn inside(&self) -> (r: usize)
        ensures
            r == last_inside(self.blocks@) + 1,
            r <= self.blocks@.len(),
    {
        let mut i: usize = self.blocks.len();
        assert(self.blocks@.take(i as int) =~= self.blocks@);
        while i > 0
            invariant
                0 <= i <= self.blocks@.len(),
                last_inside(self.blocks@.take(i as int)) == last_inside(self.blocks@),
            decreases i,
        {
            match self.blocks[i - 1].state {
                BlockState::Outside => {},
                _ => {
                    return i;
                },
            }
            assert(self.blocks@.take(i as int).drop_last() =~= self.blocks@.take(i - 1));
            i -= 1;
        }
        0
    }
}

} // verus!
