//! Command-buffer pool: decides, for each request of a buffer to record
//! into, which buffer of the pool that is and which native operations the
//! request stands for.
//!
//! The pool keeps the lifecycle state of every command buffer it owns. The
//! native buffers themselves live with the caller, in the same order: the
//! caller allocates, begins and finishes them as the results of
//! [`CommandPool::buffer_mut`] and [`CommandPool::buffers_to_submit`] say.
use vstd::prelude::*;

verus! {

/// How a pool shares its command buffers out over the render passes of a
/// frame.
#[derive(Clone, Copy, Debug, PartialEq, Eq, Structural)]
pub enum CBStrategy {
    /// Everything is recorded into one buffer.
    UseOne,
    /// Every request made outside a render pass moves on to the next buffer.
    AllocateNew,
}

/// Lifecycle state of an allocated command buffer.
#[derive(Clone, Copy, Debug, PartialEq, Eq, Structural)]
pub enum BufferState {
    /// Allocated, recording not begun.
    Initial,
    /// Recording was begun and not finished.
    Recording,
    /// Recording was finished.
    Finished,
}

/// What a request for the current buffer amounts to. The caller performs the
/// native operations in the order finish, allocate, begin, and then records
/// into the buffer `index`.
#[derive(Clone, Copy, Debug, PartialEq, Eq, Structural)]
pub struct BufferRequest {
    /// Position of the buffer to record into.
    pub index: usize,
    /// Position of the buffer whose recording is finished first, if any.
    pub finished: Option<usize>,
    /// Whether a new buffer is allocated and appended to the pool.
    pub allocated: bool,
    /// Whether recording is begun on the buffer `index`.
    pub begun: bool,
}

/// What a request for the buffers to submit amounts to.
#[derive(Clone, Copy, Debug, PartialEq, Eq, Structural)]
pub struct Submission {
    /// Position of the buffer whose recording is finished.
    pub finished: usize,
    /// Number of buffers to submit: those at the positions below `count`, in
    /// that order.
    pub count: usize,
}

/// Pool of command buffers with one of two strategies of reuse.
#[derive(Debug)]
pub struct CommandPool {
    command_buffers: Vec<BufferState>,
    strategy: CBStrategy,
    next_id: usize,
    begin: bool,
}

/// Mathematical state of a [`CommandPool`].
pub struct CommandPoolView {
    /// Lifecycle states of the buffers, in the order of their allocation.
    pub buffers: Seq<BufferState>,
    /// The strategy of reuse.
    pub strategy: CBStrategy,
    /// Allocation cursor: the number of buffers begun in this period under
    /// [`CBStrategy::AllocateNew`].
    pub next_id: nat,
    /// Whether recording still has to be begun under [`CBStrategy::UseOne`].
    pub begin: bool,
}

impl CommandPoolView {
    /// The pool right after construction.
    pub open spec fn fresh(strategy: CBStrategy) -> CommandPoolView {
        CommandPoolView { buffers: Seq::empty(), strategy, next_id: 0, begin: true }
    }

    /// Position of the buffer begun last: the cursor less one, where a
    /// cursor of zero counts as one.
    pub open spec fn previous(self) -> nat {
        if self.next_id == 0 {
            0
        } else {
            (self.next_id - 1) as nat
        }
    }

    /// Position of the buffer that a request returns.
    pub open spec fn target(self, inside_render_pass: bool) -> nat {
        match self.strategy {
            CBStrategy::UseOne => 0,
            CBStrategy::AllocateNew => if inside_render_pass {
                self.previous()
            } else {
                self.next_id
            },
        }
    }

    /// The request can be served: the buffer it returns is one of the pool
    /// or the one allocated next.
    pub open spec fn can_request(self, inside_render_pass: bool) -> bool {
        self.target(inside_render_pass) <= self.buffers.len()
    }

    /// Position of the buffer that a request finishes before it selects its
    /// own: under [`CBStrategy::AllocateNew`], outside a render pass and not
    /// on the first request of a period, the buffer begun last.
    pub open spec fn finishes(self, inside_render_pass: bool) -> Option<nat> {
        match self.strategy {
            CBStrategy::UseOne => None,
            CBStrategy::AllocateNew => if !inside_render_pass && self.next_id != 0 {
                Some(self.previous())
            } else {
                None
            },
        }
    }

    /// Whether a request allocates a buffer: the one it returns does not
    /// exist yet.
    pub open spec fn allocates(self, inside_render_pass: bool) -> bool {
        self.buffers.len() <= self.target(inside_render_pass)
    }

    /// Whether a request begins recording on the buffer it returns.
    pub open spec fn begins(self, inside_render_pass: bool) -> bool {
        match self.strategy {
            CBStrategy::UseOne => self.begin,
            CBStrategy::AllocateNew => !inside_render_pass,
        }
    }

    /// State after a request.
    pub open spec fn after_request(self, inside_render_pass: bool) -> CommandPoolView {
        let target = self.target(inside_render_pass) as int;
        let finished = match self.finishes(inside_render_pass) {
            Some(position) => self.buffers.update(position as int, BufferState::Finished),
            None => self.buffers,
        };
        let grown = if self.allocates(inside_render_pass) {
            finished.push(BufferState::Initial)
        } else {
            finished
        };
        let begun = if self.begins(inside_render_pass) {
            grown.update(target, BufferState::Recording)
        } else {
            grown
        };
        match self.strategy {
            CBStrategy::UseOne => CommandPoolView { buffers: begun, begin: false, ..self },
            CBStrategy::AllocateNew => CommandPoolView {
                buffers: begun,
                next_id: if inside_render_pass {
                    self.next_id
                } else {
                    self.next_id + 1
                },
                ..self
            },
        }
    }

    /// The buffers to submit can be asked for: there is an active buffer.
    pub open spec fn can_submit(self) -> bool {
        match self.strategy {
            CBStrategy::UseOne => self.buffers.len() >= 1,
            CBStrategy::AllocateNew => 1 <= self.next_id <= self.buffers.len(),
        }
    }

    /// Position of the active buffer, which a submission finishes.
    pub open spec fn active(self) -> nat {
        match self.strategy {
            CBStrategy::UseOne => 0,
            CBStrategy::AllocateNew => (self.next_id - 1) as nat,
        }
    }

    /// Number of buffers that a submission returns.
    pub open spec fn ready(self) -> nat {
        match self.strategy {
            CBStrategy::UseOne => self.buffers.len(),
            CBStrategy::AllocateNew => self.next_id,
        }
    }

    /// State after a submission.
    pub open spec fn after_submit(self) -> CommandPoolView {
        CommandPoolView {
            buffers: self.buffers.update(self.active() as int, BufferState::Finished),
            ..self
        }
    }

    /// State after making sure that the pool has a buffer.
    pub open spec fn after_create(self) -> CommandPoolView {
        if self.buffers.len() == 0 {
            CommandPoolView { buffers: self.buffers.push(BufferState::Initial), ..self }
        } else {
            self
        }
    }

    /// State after a reset: every buffer is back in its initial state, the
    /// cursor at zero and recording to be begun again.
    pub open spec fn reset(self) -> CommandPoolView {
        CommandPoolView {
            buffers: Seq::new(self.buffers.len(), |position: int| BufferState::Initial),
            next_id: 0,
            begin: true,
            ..self
        }
    }

    /// State after a sequence of requests, each given by whether it is made
    /// inside a render pass.
    pub open spec fn after_requests(self, requests: Seq<bool>) -> CommandPoolView
        decreases requests.len(),
    {
        if requests.len() == 0 {
            self
        } else {
            self.after_requests(requests.drop_last()).after_request(requests.last())
        }
    }

    /// State in which the buffer at `position` is while a period of
    /// recording goes as it should. Under [`CBStrategy::UseOne`] the first
    /// buffer is recording once recording was begun, and every other buffer
    /// is in its initial state. Under [`CBStrategy::AllocateNew`] the
    /// buffers before the one begun last are finished, that one is
    /// recording, and those behind it are in their initial state.
    pub open spec fn expected(self, position: int) -> BufferState {
        match self.strategy {
            CBStrategy::UseOne => if position == 0 && !self.begin {
                BufferState::Recording
            } else {
                BufferState::Initial
            },
            CBStrategy::AllocateNew => if position + 1 < self.next_id {
                BufferState::Finished
            } else if position + 1 == self.next_id {
                BufferState::Recording
            } else {
                BufferState::Initial
            },
        }
    }

    /// The pool is in a period of recording that began with a new or reset
    /// pool and saw only requests and pre-warming since: every buffer is in
    /// the state that the cursor and the flag tell, and the buffer that was
    /// begun last exists.
    pub open spec fn in_period(self) -> bool {
        &&& match self.strategy {
            CBStrategy::UseOne => !self.begin ==> self.buffers.len() >= 1,
            CBStrategy::AllocateNew => self.next_id <= self.buffers.len(),
        }
        &&& forall|position: int|
            0 <= position < self.buffers.len() ==> #[trigger] self.buffers[position]
                == self.expected(position)
    }
}

/// Number of requests in `requests` that are made outside a render pass.
pub open spec fn outside_requests(requests: Seq<bool>) -> nat
    decreases requests.len(),
{
    if requests.len() == 0 {
        0
    } else {
        outside_requests(requests.drop_last()) + if requests.last() {
            0nat
        } else {
            1nat
        }
    }
}

impl View for CommandPool {
    type V = CommandPoolView;

    closed spec fn view(&self) -> CommandPoolView {
        CommandPoolView {
            buffers: self.command_buffers@,
            strategy: self.strategy,
            next_id: self.next_id as nat,
            begin: self.begin,
        }
    }
}

impl CommandPool {
    /// A pool without buffers.
    pub fn new(strategy: CBStrategy) -> (pool: CommandPool)
        ensures
            pool@ == CommandPoolView::fresh(strategy),
    {
        CommandPool { command_buffers: Vec::new(), strategy, next_id: 0, begin: true }
    }

    /// The strategy of reuse.
    pub fn strategy(&self) -> (strategy: CBStrategy)
        ensures
            strategy == self@.strategy,
    {
        self.strategy
    }

    /// Number of buffers in the pool.
    pub fn buffer_count(&self) -> (count: usize)
        ensures
            count == self@.buffers.len(),
    {
        self.command_buffers.len()
    }

    /// Lifecycle state of the buffer at `position`, if the pool has that
    /// many.
    pub fn buffer_state(&self, position: usize) -> (state: Option<BufferState>)
        ensures
            state == if position < self@.buffers.len() {
                Some(self@.buffers[position as int])
            } else {
                None
            },
    {
        if position < self.command_buffers.len() {
            Some(self.command_buffers[position])
        } else {
            None
        }
    }

    /// The allocation cursor.
    pub fn next_id(&self) -> (next_id: usize)
        ensures
            next_id == self@.next_id,
    {
        self.next_id
    }

    /// Whether [`buffer_mut`](CommandPool::buffer_mut) can serve a request.
    pub fn can_request(&self, inside_render_pass: bool) -> (possible: bool)
        ensures
            possible == self@.can_request(inside_render_pass),
    {
        match self.strategy {
            CBStrategy::UseOne => true,
            CBStrategy::AllocateNew => if inside_render_pass {
                self.next_id == 0 || self.next_id - 1 <= self.command_buffers.len()
            } else {
                self.next_id <= self.command_buffers.len()
            },
        }
    }

    /// Whether [`buffers_to_submit`](CommandPool::buffers_to_submit) has an
    /// active buffer to finish.
    pub fn can_submit(&self) -> (possible: bool)
        ensures
            possible == self@.can_submit(),
    {
        match self.strategy {
            CBStrategy::UseOne => self.command_buffers.len() >= 1,
            CBStrategy::AllocateNew => 1 <= self.next_id && self.next_id
                <= self.command_buffers.len(),
        }
    }

    /// The buffer to record into next, with the native operations that
    /// selecting it stands for.
    ///
    /// Under [`CBStrategy::UseOne`] that is always the first buffer, which
    /// is allocated on first use and begun once per period. Under
    /// [`CBStrategy::AllocateNew`] a request outside a render pass finishes
    /// the buffer begun last, unless it is the first of the period, then
    /// begins the buffer at the cursor and advances the cursor; a request
    /// inside a render pass returns the buffer begun last and changes
    /// nothing, except that before any buffer was begun it returns the first
    /// buffer, allocated if need be and not begun.
    pub fn buffer_mut(&mut self, inside_render_pass: bool) -> (request: BufferRequest)
        requires
            old(self)@.can_request(inside_render_pass),
        ensures
            final(self)@ == old(self)@.after_request(inside_render_pass),
            request.index == old(self)@.target(inside_render_pass),
            request.index < final(self)@.buffers.len(),
            match request.finished {
                Some(position) => old(self)@.finishes(inside_render_pass) == Some(position as nat),
                None => old(self)@.finishes(inside_render_pass) is None,
            },
            request.allocated == old(self)@.allocates(inside_render_pass),
            request.begun == old(self)@.begins(inside_render_pass),
    {
        match self.strategy {
            CBStrategy::UseOne => {
                let allocated: bool = self.command_buffers.len() < 1;
                if allocated {
                    self.command_buffers.push(BufferState::Initial);
                }
                let begun: bool = self.begin;
                if begun {
                    self.command_buffers[0] = BufferState::Recording;
                    self.begin = false;
                }
                BufferRequest { index: 0, finished: None, allocated, begun }
            },
            CBStrategy::AllocateNew => {
                let previous: usize = if self.next_id == 0 {
                    0
                } else {
                    self.next_id - 1
                };
                let mut finished: Option<usize> = None;
                if previous < self.command_buffers.len() && self.next_id != 0
                    && !inside_render_pass {
                    self.command_buffers[previous] = BufferState::Finished;
                    finished = Some(previous);
                }
                let index: usize = if inside_render_pass {
                    previous
                } else {
                    self.next_id
                };
                let allocated: bool = self.command_buffers.len() <= index;
                if allocated {
                    self.command_buffers.push(BufferState::Initial);
                }
                if !inside_render_pass {
                    self.command_buffers[index] = BufferState::Recording;
                    assert(index < self.command_buffers.len());
                    self.next_id += 1;
                }
                BufferRequest { index, finished, allocated, begun: !inside_render_pass }
            },
        }
    }

    /// Finishes the active buffer and tells which buffers are ready for
    /// submission: all of them under [`CBStrategy::UseOne`], those begun in
    /// this period under [`CBStrategy::AllocateNew`].
    pub fn buffers_to_submit(&mut self) -> (submission: Submission)
        requires
            old(self)@.can_submit(),
        ensures
            final(self)@ == old(self)@.after_submit(),
            submission.finished == old(self)@.active(),
            submission.count == old(self)@.ready(),
            submission.finished < submission.count <= final(self)@.buffers.len(),
    {
        match self.strategy {
            CBStrategy::UseOne => {
                self.command_buffers[0] = BufferState::Finished;
                Submission { finished: 0, count: self.command_buffers.len() }
            },
            CBStrategy::AllocateNew => {
                let active: usize = self.next_id - 1;
                self.command_buffers[active] = BufferState::Finished;
                Submission { finished: active, count: self.next_id }
            },
        }
    }

    /// Makes sure that the pool has a buffer, without beginning it. Returns
    /// whether a buffer is allocated for that.
    pub fn create_command_buffer(&mut self) -> (allocated: bool)
        ensures
            final(self)@ == old(self)@.after_create(),
            allocated == (old(self)@.buffers.len() == 0),
    {
        let allocated: bool = self.command_buffers.is_empty();
        if allocated {
            self.command_buffers.push(BufferState::Initial);
        }
        allocated
    }

    /// Detaches the first buffer from the pool and returns its state. The
    /// buffers behind it move one position down.
    pub fn remove_cmd_buffer(&mut self) -> (cmd_buffer: BufferState)
        requires
            old(self)@.buffers.len() > 0,
        ensures
            cmd_buffer == old(self)@.buffers[0],
            final(self)@ == (CommandPoolView {
                buffers: old(self)@.buffers.remove(0),
                ..old(self)@
            }),
    {
        self.command_buffers.remove(0)
    }

    /// Puts a buffer in state `cmd_buffer` back at the first position. The
    /// buffers of the pool move one position up.
    pub fn return_cmd_buffer(&mut self, cmd_buffer: BufferState)
        ensures
            final(self)@ == (CommandPoolView {
                buffers: old(self)@.buffers.insert(0, cmd_buffer),
                ..old(self)@
            }),
    {
        self.command_buffers.insert(0, cmd_buffer);
    }

    /// Starts a new period: every buffer returns to its initial state, the
    /// cursor to zero, and recording is to be begun again.
    pub fn reset(&mut self)
        ensures
            final(self)@ == old(self)@.reset(),
    {
        let count: usize = self.command_buffers.len();
        let mut position: usize = 0;
        while position < count
            invariant
                position <= count,
                count == self.command_buffers@.len(),
                self.strategy == old(self).strategy,
                forall|i: int|
                    0 <= i < position ==> self.command_buffers@[i] == BufferState::Initial,
            decreases count - position,
        {
            self.command_buffers[position] = BufferState::Initial;
            position += 1;
        }
        self.next_id = 0;
        self.begin = true;
        assert(self.command_buffers@ =~= old(self)@.reset().buffers);
    }
}

/// A new pool, a reset pool and a pre-warmed one are in a period of
/// recording.
pub proof fn lemma_period_starts(pool: CommandPoolView, strategy: CBStrategy)
    ensures
        CommandPoolView::fresh(strategy).in_period(),
        pool.reset().in_period(),
        pool.in_period() ==> pool.after_create().in_period(),
{
}

/// Within a period of recording every request can be served and keeps the
/// period going. The buffer it returns is never a finished one, and is
/// recording whenever the request begins it; a buffer is finished only while
/// it is recording, and begun only in its initial state.
pub proof fn lemma_request_in_period(pool: CommandPoolView, inside_render_pass: bool)
    requires
        pool.in_period(),
    ensures
        pool.can_request(inside_render_pass),
        pool.after_request(inside_render_pass).in_period(),
        pool.target(inside_render_pass) < pool.after_request(inside_render_pass).buffers.len(),
        pool.after_request(inside_render_pass).buffers[pool.target(inside_render_pass) as int]
            != BufferState::Finished,
        pool.begins(inside_render_pass) ==> pool.after_request(
            inside_render_pass,
        ).buffers[pool.target(inside_render_pass) as int] == BufferState::Recording,
        pool.finishes(inside_render_pass) matches Some(position) ==> pool.buffers[position as int]
            == BufferState::Recording,
        pool.begins(inside_render_pass) && !pool.allocates(inside_render_pass)
            ==> pool.buffers[pool.target(inside_render_pass) as int] == BufferState::Initial,
{
}

/// A submission made within a period of recording, after recording was
/// begun, finishes a buffer that is recording: no buffer is finished twice.
/// Under [`CBStrategy::AllocateNew`] every buffer that it returns is then
/// finished.
pub proof fn lemma_submit_in_period(pool: CommandPoolView)
    requires
        pool.in_period(),
        pool.can_submit(),
        pool.strategy == CBStrategy::UseOne ==> !pool.begin,
    ensures
        pool.active() < pool.ready() <= pool.buffers.len(),
        pool.buffers[pool.active() as int] == BufferState::Recording,
        pool.strategy == CBStrategy::AllocateNew ==> forall|position: int|
            0 <= position < pool.ready() ==> pool.after_submit().buffers[position]
                == BufferState::Finished,
{
}

/// Requests never change the strategy nor take a buffer away. Under
/// [`CBStrategy::AllocateNew`] the cursor advances by one for each request
/// made outside a render pass and stays within the buffers; under
/// [`CBStrategy::UseOne`] it does not move.
pub proof fn lemma_cursor_after_requests(pool: CommandPoolView, requests: Seq<bool>)
    requires
        pool.strategy == CBStrategy::AllocateNew ==> pool.next_id <= pool.buffers.len(),
    ensures
        pool.after_requests(requests).strategy == pool.strategy,
        pool.after_requests(requests).buffers.len() >= pool.buffers.len(),
        pool.strategy == CBStrategy::UseOne ==> pool.after_requests(requests).next_id
            == pool.next_id,
        pool.strategy == CBStrategy::AllocateNew ==> pool.after_requests(requests).next_id
            == pool.next_id + outside_requests(requests),
        pool.strategy == CBStrategy::AllocateNew ==> pool.after_requests(requests).next_id
            <= pool.after_requests(requests).buffers.len(),
    decreases requests.len(),
{
    if requests.len() > 0 {
        lemma_cursor_after_requests(pool, requests.drop_last());
    }
}

/// Under [`CBStrategy::UseOne`], in a period that starts with recording
/// still to be begun, any sequence of requests, inside or outside a render
/// pass, returns the first buffer every time. Recording is begun by the
/// first request and by no other, nothing is ever finished, and only the
/// first request can allocate, when the pool has no buffer.
pub proof fn lemma_use_one_requests(pool: CommandPoolView, requests: Seq<bool>, i: int)
    requires
        pool.strategy == CBStrategy::UseOne,
        pool.begin,
        0 <= i < requests.len(),
    ensures
        ({
            let before = pool.after_requests(requests.take(i));
            &&& before.can_request(requests[i])
            &&& before.target(requests[i]) == 0
            &&& before.begins(requests[i]) <==> i == 0
            &&& before.finishes(requests[i]) is None
            &&& before.allocates(requests[i]) <==> i == 0 && pool.buffers.len() == 0
        }),
{
    lemma_use_one_state(pool, requests.take(i));
}

/// Under [`CBStrategy::UseOne`] the first request leaves the pool with a
/// buffer and with recording begun, and later requests keep it so.
proof fn lemma_use_one_state(pool: CommandPoolView, requests: Seq<bool>)
    requires
        pool.strategy == CBStrategy::UseOne,
    ensures
        pool.after_requests(requests).strategy == CBStrategy::UseOne,
        requests.len() == 0 ==> pool.after_requests(requests) == pool,
        requests.len() > 0 ==> !pool.after_requests(requests).begin && pool.after_requests(
            requests,
        ).buffers.len() >= 1,
    decreases requests.len(),
{
    if requests.len() > 0 {
        lemma_use_one_state(pool, requests.drop_last());
    }
}

/// Under [`CBStrategy::AllocateNew`], from the start of a period, requests
/// made one after another outside a render pass return the buffers in
/// order, each a new position: request `i` returns buffer `i`, begins it,
/// and finishes buffer `i - 1` unless it is the first. A submission after
/// `n` of them finishes buffer `n - 1` and returns the first `n` buffers, so
/// each of them is finished exactly once.
pub proof fn lemma_outside_requests(pool: CommandPoolView, n: nat, i: int)
    requires
        pool.strategy == CBStrategy::AllocateNew,
        pool.next_id == 0,
        0 <= i < n,
    ensures
        ({
            let requests = Seq::new(n, |k: int| false);
            let before = pool.after_requests(requests.take(i));
            let after = pool.after_requests(requests);
            &&& before.can_request(false)
            &&& before.target(false) == i
            &&& before.begins(false)
            &&& before.finishes(false) == if i == 0 {
                None
            } else {
                Some((i - 1) as nat)
            }
            &&& after.can_submit()
            &&& after.active() == n - 1
            &&& after.ready() == n
        }),
{
    let requests = Seq::new(n, |k: int| false);
    lemma_cursor_after_requests(pool, requests.take(i));
    lemma_cursor_after_requests(pool, requests);
    lemma_all_outside(requests.take(i));
    lemma_all_outside(requests);
}

/// A sequence of requests that are all made outside a render pass has as
/// many outside requests as it is long.
proof fn lemma_all_outside(requests: Seq<bool>)
    requires
        forall|k: int| 0 <= k < requests.len() ==> !requests[k],
    ensures
        outside_requests(requests) == requests.len(),
    decreases requests.len(),
{
    if requests.len() > 0 {
        lemma_all_outside(requests.drop_last());
    }
}

/// Under [`CBStrategy::AllocateNew`], once a buffer was begun, a request
/// made inside a render pass returns the buffer begun last and changes
/// nothing: nothing is finished, allocated or begun.
pub proof fn lemma_inside_request_is_idle(pool: CommandPoolView)
    requires
        pool.strategy == CBStrategy::AllocateNew,
        1 <= pool.next_id <= pool.buffers.len(),
    ensures
        pool.can_request(true),
        pool.target(true) == pool.next_id - 1,
        pool.finishes(true) is None,
        !pool.allocates(true),
        !pool.begins(true),
        pool.after_request(true) == pool,
{
}

/// The positions that a sequence of requests returns depend on the strategy
/// and on the cursor at its start only. So after a reset the same sequence
/// of requests returns the same positions as it did from the start of the
/// period before, and every request of it can be served again.
pub proof fn lemma_reset_repeats(pool: CommandPoolView, requests: Seq<bool>, i: int)
    requires
        pool.next_id == 0,
        0 <= i < requests.len(),
    ensures
        ({
            let first = pool.after_requests(requests.take(i));
            let again = pool.after_requests(requests).reset().after_requests(requests.take(i));
            &&& first.can_request(requests[i])
            &&& again.can_request(requests[i])
            &&& again.target(requests[i]) == first.target(requests[i])
        }),
{
    let restart = pool.after_requests(requests).reset();
    lemma_cursor_after_requests(pool, requests);
    lemma_cursor_after_requests(pool, requests.take(i));
    lemma_cursor_after_requests(restart, requests.take(i));
}

} // verus!
