//! The chat session: the history of a conversation, and the exchanges that
//! extend it.
//!
//! An exchange is one prompt and the answer to it. The answer arrives as a
//! stream of chunks; reading the stream is the caller's part, and the caller
//! hands each chunk to the exchange. The history grows only when an exchange is
//! committed, by the prompt and the answer, in this order.

use crate::aggregate::{
    accept_all, lemma_accept_all_concat, Aggregator, AggregatorModel, ControlSignal,
};
use crate::decoder::{
    falters, feed_model, finish_model, joined, lemma_feed_split, DecoderModel, DecoderState,
    FrameDecoder,
};
use crate::gh::GithubAuth;
use crate::utils::{decimal_of, generate_vscode_session_id, hex_of, random_hex_string};
use vstd::prelude::*;

verus! {

/// `oxc_allocator::Allocator`, the arena in which the turns of a
/// conversation are kept. Nothing is known here of what it holds.
#[verifier::external_type_specification]
#[verifier::external_body]
pub struct ExAllocator(oxc_allocator::Allocator);

/// Calls `oxc_allocator::Allocator::alloc_str`, which copies a text into the
/// arena. The contract claims that the copy reads as the text does. The call
/// panics where the arena cannot grow.
#[verifier::external_body]
fn arena_str<'alloc>(allocator: &'alloc oxc_allocator::Allocator, text: &str) -> (copy: &'alloc str)
    ensures
        copy@ == text@,
{
    allocator.alloc_str(text)
}

/// How many bytes an exchange keeps of a frame that is not complete.
pub const MAX_RESIDUAL: usize = 1048576;

/// The role of the turn that opens every conversation.
pub open spec fn system_role() -> Seq<char> {
    "system"@
}

/// The role of a prompt.
pub open spec fn user_role() -> Seq<char> {
    "user"@
}

/// The role of an answer.
pub open spec fn assistant_role() -> Seq<char> {
    "assistant"@
}

/// The reason given where the stream stalled: too much was kept of a frame
/// that never became complete, or nothing arrived in time.
pub open spec fn stall_reason() -> Seq<char> {
    "stream_stalled"@
}

/// One turn of a conversation.
#[derive(Debug, Clone, Copy)]
pub struct Message<'alloc> {
    content: &'alloc str,
    role: &'alloc str,
}

/// What a [`Message`] stands for.
pub struct MessageModel {
    pub content: Seq<char>,
    pub role: Seq<char>,
}

impl<'alloc> View for Message<'alloc> {
    type V = MessageModel;

    closed spec fn view(&self) -> MessageModel {
        MessageModel { content: self.content@, role: self.role@ }
    }
}

impl<'alloc> Message<'alloc> {
    /// A turn of a content and a role.
    pub fn new(content: &'alloc str, role: &'alloc str) -> (message: Message<'alloc>)
        ensures
            message@ == (MessageModel { content: content@, role: role@ }),
    {
        Message { content, role }
    }

    /// What was said.
    pub fn content(&self) -> (text: &'alloc str)
        ensures
            text@ == self@.content,
    {
        self.content
    }

    /// Who said it.
    pub fn role(&self) -> (text: &'alloc str)
        ensures
            text@ == self@.role,
    {
        self.role
    }
}

/// The turns, each by its view.
pub open spec fn history_view(history: Seq<Message>) -> Seq<MessageModel> {
    Seq::new(history.len(), |i: int| history[i]@)
}

/// The role of the turn at index `i` of a history.
pub open spec fn role_at(i: int) -> Seq<char> {
    if i == 0 {
        system_role()
    } else if i % 2 == 1 {
        user_role()
    } else {
        assistant_role()
    }
}

/// A history starts with the system turn, and after it prompts and answers
/// take turns, each prompt with its answer.
pub open spec fn history_wf(history: Seq<MessageModel>) -> bool {
    &&& history.len() % 2 == 1
    &&& forall|i: int| 0 <= i < history.len() ==> (#[trigger] history[i]).role == role_at(i)
}

/// The two turns that an exchange adds to a history.
pub open spec fn turn_pair(prompt: Seq<char>, answer: Seq<char>) -> Seq<MessageModel> {
    seq![
        MessageModel { content: prompt, role: user_role() },
        MessageModel { content: answer, role: assistant_role() },
    ]
}

/// The history that a system prompt and a run of exchanges, each a prompt and
/// its answer, leave.
pub open spec fn history_after(system: Seq<char>, exchanges: Seq<(Seq<char>, Seq<char>)>) -> Seq<
    MessageModel,
>
    decreases exchanges.len(),
{
    if exchanges.len() == 0 {
        seq![MessageModel { content: system, role: system_role() }]
    } else {
        history_after(system, exchanges.drop_last()) + turn_pair(
            exchanges.last().0,
            exchanges.last().1,
        )
    }
}

/// Adding the turns of an exchange to a history leaves a history.
pub proof fn lemma_turn_pair_keeps_history(
    history: Seq<MessageModel>,
    prompt: Seq<char>,
    answer: Seq<char>,
)
    requires
        history_wf(history),
    ensures
        history_wf(history + turn_pair(prompt, answer)),
        (history + turn_pair(prompt, answer)).len() == history.len() + 2,
{
    let longer = history + turn_pair(prompt, answer);
    assert forall|i: int| 0 <= i < longer.len() implies (#[trigger] longer[i]).role == role_at(
        i,
    ) by {
        if i < history.len() {
            assert(longer[i] == history[i]);
        } else {
            assert(longer[i] == turn_pair(prompt, answer)[i - history.len()]);
        }
    }
}

/// The history after one more exchange is the history before it, followed by
/// the prompt and the answer of that exchange.
pub proof fn lemma_history_after_one_more(
    system: Seq<char>,
    exchanges: Seq<(Seq<char>, Seq<char>)>,
    prompt: Seq<char>,
    answer: Seq<char>,
)
    ensures
        history_after(system, exchanges.push((prompt, answer))) == history_after(system, exchanges)
            + turn_pair(prompt, answer),
{
    assert(exchanges.push((prompt, answer)).drop_last() =~= exchanges);
}

/// After `n` exchanges a history that started with the system turn alone has
/// `1 + 2 * n` turns: the system turn, then for each exchange its prompt and
/// its answer.
pub proof fn lemma_history_grows_by_two(system: Seq<char>, exchanges: Seq<(Seq<char>, Seq<char>)>)
    ensures
        history_after(system, exchanges).len() == 1 + 2 * exchanges.len(),
        history_wf(history_after(system, exchanges)),
        history_after(system, exchanges)[0] == (MessageModel {
            content: system,
            role: system_role(),
        }),
        forall|k: int|
            0 <= k < exchanges.len() ==> #[trigger] history_after(system, exchanges)[1 + 2 * k]
                == (MessageModel { content: exchanges[k].0, role: user_role() }),
        forall|k: int|
            0 <= k < exchanges.len() ==> #[trigger] history_after(system, exchanges)[2 + 2 * k]
                == (MessageModel { content: exchanges[k].1, role: assistant_role() }),
    decreases exchanges.len(),
{
    if exchanges.len() > 0 {
        let before = history_after(system, exchanges.drop_last());
        lemma_history_grows_by_two(system, exchanges.drop_last());
        lemma_turn_pair_keeps_history(before, exchanges.last().0, exchanges.last().1);
        let all = history_after(system, exchanges);
        assert forall|k: int| 0 <= k < exchanges.len() implies #[trigger] all[1 + 2 * k] == (
        MessageModel { content: exchanges[k].0, role: user_role() }) by {
            if k < exchanges.len() - 1 {
                assert(all[1 + 2 * k] == before[1 + 2 * k]);
                assert(exchanges.drop_last()[k] == exchanges[k]);
            }
        }
        assert forall|k: int| 0 <= k < exchanges.len() implies #[trigger] all[2 + 2 * k] == (
        MessageModel { content: exchanges[k].1, role: assistant_role() }) by {
            if k < exchanges.len() - 1 {
                assert(all[2 + 2 * k] == before[2 + 2 * k]);
                assert(exchanges.drop_last()[k] == exchanges[k]);
            }
        }
    }
}

/// In a history the system turn stands first, and nowhere else.
pub proof fn lemma_one_system_turn(history: Seq<MessageModel>, i: int)
    requires
        history_wf(history),
        0 <= i < history.len(),
    ensures
        history[i].role == system_role() <==> i == 0,
{
    reveal_strlit("system");
    reveal_strlit("user");
    reveal_strlit("assistant");
    assert(history[i].role == role_at(i));
    assert(history[0].role == role_at(0));
    if i != 0 {
        assert(role_at(i).len() != system_role().len());
    }
}

/// The turns sent with a prompt, the history and then the prompt as a user
/// turn, hold the system turn once, in the first place.
pub proof fn lemma_request_has_one_system_turn(
    history: Seq<MessageModel>,
    prompt: Seq<char>,
    i: int,
)
    requires
        history_wf(history),
        0 <= i <= history.len(),
    ensures
        history.push(MessageModel { content: prompt, role: user_role() })[i].role == system_role()
            <==> i == 0,
{
    if i < history.len() {
        lemma_one_system_turn(history, i);
    } else {
        reveal_strlit("system");
        reveal_strlit("user");
        assert(user_role().len() != system_role().len());
    }
}

/// The answer of an exchange.
#[derive(Debug)]
pub struct Completion {
    pub content: String,
    pub finish_reason: String,
}

/// How the stream of an exchange came to its end.
#[derive(Debug, Clone, Copy, PartialEq, Eq, Structural)]
pub enum StreamClose {
    /// The stream was read to its end.
    Finished,
    /// Nothing arrived in time.
    IdleTimeout,
    /// The connection or the request failed.
    TransportFailed,
    /// The service did not accept the token.
    AuthExpired,
}

/// How a stream ends before it has begun, for the status of the response: a
/// status from 200 to 299 opens the stream, 401 says that the token was not
/// accepted, and any other status is a failure of the request.
pub open spec fn close_of_status(status: u16) -> Option<StreamClose> {
    if 200 <= status <= 299 {
        None
    } else if status == 401 {
        Some(StreamClose::AuthExpired)
    } else {
        Some(StreamClose::TransportFailed)
    }
}

/// Tells how a stream ends before it has begun, for the status of the
/// response, if it does.
pub fn status_close(status: u16) -> (close: Option<StreamClose>)
    ensures
        close == close_of_status(status),
{
    if 200 <= status && status <= 299 {
        None
    } else if status == 401 {
        Some(StreamClose::AuthExpired)
    } else {
        Some(StreamClose::TransportFailed)
    }
}

/// Why an exchange yields no answer.
#[derive(Debug, Clone, Copy, PartialEq, Eq, Structural)]
pub enum AskError {
    /// The connection or the request failed.
    Transport,
    /// The service did not accept the token: a new login is needed.
    AuthExpired,
    /// Another exchange of this session is under way.
    Busy,
}

/// What an [`Exchange`] stands for.
pub struct ExchangeModel {
    pub prompt: Seq<char>,
    pub decoder: DecoderModel,
    pub aggregator: AggregatorModel,
    /// Whether the exchange is complete.
    pub stopped: bool,
}

impl ExchangeModel {
    /// The exchange before any chunk.
    pub open spec fn start(prompt: Seq<char>, limit: nat) -> ExchangeModel {
        ExchangeModel {
            prompt,
            decoder: DecoderModel {
                residual: Seq::empty(),
                limit,
                state: DecoderState::Open,
            },
            aggregator: AggregatorModel::start(),
            stopped: false,
        }
    }

    /// The exchange with what was added to the answer taken for display.
    pub open spec fn displayed(self) -> ExchangeModel {
        ExchangeModel {
            prompt: self.prompt,
            decoder: self.decoder,
            aggregator: self.aggregator.displayed(),
            stopped: self.stopped,
        }
    }
}

/// What a chunk does to an exchange.
///
/// The frames that are complete with the chunk are taken in their order, up
/// to the first that ends the exchange. Where none does and the decoder has
/// stalled, the exchange ends with the reason [`stall_reason`]. A complete
/// exchange takes nothing more.
pub open spec fn chunk_model(exchange: ExchangeModel, chunk: Seq<u8>) -> ExchangeModel {
    if exchange.stopped {
        exchange
    } else {
        let (decoder, frames) = feed_model(exchange.decoder, chunk);
        let (aggregator, signal) = accept_all(exchange.aggregator, frames);
        if signal is Stop {
            ExchangeModel { prompt: exchange.prompt, decoder, aggregator, stopped: true }
        } else if decoder.state is Stalled {
            ExchangeModel {
                prompt: exchange.prompt,
                decoder,
                aggregator: aggregator.finished(stall_reason()),
                stopped: true,
            }
        } else {
            ExchangeModel { prompt: exchange.prompt, decoder, aggregator, stopped: false }
        }
    }
}

/// What the end of the stream does to an exchange: the frame that was kept,
/// if it is one, is taken, and the exchange is complete.
pub open spec fn close_model(exchange: ExchangeModel) -> ExchangeModel {
    if exchange.stopped {
        exchange
    } else {
        let (decoder, frames) = finish_model(exchange.decoder);
        ExchangeModel {
            prompt: exchange.prompt,
            decoder,
            aggregator: accept_all(exchange.aggregator, frames).0,
            stopped: true,
        }
    }
}

/// What a stream that no longer delivers does to an exchange: the exchange
/// ends with the reason [`stall_reason`].
pub open spec fn stall_model(exchange: ExchangeModel) -> ExchangeModel {
    if exchange.stopped {
        exchange
    } else {
        ExchangeModel {
            prompt: exchange.prompt,
            decoder: exchange.decoder,
            aggregator: exchange.aggregator.finished(stall_reason()),
            stopped: true,
        }
    }
}

/// What chunks do to an exchange, one after the other.
pub open spec fn chunks_model(exchange: ExchangeModel, chunks: Seq<Seq<u8>>) -> ExchangeModel
    decreases chunks.len(),
{
    if chunks.len() == 0 {
        exchange
    } else {
        chunks_model(chunk_model(exchange, chunks[0]), chunks.skip(1))
    }
}

/// An exchange keeps its prompt, whatever it is fed.
pub proof fn lemma_chunks_keep_prompt(exchange: ExchangeModel, chunks: Seq<Seq<u8>>)
    ensures
        chunks_model(exchange, chunks).prompt == exchange.prompt,
    decreases chunks.len(),
{
    if chunks.len() > 0 {
        lemma_chunks_keep_prompt(chunk_model(exchange, chunks[0]), chunks.skip(1));
    }
}

/// The chunks, each by its view.
pub open spec fn chunks_view(chunks: Seq<Vec<u8>>) -> Seq<Seq<u8>> {
    Seq::new(chunks.len(), |i: int| chunks[i]@)
}

/// The answer of an exchange whose stream delivered `chunks` and then came to
/// its end as `close` says, or the reason why there is none.
///
/// Where a frame ended the exchange, how the stream ended does not matter.
/// Otherwise the end of the stream completes the exchange, a stream that no
/// longer delivers ends it with the reason [`stall_reason`], and a failure of
/// the transport or of the login leaves no answer.
pub open spec fn ask_model(
    prompt: Seq<char>,
    limit: nat,
    chunks: Seq<Seq<u8>>,
    close: StreamClose,
) -> Result<AggregatorModel, AskError> {
    let read = chunks_model(ExchangeModel::start(prompt, limit), chunks);
    if read.stopped {
        Ok(read.aggregator)
    } else {
        match close {
            StreamClose::Finished => Ok(close_model(read).aggregator),
            StreamClose::IdleTimeout => Ok(stall_model(read).aggregator),
            StreamClose::TransportFailed => Err(AskError::Transport),
            StreamClose::AuthExpired => Err(AskError::AuthExpired),
        }
    }
}

/// A complete exchange takes nothing more, however many chunks it is fed and
/// however its stream ends.
pub proof fn lemma_complete_exchange_stays(exchange: ExchangeModel, chunks: Seq<Seq<u8>>)
    requires
        exchange.stopped,
    ensures
        chunks_model(exchange, chunks) == exchange,
        close_model(exchange) == exchange,
        stall_model(exchange) == exchange,
    decreases chunks.len(),
{
    if chunks.len() > 0 {
        lemma_complete_exchange_stays(exchange, chunks.skip(1));
    }
}

/// Whether two exchanges have the same prompt and the same answer, are both
/// complete or both not, and, where they are not, would go on in the same way.
pub open spec fn same_answer(one: ExchangeModel, other: ExchangeModel) -> bool {
    &&& one.prompt == other.prompt
    &&& one.aggregator == other.aggregator
    &&& one.stopped == other.stopped
    &&& !one.stopped ==> one.decoder == other.decoder
}

/// Whether the decoder of an exchange that is not complete falters on a
/// chunk.
pub open spec fn exchange_falters(exchange: ExchangeModel, chunk: Seq<u8>) -> bool {
    !exchange.stopped && falters(exchange.decoder, chunk)
}

/// Whether the decoder of an exchange falters on a chunk that is not the
/// last.
pub open spec fn exchange_falters_before_last(exchange: ExchangeModel, chunks: Seq<Seq<u8>>) -> bool
    decreases chunks.len(),
{
    if chunks.len() <= 1 {
        false
    } else {
        exchange_falters(exchange, chunks[0]) || exchange_falters_before_last(
            chunk_model(exchange, chunks[0]),
            chunks.skip(1),
        )
    }
}

/// A text fed to an exchange in two chunks makes the answer that the text fed
/// in one chunk makes, unless the decoder falters on the first chunk.
pub proof fn lemma_exchange_split(exchange: ExchangeModel, first: Seq<u8>, second: Seq<u8>)
    requires
        !exchange_falters(exchange, first),
    ensures
        same_answer(
            chunk_model(chunk_model(exchange, first), second),
            chunk_model(exchange, first + second),
        ),
{
    if !exchange.stopped {
        lemma_feed_split(exchange.decoder, first, second);
        let (between, head) = feed_model(exchange.decoder, first);
        let tail = feed_model(between, second).1;
        lemma_accept_all_concat(exchange.aggregator, head, tail);
    }
}

/// However the text of a stream is cut into chunks, an exchange makes of the
/// chunks, fed in their order, the answer that it makes of the whole text fed
/// at once, unless its decoder falters before the last chunk.
pub proof fn lemma_exchange_reassembly(exchange: ExchangeModel, chunks: Seq<Seq<u8>>)
    requires
        chunks.len() > 0,
        !exchange_falters_before_last(exchange, chunks),
    ensures
        same_answer(chunks_model(exchange, chunks), chunk_model(exchange, joined(chunks))),
    decreases chunks.len(),
{
    let next = chunk_model(exchange, chunks[0]);
    let rest = chunks.skip(1);
    if rest.len() == 0 {
        assert(joined(rest) =~= Seq::<u8>::empty());
        assert(joined(chunks) =~= chunks[0]);
        assert(chunks_model(next, rest) == next);
    } else {
        lemma_exchange_reassembly(next, rest);
        lemma_exchange_split(exchange, chunks[0], joined(rest));
    }
}

/// The answer of an exchange does not depend on how the text of its stream
/// was cut into chunks, unless the decoder falters before the last chunk.
pub proof fn lemma_ask_reassembly(
    prompt: Seq<char>,
    limit: nat,
    chunks: Seq<Seq<u8>>,
    close: StreamClose,
)
    requires
        chunks.len() > 0,
        !exchange_falters_before_last(ExchangeModel::start(prompt, limit), chunks),
    ensures
        ask_model(prompt, limit, chunks, close) == ask_model(
            prompt,
            limit,
            seq![joined(chunks)],
            close,
        ),
{
    let start = ExchangeModel::start(prompt, limit);
    lemma_exchange_reassembly(start, chunks);
    let whole = seq![joined(chunks)];
    assert(whole.skip(1) =~= Seq::<Seq<u8>>::empty());
    assert(chunks_model(start, whole) == chunk_model(start, joined(chunks))) by {
        assert(chunks_model(chunk_model(start, whole[0]), whole.skip(1)) == chunk_model(
            start,
            whole[0],
        ));
    }
}

/// One prompt and the answer to it, while the answer arrives.
#[derive(Debug)]
pub struct Exchange {
    prompt: String,
    decoder: FrameDecoder,
    aggregator: Aggregator,
    stopped: bool,
}

impl View for Exchange {
    type V = ExchangeModel;

    closed spec fn view(&self) -> ExchangeModel {
        ExchangeModel {
            prompt: self.prompt@,
            decoder: self.decoder@,
            aggregator: self.aggregator@,
            stopped: self.stopped,
        }
    }
}

/// The reason given where the stream stalled.
pub fn stall_reason_text() -> (text: &'static str)
    ensures
        text@ == stall_reason(),
{
    "stream_stalled"
}

impl Exchange {
    /// An exchange that has read nothing, and whose decoder keeps at most
    /// `limit` bytes.
    pub fn new(prompt: &str, limit: usize) -> (exchange: Exchange)
        ensures
            exchange@ == ExchangeModel::start(prompt@, limit as nat),
    {
        Exchange {
            prompt: prompt.to_owned(),
            decoder: FrameDecoder::new(limit),
            aggregator: Aggregator::new(),
            stopped: false,
        }
    }

    /// The prompt of the exchange.
    pub fn prompt(&self) -> (text: &str)
        ensures
            text@ == self@.prompt,
    {
        self.prompt.as_str()
    }

    /// Whether the exchange is complete.
    pub fn is_stopped(&self) -> (stopped: bool)
        ensures
            stopped == self@.stopped,
    {
        self.stopped
    }

    /// The answer so far.
    pub fn content(&self) -> (text: &str)
        ensures
            text@ == self@.aggregator.content,
    {
        self.aggregator.content()
    }

    /// Why the answer is over; empty while no reason was given.
    pub fn finish_reason(&self) -> (text: &str)
        ensures
            text@ == self@.aggregator.finish_reason,
    {
        self.aggregator.finish_reason()
    }

    /// Takes what was added to the answer since the last call, for display.
    pub fn take_echo(&mut self) -> (text: String)
        ensures
            text@ == old(self)@.aggregator.echo,
            final(self)@ == old(self)@.displayed(),
    {
        self.aggregator.take_echo()
    }

    /// Takes the next chunk of the stream and tells whether the exchange goes
    /// on.
    pub fn on_chunk(&mut self, chunk: &[u8]) -> (signal: ControlSignal)
        ensures
            final(self)@ == chunk_model(old(self)@, chunk@),
            signal is Stop <==> final(self)@.stopped,
    {
        if self.stopped {
            return ControlSignal::Stop;
        }
        let frames = self.decoder.feed(chunk);
        match self.aggregator.accept_frames(&frames) {
            ControlSignal::Stop => {
                self.stopped = true;
                ControlSignal::Stop
            },
            ControlSignal::Continue => match self.decoder.state() {
                DecoderState::Stalled => {
                    self.aggregator.set_finish_reason(stall_reason_text());
                    self.stopped = true;
                    ControlSignal::Stop
                },
                _ => ControlSignal::Continue,
            },
        }
    }

    /// Takes the end of the stream: the exchange is complete.
    pub fn on_close(&mut self)
        ensures
            final(self)@ == close_model(old(self)@),
            final(self)@.stopped,
    {
        if self.stopped {
            return ;
        }
        let frames = self.decoder.finish();
        let _ = self.aggregator.accept_frames(&frames);
        self.stopped = true;
    }

    /// Takes note that the stream no longer delivers: the exchange is
    /// complete.
    pub fn on_stall(&mut self)
        ensures
            final(self)@ == stall_model(old(self)@),
            final(self)@.stopped,
    {
        if self.stopped {
            return ;
        }
        self.aggregator.set_finish_reason(stall_reason_text());
        self.stopped = true;
    }

    /// Takes chunks one after the other.
    pub fn on_chunks(&mut self, chunks: &Vec<Vec<u8>>)
        ensures
            final(self)@ == chunks_model(old(self)@, chunks_view(chunks@)),
    {
        let ghost all = chunks_view(chunks@);
        let mut at: usize = 0;
        assert(all.skip(0) =~= all);
        while at < chunks.len()
            invariant
                at <= chunks.len(),
                all == chunks_view(chunks@),
                chunks_model(old(self)@, all) == chunks_model(self@, all.skip(at as int)),
            decreases chunks.len() - at,
        {
            let ghost rest = all.skip(at as int);
            assert(rest[0] == chunks@[at as int]@);
            assert(rest.skip(1) =~= all.skip(at + 1));
            let _ = self.on_chunk(chunks[at].as_slice());
            at = at + 1;
        }
    }

    /// The answer as it stands.
    pub fn completion(&self) -> (completion: Completion)
        ensures
            completion.content@ == self@.aggregator.content,
            completion.finish_reason@ == self@.aggregator.finish_reason,
    {
        Completion {
            content: self.aggregator.content().to_owned(),
            finish_reason: self.aggregator.finish_reason().to_owned(),
        }
    }
}

/// What a [`CopilotManager`] stands for.
pub struct ManagerModel {
    /// The turns of the conversation, oldest first.
    pub history: Seq<MessageModel>,
    /// The identifier of the session.
    pub vscode_sid: Seq<char>,
    /// The identifier of the device.
    pub device_id: Seq<char>,
    /// Whether an exchange is under way.
    pub busy: bool,
}

impl ManagerModel {
    /// The history is a history.
    pub open spec fn wf(self) -> bool {
        history_wf(self.history)
    }

    /// The session with an exchange under way.
    pub open spec fn begun(self) -> ManagerModel {
        ManagerModel {
            history: self.history,
            vscode_sid: self.vscode_sid,
            device_id: self.device_id,
            busy: true,
        }
    }

    /// The session with no exchange under way.
    pub open spec fn idle(self) -> ManagerModel {
        ManagerModel {
            history: self.history,
            vscode_sid: self.vscode_sid,
            device_id: self.device_id,
            busy: false,
        }
    }

    /// The session after an exchange: its history has the prompt and the
    /// answer at its end, and no exchange is under way.
    pub open spec fn committed(self, prompt: Seq<char>, answer: Seq<char>) -> ManagerModel {
        ManagerModel {
            history: self.history + turn_pair(prompt, answer),
            vscode_sid: self.vscode_sid,
            device_id: self.device_id,
            busy: false,
        }
    }
}

/// A chat session.
pub struct CopilotManager<'a, 'alloc> {
    vscode_sid: String,
    device_id: String,
    auth: &'a GithubAuth,
    allocator: &'alloc oxc_allocator::Allocator,
    history: Vec<Message<'alloc>>,
    busy: bool,
}

impl<'a, 'alloc> View for CopilotManager<'a, 'alloc> {
    type V = ManagerModel;

    closed spec fn view(&self) -> ManagerModel {
        ManagerModel {
            history: history_view(self.history@),
            vscode_sid: self.vscode_sid@,
            device_id: self.device_id@,
            busy: self.busy,
        }
    }
}

impl<'a, 'alloc> CopilotManager<'a, 'alloc> {
    /// A session whose history is the system turn `prompt` alone, with a fresh
    /// session identifier and a fresh device identifier of six random bytes.
    pub fn new(
        auth: &'a GithubAuth,
        allocator: &'a oxc_allocator::Allocator,
        prompt: &'static str,
    ) -> (manager: CopilotManager<'a, 'alloc>) where 'a: 'alloc
        ensures
            manager@.history == history_after(prompt@, Seq::empty()),
            manager@.wf(),
            !manager@.busy,
            exists|bytes: Seq<u8>| bytes.len() == 6 && manager@.device_id == hex_of(bytes),
            exists|uuid: Seq<char>, millis: int|
                manager@.vscode_sid == uuid + decimal_of(millis),
            manager.auth() == auth,
    {
        let vscode_sid = generate_vscode_session_id();
        let device_id = random_hex_string(6);
        let mut history: Vec<Message<'alloc>> = Vec::new();
        history.push(
            Message { content: arena_str(allocator, prompt), role: arena_str(allocator, "system") },
        );
        assert(history_view(history@) =~= history_after(prompt@, Seq::empty()));
        CopilotManager { vscode_sid, device_id, auth, allocator, history, busy: false }
    }

    /// What the login yielded.
    pub closed spec fn auth(&self) -> &GithubAuth {
        self.auth
    }

    /// The token that the service asks for.
    pub fn token(&self) -> (token: &String)
        ensures
            *token == self.auth().copilot_auth.token,
    {
        &self.auth.copilot_auth.token
    }

    /// The identifier of the session.
    pub fn vscode_sid(&self) -> (id: &String)
        ensures
            id@ == self@.vscode_sid,
    {
        &self.vscode_sid
    }

    /// The identifier of the device.
    pub fn device_id(&self) -> (id: &String)
        ensures
            id@ == self@.device_id,
    {
        &self.device_id
    }

    /// The turns of the conversation, oldest first.
    pub fn history(&self) -> (history: &Vec<Message<'alloc>>)
        ensures
            history_view(history@) == self@.history,
    {
        &self.history
    }

    /// Whether an exchange is under way.
    pub fn is_busy(&self) -> (busy: bool)
        ensures
            busy == self@.busy,
    {
        self.busy
    }

    /// The turns to send with a prompt: the history, then the prompt as a user
    /// turn.
    pub fn request_messages(&self, prompt: &str) -> (messages: Vec<Message<'alloc>>)
        ensures
            history_view(messages@) == self@.history.push(
                MessageModel { content: prompt@, role: user_role() },
            ),
    {
        let mut messages: Vec<Message<'alloc>> = Vec::new();
        let mut at: usize = 0;
        while at < self.history.len()
            invariant
                at <= self.history.len(),
                messages@ == self.history@.take(at as int),
            decreases self.history.len() - at,
        {
            messages.push(self.history[at]);
            assert(messages@ =~= self.history@.take(at + 1));
            at = at + 1;
        }
        assert(self.history@.take(at as int) =~= self.history@);
        messages.push(
            Message {
                content: arena_str(self.allocator, prompt),
                role: arena_str(self.allocator, "user"),
            },
        );
        assert(history_view(messages@) =~= self@.history.push(
            MessageModel { content: prompt@, role: user_role() },
        ));
        messages
    }

    /// Starts an exchange, unless one is under way.
    pub fn begin(&mut self, prompt: &str) -> (exchange: Option<Exchange>)
        ensures
            match exchange {
                Some(started) => !old(self)@.busy && final(self)@ == old(self)@.begun()
                    && started@ == ExchangeModel::start(prompt@, MAX_RESIDUAL as nat),
                None => old(self)@.busy && final(self)@ == old(self)@,
            },
    {
        if self.busy {
            return None;
        }
        self.busy = true;
        Some(Exchange::new(prompt, MAX_RESIDUAL))
    }

    /// Gives up the exchange under way: the history stays as it is.
    pub fn abort(&mut self)
        ensures
            final(self)@ == old(self)@.idle(),
    {
        self.busy = false;
    }

    /// Ends the exchange under way and adds its prompt and its answer to the
    /// history. An exchange that is not complete, or a session without an
    /// exchange under way, is left as it is.
    pub fn commit(&mut self, exchange: &Exchange) -> (completion: Option<Completion>)
        ensures
            match completion {
                Some(answer) => old(self)@.busy && exchange@.stopped && final(self)@ == old(
                    self,
                )@.committed(exchange@.prompt, exchange@.aggregator.content) && answer.content@
                    == exchange@.aggregator.content && answer.finish_reason@
                    == exchange@.aggregator.finish_reason,
                None => !(old(self)@.busy && exchange@.stopped) && final(self)@ == old(self)@,
            },
            old(self)@.wf() ==> final(self)@.wf(),
    {
        if !self.busy || !exchange.is_stopped() {
            return None;
        }
        let answer = exchange.completion();
        let ghost before = history_view(self.history@);
        self.history.push(
            Message {
                content: arena_str(self.allocator, exchange.prompt()),
                role: arena_str(self.allocator, "user"),
            },
        );
        self.history.push(
            Message {
                content: arena_str(self.allocator, answer.content.as_str()),
                role: arena_str(self.allocator, "assistant"),
            },
        );
        self.busy = false;
        proof {
            assert(history_view(self.history@) =~= before + turn_pair(
                exchange@.prompt,
                exchange@.aggregator.content,
            ));
            if old(self)@.wf() {
                lemma_turn_pair_keeps_history(
                    before,
                    exchange@.prompt,
                    exchange@.aggregator.content,
                );
            }
        }
        Some(answer)
    }

    /// One exchange from its prompt to its answer, for a stream that delivered
    /// `chunks` and then came to its end as `close` says.
    ///
    /// The answer and the prompt are added to the history where there is an
    /// answer; where there is none, the session stays as it is.
    pub fn ask(&mut self, prompt: &String, chunks: &Vec<Vec<u8>>, close: StreamClose) -> (res:
        Result<Completion, AskError>)
        ensures
            match res {
                Ok(answer) => {
                    &&& !old(self)@.busy
                    &&& ask_model(prompt@, MAX_RESIDUAL as nat, chunks_view(chunks@), close) matches Ok(
                        state,
                    )
                    &&& answer.content@ == state.content
                    &&& answer.finish_reason@ == state.finish_reason
                    &&& final(self)@ == old(self)@.committed(prompt@, state.content)
                },
                Err(error) => final(self)@ == old(self)@ && if old(self)@.busy {
                    error == AskError::Busy
                } else {
                    ask_model(prompt@, MAX_RESIDUAL as nat, chunks_view(chunks@), close) == Err::<
                        AggregatorModel,
                        AskError,
                    >(error)
                },
            },
            old(self)@.wf() ==> final(self)@.wf(),
    {
        let mut exchange = match self.begin(prompt.as_str()) {
            Some(started) => started,
            None => {
                return Err(AskError::Busy);
            },
        };
        exchange.on_chunks(chunks);
        proof {
            lemma_chunks_keep_prompt(
                ExchangeModel::start(prompt@, MAX_RESIDUAL as nat),
                chunks_view(chunks@),
            );
        }
        if !exchange.is_stopped() {
            match close {
                StreamClose::Finished => {
                    exchange.on_close();
                },
                StreamClose::IdleTimeout => {
                    exchange.on_stall();
                },
                StreamClose::TransportFailed => {
                    self.abort();
                    return Err(AskError::Transport);
                },
                StreamClose::AuthExpired => {
                    self.abort();
                    return Err(AskError::AuthExpired);
                },
            }
        }
        match self.commit(&exchange) {
            Some(answer) => Ok(answer),
            None => Err(AskError::Busy),
        }
    }
}

} // verus!
