//! The order of work of one conversion.
//!
//! A conversion decodes, filters, encodes and muxes through a native
//! multimedia library. The library calls are made by a driver outside this
//! crate; what to call next is decided here. The driver performs the
//! operation that the pipeline awaits, reports how it ended, and is told the
//! next one, until the pipeline awaits [`Operation::Finish`].

use vstd::prelude::*;

verus! {

/// Why a conversion failed.
#[derive(Clone, Copy, Debug, PartialEq, Eq, Structural)]
pub enum TranscodeError {
    /// The input cannot be opened or read.
    InputUnreadable,
    /// The input holds no audio stream.
    StreamNotFound,
    /// No decoder can be set up for the input's audio stream.
    InputUnsupported,
    /// The output file cannot be created.
    OutputUnwritable,
    /// The codec asked for is not available.
    EncoderNotFound,
    /// The chain that resamples and reformats could not be built or run.
    FilterGraph,
    /// The decoder refused a packet or a flush.
    Decode,
    /// The encoder could not be opened, or refused a frame or a flush.
    Encode,
    /// The output container refused a stream, its header, a packet or its
    /// trailer.
    Mux,
    /// The codec cannot be packaged into the container that was asked for.
    IllegalContainer,
}

/// One step of a conversion, performed outside this crate.
#[derive(Clone, Copy, Debug, PartialEq, Eq, Structural)]
pub enum Operation {
    /// Open the input container.
    OpenInput,
    /// Create the output container.
    OpenOutput,
    /// Find the best audio stream of the input; the outcome carries its index.
    SelectAudioStream,
    /// Build a decoder from the parameters of the selected stream.
    OpenDecoder,
    /// Find the encoder, add the audio stream to the output, configure the
    /// encoder and open it.
    OpenEncoder,
    /// Build the chain that turns decoded frames into what the encoder takes.
    BuildFilter,
    /// Add the cover's stream to the output.
    AddCoverStream,
    /// Set the output's metadata and write its header.
    WriteHeader,
    /// Read the next packet of the input; the outcome carries the index of
    /// the stream that the packet belongs to.
    ReadPacket,
    /// Rescale the packet's timestamps and send it to the decoder.
    SendPacket,
    /// Take the next decoded frame and stamp it with its presentation time.
    ReceiveFrame,
    /// Push the decoded frame into the filter chain.
    FilterFrame,
    /// Take the next frame out of the filter chain.
    PullFrame,
    /// Send the filtered frame to the encoder.
    EncodeFrame,
    /// Take the next encoded packet.
    ReceivePacket,
    /// Rescale the encoded packet's timestamps and write it, interleaved.
    WritePacket,
    /// Tell the decoder that the input has ended.
    FlushDecoder,
    /// Tell the filter chain that no frame will follow.
    FlushFilter,
    /// Tell the encoder that no frame will follow.
    FlushEncoder,
    /// Write the one packet that carries the cover.
    WriteCover,
    /// Write the output's trailer.
    WriteTrailer,
    /// Nothing is left to do: the conversion has succeeded or failed.
    Finish,
}

/// How an operation ended.
#[derive(Clone, Copy, Debug, PartialEq, Eq, Structural)]
pub enum Outcome {
    /// It succeeded and handed nothing out.
    Done,
    /// It handed out a packet or a frame. Where the operation reads a packet
    /// or selects a stream, the number is the stream's index.
    Item(usize),
    /// There was nothing to hand out: the input has ended, the stage is
    /// drained for now, or no such stream or encoder exists.
    Empty,
    /// It failed.
    Failed,
}

/// How far the input has been pushed through the stages.
#[derive(Clone, Copy, Debug, PartialEq, Eq, Structural)]
pub enum Phase {
    /// Input and output are being set up; no header has been written.
    Setup,
    /// Packets of the input are being fed to the decoder.
    Feeding,
    /// The decoder has been told that the input has ended.
    DecoderFlushed,
    /// The filter chain has been flushed too.
    FilterFlushed,
    /// The encoder has been flushed too.
    EncoderFlushed,
}

/// The state of one conversion.
#[derive(Clone, Copy, Debug, PartialEq, Eq, Structural)]
pub struct Pipeline {
    /// The operation whose outcome is awaited.
    pub awaiting: Operation,
    /// How far the input has been pushed through the stages.
    pub phase: Phase,
    /// The index of the selected audio stream, once it is known.
    pub stream: usize,
    /// Whether the output gets a stream of its own for the cover.
    pub cover_stream: bool,
    /// Whether the cover's packet is still to be written.
    pub cover_pending: bool,
    /// Why the conversion failed, if it did.
    pub failure: Option<TranscodeError>,
}

/// The failure that is reported where an operation does not end as it should.
pub open spec fn failure_of(operation: Operation, outcome: Outcome) -> TranscodeError {
    match operation {
        Operation::OpenInput => TranscodeError::InputUnreadable,
        Operation::OpenOutput => TranscodeError::OutputUnwritable,
        Operation::SelectAudioStream => if outcome == Outcome::Failed {
            TranscodeError::InputUnreadable
        } else {
            TranscodeError::StreamNotFound
        },
        Operation::OpenDecoder => TranscodeError::InputUnsupported,
        Operation::OpenEncoder => if outcome == Outcome::Empty {
            TranscodeError::EncoderNotFound
        } else {
            TranscodeError::Encode
        },
        Operation::BuildFilter => TranscodeError::FilterGraph,
        Operation::AddCoverStream => TranscodeError::Mux,
        Operation::WriteHeader => TranscodeError::Mux,
        Operation::ReadPacket => TranscodeError::InputUnreadable,
        Operation::SendPacket => TranscodeError::Decode,
        Operation::ReceiveFrame => TranscodeError::Decode,
        Operation::FilterFrame => TranscodeError::FilterGraph,
        Operation::PullFrame => TranscodeError::FilterGraph,
        Operation::EncodeFrame => TranscodeError::Encode,
        Operation::ReceivePacket => TranscodeError::Encode,
        Operation::WritePacket => TranscodeError::Mux,
        Operation::FlushDecoder => TranscodeError::Decode,
        Operation::FlushFilter => TranscodeError::FilterGraph,
        Operation::FlushEncoder => TranscodeError::Encode,
        Operation::WriteCover => TranscodeError::Mux,
        Operation::WriteTrailer => TranscodeError::Mux,
        Operation::Finish => TranscodeError::Mux,
    }
}

/// The place of a phase in the order of the phases.
pub open spec fn phase_rank(phase: Phase) -> nat {
    match phase {
        Phase::Setup => 0,
        Phase::Feeding => 1,
        Phase::DecoderFlushed => 2,
        Phase::FilterFlushed => 3,
        Phase::EncoderFlushed => 4,
    }
}

impl Pipeline {
    /// The pipeline of a conversion that has not begun.
    pub open spec fn initial(cover_stream: bool) -> Pipeline {
        Pipeline {
            awaiting: Operation::OpenInput,
            phase: Phase::Setup,
            stream: 0,
            cover_stream,
            cover_pending: cover_stream,
            failure: None,
        }
    }

    /// This pipeline, awaiting another operation.
    pub open spec fn then_await(self, operation: Operation) -> Pipeline {
        Pipeline { awaiting: operation, ..self }
    }

    /// This pipeline in another phase, awaiting another operation.
    pub open spec fn enter(self, phase: Phase, operation: Operation) -> Pipeline {
        Pipeline { awaiting: operation, phase, ..self }
    }

    /// This pipeline, failed.
    pub open spec fn failed(self, error: TranscodeError) -> Pipeline {
        Pipeline { awaiting: Operation::Finish, failure: Some(error), ..self }
    }

    /// The pipeline after the awaited operation has succeeded without
    /// handing anything out.
    pub open spec fn after_done(self) -> Pipeline {
        match self.awaiting {
            Operation::OpenInput => self.then_await(Operation::OpenOutput),
            Operation::OpenOutput => self.then_await(Operation::SelectAudioStream),
            Operation::OpenDecoder => self.then_await(Operation::OpenEncoder),
            Operation::OpenEncoder => self.then_await(Operation::BuildFilter),
            Operation::BuildFilter => if self.cover_stream {
                self.then_await(Operation::AddCoverStream)
            } else {
                self.then_await(Operation::WriteHeader)
            },
            Operation::AddCoverStream => self.then_await(Operation::WriteHeader),
            Operation::WriteHeader => self.enter(Phase::Feeding, Operation::ReadPacket),
            Operation::SendPacket => self.then_await(Operation::ReceiveFrame),
            Operation::FilterFrame => self.then_await(Operation::PullFrame),
            Operation::EncodeFrame => self.then_await(Operation::ReceivePacket),
            Operation::WritePacket => self.then_await(Operation::ReceivePacket),
            Operation::FlushDecoder => self.enter(Phase::DecoderFlushed, Operation::ReceiveFrame),
            Operation::FlushFilter => self.enter(Phase::FilterFlushed, Operation::PullFrame),
            Operation::FlushEncoder => self.enter(Phase::EncoderFlushed, Operation::ReceivePacket),
            Operation::WriteCover => Pipeline {
                awaiting: Operation::WriteTrailer,
                cover_pending: false,
                ..self
            },
            Operation::WriteTrailer => self.then_await(Operation::Finish),
            _ => self.failed(failure_of(self.awaiting, Outcome::Done)),
        }
    }

    /// The pipeline after the awaited operation has handed out an item.
    pub open spec fn after_item(self, index: usize) -> Pipeline {
        match self.awaiting {
            Operation::SelectAudioStream => Pipeline {
                awaiting: Operation::OpenDecoder,
                stream: index,
                ..self
            },
            Operation::ReadPacket => if index == self.stream {
                self.then_await(Operation::SendPacket)
            } else {
                self.then_await(Operation::ReadPacket)
            },
            Operation::ReceiveFrame => self.then_await(Operation::FilterFrame),
            Operation::PullFrame => self.then_await(Operation::EncodeFrame),
            Operation::ReceivePacket => self.then_await(Operation::WritePacket),
            _ => self.failed(failure_of(self.awaiting, Outcome::Item(index))),
        }
    }

    /// The pipeline after the awaited operation has found nothing to hand
    /// out. A drained stage gives way to the stage before it, or, once that
    /// one has been flushed, is flushed itself.
    pub open spec fn after_empty(self) -> Pipeline {
        match self.awaiting {
            Operation::ReadPacket => self.then_await(Operation::FlushDecoder),
            Operation::ReceiveFrame => if self.phase == Phase::Feeding {
                self.then_await(Operation::ReadPacket)
            } else {
                self.then_await(Operation::FlushFilter)
            },
            Operation::PullFrame => if self.phase == Phase::FilterFlushed {
                self.then_await(Operation::FlushEncoder)
            } else {
                self.then_await(Operation::ReceiveFrame)
            },
            Operation::ReceivePacket => if self.phase != Phase::EncoderFlushed {
                self.then_await(Operation::PullFrame)
            } else if self.cover_pending {
                self.then_await(Operation::WriteCover)
            } else {
                self.then_await(Operation::WriteTrailer)
            },
            _ => self.failed(failure_of(self.awaiting, Outcome::Empty)),
        }
    }

    /// The pipeline after the awaited operation has ended with `outcome`.
    /// Once it awaits [`Operation::Finish`] it changes no more.
    pub open spec fn step(self, outcome: Outcome) -> Pipeline {
        if self.awaiting == Operation::Finish {
            self
        } else {
            match outcome {
                Outcome::Done => self.after_done(),
                Outcome::Item(index) => self.after_item(index),
                Outcome::Empty => self.after_empty(),
                Outcome::Failed => self.failed(failure_of(self.awaiting, Outcome::Failed)),
            }
        }
    }

    /// Whether the conversion is over.
    pub open spec fn finished(self) -> bool {
        self.awaiting == Operation::Finish
    }

    /// Whether the conversion is over and has succeeded.
    pub open spec fn succeeded(self) -> bool {
        self.awaiting == Operation::Finish && self.failure is None
    }

    /// What holds of every pipeline that a conversion can reach: the
    /// operation it awaits fits the phase it is in, the cover's packet is
    /// pending until it has been written, and only where the output has a
    /// stream for it, and a failure is recorded only at the end.
    pub open spec fn well_formed(self) -> bool {
        &&& self.cover_pending ==> self.cover_stream
        &&& self.failure is Some ==> self.awaiting == Operation::Finish
        &&& match self.awaiting {
            Operation::OpenInput
            | Operation::OpenOutput
            | Operation::SelectAudioStream
            | Operation::OpenDecoder
            | Operation::OpenEncoder
            | Operation::BuildFilter
            | Operation::AddCoverStream
            | Operation::WriteHeader => self.phase == Phase::Setup && self.cover_pending
                == self.cover_stream,
            Operation::ReadPacket | Operation::SendPacket | Operation::FlushDecoder => self.phase
                == Phase::Feeding && self.cover_pending == self.cover_stream,
            Operation::ReceiveFrame | Operation::FilterFrame => (self.phase == Phase::Feeding
                || self.phase == Phase::DecoderFlushed) && self.cover_pending == self.cover_stream,
            Operation::FlushFilter => self.phase == Phase::DecoderFlushed && self.cover_pending
                == self.cover_stream,
            Operation::PullFrame | Operation::EncodeFrame => (self.phase == Phase::Feeding
                || self.phase == Phase::DecoderFlushed || self.phase == Phase::FilterFlushed)
                && self.cover_pending == self.cover_stream,
            Operation::FlushEncoder => self.phase == Phase::FilterFlushed && self.cover_pending
                == self.cover_stream,
            Operation::ReceivePacket | Operation::WritePacket => self.phase != Phase::Setup
                && self.cover_pending == self.cover_stream,
            Operation::WriteCover => self.phase == Phase::EncoderFlushed && self.cover_pending,
            Operation::WriteTrailer => self.phase == Phase::EncoderFlushed && !self.cover_pending,
            Operation::Finish => self.failure is None ==> self.phase == Phase::EncoderFlushed
                && !self.cover_pending,
        }
    }

    /// The pipeline of a conversion that has not begun. It awaits the opening
    /// of the input. `cover_stream` says whether the output gets a stream of
    /// its own for the cover, with one packet on it.
    pub fn new(cover_stream: bool) -> (pipeline: Pipeline)
        ensures
            pipeline == Pipeline::initial(cover_stream),
            pipeline.well_formed(),
    {
        Pipeline {
            awaiting: Operation::OpenInput,
            phase: Phase::Setup,
            stream: 0,
            cover_stream,
            cover_pending: cover_stream,
            failure: None,
        }
    }

    /// The operation whose outcome is awaited.
    pub fn awaited(&self) -> (operation: Operation)
        ensures
            operation == self.awaiting,
    {
        self.awaiting
    }

    /// The result of the conversion, once it is over.
    pub fn result(&self) -> (result: Option<Result<(), TranscodeError>>)
        ensures
            result == if !self.finished() {
                None::<Result<(), TranscodeError>>
            } else {
                match self.failure {
                    None => Some(Ok::<(), TranscodeError>(())),
                    Some(e) => Some(Err::<(), TranscodeError>(e)),
                }
            },
    {
        if self.awaiting != Operation::Finish {
            None
        } else {
            match self.failure {
                None => Some(Ok(())),
                Some(e) => Some(Err(e)),
            }
        }
    }

    fn fail(&mut self, outcome: Outcome)
        ensures
            *final(self) == old(self).failed(failure_of(old(self).awaiting, outcome)),
    {
        let error = match self.awaiting {
            Operation::OpenInput | Operation::ReadPacket => TranscodeError::InputUnreadable,
            Operation::OpenOutput => TranscodeError::OutputUnwritable,
            Operation::SelectAudioStream => if outcome == Outcome::Failed {
                TranscodeError::InputUnreadable
            } else {
                TranscodeError::StreamNotFound
            },
            Operation::OpenDecoder => TranscodeError::InputUnsupported,
            Operation::OpenEncoder => if outcome == Outcome::Empty {
                TranscodeError::EncoderNotFound
            } else {
                TranscodeError::Encode
            },
            Operation::BuildFilter
            | Operation::FilterFrame
            | Operation::PullFrame
            | Operation::FlushFilter => TranscodeError::FilterGraph,
            Operation::SendPacket | Operation::ReceiveFrame | Operation::FlushDecoder =>
                TranscodeError::Decode,
            Operation::EncodeFrame | Operation::ReceivePacket | Operation::FlushEncoder =>
                TranscodeError::Encode,
            Operation::AddCoverStream
            | Operation::WriteHeader
            | Operation::WritePacket
            | Operation::WriteCover
            | Operation::WriteTrailer
            | Operation::Finish => TranscodeError::Mux,
        };
        self.awaiting = Operation::Finish;
        self.failure = Some(error);
    }

    /// Takes the outcome of the awaited operation and says which operation
    /// comes next. An outcome that the awaited operation cannot have counts
    /// as its failure.
    pub fn advance(&mut self, outcome: Outcome) -> (next: Operation)
        ensures
            *final(self) == old(self).step(outcome),
            next == final(self).awaiting,
            old(self).well_formed() ==> final(self).well_formed(),
    {
        if self.awaiting == Operation::Finish {
            return Operation::Finish;
        }
        match outcome {
            Outcome::Failed => {
                self.fail(outcome);
            },
            Outcome::Done => match self.awaiting {
                Operation::OpenInput => {
                    self.awaiting = Operation::OpenOutput;
                },
                Operation::OpenOutput => {
                    self.awaiting = Operation::SelectAudioStream;
                },
                Operation::OpenDecoder => {
                    self.awaiting = Operation::OpenEncoder;
                },
                Operation::OpenEncoder => {
                    self.awaiting = Operation::BuildFilter;
                },
                Operation::BuildFilter => {
                    if self.cover_stream {
                        self.awaiting = Operation::AddCoverStream;
                    } else {
                        self.awaiting = Operation::WriteHeader;
                    }
                },
                Operation::AddCoverStream => {
                    self.awaiting = Operation::WriteHeader;
                },
                Operation::WriteHeader => {
                    self.phase = Phase::Feeding;
                    self.awaiting = Operation::ReadPacket;
                },
                Operation::SendPacket => {
                    self.awaiting = Operation::ReceiveFrame;
                },
                Operation::FilterFrame => {
                    self.awaiting = Operation::PullFrame;
                },
                Operation::EncodeFrame | Operation::WritePacket => {
                    self.awaiting = Operation::ReceivePacket;
                },
                Operation::FlushDecoder => {
                    self.phase = Phase::DecoderFlushed;
                    self.awaiting = Operation::ReceiveFrame;
                },
                Operation::FlushFilter => {
                    self.phase = Phase::FilterFlushed;
                    self.awaiting = Operation::PullFrame;
                },
                Operation::FlushEncoder => {
                    self.phase = Phase::EncoderFlushed;
                    self.awaiting = Operation::ReceivePacket;
                },
                Operation::WriteCover => {
                    self.cover_pending = false;
                    self.awaiting = Operation::WriteTrailer;
                },
                Operation::WriteTrailer => {
                    self.awaiting = Operation::Finish;
                },
                _ => {
                    self.fail(outcome);
                },
            },
            Outcome::Item(index) => match self.awaiting {
                Operation::SelectAudioStream => {
                    self.stream = index;
                    self.awaiting = Operation::OpenDecoder;
                },
                Operation::ReadPacket => {
                    if index == self.stream {
                        self.awaiting = Operation::SendPacket;
                    }
                },
                Operation::ReceiveFrame => {
                    self.awaiting = Operation::FilterFrame;
                },
                Operation::PullFrame => {
                    self.awaiting = Operation::EncodeFrame;
                },
                Operation::ReceivePacket => {
                    self.awaiting = Operation::WritePacket;
                },
                _ => {
                    self.fail(outcome);
                },
            },
            Outcome::Empty => match self.awaiting {
                Operation::ReadPacket => {
                    self.awaiting = Operation::FlushDecoder;
                },
                Operation::ReceiveFrame => {
                    if self.phase == Phase::Feeding {
                        self.awaiting = Operation::ReadPacket;
                    } else {
                        self.awaiting = Operation::FlushFilter;
                    }
                },
                Operation::PullFrame => {
                    if self.phase == Phase::FilterFlushed {
                        self.awaiting = Operation::FlushEncoder;
                    } else {
                        self.awaiting = Operation::ReceiveFrame;
                    }
                },
                Operation::ReceivePacket => {
                    if self.phase != Phase::EncoderFlushed {
                        self.awaiting = Operation::PullFrame;
                    } else if self.cover_pending {
                        self.awaiting = Operation::WriteCover;
                    } else {
                        self.awaiting = Operation::WriteTrailer;
                    }
                },
                _ => {
                    self.fail(outcome);
                },
            },
        }
        self.awaiting
    }
}

impl Pipeline {
    /// The pipeline after a row of outcomes, each the outcome of the operation
    /// that was awaited when it came.
    pub open spec fn run(self, outcomes: Seq<Outcome>) -> Pipeline
        decreases outcomes.len(),
    {
        if outcomes.len() == 0 {
            self
        } else {
            self.run(outcomes.drop_last()).step(outcomes.last())
        }
    }

    /// How often, in a row of outcomes, `operation` was the awaited one and
    /// succeeded without handing anything out.
    pub open spec fn completed(self, outcomes: Seq<Outcome>, operation: Operation) -> nat
        decreases outcomes.len(),
    {
        if outcomes.len() == 0 {
            0
        } else {
            let before = self.run(outcomes.drop_last());
            let earlier = self.completed(outcomes.drop_last(), operation);
            if before.awaiting == operation && outcomes.last() == Outcome::Done {
                earlier + 1
            } else {
                earlier
            }
        }
    }

    /// How often an operation that is done once in a conversion has been
    /// completed by the time an unfailed pipeline has come to this state.
    pub open spec fn completed_so_far(self, operation: Operation) -> nat {
        let done: bool = match operation {
            Operation::OpenEncoder => self.phase != Phase::Setup || self.awaiting
                == Operation::BuildFilter || self.awaiting == Operation::AddCoverStream
                || self.awaiting == Operation::WriteHeader,
            Operation::AddCoverStream => self.cover_stream && (self.phase != Phase::Setup
                || self.awaiting == Operation::WriteHeader),
            Operation::WriteHeader => phase_rank(self.phase) >= 1,
            Operation::FlushDecoder => phase_rank(self.phase) >= 2,
            Operation::FlushFilter => phase_rank(self.phase) >= 3,
            Operation::FlushEncoder => phase_rank(self.phase) >= 4,
            Operation::WriteCover => self.cover_stream && !self.cover_pending,
            Operation::WriteTrailer => self.awaiting == Operation::Finish,
            _ => false,
        };
        if done {
            1
        } else {
            0
        }
    }
}

/// The operations that a conversion performs once: those that add a stream,
/// write header, cover or trailer, and the three flushes.
pub open spec fn done_once(operation: Operation) -> bool {
    ||| operation == Operation::OpenEncoder
    ||| operation == Operation::AddCoverStream
    ||| operation == Operation::WriteHeader
    ||| operation == Operation::FlushDecoder
    ||| operation == Operation::FlushFilter
    ||| operation == Operation::FlushEncoder
    ||| operation == Operation::WriteCover
    ||| operation == Operation::WriteTrailer
}

proof fn lemma_run_tally(cover: bool, outcomes: Seq<Outcome>, operation: Operation)
    requires
        done_once(operation),
    ensures
        Pipeline::initial(cover).run(outcomes).well_formed(),
        Pipeline::initial(cover).run(outcomes).cover_stream == cover,
        Pipeline::initial(cover).completed(outcomes, operation) <= 1,
        Pipeline::initial(cover).run(outcomes).failure is None ==> Pipeline::initial(
            cover,
        ).completed(outcomes, operation) == Pipeline::initial(cover).run(
            outcomes,
        ).completed_so_far(operation),
    decreases outcomes.len(),
{
    let start = Pipeline::initial(cover);
    if outcomes.len() > 0 {
        lemma_run_tally(cover, outcomes.drop_last(), operation);
        let before = start.run(outcomes.drop_last());
        let after = before.step(outcomes.last());
        assert(after == start.run(outcomes));
        if before.failure is Some {
            assert(before.awaiting == Operation::Finish);
        }
    }
}

/// Whatever the outcomes, the pipeline stays well formed: the operation it
/// asks for fits the phase it is in. So the header is written before any
/// packet, the filter chain is flushed only after the decoder, the encoder
/// only after the filter chain, and cover and trailer are written only after
/// all three.
pub proof fn law_order_of_work(cover: bool, outcomes: Seq<Outcome>)
    ensures
        Pipeline::initial(cover).run(outcomes).well_formed(),
        ({
            let now = Pipeline::initial(cover).run(outcomes);
            &&& now.awaiting == Operation::WriteHeader ==> now.phase == Phase::Setup
            &&& now.awaiting == Operation::WritePacket ==> phase_rank(now.phase) >= 1
            &&& now.awaiting == Operation::FlushDecoder ==> phase_rank(now.phase) == 1
            &&& now.awaiting == Operation::FlushFilter ==> phase_rank(now.phase) == 2
            &&& now.awaiting == Operation::FlushEncoder ==> phase_rank(now.phase) == 3
            &&& now.awaiting == Operation::WriteCover ==> phase_rank(now.phase) == 4
            &&& now.awaiting == Operation::WriteTrailer ==> phase_rank(now.phase) == 4
        }),
{
    lemma_run_tally(cover, outcomes, Operation::WriteHeader);
}

/// A failure of any operation ends the conversion at once, with the error
/// that belongs to the operation; nothing else is asked for afterwards.
pub proof fn law_failure_ends_conversion(pipeline: Pipeline, later: Outcome)
    requires
        !pipeline.finished(),
    ensures
        pipeline.step(Outcome::Failed).finished(),
        pipeline.step(Outcome::Failed).failure == Some(
            failure_of(pipeline.awaiting, Outcome::Failed),
        ),
        pipeline.step(Outcome::Failed).step(later) == pipeline.step(Outcome::Failed),
{
}

/// In no conversion is a stream added, the header, the cover or the trailer
/// written, or a stage flushed more than once.
pub proof fn law_done_at_most_once(cover: bool, outcomes: Seq<Outcome>, operation: Operation)
    requires
        done_once(operation),
    ensures
        Pipeline::initial(cover).completed(outcomes, operation) <= 1,
{
    lemma_run_tally(cover, outcomes, operation);
}

/// A conversion that has succeeded has added the audio stream, written the
/// header, flushed decoder, filter chain and encoder, and written the
/// trailer, each exactly once. Where the output has a stream for the cover,
/// that stream was added once and one packet was written on it; where it has
/// none, neither happened.
pub proof fn law_successful_conversion(cover: bool, outcomes: Seq<Outcome>)
    requires
        Pipeline::initial(cover).run(outcomes).succeeded(),
    ensures
        Pipeline::initial(cover).completed(outcomes, Operation::OpenEncoder) == 1,
        Pipeline::initial(cover).completed(outcomes, Operation::WriteHeader) == 1,
        Pipeline::initial(cover).completed(outcomes, Operation::FlushDecoder) == 1,
        Pipeline::initial(cover).completed(outcomes, Operation::FlushFilter) == 1,
        Pipeline::initial(cover).completed(outcomes, Operation::FlushEncoder) == 1,
        Pipeline::initial(cover).completed(outcomes, Operation::WriteTrailer) == 1,
        Pipeline::initial(cover).completed(outcomes, Operation::AddCoverStream) == if cover {
            1nat
        } else {
            0nat
        },
        Pipeline::initial(cover).completed(outcomes, Operation::WriteCover) == if cover {
            1nat
        } else {
            0nat
        },
{
    lemma_run_tally(cover, outcomes, Operation::OpenEncoder);
    lemma_run_tally(cover, outcomes, Operation::WriteHeader);
    lemma_run_tally(cover, outcomes, Operation::FlushDecoder);
    lemma_run_tally(cover, outcomes, Operation::FlushFilter);
    lemma_run_tally(cover, outcomes, Operation::FlushEncoder);
    lemma_run_tally(cover, outcomes, Operation::WriteTrailer);
    lemma_run_tally(cover, outcomes, Operation::AddCoverStream);
    lemma_run_tally(cover, outcomes, Operation::WriteCover);
}

} // verus!
