//! Events and commands of a realtime audio session.
//!
//! The transport carrying them (channels, sockets) lives outside this crate;
//! these are the plain values exchanged over it.

use vstd::prelude::*;

verus! {

/// Events sent from the realtime client to the UI.
#[derive(Clone, Debug)]
pub enum RealtimeEvent {
    /// The session is ready for communication.
    SessionReady,
    /// Audio data received, in PCM16 format.
    AudioData(Vec<u8>),
    /// Text transcript of received audio, as a delta.
    AudioTranscript(String),
    /// A complete AI audio transcript, with the id of the item it belongs
    /// to.
    AudioTranscriptCompleted(String, String),
    /// A complete user audio transcript, with the id of the item it belongs
    /// to.
    UserTranscriptCompleted(String, String),
    /// The user started speaking.
    SpeechStarted,
    /// The user stopped speaking.
    SpeechStopped,
    /// The AI response completed.
    ResponseCompleted,
    /// A function call requested by the AI.
    FunctionCallRequest { name: String, call_id: String, arguments: String },
    /// An error occurred.
    Error(String),
}

/// Commands sent from the UI to the realtime client.
#[derive(Clone, Debug)]
pub enum RealtimeCommand {
    /// Stop the realtime session.
    StopSession,
    /// Send audio data, in PCM16 format.
    SendAudio(Vec<u8>),
    /// Send a text message.
    SendText(String),
    /// Interrupt the current AI response.
    Interrupt,
    /// Update the session configuration.
    UpdateSessionConfig { voice: String, transcription_model: String },
    /// Ask the AI for a greeting response.
    CreateGreetingResponse,
    /// Send a function call result back to the AI.
    SendFunctionCallResult { call_id: String, output: String },
}

} // verus!
