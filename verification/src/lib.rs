//! Velocitas FIX: verified FIX wire serialization, session state machine and
//! SBE codecs for normalized order flow.
pub mod tags;
pub mod checksum;
pub mod bytes;
pub mod time;
pub mod sbe;
pub mod normalized_sbe;
pub mod aeron_sbe;
pub mod serializer;
pub mod session;
pub mod message;
pub mod parser;
pub mod engine;
pub mod aeron;
pub mod timestamp;
pub mod read_back;
