//! AllVu streams live audio and video from one host to another over
//! several network paths at once. This library holds its decisions: the
//! framed wire protocol, the health accounting of a link, the choice of a
//! link for each packet sent, the queue of the packets received, the
//! handshake that binds a link to a session, and the server's registry of
//! sessions; besides these, the command line of the encoder and the choice
//! among the devices found. Reading and writing is left to the caller:
//! every function here goes from values to values.

pub mod client;
pub mod codec;
pub mod connection;
pub mod ffmpeg;
pub mod handshake;
pub mod input;
pub mod packet;
pub mod registry;
pub mod selection;
pub mod server;
pub mod session;
pub mod text;
pub mod token;
