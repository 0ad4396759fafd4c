//! A STOMP frame model, frame parser, and connection liveness state machine.
//!
//! The frame model gives the closed command vocabulary and the frame data
//! structure; the parser turns one complete text message into a frame or a
//! structured parse error; the connection module decides, from a connection's
//! heartbeat state and an incoming event, what the transport loop must do next.

pub mod connection;
pub mod parser;
pub mod stomp;
