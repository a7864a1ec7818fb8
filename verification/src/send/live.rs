//! The socketcan frame that is written for a frame to send.
use socketcan::{CanFrame, EmbeddedFrame, Frame, StandardId};
use vstd::prelude::*;

use crate::send::parse::SendFrame;
use crate::text::{hex_text, push_hex};

verus! {

#[verifier::external_type_specification]
#[verifier::external_body]
pub struct ExStandardId(StandardId);

#[verifier::external_type_specification]
#[verifier::external_body]
pub struct ExCanFrame(CanFrame);

/// A standard identifier, with the raw value it reports. Only
/// `standard_id` builds one, so `raw` is always what `id.as_raw()` gives.
pub struct StandardCanId {
    id: StandardId,
    raw: u16,
}

/// A socketcan frame, with the identifier and payload it reports. Only
/// `data_frame` builds one, so `raw_id` and `data` are always what
/// `frame.raw_id()` and `frame.data()` give.
pub struct SocketFrame {
    frame: CanFrame,
    raw_id: u32,
    data: Vec<u8>,
}

impl View for SocketFrame {
    type V = (u32, Seq<u8>);

    closed spec fn view(&self) -> (u32, Seq<u8>) {
        (self.raw_id, self.data@)
    }
}

impl SocketFrame {
    /// The identifier the frame carries.
    pub fn raw_id(&self) -> (res: u32)
        ensures
            res == self@.0,
    {
        self.raw_id
    }

    /// The payload the frame carries.
    pub fn data(&self) -> (res: &Vec<u8>)
        ensures
            res@ == self@.1,
    {
        &self.data
    }

    /// The socketcan frame itself, to be written to a socket.
    pub fn into_frame(self) -> (res: CanFrame) {
        self.frame
    }
}

/// `StandardId::new` (embedded-can, re-exported by socketcan), with
/// `StandardId::as_raw` read back: an identifier exactly when `raw` fits in
/// 11 bits, `raw <= 0x7FF`, and `None` otherwise; the identifier holds
/// `raw` (the source stores `raw` and `as_raw` returns it).
#[verifier::external_body]
fn standard_id(raw: u16) -> (res: Option<StandardCanId>)
    ensures
        res is Some <==> raw <= 0x7FF,
        res matches Some(id) ==> id.raw == raw,
{
    match StandardId::new(raw) {
        Some(id) => {
            let raw = id.as_raw();
            Some(StandardCanId { id, raw })
        },
        None => None,
    }
}

/// `CanFrame::new` (socketcan's `EmbeddedFrame` impl), with the frame's
/// `Frame::raw_id` and `EmbeddedFrame::data` read back: a classic data
/// frame exactly when the payload has at most 8 bytes, and `None`
/// otherwise; the frame carries the identifier and a copy of the payload
/// (the source writes the identifier and copies the bytes into the frame,
/// and a standard frame's `raw_id` is that identifier).
#[verifier::external_body]
fn data_frame(id: &StandardCanId, data: &[u8]) -> (res: Option<SocketFrame>)
    ensures
        res is Some <==> data@.len() <= 8,
        res matches Some(f) ==> f@ == (id.raw as u32, data@),
{
    match CanFrame::new(id.id, data) {
        Some(frame) => {
            let raw_id = frame.raw_id();
            let data = frame.data().to_vec();
            Some(SocketFrame { frame, raw_id, data })
        },
        None => None,
    }
}

/// Why a frame could not be turned into a socketcan frame.
#[derive(Debug, Clone, Copy, PartialEq, Eq, Structural)]
pub enum SendError {
    /// The identifier, cut to its low 16 bits, is above 0x7FF.
    InvalidStandardId(u32),
    /// The payload has more than 8 bytes.
    FrameConstruction,
}

impl SendError {
    /// The message shown for this error.
    pub fn message(&self) -> (res: String)
        ensures
            self matches SendError::InvalidStandardId(id) ==> res@ == "invalid standard CAN ID "@
                + hex_text(id as nat, 3),
            *self == SendError::FrameConstruction ==> res@ == "failed to create CAN frame"@,
    {
        match self {
            SendError::InvalidStandardId(id) => {
                let mut out = String::from_str("invalid standard CAN ID ");
                push_hex(&mut out, *id as u64, 3);
                out
            },
            SendError::FrameConstruction => String::from_str("failed to create CAN frame"),
        }
    }
}

/// The standard data frame written for `frame`: its identifier is
/// `frame.id` cut to 16 bits, which must fit in 11 bits, and its payload is
/// `frame.data`, which must have at most 8 bytes.
pub fn can_frame(frame: &SendFrame) -> (res: Result<SocketFrame, SendError>)
    ensures
        res is Ok <==> (frame.id as u16) <= 0x7FF && frame.data@.len() <= 8,
        res matches Ok(f) ==> f@ == ((frame.id as u16) as u32, frame.data@),
        res matches Err(e) ==> (e == SendError::InvalidStandardId(frame.id) <==> (frame.id as u16)
            > 0x7FF),
        res matches Err(e) ==> (e == SendError::FrameConstruction <==> (frame.id as u16) <= 0x7FF),
{
    let raw = frame.id as u16;
    let id = match standard_id(raw) {
        Some(id) => id,
        None => {
            return Err(SendError::InvalidStandardId(frame.id));
        },
    };
    match data_frame(&id, frame.data.as_slice()) {
        Some(f) => Ok(f),
        None => Err(SendError::FrameConstruction),
    }
}

} // verus!
