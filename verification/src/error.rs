//! Codec errors.
//!
//! Decoders report a malformed frame by returning nothing; encoders demand
//! valid instances up front.  The checked entry points here accept any
//! instance and say exactly when an encode is refused instead.
use vstd::prelude::*;

verus! {

use crate::chat::ChatPacket;
use crate::packets_game::{normal_movements_valid, SOnEnterVisibilityClient, SWaypointGroup};
use crate::packets_loading::{RequestRename, RequestReskin};
use crate::text::sized_fits;
use crate::frame::{game_frame, loading_frame};

/// Why a frame could not be built or read.
#[derive(Clone, Copy, Debug, PartialEq, Eq, Structural)]
pub enum Error {
    /// A collection was longer than its size prefix can carry: the length
    /// seen and the largest the wire allows.
    TooMuchData(usize, usize),
    /// A text field was not valid UTF-8 and could never decode again.
    BadText,
}

impl ChatPacket {
    /// Build the chat frame, refusing a message longer than its 32-bit
    /// length prefix can carry or one that is not valid UTF-8.
    pub fn try_to_bytes(&self) -> (r: Result<Vec<u8>, Error>)
        ensures
            self@.valid() ==> (r matches Ok(b) && b@ == self@.wire()),
            self.message@.len() > u32::MAX ==> r == Err::<Vec<u8>, Error>(
                Error::TooMuchData(self.message.len() as usize, u32::MAX as usize),
            ),
            self.message@.len() <= u32::MAX && !crate::utf8::is_utf8(self.message@) ==> r == Err::<
                Vec<u8>,
                Error,
            >(Error::BadText),
    {
        if self.message.len() > u32::MAX as usize {
            Err(Error::TooMuchData(self.message.len(), u32::MAX as usize))
        } else if !crate::utf8::is_utf8_bytes(self.message.as_slice()) {
            Err(Error::BadText)
        } else {
            Ok(self.to_bytes())
        }
    }
}

impl RequestReskin {
    /// Build the reskin frame, refusing a name longer than its 32-bit
    /// length prefix can carry or one that is not valid UTF-8.
    pub fn try_to_bytes(&self) -> (r: Result<Vec<u8>, Error>)
        ensures
            self@.valid() ==> (r matches Ok(b) && b@ == loading_frame(0x65, self@.wire())),
            self.name@.len() > u32::MAX ==> r == Err::<Vec<u8>, Error>(
                Error::TooMuchData(self.name.len() as usize, u32::MAX as usize),
            ),
            self.name@.len() <= u32::MAX && !crate::utf8::is_utf8(self.name@) ==> r == Err::<
                Vec<u8>,
                Error,
            >(Error::BadText),
    {
        if self.name.len() > u32::MAX as usize {
            Err(Error::TooMuchData(self.name.len(), u32::MAX as usize))
        } else if !crate::utf8::is_utf8_bytes(self.name.as_slice()) {
            Err(Error::BadText)
        } else {
            Ok(self.to_bytes())
        }
    }
}

impl RequestRename {
    /// Build the rename frame, refusing a name longer than its 32-bit
    /// length prefix can carry or one that is not valid UTF-8.
    pub fn try_to_bytes(&self) -> (r: Result<Vec<u8>, Error>)
        ensures
            self@.valid() ==> (r matches Ok(b) && b@ == loading_frame(0x66, self@.wire())),
            self.name@.len() > u32::MAX ==> r == Err::<Vec<u8>, Error>(
                Error::TooMuchData(self.name.len() as usize, u32::MAX as usize),
            ),
            self.name@.len() <= u32::MAX && !crate::utf8::is_utf8(self.name@) ==> r == Err::<
                Vec<u8>,
                Error,
            >(Error::BadText),
    {
        if self.name.len() > u32::MAX as usize {
            Err(Error::TooMuchData(self.name.len(), u32::MAX as usize))
        } else if !crate::utf8::is_utf8_bytes(self.name.as_slice()) {
            Err(Error::BadText)
        } else {
            Ok(self.to_bytes())
        }
    }
}

impl SOnEnterVisibilityClient {
    /// Build the visibility frame, refusing an inventory longer than its
    /// one-byte count prefix can carry.
    pub fn try_to_bytes(&self, sender_net_id: u32) -> (r: Result<Vec<u8>, Error>)
        requires
            self@.movement_data.valid(),
        ensures
            self.entries@.len() <= u8::MAX ==> (r matches Ok(b) && b@ == game_frame(
                0xC2,
                sender_net_id,
                self@.wire(),
            )),
            self.entries@.len() > u8::MAX ==> r == Err::<Vec<u8>, Error>(
                Error::TooMuchData(self.entries.len() as usize, u8::MAX as usize),
            ),
    {
        if self.entries.len() <= u8::MAX as usize {
            Ok(self.to_bytes(sender_net_id))
        } else {
            Err(Error::TooMuchData(self.entries.len(), u8::MAX as usize))
        }
    }
}

impl SWaypointGroup {
    /// Build the waypoint-group frame, refusing a movement run longer
    /// than its 16-bit count prefix can carry.
    pub fn try_to_bytes(&self, sender_net_id: u32) -> (r: Result<Vec<u8>, Error>)
        requires
            normal_movements_valid(self@.movements),
        ensures
            self.movements@.len() <= u16::MAX ==> (r matches Ok(b) && b@ == game_frame(
                0x64,
                sender_net_id,
                self@.wire(),
            )),
            self.movements@.len() > u16::MAX ==> r == Err::<Vec<u8>, Error>(
                Error::TooMuchData(self.movements.len() as usize, u16::MAX as usize),
            ),
    {
        if self.movements.len() <= u16::MAX as usize {
            Ok(self.to_bytes(sender_net_id))
        } else {
            Err(Error::TooMuchData(self.movements.len(), u16::MAX as usize))
        }
    }
}

} // verus!
