//! What makes a transport: a way to open a connection and a way to make
//! the codec that frames it.

use vstd::prelude::*;

verus! {

/// Pairs a maker of connections with a maker of codecs. For each target
/// the two are asked for a connection and a fresh codec, which together
/// are the framed channel of one call.
pub struct FramedMakeTransport<MCC, MCN> {
    make_connection: MCN,
    make_codec: MCC,
}

impl<MCC, MCN> FramedMakeTransport<MCC, MCN> {
    /// A transport maker from its two parts.
    pub fn new(make_connection: MCN, make_codec: MCC) -> (r: Self)
        ensures
            r.connection_maker() == make_connection,
            r.codec_maker() == make_codec,
    {
        Self { make_connection, make_codec }
    }

    /// The maker of connections.
    pub closed spec fn connection_maker(self) -> MCN {
        self.make_connection
    }

    /// The maker of codecs.
    pub closed spec fn codec_maker(self) -> MCC {
        self.make_codec
    }

    /// The maker of connections.
    pub fn make_connection(&self) -> (r: &MCN)
        ensures
            *r == self.connection_maker(),
    {
        &self.make_connection
    }

    /// The maker of codecs.
    pub fn make_codec(&self) -> (r: &MCC)
        ensures
            *r == self.codec_maker(),
    {
        &self.make_codec
    }

    /// Gives the two parts back.
    pub fn into_parts(self) -> (r: (MCN, MCC))
        ensures
            r.0 == self.connection_maker(),
            r.1 == self.codec_maker(),
    {
        (self.make_connection, self.make_codec)
    }
}

} // verus!
