//! A fixed-capacity line of received text (a `heapless::String<64>`).
use vstd::prelude::*;
use vstd::string::StringSliceAdditionalSpecFns;
use embassy_sync::blocking_mutex::raw::CriticalSectionRawMutex;
use embassy_sync::channel::Channel;

verus! {

/// Capacity of a line buffer in bytes.
pub const LINE_CAPACITY: usize = 64;

/// A received line being assembled: up to 64 bytes of text.
#[verifier::external_body]
pub struct LineBuf {
    s: heapless::String<64>,
}

/// The bytes a `LineBuf` holds.
pub uninterp spec fn line_bytes(b: LineBuf) -> Seq<u8>;

/// A byte that cannot start a UTF-8 sequence.
pub open spec fn is_continuation(b: u8) -> bool {
    0x80 <= b && b < 0xC0
}

impl LineBuf {
    /// `heapless::String::new`: an empty string.
    #[verifier::external_body]
    pub fn new() -> (r: LineBuf)
        ensures
            line_bytes(r) == Seq::<u8>::empty(),
    {
        LineBuf { s: heapless::String::new() }
    }

    /// `heapless::String::clone`: the same bytes.
    #[verifier::external_body]
    pub fn copy(&self) -> (r: LineBuf)
        ensures
            line_bytes(r) == line_bytes(*self),
    {
        LineBuf { s: self.s.clone() }
    }

    /// The bytes of the string (`str::as_bytes` through `Deref`).
    #[verifier::external_body]
    pub fn as_bytes(&self) -> (r: &[u8])
        ensures
            r@ == line_bytes(*self),
    {
        self.s.as_bytes()
    }

    /// `heapless::String::push` of a one-byte character: appends it when the
    /// string holds fewer than 64 bytes, else fails and changes nothing.
    #[verifier::external_body]
    pub fn push_ascii(&mut self, c: u8) -> (r: Result<(), ()>)
        requires
            c < 128,
            line_bytes(*old(self)).len() <= 64,
        ensures
            line_bytes(*old(self)).len() < 64 ==> r is Ok && line_bytes(*final(self)) == line_bytes(
                *old(self),
            ).push(c),
            line_bytes(*old(self)).len() >= 64 ==> r is Err && line_bytes(*final(self))
                == line_bytes(*old(self)),
    {
        match self.s.push(c as char) {
            Ok(()) => Ok(()),
            Err(_) => Err(()),
        }
    }

    /// `heapless::String::push_str`: appends all of `t` when it fits in the
    /// 64 bytes, else fails and changes nothing.
    #[verifier::external_body]
    pub fn push_str(&mut self, t: &str) -> (r: Result<(), ()>)
        requires
            line_bytes(*old(self)).len() <= 64,
        ensures
            line_bytes(*old(self)).len() + t.spec_bytes().len() <= 64 ==> r is Ok && line_bytes(
                *final(self),
            ) == line_bytes(*old(self)) + t.spec_bytes(),
            line_bytes(*old(self)).len() + t.spec_bytes().len() > 64 ==> r is Err && line_bytes(
                *final(self),
            ) == line_bytes(*old(self)),
    {
        match self.s.push_str(t) {
            Ok(()) => Ok(()),
            Err(_) => Err(()),
        }
    }

    /// `heapless::String::clear`.
    #[verifier::external_body]
    pub fn clear(&mut self)
        ensures
            line_bytes(*final(self)) == Seq::<u8>::empty(),
    {
        self.s.clear()
    }

    /// `heapless::String::drain(..end)`, with the returned iterator dropped at
    /// once: removes the first `end` bytes.
    #[verifier::external_body]
    pub fn drain_front(&mut self, end: usize)
        requires
            end <= line_bytes(*old(self)).len(),
            end == line_bytes(*old(self)).len() || !is_continuation(line_bytes(*old(self))[end as int]),
        ensures
            line_bytes(*final(self)) == line_bytes(*old(self)).skip(end as int),
    {
        self.s.drain(..end);
    }
}

/// A shared reference to the one-slot channel that carries complete lines
/// to the command handler task.
#[verifier::external_body]
pub struct ChannelRef<'a> {
    pub channel: &'a Channel<CriticalSectionRawMutex, heapless::String<64>, 1>,
}

/// A sender's handle on the line channel, with a record, for proofs only, of
/// the lines offered through it, in order.
pub struct LineChannel<'a> {
    pub port: ChannelRef<'a>,
    /// The lines offered, whether or not the slot was free.
    pub offered: Ghost<Seq<Seq<u8>>>,
}

impl<'a> LineChannel<'a> {
    /// A handle on `port` with an empty record.
    pub fn new(port: ChannelRef<'a>) -> (r: LineChannel<'a>)
        ensures
            r.port == port,
            r.offered@ == Seq::<Seq<u8>>::empty(),
    {
        LineChannel { port, offered: Ghost(Seq::empty()) }
    }

    /// `Channel::try_send`: hands the line over if the slot is free, else
    /// drops it. Whether the slot is free depends on the receiving task, so
    /// the result is not stated; the record grows by the line offered.
    #[verifier::external_body]
    pub fn try_send(&mut self, line: LineBuf) -> (sent: bool)
        ensures
            final(self).port == old(self).port,
            final(self).offered@ == old(self).offered@.push(line_bytes(line)),
    {
        match self.port.channel.try_send(line.s) {
            Ok(()) => true,
            Err(_) => false,
        }
    }
}

} // verus!
