//! DCC SEND offers: reading an offer out of a message, and the acknowledgements of a transfer.
use vstd::prelude::*;

use crate::text::{
    chars_of, decimal, lemma_decimal_digits, lemma_decimal_no_space, lemma_last_words,
    lemma_numeric_prefix_of_digits, lemma_parse_decimal, numeric_prefix, parse_unsigned,
    parse_unsigned_chars, split_words, take_numeric_prefix, words, IntErrorKind,
};

verus! {

/// `std::io::Error`, which a failed transfer carries.
#[verifier::external_type_specification]
#[verifier::external_body]
pub struct ExIoError(std::io::Error);

/// Why a DCC offer could not be read or its file not fetched.
#[derive(Debug)]
pub enum DccError {
    /// A number of the offer is malformed.
    IntError(IntErrorKind),
    /// The connection to the sender failed.
    IoError(std::io::Error),
}

/// A DCC SEND offer: the sender's IPv4 address (as the 32-bit number that the message holds),
/// its port, the size of the file and the whole message.
#[derive(Debug)]
pub struct Dcc {
    ip: u32,
    port: u16,
    size: u32,
    pub msg: String,
}

/// The three numbers of an offer: the last three words of `msg` read as the address (`u32`), the
/// port (`u16`), and the size (`u32`, read from the numeric chars that begin the last word); the
/// first malformed number, in that order, gives the error.
pub open spec fn offer_numbers(msg: Seq<char>) -> Result<(int, int, int), IntErrorKind> {
    let w = words(msg);
    let n: nat = w.len();
    match parse_unsigned(w[n - 3], u32::MAX as int) {
        Err(e) => Err(e),
        Ok(ip) => match parse_unsigned(w[n - 2], u16::MAX as int) {
            Err(e) => Err(e),
            Ok(port) => match parse_unsigned(numeric_prefix(w[n - 1]), u32::MAX as int) {
                Err(e) => Err(e),
                Ok(size) => Ok((ip, port, size)),
            },
        },
    }
}

impl Dcc {
    /// The sender's IPv4 address as a 32-bit number, most significant octet first.
    pub closed spec fn spec_ip(&self) -> u32 {
        self.ip
    }

    /// The sender's port.
    pub closed spec fn spec_port(&self) -> u16 {
        self.port
    }

    /// The announced size of the file in bytes.
    pub closed spec fn spec_size(&self) -> u32 {
        self.size
    }

    /// The whole message of the offer.
    pub closed spec fn spec_msg(&self) -> Seq<char> {
        self.msg@
    }

    /// The whole message of the offer.
    pub fn msg(&self) -> (r: &String)
        ensures
            r@ == self.spec_msg(),
    {
        &self.msg
    }

    /// The sender's IPv4 address as a 32-bit number.
    pub fn ip(&self) -> (r: u32)
        ensures
            r == self.spec_ip(),
    {
        self.ip
    }

    /// The sender's port.
    pub fn port(&self) -> (r: u16)
        ensures
            r == self.spec_port(),
    {
        self.port
    }

    /// The announced size of the file in bytes.
    pub fn size(&self) -> (r: u32)
        ensures
            r == self.spec_size(),
    {
        self.size
    }

    /// Reads a DCC SEND offer out of a message, whose last three words are the address, the port
    /// and the size of the file.
    pub fn from_msg(msg: &str) -> (r: Result<Dcc, DccError>)
        requires
            words(msg@).len() >= 3,
        ensures
            match offer_numbers(msg@) {
                Ok((ip, port, size)) => r matches Ok(d) && d.spec_ip() == ip && d.spec_port()
                    == port && d.spec_size() == size && d.spec_msg() == msg@,
                Err(e) => r matches Err(DccError::IntError(k)) && k == e,
            },
    {
        let cs = chars_of(msg);
        let msg_split = split_words(&cs);
        let i: usize = msg_split.len() - 1;
        proof {
            assert(msg_split.deep_view()[i - 2] == msg_split@[i - 2]@);
            assert(msg_split.deep_view()[i - 1] == msg_split@[i - 1]@);
            assert(msg_split.deep_view()[i as int] == msg_split@[i as int]@);
        }
        let ip_num: u32 = match parse_unsigned_chars(&msg_split[i - 2], 0xffff_ffff) {
            Ok(v) => v as u32,
            Err(e) => return Err(DccError::IntError(e)),
        };
        let port: u16 = match parse_unsigned_chars(&msg_split[i - 1], 0xffff) {
            Ok(v) => v as u16,
            Err(e) => return Err(DccError::IntError(e)),
        };
        let size_string = take_numeric_prefix(&msg_split[i]);
        let size: u32 = match parse_unsigned_chars(&size_string, 0xffff_ffff) {
            Ok(v) => v as u32,
            Err(e) => return Err(DccError::IntError(e)),
        };
        let text = crate::text::string_of(&cs);
        Ok(Dcc { ip: ip_num, port, size, msg: text })
    }
}

/// The text of an offer with the address `ip`, the port `port` and the size `size` after
/// `prefix`: the three numbers in decimal, each after a space.
pub open spec fn offer_text(prefix: Seq<char>, ip: u32, port: u16, size: u32) -> Seq<char> {
    prefix + seq![' '] + decimal(ip as nat) + seq![' '] + decimal(port as nat) + seq![' ']
        + decimal(size as nat)
}

/// An offer reads back the numbers it was written with, whatever text comes before them.
pub proof fn lemma_offer_roundtrip(prefix: Seq<char>, ip: u32, port: u16, size: u32)
    ensures
        words(offer_text(prefix, ip, port, size)).len() >= 3,
        offer_numbers(offer_text(prefix, ip, port, size)) == Ok::<(int, int, int), IntErrorKind>(
            (ip as int, port as int, size as int),
        ),
{
    lemma_decimal_no_space(ip as nat);
    lemma_decimal_no_space(port as nat);
    lemma_decimal_no_space(size as nat);
    lemma_last_words(prefix, decimal(ip as nat), decimal(port as nat), decimal(size as nat));
    lemma_parse_decimal(ip as nat, u32::MAX as int);
    lemma_parse_decimal(port as nat, u16::MAX as int);
    lemma_parse_decimal(size as nat, u32::MAX as int);
    lemma_decimal_digits(size as nat);
    lemma_numeric_prefix_of_digits(decimal(size as nat));
}

/// The acknowledgement of `received` bytes: their count as a 32-bit number, wrapping as the
/// count is cast to `u32`.
pub open spec fn ack_of(received: nat) -> u32 {
    (received % 0x1_0000_0000) as u32
}

/// Until 2^32 bytes have come, the acknowledgement is the number of bytes received, and the
/// transfer is complete exactly when that number reaches the announced size.
pub proof fn lemma_ack_counts_bytes(received: nat, size: u32)
    requires
        received < 0x1_0000_0000,
    ensures
        ack_of(received) == received,
        (ack_of(received) >= size) == (received >= size),
{
}

/// The receiving side of a DCC transfer: the bytes received so far of a file of a known size.
pub struct DccTransfer {
    size: u32,
    file: Vec<u8>,
}

impl DccTransfer {
    /// The announced size of the file.
    pub closed spec fn spec_size(&self) -> u32 {
        self.size
    }

    /// The bytes received so far, in order.
    pub closed spec fn received(&self) -> Seq<u8> {
        self.file@
    }

    /// A transfer of a file of `size` bytes that has received nothing yet.
    pub fn new(size: u32) -> (t: DccTransfer)
        ensures
            t.spec_size() == size,
            t.received() == Seq::<u8>::empty(),
    {
        DccTransfer { size, file: Vec::new() }
    }

    /// Takes the next chunk of the file; returns the acknowledgement to send back (the number of
    /// bytes received in all, as a `u32`) and whether the transfer is complete (the
    /// acknowledgement has reached the announced size).
    pub fn receive(&mut self, chunk: Vec<u8>) -> (r: (u32, bool))
        ensures
            final(self).spec_size() == old(self).spec_size(),
            final(self).received() == old(self).received() + chunk@,
            r.0 == ack_of(final(self).received().len()),
            r.1 == (r.0 >= final(self).spec_size()),
    {
        let mut chunk = chunk;
        self.file.append(&mut chunk);
        let ack: u32 = (self.file.len() as u64 % 0x1_0000_0000u64) as u32;
        (ack, ack >= self.size)
    }

    /// The bytes received.
    pub fn into_file(self) -> (f: Vec<u8>)
        ensures
            f@ == self.received(),
    {
        self.file
    }
}

} // verus!
