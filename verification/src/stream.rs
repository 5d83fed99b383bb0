//! The streaming buffered decoder: turns an arbitrarily chunked inbound byte
//! stream into exact-size reads, decrypting each fed chunk in place once a
//! session cipher has been enabled. Typed big-endian readers are built on
//! top of the exact-size primitive.

use vstd::prelude::*;

use crate::bytes::{be16, be16_seq, be32_seq, be64_seq};
use crate::crypto::{cipher_aes_128_cfb8, crypter_new, crypter_update, CryptoError};

verus! {

/// Requests at or above this many bytes are refused as oversized: no single
/// read may ask for more than one packet's worth of data.
pub const PACKET_CEILING: usize = 65535;

/// Why a read from the decoder could not be served.
#[derive(Debug, Clone, PartialEq, Eq, Structural)]
pub enum StreamError {
    /// Fewer bytes are buffered than the read asks for; feed more first.
    NeedMore,
    /// The read asked for at least `PACKET_CEILING` bytes.
    Oversized,
}

/// Buffers inbound stream bytes and serves exact-size reads from the front.
pub struct StreamDecoder {
    buffer: Vec<u8>,
    pos: usize,
    decrypt_enable: bool,
    decrypter: Option<openssl::symm::Crypter>,
}

impl StreamDecoder {
    /// The bytes fed (and, where enabled, decrypted) but not yet read.
    pub closed spec fn unread(self) -> Seq<u8> {
        self.buffer@.skip(self.pos as int)
    }

    /// Whether fed chunks are routed through the session cipher.
    pub closed spec fn decrypting(self) -> bool {
        self.decrypt_enable
    }

    /// Whether a decryption key has been supplied.
    pub closed spec fn has_key(self) -> bool {
        self.decrypter is Some
    }

    pub closed spec fn wf(self) -> bool {
        self.pos <= self.buffer@.len()
    }

    pub fn new() -> (r: StreamDecoder)
        ensures
            r.wf(),
            r.unread() == Seq::<u8>::empty(),
            !r.decrypting(),
            !r.has_key(),
    {
        let r = StreamDecoder { buffer: Vec::new(), pos: 0, decrypt_enable: false, decrypter: None };
        proof {
            assert(r.unread() =~= Seq::<u8>::empty());
        }
        r
    }

    /// Supplies the symmetric key (also used as the initialisation vector)
    /// for inbound decryption. Decryption itself starts only once
    /// `enable_decryption` is called. The key length must fit the cipher
    /// boundary's C int (the protocol's keys are sixteen bytes).
    pub fn set_decryption_key(&mut self, key: &[u8]) -> (r: Result<(), CryptoError>)
        requires
            old(self).wf(),
            key@.len() < 0x7fffffff,
        ensures
            final(self).wf(),
            final(self).unread() == old(self).unread(),
            final(self).decrypting() == old(self).decrypting(),
            r is Ok ==> final(self).has_key(),
            r is Err ==> final(self).has_key() == old(self).has_key(),
    {
        let cipher = cipher_aes_128_cfb8();
        match crypter_new(cipher, false, key) {
            Ok(c) => {
                self.decrypter = Some(c);
                Ok(())
            },
            Err(e) => Err(e),
        }
    }

    /// Starts routing fed chunks through the cipher; fails if no key has
    /// been supplied yet.
    pub fn enable_decryption(&mut self) -> (r: Result<(), CryptoError>)
        requires
            old(self).wf(),
        ensures
            final(self).wf(),
            final(self).unread() == old(self).unread(),
            final(self).has_key() == old(self).has_key(),
            old(self).has_key() ==> r is Ok && final(self).decrypting(),
            !old(self).has_key() ==> r == Err::<(), CryptoError>(CryptoError::NoKey)
                && final(self).decrypting() == old(self).decrypting(),
    {
        if self.decrypter.is_some() {
            self.decrypt_enable = true;
            Ok(())
        } else {
            Err(CryptoError::NoKey)
        }
    }

    /// Shifts the still-unread region to offset zero, dropping the
    /// already-consumed prefix.
    fn compact(&mut self)
        requires
            old(self).wf(),
        ensures
            final(self).wf(),
            final(self).unread() == old(self).unread(),
            final(self).decrypting() == old(self).decrypting(),
            final(self).has_key() == old(self).has_key(),
    {
        if self.pos == 0 {
            return ;
        }
        let blen: usize = self.buffer.len();
        let avail = blen - self.pos;
        let mut i: usize = 0;
        while i < avail
            invariant
                0 < self.pos,
                self.pos + avail == blen,
                blen == self.buffer@.len(),
                i <= avail,
                forall|j: int| i <= j < avail ==> self.buffer@[self.pos + j] == old(
                    self,
                ).unread()[j],
                forall|j: int| 0 <= j < i ==> self.buffer@[j] == old(self).unread()[j],
                self.decrypt_enable == old(self).decrypt_enable,
                self.decrypter == old(self).decrypter,
            decreases avail - i,
        {
            let b = self.buffer[self.pos + i];
            self.buffer.set(i, b);
            i += 1;
        }
        self.buffer.truncate(avail);
        self.pos = 0;
        proof {
            assert(self.unread() =~= old(self).unread());
        }
    }

    /// Appends bytes to the back of the unread region.
    fn append(&mut self, data: &[u8])
        requires
            old(self).wf(),
        ensures
            final(self).wf(),
            final(self).unread() == old(self).unread() + data@,
            final(self).decrypting() == old(self).decrypting(),
            final(self).has_key() == old(self).has_key(),
    {
        let n = data.len();
        let mut k: usize = 0;
        proof {
            assert(self.buffer@ =~= old(self).buffer@ + data@.take(0));
        }
        while k < n
            invariant
                n == data@.len(),
                k <= n,
                self.pos == old(self).pos,
                self.buffer@ == old(self).buffer@ + data@.take(k as int),
                self.decrypt_enable == old(self).decrypt_enable,
                self.decrypter == old(self).decrypter,
            decreases n - k,
        {
            self.buffer.push(data[k]);
            proof {
                assert(self.buffer@ =~= old(self).buffer@ + data@.take(k + 1));
            }
            k += 1;
        }
        proof {
            assert(data@.take(n as int) =~= data@);
            assert(old(self).pos <= old(self).buffer@.len());
            assert(self.unread() =~= old(self).unread() + data@);
        }
    }

    /// Appends a freshly received chunk, decrypting it first when decryption
    /// is enabled. With decryption off the exact bytes are appended; with it
    /// on, the same number of bytes is appended (the cipher is a
    /// length-preserving stream cipher), but their values are the cipher's.
    pub fn feed(&mut self, chunk: &[u8]) -> (r: Result<(), CryptoError>)
        requires
            old(self).wf(),
            old(self).decrypting() ==> chunk@.len() < 0x7fffffff,
        ensures
            final(self).wf(),
            final(self).decrypting() == old(self).decrypting(),
            final(self).has_key() == old(self).has_key(),
            !old(self).decrypting() ==> r is Ok && final(self).unread() == old(self).unread()
                + chunk@,
            r is Ok ==> final(self).unread().len() == old(self).unread().len() + chunk@.len(),
            r is Err ==> final(self).unread() == old(self).unread(),
    {
        if self.pos > PACKET_CEILING {
            self.compact();
        }
        if self.decrypt_enable {
            let decrypted = match self.decrypter.as_mut() {
                Some(c) => crypter_update(c, chunk),
                None => Err(CryptoError::NoKey),
            };
            match decrypted {
                Ok(plain) => {
                    self.append(plain.as_slice());
                    Ok(())
                },
                Err(e) => Err(e),
            }
        } else {
            self.append(chunk);
            Ok(())
        }
    }

    /// How many bytes are buffered and not yet read.
    pub fn available(&self) -> (r: usize)
        requires
            self.wf(),
        ensures
            r == self.unread().len(),
    {
        self.buffer.len() - self.pos
    }

    /// A copy of the unread bytes, revealing nothing: the stream still
    /// serves them.
    pub fn peek_unread(&self) -> (r: Vec<u8>)
        requires
            self.wf(),
        ensures
            r@ == self.unread(),
    {
        let blen: usize = self.buffer.len();
        let mut out: Vec<u8> = Vec::new();
        let mut i: usize = self.pos;
        proof {
            assert(out@ =~= self.unread().take(0));
        }
        while i < blen
            invariant
                self.wf(),
                blen == self.buffer@.len(),
                self.pos <= i <= blen,
                out@ == self.unread().take(i - self.pos),
            decreases blen - i,
        {
            out.push(self.buffer[i]);
            proof {
                assert(out@ =~= self.unread().take(i + 1 - self.pos));
            }
            i += 1;
        }
        proof {
            assert(self.unread().take(blen - self.pos) =~= self.unread());
        }
        out
    }

    /// Serves exactly `count` bytes from the front of the stream: never
    /// fewer, and never a byte that an earlier read already revealed.
    pub fn read_bytes(&mut self, count: usize) -> (r: Result<Vec<u8>, StreamError>)
        requires
            old(self).wf(),
        ensures
            final(self).wf(),
            final(self).decrypting() == old(self).decrypting(),
            final(self).has_key() == old(self).has_key(),
            count >= PACKET_CEILING ==> r == Err::<Vec<u8>, StreamError>(StreamError::Oversized)
                && final(self).unread() == old(self).unread(),
            count < PACKET_CEILING && old(self).unread().len() < count ==> r == Err::<
                Vec<u8>,
                StreamError,
            >(StreamError::NeedMore) && final(self).unread() == old(self).unread(),
            count < PACKET_CEILING && old(self).unread().len() >= count ==> (r matches Ok(v)
                && v@ == old(self).unread().take(count as int) && final(self).unread() == old(
                self,
            ).unread().skip(count as int)),
    {
        if count >= PACKET_CEILING {
            return Err(StreamError::Oversized);
        }
        if self.buffer.len() - self.pos < count {
            return Err(StreamError::NeedMore);
        }
        let blen: usize = self.buffer.len();
        let mut out: Vec<u8> = Vec::new();
        let mut i: usize = 0;
        proof {
            assert(out@ =~= self.unread().take(0));
        }
        while i < count
            invariant
                self == old(self),
                self.wf(),
                blen == self.buffer@.len(),
                self.pos + count <= blen,
                count <= self.unread().len(),
                i <= count,
                out@ == self.unread().take(i as int),
            decreases count - i,
        {
            out.push(self.buffer[self.pos + i]);
            proof {
                assert(out@ =~= self.unread().take(i + 1));
            }
            i += 1;
        }
        self.pos = self.pos + count;
        proof {
            assert(self.unread() =~= old(self).unread().skip(count as int));
        }
        Ok(out)
    }

    /// Reads one unsigned byte.
    pub fn read_ubyte(&mut self) -> (r: Result<u8, StreamError>)
        requires
            old(self).wf(),
        ensures
            final(self).wf(),
            final(self).decrypting() == old(self).decrypting(),
            final(self).has_key() == old(self).has_key(),
            old(self).unread().len() == 0 ==> r == Err::<u8, StreamError>(StreamError::NeedMore)
                && final(self).unread() == old(self).unread(),
            old(self).unread().len() >= 1 ==> r == Ok::<u8, StreamError>(old(self).unread()[0])
                && final(self).unread() == old(self).unread().skip(1),
    {
        match self.read_bytes(1) {
            Ok(v) => Ok(v[0]),
            Err(e) => Err(e),
        }
    }

    /// Reads one signed byte (two's complement).
    pub fn read_byte(&mut self) -> (r: Result<i8, StreamError>)
        requires
            old(self).wf(),
        ensures
            final(self).wf(),
            final(self).decrypting() == old(self).decrypting(),
            final(self).has_key() == old(self).has_key(),
            old(self).unread().len() == 0 ==> r == Err::<i8, StreamError>(StreamError::NeedMore)
                && final(self).unread() == old(self).unread(),
            old(self).unread().len() >= 1 ==> r == Ok::<i8, StreamError>(
                old(self).unread()[0] as i8,
            ) && final(self).unread() == old(self).unread().skip(1),
    {
        match self.read_ubyte() {
            Ok(v) => Ok(v as i8),
            Err(e) => Err(e),
        }
    }

    /// Reads one boolean byte: true exactly for the value one.
    pub fn read_bool(&mut self) -> (r: Result<bool, StreamError>)
        requires
            old(self).wf(),
        ensures
            final(self).wf(),
            final(self).decrypting() == old(self).decrypting(),
            final(self).has_key() == old(self).has_key(),
            old(self).unread().len() == 0 ==> r == Err::<bool, StreamError>(StreamError::NeedMore)
                && final(self).unread() == old(self).unread(),
            old(self).unread().len() >= 1 ==> r == Ok::<bool, StreamError>(
                old(self).unread()[0] == 1,
            ) && final(self).unread() == old(self).unread().skip(1),
    {
        match self.read_ubyte() {
            Ok(v) => Ok(v == 1),
            Err(e) => Err(e),
        }
    }

    /// Reads a big-endian unsigned 16-bit integer.
    pub fn read_ushort(&mut self) -> (r: Result<u16, StreamError>)
        requires
            old(self).wf(),
        ensures
            final(self).wf(),
            final(self).decrypting() == old(self).decrypting(),
            final(self).has_key() == old(self).has_key(),
            old(self).unread().len() < 2 ==> r == Err::<u16, StreamError>(StreamError::NeedMore)
                && final(self).unread() == old(self).unread(),
            old(self).unread().len() >= 2 ==> r == Ok::<u16, StreamError>(
                be16_seq(old(self).unread().take(2)),
            ) && final(self).unread() == old(self).unread().skip(2),
    {
        match self.read_bytes(2) {
            Ok(v) => Ok((v[0] as u16) << 8 | (v[1] as u16)),
            Err(e) => Err(e),
        }
    }

    /// Reads a big-endian signed 16-bit integer.
    pub fn read_short(&mut self) -> (r: Result<i16, StreamError>)
        requires
            old(self).wf(),
        ensures
            final(self).wf(),
            final(self).decrypting() == old(self).decrypting(),
            final(self).has_key() == old(self).has_key(),
            old(self).unread().len() < 2 ==> r == Err::<i16, StreamError>(StreamError::NeedMore)
                && final(self).unread() == old(self).unread(),
            old(self).unread().len() >= 2 ==> r == Ok::<i16, StreamError>(
                be16_seq(old(self).unread().take(2)) as i16,
            ) && final(self).unread() == old(self).unread().skip(2),
    {
        match self.read_ushort() {
            Ok(v) => Ok(v as i16),
            Err(e) => Err(e),
        }
    }

    /// Reads a big-endian signed 32-bit integer.
    pub fn read_int(&mut self) -> (r: Result<i32, StreamError>)
        requires
            old(self).wf(),
        ensures
            final(self).wf(),
            final(self).decrypting() == old(self).decrypting(),
            final(self).has_key() == old(self).has_key(),
            old(self).unread().len() < 4 ==> r == Err::<i32, StreamError>(StreamError::NeedMore)
                && final(self).unread() == old(self).unread(),
            old(self).unread().len() >= 4 ==> r == Ok::<i32, StreamError>(
                be32_seq(old(self).unread().take(4)) as i32,
            ) && final(self).unread() == old(self).unread().skip(4),
    {
        match self.read_bytes(4) {
            Ok(v) => Ok(
                ((v[0] as u32) << 24 | (v[1] as u32) << 16 | (v[2] as u32) << 8
                    | (v[3] as u32)) as i32,
            ),
            Err(e) => Err(e),
        }
    }

    /// Reads a big-endian signed 64-bit integer.
    pub fn read_long(&mut self) -> (r: Result<i64, StreamError>)
        requires
            old(self).wf(),
        ensures
            final(self).wf(),
            final(self).decrypting() == old(self).decrypting(),
            final(self).has_key() == old(self).has_key(),
            old(self).unread().len() < 8 ==> r == Err::<i64, StreamError>(StreamError::NeedMore)
                && final(self).unread() == old(self).unread(),
            old(self).unread().len() >= 8 ==> r == Ok::<i64, StreamError>(
                be64_seq(old(self).unread().take(8)) as i64,
            ) && final(self).unread() == old(self).unread().skip(8),
    {
        match self.read_bytes(8) {
            Ok(v) => Ok(
                ((v[0] as u64) << 56 | (v[1] as u64) << 48 | (v[2] as u64) << 40 | (v[3]
                    as u64) << 32 | (v[4] as u64) << 24 | (v[5] as u64) << 16 | (v[6]
                    as u64) << 8 | (v[7] as u64)) as i64,
            ),
            Err(e) => Err(e),
        }
    }

    /// Reads the bit pattern of a big-endian 32-bit floating-point field.
    pub fn read_float_bits(&mut self) -> (r: Result<u32, StreamError>)
        requires
            old(self).wf(),
        ensures
            final(self).wf(),
            final(self).decrypting() == old(self).decrypting(),
            final(self).has_key() == old(self).has_key(),
            old(self).unread().len() < 4 ==> r == Err::<u32, StreamError>(StreamError::NeedMore)
                && final(self).unread() == old(self).unread(),
            old(self).unread().len() >= 4 ==> r == Ok::<u32, StreamError>(
                be32_seq(old(self).unread().take(4)),
            ) && final(self).unread() == old(self).unread().skip(4),
    {
        match self.read_bytes(4) {
            Ok(v) => Ok((v[0] as u32) << 24 | (v[1] as u32) << 16 | (v[2] as u32) << 8 | (v[3]
                as u32)),
            Err(e) => Err(e),
        }
    }

    /// Reads the bit pattern of a big-endian 64-bit floating-point field.
    pub fn read_double_bits(&mut self) -> (r: Result<u64, StreamError>)
        requires
            old(self).wf(),
        ensures
            final(self).wf(),
            final(self).decrypting() == old(self).decrypting(),
            final(self).has_key() == old(self).has_key(),
            old(self).unread().len() < 8 ==> r == Err::<u64, StreamError>(StreamError::NeedMore)
                && final(self).unread() == old(self).unread(),
            old(self).unread().len() >= 8 ==> r == Ok::<u64, StreamError>(
                be64_seq(old(self).unread().take(8)),
            ) && final(self).unread() == old(self).unread().skip(8),
    {
        match self.read_bytes(8) {
            Ok(v) => Ok((v[0] as u64) << 56 | (v[1] as u64) << 48 | (v[2] as u64) << 40 | (v[3]
                as u64) << 32 | (v[4] as u64) << 24 | (v[5] as u64) << 16 | (v[6] as u64) << 8 | (
            v[7] as u64)),
            Err(e) => Err(e),
        }
    }
}

/// Successive exact-size reads reveal consecutive, disjoint segments of the
/// stream: the first read of `n1` bytes and the following read of `n2` bytes
/// together are exactly the first `n1 + n2` bytes, so no byte is revealed
/// twice and none is skipped.
pub proof fn lemma_consecutive_reads(s: Seq<u8>, n1: int, n2: int)
    requires
        0 <= n1,
        0 <= n2,
        n1 + n2 <= s.len(),
    ensures
        s.take(n1) + s.skip(n1).take(n2) == s.take(n1 + n2),
        s.skip(n1).skip(n2) == s.skip(n1 + n2),
{
    assert(s.take(n1) + s.skip(n1).take(n2) =~= s.take(n1 + n2));
    assert(s.skip(n1).skip(n2) =~= s.skip(n1 + n2));
}

} // verus!
