//! The wire between the renderer and the process that drives the LEDs: a frame travels as
//! one 4-byte color word per LED, with nothing before, between or after the words.

use crate::ledstrip::{loaded, DeviceController, SinkError};
use vstd::prelude::*;
use vstd::slice::slice_subrange;

verus! {

/// The number of bytes that one color word takes on the wire.
pub const WORD_BYTES: usize = 4;

/// The number of color words that a receiver takes in with one read.
pub const READ_WORDS: usize = 256;

/// The number of bytes that a receiver takes in with one read.
pub const READ_BYTES: usize = 1024;

/// The order in which the four bytes of a word follow one another.
#[derive(Copy, Clone, Debug, PartialEq, Eq, Structural)]
pub enum ByteOrder {
    /// The least significant byte comes first.
    LittleEndian,
    /// The most significant byte comes first.
    BigEndian,
}

/// A payload that is no sequence of whole color words.
#[derive(Copy, Clone, Debug, PartialEq, Eq, Structural)]
pub enum WireError {
    /// The payload's length in bytes, which is no multiple of four.
    Misaligned(usize),
}

/// Why the connection to a client is closed.
#[derive(Copy, Clone, Debug, PartialEq, Eq, Structural)]
pub enum ClientError {
    /// The client sent a payload that is no sequence of whole color words.
    Protocol(WireError),
    /// The frame did not reach the LEDs.
    Sink(SinkError),
}

/// Byte `k` of a word, counted from the least significant one.
pub open spec fn byte_of(x: u32, k: int) -> u8 {
    if k == 0 {
        (x % 0x100) as u8
    } else if k == 1 {
        (x / 0x100 % 0x100) as u8
    } else if k == 2 {
        (x / 0x1_0000 % 0x100) as u8
    } else {
        (x / 0x100_0000 % 0x100) as u8
    }
}

/// The four bytes of a word in the given order.
pub open spec fn word_bytes(order: ByteOrder, x: u32) -> Seq<u8> {
    match order {
        ByteOrder::LittleEndian => seq![byte_of(x, 0), byte_of(x, 1), byte_of(x, 2), byte_of(x, 3)],
        ByteOrder::BigEndian => seq![byte_of(x, 3), byte_of(x, 2), byte_of(x, 1), byte_of(x, 0)],
    }
}

/// The word whose bytes, from the least significant one, are `b0` to `b3`.
pub open spec fn word_of(b0: u8, b1: u8, b2: u8, b3: u8) -> u32 {
    (b0 as int + b1 as int * 0x100 + b2 as int * 0x1_0000 + b3 as int * 0x100_0000) as u32
}

/// The word that four bytes in the given order stand for.
pub open spec fn bytes_word(order: ByteOrder, bytes: Seq<u8>) -> u32 {
    match order {
        ByteOrder::LittleEndian => word_of(bytes[0], bytes[1], bytes[2], bytes[3]),
        ByteOrder::BigEndian => word_of(bytes[3], bytes[2], bytes[1], bytes[0]),
    }
}

/// The wire image of a sequence of words: four bytes for each word, word after word.
pub open spec fn encode(order: ByteOrder, words: Seq<u32>) -> Seq<u8> {
    Seq::new(4 * words.len(), |i: int| word_bytes(order, words[i / 4])[i % 4])
}

/// The words that a payload holds, four bytes each; bytes after the last whole word are
/// left out.
pub open spec fn decode(order: ByteOrder, bytes: Seq<u8>) -> Seq<u32> {
    Seq::new(
        (bytes.len() / 4) as nat,
        |i: int| bytes_word(order, bytes.subrange(4 * i, 4 * i + 4)),
    )
}

/// A receive buffer after `words` were stored at its front.
pub open spec fn filled(buffer: Seq<u32>, words: Seq<u32>) -> Seq<u32> {
    words + buffer.skip(words.len() as int)
}

/// A word's four bytes stand for that word, in either order.
pub proof fn lemma_word_round_trip(order: ByteOrder, x: u32)
    ensures
        word_bytes(order, x).len() == 4,
        bytes_word(order, word_bytes(order, x)) == x,
{
    let b0: u32 = x % 0x100;
    let b1: u32 = x / 0x100 % 0x100;
    let b2: u32 = x / 0x1_0000 % 0x100;
    let b3: u32 = x / 0x100_0000 % 0x100;
    assert(b0 + b1 * 0x100 + b2 * 0x1_0000 + b3 * 0x100_0000 == x) by (bit_vector)
        requires
            b0 == x % 0x100,
            b1 == x / 0x100 % 0x100,
            b2 == x / 0x1_0000 % 0x100,
            b3 == x / 0x100_0000 % 0x100,
    ;
    assert(word_of(byte_of(x, 0), byte_of(x, 1), byte_of(x, 2), byte_of(x, 3)) == x);
}

/// Four bytes are the bytes of the word they stand for, in either order.
pub proof fn lemma_bytes_round_trip(order: ByteOrder, bytes: Seq<u8>)
    requires
        bytes.len() == 4,
    ensures
        word_bytes(order, bytes_word(order, bytes)) == bytes,
{
    match order {
        ByteOrder::LittleEndian => lemma_byte_of_word(bytes[0], bytes[1], bytes[2], bytes[3]),
        ByteOrder::BigEndian => lemma_byte_of_word(bytes[3], bytes[2], bytes[1], bytes[0]),
    }
    assert(word_bytes(order, bytes_word(order, bytes)) =~= bytes);
}

/// Each byte of a word put together from four bytes is the byte that was put there.
proof fn lemma_byte_of_word(b0: u8, b1: u8, b2: u8, b3: u8)
    ensures
        byte_of(word_of(b0, b1, b2, b3), 0) == b0,
        byte_of(word_of(b0, b1, b2, b3), 1) == b1,
        byte_of(word_of(b0, b1, b2, b3), 2) == b2,
        byte_of(word_of(b0, b1, b2, b3), 3) == b3,
{
    let x: u32 = word_of(b0, b1, b2, b3);
    let w0: u32 = b0 as u32;
    let w1: u32 = b1 as u32;
    let w2: u32 = b2 as u32;
    let w3: u32 = b3 as u32;
    assert(x == w0 + w1 * 0x100 + w2 * 0x1_0000 + w3 * 0x100_0000);
    assert(x % 0x100 == w0 && x / 0x100 % 0x100 == w1 && x / 0x1_0000 % 0x100 == w2 && x
        / 0x100_0000 % 0x100 == w3) by (bit_vector)
        requires
            x == w0 + w1 * 0x100 + w2 * 0x1_0000 + w3 * 0x100_0000,
            w0 < 0x100,
            w1 < 0x100,
            w2 < 0x100,
            w3 < 0x100,
    ;
}

/// Decoding what was encoded gives back the same words in the same order.
pub proof fn lemma_decode_encode(order: ByteOrder, words: Seq<u32>)
    ensures
        encode(order, words).len() == 4 * words.len(),
        decode(order, encode(order, words)) == words,
{
    let bytes: Seq<u8> = encode(order, words);
    assert forall|i: int| 0 <= i < words.len() implies #[trigger] decode(order, bytes)[i]
        == words[i] by {
        assert(bytes.subrange(4 * i, 4 * i + 4) =~= word_bytes(order, words[i]));
        lemma_word_round_trip(order, words[i]);
    }
    assert(decode(order, bytes) =~= words);
}

/// Encoding what a payload of whole words decodes to gives back the payload.
pub proof fn lemma_encode_decode(order: ByteOrder, bytes: Seq<u8>)
    requires
        bytes.len() % 4 == 0,
    ensures
        encode(order, decode(order, bytes)) == bytes,
{
    let words: Seq<u32> = decode(order, bytes);
    assert forall|k: int| 0 <= k < bytes.len() implies #[trigger] encode(order, words)[k]
        == bytes[k] by {
        let i: int = k / 4;
        let four: Seq<u8> = bytes.subrange(4 * i, 4 * i + 4);
        lemma_bytes_round_trip(order, four);
        assert(four[k % 4] == bytes[k]);
    }
    assert(encode(order, words) =~= bytes);
}

/// A payload that arrives in two reads decodes to the same words as it does in one, as long
/// as the first read ends on a word boundary.
pub proof fn lemma_decode_split(order: ByteOrder, first: Seq<u8>, second: Seq<u8>)
    requires
        first.len() % 4 == 0,
    ensures
        decode(order, first + second) == decode(order, first) + decode(order, second),
{
    let whole: Seq<u8> = first + second;
    let n: int = first.len() as int / 4;
    assert forall|i: int| 0 <= i < whole.len() / 4 implies #[trigger] decode(order, whole)[i] == (
    decode(order, first) + decode(order, second))[i] by {
        if i < n {
            assert(whole.subrange(4 * i, 4 * i + 4) =~= first.subrange(4 * i, 4 * i + 4));
        } else {
            assert(whole.subrange(4 * i, 4 * i + 4) =~= second.subrange(
                4 * (i - n),
                4 * (i - n) + 4,
            ));
        }
    }
    assert(decode(order, whole) =~= decode(order, first) + decode(order, second));
}

/// Frames sent one after the other read as the words of the first followed by those of
/// the second.
pub proof fn lemma_encode_concat(order: ByteOrder, first: Seq<u32>, second: Seq<u32>)
    ensures
        encode(order, first + second) == encode(order, first) + encode(order, second),
{
    assert(encode(order, first + second) =~= encode(order, first) + encode(order, second));
}

/// `u32::to_ne_bytes`: the bytes of a word as they lie in this machine's memory. The
/// contract claims only that they are the word's bytes in one of the two byte orders.
#[verifier::external_body]
fn memory_bytes(x: u32) -> (bytes: [u8; 4])
    ensures
        bytes@ == word_bytes(ByteOrder::LittleEndian, x) || bytes@ == word_bytes(
            ByteOrder::BigEndian,
            x,
        ),
{
    x.to_ne_bytes()
}

impl ByteOrder {
    /// The byte order under which the word 1 has the given image: the order in which the
    /// image begins with the byte 1, and the other order for every other image.
    pub fn of_image(image: [u8; 4]) -> (order: ByteOrder)
        ensures
            order == (if image@[0] == 1 {
                ByteOrder::LittleEndian
            } else {
                ByteOrder::BigEndian
            }),
            image@ == word_bytes(ByteOrder::LittleEndian, 1) ==> order == ByteOrder::LittleEndian,
            image@ == word_bytes(ByteOrder::BigEndian, 1) ==> order == ByteOrder::BigEndian,
    {
        if image[0] == 1 {
            ByteOrder::LittleEndian
        } else {
            ByteOrder::BigEndian
        }
    }

    /// The byte order of this machine's memory, which is the order of the wire.
    pub fn native() -> (order: ByteOrder) {
        ByteOrder::of_image(memory_bytes(1))
    }
}

/// The wire image of the words in `v`.
pub fn as_bytes(v: &[u32], order: ByteOrder) -> (bytes: Vec<u8>)
    ensures
        bytes@ == encode(order, v@),
        bytes.len() == 4 * v.len(),
{
    let mut bytes: Vec<u8> = Vec::new();
    let mut i: usize = 0;
    while i < v.len()
        invariant
            i <= v.len(),
            bytes@ == encode(order, v@.take(i as int)),
        decreases v.len() - i,
    {
        let x: u32 = v[i];
        assert(x & 0xff == x % 0x100) by (bit_vector);
        assert((x >> 8) & 0xff == x / 0x100 % 0x100) by (bit_vector);
        assert((x >> 16) & 0xff == x / 0x1_0000 % 0x100) by (bit_vector);
        assert((x >> 24) & 0xff == x / 0x100_0000 % 0x100) by (bit_vector);
        let b0: u8 = (x & 0xff) as u8;
        let b1: u8 = ((x >> 8) & 0xff) as u8;
        let b2: u8 = ((x >> 16) & 0xff) as u8;
        let b3: u8 = ((x >> 24) & 0xff) as u8;
        match order {
            ByteOrder::LittleEndian => {
                bytes.push(b0);
                bytes.push(b1);
                bytes.push(b2);
                bytes.push(b3);
            },
            ByteOrder::BigEndian => {
                bytes.push(b3);
                bytes.push(b2);
                bytes.push(b1);
                bytes.push(b0);
            },
        }
        proof {
            assert(v@.take(i + 1) =~= v@.take(i as int) + seq![x]);
            lemma_encode_concat(order, v@.take(i as int), seq![x]);
            assert(encode(order, seq![x]) =~= word_bytes(order, x));
        }
        i += 1;
    }
    assert(v@.take(v.len() as int) =~= v@);
    bytes
}

/// Takes in what one read from the stream brought: checks that `received` is a sequence of
/// whole words, stores the words at the front of `buffer` and returns their number. A
/// payload that ends inside a word is refused, and `buffer` is then left as it was.
pub fn read_input(received: &[u8], buffer: &mut [u32], order: ByteOrder) -> (count: Result<
    usize,
    WireError,
>)
    requires
        received.len() <= 4 * old(buffer).len(),
    ensures
        received.len() % 4 == 0 ==> count == Ok::<usize, WireError>((received.len() / 4) as usize)
            && final(buffer)@ == filled(old(buffer)@, decode(order, received@)),
        received.len() % 4 != 0 ==> count == Err::<usize, WireError>(
            WireError::Misaligned(received.len()),
        ) && final(buffer)@ == old(buffer)@,
{
    let n: usize = received.len();
    if n % WORD_BYTES != 0 {
        return Err(WireError::Misaligned(n));
    }
    let words: usize = n / WORD_BYTES;
    let mut i: usize = 0;
    while i < words
        invariant
            i <= words,
            words == received.len() / 4,
            received.len() % 4 == 0,
            words <= buffer.len(),
            buffer@.len() == old(buffer)@.len(),
            buffer@.take(i as int) == decode(order, received@).take(i as int),
            buffer@.skip(i as int) == old(buffer)@.skip(i as int),
        decreases words - i,
    {
        let b0: u8 = received[4 * i];
        let b1: u8 = received[4 * i + 1];
        let b2: u8 = received[4 * i + 2];
        let b3: u8 = received[4 * i + 3];
        let word: u32 = match order {
            ByteOrder::LittleEndian => compose(b0, b1, b2, b3),
            ByteOrder::BigEndian => compose(b3, b2, b1, b0),
        };
        let ghost before: Seq<u32> = buffer@;
        buffer[i] = word;
        proof {
            assert(word == decode(order, received@)[i as int]);
            assert(buffer@.take(i + 1) =~= before.take(i as int).push(word));
            assert(decode(order, received@).take(i + 1) =~= decode(order, received@).take(
                i as int,
            ).push(word));
            assert(buffer@.skip(i + 1) =~= before.skip(i as int).skip(1));
            assert(old(buffer)@.skip(i + 1) =~= old(buffer)@.skip(i as int).skip(1));
        }
        i += 1;
    }
    proof {
        let decoded: Seq<u32> = decode(order, received@);
        assert(decoded.take(words as int) =~= decoded);
        assert(buffer@ =~= buffer@.take(words as int) + buffer@.skip(words as int));
    }
    Ok(words)
}

/// Puts four bytes together into a word, the least significant byte first.
fn compose(b0: u8, b1: u8, b2: u8, b3: u8) -> (x: u32)
    ensures
        x == word_of(b0, b1, b2, b3),
{
    let w0: u32 = b0 as u32;
    let w1: u32 = b1 as u32;
    let w2: u32 = b2 as u32;
    let w3: u32 = b3 as u32;
    assert(w0 | (w1 << 8) | (w2 << 16) | (w3 << 24) == w0 + w1 * 0x100 + w2 * 0x1_0000 + w3
        * 0x100_0000) by (bit_vector)
        requires
            w0 < 0x100,
            w1 < 0x100,
            w2 < 0x100,
            w3 < 0x100,
    ;
    w0 | (w1 << 8) | (w2 << 16) | (w3 << 24)
}

/// Serves what one read from a client brought: takes the payload in and shows its colors
/// on the strip. A payload that ends inside a word closes the connection before anything
/// is shown. Returns the number of colors taken in.
pub fn handle_client(
    hw: &mut DeviceController,
    received: &[u8],
    buffer: &mut [u32],
    order: ByteOrder,
) -> (shown: Result<usize, ClientError>)
    requires
        received.len() <= 4 * old(buffer).len(),
    ensures
        final(hw).same_setup(old(hw)),
        received.len() % 4 != 0 ==> {
            &&& shown == Err::<usize, ClientError>(
                ClientError::Protocol(WireError::Misaligned(received.len())),
            )
            &&& final(buffer)@ == old(buffer)@
            &&& final(hw).leds() == old(hw).leds()
        },
        received.len() % 4 == 0 ==> {
            &&& final(buffer)@ == filled(old(buffer)@, decode(order, received@))
            &&& final(hw).leds() == loaded(old(hw).leds(), decode(order, received@))
            &&& match shown {
                Ok(n) => n == received.len() / 4,
                Err(e) => e is Sink,
            }
        },
{
    match read_input(received, buffer, order) {
        Err(e) => Err(ClientError::Protocol(e)),
        Ok(n) => {
            let colors: &[u32] = slice_subrange(buffer, 0, n);
            assert(colors@ =~= decode(order, received@));
            match hw.apply(colors) {
                Ok(_) => Ok(n),
                Err(e) => Err(ClientError::Sink(e)),
            }
        },
    }
}

} // verus!
