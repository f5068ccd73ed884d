//! The outer layer of a DER SEQUENCE.

use vstd::prelude::*;
use vstd::slice::slice_subrange;

verus! {

/// Why bytes are not one DER SEQUENCE.
#[derive(Clone, Copy, Debug, PartialEq, Eq, Structural)]
pub enum DerError {
    /// There are fewer than two bytes, or the first is not the tag of a SEQUENCE.
    NotASequence,
    /// The length is indefinite, or its own bytes are cut short.
    InvalidLength,
    /// The end of the contents cannot be counted.
    LengthOverflow,
    /// The contents do not end where the input ends.
    TrailingBytes,
}

impl DerError {
    /// The text that reports the error.
    pub open spec fn message_text(self) -> Seq<char> {
        match self {
            DerError::NotASequence => "subject name is not a DER SEQUENCE"@,
            DerError::InvalidLength => "invalid DER length in subject name"@,
            DerError::LengthOverflow => "subject name length overflow"@,
            DerError::TrailingBytes => "unexpected trailing bytes in subject name"@,
        }
    }

    /// The text that reports the error.
    pub fn message(&self) -> (text: String)
        ensures
            text@ == self.message_text(),
    {
        match self {
            DerError::NotASequence => "subject name is not a DER SEQUENCE".to_owned(),
            DerError::InvalidLength => "invalid DER length in subject name".to_owned(),
            DerError::LengthOverflow => "subject name length overflow".to_owned(),
            DerError::TrailingBytes => "unexpected trailing bytes in subject name".to_owned(),
        }
    }
}

/// The number of different values of `usize`.
pub open spec fn usize_values() -> int {
    usize::MAX + 1
}

/// Bytes read as one unsigned number, the most significant byte first.
pub open spec fn big_endian(bytes: Seq<u8>) -> nat
    decreases bytes.len(),
{
    if bytes.len() == 0 {
        0
    } else {
        big_endian(bytes.drop_last()) * 256 + bytes.last() as nat
    }
}

/// How many bytes stand in front of the contents, going by the byte behind the tag.
pub open spec fn header_len(length_byte: u8) -> int {
    if length_byte < 0x80 {
        2
    } else {
        2 + (length_byte - 0x80)
    }
}

/// The length that a header announces; of a number too large for `usize`, its low bits.
pub open spec fn announced_len(input: Seq<u8>) -> int {
    if input[1] < 0x80 {
        input[1] as int
    } else {
        big_endian(input.subrange(2, header_len(input[1]))) as int % usize_values()
    }
}

/// The contents of the one DER SEQUENCE that `input` is, or why it is none.
pub open spec fn sequence_contents(input: Seq<u8>) -> Result<Seq<u8>, DerError> {
    if input.len() < 2 || input[0] != 0x30 {
        Err(DerError::NotASequence)
    } else if input[1] == 0x80 || input.len() < header_len(input[1]) {
        Err(DerError::InvalidLength)
    } else {
        let start = header_len(input[1]);
        let end = start + announced_len(input);
        if end > usize::MAX {
            Err(DerError::LengthOverflow)
        } else if end != input.len() {
            Err(DerError::TrailingBytes)
        } else {
            Ok(input.skip(start))
        }
    }
}

/// Shifting a `usize` up by one byte and filling in another keeps the low bits of the number.
proof fn lemma_append_byte(value: usize, byte: u8)
    ensures
        ((value << 8usize) | byte as usize) as int == (value * 256 + byte) % usize_values(),
{
    if usize::BITS == 32 {
        assert(((value << 8usize) | byte as usize) == (value * 256 + byte) % 0x1_0000_0000)
            by (bit_vector)
            requires
                usize::BITS == 32,
        ;
    } else {
        assert(((value << 8usize) | byte as usize) == (value * 256 + byte)
            % 0x1_0000_0000_0000_0000) by (bit_vector)
            requires
                usize::BITS == 64,
        ;
    }
}

/// Reducing before another byte is appended does not change what remains.
proof fn lemma_reduce_first(high: int, byte: int, modulus: int)
    requires
        modulus > 0,
    ensures
        ((high % modulus) * 256 + byte) % modulus == (high * 256 + byte) % modulus,
{
    vstd::arithmetic::div_mod::lemma_mul_mod_noop_left(high, 256, modulus);
    vstd::arithmetic::div_mod::lemma_add_mod_noop((high % modulus) * 256, byte, modulus);
    vstd::arithmetic::div_mod::lemma_add_mod_noop(high * 256, byte, modulus);
}

/// Takes the tag and the length off a DER SEQUENCE that fills the whole input.
pub fn der_sequence_contents(input: &[u8]) -> (contents: Result<&[u8], DerError>)
    ensures
        match contents {
            Ok(bytes) => sequence_contents(input@) == Ok::<Seq<u8>, DerError>(bytes@),
            Err(error) => sequence_contents(input@) == Err::<Seq<u8>, DerError>(error),
        },
{
    if input.len() < 2 || input[0] != 0x30 {
        return Err(DerError::NotASequence);
    }
    let length_byte: u8 = input[1];
    assert((length_byte & 0x80 == 0) == (length_byte < 0x80)) by (bit_vector);
    let start: usize;
    let content_len: usize;
    if length_byte & 0x80 == 0 {
        start = 2;
        content_len = length_byte as usize;
    } else {
        assert(length_byte >= 0x80 ==> (length_byte & 0x7f) == length_byte - 0x80) by (bit_vector);
        let count: usize = (length_byte & 0x7f) as usize;
        if count == 0 || input.len() < 2 + count {
            return Err(DerError::InvalidLength);
        }
        let ghost field = input@.subrange(2, 2 + count);
        let mut len: usize = 0;
        proof {
            vstd::arithmetic::div_mod::lemma_small_mod(0, usize_values() as nat);
        }
        for i in 0..count
            invariant
                count <= 0x7f,
                2 + count <= input.len(),
                field == input@.subrange(2, 2 + count),
                len as int == big_endian(field.take(i as int)) as int % usize_values(),
        {
            let byte: u8 = input[2 + i];
            proof {
                let before = field.take(i as int);
                let after = field.take(i + 1);
                assert(after.drop_last() == before);
                assert(after.last() == byte);
                lemma_append_byte(len, byte);
                lemma_reduce_first(big_endian(before) as int, byte as int, usize_values());
            }
            len = (len << 8usize) | byte as usize;
        }
        assert(field.take(count as int) == field);
        start = 2 + count;
        content_len = len;
    }
    match start.checked_add(content_len) {
        None => Err(DerError::LengthOverflow),
        Some(end) => {
            if end != input.len() {
                Err(DerError::TrailingBytes)
            } else {
                assert(input@.subrange(start as int, end as int) == input@.skip(start as int));
                Ok(slice_subrange(input, start, end))
            }
        },
    }
}

/// Contents of fewer than 128 bytes come back out of the SEQUENCE that the short form makes of
/// them.
pub proof fn law_short_form_round_trip(contents: Seq<u8>)
    requires
        contents.len() < 0x80,
    ensures
        sequence_contents(seq![0x30u8, contents.len() as u8] + contents) == Ok::<
            Seq<u8>,
            DerError,
        >(contents),
{
    let input = seq![0x30u8, contents.len() as u8] + contents;
    assert(input.skip(2) == contents);
}

/// Contents come back out of the SEQUENCE that the long form makes of them, however many bytes
/// their length is written in.
pub proof fn law_long_form_round_trip(length: Seq<u8>, contents: Seq<u8>)
    requires
        0 < length.len() < 0x80,
        big_endian(length) == contents.len(),
        2 + length.len() + contents.len() <= usize::MAX,
    ensures
        sequence_contents(seq![0x30u8, (0x80 + length.len()) as u8] + length + contents) == Ok::<
            Seq<u8>,
            DerError,
        >(contents),
{
    let input = seq![0x30u8, (0x80 + length.len()) as u8] + length + contents;
    assert(input[1] as int == 0x80 + length.len());
    assert(input.subrange(2, 2int + length.len()) == length);
    vstd::arithmetic::div_mod::lemma_small_mod(contents.len(), usize_values() as nat);
    assert(input.skip(2int + length.len()) == contents);
}

/// What is accepted is a tag, a length and the contents, with nothing behind them.
pub proof fn law_accepted_input_is_header_and_contents(input: Seq<u8>)
    ensures
        sequence_contents(input) matches Ok(contents) ==> {
            &&& input[0] == 0x30
            &&& input == input.take(header_len(input[1])) + contents
            &&& contents.len() == announced_len(input)
        },
{
    if let Ok(contents) = sequence_contents(input) {
        assert(input == input.take(header_len(input[1])) + contents);
    }
}

/// A number grows by one byte at its low end.
pub proof fn law_bytes_are_a_number(bytes: Seq<u8>, byte: u8)
    ensures
        big_endian(Seq::<u8>::empty()) == 0,
        big_endian(bytes.push(byte)) == 256 * big_endian(bytes) + byte,
{
    assert(bytes.push(byte).drop_last() == bytes);
}

/// The first byte or a lack of bytes, and nothing else, makes input no SEQUENCE.
pub proof fn law_not_a_sequence(input: Seq<u8>)
    ensures
        sequence_contents(input) == Err::<Seq<u8>, DerError>(DerError::NotASequence)
            <==> input.len() < 2 || input[0] != 0x30,
{
}

/// With a second byte under 0x80, that byte is the number of bytes to follow: they are the contents,
/// and any other number of them is an error.
pub proof fn law_short_form(input: Seq<u8>)
    requires
        input.len() >= 2,
        input[0] == 0x30,
        input[1] < 0x80,
        input.len() <= usize::MAX,
    ensures
        sequence_contents(input) == if input.len() == 2 + input[1] {
            Ok::<Seq<u8>, DerError>(input.skip(2))
        } else {
            Err(DerError::TrailingBytes)
        },
{
}

/// With a second byte of 0x80 or more, its low bits say how many bytes of length follow. There has to
/// be one and all of them have to be there; they say how many bytes of contents follow, as far as
/// `usize` can count, and any other number of them is an error.
pub proof fn law_long_form(input: Seq<u8>)
    requires
        input.len() >= 2,
        input[0] == 0x30,
        input[1] >= 0x80,
        input.len() <= usize::MAX,
    ensures
        ({
            let start = input[1] - 0x80 + 2;
            let len = big_endian(input.subrange(2, start)) as int % (usize::MAX + 1);
            sequence_contents(input) == if input[1] == 0x80 || input.len() < start {
                Err::<Seq<u8>, DerError>(DerError::InvalidLength)
            } else if start + len > usize::MAX {
                Err(DerError::LengthOverflow)
            } else if start + len != input.len() {
                Err(DerError::TrailingBytes)
            } else {
                Ok(input.skip(start))
            }
        }),
{
}

/// Each error has words of its own.
pub proof fn law_der_errors_in_words(error: DerError)
    ensures
        error is NotASequence ==> error.message_text() == "subject name is not a DER SEQUENCE"@,
        error is InvalidLength ==> error.message_text() == "invalid DER length in subject name"@,
        error is LengthOverflow ==> error.message_text() == "subject name length overflow"@,
        error is TrailingBytes ==> error.message_text()
            == "unexpected trailing bytes in subject name"@,
{
}

} // verus!
