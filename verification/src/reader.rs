//! The read buffer, and the integers and texts that it reads.

use crate::deserializer::{
    big_endian_2,
    big_endian_4,
    big_endian_8,
    signed_16,
    signed_32,
    signed_64,
    Deserializer,
};
use crate::errors::{ErrorKind, MapFileException};
use crate::types::{tags_view, Tag, TagView};
use vstd::prelude::*;
use vstd::slice::slice_subrange;
use vstd::slice::slice_to_vec;
use vstd::utf8::{decode_utf8, valid_utf8};

verus! {

/// The largest region, in bytes, that a buffer loads at once.
pub const MAXIMUM_BUFFER_SIZE: usize = 10485760;

/// What a reader yields at a position: the value and the position after it,
/// or the error.
pub type Parsed<T> = Result<(T, int), MapFileException>;

/// The error of the given kind, as the outcome of a reader.
pub open spec fn failure<T>(kind: ErrorKind) -> Parsed<T> {
    Err(MapFileException::of(kind))
}

/// A variable-byte integer at `pos`: its magnitude, whether its sign flag is
/// set, and the position after it; `None` where the bytes end first.
///
/// A byte of 128 or more continues the number and gives its low seven bits.
/// The byte that ends an unsigned number gives all its bits; the byte that
/// ends a signed number gives its low six bits, and its bit 6 is the sign.
/// Each byte weighs 128 times the one before it.
pub open spec fn variable_byte(data: Seq<u8>, pos: int, signed: bool) -> Option<(nat, bool, int)>
    decreases data.len() - pos,
{
    if pos < 0 || pos >= data.len() {
        None
    } else if data[pos] < 128 {
        if signed {
            Some(((data[pos] % 64) as nat, data[pos] >= 64, pos + 1))
        } else {
            Some((data[pos] as nat, false, pos + 1))
        }
    } else {
        match variable_byte(data, pos + 1, signed) {
            Some((rest, negative, next)) => Some(
                ((data[pos] - 128 + 128 * rest) as nat, negative, next),
            ),
            None => None,
        }
    }
}

/// The bytes that write `value` as an unsigned variable-byte integer.
pub open spec fn encode_unsigned(value: nat) -> Seq<u8>
    decreases value,
{
    if value < 128 {
        seq![value as u8]
    } else {
        seq![(128 + value % 128) as u8] + encode_unsigned(value / 128)
    }
}

/// The bytes that write a magnitude and a sign as a signed variable-byte
/// integer.
pub open spec fn encode_magnitude(magnitude: nat, negative: bool) -> Seq<u8>
    decreases magnitude,
{
    if magnitude < 64 {
        seq![
            (if negative {
                magnitude + 64
            } else {
                magnitude
            }) as u8,
        ]
    } else {
        seq![(128 + magnitude % 128) as u8] + encode_magnitude(magnitude / 128, negative)
    }
}

/// The bytes that write `value` as a signed variable-byte integer.
pub open spec fn encode_signed(value: int) -> Seq<u8> {
    if value < 0 {
        encode_magnitude((-value) as nat, true)
    } else {
        encode_magnitude(value as nat, false)
    }
}

/// The byte at `pos`.
pub open spec fn spec_read_byte(data: Seq<u8>, pos: int) -> Parsed<u8> {
    if 0 <= pos < data.len() {
        Ok((data[pos], pos + 1))
    } else {
        failure(ErrorKind::BufferOverrun)
    }
}

/// The signed number that the two bytes at `pos` denote, most significant
/// byte first.
pub open spec fn spec_read_short(data: Seq<u8>, pos: int) -> Parsed<i16> {
    if 0 <= pos && pos + 2 <= data.len() {
        Ok((signed_16(big_endian_2(data, pos)) as i16, pos + 2))
    } else {
        failure(ErrorKind::BufferOverrun)
    }
}

/// The signed number that the four bytes at `pos` denote, most significant
/// byte first.
pub open spec fn spec_read_int(data: Seq<u8>, pos: int) -> Parsed<i32> {
    if 0 <= pos && pos + 4 <= data.len() {
        Ok((signed_32(big_endian_4(data, pos)) as i32, pos + 4))
    } else {
        failure(ErrorKind::BufferOverrun)
    }
}

/// The unsigned number that the four bytes at `pos` denote, most
/// significant byte first: the bit pattern of a floating-point number.
pub open spec fn spec_read_float_bits(data: Seq<u8>, pos: int) -> Parsed<u32> {
    if 0 <= pos && pos + 4 <= data.len() {
        Ok((big_endian_4(data, pos) as u32, pos + 4))
    } else {
        failure(ErrorKind::BufferOverrun)
    }
}

/// The signed number that the eight bytes at `pos` denote, most
/// significant byte first.
pub open spec fn spec_read_long(data: Seq<u8>, pos: int) -> Parsed<i64> {
    if 0 <= pos && pos + 8 <= data.len() {
        Ok((signed_64(big_endian_8(data, pos)) as i64, pos + 8))
    } else {
        failure(ErrorKind::BufferOverrun)
    }
}

/// The unsigned variable-byte integer at `pos`. It fails with
/// `InvalidEncoding` where the bytes end inside it or it exceeds 32 bits.
pub open spec fn spec_read_unsigned_int(data: Seq<u8>, pos: int) -> Parsed<u32> {
    match variable_byte(data, pos, false) {
        Some((magnitude, _, next)) => if magnitude <= u32::MAX {
            Ok((magnitude as u32, next))
        } else {
            failure(ErrorKind::InvalidEncoding)
        },
        None => failure(ErrorKind::InvalidEncoding),
    }
}

/// The signed variable-byte integer at `pos`. It fails with
/// `InvalidEncoding` where the bytes end inside it or its magnitude exceeds
/// 31 bits.
pub open spec fn spec_read_signed_int(data: Seq<u8>, pos: int) -> Parsed<i32> {
    match variable_byte(data, pos, true) {
        Some((magnitude, negative, next)) => if magnitude <= i32::MAX {
            Ok(
                (
                    (if negative {
                        -(magnitude as int)
                    } else {
                        magnitude as int
                    }) as i32,
                    next,
                ),
            )
        } else {
            failure(ErrorKind::InvalidEncoding)
        },
        None => failure(ErrorKind::InvalidEncoding),
    }
}

/// The text of `length` bytes at `pos`. It fails with `BufferOverrun` where
/// the bytes end first, with `InvalidEncoding` where they are not UTF-8.
pub open spec fn spec_read_utf8_with_length(data: Seq<u8>, pos: int, length: int) -> Parsed<
    Seq<char>,
> {
    if 0 <= pos && 0 <= length && pos + length <= data.len() {
        if valid_utf8(data.subrange(pos, pos + length)) {
            Ok((decode_utf8(data.subrange(pos, pos + length)), pos + length))
        } else {
            failure(ErrorKind::InvalidEncoding)
        }
    } else {
        failure(ErrorKind::BufferOverrun)
    }
}

/// The text at `pos` that an unsigned variable-byte length precedes.
pub open spec fn spec_read_utf8(data: Seq<u8>, pos: int) -> Parsed<Seq<char>> {
    match spec_read_unsigned_int(data, pos) {
        Ok((length, next)) => spec_read_utf8_with_length(data, next, length as int),
        Err(e) => Err(e),
    }
}

/// `count` tag ids at `pos`, each an unsigned variable-byte index into
/// `dictionary`, resolved to the tags they name. An id without an entry
/// fails with `InvalidTagId`, which carries the id.
pub open spec fn spec_read_tags(data: Seq<u8>, pos: int, dictionary: Seq<TagView>, count: nat)
    -> Parsed<Seq<TagView>>
    decreases count,
{
    if count == 0 {
        Ok((Seq::empty(), pos))
    } else {
        match spec_read_unsigned_int(data, pos) {
            Ok((id, next)) => if id < dictionary.len() {
                match spec_read_tags(data, next, dictionary, (count - 1) as nat) {
                    Ok((rest, end)) => Ok((seq![dictionary[id as int]] + rest, end)),
                    Err(e) => Err(e),
                }
            } else {
                Err(MapFileException { kind: ErrorKind::InvalidTagId, value: id as i64 })
            },
            Err(e) => Err(e),
        }
    }
}

/// `length` bytes of `source` from `offset`, or `None` where the source ends
/// first.
pub open spec fn spec_read_exact(source: Seq<u8>, offset: int, length: int) -> Option<Seq<u8>> {
    if 0 <= offset && 0 <= length && offset + length <= source.len() {
        Some(source.subrange(offset, offset + length))
    } else {
        None
    }
}

/// Copies `length` bytes of `source` from `offset`; `None` where the source
/// ends first.
pub fn read_exact(source: &[u8], offset: usize, length: usize) -> (bytes: Option<Vec<u8>>)
    ensures
        match spec_read_exact(source@, offset as int, length as int) {
            Some(expected) => bytes matches Some(found) && found@ == expected,
            None => bytes is None,
        },
        bytes is Some ==> offset + length <= usize::MAX,
{
    let available: usize = source.len();
    if offset > available || available - offset < length {
        return None;
    }
    Some(slice_to_vec(slice_subrange(source, offset, offset + length)))
}

/// Turns bytes into text by `String::from_utf8`: the text that the bytes
/// encode where they are valid UTF-8, and nothing otherwise.
#[verifier::external_body]
fn utf8_to_string(bytes: Vec<u8>) -> (text: Option<String>)
    ensures
        match text {
            Some(s) => valid_utf8(bytes@) && s@ == decode_utf8(bytes@),
            None => !valid_utf8(bytes@),
        },
{
    match String::from_utf8(bytes) {
        Ok(s) => Some(s),
        Err(_) => None,
    }
}

/// What a `ReadBuffer` holds: the loaded region and the cursor in it, the
/// byte source and the position in it at which the next sequential load
/// starts.
pub struct ReadBufferView {
    pub data: Seq<u8>,
    pub position: int,
    pub channel: Seq<u8>,
    pub channel_position: int,
}

impl ReadBufferView {
    /// The same buffer with its cursor at `position`.
    pub open spec fn at(self, position: int) -> ReadBufferView {
        ReadBufferView { position, ..self }
    }

    /// The buffer after it has loaded `length` bytes of its source from
    /// `offset`.
    pub open spec fn loaded(self, offset: int, length: int) -> ReadBufferView {
        ReadBufferView {
            data: self.channel.subrange(offset, offset + length),
            position: 0,
            channel: self.channel,
            channel_position: offset + length,
        }
    }

    /// A reader left the buffer as its outcome says: on success the cursor
    /// stands after what was read and the value is the one read; on failure
    /// nothing has changed and the error is the one named.
    pub open spec fn read<T>(
        self,
        after: ReadBufferView,
        got: Result<T, MapFileException>,
        expected: Parsed<T>,
    ) -> bool {
        match expected {
            Ok((value, next)) => got == Ok::<T, MapFileException>(value) && after == self.at(next),
            Err(e) => got == Err::<T, MapFileException>(e) && after == self,
        }
    }

    /// Nothing but the cursor differs in `after`.
    pub open spec fn same_region(self, after: ReadBufferView) -> bool {
        after == self.at(after.position)
    }

    /// As `read`, for a text.
    pub open spec fn read_text(
        self,
        after: ReadBufferView,
        got: Result<String, MapFileException>,
        expected: Parsed<Seq<char>>,
    ) -> bool {
        match expected {
            Ok((value, next)) => got matches Ok(text) && text@ == value && after == self.at(next),
            Err(e) => got == Err::<String, MapFileException>(e) && after == self,
        }
    }

    /// As `read`, for a list of tags.
    pub open spec fn read_tag_list(
        self,
        after: ReadBufferView,
        got: Result<Vec<Tag>, MapFileException>,
        expected: Parsed<Seq<TagView>>,
    ) -> bool {
        match expected {
            Ok((value, next)) => got matches Ok(tags) && tags_view(tags@) == value && after
                == self.at(next),
            Err(e) => got == Err::<Vec<Tag>, MapFileException>(e) && after == self,
        }
    }
}

/// A reader of a record left the buffer as its outcome says: of the buffer
/// nothing but the cursor differs, and on success the cursor stands where
/// `expected` says.
pub open spec fn advanced<T>(
    before: ReadBufferView,
    after: ReadBufferView,
    expected: Parsed<T>,
) -> bool {
    before.same_region(after) && (expected matches Ok((_, next)) ==> after.position == next)
}

/// A region of bytes loaded from a byte source, with a cursor.
pub struct ReadBuffer<'a> {
    buffer_data: Vec<u8>,
    buffer_position: usize,
    input_channel: &'a [u8],
    channel_position: usize,
}

impl<'a> View for ReadBuffer<'a> {
    type V = ReadBufferView;

    closed spec fn view(&self) -> ReadBufferView {
        ReadBufferView {
            data: self.buffer_data@,
            position: self.buffer_position as int,
            channel: self.input_channel@,
            channel_position: self.channel_position as int,
        }
    }
}

/// Where a variable-byte integer that started earlier stands after some of
/// its bytes: `value` gathered so far, the next byte weighing `weight`.
spec fn resume(rest: Option<(nat, bool, int)>, value: nat, weight: nat) -> Option<
    (nat, bool, int),
> {
    match rest {
        Some((magnitude, negative, next)) => Some((value + weight * magnitude, negative, next)),
        None => None,
    }
}

proof fn lemma_resume_step(data: Seq<u8>, pos: int, signed: bool, value: nat, weight: nat)
    requires
        0 <= pos < data.len(),
        data[pos] >= 128,
    ensures
        resume(variable_byte(data, pos, signed), value, weight) == resume(
            variable_byte(data, pos + 1, signed),
            (value + weight * (data[pos] - 128)) as nat,
            weight * 128,
        ),
{
    match variable_byte(data, pos + 1, signed) {
        Some((rest, negative, next)) => {
            let payload = data[pos] - 128;
            assert(value + weight * ((payload + 128 * rest) as nat) == (value + weight * payload)
                + (weight * 128) * rest) by (nonlinear_arith)
                requires
                    payload >= 0,
            ;
        },
        None => {},
    }
}

impl<'a> ReadBuffer<'a> {
    /// An empty buffer over `input_channel`, which it will read from its
    /// start.
    pub fn new(input_channel: &'a [u8]) -> (buffer: Self)
        ensures
            buffer@ == (ReadBufferView {
                data: Seq::empty(),
                position: 0,
                channel: input_channel@,
                channel_position: 0,
            }),
    {
        ReadBuffer {
            buffer_data: Vec::new(),
            buffer_position: 0,
            input_channel,
            channel_position: 0,
        }
    }

    /// Reads one byte.
    pub fn read_byte(&mut self) -> (r: Result<u8, MapFileException>)
        ensures
            old(self)@.read(final(self)@, r, spec_read_byte(old(self)@.data, old(self)@.position)),
    {
        if self.buffer_position >= self.buffer_data.len() {
            return Err(MapFileException::new(ErrorKind::BufferOverrun, 0));
        }
        let byte: u8 = self.buffer_data[self.buffer_position];
        self.buffer_position += 1;
        Ok(byte)
    }

    /// The cursor and the place of the next load are positions: neither is
    /// negative, and each fits the machine's word.
    pub proof fn lemma_positions_are_in_range(&self)
        ensures
            0 <= self@.position <= usize::MAX,
            0 <= self@.channel_position <= usize::MAX,
    {
    }

    /// Whether `count` more bytes lie between the cursor and the end.
    fn has_remaining(&self, count: usize) -> (enough: bool)
        ensures
            enough == (self@.position + count <= self@.data.len()),
            enough ==> self@.position + count <= usize::MAX,
    {
        let size: usize = self.buffer_data.len();
        self.buffer_position <= size && size - self.buffer_position >= count
    }

    /// Loads `length` bytes from where the last load ended. `Ok(true)`: the
    /// region holds them and the cursor is at its start. `Ok(false)`: the
    /// source ends first. More than the largest region fails with
    /// `TooLarge`. Unless it returns `Ok(true)`, nothing changes.
    pub fn read_from_file(&mut self, length: usize) -> (r: Result<bool, MapFileException>)
        ensures
            length > MAXIMUM_BUFFER_SIZE ==> r == Err::<bool, MapFileException>(
                MapFileException::of(ErrorKind::TooLarge),
            ) && final(self)@ == old(self)@,
            length <= MAXIMUM_BUFFER_SIZE ==> (match spec_read_exact(
                old(self)@.channel,
                old(self)@.channel_position,
                length as int,
            ) {
                Some(_) => r == Ok::<bool, MapFileException>(true) && final(self)@ == old(
                    self
                )@.loaded(old(self)@.channel_position, length as int),
                None => r == Ok::<bool, MapFileException>(false) && final(self)@ == old(self)@,
            }),
    {
        if length > MAXIMUM_BUFFER_SIZE {
            return Err(MapFileException::new(ErrorKind::TooLarge, 0));
        }
        match read_exact(self.input_channel, self.channel_position, length) {
            Some(bytes) => {
                self.buffer_data = bytes;
                self.buffer_position = 0;
                self.channel_position = self.channel_position + length;
                Ok(true)
            },
            None => Ok(false),
        }
    }

    /// Loads `length` bytes from `offset` of the source; otherwise as
    /// `read_from_file`.
    pub fn read_from_file_at_offset(&mut self, offset: u64, length: usize) -> (r: Result<
        bool,
        MapFileException,
    >)
        ensures
            length > MAXIMUM_BUFFER_SIZE ==> r == Err::<bool, MapFileException>(
                MapFileException::of(ErrorKind::TooLarge),
            ) && final(self)@ == old(self)@,
            length <= MAXIMUM_BUFFER_SIZE ==> (match spec_read_exact(
                old(self)@.channel,
                offset as int,
                length as int,
            ) {
                Some(_) => r == Ok::<bool, MapFileException>(true) && final(self)@ == old(
                    self
                )@.loaded(offset as int, length as int),
                None => r == Ok::<bool, MapFileException>(false) && final(self)@ == old(self)@,
            }),
    {
        if length > MAXIMUM_BUFFER_SIZE {
            return Err(MapFileException::new(ErrorKind::TooLarge, 0));
        }
        if offset > self.input_channel.len() as u64 {
            return Ok(false);
        }
        let start: usize = offset as usize;
        match read_exact(self.input_channel, start, length) {
            Some(bytes) => {
                self.buffer_data = bytes;
                self.buffer_position = 0;
                self.channel_position = start + length;
                Ok(true)
            },
            None => Ok(false),
        }
    }

    /// Reads four bytes as a signed number.
    pub fn read_int(&mut self) -> (r: Result<i32, MapFileException>)
        ensures
            old(self)@.read(final(self)@, r, spec_read_int(old(self)@.data, old(self)@.position)),
    {
        if !self.has_remaining(4) {
            return Err(MapFileException::new(ErrorKind::BufferOverrun, 0));
        }
        let value: i32 = Deserializer::get_int(self.buffer_data.as_slice(), self.buffer_position);
        self.buffer_position += 4;
        Ok(value)
    }

    /// Reads four bytes as the bit pattern of a floating-point number.
    pub fn read_float_bits(&mut self) -> (r: Result<u32, MapFileException>)
        ensures
            old(self)@.read(
                final(self)@,
                r,
                spec_read_float_bits(old(self)@.data, old(self)@.position),
            ),
    {
        let value: i32 = self.read_int()?;
        if value < 0 {
            Ok((value as i64 + 0x1_0000_0000) as u32)
        } else {
            Ok(value as u32)
        }
    }

    /// Reads eight bytes as a signed number.
    pub fn read_long(&mut self) -> (r: Result<i64, MapFileException>)
        ensures
            old(self)@.read(final(self)@, r, spec_read_long(old(self)@.data, old(self)@.position)),
    {
        if !self.has_remaining(8) {
            return Err(MapFileException::new(ErrorKind::BufferOverrun, 0));
        }
        let value: i64 = Deserializer::get_long(self.buffer_data.as_slice(), self.buffer_position);
        self.buffer_position += 8;
        Ok(value)
    }

    /// Reads two bytes as a signed number.
    pub fn read_short(&mut self) -> (r: Result<i16, MapFileException>)
        ensures
            old(self)@.read(
                final(self)@,
                r,
                spec_read_short(old(self)@.data, old(self)@.position),
            ),
    {
        if !self.has_remaining(2) {
            return Err(MapFileException::new(ErrorKind::BufferOverrun, 0));
        }
        let value: i16 = Deserializer::get_short(
            self.buffer_data.as_slice(),
            self.buffer_position,
        );
        self.buffer_position += 2;
        Ok(value)
    }

    /// Reads the variable-byte integer at the cursor without moving it: the
    /// magnitude, the sign flag and the position after the integer, where the
    /// integer is complete and its magnitude is at most `limit`.
    fn scan_variable_byte(&self, signed: bool, limit: u64) -> (found: Option<(u64, bool, usize)>)
        requires
            limit <= u32::MAX,
        ensures
            match variable_byte(self@.data, self@.position, signed) {
                Some((magnitude, negative, next)) => if magnitude <= limit {
                    found matches Some((m, n, p)) && m == magnitude && n == negative && p == next
                } else {
                    found is None
                },
                None => found is None,
            },
    {
        let size: usize = self.buffer_data.len();
        if self.buffer_position > size {
            return None;
        }
        let mut pos: usize = self.buffer_position;
        let mut value: u64 = 0;
        let mut scale: u64 = 1;
        let mut steps: u8 = 0;
        let ghost weight: nat = 1;
        let ghost whole = variable_byte(self@.data, self@.position, signed);
        while pos < size
            invariant
                size == self.buffer_data@.len(),
                self.buffer_position <= pos <= size,
                limit <= u32::MAX,
                whole == variable_byte(self@.data, self@.position, signed),
                whole == resume(
                    variable_byte(self@.data, pos as int, signed),
                    value as nat,
                    weight,
                ),
                steps <= 5,
                steps < 5 ==> scale == weight && value < scale,
                steps == 0 ==> scale == 1,
                steps == 1 ==> scale == 128,
                steps == 2 ==> scale == 16384,
                steps == 3 ==> scale == 2097152,
                steps == 4 ==> scale == 268435456,
                steps == 5 ==> weight >= 34359738368 && value < 34359738368,
            decreases size - pos,
        {
            let byte: u8 = self.buffer_data[pos];
            if byte < 128 {
                let last: u64 = if signed {
                    (byte % 64) as u64
                } else {
                    byte as u64
                };
                let negative: bool = signed && byte >= 64;
                if steps == 5 {
                    proof {
                        assert(last > 0 ==> weight * last >= 34359738368) by (nonlinear_arith)
                            requires
                                weight >= 34359738368,
                        ;
                        assert(last == 0 ==> weight * last == 0) by (nonlinear_arith);
                    }
                    if last != 0 || value > limit {
                        return None;
                    }
                    return Some((value, negative, pos + 1));
                }
                assert(last * scale <= 255 * 268435456) by (nonlinear_arith)
                    requires
                        last <= 255,
                        scale <= 268435456,
                ;
                assert(variable_byte(self@.data, pos as int, signed) == Some(
                    (last as nat, negative, pos + 1),
                ));
                assert(weight * (last as nat) == last * scale) by (nonlinear_arith)
                    requires
                        weight == scale,
                ;
                let total: u64 = value + last * scale;
                if total > limit {
                    return None;
                }
                return Some((total, negative, pos + 1));
            }
            let payload: u64 = (byte - 128) as u64;
            let ghost value_before = value as nat;
            let ghost weight_before = weight;
            proof {
                lemma_resume_step(self@.data, pos as int, signed, value_before, weight_before);
            }
            if steps == 5 {
                if payload != 0 {
                    proof {
                        let rest = variable_byte(self@.data, pos + 1, signed);
                        if let Some((magnitude, negative, next)) = rest {
                            assert(value + weight * payload + (weight * 128) * magnitude
                                >= 34359738368) by (nonlinear_arith)
                                requires
                                    weight >= 34359738368,
                                    payload >= 1,
                                    magnitude >= 0,
                                    value >= 0,
                            ;
                        }
                    }
                    return None;
                }
                proof {
                    assert(weight_before * (byte - 128) == 0) by (nonlinear_arith)
                        requires
                            byte - 128 == 0,
                    ;
                    weight = weight_before * 128;
                }
            } else {
                assert(payload * scale <= 127 * scale) by (nonlinear_arith)
                    requires
                        payload <= 127,
                        scale >= 0,
                ;
                assert(weight_before * (byte - 128) == payload * scale) by (nonlinear_arith)
                    requires
                        weight_before == scale,
                        payload == byte - 128,
                ;
                value = value + payload * scale;
                proof {
                    weight = weight_before * 128;
                }
                if steps < 4 {
                    scale = scale * 128;
                }
                steps = steps + 1;
            }
            assert(whole == resume(
                variable_byte(self@.data, pos + 1, signed),
                value as nat,
                weight,
            ));
            pos += 1;
        }
        None
    }

    /// Reads a signed variable-byte integer.
    pub fn read_signed_int(&mut self) -> (r: Result<i32, MapFileException>)
        ensures
            old(self)@.read(
                final(self)@,
                r,
                spec_read_signed_int(old(self)@.data, old(self)@.position),
            ),
    {
        match self.scan_variable_byte(true, 0x7fff_ffff) {
            Some((magnitude, negative, next)) => {
                self.buffer_position = next;
                if negative {
                    Ok(-(magnitude as i32))
                } else {
                    Ok(magnitude as i32)
                }
            },
            None => Err(MapFileException::new(ErrorKind::InvalidEncoding, 0)),
        }
    }

    /// Reads `number_of_tags` tag ids and resolves them in `tags_array`.
    pub fn read_tags(&mut self, tags_array: &[Tag], number_of_tags: u8) -> (r: Result<
        Vec<Tag>,
        MapFileException,
    >)
        ensures
            old(self)@.read_tag_list(
                final(self)@,
                r,
                spec_read_tags(
                    old(self)@.data,
                    old(self)@.position,
                    tags_view(tags_array@),
                    number_of_tags as nat,
                ),
            ),
    {
        let start: usize = self.buffer_position;
        let mut result: Vec<Tag> = Vec::new();
        let mut done: u8 = 0;
        let ghost dictionary = tags_view(tags_array@);
        while done < number_of_tags
            invariant
                done <= number_of_tags,
                dictionary == tags_view(tags_array@),
                self@ == old(self)@.at(self@.position),
                start == old(self)@.position,
                spec_read_tags(
                    old(self)@.data,
                    old(self)@.position,
                    dictionary,
                    number_of_tags as nat,
                ) == prepend_tags(
                    tags_view(result@),
                    spec_read_tags(
                        self@.data,
                        self@.position,
                        dictionary,
                        (number_of_tags - done) as nat,
                    ),
                ),
            decreases number_of_tags - done,
        {
            let ghost before = tags_view(result@);
            let id: u32 = match self.read_unsigned_int() {
                Ok(id) => id,
                Err(e) => {
                    self.buffer_position = start;
                    return Err(e);
                },
            };
            if id as usize >= tags_array.len() {
                self.buffer_position = start;
                return Err(MapFileException::new(ErrorKind::InvalidTagId, id as i64));
            }
            result.push(tags_array[id as usize].clone());
            done = done + 1;
            proof {
                let rest = spec_read_tags(
                    self@.data,
                    self@.position,
                    dictionary,
                    (number_of_tags - done) as nat,
                );
                assert(tags_view(result@) =~= before + seq![dictionary[id as int]]);
                if let Ok((tail, end)) = rest {
                    assert(before + (seq![dictionary[id as int]] + tail) =~= tags_view(result@)
                        + tail);
                }
            }
        }
        proof {
            assert(tags_view(result@) + Seq::<TagView>::empty() =~= tags_view(result@));
        }
        Ok(result)
    }

    /// Reads an unsigned variable-byte integer.
    pub fn read_unsigned_int(&mut self) -> (r: Result<u32, MapFileException>)
        ensures
            old(self)@.read(
                final(self)@,
                r,
                spec_read_unsigned_int(old(self)@.data, old(self)@.position),
            ),
    {
        match self.scan_variable_byte(false, 0xffff_ffff) {
            Some((magnitude, _, next)) => {
                self.buffer_position = next;
                Ok(magnitude as u32)
            },
            None => Err(MapFileException::new(ErrorKind::InvalidEncoding, 0)),
        }
    }

    /// Reads a length and then a text of that many bytes.
    pub fn read_utf8_encoded_string(&mut self) -> (r: Result<String, MapFileException>)
        ensures
            old(self)@.read_text(
                final(self)@,
                r,
                spec_read_utf8(old(self)@.data, old(self)@.position),
            ),
    {
        let start: usize = self.buffer_position;
        let length: u32 = self.read_unsigned_int()?;
        match self.read_utf8_encoded_string_with_length(length as usize) {
            Ok(text) => Ok(text),
            Err(e) => {
                self.buffer_position = start;
                Err(e)
            },
        }
    }

    /// Reads a text of `string_length` bytes.
    pub fn read_utf8_encoded_string_with_length(&mut self, string_length: usize) -> (r: Result<
        String,
        MapFileException,
    >)
        ensures
            old(self)@.read_text(
                final(self)@,
                r,
                spec_read_utf8_with_length(
                    old(self)@.data,
                    old(self)@.position,
                    string_length as int,
                ),
            ),
    {
        if !self.has_remaining(string_length) {
            return Err(MapFileException::new(ErrorKind::BufferOverrun, 0));
        }
        let bytes: Vec<u8> = slice_to_vec(
            slice_subrange(
                self.buffer_data.as_slice(),
                self.buffer_position,
                self.buffer_position + string_length,
            ),
        );
        match utf8_to_string(bytes) {
            Some(text) => {
                self.buffer_position += string_length;
                Ok(text)
            },
            None => Err(MapFileException::new(ErrorKind::InvalidEncoding, 0)),
        }
    }

    /// Whether the region holds `prefix` at the cursor.
    pub fn starts_with(&self, prefix: &[u8]) -> (found: bool)
        ensures
            found == has_prefix(self@.data, self@.position, prefix@),
    {
        let length: usize = prefix.len();
        if !self.has_remaining(length) {
            return false;
        }
        let mut i: usize = 0;
        while i < length
            invariant
                i <= length == prefix@.len(),
                self@.position + length <= self@.data.len(),
                self@.position + length <= usize::MAX,
                self@.data.subrange(self@.position, self@.position + i) == prefix@.subrange(
                    0,
                    i as int,
                ),
            decreases length - i,
        {
            if self.buffer_data[self.buffer_position + i] != prefix[i] {
                proof {
                    let found = self@.data.subrange(self@.position, self@.position + length);
                    assert(found[i as int] != prefix@[i as int]);
                }
                return false;
            }
            proof {
                assert(self@.data.subrange(self@.position, self@.position + i + 1)
                    =~= self@.data.subrange(self@.position, self@.position + i).push(
                    self@.data[self@.position + i],
                ));
                assert(prefix@.subrange(0, i + 1) =~= prefix@.subrange(0, i as int).push(
                    prefix@[i as int],
                ));
            }
            i += 1;
        }
        proof {
            assert(prefix@.subrange(0, length as int) =~= prefix@);
        }
        true
    }

    /// Reads the marker of a debug file that begins with `prefix`.
    pub fn read_signature(&mut self, prefix: &[u8]) -> (r: Result<(), MapFileException>)
        ensures
            old(self)@.read(
                final(self)@,
                r,
                spec_read_signature(old(self)@.data, old(self)@.position, prefix@),
            ),
    {
        if !self.has_remaining(SIGNATURE_LENGTH) {
            return Err(MapFileException::new(ErrorKind::BufferOverrun, 0));
        }
        if !self.starts_with(prefix) {
            return Err(MapFileException::new(ErrorKind::InvalidSignature, 0));
        }
        self.buffer_position += SIGNATURE_LENGTH;
        Ok(())
    }

    /// Where the cursor stands in the region.
    pub fn get_buffer_position(&self) -> (position: usize)
        ensures
            position == self@.position,
    {
        self.buffer_position
    }

    /// The size of the region in bytes.
    pub fn get_buffer_size(&self) -> (size: usize)
        ensures
            size == self@.data.len(),
    {
        self.buffer_data.len()
    }

    /// Moves the cursor to `position`, or fails with `BufferOverrun` where
    /// that lies past the end of the region.
    pub fn set_buffer_position(&mut self, position: usize) -> (r: Result<(), MapFileException>)
        ensures
            old(self)@.read(
                final(self)@,
                r,
                if position <= old(self)@.data.len() {
                    Ok(((), position as int))
                } else {
                    failure(ErrorKind::BufferOverrun)
                },
            ),
    {
        if position > self.buffer_data.len() {
            return Err(MapFileException::new(ErrorKind::BufferOverrun, 0));
        }
        self.buffer_position = position;
        Ok(())
    }

    /// Moves the cursor `bytes` forward, or fails with `BufferOverrun` where
    /// fewer remain.
    pub fn skip_bytes(&mut self, bytes: usize) -> (r: Result<(), MapFileException>)
        ensures
            old(self)@.read(
                final(self)@,
                r,
                spec_skip_bytes(old(self)@.data, old(self)@.position, bytes as int),
            ),
    {
        if !self.has_remaining(bytes) {
            return Err(MapFileException::new(ErrorKind::BufferOverrun, 0));
        }
        self.buffer_position += bytes;
        Ok(())
    }
}

/// The length in bytes of the marker that opens a block, a POI or a way of a
/// debug file.
pub const SIGNATURE_LENGTH: usize = 32;

/// `data` holds `prefix` at `pos`.
pub open spec fn has_prefix(data: Seq<u8>, pos: int, prefix: Seq<u8>) -> bool {
    0 <= pos && pos + prefix.len() <= data.len() && data.subrange(pos, pos + prefix.len())
        == prefix
}

/// A marker of 32 bytes at `pos` that begins with `prefix`. It fails with
/// `BufferOverrun` where fewer bytes remain, with `InvalidSignature` where
/// they begin otherwise.
pub open spec fn spec_read_signature(data: Seq<u8>, pos: int, prefix: Seq<u8>) -> Parsed<()> {
    if !(0 <= pos && pos + 32 <= data.len()) {
        failure(ErrorKind::BufferOverrun)
    } else if has_prefix(data, pos, prefix) {
        Ok(((), pos + 32))
    } else {
        failure(ErrorKind::InvalidSignature)
    }
}

/// The position `count` bytes after `pos`, if the region reaches as far.
pub open spec fn spec_skip_bytes(data: Seq<u8>, pos: int, count: int) -> Parsed<()> {
    if 0 <= pos && 0 <= count && pos + count <= data.len() {
        Ok(((), pos + count))
    } else {
        failure(ErrorKind::BufferOverrun)
    }
}

/// The outcome of reading more tags after `done` have been read.
pub open spec fn prepend_tags(done: Seq<TagView>, rest: Parsed<Seq<TagView>>) -> Parsed<
    Seq<TagView>,
> {
    match rest {
        Ok((tags, end)) => Ok((done + tags, end)),
        Err(e) => Err(e),
    }
}

/// Where `data` holds the bytes that write a magnitude and a sign, the
/// variable-byte integer there is that magnitude with that sign, and ends
/// where the bytes end. The sign of a signed zero is lost.
pub proof fn lemma_variable_byte_round_trip(
    data: Seq<u8>,
    pos: int,
    magnitude: nat,
    negative: bool,
    signed: bool,
)
    requires
        !signed ==> !negative,
        has_prefix(
            data,
            pos,
            if signed {
                encode_magnitude(magnitude, negative)
            } else {
                encode_unsigned(magnitude)
            },
        ),
    ensures
        variable_byte(data, pos, signed) == Some(
            (
                magnitude,
                negative,
                pos + (if signed {
                    encode_magnitude(magnitude, negative)
                } else {
                    encode_unsigned(magnitude)
                }).len(),
            ),
        ),
    decreases magnitude,
{
    let bytes = if signed {
        encode_magnitude(magnitude, negative)
    } else {
        encode_unsigned(magnitude)
    };
    assert(data[pos] == data.subrange(pos, pos + bytes.len())[0]);
    if (signed && magnitude >= 64) || (!signed && magnitude >= 128) {
        let rest = if signed {
            encode_magnitude(magnitude / 128, negative)
        } else {
            encode_unsigned(magnitude / 128)
        };
        assert(bytes == seq![(128 + magnitude % 128) as u8] + rest);
        assert(data.subrange(pos + 1, pos + 1 + rest.len()) =~= data.subrange(
            pos,
            pos + bytes.len(),
        ).subrange(1, bytes.len() as int));
        assert(bytes.subrange(1, bytes.len() as int) =~= rest);
        lemma_variable_byte_round_trip(data, pos + 1, magnitude / 128, negative, signed);
    }
}

/// Every unsigned 32-bit number is read back from the bytes that write it.
pub proof fn lemma_unsigned_round_trip(data: Seq<u8>, pos: int, value: u32)
    requires
        has_prefix(data, pos, encode_unsigned(value as nat)),
    ensures
        spec_read_unsigned_int(data, pos) == Ok::<(u32, int), MapFileException>(
            (value, pos + encode_unsigned(value as nat).len()),
        ),
{
    lemma_variable_byte_round_trip(data, pos, value as nat, false, false);
}

/// Every signed 32-bit number but the least is read back from the bytes
/// that write it.
pub proof fn lemma_signed_round_trip(data: Seq<u8>, pos: int, value: i32)
    requires
        value > i32::MIN,
        has_prefix(data, pos, encode_signed(value as int)),
    ensures
        spec_read_signed_int(data, pos) == Ok::<(i32, int), MapFileException>(
            (value, pos + encode_signed(value as int).len()),
        ),
{
    if value < 0 {
        lemma_variable_byte_round_trip(data, pos, (-value) as nat, true, true);
    } else {
        lemma_variable_byte_round_trip(data, pos, value as nat, false, true);
    }
}

} // verus!
