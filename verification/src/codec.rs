//! Integer codecs for the word stream: command words packing a path command
//! with a repeat count, and parameter words packing a signed coordinate delta
//! through zigzag encoding.

use vstd::prelude::*;

use crate::error::Error;

verus! {

/// Largest repeat count a command word can carry (29 bits).
pub const MAX_COMMAND_COUNT: u32 = 0x1FFF_FFFF;

/// Path commands
#[derive(Copy, Clone, Debug, Eq, PartialEq, Structural)]
pub enum Command {
    /// Move to new position
    MoveTo,
    /// Line to new position
    LineTo,
    /// Close current path
    ClosePath,
}

/// Integer command: a path command with its repeat count.
#[derive(Copy, Clone, Debug, Eq, PartialEq, Structural)]
pub struct CommandInt {
    /// Path command
    pub id: Command,
    /// Command count
    pub count: u32,
}

/// Integer parameter: one signed coordinate delta.
#[derive(Copy, Clone, Debug, Eq, PartialEq, Structural)]
pub struct ParamInt {
    /// Parameter value
    pub value: i32,
}

impl Command {
    /// Numeric identifier of the command (the low three bits of its word).
    pub open spec fn spec_id(self) -> u32 {
        match self {
            Command::MoveTo => 1,
            Command::LineTo => 2,
            Command::ClosePath => 7,
        }
    }

    /// Numeric identifier of the command.
    pub fn id(self) -> (r: u32)
        ensures
            r == self.spec_id(),
    {
        match self {
            Command::MoveTo => 1,
            Command::LineTo => 2,
            Command::ClosePath => 7,
        }
    }
}

/// A command word: the command identifier in the low three bits, the repeat
/// count in the remaining bits.
pub open spec fn cmd_word(id: u32, count: u32) -> u32 {
    (id & 7) | (count << 3)
}

/// Command identifier held in a word's low three bits.
pub open spec fn word_id(w: u32) -> u32 {
    w & 7
}

/// Repeat count held in a word's high bits.
pub open spec fn word_count(w: u32) -> u32 {
    w >> 3
}

/// Zigzag encoding of a signed delta: small-magnitude deltas map to small
/// unsigned words.
pub open spec fn zigzag(v: i32) -> u32 {
    ((v << 1) ^ (v >> 31)) as u32
}

/// Inverse of [`zigzag`].
pub open spec fn unzigzag(w: u32) -> i32 {
    ((w >> 1) as i32) ^ (if w & 1 == 1 {
        -1i32
    } else {
        0i32
    })
}

/// Zigzag maps a non-negative delta `v` to `2 * v` and a negative one to
/// `-2 * v - 1`, so magnitude governs word size.
pub proof fn lemma_zigzag_values(v: i32)
    ensures
        v >= 0 ==> zigzag(v) == 2 * v,
        v < 0 ==> zigzag(v) == -2 * (v as int) - 1,
{
    assert(v >= 0 ==> zigzag(v) == 2 * v) by (bit_vector);
    assert(v < 0 ==> zigzag(v) == -2 * (v as int) - 1) by (bit_vector);
}

/// Zigzag round trip: decoding an encoded delta returns the delta, for every
/// `i32` delta.
pub proof fn lemma_zigzag_round_trip(v: i32)
    ensures
        unzigzag(zigzag(v)) == v,
{
    assert(unzigzag(zigzag(v)) == v) by (bit_vector);
}

/// Packing an identifier below 8 and a count of at most 29 bits into a
/// command word loses neither.
pub proof fn lemma_cmd_word_fields(id: u32, count: u32)
    requires
        id < 8,
        count <= MAX_COMMAND_COUNT,
    ensures
        word_id(cmd_word(id, count)) == id,
        word_count(cmd_word(id, count)) == count,
{
    assert(word_id(cmd_word(id, count)) == id && word_count(cmd_word(id, count)) == count)
        by (bit_vector)
        requires
            id < 8 && count <= 0x1FFF_FFFFu32,
    ;
}

/// Command round trip: for every command and every count of at most
/// 2^29 - 1, decoding the encoded word returns the same pair.
pub proof fn lemma_command_round_trip(id: Command, count: u32)
    requires
        count <= MAX_COMMAND_COUNT,
    ensures
        word_id(cmd_word(id.spec_id(), count)) == id.spec_id(),
        word_count(cmd_word(id.spec_id(), count)) == count,
{
    lemma_cmd_word_fields(id.spec_id(), count);
}

/// A word's repeat count always fits the count field.
pub proof fn lemma_word_count_bounded(w: u32)
    ensures
        word_count(w) <= MAX_COMMAND_COUNT,
{
    assert(w >> 3 <= 0x1FFF_FFFFu32) by (bit_vector);
}

impl CommandInt {
    /// Create a new integer command.  The count must fit the 29-bit count
    /// field of a command word.
    pub fn new(id: Command, count: u32) -> (r: Self)
        requires
            count <= MAX_COMMAND_COUNT,
        ensures
            r == (CommandInt { id, count }),
    {
        CommandInt { id, count }
    }

    /// Encode command
    pub fn encode(&self) -> (r: u32)
        ensures
            r == cmd_word(self.id.spec_id(), self.count),
    {
        (self.id.id() & 0x7) | (self.count << 3)
    }

    /// Decode command.  Fails with [`Error::InvalidCommand`] when the low
    /// three bits name no path command.
    pub fn decode(code: u32) -> (r: Result<Self, Error>)
        ensures
            r is Ok <==> (word_id(code) == 1 || word_id(code) == 2 || word_id(code) == 7),
            r matches Ok(c) ==> c.id.spec_id() == word_id(code) && c.count == word_count(code),
            r matches Err(e) ==> e == Error::InvalidCommand,
    {
        let id = match code & 0x7 {
            1 => Command::MoveTo,
            2 => Command::LineTo,
            7 => Command::ClosePath,
            _ => {
                return Err(Error::InvalidCommand);
            },
        };
        let count = code >> 3;
        proof {
            lemma_word_count_bounded(code);
        }
        Ok(CommandInt::new(id, count))
    }
}

impl ParamInt {
    /// Create a new integer parameter
    pub fn new(value: i32) -> (r: Self)
        ensures
            r == (ParamInt { value }),
    {
        ParamInt { value }
    }

    /// Encode the parameter
    pub fn encode(&self) -> (r: u32)
        ensures
            r == zigzag(self.value),
    {
        ((self.value << 1) ^ (self.value >> 31)) as u32
    }

    /// Decode a parameter word back to its signed delta.
    pub fn decode(word: u32) -> (r: Self)
        ensures
            r.value == unzigzag(word),
    {
        let sign: i32 = if word & 1 == 1 {
            -1
        } else {
            0
        };
        ParamInt { value: ((word >> 1) as i32) ^ sign }
    }
}

} // verus!
