//! The system common and system real-time family: messages of one word.
//!
//! The first word holds the message type in nibble 0, the group in nibble
//! 1, the status byte that names the message in octet 1 and up to two
//! data bytes in octets 2 and 3.

use crate::detail::bit_ops::{
    lemma_with_nibble, lemma_with_octet, lemma_with_octet_keeps_nibble, nibble_of, octet_of,
    with_nibble, with_octet, BitOps,
};
use crate::detail::common_err_strings::{ERR_INCORRECT_UMP_MESSAGE_TYPE, ERR_UNKNOWN_STATUS};
use crate::error::{BufferOverflow, Error, InvalidData};
use crate::numeric_types::{U4, U7};
use vstd::prelude::*;

pub mod simple_generic;
pub mod time_code;

pub use simple_generic::{SimpleGenericBorrowed, SimpleGenericBuilder, SimpleGenericOwned};

verus! {

/// The message type of the family.
pub const TYPE_CODE: u8 = 0x1;

/// The status byte of the active-sensing message.
pub const ACTIVE_SENSING: u8 = 0xFE;

/// The status byte of the continue message.
pub const CONTINUE: u8 = 0xFB;

/// The status byte of the reset message.
pub const RESET: u8 = 0xFF;

/// The status byte of the song-position-pointer message.
pub const SONG_POSITION_POINTER: u8 = 0xF2;

/// The status byte of the song-select message.
pub const SONG_SELECT: u8 = 0xF3;

/// The status byte of the start message.
pub const START: u8 = 0xFA;

/// The status byte of the stop message.
pub const STOP: u8 = 0xFC;

/// The status byte of the time-code message.
pub const TIME_CODE: u8 = 0xF1;

/// The status byte of the timing-clock message.
pub const TIMING_CLOCK: u8 = 0xF8;

/// The status byte of the tune-request message.
pub const TUNE_REQUEST: u8 = 0xF6;

/// An active-sensing message that lies in caller memory.
pub type ActiveSensingBorrowed<'a> = SimpleGenericBorrowed<'a, 0xFE>;

/// An active-sensing message that owns its word.
pub type ActiveSensingOwned = SimpleGenericOwned<0xFE>;

/// Writes an active-sensing message into caller memory.
pub type ActiveSensingBuilder<'a> = SimpleGenericBuilder<'a, 0xFE>;

/// A continue message that lies in caller memory.
pub type ContinueBorrowed<'a> = SimpleGenericBorrowed<'a, 0xFB>;

/// A continue message that owns its word.
pub type ContinueOwned = SimpleGenericOwned<0xFB>;

/// Writes a continue message into caller memory.
pub type ContinueBuilder<'a> = SimpleGenericBuilder<'a, 0xFB>;

/// A reset message that lies in caller memory.
pub type ResetBorrowed<'a> = SimpleGenericBorrowed<'a, 0xFF>;

/// A reset message that owns its word.
pub type ResetOwned = SimpleGenericOwned<0xFF>;

/// Writes a reset message into caller memory.
pub type ResetBuilder<'a> = SimpleGenericBuilder<'a, 0xFF>;

/// A song-position-pointer message that lies in caller memory.
pub type SongPositionPointerBorrowed<'a> = SimpleGenericBorrowed<'a, 0xF2>;

/// A song-position-pointer message that owns its word.
pub type SongPositionPointerOwned = SimpleGenericOwned<0xF2>;

/// Writes a song-position-pointer message into caller memory.
pub type SongPositionPointerBuilder<'a> = SimpleGenericBuilder<'a, 0xF2>;

/// A song-select message that lies in caller memory.
pub type SongSelectBorrowed<'a> = SimpleGenericBorrowed<'a, 0xF3>;

/// A song-select message that owns its word.
pub type SongSelectOwned = SimpleGenericOwned<0xF3>;

/// Writes a song-select message into caller memory.
pub type SongSelectBuilder<'a> = SimpleGenericBuilder<'a, 0xF3>;

/// A start message that lies in caller memory.
pub type StartBorrowed<'a> = SimpleGenericBorrowed<'a, 0xFA>;

/// A start message that owns its word.
pub type StartOwned = SimpleGenericOwned<0xFA>;

/// Writes a start message into caller memory.
pub type StartBuilder<'a> = SimpleGenericBuilder<'a, 0xFA>;

/// A stop message that lies in caller memory.
pub type StopBorrowed<'a> = SimpleGenericBorrowed<'a, 0xFC>;

/// A stop message that owns its word.
pub type StopOwned = SimpleGenericOwned<0xFC>;

/// Writes a stop message into caller memory.
pub type StopBuilder<'a> = SimpleGenericBuilder<'a, 0xFC>;

/// A time-code message that lies in caller memory.
pub type TimeCodeBorrowed<'a> = SimpleGenericBorrowed<'a, 0xF1>;

/// A time-code message that owns its word.
pub type TimeCodeOwned = SimpleGenericOwned<0xF1>;

/// Writes a time-code message into caller memory.
pub type TimeCodeBuilder<'a> = SimpleGenericBuilder<'a, 0xF1>;

/// A timing-clock message that lies in caller memory.
pub type TimingClockBorrowed<'a> = SimpleGenericBorrowed<'a, 0xF8>;

/// A timing-clock message that owns its word.
pub type TimingClockOwned = SimpleGenericOwned<0xF8>;

/// Writes a timing-clock message into caller memory.
pub type TimingClockBuilder<'a> = SimpleGenericBuilder<'a, 0xF8>;

/// A tune-request message that lies in caller memory.
pub type TuneRequestBorrowed<'a> = SimpleGenericBorrowed<'a, 0xF6>;

/// A tune-request message that owns its word.
pub type TuneRequestOwned = SimpleGenericOwned<0xF6>;

/// Writes a tune-request message into caller memory.
pub type TuneRequestBuilder<'a> = SimpleGenericBuilder<'a, 0xF6>;

/// The status byte of the message that starts with `word`.
pub open spec fn status_of_word(word: u32) -> u8 {
    octet_of(word, 1)
}

/// Whether `status` names a message of the family.
pub open spec fn is_known_status(status: u8) -> bool {
    status == ACTIVE_SENSING || status == CONTINUE || status == RESET || status
        == SONG_POSITION_POINTER || status == SONG_SELECT || status == START || status == STOP
        || status == TIME_CODE || status == TIMING_CLOCK || status == TUNE_REQUEST
}

/// Whether `words` start a message of the family with the given status.
pub open spec fn is_system_common(words: Seq<u32>, status: u8) -> bool {
    &&& words.len() >= 1
    &&& nibble_of(words[0], 0) == TYPE_CODE
    &&& status_of_word(words[0]) == status
}

/// What validating `words` against a status reports.
pub open spec fn status_check(words: Seq<u32>, status: u8) -> Result<(), Error> {
    if words.len() == 0 {
        Err(Error::overflow())
    } else if nibble_of(words[0], 0) != TYPE_CODE {
        Err(Error::invalid(ERR_INCORRECT_UMP_MESSAGE_TYPE))
    } else if status_of_word(words[0]) != status {
        Err(Error::invalid(ERR_UNKNOWN_STATUS))
    } else {
        Ok(())
    }
}

/// What validating `words` as any message of the family reports.
pub open spec fn family_check(words: Seq<u32>) -> Result<(), Error> {
    if words.len() == 0 {
        Err(Error::overflow())
    } else if !is_known_status(status_of_word(words[0])) {
        Err(Error::invalid(ERR_UNKNOWN_STATUS))
    } else {
        status_check(words, status_of_word(words[0]))
    }
}

/// Checks that `p` is not empty, is of the family and carries `status`.
pub fn validate_packet(p: &[u32], status: u8) -> (r: Result<(), Error>)
    ensures
        r == status_check(p@, status),
{
    if p.len() == 0 {
        Err(Error::BufferOverflow(BufferOverflow))
    } else if p[0].nibble(0).value() != TYPE_CODE {
        Err(Error::InvalidData(InvalidData(ERR_INCORRECT_UMP_MESSAGE_TYPE)))
    } else if p[0].octet(1) != status {
        Err(Error::InvalidData(InvalidData(ERR_UNKNOWN_STATUS)))
    } else {
        Ok(())
    }
}

/// The first word of a message to `group` with `status` and the data bytes given.
pub open spec fn packed(group: u8, status: u8, first: Option<u8>, second: Option<u8>) -> u32 {
    let typed = with_nibble(0u32, 0, TYPE_CODE);
    let grouped = with_nibble(typed, 1, group);
    let named = with_octet(grouped, 1, status);
    let one = match first {
        Some(byte) => with_octet(named, 2, byte),
        None => named,
    };
    match second {
        Some(byte) => with_octet(one, 3, byte),
        None => one,
    }
}

/// What `packed` leaves in each field.
pub proof fn lemma_packed(group: u8, status: u8, first: Option<u8>, second: Option<u8>)
    requires
        group <= 0xF,
    ensures
        nibble_of(packed(group, status, first, second), 0) == TYPE_CODE,
        nibble_of(packed(group, status, first, second), 1) == group,
        status_of_word(packed(group, status, first, second)) == status,
        first matches Some(byte) ==> octet_of(packed(group, status, first, second), 2) == byte,
        second matches Some(byte) ==> octet_of(packed(group, status, first, second), 3) == byte,
{
    let typed = with_nibble(0u32, 0, TYPE_CODE);
    let grouped = with_nibble(typed, 1, group);
    let named = with_octet(grouped, 1, status);
    let one = match first {
        Some(byte) => with_octet(named, 2, byte),
        None => named,
    };
    let two = packed(group, status, first, second);
    lemma_with_nibble(0u32, 0, TYPE_CODE, 0);
    lemma_with_nibble(typed, 1, group, 0);
    lemma_with_octet_keeps_nibble(grouped, 1, status, 0);
    lemma_with_octet_keeps_nibble(grouped, 1, status, 1);
    lemma_with_octet(grouped, 1, status, 1);
    if let Some(byte) = first {
        lemma_with_octet_keeps_nibble(named, 2, byte, 0);
        lemma_with_octet_keeps_nibble(named, 2, byte, 1);
        lemma_with_octet(named, 2, byte, 1);
    }
    if let Some(byte) = second {
        lemma_with_octet_keeps_nibble(one, 3, byte, 0);
        lemma_with_octet_keeps_nibble(one, 3, byte, 1);
        lemma_with_octet(one, 3, byte, 1);
        lemma_with_octet(one, 3, byte, 2);
    }
}

/// Writes a message to `group` with `status` and the data bytes given
/// into the first word of `bytes`.
pub fn write_data_to_packet(
    bytes: &mut [u32],
    group: U4,
    status: u8,
    first: Option<U7>,
    second: Option<U7>,
)
    requires
        old(bytes)@.len() >= 1,
    ensures
        final(bytes)@ == old(bytes)@.update(
            0,
            packed(
                group@,
                status,
                match first {
                    Some(byte) => Some(byte@),
                    None => None,
                },
                match second {
                    Some(byte) => Some(byte@),
                    None => None,
                },
            ),
        ),
{
    let mut word: u32 = 0;
    word.set_nibble(0, U4::new(TYPE_CODE));
    word.set_nibble(1, group);
    word.set_octet(1, status);
    match first {
        Some(byte) => {
            word.set_octet(2, byte.value());
        },
        None => {},
    }
    match second {
        Some(byte) => {
            word.set_octet(3, byte.value());
        },
        None => {},
    }
    bytes[0] = word;
}

/// A message of the family that lies in caller memory.
pub enum SystemCommonBorrowed<'a> {
    ActiveSensing(ActiveSensingBorrowed<'a>),
    Continue(ContinueBorrowed<'a>),
    Reset(ResetBorrowed<'a>),
    SongPositionPointer(SongPositionPointerBorrowed<'a>),
    SongSelect(SongSelectBorrowed<'a>),
    Start(StartBorrowed<'a>),
    Stop(StopBorrowed<'a>),
    TimeCode(TimeCodeBorrowed<'a>),
    TimingClock(TimingClockBorrowed<'a>),
    TuneRequest(TuneRequestBorrowed<'a>),
}

/// A message of the family that owns its word.
pub enum SystemCommonOwned {
    ActiveSensing(ActiveSensingOwned),
    Continue(ContinueOwned),
    Reset(ResetOwned),
    SongPositionPointer(SongPositionPointerOwned),
    SongSelect(SongSelectOwned),
    Start(StartOwned),
    Stop(StopOwned),
    TimeCode(TimeCodeOwned),
    TimingClock(TimingClockOwned),
    TuneRequest(TuneRequestOwned),
}

impl<'a> View for SystemCommonBorrowed<'a> {
    type V = Seq<u32>;

    /// The words of the message.
    open spec fn view(&self) -> Seq<u32> {
        match self {
            SystemCommonBorrowed::ActiveSensing(m) => m@,
            SystemCommonBorrowed::Continue(m) => m@,
            SystemCommonBorrowed::Reset(m) => m@,
            SystemCommonBorrowed::SongPositionPointer(m) => m@,
            SystemCommonBorrowed::SongSelect(m) => m@,
            SystemCommonBorrowed::Start(m) => m@,
            SystemCommonBorrowed::Stop(m) => m@,
            SystemCommonBorrowed::TimeCode(m) => m@,
            SystemCommonBorrowed::TimingClock(m) => m@,
            SystemCommonBorrowed::TuneRequest(m) => m@,
        }
    }
}

impl View for SystemCommonOwned {
    type V = Seq<u32>;

    /// The words of the message.
    open spec fn view(&self) -> Seq<u32> {
        match self {
            SystemCommonOwned::ActiveSensing(m) => m@,
            SystemCommonOwned::Continue(m) => m@,
            SystemCommonOwned::Reset(m) => m@,
            SystemCommonOwned::SongPositionPointer(m) => m@,
            SystemCommonOwned::SongSelect(m) => m@,
            SystemCommonOwned::Start(m) => m@,
            SystemCommonOwned::Stop(m) => m@,
            SystemCommonOwned::TimeCode(m) => m@,
            SystemCommonOwned::TimingClock(m) => m@,
            SystemCommonOwned::TuneRequest(m) => m@,
        }
    }
}

impl<'a> SystemCommonBorrowed<'a> {
    /// The status byte that the variant stands for.
    pub open spec fn status(&self) -> u8 {
        match self {
            SystemCommonBorrowed::ActiveSensing(_) => ACTIVE_SENSING,
            SystemCommonBorrowed::Continue(_) => CONTINUE,
            SystemCommonBorrowed::Reset(_) => RESET,
            SystemCommonBorrowed::SongPositionPointer(_) => SONG_POSITION_POINTER,
            SystemCommonBorrowed::SongSelect(_) => SONG_SELECT,
            SystemCommonBorrowed::Start(_) => START,
            SystemCommonBorrowed::Stop(_) => STOP,
            SystemCommonBorrowed::TimeCode(_) => TIME_CODE,
            SystemCommonBorrowed::TimingClock(_) => TIMING_CLOCK,
            SystemCommonBorrowed::TuneRequest(_) => TUNE_REQUEST,
        }
    }

    /// The words of the message.
    pub fn data(&self) -> (r: &[u32])
        ensures
            r@ == self@,
            is_system_common(r@, self.status()),
    {
        match self {
            SystemCommonBorrowed::ActiveSensing(m) => m.data(),
            SystemCommonBorrowed::Continue(m) => m.data(),
            SystemCommonBorrowed::Reset(m) => m.data(),
            SystemCommonBorrowed::SongPositionPointer(m) => m.data(),
            SystemCommonBorrowed::SongSelect(m) => m.data(),
            SystemCommonBorrowed::Start(m) => m.data(),
            SystemCommonBorrowed::Stop(m) => m.data(),
            SystemCommonBorrowed::TimeCode(m) => m.data(),
            SystemCommonBorrowed::TimingClock(m) => m.data(),
            SystemCommonBorrowed::TuneRequest(m) => m.data(),
        }
    }

    /// The group the message is addressed to.
    pub fn group(&self) -> (r: U4)
        ensures
            r@ == nibble_of(self@[0], 1),
    {
        match self {
            SystemCommonBorrowed::ActiveSensing(m) => m.group(),
            SystemCommonBorrowed::Continue(m) => m.group(),
            SystemCommonBorrowed::Reset(m) => m.group(),
            SystemCommonBorrowed::SongPositionPointer(m) => m.group(),
            SystemCommonBorrowed::SongSelect(m) => m.group(),
            SystemCommonBorrowed::Start(m) => m.group(),
            SystemCommonBorrowed::Stop(m) => m.group(),
            SystemCommonBorrowed::TimeCode(m) => m.group(),
            SystemCommonBorrowed::TimingClock(m) => m.group(),
            SystemCommonBorrowed::TuneRequest(m) => m.group(),
        }
    }

    /// Checks that `data` holds a message of the family.
    pub fn validate_data(data: &[u32]) -> (r: Result<(), Error>)
        ensures
            r == family_check(data@),
    {
        if data.len() == 0 {
            return Err(Error::BufferOverflow(BufferOverflow));
        }
        let status = data[0].octet(1);
        if status == ACTIVE_SENSING {
            ActiveSensingBorrowed::validate_data(data)
        } else if status == CONTINUE {
            ContinueBorrowed::validate_data(data)
        } else if status == RESET {
            ResetBorrowed::validate_data(data)
        } else if status == SONG_POSITION_POINTER {
            SongPositionPointerBorrowed::validate_data(data)
        } else if status == SONG_SELECT {
            SongSelectBorrowed::validate_data(data)
        } else if status == START {
            StartBorrowed::validate_data(data)
        } else if status == STOP {
            StopBorrowed::validate_data(data)
        } else if status == TIME_CODE {
            TimeCodeBorrowed::validate_data(data)
        } else if status == TIMING_CLOCK {
            TimingClockBorrowed::validate_data(data)
        } else if status == TUNE_REQUEST {
            TuneRequestBorrowed::validate_data(data)
        } else {
            Err(Error::InvalidData(InvalidData(ERR_UNKNOWN_STATUS)))
        }
    }

    /// The message in `data`, which the caller has validated.
    pub fn from_data_unchecked(data: &'a [u32]) -> (r: Self)
        requires
            family_check(data@) is Ok,
        ensures
            r@ == data@,
            r.status() == status_of_word(data@[0]),
    {
        let status = data[0].octet(1);
        if status == ACTIVE_SENSING {
            SystemCommonBorrowed::ActiveSensing(ActiveSensingBorrowed::from_data_unchecked(data))
        } else if status == CONTINUE {
            SystemCommonBorrowed::Continue(ContinueBorrowed::from_data_unchecked(data))
        } else if status == RESET {
            SystemCommonBorrowed::Reset(ResetBorrowed::from_data_unchecked(data))
        } else if status == SONG_POSITION_POINTER {
            SystemCommonBorrowed::SongPositionPointer(
                SongPositionPointerBorrowed::from_data_unchecked(data),
            )
        } else if status == SONG_SELECT {
            SystemCommonBorrowed::SongSelect(SongSelectBorrowed::from_data_unchecked(data))
        } else if status == START {
            SystemCommonBorrowed::Start(StartBorrowed::from_data_unchecked(data))
        } else if status == STOP {
            SystemCommonBorrowed::Stop(StopBorrowed::from_data_unchecked(data))
        } else if status == TIME_CODE {
            SystemCommonBorrowed::TimeCode(TimeCodeBorrowed::from_data_unchecked(data))
        } else if status == TIMING_CLOCK {
            SystemCommonBorrowed::TimingClock(TimingClockBorrowed::from_data_unchecked(data))
        } else {
            SystemCommonBorrowed::TuneRequest(TuneRequestBorrowed::from_data_unchecked(data))
        }
    }

    /// The message in `data`, if it holds one of the family.
    pub fn from_data(data: &'a [u32]) -> (r: Result<Self, Error>)
        ensures
            match family_check(data@) {
                Ok(_) => r is Ok && r->Ok_0@ == data@ && r->Ok_0.status() == status_of_word(
                    data@[0],
                ),
                Err(e) => r == Err::<Self, Error>(e),
            },
    {
        match Self::validate_data(data) {
            Ok(()) => Ok(Self::from_data_unchecked(data)),
            Err(e) => Err(e),
        }
    }
}

impl SystemCommonOwned {
    /// The status byte that the variant stands for.
    pub open spec fn status(&self) -> u8 {
        match self {
            SystemCommonOwned::ActiveSensing(_) => ACTIVE_SENSING,
            SystemCommonOwned::Continue(_) => CONTINUE,
            SystemCommonOwned::Reset(_) => RESET,
            SystemCommonOwned::SongPositionPointer(_) => SONG_POSITION_POINTER,
            SystemCommonOwned::SongSelect(_) => SONG_SELECT,
            SystemCommonOwned::Start(_) => START,
            SystemCommonOwned::Stop(_) => STOP,
            SystemCommonOwned::TimeCode(_) => TIME_CODE,
            SystemCommonOwned::TimingClock(_) => TIMING_CLOCK,
            SystemCommonOwned::TuneRequest(_) => TUNE_REQUEST,
        }
    }

    /// The words of the message.
    pub fn data(&self) -> (r: &[u32])
        ensures
            r@ == self@,
            is_system_common(r@, self.status()),
    {
        match self {
            SystemCommonOwned::ActiveSensing(m) => m.data(),
            SystemCommonOwned::Continue(m) => m.data(),
            SystemCommonOwned::Reset(m) => m.data(),
            SystemCommonOwned::SongPositionPointer(m) => m.data(),
            SystemCommonOwned::SongSelect(m) => m.data(),
            SystemCommonOwned::Start(m) => m.data(),
            SystemCommonOwned::Stop(m) => m.data(),
            SystemCommonOwned::TimeCode(m) => m.data(),
            SystemCommonOwned::TimingClock(m) => m.data(),
            SystemCommonOwned::TuneRequest(m) => m.data(),
        }
    }

    /// The group the message is addressed to.
    pub fn group(&self) -> (r: U4)
        ensures
            r@ == nibble_of(self@[0], 1),
    {
        match self {
            SystemCommonOwned::ActiveSensing(m) => m.group(),
            SystemCommonOwned::Continue(m) => m.group(),
            SystemCommonOwned::Reset(m) => m.group(),
            SystemCommonOwned::SongPositionPointer(m) => m.group(),
            SystemCommonOwned::SongSelect(m) => m.group(),
            SystemCommonOwned::Start(m) => m.group(),
            SystemCommonOwned::Stop(m) => m.group(),
            SystemCommonOwned::TimeCode(m) => m.group(),
            SystemCommonOwned::TimingClock(m) => m.group(),
            SystemCommonOwned::TuneRequest(m) => m.group(),
        }
    }
}

} // verus!
