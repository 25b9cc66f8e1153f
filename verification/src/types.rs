//! Modification times and the records of entries.

use vstd::prelude::*;
use crate::compression::Compressor;
use crate::constants::VERSION_MADE_BY;

verus! {

/// The packed MS-DOS date of a day: the day in bits 0 to 4, the month in bits 5
/// to 8, the years since 1980 in bits 9 to 15. A field that is too large for its
/// bits is taken modulo their range; a year before 1980 counts as 1980.
pub open spec fn dos_date(year: u16, month: u16, day: u16) -> u16 {
    let years: int = if year >= 1980 { year - 1980 } else { 0 };
    (day % 32 + 32 * (month % 16) + 512 * (years % 128)) as u16
}

/// The packed MS-DOS time of a moment: half the seconds in bits 0 to 4, the
/// minutes in bits 5 to 10, the hours in bits 11 to 15. A field that is too large
/// for its bits is taken modulo their range.
pub open spec fn dos_time(hour: u16, minute: u16, second: u16) -> u16 {
    (second / 2 % 32 + 32 * (minute % 64) + 2048 * (hour % 32)) as u16
}

/// The year has 366 days.
pub open spec fn is_leap_year(year: int) -> bool {
    year % 4 == 0 && (year % 100 != 0 || year % 400 == 0)
}

/// The number of days of a year.
pub open spec fn days_in_year(year: int) -> int {
    if is_leap_year(year) {
        366
    } else {
        365
    }
}

/// The number of days of a month, January being 1.
pub open spec fn days_in_month(year: int, month: int) -> int {
    if month == 2 {
        if is_leap_year(year) {
            29
        } else {
            28
        }
    } else if month == 4 || month == 6 || month == 9 || month == 11 {
        30
    } else {
        31
    }
}

/// The number of days from the first day of 1970 to the first day of `year`.
pub open spec fn days_before_year(year: int) -> int
    decreases year - 1970,
{
    if year <= 1970 {
        0
    } else {
        days_before_year(year - 1) + days_in_year(year - 1)
    }
}

/// The number of days from the first day of `year` to the first day of `month`.
pub open spec fn days_before_month(year: int, month: int) -> int
    decreases month,
{
    if month <= 1 {
        0
    } else {
        days_before_month(year, month - 1) + days_in_month(year, month - 1)
    }
}

/// The fields name a moment of the calendar, in 1970 or later.
pub open spec fn is_moment(
    year: int,
    month: int,
    day: int,
    hour: int,
    minute: int,
    second: int,
) -> bool {
    &&& 1970 <= year
    &&& 1 <= month <= 12
    &&& 1 <= day <= days_in_month(year, month)
    &&& 0 <= hour < 24
    &&& 0 <= minute < 60
    &&& 0 <= second < 60
}

/// The number of seconds from the start of 1970 to a moment, every day taken as
/// 86400 seconds.
pub open spec fn unix_seconds(
    year: int,
    month: int,
    day: int,
    hour: int,
    minute: int,
    second: int,
) -> int {
    (days_before_year(year) + days_before_month(year, month) + day - 1) * 86400 + hour * 3600
        + minute * 60 + second
}

/// The first second that the packed MS-DOS date cannot hold: the start of 2108.
pub const UNIX_SECONDS_LIMIT: u64 = 4354819200;

/// The time at which a file was last modified.
#[derive(Debug, Clone, Copy, PartialEq, Eq, Structural)]
pub enum FileDateTime {
    /// No time at all: both packed fields are zero.
    Zero,
    /// A moment given by its calendar fields.
    Custom { year: u16, month: u16, day: u16, hour: u16, minute: u16, second: u16 },
}

/// Asks `std::time::SystemTime::now` for the time and gives the whole seconds
/// that have passed since `std::time::UNIX_EPOCH`, or nothing where the clock
/// stands before it. Nothing is claimed of the number.
#[verifier::external_body]
fn system_seconds() -> Option<u64> {
    match std::time::SystemTime::now().duration_since(std::time::UNIX_EPOCH) {
        Ok(elapsed) => Some(elapsed.as_secs()),
        Err(_) => None,
    }
}

fn year_length(year: u16) -> (days: u64)
    ensures
        days == days_in_year(year as int),
{
    if year % 4 == 0 && (year % 100 != 0 || year % 400 == 0) {
        366
    } else {
        365
    }
}

fn month_length(year: u16, month: u16) -> (days: u64)
    ensures
        days == days_in_month(year as int, month as int),
{
    if month == 2 {
        if year % 4 == 0 && (year % 100 != 0 || year % 400 == 0) {
            29
        } else {
            28
        }
    } else if month == 4 || month == 6 || month == 9 || month == 11 {
        30
    } else {
        31
    }
}

impl FileDateTime {
    /// The packed date and the packed time, in this order.
    pub open spec fn spec_ms_dos(&self) -> (u16, u16) {
        match self {
            FileDateTime::Zero => (0, 0),
            FileDateTime::Custom { year, month, day, hour, minute, second } => (
                dos_date(*year, *month, *day),
                dos_time(*hour, *minute, *second),
            ),
        }
    }

    /// The packed MS-DOS date and time, in this order.
    pub fn ms_dos(&self) -> (packed: (u16, u16))
        ensures
            packed == self.spec_ms_dos(),
    {
        match self {
            FileDateTime::Zero => (0, 0),
            FileDateTime::Custom { year, month, day, hour, minute, second } => {
                let years: u16 = if *year >= 1980 { *year - 1980 } else { 0 };
                let date: u16 = *day % 32 + 32 * (*month % 16) + 512 * (years % 128);
                let time: u16 = *second / 2 % 32 + 32 * (*minute % 64) + 2048 * (*hour % 32);
                (date, time)
            },
        }
    }

    /// The moment that lies `seconds` seconds behind the start of 1970 in
    /// universal time, every day taken as 86400 seconds.
    ///
    /// From the start of 2108 on, which the packed date cannot hold, the result
    /// is the last second of 2107.
    pub fn from_unix_seconds(seconds: u64) -> (moment: FileDateTime)
        ensures
            moment matches FileDateTime::Custom { year, month, day, hour, minute, second } && {
                &&& is_moment(
                    year as int,
                    month as int,
                    day as int,
                    hour as int,
                    minute as int,
                    second as int,
                )
                &&& year <= 2107
                &&& unix_seconds(
                    year as int,
                    month as int,
                    day as int,
                    hour as int,
                    minute as int,
                    second as int,
                ) == if seconds < UNIX_SECONDS_LIMIT {
                    seconds as int
                } else {
                    UNIX_SECONDS_LIMIT - 1
                }
            },
    {
        let seconds = if seconds < UNIX_SECONDS_LIMIT {
            seconds
        } else {
            UNIX_SECONDS_LIMIT - 1
        };
        let total_days: u64 = seconds / 86400;
        let in_day: u64 = seconds % 86400;

        let mut year: u16 = 1970;
        let mut days: u64 = total_days;
        while days >= year_length(year)
            invariant
                1970 <= year <= 2108,
                total_days <= 50402,
                days_before_year(year as int) + days == total_days,
                year == 2108 ==> days_before_year(2108) == 50403,
            decreases days,
        {
            proof {
                if year == 2107 {
                    lemma_days_before_2108();
                }
            }
            days -= year_length(year);
            year += 1;
        }

        let mut month: u16 = 1;
        while days >= month_length(year, month)
            invariant
                1 <= month <= 12,
                1970 <= year <= 2107,
                days_before_month(year as int, month as int) + days < days_in_year(year as int),
                days_before_year(year as int) + days_before_month(year as int, month as int) + days
                    == total_days,
            decreases days,
        {
            proof {
                lemma_days_before_month(year as int);
            }
            days -= month_length(year, month);
            month += 1;
        }
        FileDateTime::Custom {
            year,
            month,
            day: (days + 1) as u16,
            hour: (in_day / 3600) as u16,
            minute: (in_day % 3600 / 60) as u16,
            second: (in_day % 60) as u16,
        }
    }

    /// The moment that the system clock shows, in universal time; no time at all
    /// where the clock stands before 1970.
    pub fn now() -> (moment: FileDateTime)
        ensures
            exists|reading: Option<u64>| #[trigger] is_clock_reading(moment, reading),
            moment matches FileDateTime::Custom { year, month, day, hour, minute, second }
                ==> year <= 2107 && is_moment(
                year as int,
                month as int,
                day as int,
                hour as int,
                minute as int,
                second as int,
            ),
    {
        let reading = system_seconds();
        let moment = Self::from_clock_reading(reading);
        assert(is_clock_reading(moment, reading));
        moment
    }

    /// The moment that a reading of the clock stands for. The reading is the
    /// number of whole seconds since the start of 1970 in universal time, or
    /// nothing where the clock stands before it: then the result is no time at
    /// all.
    pub fn from_clock_reading(reading: Option<u64>) -> (moment: FileDateTime)
        ensures
            is_clock_reading(moment, reading),
    {
        match reading {
            Some(seconds) => Self::from_unix_seconds(seconds),
            None => FileDateTime::Zero,
        }
    }
}

/// `moment` is the moment that lies `seconds` seconds behind the start of 1970,
/// or the last second of 2107 where that moment lies behind it.
pub open spec fn is_moment_at(moment: FileDateTime, seconds: u64) -> bool {
    moment matches FileDateTime::Custom { year, month, day, hour, minute, second } && {
        &&& is_moment(
            year as int,
            month as int,
            day as int,
            hour as int,
            minute as int,
            second as int,
        )
        &&& year <= 2107
        &&& unix_seconds(
            year as int,
            month as int,
            day as int,
            hour as int,
            minute as int,
            second as int,
        ) == if seconds < UNIX_SECONDS_LIMIT {
            seconds as int
        } else {
            UNIX_SECONDS_LIMIT - 1
        }
    }
}

/// `moment` is what a reading of the clock stands for: no time at all where the
/// clock gave nothing, else the moment that lies as many seconds behind the
/// start of 1970 as the clock gave.
pub open spec fn is_clock_reading(moment: FileDateTime, reading: Option<u64>) -> bool {
    match reading {
        None => moment == FileDateTime::Zero,
        Some(seconds) => is_moment_at(moment, seconds),
    }
}

/// The twelve months of a year have as many days as the year.
pub proof fn lemma_days_before_month(year: int)
    ensures
        days_before_month(year, 12) + days_in_month(year, 12) == days_in_year(year),
{
    reveal_with_fuel(days_before_month, 13);
}

/// 50403 days lie between the start of 1970 and the start of 2108.
pub proof fn lemma_days_before_2108()
    ensures
        days_before_year(2108) == 50403,
{
    lemma_days_span(2108);
}

/// The days before a year, counted by the leap years among the years before it.
proof fn lemma_days_span(year: int)
    requires
        1970 <= year,
    ensures
        days_before_year(year) == 365 * (year - 1970) + (year - 1969) / 4 - (year - 1901) / 100 + (
        year - 1601) / 400,
    decreases year - 1970,
{
    if year > 1970 {
        lemma_days_span(year - 1);
    }
}

impl Default for FileDateTime {
    fn default() -> (time: FileDateTime)
        ensures
            time == FileDateTime::Zero,
    {
        FileDateTime::Zero
    }
}

/// What is known of an entry once its payload has been written; the central
/// directory is built from these records.
#[derive(Debug)]
pub struct ArchiveFileEntry {
    pub file_name_as_bytes: Vec<u8>,
    pub file_name_len: u16,
    pub compressed_size: u32,
    pub uncompressed_size: u32,
    pub crc32: u32,
    pub offset: u32,
    pub last_mod_file_time: u16,
    pub last_mod_file_date: u16,
    pub compressor: Compressor,
    pub general_purpose_flags: u16,
    pub extra_field_length: u16,
    pub version_needed: u16,
    pub compression_method: u16,
    /// The nine permission bits of the Unix mode.
    pub permissions: u32,
}

/// An entry's record as plain values.
pub struct EntryView {
    pub name: Seq<u8>,
    pub name_len: u16,
    pub compressed_size: u32,
    pub uncompressed_size: u32,
    pub crc32: u32,
    pub offset: u32,
    pub time: u16,
    pub date: u16,
    pub compressor: Compressor,
    pub flags: u16,
    pub extra_field_length: u16,
    pub version_needed: u16,
    pub compression_method: u16,
    pub permissions: u32,
}

impl View for ArchiveFileEntry {
    type V = EntryView;

    open spec fn view(&self) -> EntryView {
        EntryView {
            name: self.file_name_as_bytes@,
            name_len: self.file_name_len,
            compressed_size: self.compressed_size,
            uncompressed_size: self.uncompressed_size,
            crc32: self.crc32,
            offset: self.offset,
            time: self.last_mod_file_time,
            date: self.last_mod_file_date,
            compressor: self.compressor,
            flags: self.general_purpose_flags,
            extra_field_length: self.extra_field_length,
            version_needed: self.version_needed,
            compression_method: self.compression_method,
            permissions: self.permissions,
        }
    }
}

impl ArchiveFileEntry {
    pub fn version_made_by(&self) -> (version: u16)
        ensures
            version == VERSION_MADE_BY,
    {
        VERSION_MADE_BY
    }

    pub fn version_needed(&self) -> (version: u16)
        ensures
            version == self@.version_needed,
    {
        self.version_needed
    }
}

} // verus!
