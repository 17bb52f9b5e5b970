//! The log pages and identify structures, decoded from their fixed layouts.

use vstd::prelude::*;
use vstd::string::StringExecFns;
use crate::nvme::error::NvmeError;
use crate::nvme::text::{append_decimal, ascii_field, decimal_text};
pub use crate::nvme::text::trim_nvme_ascii;
use crate::nvme::wire::{
    byte_span, le_bytes, le_value, lemma_le_value_of_le_bytes, read_u128_le, read_u16_le,
    read_u32_le, read_u64_le, read_u8, slice,
};

verus! {

/// Length of the SMART / Health Information log page.
pub const SMART_LOG_BYTES: usize = 512;

/// Length of an Identify data structure.
pub const IDENTIFY_BYTES: usize = 4096;

/// Length of the Device Self-test log page.
pub const SELF_TEST_LOG_BYTES: usize = 564;

/// Length of one entry of the Error Information log page.
pub const ERROR_LOG_ENTRY_BYTES: usize = 64;

/// Number of Error Information entries that are read.
pub const ERROR_LOG_ENTRIES: usize = 16;

/// Length of the Error Information window that is read.
pub const ERROR_LOG_BYTES: usize = 1024;

/// Offset in Kelvin hundredths of the Celsius scale: 273.15 K.
pub const CELSIUS_OFFSET_HUNDREDTHS: i32 = 27315;

/// The number spelled by the `width` bytes of `bytes` that start at `offset`.
pub open spec fn field(bytes: Seq<u8>, offset: int, width: int) -> nat {
    le_value(bytes.subrange(offset, offset + width))
}

/// Whether bit `bit` of `value` is set.
pub open spec fn bit_is_set(value: u8, bit: nat) -> bool {
    (value as nat / byte_weight(bit)) % 2 == 1
}

/// Two to the power `bit`, for the bits of a byte.
pub open spec fn byte_weight(bit: nat) -> nat {
    if bit == 0 {
        1
    } else if bit == 1 {
        2
    } else if bit == 2 {
        4
    } else if bit == 3 {
        8
    } else if bit == 4 {
        16
    } else if bit == 5 {
        32
    } else if bit == 6 {
        64
    } else {
        128
    }
}

/// A temperature in hundredths of a degree Celsius, from a reading in
/// Kelvin; a reading of zero means that the sensor reports nothing.
pub open spec fn centicelsius(kelvin: u16) -> Option<i32> {
    if kelvin == 0 {
        None
    } else {
        Some((kelvin * 100 - 27315) as i32)
    }
}

/// The SMART / Health Information log page (log identifier 0x02).
#[derive(Clone, Copy, Debug)]
pub struct SmartLog {
    pub critical_warning: u8,
    pub temperature_kelvin: u16,
    pub avail_spare: u8,
    pub spare_thresh: u8,
    pub percent_used: u8,
    pub data_units_read: u128,
    pub data_units_written: u128,
    pub host_read_commands: u128,
    pub host_write_commands: u128,
    pub ctrl_busy_time_minutes: u128,
    pub power_cycles: u128,
    pub power_on_hours: u128,
    pub unsafe_shutdowns: u128,
    pub media_errors: u128,
    pub num_err_log_entries: u128,
    pub warning_temp_time_minutes: u32,
    pub critical_comp_time_minutes: u32,
    pub temp_sensor_kelvin: [u16; 8],
    pub thm_temp1_trans_count: u32,
    pub thm_temp2_trans_count: u32,
    pub thm_temp1_total_time_seconds: u32,
    pub thm_temp2_total_time_seconds: u32,
}

impl SmartLog {
    /// Whether `self` holds what the page `bytes` says, field by field.
    pub open spec fn decodes(self, bytes: Seq<u8>) -> bool {
        &&& self.critical_warning == bytes[0]
        &&& self.temperature_kelvin == field(bytes, 1, 2)
        &&& self.avail_spare == bytes[3]
        &&& self.spare_thresh == bytes[4]
        &&& self.percent_used == bytes[5]
        &&& self.data_units_read == field(bytes, 32, 16)
        &&& self.data_units_written == field(bytes, 48, 16)
        &&& self.host_read_commands == field(bytes, 64, 16)
        &&& self.host_write_commands == field(bytes, 80, 16)
        &&& self.ctrl_busy_time_minutes == field(bytes, 96, 16)
        &&& self.power_cycles == field(bytes, 112, 16)
        &&& self.power_on_hours == field(bytes, 128, 16)
        &&& self.unsafe_shutdowns == field(bytes, 144, 16)
        &&& self.media_errors == field(bytes, 160, 16)
        &&& self.num_err_log_entries == field(bytes, 176, 16)
        &&& self.warning_temp_time_minutes == field(bytes, 192, 4)
        &&& self.critical_comp_time_minutes == field(bytes, 196, 4)
        &&& forall|sensor: int|
            0 <= sensor < 8 ==> #[trigger] self.temp_sensor_kelvin@[sensor] == field(
                bytes,
                200 + 2 * sensor,
                2,
            )
        &&& self.thm_temp1_trans_count == field(bytes, 216, 4)
        &&& self.thm_temp2_trans_count == field(bytes, 220, 4)
        &&& self.thm_temp1_total_time_seconds == field(bytes, 224, 4)
        &&& self.thm_temp2_total_time_seconds == field(bytes, 228, 4)
    }

    /// The log that the page `bytes` holds: the one log that `decodes` it.
    pub open spec fn decoded(bytes: Seq<u8>) -> SmartLog {
        choose|log: SmartLog| log.decodes(bytes)
    }

    /// Whether the page `bytes` was made by writing the fields of `self`,
    /// little-endian, at their offsets.
    pub open spec fn written_in(self, bytes: Seq<u8>) -> bool {
        &&& bytes[0] == self.critical_warning
        &&& bytes.subrange(1, 3) == le_bytes(self.temperature_kelvin as nat, 2)
        &&& bytes[3] == self.avail_spare
        &&& bytes[4] == self.spare_thresh
        &&& bytes[5] == self.percent_used
        &&& bytes.subrange(32, 48) == le_bytes(self.data_units_read as nat, 16)
        &&& bytes.subrange(48, 64) == le_bytes(self.data_units_written as nat, 16)
        &&& bytes.subrange(64, 80) == le_bytes(self.host_read_commands as nat, 16)
        &&& bytes.subrange(80, 96) == le_bytes(self.host_write_commands as nat, 16)
        &&& bytes.subrange(96, 112) == le_bytes(self.ctrl_busy_time_minutes as nat, 16)
        &&& bytes.subrange(112, 128) == le_bytes(self.power_cycles as nat, 16)
        &&& bytes.subrange(128, 144) == le_bytes(self.power_on_hours as nat, 16)
        &&& bytes.subrange(144, 160) == le_bytes(self.unsafe_shutdowns as nat, 16)
        &&& bytes.subrange(160, 176) == le_bytes(self.media_errors as nat, 16)
        &&& bytes.subrange(176, 192) == le_bytes(self.num_err_log_entries as nat, 16)
        &&& bytes.subrange(192, 196) == le_bytes(self.warning_temp_time_minutes as nat, 4)
        &&& bytes.subrange(196, 200) == le_bytes(self.critical_comp_time_minutes as nat, 4)
        &&& forall|sensor: int|
            0 <= sensor < 8 ==> #[trigger] bytes.subrange(200 + 2 * sensor, 202 + 2 * sensor)
                == le_bytes(self.temp_sensor_kelvin@[sensor] as nat, 2)
        &&& bytes.subrange(216, 220) == le_bytes(self.thm_temp1_trans_count as nat, 4)
        &&& bytes.subrange(220, 224) == le_bytes(self.thm_temp2_trans_count as nat, 4)
        &&& bytes.subrange(224, 228) == le_bytes(self.thm_temp1_total_time_seconds as nat, 4)
        &&& bytes.subrange(228, 232) == le_bytes(self.thm_temp2_total_time_seconds as nat, 4)
    }

    /// Whether the drive counts as healthy: no critical warning, spare
    /// capacity at or above its threshold, no media errors.
    pub open spec fn is_healthy(self) -> bool {
        &&& self.critical_warning == 0
        &&& self.avail_spare >= self.spare_thresh
        &&& self.media_errors == 0
    }

    /// Decodes a SMART page of exactly 512 bytes.
    pub fn parse(bytes: &[u8]) -> (result: Result<Self, NvmeError>)
        ensures
            bytes@.len() == 512 ==> (result matches Ok(log) && log.decodes(bytes@) && log
                == SmartLog::decoded(bytes@)),
            bytes@.len() != 512 ==> result == Err::<Self, NvmeError>(
                NvmeError::UnexpectedSize { expected: 512, actual: bytes@.len() as usize },
            ),
    {
        if bytes.len() != SMART_LOG_BYTES {
            return Err(
                NvmeError::UnexpectedSize { expected: SMART_LOG_BYTES, actual: bytes.len() },
            );
        }
        let mut temp_sensor_kelvin = [0u16;8];
        let mut sensor_index: usize = 0;
        while sensor_index < 8
            invariant
                sensor_index <= 8,
                bytes@.len() == 512,
                forall|sensor: int|
                    0 <= sensor < sensor_index ==> #[trigger] temp_sensor_kelvin@[sensor] == field(
                        bytes@,
                        200 + 2 * sensor,
                        2,
                    ),
            decreases 8 - sensor_index,
        {
            let reading = read_u16_le(bytes, 200 + sensor_index * 2)?;
            temp_sensor_kelvin[sensor_index] = reading;
            sensor_index += 1;
        }
        let log =
            SmartLog {
                critical_warning: read_u8(bytes, 0)?,
                temperature_kelvin: read_u16_le(bytes, 1)?,
                avail_spare: read_u8(bytes, 3)?,
                spare_thresh: read_u8(bytes, 4)?,
                percent_used: read_u8(bytes, 5)?,
                data_units_read: read_u128_le(bytes, 32)?,
                data_units_written: read_u128_le(bytes, 48)?,
                host_read_commands: read_u128_le(bytes, 64)?,
                host_write_commands: read_u128_le(bytes, 80)?,
                ctrl_busy_time_minutes: read_u128_le(bytes, 96)?,
                power_cycles: read_u128_le(bytes, 112)?,
                power_on_hours: read_u128_le(bytes, 128)?,
                unsafe_shutdowns: read_u128_le(bytes, 144)?,
                media_errors: read_u128_le(bytes, 160)?,
                num_err_log_entries: read_u128_le(bytes, 176)?,
                warning_temp_time_minutes: read_u32_le(bytes, 192)?,
                critical_comp_time_minutes: read_u32_le(bytes, 196)?,
                temp_sensor_kelvin,
                thm_temp1_trans_count: read_u32_le(bytes, 216)?,
                thm_temp2_trans_count: read_u32_le(bytes, 220)?,
                thm_temp1_total_time_seconds: read_u32_le(bytes, 224)?,
                thm_temp2_total_time_seconds: read_u32_le(bytes, 228)?,
            };
        proof {
            lemma_smart_log_unique(log, SmartLog::decoded(bytes@), bytes@);
        }
        Ok(log)
    }

    /// The composite temperature in hundredths of a degree Celsius, or
    /// `None` where the controller reports zero Kelvin.
    pub fn temperature_centicelsius(&self) -> (reading: Option<i32>)
        ensures
            reading == centicelsius(self.temperature_kelvin),
            self.temperature_kelvin == 0 ==> reading.is_none(),
    {
        kelvin_to_centicelsius(self.temperature_kelvin)
    }

    /// The temperature of sensor `sensor_index` (counted from zero) in
    /// hundredths of a degree Celsius, or `None` where there is no such
    /// sensor or it reports zero Kelvin.
    pub fn sensor_centicelsius(&self, sensor_index: usize) -> (reading: Option<i32>)
        ensures
            sensor_index < 8 ==> reading == centicelsius(
                self.temp_sensor_kelvin@[sensor_index as int],
            ),
            sensor_index >= 8 ==> reading.is_none(),
    {
        if sensor_index < 8 {
            kelvin_to_centicelsius(self.temp_sensor_kelvin[sensor_index])
        } else {
            None
        }
    }

    /// Critical-warning bit 0: spare capacity has fallen below its threshold.
    pub fn critical_warning_available_spare(&self) -> (set: bool)
        ensures
            set == bit_is_set(self.critical_warning, 0),
    {
        let value = self.critical_warning;
        assert((value & 1 != 0) == ((value / 1) % 2 == 1)) by (bit_vector);
        (value & 1) != 0
    }

    /// Critical-warning bit 1: a temperature is outside its thresholds.
    pub fn critical_warning_temperature(&self) -> (set: bool)
        ensures
            set == bit_is_set(self.critical_warning, 1),
    {
        let value = self.critical_warning;
        assert((value & 2 != 0) == ((value / 2) % 2 == 1)) by (bit_vector);
        (value & 2) != 0
    }

    /// Critical-warning bit 2: reliability is degraded.
    pub fn critical_warning_reliability(&self) -> (set: bool)
        ensures
            set == bit_is_set(self.critical_warning, 2),
    {
        let value = self.critical_warning;
        assert((value & 4 != 0) == ((value / 4) % 2 == 1)) by (bit_vector);
        (value & 4) != 0
    }

    /// Critical-warning bit 3: the media is in read-only mode.
    pub fn critical_warning_read_only(&self) -> (set: bool)
        ensures
            set == bit_is_set(self.critical_warning, 3),
    {
        let value = self.critical_warning;
        assert((value & 8 != 0) == ((value / 8) % 2 == 1)) by (bit_vector);
        (value & 8) != 0
    }

    /// Critical-warning bit 4: the volatile memory backup has failed.
    pub fn critical_warning_volatile_backup(&self) -> (set: bool)
        ensures
            set == bit_is_set(self.critical_warning, 4),
    {
        let value = self.critical_warning;
        assert((value & 16 != 0) == ((value / 16) % 2 == 1)) by (bit_vector);
        (value & 16) != 0
    }

    /// Whether the drive counts as healthy.
    pub fn healthy(&self) -> (healthy: bool)
        ensures
            healthy == self.is_healthy(),
            healthy <==> self.critical_warning == 0 && self.avail_spare >= self.spare_thresh
                && self.media_errors == 0,
    {
        self.critical_warning == 0 && self.avail_spare >= self.spare_thresh && self.media_errors
            == 0
    }
}

/// The text fields of the Identify Controller data structure.
#[derive(Debug)]
pub struct IdentifyController {
    pub serial: String,
    pub model: String,
    pub firmware_revision: String,
}

/// The model of an `IdentifyController`.
pub struct IdentifyControllerView {
    pub serial: Seq<char>,
    pub model: Seq<char>,
    pub firmware_revision: Seq<char>,
}

impl View for IdentifyController {
    type V = IdentifyControllerView;

    open spec fn view(&self) -> IdentifyControllerView {
        IdentifyControllerView {
            serial: self.serial@,
            model: self.model@,
            firmware_revision: self.firmware_revision@,
        }
    }
}

impl Clone for IdentifyController {
    fn clone(&self) -> (copy: Self)
        ensures
            copy@ == self@,
    {
        IdentifyController {
            serial: self.serial.clone(),
            model: self.model.clone(),
            firmware_revision: self.firmware_revision.clone(),
        }
    }
}

impl IdentifyController {
    /// The three text fields of the structure `bytes`: the serial number in
    /// bytes 4 to 23, the model in bytes 24 to 63, the firmware revision in
    /// bytes 64 to 71.
    pub open spec fn decoded(bytes: Seq<u8>) -> IdentifyControllerView {
        IdentifyControllerView {
            serial: ascii_field(bytes.subrange(4, 24)),
            model: ascii_field(bytes.subrange(24, 64)),
            firmware_revision: ascii_field(bytes.subrange(64, 72)),
        }
    }

    /// Decodes an Identify Controller structure of exactly 4096 bytes.
    pub fn parse(bytes: &[u8]) -> (result: Result<Self, NvmeError>)
        ensures
            bytes@.len() == 4096 ==> (result matches Ok(identity) && identity@ == Self::decoded(
                bytes@,
            )),
            bytes@.len() != 4096 ==> result == Err::<Self, NvmeError>(
                NvmeError::UnexpectedSize { expected: 4096, actual: bytes@.len() as usize },
            ),
    {
        if bytes.len() != IDENTIFY_BYTES {
            return Err(
                NvmeError::UnexpectedSize { expected: IDENTIFY_BYTES, actual: bytes.len() },
            );
        }
        Ok(
            IdentifyController {
                serial: trim_nvme_ascii(slice::<20>(bytes, 4)?),
                model: trim_nvme_ascii(slice::<40>(bytes, 24)?),
                firmware_revision: trim_nvme_ascii(slice::<8>(bytes, 64)?),
            },
        )
    }
}

/// The sizes of a namespace, in logical blocks.
#[derive(Clone, Copy, Debug)]
pub struct IdentifyNamespace {
    pub nsze: u64,
    pub ncap: u64,
    pub nuse: u64,
}

impl IdentifyNamespace {
    /// The three sizes of the structure `bytes`: 64-bit numbers at offsets
    /// 0, 8 and 16.
    pub open spec fn decoded(bytes: Seq<u8>) -> IdentifyNamespace {
        IdentifyNamespace {
            nsze: field(bytes, 0, 8) as u64,
            ncap: field(bytes, 8, 8) as u64,
            nuse: field(bytes, 16, 8) as u64,
        }
    }

    /// Whether the structure `bytes` was made by writing the sizes of `self`,
    /// little-endian, at their offsets.
    pub open spec fn written_in(self, bytes: Seq<u8>) -> bool {
        &&& bytes.subrange(0, 8) == le_bytes(self.nsze as nat, 8)
        &&& bytes.subrange(8, 16) == le_bytes(self.ncap as nat, 8)
        &&& bytes.subrange(16, 24) == le_bytes(self.nuse as nat, 8)
    }

    /// Decodes an Identify Namespace structure of exactly 4096 bytes.
    pub fn parse(bytes: &[u8]) -> (result: Result<Self, NvmeError>)
        ensures
            bytes@.len() == 4096 ==> result == Ok::<Self, NvmeError>(Self::decoded(bytes@)),
            bytes@.len() != 4096 ==> result == Err::<Self, NvmeError>(
                NvmeError::UnexpectedSize { expected: 4096, actual: bytes@.len() as usize },
            ),
    {
        if bytes.len() != IDENTIFY_BYTES {
            return Err(
                NvmeError::UnexpectedSize { expected: IDENTIFY_BYTES, actual: bytes.len() },
            );
        }
        Ok(
            IdentifyNamespace {
                nsze: read_u64_le(bytes, 0)?,
                ncap: read_u64_le(bytes, 8)?,
                nuse: read_u64_le(bytes, 16)?,
            },
        )
    }
}

/// The error count of entry `entry` of an Error Information page: the 64-bit
/// number at the start of the entry.
pub open spec fn error_count_at(bytes: Seq<u8>, entry: int) -> nat {
    field(bytes, entry * 64, 8)
}

/// How many of the first `entries` entries have an error count other than
/// zero.
pub open spec fn non_zero_error_counts(bytes: Seq<u8>, entries: nat) -> nat
    decreases entries,
{
    if entries == 0 {
        0
    } else {
        non_zero_error_counts(bytes, (entries - 1) as nat) + if error_count_at(
            bytes,
            entries - 1,
        ) != 0 {
            1nat
        } else {
            0nat
        }
    }
}

/// The largest error count among the first `entries` entries, zero where
/// there is none.
pub open spec fn largest_error_count(bytes: Seq<u8>, entries: nat) -> nat
    decreases entries,
{
    if entries == 0 {
        0
    } else {
        let before = largest_error_count(bytes, (entries - 1) as nat);
        let here = error_count_at(bytes, entries - 1);
        if here > before {
            here
        } else {
            before
        }
    }
}

/// What the first window of the Error Information log page says in sum.
#[derive(Clone, Copy, Debug)]
pub struct ErrorLogSummary {
    pub non_zero_entries: u64,
    pub max_error_count: u64,
}

/// The text of the error for an Error Information buffer of a bad length.
pub open spec fn error_log_size_text(len: nat) -> Seq<char> {
    "error log buffer size "@ + decimal_text(len) + " is not divisible by "@ + decimal_text(64)
}

/// The text of the error for an Error Information buffer of a bad length.
fn error_log_size_message(len: usize) -> (message: String)
    ensures
        message@ == error_log_size_text(len as nat),
{
    let mut message = "error log buffer size ".to_owned();
    append_decimal(&mut message, len);
    message.append(" is not divisible by ");
    append_decimal(&mut message, ERROR_LOG_ENTRY_BYTES);
    message
}

impl ErrorLogSummary {
    /// The sum of the entries of the page `bytes`.
    pub open spec fn decoded(bytes: Seq<u8>) -> ErrorLogSummary {
        ErrorLogSummary {
            non_zero_entries: non_zero_error_counts(bytes, bytes.len() / 64) as u64,
            max_error_count: largest_error_count(bytes, bytes.len() / 64) as u64,
        }
    }

    /// Sums up an Error Information buffer, whose length must be a positive
    /// multiple of 64.
    pub fn parse(bytes: &[u8]) -> (result: Result<Self, NvmeError>)
        ensures
            bytes@.len() > 0 && bytes@.len() % 64 == 0 ==> (result matches Ok(summary)
                && summary == Self::decoded(bytes@) && summary.non_zero_entries
                == non_zero_error_counts(bytes@, bytes@.len() / 64) && summary.max_error_count
                == largest_error_count(bytes@, bytes@.len() / 64)),
            bytes@.len() == 0 || bytes@.len() % 64 != 0 ==> (result matches Err(
                NvmeError::InvalidData(message),
            ) && message@ == error_log_size_text(bytes@.len())),
    {
        if bytes.len() == 0 || bytes.len() % ERROR_LOG_ENTRY_BYTES != 0 {
            return Err(
                NvmeError::InvalidData(error_log_size_message(bytes.len())),
            );
        }
        let mut non_zero_entries: u64 = 0;
        let mut max_error_count: u64 = 0;
        let mut offset: usize = 0;
        while offset < bytes.len()
            invariant
                bytes@.len() % 64 == 0,
                offset <= bytes@.len(),
                offset % 64 == 0,
                non_zero_entries == non_zero_error_counts(bytes@, offset as nat / 64),
                non_zero_entries <= offset / 64,
                max_error_count == largest_error_count(bytes@, offset as nat / 64),
            decreases bytes@.len() - offset,
        {
            let error_count = read_u64_le(bytes, offset)?;
            assert(error_count == error_count_at(bytes@, offset as int / 64));
            assert((offset + 64) as nat / 64 == offset as nat / 64 + 1);
            if error_count > 0 {
                non_zero_entries += 1;
            }
            if error_count > max_error_count {
                max_error_count = error_count;
            }
            offset += ERROR_LOG_ENTRY_BYTES;
        }
        Ok(ErrorLogSummary { non_zero_entries, max_error_count })
    }
}

/// The state of the self-test that the Device Self-test log page reports.
#[derive(Clone, Copy, Debug)]
pub struct SelfTestLogSummary {
    /// The operation in progress, zero for none.
    pub current_operation: u8,
    /// How much of it is done, in percent.
    pub current_completion_percent: u8,
}

impl SelfTestLogSummary {
    /// The first two bytes of the page `bytes`: the operation in progress
    /// and how much of it is done.
    pub open spec fn decoded(bytes: Seq<u8>) -> SelfTestLogSummary {
        SelfTestLogSummary { current_operation: bytes[0], current_completion_percent: bytes[1] }
    }

    /// Decodes a Device Self-test page of exactly 564 bytes.
    pub fn parse(bytes: &[u8]) -> (result: Result<Self, NvmeError>)
        ensures
            bytes@.len() == 564 ==> result == Ok::<Self, NvmeError>(Self::decoded(bytes@)),
            bytes@.len() != 564 ==> result == Err::<Self, NvmeError>(
                NvmeError::UnexpectedSize { expected: 564, actual: bytes@.len() as usize },
            ),
    {
        if bytes.len() != SELF_TEST_LOG_BYTES {
            return Err(
                NvmeError::UnexpectedSize { expected: SELF_TEST_LOG_BYTES, actual: bytes.len() },
            );
        }
        let current_operation = read_u8(bytes, 0)?;
        let current_completion_percent = read_u8(bytes, 1)?;
        Ok(SelfTestLogSummary { current_operation, current_completion_percent })
    }
}

/// Hundredths of a degree Celsius for a reading in Kelvin, `None` for zero.
fn kelvin_to_centicelsius(value: u16) -> (reading: Option<i32>)
    ensures
        reading == centicelsius(value),
{
    if value == 0 {
        None
    } else {
        let hundredths: i32 = value as i32 * 100;
        Some(hundredths - CELSIUS_OFFSET_HUNDREDTHS)
    }
}

/// A page holds one log only: two logs that decode it are the same.
pub proof fn lemma_smart_log_unique(first: SmartLog, second: SmartLog, bytes: Seq<u8>)
    requires
        first.decodes(bytes),
        second.decodes(bytes),
    ensures
        first == second,
{
    assert forall|sensor: int| 0 <= sensor < 8 implies first.temp_sensor_kelvin@[sensor]
        == second.temp_sensor_kelvin@[sensor] by {
        assert(first.temp_sensor_kelvin@[sensor] == field(bytes, 200 + 2 * sensor, 2));
        assert(second.temp_sensor_kelvin@[sensor] == field(bytes, 200 + 2 * sensor, 2));
    }
    assert(first.temp_sensor_kelvin@ =~= second.temp_sensor_kelvin@);
    vstd::array::axiom_array_ext_equal(first.temp_sensor_kelvin, second.temp_sensor_kelvin);
    assert(first.temp_sensor_kelvin == second.temp_sensor_kelvin);
}

/// A SMART page made by writing a log's fields at their offsets decodes to
/// that log.
pub proof fn lemma_smart_log_round_trip(log: SmartLog, bytes: Seq<u8>)
    requires
        bytes.len() == 512,
        log.written_in(bytes),
    ensures
        log.decodes(bytes),
        SmartLog::decoded(bytes) == log,
{
    reveal_with_fuel(byte_span, 17);
    lemma_le_value_of_le_bytes(log.temperature_kelvin as nat, 2);
    lemma_le_value_of_le_bytes(log.data_units_read as nat, 16);
    lemma_le_value_of_le_bytes(log.data_units_written as nat, 16);
    lemma_le_value_of_le_bytes(log.host_read_commands as nat, 16);
    lemma_le_value_of_le_bytes(log.host_write_commands as nat, 16);
    lemma_le_value_of_le_bytes(log.ctrl_busy_time_minutes as nat, 16);
    lemma_le_value_of_le_bytes(log.power_cycles as nat, 16);
    lemma_le_value_of_le_bytes(log.power_on_hours as nat, 16);
    lemma_le_value_of_le_bytes(log.unsafe_shutdowns as nat, 16);
    lemma_le_value_of_le_bytes(log.media_errors as nat, 16);
    lemma_le_value_of_le_bytes(log.num_err_log_entries as nat, 16);
    lemma_le_value_of_le_bytes(log.warning_temp_time_minutes as nat, 4);
    lemma_le_value_of_le_bytes(log.critical_comp_time_minutes as nat, 4);
    lemma_le_value_of_le_bytes(log.thm_temp1_trans_count as nat, 4);
    lemma_le_value_of_le_bytes(log.thm_temp2_trans_count as nat, 4);
    lemma_le_value_of_le_bytes(log.thm_temp1_total_time_seconds as nat, 4);
    lemma_le_value_of_le_bytes(log.thm_temp2_total_time_seconds as nat, 4);
    assert forall|sensor: int| 0 <= sensor < 8 implies #[trigger] log.temp_sensor_kelvin@[sensor]
        == field(bytes, 200 + 2 * sensor, 2) by {
        lemma_le_value_of_le_bytes(log.temp_sensor_kelvin@[sensor] as nat, 2);
        assert(bytes.subrange(200 + 2 * sensor, 202 + 2 * sensor) == le_bytes(
            log.temp_sensor_kelvin@[sensor] as nat,
            2,
        ));
    }
    assert(log.decodes(bytes));
    lemma_smart_log_unique(log, SmartLog::decoded(bytes), bytes);
}

/// An Identify Namespace structure made by writing three sizes at their
/// offsets decodes to those sizes.
pub proof fn lemma_identify_namespace_round_trip(sizes: IdentifyNamespace, bytes: Seq<u8>)
    requires
        bytes.len() == 4096,
        sizes.written_in(bytes),
    ensures
        IdentifyNamespace::decoded(bytes) == sizes,
{
    reveal_with_fuel(byte_span, 9);
    lemma_le_value_of_le_bytes(sizes.nsze as nat, 8);
    lemma_le_value_of_le_bytes(sizes.ncap as nat, 8);
    lemma_le_value_of_le_bytes(sizes.nuse as nat, 8);
}

/// No entry has an error count above `largest_error_count`, and where there
/// is an entry, one of them has exactly that count.
pub proof fn lemma_largest_error_count(bytes: Seq<u8>, entries: nat)
    ensures
        forall|entry: int|
            0 <= entry < entries ==> #[trigger] error_count_at(bytes, entry)
                <= largest_error_count(bytes, entries),
        entries > 0 ==> exists|entry: int|
            0 <= entry < entries && #[trigger] error_count_at(bytes, entry)
                == largest_error_count(bytes, entries),
    decreases entries,
{
    if entries > 0 {
        lemma_largest_error_count(bytes, (entries - 1) as nat);
        let here = error_count_at(bytes, entries - 1);
        let before = largest_error_count(bytes, (entries - 1) as nat);
        if here > before || entries == 1 {
            assert(error_count_at(bytes, entries - 1) == largest_error_count(bytes, entries));
        } else {
            let witness = choose|entry: int|
                0 <= entry < entries - 1 && #[trigger] error_count_at(bytes, entry) == before;
            assert(error_count_at(bytes, witness) == largest_error_count(bytes, entries));
        }
    }
}

} // verus!
