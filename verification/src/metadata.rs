//! The time range of a dump in display form: the timescale as
//! `<factor><unit>`, and timestamps scaled by the factor.

use vstd::prelude::*;
use vstd::string::StringExecFns;
use crate::error::{outcome_view, ErrorView, WavepeekError};
use crate::text::{decimal, push_decimal};

verus! {

/// The time range that a dump covers, in display form.
#[derive(Debug, Clone, PartialEq, Eq)]
pub struct WaveformMetadata {
    /// The timescale, as `<factor><unit>`.
    pub time_unit: String,
    /// The first timestamp, scaled, with the unit.
    pub time_start: String,
    /// The last timestamp, scaled, with the unit.
    pub time_end: String,
}

/// The mathematical value of a `WaveformMetadata`.
pub struct MetadataView {
    pub time_unit: Seq<char>,
    pub time_start: Seq<char>,
    pub time_end: Seq<char>,
}

impl View for WaveformMetadata {
    type V = MetadataView;

    open spec fn view(&self) -> MetadataView {
        MetadataView {
            time_unit: self.time_unit@,
            time_start: self.time_start@,
            time_end: self.time_end@,
        }
    }
}

/// The suffix that writes each unit of time; the unknown unit has none.
pub open spec fn unit_suffix(unit: wellen::TimescaleUnit) -> Option<Seq<char>> {
    match unit {
        wellen::TimescaleUnit::ZeptoSeconds => Some("zs"@),
        wellen::TimescaleUnit::AttoSeconds => Some("as"@),
        wellen::TimescaleUnit::FemtoSeconds => Some("fs"@),
        wellen::TimescaleUnit::PicoSeconds => Some("ps"@),
        wellen::TimescaleUnit::NanoSeconds => Some("ns"@),
        wellen::TimescaleUnit::MicroSeconds => Some("us"@),
        wellen::TimescaleUnit::MilliSeconds => Some("ms"@),
        wellen::TimescaleUnit::Seconds => Some("s"@),
        wellen::TimescaleUnit::Unknown => None,
    }
}

/// The failure reported for a timescale whose unit is unknown.
pub open spec fn unknown_unit_failure() -> ErrorView {
    ErrorView::File("waveform timescale unit is unknown"@)
}

/// The failure reported for a dump that declares no timescale.
pub open spec fn missing_timescale_failure() -> ErrorView {
    ErrorView::File("waveform is missing timescale metadata"@)
}

/// The failure reported when a scaled timestamp does not fit in 64 bits.
pub open spec fn time_overflow_failure() -> ErrorView {
    ErrorView::File("time value overflow while normalizing timestamps"@)
}

/// The suffix of a unit, or the failure for the unknown unit.
pub open spec fn unit_suffix_outcome(unit: wellen::TimescaleUnit) -> Result<Seq<char>, ErrorView> {
    match unit_suffix(unit) {
        Some(suffix) => Ok(suffix),
        None => Err(unknown_unit_failure()),
    }
}

/// A timescale in display form: the factor in decimal, then the unit.
pub open spec fn timescale_text(timescale: wellen::Timescale) -> Result<Seq<char>, ErrorView> {
    match unit_suffix(timescale.unit) {
        Some(suffix) => Ok(decimal(timescale.factor as nat) + suffix),
        None => Err(unknown_unit_failure()),
    }
}

/// A raw timestamp in display form: the timestamp times the timescale's
/// factor in decimal, then the unit. The product must fit in 64 bits.
pub open spec fn time_text(time: u64, timescale: wellen::Timescale) -> Result<Seq<char>, ErrorView> {
    match unit_suffix(timescale.unit) {
        Some(suffix) => if time * timescale.factor > u64::MAX {
            Err(time_overflow_failure())
        } else {
            Ok(decimal((time * timescale.factor) as nat) + suffix)
        },
        None => Err(unknown_unit_failure()),
    }
}

/// The first timestamp of a time table, 0 for an empty one.
pub open spec fn first_time(table: Seq<u64>) -> u64 {
    if table.len() > 0 {
        table[0]
    } else {
        0
    }
}

/// The last timestamp of a time table, 0 for an empty one.
pub open spec fn last_time(table: Seq<u64>) -> u64 {
    if table.len() > 0 {
        table.last()
    } else {
        0
    }
}

/// The metadata of a dump with the given timescale and time table, or the
/// failure that stands in its way: no timescale, an unknown unit, or a
/// timestamp that overflows when scaled, in that order.
pub open spec fn metadata_of(timescale: Option<wellen::Timescale>, table: Seq<u64>) -> Result<
    MetadataView,
    ErrorView,
> {
    match timescale {
        None => Err(missing_timescale_failure()),
        Some(scale) => match timescale_text(scale) {
            Err(failure) => Err(failure),
            Ok(time_unit) => match time_text(first_time(table), scale) {
                Err(failure) => Err(failure),
                Ok(time_start) => match time_text(last_time(table), scale) {
                    Err(failure) => Err(failure),
                    Ok(time_end) => Ok(MetadataView { time_unit, time_start, time_end }),
                },
            },
        },
    }
}

/// The metadata of a dump with an empty time table starts and ends at
/// zero: both bounds read `0<unit>`.
pub proof fn law_empty_table_bounds(timescale: wellen::Timescale)
    requires
        unit_suffix(timescale.unit) is Some,
    ensures
        metadata_of(Some(timescale), Seq::empty()) matches Ok(m) && m.time_start == m.time_end
            && m.time_start == seq!['0'] + unit_suffix(timescale.unit).unwrap(),
{
    assert(0 * timescale.factor == 0) by (nonlinear_arith);
    reveal_with_fuel(decimal, 2);
    assert(decimal(0) =~= seq!['0']);
}

/// The suffix of a unit of time, or a File error for the unknown unit.
pub fn timescale_unit_suffix(unit: wellen::TimescaleUnit) -> (r: Result<&'static str, WavepeekError>)
    ensures
        outcome_view(r) == unit_suffix_outcome(unit),
{
    match unit {
        wellen::TimescaleUnit::ZeptoSeconds => Ok("zs"),
        wellen::TimescaleUnit::AttoSeconds => Ok("as"),
        wellen::TimescaleUnit::FemtoSeconds => Ok("fs"),
        wellen::TimescaleUnit::PicoSeconds => Ok("ps"),
        wellen::TimescaleUnit::NanoSeconds => Ok("ns"),
        wellen::TimescaleUnit::MicroSeconds => Ok("us"),
        wellen::TimescaleUnit::MilliSeconds => Ok("ms"),
        wellen::TimescaleUnit::Seconds => Ok("s"),
        wellen::TimescaleUnit::Unknown => Err(
            WavepeekError::File(String::from_str("waveform timescale unit is unknown")),
        ),
    }
}

/// Renders a timescale as `<factor><unit>`.
pub fn format_timescale(timescale: wellen::Timescale) -> (r: Result<String, WavepeekError>)
    ensures
        outcome_view(r) == timescale_text(timescale),
{
    match timescale_unit_suffix(timescale.unit) {
        Err(error) => Err(error),
        Ok(unit) => {
            let mut out = String::new();
            push_decimal(&mut out, timescale.factor as u64);
            out.append(unit);
            proof {
                assert(Seq::<char>::empty() + decimal(timescale.factor as nat) =~= decimal(
                    timescale.factor as nat,
                ));
            }
            Ok(out)
        },
    }
}

/// Scales a raw timestamp by the timescale's factor and renders it with the
/// unit. Fails with a File error when the unit is unknown or the product
/// does not fit in 64 bits.
pub fn normalize_time(time: u64, timescale: wellen::Timescale) -> (r: Result<String, WavepeekError>)
    ensures
        outcome_view(r) == time_text(time, timescale),
{
    match timescale_unit_suffix(timescale.unit) {
        Err(error) => Err(error),
        Ok(unit) => match time.checked_mul(timescale.factor as u64) {
            None => Err(
                WavepeekError::File(
                    String::from_str("time value overflow while normalizing timestamps"),
                ),
            ),
            Some(scaled) => {
                let mut out = String::new();
                push_decimal(&mut out, scaled);
                out.append(unit);
                proof {
                    assert(Seq::<char>::empty() + decimal(scaled as nat) =~= decimal(scaled as nat));
                }
                Ok(out)
            },
        },
    }
}

} // verus!
