//! DOS-style packed time and date fields, derived from a UNIX timestamp via
//! the machine's local time zone. The calendar conversion is chrono's; the
//! packing into the two 16-bit header fields is verified.
use vstd::prelude::*;

verus! {

/// Relies on chrono: TimeZone::timestamp_opt on Local with
/// MappedLocalTime::single yields the local calendar time of a UNIX
/// timestamp, or None when the seconds are outside chrono's representable
/// range; the Datelike accessors year, month (1 to 12) and day (1 to 31)
/// and the Timelike accessors hour (0 to 23), minute and second (0 to 59)
/// read its components. The components depend on the machine's time zone,
/// so only their documented ranges are claimed.
#[verifier::external_body]
fn local_calendar_parts(secs: i64) -> (r: Option<(i32, u32, u32, u32, u32, u32)>)
    ensures
        r matches Some(t) ==> {
            &&& 1 <= t.1 <= 12
            &&& 1 <= t.2 <= 31
            &&& t.3 < 24
            &&& t.4 < 60
            &&& t.5 < 60
        },
{
    match chrono::TimeZone::timestamp_opt(&chrono::Local, secs, 0).single() {
        Some(dt) => Some(
            (
                chrono::Datelike::year(&dt),
                chrono::Datelike::month(&dt),
                chrono::Datelike::day(&dt),
                chrono::Timelike::hour(&dt),
                chrono::Timelike::minute(&dt),
                chrono::Timelike::second(&dt),
            ),
        ),
        None => None,
    }
}

/// The 16-bit DOS time field: hour<<11 | minute<<5 | second/2.
pub open spec fn dos_time_spec(hour: int, minute: int, second: int) -> int {
    hour * 2048 + minute * 32 + second / 2
}

/// The 16-bit DOS date field: (year-1980)<<9 | month<<5 | day, with years
/// outside the representable 1980..=2107 span pinned to the epoch year.
pub open spec fn dos_date_spec(year: int, month: int, day: int) -> int {
    (if 1980 <= year <= 2107 {
        year - 1980
    } else {
        0int
    }) * 512 + month * 32 + day
}

/// Packs the DOS time field.
pub fn dos_time(hour: u32, minute: u32, second: u32) -> (r: u16)
    requires
        hour < 24,
        minute < 60,
        second < 60,
    ensures
        r as int == dos_time_spec(hour as int, minute as int, second as int),
{
    let v: u32 = hour * 2048 + minute * 32 + second / 2;
    v as u16
}

/// Packs the DOS date field.
pub fn dos_date(year: i32, month: u32, day: u32) -> (r: u16)
    requires
        1 <= month <= 12,
        1 <= day <= 31,
    ensures
        r as int == dos_date_spec(year as int, month as int, day as int),
{
    let yy: u32 = if year >= 1980 && year <= 2107 {
        (year - 1980) as u32
    } else {
        0
    };
    let v: u32 = yy * 512 + month * 32 + day;
    v as u16
}

/// The pair is the DOS packing of some valid local calendar time.
pub open spec fn valid_dos_fields(hms: u16, ymd: u16) -> bool {
    exists|h: int, mi: int, se: int, y: int, mo: int, d: int|
        {
            &&& 0 <= h < 24
            &&& 0 <= mi < 60
            &&& 0 <= se < 60
            &&& 1 <= mo <= 12
            &&& 1 <= d <= 31
            &&& hms as int == #[trigger] dos_time_spec(h, mi, se)
            &&& ymd as int == #[trigger] dos_date_spec(y, mo, d)
        }
}

/// The DOS time/date pair of a UNIX timestamp, in local time; the all-zero
/// pair when the timestamp is outside chrono's range. The local calendar
/// components themselves depend on the machine's time zone.
pub fn time_data(secs: i64) -> (r: (u16, u16))
    ensures
        valid_dos_fields(r.0, r.1) || (r.0 == 0 && r.1 == 0),
{
    match local_calendar_parts(secs) {
        Some((y, mo, d, h, mi, se)) => {
            let hms = dos_time(h, mi, se);
            let ymd = dos_date(y, mo, d);
            proof {
                assert(hms as int == dos_time_spec(h as int, mi as int, se as int) && ymd as int
                    == dos_date_spec(y as int, mo as int, d as int));
            }
            (hms, ymd)
        },
        None => (0, 0),
    }
}

} // verus!
