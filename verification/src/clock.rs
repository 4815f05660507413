//! Time: from the naive readings in an EverQuest log to true unix time.
//!
//! EverQuest stamps log lines with the machine's local wall-clock and no time
//! zone. A naive reading is given here as the unix time that it would be in
//! Universal Time. What makes it true time is the offset of the system's time
//! zone on the date of the reading, and the measured skew of the server's
//! clock on top.
//!
//! During fall-back the same local hour occurs twice: the earlier instant is
//! chosen. During spring-forward a local hour does not exist: the reading is
//! shifted forward one hour.
use vstd::prelude::*;

use crate::text;

verus! {

/// The naive readings that have a date and a time of day.
pub open spec fn is_reading(naive: i64) -> bool {
    -8_334_601_228_800 <= naive <= 8_210_266_876_799
}

/// What `chrono` and `chrono-tz` give for a naive reading in a time zone: the
/// earliest instant at which clocks in that zone show it, in unix time; nothing
/// where they never show it, or where there is no such zone.
pub uninterp spec fn zone_epoch(zone: Seq<char>, naive: i64) -> Option<i64>;

/// `chrono_tz::Tz::from_str` and `chrono::TimeZone::from_local_datetime`, of whose result
/// `earliest` is taken: the earliest instant at which clocks in the zone show the reading. The
/// rules of the zones are part of the crate, so the result depends on the zone's name and the
/// reading alone. A zone is less than a day ahead of Universal Time or behind it.
#[verifier::external_body]
fn earliest_in_zone(zone: &str, naive: i64) -> (r: Option<i64>)
    ensures
        r == zone_epoch(zone@, naive),
        r is Some ==> -86400 < r->0 - naive < 86400,
{
    let tz: chrono_tz::Tz = zone.parse().ok()?;
    let reading = chrono::DateTime::from_timestamp(naive, 0)?.naive_utc();
    chrono::TimeZone::from_local_datetime(&tz, &reading).earliest().map(|dt| dt.timestamp())
}

/// `iana_time_zone::get_timezone`: the name of the system's time zone, if it can be found. It is a
/// setting of the machine, so nothing is said of it.
#[verifier::external_body]
fn system_zone() -> (r: Option<String>) {
    iana_time_zone::get_timezone().ok()
}

/// `chrono::Local.from_local_datetime`, of whose result `earliest` is taken: the reading by the
/// rules that the platform applies to local time. Those are the machine's, so nothing is said but
/// that an offset is less than a day.
#[verifier::external_body]
fn earliest_local(naive: i64) -> (r: Option<i64>)
    ensures
        r is Some ==> -86400 < r->0 - naive < 86400,
{
    let reading = chrono::DateTime::from_timestamp(naive, 0)?.naive_utc();
    chrono::TimeZone::from_local_datetime(&chrono::Local, &reading).earliest().map(|dt| dt.timestamp())
}

/// `chrono::Local::now().offset()`: how far local time is ahead of Universal Time, in seconds. It
/// is the machine's, so nothing is said but that an offset is less than a day.
#[verifier::external_body]
fn current_offset() -> (r: i32)
    ensures
        -86400 < r < 86400,
{
    chrono::Offset::fix(chrono::Local::now().offset()).local_minus_utc()
}

/// The true time of a reading: the instant that the zone gives for it, else the
/// one that it gives for an hour later, else the platform's, else the reading
/// itself.
pub open spec fn chosen_epoch(
    in_zone: Option<i64>,
    hour_later_in_zone: Option<i64>,
    local: Option<i64>,
    naive: i64,
) -> i64 {
    match in_zone {
        Some(t) => t,
        None => match hour_later_in_zone {
            Some(t) => t,
            None => match local {
                Some(t) => t,
                None => naive,
            },
        },
    }
}

/// The true time of a reading, from what the zone and the platform give for it.
pub fn choose_epoch(
    in_zone: Option<i64>,
    hour_later_in_zone: Option<i64>,
    local: Option<i64>,
    naive: i64,
) -> (r: i64)
    ensures
        r == chosen_epoch(in_zone, hour_later_in_zone, local, naive),
{
    match in_zone {
        Some(t) => t,
        None => match hour_later_in_zone {
            Some(t) => t,
            None => match local {
                Some(t) => t,
                None => naive,
            },
        },
    }
}

/// What the zone `zone` gives for a reading; nothing where no zone is known.
pub open spec fn known_zone_epoch(zone: Option<Seq<char>>, naive: i64) -> Option<i64> {
    match zone {
        Some(z) => zone_epoch(z, naive),
        None => None,
    }
}

/// The true time of a reading in the time zone `zone`, before the skew.
pub fn epoch_in_zone(zone: &Option<String>, naive: i64) -> (r: i64)
    requires
        is_reading(naive),
    ensures
        exists|local: Option<i64>| #[trigger]
            chosen_epoch(
                known_zone_epoch(text::opt_view(*zone), naive),
                known_zone_epoch(text::opt_view(*zone), (naive + 3600) as i64),
                local,
                naive,
            ) == r,
        known_zone_epoch(text::opt_view(*zone), naive) is Some ==> r == known_zone_epoch(
            text::opt_view(*zone),
            naive,
        )->0,
        -90000 < r - naive < 90000,
{
    let (in_zone, later): (Option<i64>, Option<i64>) = match zone {
        Some(z) => (
            earliest_in_zone(z.as_str(), naive),
            earliest_in_zone(z.as_str(), naive + 3600),
        ),
        None => (None, None),
    };
    let local = earliest_local(naive);
    let r: i64 = choose_epoch(in_zone, later, local, naive);
    proof {
        assert(chosen_epoch(
            known_zone_epoch(text::opt_view(*zone), naive),
            known_zone_epoch(text::opt_view(*zone), (naive + 3600) as i64),
            local,
            naive,
        ) == r);
    }
    r
}

/// The true time of a reading by a zone, or by the platform where the zone gives
/// none, plus the measured server skew.
pub open spec fn skewed_epoch(
    zone: Option<Seq<char>>,
    local: Option<i64>,
    naive: i64,
    skew_secs: i64,
) -> int {
    chosen_epoch(
        known_zone_epoch(zone, naive),
        known_zone_epoch(zone, (naive + 3600) as i64),
        local,
        naive,
    ) + skew_secs
}

/// Convert a naive local reading from the EQ log into a true unix epoch
/// (seconds), applying the per-date rules of the system's time zone plus the
/// measured server skew.
pub fn naive_log_time_to_epoch(naive: i64, skew_secs: i64) -> (r: i64)
    requires
        is_reading(naive),
        i64::MIN + 90000 <= naive + skew_secs <= i64::MAX - 90000,
    ensures
        exists|zone: Option<Seq<char>>, local: Option<i64>| #[trigger]
            skewed_epoch(zone, local, naive, skew_secs) == r,
        -90000 < r - skew_secs - naive < 90000,
{
    let zone = system_zone();
    let base: i64 = epoch_in_zone(&zone, naive);
    proof {
        let z = text::opt_view(zone);
        let local = choose|local: Option<i64>| #[trigger]
            chosen_epoch(
                known_zone_epoch(z, naive),
                known_zone_epoch(z, (naive + 3600) as i64),
                local,
                naive,
            ) == base;
        assert(skewed_epoch(z, local, naive, skew_secs) == base + skew_secs);
    }
    base + skew_secs
}

/// Current UTC offset of the system timezone in seconds (local = UTC + offset).
/// Reported to the server so it can label sessions with the streamer's
/// calendar dates.
pub fn local_utc_offset_secs() -> (r: i64)
    ensures
        -86400 < r < 86400,
{
    current_offset() as i64
}

/// Where the zone gives one instant for a reading, the true time is that
/// instant; where it skips the reading, it is the instant of the same reading
/// an hour later.
pub proof fn gap_shifts_an_hour(
    in_zone: Option<i64>,
    later: Option<i64>,
    local: Option<i64>,
    naive: i64,
)
    ensures
        in_zone is Some ==> chosen_epoch(in_zone, later, local, naive) == in_zone->0,
        in_zone is None && later is Some ==> chosen_epoch(in_zone, later, local, naive)
            == later->0,
{
}

/// In one zone, the skew shifts the true time of a reading by itself.
pub proof fn skew_shifts_by_itself(
    zone: Option<Seq<char>>,
    local: Option<i64>,
    naive: i64,
    s: i64,
    t: i64,
)
    ensures
        skewed_epoch(zone, local, naive, t) - skewed_epoch(zone, local, naive, s) == t - s,
{
}

/// Where the zone says nothing of a reading the system's own zone counts, and where
/// that says nothing either, the reading is taken as Universal Time.
pub proof fn unknown_zones_fall_back(local: Option<i64>, naive: i64)
    ensures
        local is Some ==> chosen_epoch(None, None, local, naive) == local->0,
        chosen_epoch(None, None, None, naive) == naive,
        skewed_epoch(None, local, naive, 0) == chosen_epoch(None, None, local, naive),
{
}

} // verus!
