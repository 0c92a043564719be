//! Data model: raw reports and the derived per-day rollup rows.

use vstd::prelude::*;

verus! {

/// Identifies one of the numeric counters that a report may carry and that
/// the daily rollups sum across deduplicated reports.
#[derive(Clone, Copy, PartialEq, Eq, Debug)]
pub enum CounterId {
    TotalUsers,
    TotalNonbridgedUsers,
    TotalRoomCount,
    DailyActiveUsers,
    DailyActiveRooms,
    DailyMessages,
    DailySentMessages,
    DailyActiveE2eeRooms,
    DailyE2eeMessages,
    DailySentE2eeMessages,
    MonthlyActiveUsers,
    R30UsersAll,
    R30UsersAndroid,
    R30UsersIos,
    R30UsersElectron,
    R30UsersWeb,
    R30v2UsersAll,
    R30v2UsersAndroid,
    R30v2UsersIos,
    R30v2UsersElectron,
    R30v2UsersWeb,
    DailyUserTypeNative,
    DailyUserTypeBridged,
    DailyUserTypeGuest,
}

/// One usage report as received from a homeserver. A row is immutable once
/// stored; every numeric counter is optional because client versions vary.
#[derive(Clone, Debug, PartialEq)]
pub struct Report {
    /// Opaque tenant/instance identifier; malformed clients may omit it.
    pub homeserver: Option<String>,
    /// Receipt time in seconds since the Unix epoch, assigned by the ingest
    /// boundary; once set it is never changed.
    pub local_timestamp: u64,
    /// Client-reported submission time; may differ from `local_timestamp`.
    pub remote_timestamp: Option<i64>,
    /// Transport address of the submitting client.
    pub remote_addr: Option<String>,
    /// Forwarded-for header value, when present.
    pub forwarded_for: Option<String>,
    /// User-agent header value, when present.
    pub user_agent: Option<String>,
    /// Optional tenant-grouping label; reports without it are excluded from
    /// the per-context rollups.
    pub server_context: Option<String>,
    pub uptime_seconds: Option<i64>,
    pub cpu_average: Option<i64>,
    pub memory_rss: Option<i64>,
    pub event_cache_size: Option<i64>,
    pub total_users: Option<i64>,
    pub total_nonbridged_users: Option<i64>,
    pub total_room_count: Option<i64>,
    pub daily_active_users: Option<i64>,
    pub daily_active_rooms: Option<i64>,
    pub daily_messages: Option<i64>,
    pub daily_sent_messages: Option<i64>,
    pub daily_active_e2ee_rooms: Option<i64>,
    pub daily_e2ee_messages: Option<i64>,
    pub daily_sent_e2ee_messages: Option<i64>,
    pub monthly_active_users: Option<i64>,
    pub r30_users_all: Option<i64>,
    pub r30_users_android: Option<i64>,
    pub r30_users_ios: Option<i64>,
    pub r30_users_electron: Option<i64>,
    pub r30_users_web: Option<i64>,
    pub r30v2_users_all: Option<i64>,
    pub r30v2_users_android: Option<i64>,
    pub r30v2_users_ios: Option<i64>,
    pub r30v2_users_electron: Option<i64>,
    pub r30v2_users_web: Option<i64>,
    pub daily_user_type_native: Option<i64>,
    pub daily_user_type_bridged: Option<i64>,
    pub daily_user_type_guest: Option<i64>,
    pub python_version: Option<String>,
    pub database_engine: Option<String>,
    pub database_server_version: Option<String>,
    pub log_level: Option<String>,
}

/// The counter of `r` selected by `id`.
pub open spec fn counter_of(r: Report, id: CounterId) -> Option<i64> {
    match id {
        CounterId::TotalUsers => r.total_users,
        CounterId::TotalNonbridgedUsers => r.total_nonbridged_users,
        CounterId::TotalRoomCount => r.total_room_count,
        CounterId::DailyActiveUsers => r.daily_active_users,
        CounterId::DailyActiveRooms => r.daily_active_rooms,
        CounterId::DailyMessages => r.daily_messages,
        CounterId::DailySentMessages => r.daily_sent_messages,
        CounterId::DailyActiveE2eeRooms => r.daily_active_e2ee_rooms,
        CounterId::DailyE2eeMessages => r.daily_e2ee_messages,
        CounterId::DailySentE2eeMessages => r.daily_sent_e2ee_messages,
        CounterId::MonthlyActiveUsers => r.monthly_active_users,
        CounterId::R30UsersAll => r.r30_users_all,
        CounterId::R30UsersAndroid => r.r30_users_android,
        CounterId::R30UsersIos => r.r30_users_ios,
        CounterId::R30UsersElectron => r.r30_users_electron,
        CounterId::R30UsersWeb => r.r30_users_web,
        CounterId::R30v2UsersAll => r.r30v2_users_all,
        CounterId::R30v2UsersAndroid => r.r30v2_users_android,
        CounterId::R30v2UsersIos => r.r30v2_users_ios,
        CounterId::R30v2UsersElectron => r.r30v2_users_electron,
        CounterId::R30v2UsersWeb => r.r30v2_users_web,
        CounterId::DailyUserTypeNative => r.daily_user_type_native,
        CounterId::DailyUserTypeBridged => r.daily_user_type_bridged,
        CounterId::DailyUserTypeGuest => r.daily_user_type_guest,
    }
}

impl Report {
    /// A report with the given receipt timestamp and every optional field
    /// absent.
    pub fn new(local_timestamp: u64) -> (r: Report)
        ensures
            r == empty_report(local_timestamp),
    {
        Report {
            homeserver: None,
            local_timestamp,
            remote_timestamp: None,
            remote_addr: None,
            forwarded_for: None,
            user_agent: None,
            server_context: None,
            uptime_seconds: None,
            cpu_average: None,
            memory_rss: None,
            event_cache_size: None,
            total_users: None,
            total_nonbridged_users: None,
            total_room_count: None,
            daily_active_users: None,
            daily_active_rooms: None,
            daily_messages: None,
            daily_sent_messages: None,
            daily_active_e2ee_rooms: None,
            daily_e2ee_messages: None,
            daily_sent_e2ee_messages: None,
            monthly_active_users: None,
            r30_users_all: None,
            r30_users_android: None,
            r30_users_ios: None,
            r30_users_electron: None,
            r30_users_web: None,
            r30v2_users_all: None,
            r30v2_users_android: None,
            r30v2_users_ios: None,
            r30v2_users_electron: None,
            r30v2_users_web: None,
            daily_user_type_native: None,
            daily_user_type_bridged: None,
            daily_user_type_guest: None,
            python_version: None,
            database_engine: None,
            database_server_version: None,
            log_level: None,
        }
    }

    /// The counter selected by `id`, as `counter_of` describes.
    pub fn counter(&self, id: CounterId) -> (c: Option<i64>)
        ensures
            c == counter_of(*self, id),
    {
        match id {
            CounterId::TotalUsers => self.total_users,
            CounterId::TotalNonbridgedUsers => self.total_nonbridged_users,
            CounterId::TotalRoomCount => self.total_room_count,
            CounterId::DailyActiveUsers => self.daily_active_users,
            CounterId::DailyActiveRooms => self.daily_active_rooms,
            CounterId::DailyMessages => self.daily_messages,
            CounterId::DailySentMessages => self.daily_sent_messages,
            CounterId::DailyActiveE2eeRooms => self.daily_active_e2ee_rooms,
            CounterId::DailyE2eeMessages => self.daily_e2ee_messages,
            CounterId::DailySentE2eeMessages => self.daily_sent_e2ee_messages,
            CounterId::MonthlyActiveUsers => self.monthly_active_users,
            CounterId::R30UsersAll => self.r30_users_all,
            CounterId::R30UsersAndroid => self.r30_users_android,
            CounterId::R30UsersIos => self.r30_users_ios,
            CounterId::R30UsersElectron => self.r30_users_electron,
            CounterId::R30UsersWeb => self.r30_users_web,
            CounterId::R30v2UsersAll => self.r30v2_users_all,
            CounterId::R30v2UsersAndroid => self.r30v2_users_android,
            CounterId::R30v2UsersIos => self.r30v2_users_ios,
            CounterId::R30v2UsersElectron => self.r30v2_users_electron,
            CounterId::R30v2UsersWeb => self.r30v2_users_web,
            CounterId::DailyUserTypeNative => self.daily_user_type_native,
            CounterId::DailyUserTypeBridged => self.daily_user_type_bridged,
            CounterId::DailyUserTypeGuest => self.daily_user_type_guest,
        }
    }
}

/// The report that `Report::new` returns.
pub open spec fn empty_report(local_timestamp: u64) -> Report {
    Report {
        homeserver: None,
        local_timestamp,
        remote_timestamp: None,
        remote_addr: None,
        forwarded_for: None,
        user_agent: None,
        server_context: None,
        uptime_seconds: None,
        cpu_average: None,
        memory_rss: None,
        event_cache_size: None,
        total_users: None,
        total_nonbridged_users: None,
        total_room_count: None,
        daily_active_users: None,
        daily_active_rooms: None,
        daily_messages: None,
        daily_sent_messages: None,
        daily_active_e2ee_rooms: None,
        daily_e2ee_messages: None,
        daily_sent_e2ee_messages: None,
        monthly_active_users: None,
        r30_users_all: None,
        r30_users_android: None,
        r30_users_ios: None,
        r30_users_electron: None,
        r30_users_web: None,
        r30v2_users_all: None,
        r30v2_users_android: None,
        r30v2_users_ios: None,
        r30v2_users_electron: None,
        r30v2_users_web: None,
        daily_user_type_native: None,
        daily_user_type_bridged: None,
        daily_user_type_guest: None,
        python_version: None,
        database_engine: None,
        database_server_version: None,
        log_level: None,
    }
}

/// The sums of all numeric counters across the deduplicated reports of one
/// day (for one context, in the per-context rollup). A field is `None` when
/// every contributing report omitted that counter, mirroring a sum that
/// skips absent values and is absent when nothing contributed.
#[derive(Clone, Copy, Debug, PartialEq)]
pub struct CounterSums {
    pub total_users: Option<i64>,
    pub total_nonbridged_users: Option<i64>,
    pub total_room_count: Option<i64>,
    pub daily_active_users: Option<i64>,
    pub daily_active_rooms: Option<i64>,
    pub daily_messages: Option<i64>,
    pub daily_sent_messages: Option<i64>,
    pub daily_active_e2ee_rooms: Option<i64>,
    pub daily_e2ee_messages: Option<i64>,
    pub daily_sent_e2ee_messages: Option<i64>,
    pub monthly_active_users: Option<i64>,
    pub r30_users_all: Option<i64>,
    pub r30_users_android: Option<i64>,
    pub r30_users_ios: Option<i64>,
    pub r30_users_electron: Option<i64>,
    pub r30_users_web: Option<i64>,
    pub r30v2_users_all: Option<i64>,
    pub r30v2_users_android: Option<i64>,
    pub r30v2_users_ios: Option<i64>,
    pub r30v2_users_electron: Option<i64>,
    pub r30v2_users_web: Option<i64>,
    pub daily_user_type_native: Option<i64>,
    pub daily_user_type_bridged: Option<i64>,
    pub daily_user_type_guest: Option<i64>,
}

/// The sum stored in `cs` for the counter selected by `id`.
pub open spec fn sum_of(cs: CounterSums, id: CounterId) -> Option<i64> {
    match id {
        CounterId::TotalUsers => cs.total_users,
        CounterId::TotalNonbridgedUsers => cs.total_nonbridged_users,
        CounterId::TotalRoomCount => cs.total_room_count,
        CounterId::DailyActiveUsers => cs.daily_active_users,
        CounterId::DailyActiveRooms => cs.daily_active_rooms,
        CounterId::DailyMessages => cs.daily_messages,
        CounterId::DailySentMessages => cs.daily_sent_messages,
        CounterId::DailyActiveE2eeRooms => cs.daily_active_e2ee_rooms,
        CounterId::DailyE2eeMessages => cs.daily_e2ee_messages,
        CounterId::DailySentE2eeMessages => cs.daily_sent_e2ee_messages,
        CounterId::MonthlyActiveUsers => cs.monthly_active_users,
        CounterId::R30UsersAll => cs.r30_users_all,
        CounterId::R30UsersAndroid => cs.r30_users_android,
        CounterId::R30UsersIos => cs.r30_users_ios,
        CounterId::R30UsersElectron => cs.r30_users_electron,
        CounterId::R30UsersWeb => cs.r30_users_web,
        CounterId::R30v2UsersAll => cs.r30v2_users_all,
        CounterId::R30v2UsersAndroid => cs.r30v2_users_android,
        CounterId::R30v2UsersIos => cs.r30v2_users_ios,
        CounterId::R30v2UsersElectron => cs.r30v2_users_electron,
        CounterId::R30v2UsersWeb => cs.r30v2_users_web,
        CounterId::DailyUserTypeNative => cs.daily_user_type_native,
        CounterId::DailyUserTypeBridged => cs.daily_user_type_bridged,
        CounterId::DailyUserTypeGuest => cs.daily_user_type_guest,
    }
}

/// One globally derived rollup row: the deduplicated per-day sums, the count
/// of distinct contributing homeservers, and the running cumulative message
/// totals over all days up to and including `day`.
#[derive(Clone, Copy, Debug, PartialEq)]
pub struct AggregatedStats {
    /// Day number: days since the Unix epoch, in UTC. Unique key.
    pub day: u64,
    pub sums: CounterSums,
    /// Count of distinct homeservers contributing to this day.
    pub daily_active_homeservers: u64,
    /// Running sum of `daily_messages` over all days up to `day`.
    pub total_messages: Option<i64>,
    /// Running sum of `daily_e2ee_messages` over all days up to `day`.
    pub total_e2ee_messages: Option<i64>,
}

/// One per-context rollup row, keyed by `(day, server_context)`; the same
/// shape as `AggregatedStats`, scoped to reports carrying this context, with
/// the cumulative totals partitioned per context.
#[derive(Clone, Debug, PartialEq)]
pub struct AggregatedStatsByContext {
    /// Day number: days since the Unix epoch, in UTC.
    pub day: u64,
    /// The tenant-grouping label. Part of the key.
    pub server_context: String,
    pub sums: CounterSums,
    pub daily_active_homeservers: u64,
    pub total_messages: Option<i64>,
    pub total_e2ee_messages: Option<i64>,
}

impl AggregatedStatsByContext {
    /// A field-for-field copy; rows handed out by the reader are copies of
    /// the stored ones.
    pub fn duplicate(&self) -> (r: AggregatedStatsByContext)
        ensures
            r == *self,
    {
        AggregatedStatsByContext {
            day: self.day,
            server_context: self.server_context.clone(),
            sums: self.sums,
            daily_active_homeservers: self.daily_active_homeservers,
            total_messages: self.total_messages,
            total_e2ee_messages: self.total_e2ee_messages,
        }
    }
}

} // verus!
