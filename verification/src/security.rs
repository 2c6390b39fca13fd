//! Security bookkeeping: the audit trail, anomaly detection and
//! session-activity tracking.
//!
//! Time comes in as explicit millisecond readings (the `*_at` forms);
//! the convenience forms read the system clock through the trusted
//! wrapper and state what holds for every reading.  Record identifiers
//! come from the UUID wrapper, so contracts speak of the rest of the
//! record and of order, never of the drawn id.

use vstd::prelude::*;

use crate::crypto::CryptoService;
use crate::errors::AppError;
use crate::outside::{new_uuid_string, now_millis};
use crate::strutil::str_eq;
use vstd::string::StringExecFns;

verus! {

/// The operations the audit trail distinguishes.
#[derive(Clone, Copy, Debug, PartialEq, Eq, Structural)]
pub enum AuditAction {
    Login,
    Logout,
    ViewPatient,
    UpdatePatient,
    SendMessage,
    UploadFile,
    DownloadFile,
    AccessSensitiveData,
    ChangeSettings,
    DeleteData,
}

pub open spec fn spec_audit_action_str(a: AuditAction) -> Seq<char> {
    match a {
        AuditAction::Login => "login"@,
        AuditAction::Logout => "logout"@,
        AuditAction::ViewPatient => "view_patient"@,
        AuditAction::UpdatePatient => "update_patient"@,
        AuditAction::SendMessage => "send_message"@,
        AuditAction::UploadFile => "upload_file"@,
        AuditAction::DownloadFile => "download_file"@,
        AuditAction::AccessSensitiveData => "access_sensitive_data"@,
        AuditAction::ChangeSettings => "change_settings"@,
        AuditAction::DeleteData => "delete_data"@,
    }
}

impl AuditAction {
    pub fn as_str(&self) -> (r: &'static str)
        ensures
            r@ == spec_audit_action_str(*self),
    {
        match self {
            AuditAction::Login => "login",
            AuditAction::Logout => "logout",
            AuditAction::ViewPatient => "view_patient",
            AuditAction::UpdatePatient => "update_patient",
            AuditAction::SendMessage => "send_message",
            AuditAction::UploadFile => "upload_file",
            AuditAction::DownloadFile => "download_file",
            AuditAction::AccessSensitiveData => "access_sensitive_data",
            AuditAction::ChangeSettings => "change_settings",
            AuditAction::DeleteData => "delete_data",
        }
    }
}

/// Reads an action name, ASCII case-insensitively, back into its
/// action; unknown names are reported with the text they carried.
pub fn parse_audit_action(action_str: &str) -> (r: Result<AuditAction, String>)
    ensures
        match r {
            Ok(a) => crate::files::ascii_lower(action_str@) == spec_audit_action_str(a),
            Err(_) => forall|a: AuditAction|
                crate::files::ascii_lower(action_str@) != spec_audit_action_str(a),
        },
{
    let cs = crate::strutil::chars_vec(action_str);
    let n = cs.len();
    let mut low = String::new();
    let mut i: usize = 0;
    while i < n
        invariant
            cs@ == action_str@,
            n == cs@.len(),
            0 <= i <= n,
            low@ == crate::files::ascii_lower(cs@.take(i as int)),
        decreases n - i,
    {
        let c = cs[i];
        let lc: char = if 'A' <= c && c <= 'Z' {
            (((c as u32) + 32) as u8) as char
        } else {
            c
        };
        low.push(lc);
        proof {
            assert(cs@.take(i + 1) =~= cs@.take(i as int).push(cs@[i as int]));
            assert(low@ =~= crate::files::ascii_lower(cs@.take(i + 1)));
        }
        i = i + 1;
    }
    proof {
        assert(cs@.take(n as int) =~= cs@);
    }
    if str_eq(low.as_str(), "login") {
        Ok(AuditAction::Login)
    } else if str_eq(low.as_str(), "logout") {
        Ok(AuditAction::Logout)
    } else if str_eq(low.as_str(), "view_patient") {
        Ok(AuditAction::ViewPatient)
    } else if str_eq(low.as_str(), "update_patient") {
        Ok(AuditAction::UpdatePatient)
    } else if str_eq(low.as_str(), "send_message") {
        Ok(AuditAction::SendMessage)
    } else if str_eq(low.as_str(), "upload_file") {
        Ok(AuditAction::UploadFile)
    } else if str_eq(low.as_str(), "download_file") {
        Ok(AuditAction::DownloadFile)
    } else if str_eq(low.as_str(), "access_sensitive_data") {
        Ok(AuditAction::AccessSensitiveData)
    } else if str_eq(low.as_str(), "change_settings") {
        Ok(AuditAction::ChangeSettings)
    } else if str_eq(low.as_str(), "delete_data") {
        Ok(AuditAction::DeleteData)
    } else {
        proof {
            assert forall|a: AuditAction| low@ != spec_audit_action_str(a) by {
                match a {
                    AuditAction::Login => {},
                    AuditAction::Logout => {},
                    AuditAction::ViewPatient => {},
                    AuditAction::UpdatePatient => {},
                    AuditAction::SendMessage => {},
                    AuditAction::UploadFile => {},
                    AuditAction::DownloadFile => {},
                    AuditAction::AccessSensitiveData => {},
                    AuditAction::ChangeSettings => {},
                    AuditAction::DeleteData => {},
                }
            }
        }
        let mut m = String::from_str("Unknown audit action: ");
        m.append(action_str);
        Err(m)
    }
}

/// Same audit action, disregarding nothing — actions carry no data.
pub fn matches_action(a: &AuditAction, b: &AuditAction) -> (r: bool)
    ensures
        r == (a == b),
{
    *a == *b
}

/// The kinds of suspicious access the service flags.
#[derive(Clone, Copy, Debug, PartialEq, Eq, Structural)]
pub enum AnomalyType {
    MultipleFailedLogins,
    UnusualAccessPattern,
    SuspiciousFileAccess,
    RapidDataAccess,
    UnauthorizedAccess,
}

/// One audit-trail record.
#[derive(Debug)]
pub struct AuditLog {
    pub id: String,
    pub user_id: String,
    pub action: AuditAction,
    pub resource_type: Option<String>,
    pub resource_id: Option<String>,
    pub ip_address: Option<String>,
    pub user_agent: Option<String>,
    pub status: String,
    pub error_message: Option<String>,
    pub metadata: Vec<(String, String)>,
    pub timestamp: i64,
}

/// One flagged anomaly.
#[derive(Debug)]
pub struct AnomalyRecord {
    pub id: String,
    pub user_id: String,
    pub anomaly_type: AnomalyType,
    pub severity: String,
    pub description: String,
    pub detected_at: i64,
    pub resolved: bool,
}

/// What the service tracks about one user's session.
#[derive(Debug)]
pub struct SessionActivity {
    pub last_activity: i64,
    pub failed_login_attempts: u32,
    pub access_count: u32,
    pub last_access_times: Vec<i64>,
}

/// Request shape for recording an audit entry.
#[derive(Debug)]
pub struct LogAuditRequest {
    pub user_id: String,
    pub action: String,
    pub resource_type: Option<String>,
    pub resource_id: Option<String>,
    pub status: String,
    pub error_message: Option<String>,
    pub metadata: Vec<(String, String)>,
}

/// Request shape for querying the audit trail.
#[derive(Debug)]
pub struct GetAuditLogsRequest {
    pub user_id: Option<String>,
    pub action: Option<String>,
    pub start_time: Option<String>,
    pub end_time: Option<String>,
    pub limit: usize,
}

/// The user names under which session activity is tracked.
pub open spec fn activity_users(v: Seq<(String, SessionActivity)>) -> Seq<Seq<char>> {
    v.map_values(|p: (String, SessionActivity)| p.0@)
}

/// Whether a log record passes the audit-trail query filters.
pub open spec fn log_matches(
    log: AuditLog,
    user_id: Option<Seq<char>>,
    action: Option<AuditAction>,
    start_time: Option<i64>,
    end_time: Option<i64>,
) -> bool {
    &&& (user_id matches Some(u) ==> log.user_id@ == u)
    &&& (action matches Some(a) ==> log.action == a)
    &&& (start_time matches Some(s) ==> log.timestamp >= s)
    &&& (end_time matches Some(e) ==> log.timestamp <= e)
}

/// How many records of `logs` pass the filters.
pub open spec fn count_matching(
    logs: Seq<AuditLog>,
    user_id: Option<Seq<char>>,
    action: Option<AuditAction>,
    start_time: Option<i64>,
    end_time: Option<i64>,
) -> nat
    decreases logs.len(),
{
    if logs.len() == 0 {
        0
    } else {
        count_matching(logs.drop_last(), user_id, action, start_time, end_time) + (if log_matches(
            logs.last(),
            user_id,
            action,
            start_time,
            end_time,
        ) {
            1nat
        } else {
            0nat
        })
    }
}

/// How many anomaly records pass the filters.
pub open spec fn count_anomalies(
    records: Seq<AnomalyRecord>,
    user_id: Option<Seq<char>>,
    resolved: Option<bool>,
) -> nat
    decreases records.len(),
{
    if records.len() == 0 {
        0
    } else {
        count_anomalies(records.drop_last(), user_id, resolved) + (if (match user_id {
            Some(u) => records.last().user_id@ == u,
            None => true,
        }) && (match resolved {
            Some(b) => records.last().resolved == b,
            None => true,
        }) {
            1nat
        } else {
            0nat
        })
    }
}

/// How many access times fall strictly after `cutoff`.
pub open spec fn count_recent(times: Seq<i64>, cutoff: int) -> nat
    decreases times.len(),
{
    if times.len() == 0 {
        0
    } else {
        count_recent(times.drop_last(), cutoff) + (if times.last() > cutoff {
            1nat
        } else {
            0nat
        })
    }
}

/// The view of an optional borrowed name.
pub open spec fn opt_view(o: Option<&str>) -> Option<Seq<char>> {
    match o {
        Some(u) => Some(u@),
        None => None,
    }
}

/// `log` occurs somewhere in `pool`.
pub open spec fn is_log_of(pool: Seq<AuditLog>, log: AuditLog) -> bool {
    exists|b: int| 0 <= b < pool.len() && pool[b] == log
}

/// `rec` occurs somewhere in `pool`.
pub open spec fn is_anomaly_of(pool: Seq<AnomalyRecord>, rec: AnomalyRecord) -> bool {
    exists|b: int| 0 <= b < pool.len() && pool[b] == rec
}

/// In-memory security service: audit trail, anomaly records and
/// session activity, with an auto-lock timeout in seconds.
pub struct SecurityService {
    crypto: CryptoService,
    audit_logs: Vec<AuditLog>,
    anomaly_records: Vec<AnomalyRecord>,
    session_activities: Vec<(String, SessionActivity)>,
    auto_lock_timeout: u64,
}

impl SecurityService {
    pub closed spec fn logs(&self) -> Seq<AuditLog> {
        self.audit_logs@
    }

    pub closed spec fn anomalies(&self) -> Seq<AnomalyRecord> {
        self.anomaly_records@
    }

    pub closed spec fn activities(&self) -> Seq<(String, SessionActivity)> {
        self.session_activities@
    }

    /// The auto-lock timeout in seconds.
    pub closed spec fn lock_timeout_s(&self) -> u64 {
        self.auto_lock_timeout
    }

    /// One activity record per user.
    pub open spec fn wf(&self) -> bool {
        crate::channel::unique_views(activity_users(self.activities()))
    }

    pub fn new(auto_lock_timeout: u64) -> (r: SecurityService)
        ensures
            r.wf(),
            r.logs() == Seq::<AuditLog>::empty(),
            r.anomalies() == Seq::<AnomalyRecord>::empty(),
            r.activities() == Seq::<(String, SessionActivity)>::empty(),
            r.lock_timeout_s() == auto_lock_timeout,
    {
        let r = SecurityService {
            crypto: CryptoService::new(),
            audit_logs: Vec::new(),
            anomaly_records: Vec::new(),
            session_activities: Vec::new(),
            auto_lock_timeout,
        };
        proof {
            assert(activity_users(r.activities()) =~= Seq::<Seq<char>>::empty());
        }
        r
    }

    /// Encrypts a sensitive field through the cipher service.
    pub fn encrypt_sensitive_data(&self, data: &str) -> (r: Result<String, AppError>) {
        self.crypto.encrypt_string(data)
    }

    /// Decrypts a sensitive field through the cipher service.
    pub fn decrypt_sensitive_data(&self, encrypted_data: &str) -> (r: Result<String, AppError>) {
        self.crypto.decrypt_string(encrypted_data)
    }

    /// Finds a user's activity record.
    fn find_activity(&self, user_id: &str) -> (r: Option<usize>)
        ensures
            match crate::strutil::spec_index_of(activity_users(self.activities()), user_id@) {
                Some(k) => r matches Some(ri) && ri as nat == k && k < self.activities().len(),
                None => r is None,
            },
    {
        let n = self.session_activities.len();
        let mut i: usize = 0;
        while i < n
            invariant
                n == self.session_activities@.len(),
                0 <= i <= n,
                forall|j: int|
                    0 <= j < i ==> #[trigger] activity_users(self.session_activities@)[j]
                        != user_id@,
            decreases n - i,
        {
            if str_eq(self.session_activities[i].0.as_str(), user_id) {
                proof {
                    assert(activity_users(self.session_activities@)[i as int] == user_id@);
                    crate::strutil::lemma_index_of_skip(
                        activity_users(self.session_activities@),
                        user_id@,
                        i as int,
                    );
                    assert(activity_users(self.session_activities@).skip(i as int)[0]
                        == activity_users(self.session_activities@)[i as int]);
                }
                return Some(i);
            }
            proof {
                assert(activity_users(self.session_activities@)[i as int] != user_id@);
            }
            i = i + 1;
        }
        proof {
            crate::strutil::lemma_index_of_skip(
                activity_users(self.session_activities@),
                user_id@,
                n as int,
            );
            assert(activity_users(self.session_activities@).skip(n as int)
                =~= Seq::<Seq<char>>::empty());
        }
        None
    }

    /// Counts a fresh access for the user at the given instant: a new
    /// record starts at one access, an existing one moves its clock
    /// forward and grows by one access time (trimmed to the recent
    /// hundred).
    fn update_session_activity_at(&mut self, user_id: &str, now_ms: i64)
        requires
            old(self).wf(),
        ensures
            final(self).wf(),
            final(self).logs() == old(self).logs(),
            final(self).anomalies() == old(self).anomalies(),
            final(self).lock_timeout_s() == old(self).lock_timeout_s(),
            match crate::strutil::spec_index_of(
                activity_users(old(self).activities()),
                user_id@,
            ) {
                Some(k) => final(self).activities().len() == old(self).activities().len() && final(self).activities()[k as int].1.last_activity == now_ms && final(self).activities()[k as int].1.failed_login_attempts == old(
                    self,
                ).activities()[k as int].1.failed_login_attempts && (forall|j: int|
                    0 <= j < old(self).activities().len() && j != k ==> final(self).activities()[j]
                        == #[trigger] old(self).activities()[j]),
                None => final(self).activities().len() == old(self).activities().len() + 1
                    && final(self).activities().last().0@ == user_id@ && final(self).activities().last().1.last_activity == now_ms && final(self).activities().last().1.access_count == 1,
            },
    {
        match self.find_activity(user_id) {
            Some(k) => {
                let (key, mut act) = self.session_activities.remove(k);
                act.last_activity = now_ms;
                if act.access_count < 0xFFFF_FFFF {
                    act.access_count = act.access_count + 1;
                }
                act.last_access_times.push(now_ms);
                if act.last_access_times.len() > 100 {
                    // keep only the most recent half
                    let total = act.last_access_times.len();
                    let mut recent: Vec<i64> = Vec::new();
                    let mut i: usize = 50;
                    while i < total
                        invariant
                            total == act.last_access_times@.len(),
                            50 <= i <= total,
                        decreases total - i,
                    {
                        recent.push(act.last_access_times[i]);
                        i = i + 1;
                    }
                    act.last_access_times = recent;
                }
                self.session_activities.insert(k, (key, act));
                proof {
                    assert(activity_users(self.session_activities@) =~= activity_users(
                        old(self).activities(),
                    ));
                }
            },
            None => {
                proof {
                    crate::strutil::lemma_index_of_props(
                        activity_users(self.session_activities@),
                        user_id@,
                    );
                }
                let mut times: Vec<i64> = Vec::new();
                times.push(now_ms);
                let act = SessionActivity {
                    last_activity: now_ms,
                    failed_login_attempts: 0,
                    access_count: 1,
                    last_access_times: times,
                };
                self.session_activities.push((String::from_str(user_id), act));
                proof {
                    assert(activity_users(self.session_activities@) =~= activity_users(
                        old(self).activities(),
                    ).push(user_id@));
                    assert forall|a: int, b: int|
                        0 <= a < b < activity_users(self.session_activities@).len() implies (
                    #[trigger] activity_users(self.session_activities@)[a]) != (
                    #[trigger] activity_users(self.session_activities@)[b]) by {
                        if b < old(self).activities().len() {
                            assert(activity_users(old(self).activities())[a] != activity_users(
                                old(self).activities(),
                            )[b]);
                        } else {
                            assert(activity_users(self.session_activities@)[b] == user_id@);
                            assert(activity_users(old(self).activities())[a] != user_id@);
                        }
                    }
                }
            },
        }
    }

    /// Appends one audit record at the given instant and counts the
    /// access; returns the fresh record's identifier.
    pub fn log_audit_at(
        &mut self,
        user_id: String,
        action: AuditAction,
        resource_type: Option<String>,
        resource_id: Option<String>,
        status: String,
        error_message: Option<String>,
        metadata: Vec<(String, String)>,
        now_ms: i64,
    ) -> (r: Result<String, AppError>)
        requires
            old(self).wf(),
        ensures
            final(self).wf(),
            r is Ok,
            final(self).logs().len() == old(self).logs().len() + 1,
            forall|j: int|
                0 <= j < old(self).logs().len() ==> final(self).logs()[j] == #[trigger] old(self).logs()[j],
            final(self).logs().last().user_id@ == user_id@,
            final(self).logs().last().action == action,
            final(self).logs().last().status@ == status@,
            final(self).logs().last().timestamp == now_ms,
            final(self).logs().last().id@ == r->Ok_0@,
            final(self).anomalies() == old(self).anomalies(),
            final(self).lock_timeout_s() == old(self).lock_timeout_s(),
            match crate::strutil::spec_index_of(
                activity_users(old(self).activities()),
                user_id@,
            ) {
                Some(k) => final(self).activities().len() == old(self).activities().len() && final(self).activities()[k as int].1.last_activity == now_ms,
                None => final(self).activities().len() == old(self).activities().len() + 1
                    && final(self).activities().last().0@ == user_id@,
            },
    {
        let id = new_uuid_string();
        let rid = id.clone();
        let log = AuditLog {
            id,
            user_id: user_id.clone(),
            action,
            resource_type,
            resource_id,
            ip_address: None,
            user_agent: None,
            status,
            error_message,
            metadata,
            timestamp: now_ms,
        };
        self.audit_logs.push(log);
        self.update_session_activity_at(user_id.as_str(), now_ms);
        Ok(rid)
    }

    /// Appends one audit record against the system clock.
    pub fn log_audit(
        &mut self,
        user_id: String,
        action: AuditAction,
        resource_type: Option<String>,
        resource_id: Option<String>,
        status: String,
        error_message: Option<String>,
        metadata: Vec<(String, String)>,
    ) -> (r: Result<String, AppError>)
        requires
            old(self).wf(),
        ensures
            final(self).wf(),
            r is Ok,
            final(self).logs().len() == old(self).logs().len() + 1,
            forall|j: int|
                0 <= j < old(self).logs().len() ==> final(self).logs()[j] == #[trigger] old(self).logs()[j],
            final(self).logs().last().user_id@ == user_id@,
            final(self).logs().last().action == action,
            final(self).logs().last().status@ == status@,
            final(self).anomalies() == old(self).anomalies(),
            final(self).lock_timeout_s() == old(self).lock_timeout_s(),
    {
        let now = now_millis();
        self.log_audit_at(
            user_id,
            action,
            resource_type,
            resource_id,
            status,
            error_message,
            metadata,
            now,
        )
    }

    /// Notes one failed login for the user at the given instant.  The
    /// per-user counter grows by exactly one (a user never seen before
    /// starts at one).
    pub fn record_failed_login_at(&mut self, user_id: &str, now_ms: i64)
        requires
            old(self).wf(),
        ensures
            final(self).wf(),
            final(self).logs() == old(self).logs(),
            final(self).anomalies() == old(self).anomalies(),
            final(self).lock_timeout_s() == old(self).lock_timeout_s(),
            match crate::strutil::spec_index_of(
                activity_users(old(self).activities()),
                user_id@,
            ) {
                Some(k) => final(self).activities().len() == old(self).activities().len() && (
                old(self).activities()[k as int].1.failed_login_attempts < 0xFFFF_FFFF ==> final(self).activities()[k as int].1.failed_login_attempts == old(self).activities()[k as int].1.failed_login_attempts + 1) && (forall|j: int|
                    0 <= j < old(self).activities().len() && j != k ==> final(self).activities()[j]
                        == #[trigger] old(self).activities()[j]),
                None => final(self).activities().len() == old(self).activities().len() + 1
                    && final(self).activities().last().1.failed_login_attempts == 1 && final(self).activities().last().0@ == user_id@,
            },
    {
        match self.find_activity(user_id) {
            Some(k) => {
                let (key, mut act) = self.session_activities.remove(k);
                if act.failed_login_attempts < 0xFFFF_FFFF {
                    act.failed_login_attempts = act.failed_login_attempts + 1;
                }
                act.last_activity = now_ms;
                self.session_activities.insert(k, (key, act));
                proof {
                    assert(activity_users(self.session_activities@) =~= activity_users(
                        old(self).activities(),
                    ));
                    assert forall|j: int|
                        0 <= j < old(self).activities().len() && j != k implies
                        self.session_activities@[j] == #[trigger] old(self).activities()[j] by {}
                }
            },
            None => {
                proof {
                    crate::strutil::lemma_index_of_props(
                        activity_users(self.session_activities@),
                        user_id@,
                    );
                }
                let act = SessionActivity {
                    last_activity: now_ms,
                    failed_login_attempts: 1,
                    access_count: 0,
                    last_access_times: Vec::new(),
                };
                self.session_activities.push((String::from_str(user_id), act));
                proof {
                    assert(activity_users(self.session_activities@) =~= activity_users(
                        old(self).activities(),
                    ).push(user_id@));
                    assert forall|a: int, b: int|
                        0 <= a < b < activity_users(self.session_activities@).len() implies (
                    #[trigger] activity_users(self.session_activities@)[a]) != (
                    #[trigger] activity_users(self.session_activities@)[b]) by {
                        if b < old(self).activities().len() {
                            assert(activity_users(old(self).activities())[a] != activity_users(
                                old(self).activities(),
                            )[b]);
                        } else {
                            assert(activity_users(self.session_activities@)[b] == user_id@);
                            assert(activity_users(old(self).activities())[a] != user_id@);
                        }
                    }
                }
            },
        }
    }

    /// Notes one failed login against the system clock.
    pub fn record_failed_login(&mut self, user_id: &str)
        requires
            old(self).wf(),
        ensures
            final(self).wf(),
            final(self).logs() == old(self).logs(),
            final(self).anomalies() == old(self).anomalies(),
            final(self).lock_timeout_s() == old(self).lock_timeout_s(),
    {
        let now = now_millis();
        self.record_failed_login_at(user_id, now);
    }

    /// Clears the user's failed-login counter; everything else stays.
    pub fn reset_failed_login(&mut self, user_id: &str)
        requires
            old(self).wf(),
        ensures
            final(self).wf(),
            final(self).logs() == old(self).logs(),
            final(self).anomalies() == old(self).anomalies(),
            final(self).lock_timeout_s() == old(self).lock_timeout_s(),
            match crate::strutil::spec_index_of(
                activity_users(old(self).activities()),
                user_id@,
            ) {
                Some(k) => final(self).activities().len() == old(self).activities().len() && final(self).activities()[k as int].1.failed_login_attempts == 0 && (forall|j: int|
                    0 <= j < old(self).activities().len() && j != k ==> final(self).activities()[j]
                        == #[trigger] old(self).activities()[j]),
                None => final(self).activities() == old(self).activities(),
            },
    {
        match self.find_activity(user_id) {
            Some(k) => {
                let (key, mut act) = self.session_activities.remove(k);
                act.failed_login_attempts = 0;
                self.session_activities.insert(k, (key, act));
                proof {
                    assert(activity_users(self.session_activities@) =~= activity_users(
                        old(self).activities(),
                    ));
                    assert forall|j: int|
                        0 <= j < old(self).activities().len() && j != k implies
                        self.session_activities@[j] == #[trigger] old(self).activities()[j] by {}
                }
            },
            None => {},
        }
    }

    /// Whether the user's session has been idle past the auto-lock
    /// timeout at the given instant; an unknown user is never locked.
    pub fn should_auto_lock_at(&self, user_id: &str, now_ms: i64) -> (r: bool)
        ensures
            match crate::strutil::spec_index_of(activity_users(self.activities()), user_id@) {
                Some(k) => r == (now_ms - self.activities()[k as int].1.last_activity >= 1000 * (
                self.lock_timeout_s() as int)),
                None => r == false,
            },
    {
        match self.find_activity(user_id) {
            Some(k) => {
                let last = self.session_activities[k].1.last_activity;
                let elapsed: i128 = (now_ms as i128) - (last as i128);
                let threshold: i128 = 1000i128 * (self.auto_lock_timeout as i128);
                elapsed >= threshold
            },
            None => false,
        }
    }

    /// Whether the session is idle past the timeout, against the system
    /// clock.
    pub fn should_auto_lock(&self, user_id: &str) -> (r: bool)
        ensures
            crate::strutil::spec_index_of(activity_users(self.activities()), user_id@) is None
                ==> r == false,
    {
        let now = now_millis();
        self.should_auto_lock_at(user_id, now)
    }

    /// The instant of the user's last recorded activity.
    pub fn get_last_activity(&self, user_id: &str) -> (r: Option<i64>)
        ensures
            match crate::strutil::spec_index_of(activity_users(self.activities()), user_id@) {
                Some(k) => r == Some(self.activities()[k as int].1.last_activity),
                None => r is None,
            },
    {
        match self.find_activity(user_id) {
            Some(k) => Some(self.session_activities[k].1.last_activity),
            None => None,
        }
    }

    /// Examines the user's recorded activity at the given instant and
    /// flags anomalies: three or more failed logins (high severity from
    /// five), and more than fifty accesses within the last minute.  The
    /// flagged records are appended to the anomaly list and returned.
    pub fn detect_anomalies_at(&mut self, user_id: &str, now_ms: i64) -> (r: Result<
        Vec<AnomalyRecord>,
        AppError,
    >)
        requires
            old(self).wf(),
        ensures
            final(self).wf(),
            final(self).logs() == old(self).logs(),
            final(self).activities() == old(self).activities(),
            final(self).lock_timeout_s() == old(self).lock_timeout_s(),
            r matches Ok(v) && v@.len() <= 2 && final(self).anomalies().len() == old(
                self,
            ).anomalies().len() + v@.len() && (forall|j: int|
                0 <= j < old(self).anomalies().len() ==> final(self).anomalies()[j]
                    == #[trigger] old(self).anomalies()[j]) && (forall|j: int|
                0 <= j < v@.len() ==> (#[trigger] v@[j]).user_id@ == user_id@ && !v@[j].resolved
                    && v@[j].detected_at == now_ms),
            crate::strutil::spec_index_of(activity_users(old(self).activities()), user_id@)
                is None ==> (r matches Ok(v) && v@.len() == 0),
            crate::strutil::spec_index_of(activity_users(old(self).activities()), user_id@)
                matches Some(k) ==> (r matches Ok(v) && v@.len() == (if old(
                self,
            ).activities()[k as int].1.failed_login_attempts >= 3 {
                1nat
            } else {
                0nat
            }) + (if count_recent(
                old(self).activities()[k as int].1.last_access_times@,
                now_ms - 60000,
            ) > 50 {
                1nat
            } else {
                0nat
            }) && (old(self).activities()[k as int].1.failed_login_attempts >= 3 ==> (
            v@[0].anomaly_type == AnomalyType::MultipleFailedLogins && v@[0].severity@ == (if old(
                self,
            ).activities()[k as int].1.failed_login_attempts >= 5 {
                "high"@
            } else {
                "medium"@
            })))),
    {
        let mut found: Vec<AnomalyRecord> = Vec::new();
        match self.find_activity(user_id) {
            Some(k) => {
                let failed = self.session_activities[k].1.failed_login_attempts;
                if failed >= 3 {
                    let severity = if failed >= 5 {
                        String::from_str("high")
                    } else {
                        String::from_str("medium")
                    };
                    let mut description = String::from_str("检测到 ");
                    crate::numfmt::push_u64(&mut description, failed as u64);
                    description.append(" 次连续登录失败");
                    let rec = AnomalyRecord {
                        id: new_uuid_string(),
                        user_id: String::from_str(user_id),
                        anomaly_type: AnomalyType::MultipleFailedLogins,
                        severity,
                        description,
                        detected_at: now_ms,
                        resolved: false,
                    };
                    found.push(rec);
                }
                // count the accesses within the last minute
                let times = &self.session_activities[k].1.last_access_times;
                let tn = times.len();
                let mut recent: usize = 0;
                let mut i: usize = 0;
                while i < tn
                    invariant
                        tn == times@.len(),
                        0 <= i <= tn,
                        recent <= i,
                        recent == count_recent(times@.take(i as int), now_ms - 60000),
                    decreases tn - i,
                {
                    proof {
                        assert(times@.take(i + 1).drop_last() =~= times@.take(i as int));
                        assert(times@.take(i + 1).last() == times@[i as int]);
                    }
                    let t = times[i];
                    if (t as i128) > (now_ms as i128) - 60000 {
                        recent = recent + 1;
                    }
                    i = i + 1;
                }
                proof {
                    assert(times@.take(tn as int) =~= times@);
                }
                if recent > 50 {
                    let mut description = String::from_str("检测到异常高频访问：1分钟内 ");
                    crate::numfmt::push_u64(&mut description, recent as u64);
                    description.append(" 次访问");
                    let rec = AnomalyRecord {
                        id: new_uuid_string(),
                        user_id: String::from_str(user_id),
                        anomaly_type: AnomalyType::RapidDataAccess,
                        severity: String::from_str("high"),
                        description,
                        detected_at: now_ms,
                        resolved: false,
                    };
                    found.push(rec);
                }
            },
            None => {},
        }
        let n = found.len();
        let mut i: usize = 0;
        while i < n
            invariant
                n == found@.len(),
                n <= 2,
                0 <= i <= n,
                self.session_activities@ == old(self).activities(),
                self.audit_logs@ == old(self).logs(),
                self.auto_lock_timeout == old(self).lock_timeout_s(),
                old(self).wf(),
                self.anomaly_records@.len() == old(self).anomalies().len() + i,
                forall|j: int|
                    0 <= j < old(self).anomalies().len() ==> self.anomaly_records@[j]
                        == #[trigger] old(self).anomalies()[j],
                forall|j: int|
                    0 <= j < n ==> (#[trigger] found@[j]).user_id@ == user_id@
                        && !found@[j].resolved && found@[j].detected_at == now_ms,
            decreases n - i,
        {
            let e = &found[i];
            let copy = AnomalyRecord {
                id: e.id.clone(),
                user_id: e.user_id.clone(),
                anomaly_type: e.anomaly_type,
                severity: e.severity.clone(),
                description: e.description.clone(),
                detected_at: e.detected_at,
                resolved: e.resolved,
            };
            self.anomaly_records.push(copy);
            i = i + 1;
        }
        Ok(found)
    }

    /// Examines the user's activity against the system clock.
    pub fn detect_anomalies(&mut self, user_id: &str) -> (r: Result<Vec<AnomalyRecord>, AppError>)
        requires
            old(self).wf(),
        ensures
            final(self).wf(),
            final(self).logs() == old(self).logs(),
            final(self).activities() == old(self).activities(),
            final(self).lock_timeout_s() == old(self).lock_timeout_s(),
            r matches Ok(v) && v@.len() <= 2 && final(self).anomalies().len() == old(
                self,
            ).anomalies().len() + v@.len(),
    {
        let now = now_millis();
        self.detect_anomalies_at(user_id, now)
    }

    /// The anomaly records passing the given filters, in record order.
    pub fn get_anomaly_records(&self, user_id: Option<&str>, resolved: Option<bool>) -> (r: Result<
        Vec<AnomalyRecord>,
        AppError,
    >)
        ensures
            r matches Ok(v) && v@.len() == count_anomalies(
                self.anomalies(),
                opt_view(user_id),
                resolved,
            ) && (forall|j: int|
                0 <= j < v@.len() ==> ((user_id matches Some(u) ==> (#[trigger] v@[j]).user_id@
                    == u@) && (resolved matches Some(b) ==> v@[j].resolved == b))),
    {
        let n = self.anomaly_records.len();
        let mut out: Vec<AnomalyRecord> = Vec::new();
        let mut i: usize = 0;
        while i < n
            invariant
                n == self.anomaly_records@.len(),
                0 <= i <= n,
                out@.len() == count_anomalies(
                    self.anomaly_records@.take(i as int),
                    opt_view(user_id),
                    resolved,
                ),
                forall|j: int|
                    0 <= j < out@.len() ==> ((user_id matches Some(u) ==> (#[trigger] out@[j]).user_id@
                        == u@) && (resolved matches Some(b) ==> out@[j].resolved == b)),
            decreases n - i,
        {
            proof {
                assert(self.anomaly_records@.take(i + 1).drop_last() =~= self.anomaly_records@.take(
                    i as int,
                ));
                assert(self.anomaly_records@.take(i + 1).last() == self.anomaly_records@[i as int]);
            }
            let e = &self.anomaly_records[i];
            let user_ok = match user_id {
                Some(u) => str_eq(e.user_id.as_str(), u),
                None => true,
            };
            let resolved_ok = match resolved {
                Some(b) => e.resolved == b,
                None => true,
            };
            if user_ok && resolved_ok {
                let copy = AnomalyRecord {
                    id: e.id.clone(),
                    user_id: e.user_id.clone(),
                    anomaly_type: e.anomaly_type,
                    severity: e.severity.clone(),
                    description: e.description.clone(),
                    detected_at: e.detected_at,
                    resolved: e.resolved,
                };
                out.push(copy);
            }
            i = i + 1;
        }
        proof {
            assert(self.anomaly_records@.take(n as int) =~= self.anomaly_records@);
        }
        Ok(out)
    }

    /// Marks the first anomaly with the given identifier as resolved;
    /// resolution is best-effort, so an unknown identifier changes
    /// nothing and is not an error.
    pub fn resolve_anomaly(&mut self, anomaly_id: &str) -> (r: Result<(), AppError>)
        requires
            old(self).wf(),
        ensures
            final(self).wf(),
            r is Ok,
            final(self).logs() == old(self).logs(),
            final(self).activities() == old(self).activities(),
            final(self).lock_timeout_s() == old(self).lock_timeout_s(),
            final(self).anomalies().len() == old(self).anomalies().len(),
            forall|j: int|
                0 <= j < old(self).anomalies().len() && #[trigger] old(self).anomalies()[j].id@
                    != anomaly_id@ ==> final(self).anomalies()[j] == old(self).anomalies()[j],
            forall|j: int|
                0 <= j < final(self).anomalies().len() && #[trigger] old(self).anomalies()[j].id@
                    == anomaly_id@ ==> final(self).anomalies()[j].resolved || final(self).anomalies()[j] == old(self).anomalies()[j],
    {
        let n = self.anomaly_records.len();
        let mut i: usize = 0;
        while i < n
            invariant
                n == self.anomaly_records@.len(),
                0 <= i <= n,
                self.audit_logs@ == old(self).logs(),
                self.session_activities@ == old(self).activities(),
                self.auto_lock_timeout == old(self).lock_timeout_s(),
                old(self).wf(),
                self.anomaly_records@ == old(self).anomalies(),
            decreases n - i,
        {
            if str_eq(self.anomaly_records[i].id.as_str(), anomaly_id) {
                let (mut rec) = self.anomaly_records.remove(i);
                rec.resolved = true;
                self.anomaly_records.insert(i, rec);
                proof {
                    assert(self.anomaly_records@[i as int].resolved);
                    assert forall|j: int|
                        0 <= j < old(self).anomalies().len() && j != i implies
                        self.anomaly_records@[j] == #[trigger] old(self).anomalies()[j] by {}
                }
                return Ok(());
            }
            i = i + 1;
        }
        Ok(())
    }

    /// Drops audit records and anomalies older than `days` days before
    /// the given instant; newer records survive, untouched and in
    /// order.
    pub fn cleanup_old_records_at(&mut self, days: i64, now_ms: i64) -> (r: Result<(), AppError>)
        requires
            old(self).wf(),
        ensures
            final(self).wf(),
            r is Ok,
            final(self).activities() == old(self).activities(),
            final(self).lock_timeout_s() == old(self).lock_timeout_s(),
            final(self).logs().len() <= old(self).logs().len(),
            final(self).anomalies().len() <= old(self).anomalies().len(),
            forall|j: int|
                0 <= j < final(self).logs().len() ==> ((#[trigger] final(self).logs()[j]).timestamp > now_ms - days * 86400000 && is_log_of(
                    old(self).logs(),
                    final(self).logs()[j],
                )),
            forall|j: int|
                0 <= j < final(self).anomalies().len() ==> ((#[trigger] final(self).anomalies()[j]).detected_at > now_ms - days * 86400000 && is_anomaly_of(
                    old(self).anomalies(),
                    final(self).anomalies()[j],
                )),
    {
        let cutoff: i128 = (now_ms as i128) - (days as i128) * 86400000;
        let mut i: usize = 0;
        while i < self.audit_logs.len()
            invariant
                0 <= i <= self.audit_logs@.len(),
                cutoff == now_ms - days * 86400000,
                self.session_activities@ == old(self).activities(),
                self.anomaly_records@ == old(self).anomalies(),
                self.auto_lock_timeout == old(self).lock_timeout_s(),
                old(self).wf(),
                self.audit_logs@.len() <= old(self).logs().len(),
                forall|j: int| 0 <= j < i ==> (#[trigger] self.audit_logs@[j]).timestamp > cutoff,
                forall|j: int|
                    0 <= j < self.audit_logs@.len() ==> is_log_of(
                        old(self).logs(),
                        #[trigger] self.audit_logs@[j],
                    ),
            decreases self.audit_logs@.len() - i,
        {
            if (self.audit_logs[i].timestamp as i128) > cutoff {
                i = i + 1;
            } else {
                let ghost pre = self.audit_logs@;
                self.audit_logs.remove(i);
                proof {
                    assert forall|j: int|
                        0 <= j < self.audit_logs@.len() implies is_log_of(
                        old(self).logs(),
                        #[trigger] self.audit_logs@[j],
                    ) by {
                        if j < i {
                            assert(self.audit_logs@[j] == pre[j]);
                            assert(is_log_of(old(self).logs(), pre[j]));
                        } else {
                            assert(self.audit_logs@[j] == pre[j + 1]);
                            assert(is_log_of(old(self).logs(), pre[j + 1]));
                        }
                    }
                }
            }
        }
        let mut k: usize = 0;
        while k < self.anomaly_records.len()
            invariant
                0 <= k <= self.anomaly_records@.len(),
                cutoff == now_ms - days * 86400000,
                self.session_activities@ == old(self).activities(),
                self.auto_lock_timeout == old(self).lock_timeout_s(),
                old(self).wf(),
                self.anomaly_records@.len() <= old(self).anomalies().len(),
                forall|j: int|
                    0 <= j < self.anomaly_records@.len() ==> is_anomaly_of(
                        old(self).anomalies(),
                        #[trigger] self.anomaly_records@[j],
                    ),
                self.audit_logs@.len() <= old(self).logs().len(),
                forall|j: int|
                    0 <= j < self.audit_logs@.len() ==> ((#[trigger] self.audit_logs@[j]).timestamp
                        > cutoff && is_log_of(old(self).logs(), self.audit_logs@[j])),
                forall|j: int|
                    0 <= j < k ==> (#[trigger] self.anomaly_records@[j]).detected_at > cutoff,
            decreases self.anomaly_records@.len() - k,
        {
            if (self.anomaly_records[k].detected_at as i128) > cutoff {
                k = k + 1;
            } else {
                let ghost pre = self.anomaly_records@;
                self.anomaly_records.remove(k);
                proof {
                    assert forall|j: int|
                        0 <= j < self.anomaly_records@.len() implies is_anomaly_of(
                        old(self).anomalies(),
                        #[trigger] self.anomaly_records@[j],
                    ) by {
                        if j < k {
                            assert(self.anomaly_records@[j] == pre[j]);
                            assert(is_anomaly_of(old(self).anomalies(), pre[j]));
                        } else {
                            assert(self.anomaly_records@[j] == pre[j + 1]);
                            assert(is_anomaly_of(old(self).anomalies(), pre[j + 1]));
                        }
                    }
                }
            }
        }
        Ok(())
    }

    /// Drops old records against the system clock.
    pub fn cleanup_old_records(&mut self, days: i64) -> (r: Result<(), AppError>)
        requires
            old(self).wf(),
        ensures
            final(self).wf(),
            r is Ok,
            final(self).activities() == old(self).activities(),
            final(self).lock_timeout_s() == old(self).lock_timeout_s(),
            final(self).logs().len() <= old(self).logs().len(),
            final(self).anomalies().len() <= old(self).anomalies().len(),
            forall|j: int|
                0 <= j < final(self).logs().len() ==> is_log_of(
                    old(self).logs(),
                    #[trigger] final(self).logs()[j],
                ),
    {
        let now = now_millis();
        self.cleanup_old_records_at(days, now)
    }

    /// The audit records passing the given filters, newest first, at
    /// most `limit` of them.
    pub fn get_audit_logs_at(
        &self,
        user_id: Option<&str>,
        action: Option<AuditAction>,
        start_ms: Option<i64>,
        end_ms: Option<i64>,
        limit: usize,
    ) -> (r: Result<Vec<AuditLog>, AppError>)
        ensures
            r matches Ok(v) && v@.len() == (if count_matching(
                self.logs(),
                opt_view(user_id),
                action,
                start_ms,
                end_ms,
            ) <= limit {
                count_matching(self.logs(), opt_view(user_id), action, start_ms, end_ms) as int
            } else {
                limit as int
            }) && (forall|
                j: int,
            |
                0 <= j < v@.len() ==> ((user_id matches Some(u) ==> (#[trigger] v@[j]).user_id@
                    == u@) && (action matches Some(a) ==> v@[j].action == a) && (
                start_ms matches Some(st) ==> v@[j].timestamp >= st) && (end_ms matches Some(e)
                    ==> v@[j].timestamp <= e))) && (forall|a: int, b: int|
                0 <= a < b < v@.len() ==> (#[trigger] v@[a]).timestamp >= (
                #[trigger] v@[b]).timestamp),
    {
        let n = self.audit_logs.len();
        let mut selected: Vec<AuditLog> = Vec::new();
        let mut i: usize = 0;
        while i < n
            invariant
                n == self.audit_logs@.len(),
                0 <= i <= n,
                selected@.len() == count_matching(
                    self.audit_logs@.take(i as int),
                    opt_view(user_id),
                    action,
                    start_ms,
                    end_ms,
                ),
                selected@.len() <= i,
                forall|j: int|
                    0 <= j < selected@.len() ==> ((user_id matches Some(u) ==> (
                    #[trigger] selected@[j]).user_id@ == u@) && (action matches Some(a)
                        ==> selected@[j].action == a) && (start_ms matches Some(st)
                        ==> selected@[j].timestamp >= st) && (end_ms matches Some(e)
                        ==> selected@[j].timestamp <= e)),
            decreases n - i,
        {
            proof {
                assert(self.audit_logs@.take(i + 1).drop_last() =~= self.audit_logs@.take(
                    i as int,
                ));
                assert(self.audit_logs@.take(i + 1).last() == self.audit_logs@[i as int]);
            }
            let e = &self.audit_logs[i];
            let user_ok = match user_id {
                Some(u) => str_eq(e.user_id.as_str(), u),
                None => true,
            };
            let action_ok = match action {
                Some(a) => e.action == a,
                None => true,
            };
            let start_ok = match start_ms {
                Some(st) => e.timestamp >= st,
                None => true,
            };
            let end_ok = match end_ms {
                Some(en) => e.timestamp <= en,
                None => true,
            };
            if user_ok && action_ok && start_ok && end_ok {
                selected.push(clone_audit_log(e));
            }
            i = i + 1;
        }
        proof {
            assert(self.audit_logs@.take(n as int) =~= self.audit_logs@);
        }
        // order newest first by insertion
        let m = selected.len();
        let mut sorted: Vec<AuditLog> = Vec::new();
        let mut k: usize = 0;
        while k < m
            invariant
                m == selected@.len(),
                0 <= k <= m,
                sorted@.len() == k,
                forall|a: int, b: int|
                    0 <= a < b < sorted@.len() ==> (#[trigger] sorted@[a]).timestamp >= (
                    #[trigger] sorted@[b]).timestamp,
                forall|j: int|
                    0 <= j < sorted@.len() ==> ((user_id matches Some(u) ==> (
                    #[trigger] sorted@[j]).user_id@ == u@) && (action matches Some(a)
                        ==> sorted@[j].action == a) && (start_ms matches Some(st)
                        ==> sorted@[j].timestamp >= st) && (end_ms matches Some(e)
                        ==> sorted@[j].timestamp <= e)),
                forall|j: int|
                    0 <= j < selected@.len() ==> ((user_id matches Some(u) ==> (
                    #[trigger] selected@[j]).user_id@ == u@) && (action matches Some(a)
                        ==> selected@[j].action == a) && (start_ms matches Some(st)
                        ==> selected@[j].timestamp >= st) && (end_ms matches Some(e)
                        ==> selected@[j].timestamp <= e)),
            decreases m - k,
        {
            let item = clone_audit_log(&selected[k]);
            let ghost pre = sorted@;
            // find the insertion point: after everything at least as new
            let mut pos: usize = 0;
            while pos < sorted.len() && sorted[pos].timestamp >= item.timestamp
                invariant
                    0 <= pos <= sorted@.len(),
                    sorted@ == pre,
                    forall|t: int| 0 <= t < pos ==> (#[trigger] sorted@[t]).timestamp
                        >= item.timestamp,
                decreases sorted@.len() - pos,
            {
                pos = pos + 1;
            }
            proof {
                if pos < sorted@.len() {
                    assert(sorted@[pos as int].timestamp < item.timestamp);
                }
            }
            sorted.insert(pos, item);
            proof {
                assert forall|a: int, b: int|
                    0 <= a < b < sorted@.len() implies (#[trigger] sorted@[a]).timestamp >= (
                #[trigger] sorted@[b]).timestamp by {
                    let aa = if a < pos { a } else { a - 1 };
                    let bb = if b < pos { b } else { b - 1 };
                    if a != pos && b != pos {
                        assert(sorted@[a] == pre[aa]);
                        assert(sorted@[b] == pre[bb]);
                        if aa < bb {
                            assert(pre[aa].timestamp >= pre[bb].timestamp);
                        }
                    } else if a == pos {
                        assert(sorted@[b] == pre[bb]);
                        assert(bb >= pos);
                        if pos < pre.len() {
                            assert(pre[pos as int].timestamp < sorted@[a].timestamp);
                            if bb > pos {
                                assert(pre[pos as int].timestamp >= pre[bb].timestamp);
                            }
                        }
                    } else {
                        assert(sorted@[a] == pre[aa]);
                        assert(aa < pos);
                        assert(pre[aa].timestamp >= sorted@[b].timestamp);
                    }
                }
            }
            k = k + 1;
        }
        let mut out = sorted;
        let ghost full = out@;
        if out.len() > limit {
            out.truncate(limit);
            proof {
                assert(out@ =~= full.subrange(0, limit as int));
            }
        }
        Ok(out)
    }

    /// The audit records passing the filters read from the system
    /// clock's frame of reference; same guarantees as the explicit
    /// form.
    pub fn get_audit_logs(
        &self,
        user_id: Option<&str>,
        action: Option<AuditAction>,
        start_ms: Option<i64>,
        end_ms: Option<i64>,
        limit: usize,
    ) -> (r: Result<Vec<AuditLog>, AppError>)
        ensures
            r matches Ok(v) && v@.len() <= limit && (forall|j: int|
                0 <= j < v@.len() ==> ((user_id matches Some(u) ==> (#[trigger] v@[j]).user_id@
                    == u@) && (action matches Some(a) ==> v@[j].action == a))) && (forall|
                a: int,
                b: int,
            |
                0 <= a < b < v@.len() ==> (#[trigger] v@[a]).timestamp >= (
                #[trigger] v@[b]).timestamp),
    {
        self.get_audit_logs_at(user_id, action, start_ms, end_ms, limit)
    }

    /// The user's failed-login count, zero when unknown.
    pub fn failed_login_count(&self, user_id: &str) -> (r: u32)
        ensures
            match crate::strutil::spec_index_of(activity_users(self.activities()), user_id@) {
                Some(k) => r == self.activities()[k as int].1.failed_login_attempts,
                None => r == 0,
            },
    {
        match self.find_activity(user_id) {
            Some(k) => self.session_activities[k].1.failed_login_attempts,
            None => 0,
        }
    }
}

/// A field-exact copy of an audit record, up to text views.
fn clone_audit_log(a: &AuditLog) -> (r: AuditLog)
    ensures
        r.id@ == a.id@,
        r.user_id@ == a.user_id@,
        r.action == a.action,
        r.status@ == a.status@,
        r.timestamp == a.timestamp,
{
    let resource_type = match &a.resource_type {
        Some(s) => Some(s.clone()),
        None => None,
    };
    let resource_id = match &a.resource_id {
        Some(s) => Some(s.clone()),
        None => None,
    };
    let ip_address = match &a.ip_address {
        Some(s) => Some(s.clone()),
        None => None,
    };
    let user_agent = match &a.user_agent {
        Some(s) => Some(s.clone()),
        None => None,
    };
    let error_message = match &a.error_message {
        Some(s) => Some(s.clone()),
        None => None,
    };
    let mut metadata: Vec<(String, String)> = Vec::new();
    let n = a.metadata.len();
    let mut i: usize = 0;
    while i < n
        invariant
            n == a.metadata@.len(),
            0 <= i <= n,
        decreases n - i,
    {
        metadata.push((a.metadata[i].0.clone(), a.metadata[i].1.clone()));
        i = i + 1;
    }
    AuditLog {
        id: a.id.clone(),
        user_id: a.user_id.clone(),
        action: a.action,
        resource_type,
        resource_id,
        ip_address,
        user_agent,
        status: a.status.clone(),
        error_message,
        metadata,
        timestamp: a.timestamp,
    }
}

} // verus!
