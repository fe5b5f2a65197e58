//! A bounded, queryable audit trail of security-relevant server events: the audit log
//! storage of OPC UA Part 4, 6.5.1, kept beside the event-based audit dispatch.

use std::collections::VecDeque;
use vstd::prelude::*;
use crate::status::StatusCode;

verus! {

/// Category of a security-relevant validation performed by the server.
#[derive(Debug, Clone, Copy, PartialEq, Eq, Structural)]
pub enum SecurityCheckCategory {
    /// Client application-instance certificate trust/expiry/revocation validation.
    CertificateValidation,
    /// User identity token (UserName, X509, IssuedToken) verification.
    UserAuthentication,
    /// SecureChannel security policy and mode negotiation.
    ChannelNegotiation,
    /// Role-based access control decision.
    RbacDecision,
}

impl SecurityCheckCategory {
    /// The category's name.
    pub fn name(&self) -> (r: &'static str)
        ensures
            r@ == match self {
                SecurityCheckCategory::CertificateValidation => "CertificateValidation"@,
                SecurityCheckCategory::UserAuthentication => "UserAuthentication"@,
                SecurityCheckCategory::ChannelNegotiation => "ChannelNegotiation"@,
                SecurityCheckCategory::RbacDecision => "RbacDecision"@,
            },
    {
        match self {
            SecurityCheckCategory::CertificateValidation => "CertificateValidation",
            SecurityCheckCategory::UserAuthentication => "UserAuthentication",
            SecurityCheckCategory::ChannelNegotiation => "ChannelNegotiation",
            SecurityCheckCategory::RbacDecision => "RbacDecision",
        }
    }
}

/// Outcome of a single security check.
#[derive(Debug, Clone, Copy, PartialEq, Eq, Structural)]
pub enum SecurityCheckOutcome {
    /// The check passed.
    Pass,
    /// The check failed.
    Fail,
}

/// A single entry in the security check registry.
#[derive(Debug)]
pub struct SecurityCheckEntry {
    /// When the check was performed, in 100 ns ticks since 1601-01-01 UTC.
    pub timestamp: i64,
    /// What was being validated.
    pub category: SecurityCheckCategory,
    /// Whether the check passed or failed.
    pub outcome: SecurityCheckOutcome,
    /// Status code of the result (`Good` on pass, the error on fail).
    pub reason: StatusCode,
    /// Affected client or user identifier.
    pub identity: String,
}

/// Mathematical view of a [`SecurityCheckEntry`] without its timestamp.
pub struct EntryView {
    pub category: SecurityCheckCategory,
    pub outcome: SecurityCheckOutcome,
    pub reason: StatusCode,
    pub identity: Seq<char>,
}

impl View for SecurityCheckEntry {
    type V = EntryView;

    open spec fn view(&self) -> EntryView {
        EntryView {
            category: self.category,
            outcome: self.outcome,
            reason: self.reason,
            identity: self.identity@,
        }
    }
}

impl SecurityCheckEntry {
    /// A copy of the entry.
    pub fn duplicate(&self) -> (r: SecurityCheckEntry)
        ensures
            r@ == self@,
            r.timestamp == self.timestamp,
    {
        SecurityCheckEntry {
            timestamp: self.timestamp,
            category: self.category,
            outcome: self.outcome,
            reason: self.reason,
            identity: self.identity.clone(),
        }
    }
}

/// The current time in ticks, from `opcua_types::DateTime::now`.
///
/// Trusted: reads the system clock; nothing is stated of the value.
#[verifier::external_body]
pub(crate) fn now_ticks() -> i64 {
    opcua_types::DateTime::now().checked_ticks()
}

/// The views of a sequence of entries.
pub open spec fn entry_views(entries: Seq<SecurityCheckEntry>) -> Seq<EntryView> {
    entries.map_values(|e: SecurityCheckEntry| e@)
}

/// The entries after recording `e`: a registry of capacity 0 keeps nothing; otherwise the
/// oldest entry is evicted first when the registry holds `max_entries` or more.
pub open spec fn after_record(entries: Seq<EntryView>, max_entries: nat, e: EntryView) -> Seq<EntryView> {
    if max_entries == 0 {
        entries
    } else if entries.len() >= max_entries && entries.len() > 0 {
        entries.drop_first().push(e)
    } else {
        entries.push(e)
    }
}

/// The earlier entries (or any per-entry data) that a record keeps: all of them for a
/// registry of capacity 0, which records nothing; else all but the oldest when the
/// registry is full.
pub open spec fn kept_on_record<T>(s: Seq<T>, max_entries: nat) -> Seq<T> {
    if max_entries > 0 && s.len() >= max_entries && s.len() > 0 {
        s.drop_first()
    } else {
        s
    }
}

/// Bounded ring buffer of [`SecurityCheckEntry`] values; the oldest entries are evicted
/// first once the configured maximum count is reached.
#[derive(Debug)]
pub struct SecurityCheckRegistry {
    entries: VecDeque<SecurityCheckEntry>,
    max_entries: usize,
}

impl SecurityCheckRegistry {
    /// The entries currently held, oldest first.
    pub closed spec fn entries_view(&self) -> Seq<EntryView> {
        entry_views(self.entries@)
    }

    /// The timestamps of the entries currently held, oldest first.
    pub closed spec fn timestamps_view(&self) -> Seq<i64> {
        self.entries@.map_values(|e: SecurityCheckEntry| e.timestamp)
    }

    /// The configured maximum entry count.
    pub closed spec fn max_view(&self) -> nat {
        self.max_entries as nat
    }

    /// The registry never holds more entries than its configured maximum, and every
    /// entry has one timestamp.
    pub open spec fn wf(&self) -> bool {
        &&& self.entries_view().len() <= self.max_view()
        &&& self.timestamps_view().len() == self.entries_view().len()
    }

    /// A new, empty registry with the given maximum entry count.
    pub fn new(max_entries: usize) -> (r: SecurityCheckRegistry)
        ensures
            r.wf(),
            r.entries_view() == Seq::<EntryView>::empty(),
            r.max_view() == max_entries,
    {
        let r = SecurityCheckRegistry { entries: VecDeque::new(), max_entries };
        assert(r.entries_view() =~= Seq::<EntryView>::empty());
        assert(r.timestamps_view() =~= Seq::<i64>::empty());
        r
    }

    /// A registry with the default capacity of 1000 entries.
    pub fn default_registry() -> (r: SecurityCheckRegistry)
        ensures
            r.wf(),
            r.entries_view() == Seq::<EntryView>::empty(),
            r.max_view() == 1000,
    {
        Self::new(1000)
    }

    /// Records a security check outcome, evicting the oldest entry at capacity.
    pub fn record(
        &mut self,
        category: SecurityCheckCategory,
        outcome: SecurityCheckOutcome,
        reason: StatusCode,
        identity: String,
    )
        requires
            old(self).wf(),
        ensures
            final(self).wf(),
            final(self).max_view() == old(self).max_view(),
            final(self).entries_view() == after_record(
                old(self).entries_view(),
                old(self).max_view(),
                EntryView { category, outcome, reason, identity: identity@ },
            ),
            old(self).max_view() == 0 ==> final(self).timestamps_view() == old(self).timestamps_view(),
            old(self).max_view() > 0 ==> final(self).timestamps_view().drop_last() == kept_on_record(
                old(self).timestamps_view(),
                old(self).max_view(),
            ),
    {
        let ghost before = self.entries_view();
        let ghost ts0 = self.timestamps_view();
        if self.max_entries == 0 {
            return;
        }
        if self.entries.len() >= self.max_entries {
            let _oldest = self.entries.pop_front();
            assert(self.entries_view() =~= if before.len() > 0 { before.drop_first() } else { before });
            assert(self.timestamps_view() =~= if ts0.len() > 0 { ts0.drop_first() } else { ts0 });
        }
        let ghost mid = self.entries_view();
        let ghost mid_ts = self.timestamps_view();
        assert(mid_ts == kept_on_record(ts0, self.max_view()));
        let entry = SecurityCheckEntry { timestamp: now_ticks(), category, outcome, reason, identity };
        let ghost ev = entry@;
        let ghost t = entry.timestamp;
        self.entries.push_back(entry);
        assert(self.entries_view() =~= mid.push(ev));
        assert(self.timestamps_view() =~= mid_ts.push(t));
        assert(self.timestamps_view().drop_last() =~= mid_ts);
    }

    /// Records a passed check.
    pub fn record_pass(&mut self, category: SecurityCheckCategory, identity: String)
        requires
            old(self).wf(),
        ensures
            final(self).wf(),
            final(self).max_view() == old(self).max_view(),
            final(self).entries_view() == after_record(
                old(self).entries_view(),
                old(self).max_view(),
                EntryView {
                    category,
                    outcome: SecurityCheckOutcome::Pass,
                    reason: StatusCode::Good,
                    identity: identity@,
                },
            ),
            old(self).max_view() == 0 ==> final(self).timestamps_view() == old(self).timestamps_view(),
            old(self).max_view() > 0 ==> final(self).timestamps_view().drop_last() == kept_on_record(
                old(self).timestamps_view(),
                old(self).max_view(),
            ),
    {
        self.record(category, SecurityCheckOutcome::Pass, StatusCode::Good, identity)
    }

    /// Records a failed check.
    pub fn record_fail(&mut self, category: SecurityCheckCategory, reason: StatusCode, identity: String)
        requires
            old(self).wf(),
        ensures
            final(self).wf(),
            final(self).max_view() == old(self).max_view(),
            final(self).entries_view() == after_record(
                old(self).entries_view(),
                old(self).max_view(),
                EntryView { category, outcome: SecurityCheckOutcome::Fail, reason, identity: identity@ },
            ),
            old(self).max_view() == 0 ==> final(self).timestamps_view() == old(self).timestamps_view(),
            old(self).max_view() > 0 ==> final(self).timestamps_view().drop_last() == kept_on_record(
                old(self).timestamps_view(),
                old(self).max_view(),
            ),
    {
        self.record(category, SecurityCheckOutcome::Fail, reason, identity)
    }

    /// A copy of all entries currently in the registry, oldest first.
    pub fn snapshot(&self) -> (r: Vec<SecurityCheckEntry>)
        ensures
            entry_views(r@) == self.entries_view(),
            r@.map_values(|e: SecurityCheckEntry| e.timestamp) == self.timestamps_view(),
    {
        let mut r: Vec<SecurityCheckEntry> = Vec::new();
        let mut i: usize = 0;
        while i < self.entries.len()
            invariant
                i <= self.entries@.len(),
                r.len() == i,
                forall|j: int| 0 <= j < i ==> r@[j]@ == self.entries@[j]@ && r@[j].timestamp == self.entries@[j].timestamp,
            decreases self.entries@.len() - i,
        {
            r.push(self.entries[i].duplicate());
            i = i + 1;
        }
        assert(entry_views(r@) =~= self.entries_view());
        assert(r@.map_values(|e: SecurityCheckEntry| e.timestamp) =~= self.timestamps_view());
        r
    }

    /// The number of entries currently in the registry.
    pub fn count(&self) -> (r: usize)
        ensures
            r == self.entries_view().len(),
    {
        self.entries.len()
    }
}

/// Recording keeps the newest entry last, keeps every earlier entry that is not evicted in
/// order, and evicts at most the single oldest entry.
pub proof fn law_record_keeps_order(entries: Seq<EntryView>, max_entries: nat, e: EntryView)
    requires
        max_entries >= 1,
    ensures
        after_record(entries, max_entries, e).last() == e,
        entries.len() < max_entries ==> after_record(entries, max_entries, e).drop_last() == entries,
        entries.len() >= max_entries && entries.len() > 0 ==> after_record(entries, max_entries, e).drop_last()
            == entries.drop_first(),
{
    assert(entries.push(e).drop_last() =~= entries);
    if entries.len() > 0 {
        assert(entries.drop_first().push(e).drop_last() =~= entries.drop_first());
    }
}

/// The registry never holds more than its maximum: recording into a registry holding at
/// most `max_entries` entries leaves at most `max_entries`, and a registry of capacity 0
/// stays empty.
pub proof fn law_record_stays_bounded(entries: Seq<EntryView>, max_entries: nat, e: EntryView)
    requires
        entries.len() <= max_entries,
    ensures
        after_record(entries, max_entries, e).len() <= max_entries,
        max_entries == 0 ==> after_record(entries, max_entries, e).len() == 0,
{
}

/// Once full, the registry stays exactly at capacity: recording into a registry holding
/// `max_entries >= 1` entries leaves it holding `max_entries`.
pub proof fn law_full_registry_stays_at_capacity(entries: Seq<EntryView>, max_entries: nat, e: EntryView)
    requires
        max_entries >= 1,
        entries.len() == max_entries,
    ensures
        after_record(entries, max_entries, e).len() == max_entries,
{
}

} // verus!
