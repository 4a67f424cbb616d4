use vstd::prelude::*;

use crate::cache::{entry_wf, CacheEntry, CacheMeta, EntryView};
use crate::constants::MAX_FILE_SIZE;
use crate::parse::parse_range_spec;
use crate::range::{concat_bytes, copy_bytes, copy_range};
use crate::response::{response_complete_spec, total_size_spec, OriginHeaders};

verus! {

/// A response the orchestrator settled on.
pub enum Reply {
    /// A 200 carrying the whole resource and its stored content type.
    Full { content_type: String, body: Vec<u8> },
    /// A 206 carrying `body == resource[start..=end]`, with
    /// `Content-Range: bytes start-end/total`.
    Partial { content_type: String, start: u64, end: u64, total: u64, body: Vec<u8> },
    /// A successful full fetch, delivered with the origin's status, its
    /// headers preserved by the caller; the body was cached.
    Fetched { status: u16, body: Vec<u8> },
    /// An oversized body: delivered with the origin's status but bare of
    /// headers, and never cached.
    Uncached { status: u16, body: Vec<u8> },
    /// The origin's response goes out unmodified; the caller still holds it.
    Passthrough,
    /// The requested range cannot be satisfied: it is inverted, or reaches
    /// beyond the resource.
    InvalidRange,
    /// Every fetch attempt failed in transport or timed out.
    FetchFailed,
}

/// What the orchestrator asks its driver to do next.
pub enum Step {
    /// Send `Reply` to the client; the request is finished.
    Reply(Reply),
    /// Send the inbound request to origin with no `Range` header (resilient
    /// fetch), then report the status, or the failure.
    FetchFull,
    /// Fetch `bytes=start-end` of the resource to extend the cached prefix
    /// for a ranged request, then report the status, or the failure.
    FetchRange { start: u64, end: u64 },
    /// Fetch `bytes=start-end`, the rest of an incomplete entry, then report
    /// the status, or the failure.
    FetchRemaining { start: u64, end: u64 },
    /// Probe origin (HEAD) for the resource's total size, then report the
    /// headers, or the failure.
    ProbeTotal,
    /// Read the whole body of the 206 just received, then hand it over.
    CollectRange,
    /// Stream the body of the 206 just received through an
    /// `ExtensionCollector` made for `cached_len` and `total`, then hand
    /// over the outcome.
    CollectRemaining { cached_len: u64, total: u64 },
    /// Stream the body of the success response just received through a
    /// `BodyCollector`, then hand over the bytes, the headers, and whether
    /// the bound was passed.
    CollectFull,
    /// Write `entry` to the cache store (both tiers), then report back,
    /// whether or not the durable write succeeded.
    StoreEntry { entry: CacheEntry },
}

enum Phase {
    Ready,
    AwaitRange,
    CollectingRange,
    AwaitRemaining { total: u64 },
    CollectingRemaining { total: u64 },
    AwaitProbe,
    AwaitFull,
    CollectingFull { status: u16 },
    Storing { reply: Reply },
    Done,
}

/// The ghost image of an optional cache-lookup result.
pub open spec fn view_of_cached(c: Option<CacheEntry>) -> Option<EntryView> {
    match c {
        Some(e) => Some(e@),
        None => None,
    }
}

/// What an optional `Range` header parses to.
pub open spec fn parsed_range_header(h: Option<&String>) -> Option<(u64, u64)> {
    match h {
        Some(s) => parse_range_spec(vstd::utf8::encode_utf8(s@)),
        None => None,
    }
}

/// The content type served when origin declares none.
pub open spec fn default_content_type() -> Seq<char> {
    "application/octet-stream"@
}

/// The request orchestrator: one inbound request's decision tree, driven as
/// a state machine. The driver performs each returned `Step` — a fetch, a
/// body collection, a cache write — and reports what happened; every
/// decision between those steps is made, and specified, here.
pub struct Orchestrator {
    cached: Option<CacheEntry>,
    range: Option<(u64, u64)>,
    phase: Phase,
}

impl Orchestrator {
    /// The entry the cache lookup found, if any.
    pub closed spec fn cached_entry(self) -> Option<EntryView> {
        view_of_cached(self.cached)
    }

    /// The inbound request's parsed byte range, if a parseable `Range`
    /// header was present.
    pub closed spec fn requested_range(self) -> Option<(u64, u64)> {
        self.range
    }

    pub closed spec fn ready(self) -> bool {
        self.phase is Ready
    }

    pub closed spec fn awaiting_range(self) -> bool {
        self.phase is AwaitRange
    }

    pub closed spec fn collecting_range(self) -> bool {
        self.phase is CollectingRange
    }

    pub closed spec fn awaiting_remaining(self) -> bool {
        self.phase is AwaitRemaining
    }

    pub closed spec fn collecting_remaining(self) -> bool {
        self.phase is CollectingRemaining
    }

    /// The declared total driving a remaining-range fetch.
    pub closed spec fn remaining_total(self) -> u64 {
        match self.phase {
            Phase::AwaitRemaining { total } => total,
            Phase::CollectingRemaining { total } => total,
            _ => 0,
        }
    }

    pub closed spec fn awaiting_probe(self) -> bool {
        self.phase is AwaitProbe
    }

    pub closed spec fn awaiting_full(self) -> bool {
        self.phase is AwaitFull
    }

    pub closed spec fn collecting_full(self) -> bool {
        self.phase is CollectingFull
    }

    /// The status of the success response whose body is being collected.
    pub closed spec fn full_status(self) -> u16 {
        match self.phase {
            Phase::CollectingFull { status } => status,
            _ => 0,
        }
    }

    pub closed spec fn storing(self) -> bool {
        self.phase is Storing
    }

    /// The reply owed to the client once the pending cache write reports.
    pub closed spec fn pending_reply(self) -> Reply {
        match self.phase {
            Phase::Storing { reply } => reply,
            _ => Reply::FetchFailed,
        }
    }

    pub closed spec fn done(self) -> bool {
        self.phase is Done
    }

    /// A fetch or probe is in flight.
    pub open spec fn awaiting_fetch(self) -> bool {
        self.awaiting_range() || self.awaiting_remaining() || self.awaiting_probe()
            || self.awaiting_full()
    }

    /// The machine's data fits its phase.
    pub closed spec fn wf(self) -> bool {
        match self.phase {
            Phase::Ready => true,
            Phase::AwaitRange | Phase::CollectingRange => {
                &&& self.cached matches Some(e)
                &&& self.range matches Some((s, en))
                &&& self.range.unwrap().0 <= self.range.unwrap().1
                &&& self.cached.unwrap()@.content.len() <= self.range.unwrap().1
            },
            Phase::AwaitRemaining { total } | Phase::CollectingRemaining { total } => {
                &&& self.cached is Some
                &&& self.cached.unwrap()@.content.len() < total
            },
            Phase::AwaitProbe => self.cached is Some,
            _ => true,
        }
    }

    /// Takes the cache lookup's result and the inbound `Range` header, if
    /// any; a header that does not parse counts as absent.
    pub fn new(cached: Option<CacheEntry>, range_header: Option<&String>) -> (o: Orchestrator)
        ensures
            o.ready(),
            o.wf(),
            o.cached_entry() == view_of_cached(cached),
            o.requested_range() == parsed_range_header(range_header),
    {
        let range = match range_header {
            Some(h) => crate::parse::parse_range(h.as_str()),
            None => None,
        };
        Orchestrator { cached, range, phase: Phase::Ready }
    }

    /// The first decision, from the lookup result and the parsed range:
    /// serve straight from cache, start a range extension, probe for the
    /// total, fetch the rest, or fall through to a full fetch.
    ///
    /// Extension idempotence of completeness: the third clause proves that a
    /// range within the cached bytes — in particular, any range within
    /// `[0, total_size)` of a complete entry — is answered on the spot, with
    /// no origin fetch.
    pub fn begin(&mut self) -> (r: Step)
        requires
            old(self).ready(),
            old(self).wf(),
        ensures
            final(self).wf(),
            final(self).cached_entry() == old(self).cached_entry(),
            final(self).requested_range() == old(self).requested_range(),
            begin_outcome(
                old(self).cached_entry(),
                old(self).requested_range(),
                r,
                *final(self),
            ),
            complete_entry_served_from_cache(
                old(self).cached_entry(),
                old(self).requested_range(),
                r,
                *final(self),
            ),
    {
        match &self.cached {
            None => {
                self.phase = Phase::AwaitFull;
                Step::FetchFull
            },
            Some(entry) => {
                let len = entry.content.len();
                match self.range {
                    Some((s, en)) => {
                        if s > en {
                            self.phase = Phase::Done;
                            Step::Reply(Reply::InvalidRange)
                        } else if en < len as u64 {
                            let body = copy_range(&entry.content, s as usize, en as usize + 1);
                            let content_type = entry.meta.content_type.clone();
                            self.phase = Phase::Done;
                            Step::Reply(
                                Reply::Partial {
                                    content_type,
                                    start: s,
                                    end: en,
                                    total: len as u64,
                                    body,
                                },
                            )
                        } else {
                            self.phase = Phase::AwaitRange;
                            Step::FetchRange { start: len as u64, end: en }
                        }
                    },
                    None => {
                        if entry.meta.is_complete {
                            let body = copy_bytes(&entry.content);
                            let content_type = entry.meta.content_type.clone();
                            self.phase = Phase::Done;
                            Step::Reply(Reply::Full { content_type, body })
                        } else {
                            match entry.meta.total_size {
                                Some(t) => self.continue_incomplete(t),
                                None => {
                                    self.phase = Phase::AwaitProbe;
                                    Step::ProbeTotal
                                },
                            }
                        }
                    },
                }
            },
        }
    }

    /// The incomplete-entry decision, once a total `t` is in hand: an
    /// unknown (zero) total falls through to a full fetch; a cached length
    /// already at or past the total means the entry is in fact complete and
    /// is served as such; otherwise the rest is fetched.
    fn continue_incomplete(&mut self, t: u64) -> (r: Step)
        requires
            old(self).cached is Some,
        ensures
            final(self).wf(),
            final(self).cached_entry() == old(self).cached_entry(),
            final(self).requested_range() == old(self).requested_range(),
            incomplete_outcome(old(self).cached_entry().unwrap(), t, r, *final(self)),
    {
        let entry_len: usize = match &self.cached {
            Some(entry) => entry.content.len(),
            None => vstd::pervasive::unreached(),
        };
        if t == 0 {
            self.phase = Phase::AwaitFull;
            Step::FetchFull
        } else if entry_len as u64 >= t {
            let (body, content_type) = match &self.cached {
                Some(entry) => (copy_bytes(&entry.content), entry.meta.content_type.clone()),
                None => vstd::pervasive::unreached(),
            };
            self.phase = Phase::Done;
            Step::Reply(Reply::Full { content_type, body })
        } else {
            self.phase = Phase::AwaitRemaining { total: t };
            Step::FetchRemaining { start: entry_len as u64, end: t - 1 }
        }
    }

    /// Every fetch attempt failed in transport or timed out: the failure is
    /// surfaced to the client, cached entry or none.
    pub fn on_fetch_failed(&mut self) -> (r: Step)
        requires
            old(self).awaiting_fetch(),
        ensures
            final(self).wf(),
            r == Step::Reply(Reply::FetchFailed),
            final(self).done(),
    {
        self.phase = Phase::Done;
        Step::Reply(Reply::FetchFailed)
    }

    /// The range-extension fetch came back: only partial content is merged;
    /// any other response is passed through unmodified, with no cache
    /// mutation.
    pub fn on_range_status(&mut self, status: u16) -> (r: Step)
        requires
            old(self).wf(),
            old(self).awaiting_range(),
        ensures
            final(self).wf(),
            final(self).cached_entry() == old(self).cached_entry(),
            final(self).requested_range() == old(self).requested_range(),
            status == 206 ==> r == Step::CollectRange && final(self).collecting_range(),
            status != 206 ==> r == Step::Reply(Reply::Passthrough) && final(self).done(),
    {
        if status == 206 {
            self.phase = Phase::CollectingRange;
            Step::CollectRange
        } else {
            self.phase = Phase::Done;
            Step::Reply(Reply::Passthrough)
        }
    }

    /// The fetched extension bytes are in: cached content and fetched bytes
    /// are concatenated; a range still beyond the merged length is an
    /// invalid range; otherwise the requested slice is served as partial
    /// content reporting the merged length as the (possibly provisional)
    /// total, and the merged entry is written back when it is within the
    /// cacheable bound, as best effort. The write-back keeps the entry's
    /// known total when the merged bytes fit under it, complete exactly on
    /// reaching it; with no usable total it records the merged length as a
    /// provisional total, complete exactly when the request's end was the
    /// merged content's last byte. Either way the entry invariant holds.
    pub fn on_range_body(&mut self, fetched: Vec<u8>) -> (r: Step)
        requires
            old(self).wf(),
            old(self).collecting_range(),
        ensures
            final(self).wf(),
            range_merge_outcome(
                old(self).cached_entry().unwrap(),
                old(self).requested_range().unwrap().0,
                old(self).requested_range().unwrap().1,
                fetched@,
                r,
                *final(self),
            ),
    {
        let (s, en) = match self.range {
            Some(r) => r,
            None => vstd::pervasive::unreached(),
        };
        let (merged, content_type, prior_total) = match &self.cached {
            Some(entry) => (
                concat_bytes(&entry.content, &fetched),
                entry.meta.content_type.clone(),
                entry.meta.total_size,
            ),
            None => vstd::pervasive::unreached(),
        };
        let merged_len = merged.len();
        if en >= merged_len as u64 {
            self.phase = Phase::Done;
            return Step::Reply(Reply::InvalidRange);
        }
        let body = copy_range(&merged, s as usize, en as usize + 1);
        let reply = Reply::Partial {
            content_type: content_type.clone(),
            start: s,
            end: en,
            total: merged_len as u64,
            body,
        };
        if merged_len <= MAX_FILE_SIZE {
            let (is_complete, total_size) = match prior_total {
                Some(t) => {
                    if t >= merged_len as u64 {
                        (merged_len as u64 == t, t)
                    } else {
                        (en == merged_len as u64 - 1, merged_len as u64)
                    }
                },
                None => (en == merged_len as u64 - 1, merged_len as u64),
            };
            let entry = CacheEntry {
                content: merged,
                meta: CacheMeta { content_type, is_complete, total_size: Some(total_size) },
            };
            self.phase = Phase::Storing { reply };
            Step::StoreEntry { entry }
        } else {
            self.phase = Phase::Done;
            Step::Reply(reply)
        }
    }

    /// The HEAD probe for the total came back: its headers' declared size
    /// (zero when they declare none) drives the incomplete-entry decision.
    pub fn on_probe_response(&mut self, headers: &OriginHeaders) -> (r: Step)
        requires
            old(self).wf(),
            old(self).awaiting_probe(),
        ensures
            final(self).wf(),
            final(self).cached_entry() == old(self).cached_entry(),
            final(self).requested_range() == old(self).requested_range(),
            incomplete_outcome(
                old(self).cached_entry().unwrap(),
                match total_size_spec(headers@) {
                    Some(t) => t,
                    None => 0,
                },
                r,
                *final(self),
            ),
    {
        let t = match crate::response::get_total_size(headers) {
            Some(t) => t,
            None => 0,
        };
        self.continue_incomplete(t)
    }

    /// The remaining-range fetch came back: partial content is collected
    /// under the declared total's bound; anything else falls through to a
    /// full fresh fetch.
    pub fn on_remaining_status(&mut self, status: u16) -> (r: Step)
        requires
            old(self).wf(),
            old(self).awaiting_remaining(),
        ensures
            final(self).wf(),
            final(self).cached_entry() == old(self).cached_entry(),
            final(self).requested_range() == old(self).requested_range(),
            status == 206 ==> r == (Step::CollectRemaining {
                cached_len: old(self).cached_entry().unwrap().content.len() as u64,
                total: old(self).remaining_total(),
            }) && final(self).collecting_remaining() && final(self).remaining_total() == old(
                self,
            ).remaining_total(),
            status != 206 ==> r == Step::FetchFull && final(self).awaiting_full(),
    {
        let total = match self.phase {
            Phase::AwaitRemaining { total } => total,
            _ => vstd::pervasive::unreached(),
        };
        if status == 206 {
            let cached_len: usize = match &self.cached {
                Some(entry) => entry.content.len(),
                None => vstd::pervasive::unreached(),
            };
            self.phase = Phase::CollectingRemaining { total };
            Step::CollectRemaining { cached_len: cached_len as u64, total }
        } else {
            self.phase = Phase::AwaitFull;
            Step::FetchFull
        }
    }

    /// The collected rest of an incomplete entry is in. Bytes that overran
    /// the declared total are an inconsistent signal: the merge is abandoned
    /// for a full fresh fetch. A clean collection is merged; the merged
    /// entry — complete exactly when it reaches the declared total, which it
    /// never exceeds — is written back with that total, and the whole merged
    /// body is owed to the client as a full response.
    pub fn on_remaining_collected(&mut self, outcome: ExtensionOutcome) -> (r: Step)
        requires
            old(self).wf(),
            old(self).collecting_remaining(),
        ensures
            final(self).wf(),
            outcome is Exceeded ==> r == Step::FetchFull && final(self).awaiting_full(),
            outcome matches ExtensionOutcome::Collected(rem) ==> (old(
                self,
            ).cached_entry().unwrap().content.len() + rem@.len() <= old(self).remaining_total()
                ==> (r matches Step::StoreEntry { entry } && entry_wf(entry@))),
            outcome matches ExtensionOutcome::Collected(rem) ==> final(self).storing() && (
            r matches Step::StoreEntry { entry } && entry@.content == old(
                self,
            ).cached_entry().unwrap().content + rem@ && entry@.meta.content_type == old(
                self,
            ).cached_entry().unwrap().meta.content_type && entry@.meta.is_complete == (
            entry@.content.len() == old(self).remaining_total()) && entry@.meta.total_size == Some(
                old(self).remaining_total(),
            )) && (final(self).pending_reply() matches Reply::Full { content_type, body }
                && content_type@ == old(self).cached_entry().unwrap().meta.content_type && body@
                == old(self).cached_entry().unwrap().content + rem@),
    {
        let total = match self.phase {
            Phase::CollectingRemaining { total } => total,
            _ => vstd::pervasive::unreached(),
        };
        match outcome {
            ExtensionOutcome::Exceeded => {
                self.phase = Phase::AwaitFull;
                Step::FetchFull
            },
            ExtensionOutcome::Collected(rem) => {
                let (merged, content_type) = match &self.cached {
                    Some(entry) => (
                        concat_bytes(&entry.content, &rem),
                        entry.meta.content_type.clone(),
                    ),
                    None => vstd::pervasive::unreached(),
                };
                let merged_len = merged.len();
                let body = copy_bytes(&merged);
                let entry = CacheEntry {
                    content: merged,
                    meta: CacheMeta {
                        content_type: content_type.clone(),
                        is_complete: merged_len as u64 == total,
                        total_size: Some(total),
                    },
                };
                self.phase = Phase::Storing {
                    reply: Reply::Full { content_type, body },
                };
                Step::StoreEntry { entry }
            },
        }
    }

    /// The full fetch came back: a success status has its body collected
    /// under the cacheable bound; any other status is passed through
    /// unmodified and nothing is cached.
    pub fn on_full_status(&mut self, status: u16) -> (r: Step)
        requires
            old(self).awaiting_full(),
        ensures
            final(self).wf(),
            200 <= status < 300 ==> r == Step::CollectFull && final(self).collecting_full()
                && final(self).full_status() == status,
            !(200 <= status < 300) ==> r == Step::Reply(Reply::Passthrough) && final(self).done(),
    {
        if 200 <= status && status < 300 {
            self.phase = Phase::CollectingFull { status };
            Step::CollectFull
        } else {
            self.phase = Phase::Done;
            Step::Reply(Reply::Passthrough)
        }
    }

    /// The full fetch's body is in.
    ///
    /// Oversized bypass: a body that passed the cacheable bound is delivered
    /// as collected — a prefix of the stream — and nothing is written to any
    /// cache tier.
    ///
    /// Otherwise the body is cached under the origin's content type (or the
    /// default), complete as its headers attest, with their declared total
    /// (the accumulated length when they declare none or declare less than
    /// was accumulated), and delivered with the origin's status and headers.
    /// Every entry stored here keeps the entry invariant: it never claims
    /// more bytes than it holds, and a complete entry holds exactly its
    /// recorded total.
    pub fn on_full_body(&mut self, headers: &OriginHeaders, body: Vec<u8>, oversized: bool) -> (r:
        Step)
        requires
            old(self).collecting_full(),
        ensures
            final(self).wf(),
            oversized ==> final(self).done() && (r matches Step::Reply(
                Reply::Uncached { status, body: b },
            ) && status == old(self).full_status() && b@ == body@),
            !oversized ==> final(self).storing() && (r matches Step::StoreEntry { entry }
                && entry@.content == body@ && entry@.meta.content_type == (
            match headers@.content_type {
                Some(ct) => ct,
                None => default_content_type(),
            }) && entry@.meta.is_complete == response_complete_spec(headers@, body@.len() as u64)
                && entry@.meta.total_size == Some(
                recorded_total(headers@, body@.len() as u64),
            ) && entry_wf(entry@)) && (final(self).pending_reply() matches Reply::Fetched {
                status,
                body: b,
            } && status == old(self).full_status() && b@ == body@),
    {
        let status = match self.phase {
            Phase::CollectingFull { status } => status,
            _ => vstd::pervasive::unreached(),
        };
        if oversized {
            self.phase = Phase::Done;
            return Step::Reply(Reply::Uncached { status, body });
        }
        let content_type = match &headers.content_type {
            Some(ct) => ct.clone(),
            None => String::from_str("application/octet-stream"),
        };
        let len = body.len();
        let is_complete = crate::response::check_response_complete(headers, len as u64);
        let total_size = match crate::response::get_total_size(headers) {
            Some(t) => if t >= len as u64 {
                t
            } else {
                len as u64
            },
            None => len as u64,
        };
        let reply_body = copy_bytes(&body);
        let entry = CacheEntry {
            content: body,
            meta: CacheMeta { content_type, is_complete, total_size: Some(total_size) },
        };
        self.phase = Phase::Storing {
            reply: Reply::Fetched { status, body: reply_body },
        };
        Step::StoreEntry { entry }
    }

    /// The cache write was attempted. Caching is best effort: the reply owed
    /// to the client goes out whether or not the durable write succeeded.
    pub fn on_stored(&mut self) -> (r: Step)
        requires
            old(self).storing(),
        ensures
            final(self).wf(),
            final(self).done(),
            r == Step::Reply(old(self).pending_reply()),
    {
        let mut phase = Phase::Done;
        core::mem::swap(&mut self.phase, &mut phase);
        match phase {
            Phase::Storing { reply } => Step::Reply(reply),
            _ => vstd::pervasive::unreached(),
        }
    }
}

/// The total a full fetch records: the headers' declared total, or the
/// accumulated length when they declare none — and also when the declared
/// total falls short of the bytes actually accumulated. Such a declaration
/// is untrustworthy bookkeeping; the bytes in hand are the floor of any
/// truthful total, so they stand in for it, and no stored entry ever claims
/// fewer bytes than it holds.
pub open spec fn recorded_total(h: crate::response::HeadersView, len: u64) -> u64 {
    match total_size_spec(h) {
        Some(t) => if t >= len {
            t
        } else {
            len
        },
        None => len,
    }
}

/// Everything `begin` decides, by case over the lookup result `c` and the
/// parsed range `rng`: a miss goes to a full fetch; an inverted range is
/// refused; a range within the cached bytes is served as a 206 slice, with
/// the cached length as the reported total; a range past them starts an
/// extension fetch for the missing suffix; without a range, a complete entry
/// is served whole, and an incomplete one proceeds by its recorded total —
/// probing origin when it has none.
pub open spec fn begin_outcome(
    c: Option<EntryView>,
    rng: Option<(u64, u64)>,
    r: Step,
    post: Orchestrator,
) -> bool {
    match c {
        None => r == Step::FetchFull && post.awaiting_full(),
        Some(e) => match rng {
            Some((s, en)) => {
                if s > en {
                    r == Step::Reply(Reply::InvalidRange) && post.done()
                } else if en < e.content.len() {
                    post.done() && (r matches Step::Reply(
                        Reply::Partial { content_type, start, end, total, body },
                    ) && content_type@ == e.meta.content_type && start == s && end == en && total
                        == e.content.len() && body@ == e.content.subrange(s as int, en as int + 1))
                } else {
                    r == (Step::FetchRange { start: e.content.len() as u64, end: en })
                        && post.awaiting_range()
                }
            },
            None => {
                if e.meta.is_complete {
                    post.done() && (r matches Step::Reply(Reply::Full { content_type, body })
                        && content_type@ == e.meta.content_type && body@ == e.content)
                } else {
                    match e.meta.total_size {
                        Some(t) => incomplete_outcome(e, t, r, post),
                        None => r == Step::ProbeTotal && post.awaiting_probe(),
                    }
                }
            },
        },
    }
}

/// Extension idempotence of completeness, as `begin` keeps it: a complete
/// entry whose length is its declared total answers every range within
/// `[0, total_size)` on the spot — the first step is a reply, never an
/// origin fetch or any other action.
pub open spec fn complete_entry_served_from_cache(
    c: Option<EntryView>,
    rng: Option<(u64, u64)>,
    r: Step,
    post: Orchestrator,
) -> bool {
    match (c, rng) {
        (Some(e), Some((s, en))) => (e.meta.is_complete && e.meta.total_size == Some(
            e.content.len() as u64,
        ) && s <= en && en < e.content.len()) ==> post.done() && r is Reply,
        _ => true,
    }
}

/// What `begin` and `on_probe_response` decide for an incomplete entry `e`
/// once a total `t` is known (`t == 0` standing for no usable answer).
pub open spec fn incomplete_outcome(e: EntryView, t: u64, r: Step, post: Orchestrator) -> bool {
    &&& t == 0 ==> r == Step::FetchFull && post.awaiting_full()
    &&& t > 0 && e.content.len() >= t ==> post.done() && (r matches Step::Reply(
        Reply::Full { content_type, body },
    ) && content_type@ == e.meta.content_type && body@ == e.content)
    &&& t > 0 && e.content.len() < t ==> r == (Step::FetchRemaining {
        start: e.content.len() as u64,
        end: (t - 1) as u64,
    }) && post.awaiting_remaining() && post.remaining_total() == t
}

/// The total a range-merge write-back records: the entry's known total is
/// kept when it has room for the merged bytes; with no total, or one the
/// merged bytes already overran, the merged length stands in as the
/// provisional total.
pub open spec fn merge_total(prior: Option<u64>, merged_len: nat) -> nat {
    match prior {
        Some(t) => if t >= merged_len {
            t as nat
        } else {
            merged_len
        },
        None => merged_len,
    }
}

/// Whether a range-merge write-back is complete: against a kept total, the
/// entry is complete exactly when the merged bytes reach it; against a
/// provisional total, exactly when the request's end was the merged
/// content's last byte.
pub open spec fn merge_complete(prior: Option<u64>, merged_len: nat, en: u64) -> bool {
    match prior {
        Some(t) => if t >= merged_len {
            merged_len == t
        } else {
            en == merged_len - 1
        },
        None => en == merged_len - 1,
    }
}

/// What `on_range_body` does with fetched bytes `f` for the range `[s, en]`
/// over the cached entry `e`.
pub open spec fn range_merge_outcome(
    e: EntryView,
    s: u64,
    en: u64,
    f: Seq<u8>,
    r: Step,
    post: Orchestrator,
) -> bool {
    let merged = e.content + f;
    &&& en >= merged.len() ==> r == Step::Reply(Reply::InvalidRange) && post.done()
    &&& en < merged.len() && merged.len() <= MAX_FILE_SIZE ==> post.storing() && (
    r matches Step::StoreEntry { entry } && entry@.content == merged && entry@.meta.content_type
        == e.meta.content_type && entry@.meta.is_complete == merge_complete(
        e.meta.total_size,
        merged.len(),
        en,
    ) && entry@.meta.total_size == Some(merge_total(e.meta.total_size, merged.len()) as u64)
        && entry_wf(entry@)) && is_partial_reply(post.pending_reply(), e.meta.content_type, s, en, merged)
    &&& en < merged.len() && merged.len() > MAX_FILE_SIZE ==> post.done() && (r matches Step::Reply(
        reply,
    ) && is_partial_reply(reply, e.meta.content_type, s, en, merged))
}

/// `reply` is the 206 carrying `merged[s..=en]` out of `merged.len()` bytes.
pub open spec fn is_partial_reply(
    reply: Reply,
    ct: Seq<char>,
    s: u64,
    en: u64,
    merged: Seq<u8>,
) -> bool {
    reply matches Reply::Partial { content_type, start, end, total, body } && content_type@ == ct
        && start == s && end == en && total == merged.len() && body@ == merged.subrange(
        s as int,
        en as int + 1,
    )
}

/// Range fidelity: when the whole resource — `L == e.content.len()` bytes —
/// is cached and `0 <= a <= b < L`, `begin` answers on the spot with a 206
/// carrying exactly the slice `[a, b]`, which is `b - a + 1` bytes, under
/// `Content-Range: bytes a-b/L`.
pub proof fn lemma_range_fidelity(e: EntryView, a: u64, b: u64, r: Step, post: Orchestrator)
    requires
        begin_outcome(Some(e), Some((a, b)), r, post),
        a <= b,
        b < e.content.len(),
    ensures
        post.done(),
        r matches Step::Reply(Reply::Partial { content_type, start, end, total, body })
            && content_type@ == e.meta.content_type && start == a && end == b && total
            == e.content.len() && body@ == e.content.subrange(a as int, b as int + 1) && body@.len()
            == b - a + 1,
{
}

/// The outcome of streaming a remaining-range body through an
/// `ExtensionCollector`.
pub enum ExtensionOutcome {
    /// The stream overran the declared total: the merge is abandoned.
    Exceeded,
    /// The whole body, which stayed within the declared total.
    Collected(Vec<u8>),
}

/// Accumulates a streamed body and watches the cacheable bound.
pub struct BodyCollector {
    buf: Vec<u8>,
}

impl BodyCollector {
    /// The bytes accumulated so far.
    pub closed spec fn bytes(self) -> Seq<u8> {
        self.buf@
    }

    pub fn new() -> (c: Self)
        ensures
            c.bytes() == Seq::<u8>::empty(),
    {
        BodyCollector { buf: Vec::new() }
    }

    /// Takes the next chunk; true means the accumulated length now exceeds
    /// the cacheable bound and streaming should stop.
    pub fn push(&mut self, chunk: Vec<u8>) -> (oversized: bool)
        ensures
            final(self).bytes() == old(self).bytes() + chunk@,
            oversized == (final(self).bytes().len() > MAX_FILE_SIZE),
    {
        let mut chunk = chunk;
        self.buf.append(&mut chunk);
        self.buf.len() > MAX_FILE_SIZE
    }

    /// The accumulated body.
    pub fn into_body(self) -> (b: Vec<u8>)
        ensures
            b@ == self.bytes(),
    {
        self.buf
    }
}

/// Accumulates the streamed rest of an incomplete entry, watching that the
/// cached prefix plus the stream never passes the declared total.
pub struct ExtensionCollector {
    buf: Vec<u8>,
    cached_len: u64,
    limit: u64,
}

impl ExtensionCollector {
    /// The bytes accumulated so far.
    pub closed spec fn bytes(self) -> Seq<u8> {
        self.buf@
    }

    /// The cached prefix's length.
    pub closed spec fn cached(self) -> u64 {
        self.cached_len
    }

    /// The declared total being enforced.
    pub closed spec fn total(self) -> u64 {
        self.limit
    }

    pub fn new(cached_len: u64, total: u64) -> (c: Self)
        requires
            cached_len < total,
        ensures
            c.bytes() == Seq::<u8>::empty(),
            c.cached() == cached_len,
            c.total() == total,
    {
        ExtensionCollector { buf: Vec::new(), cached_len, limit: total }
    }

    /// Takes the next chunk; true means the cached length plus the
    /// accumulated bytes now exceed the declared total — an inconsistent
    /// signal from origin — and the merge must be abandoned.
    pub fn push(&mut self, chunk: Vec<u8>) -> (violated: bool)
        requires
            old(self).cached() < old(self).total(),
        ensures
            final(self).bytes() == old(self).bytes() + chunk@,
            final(self).cached() == old(self).cached(),
            final(self).total() == old(self).total(),
            violated == (old(self).cached() + final(self).bytes().len() > old(self).total()),
    {
        let mut chunk = chunk;
        self.buf.append(&mut chunk);
        let room = self.limit - self.cached_len;
        if self.buf.len() as u64 > room {
            true
        } else {
            false
        }
    }

    /// The accumulated bytes.
    pub fn into_body(self) -> (b: Vec<u8>)
        ensures
            b@ == self.bytes(),
    {
        self.buf
    }
}

} // verus!
