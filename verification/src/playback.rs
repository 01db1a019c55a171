//! The playback coordinator: one host, any number of subscribers, and a
//! clock-offset-aligned sync channel.
//!
//! Every operation is a pure step: it updates the coordinator and returns
//! the deliveries to make, in order. Each step has a spec-level twin
//! (`spec_start`, `spec_stop`, ...) and the executable method is proved to
//! implement it, so laws about the coordinator are stated once, over the
//! spec twins.

use vstd::prelude::*;

use crate::ids::SessionId;
use crate::messages::{PlaybackInfoView, PlaybackSourceView, PlaybackSourceV1, PlaybackStateV1, RoomPlaybackInfoV1};
use crate::session_msgs::{deliveries_view, Delivery, DeliveryV, SessionMsg, SessionMsgV};

verus! {

// ---------------------------------------------------------------------
// Timestamp shifting
// ---------------------------------------------------------------------

/// A timestamp moved by a signed amount of milliseconds, clamped to the
/// range of u64 at both ends.
pub open spec fn spec_shift(ts: u64, delta: int) -> u64 {
    let moved = ts + delta;
    if moved < 0 {
        0u64
    } else if moved > u64::MAX {
        u64::MAX
    } else {
        moved as u64
    }
}

/// Moves a timestamp by a signed amount, saturating at both ends.
pub fn shift_timestamp(ts: u64, delta: i64) -> (r: u64)
    ensures
        r == spec_shift(ts, delta as int),
{
    if delta >= 0 {
        ts.saturating_add(delta as u64)
    } else {
        let magnitude: u64 = ((-(delta as i128)) as u64);
        ts.saturating_sub(magnitude)
    }
}

// ---------------------------------------------------------------------
// Domain data
// ---------------------------------------------------------------------

/// What a playback plays: control metadata only, immutable after start.
#[derive(Debug, Clone, PartialEq, Eq)]
pub struct PlaybackSource {
    pub title: String,
    pub page_href: String,
    pub frame_href: String,
    pub element_query: String,
}

impl View for PlaybackSource {
    type V = PlaybackSourceView;

    open spec fn view(&self) -> PlaybackSourceView {
        PlaybackSourceView {
            title: self.title@,
            page_href: self.page_href@,
            frame_href: self.frame_href@,
            element_query: self.element_query@,
        }
    }
}

impl PlaybackSource {
    pub fn duplicate(&self) -> (r: Self)
        ensures
            r@ == self@,
    {
        PlaybackSource {
            title: self.title.clone(),
            page_href: self.page_href.clone(),
            frame_href: self.frame_href.clone(),
            element_query: self.element_query.clone(),
        }
    }

    pub fn to_wire(&self) -> (r: PlaybackSourceV1)
        ensures
            r@ == self@,
    {
        PlaybackSourceV1 {
            title: self.title.clone(),
            page_href: self.page_href.clone(),
            frame_href: self.frame_href.clone(),
            element_query: self.element_query.clone(),
        }
    }

    pub fn from_wire(wire: &PlaybackSourceV1) -> (r: Self)
        ensures
            r == (PlaybackSource {
                title: wire.title,
                page_href: wire.page_href,
                frame_href: wire.frame_href,
                element_query: wire.element_query,
            }),
            r@ == wire@,
    {
        PlaybackSource {
            title: wire.title.clone(),
            page_href: wire.page_href.clone(),
            frame_href: wire.frame_href.clone(),
            element_query: wire.element_query.clone(),
        }
    }
}

pub open spec fn opt_source_view(s: Option<PlaybackSource>) -> Option<PlaybackSourceView> {
    match s {
        None => None,
        Some(src) => Some(src@),
    }
}

/// A playback position report in the reporter's own clock.
#[derive(Debug, Clone, Copy, PartialEq, Eq, Structural)]
pub struct PlaybackState {
    pub timestamp: u64,
    pub playing: bool,
    pub time_millis: u64,
}

/// The same report with its timestamp moved by `delta` milliseconds.
pub open spec fn spec_shift_state(s: PlaybackState, delta: int) -> PlaybackState {
    PlaybackState { timestamp: spec_shift(s.timestamp, delta), ..s }
}

impl PlaybackState {
    /// Re-expresses a report from a clock `source_offset` ahead of the
    /// server in server time.
    pub fn normalize_offset(&self, source_offset: i64) -> (r: Self)
        ensures
            r == spec_shift_state(*self, -(source_offset as int)),
    {
        let shifted: u64 = if source_offset >= 0 {
            self.timestamp.saturating_sub(source_offset as u64)
        } else {
            self.timestamp.saturating_add((-(source_offset as i128)) as u64)
        };
        PlaybackState { timestamp: shifted, playing: self.playing, time_millis: self.time_millis }
    }

    /// Re-expresses a server-time report in the clock of a recipient that
    /// is `dest_offset` ahead of the server.
    pub fn incorporate_offset(&self, dest_offset: i64) -> (r: Self)
        ensures
            r == spec_shift_state(*self, dest_offset as int),
    {
        PlaybackState {
            timestamp: shift_timestamp(self.timestamp, dest_offset),
            playing: self.playing,
            time_millis: self.time_millis,
        }
    }

    pub fn to_wire(&self) -> (r: PlaybackStateV1)
        ensures
            r == (PlaybackStateV1 {
                timestamp: self.timestamp,
                playing: self.playing,
                time_millis: self.time_millis,
            }),
    {
        PlaybackStateV1 { timestamp: self.timestamp, playing: self.playing, time_millis: self.time_millis }
    }

    pub fn from_wire(wire: &PlaybackStateV1) -> (r: Self)
        ensures
            r == (PlaybackState {
                timestamp: wire.timestamp,
                playing: wire.playing,
                time_millis: wire.time_millis,
            }),
    {
        PlaybackState { timestamp: wire.timestamp, playing: wire.playing, time_millis: wire.time_millis }
    }
}

/// Why a playback ended.
#[derive(Debug, Clone, Copy, PartialEq, Eq, Structural)]
pub enum StopReason {
    HostError,
    StoppedByHost,
    Superseded,
}

/// Why a subscriber left the sync channel.
#[derive(Debug, Clone, Copy, PartialEq, Eq, Structural)]
pub enum DisconnectReason {
    User,
    Stopped(StopReason),
    SubscriberError,
}

/// What a joiner is told about a playback.
#[derive(Debug, Clone, PartialEq, Eq)]
pub struct PlaybackInfo {
    pub host: String,
    pub source: Option<PlaybackSource>,
}

/// `PlaybackInfoV` is the mathematical content of a `PlaybackInfo`.
pub use crate::messages::PlaybackInfoView as PlaybackInfoV;

impl View for PlaybackInfo {
    type V = PlaybackInfoView;

    open spec fn view(&self) -> PlaybackInfoView {
        PlaybackInfoView { host: self.host@, source: opt_source_view(self.source) }
    }
}

impl PlaybackInfo {
    pub fn duplicate(&self) -> (r: Self)
        ensures
            r@ == self@,
    {
        let source = match &self.source {
            None => None,
            Some(src) => Some(src.duplicate()),
        };
        PlaybackInfo { host: self.host.clone(), source }
    }

    pub fn to_wire(&self) -> (r: RoomPlaybackInfoV1)
        ensures
            r@ == self@,
    {
        let source = match &self.source {
            None => None,
            Some(src) => Some(src.to_wire()),
        };
        RoomPlaybackInfoV1 { host: self.host.clone(), source }
    }
}

/// One playback operation, as requested by a session.
#[derive(Debug, Clone, PartialEq, Eq)]
pub enum PlaybackRequest {
    Start(PlaybackSource),
    Disconnect(DisconnectReason),
    Stop(StopReason),
    Sync(PlaybackState),
}

/// Why a playback request was refused.
#[derive(Debug, Clone, Copy, PartialEq, Eq, Structural)]
pub enum PlaybackError {
    NotParticipant,
    NotHost,
    NotRunning,
    HostConnect,
}

/// The wording of each refusal.
pub open spec fn spec_playback_error_text(e: PlaybackError) -> Seq<char> {
    match e {
        PlaybackError::NotParticipant => "Users who are neither the playback host nor a subscriber cannot send playback requests"@,
        PlaybackError::NotHost => "Only the playback host can control playback"@,
        PlaybackError::NotRunning => "No running playback"@,
        PlaybackError::HostConnect => "The playback host can't connect to their own playback"@,
    }
}

impl PlaybackError {
    /// The wording reported to the requesting peer.
    pub fn describe(&self) -> (r: String)
        ensures
            r@ == spec_playback_error_text(*self),
    {
        match self {
            PlaybackError::NotParticipant => "Users who are neither the playback host nor a subscriber cannot send playback requests".to_owned(),
            PlaybackError::NotHost => "Only the playback host can control playback".to_owned(),
            PlaybackError::NotRunning => "No running playback".to_owned(),
            PlaybackError::HostConnect => "The playback host can't connect to their own playback".to_owned(),
        }
    }
}

/// The wire spelling of a stop reason.
pub open spec fn spec_stop_reason_to_wire(r: StopReason) -> crate::messages::PlaybackStopReasonV1 {
    match r {
        StopReason::HostError => crate::messages::PlaybackStopReasonV1::HostError,
        StopReason::StoppedByHost => crate::messages::PlaybackStopReasonV1::StoppedByHost,
        StopReason::Superseded => crate::messages::PlaybackStopReasonV1::Superseded,
    }
}

/// The wire spelling of a disconnect reason.
pub open spec fn spec_disconnect_reason_to_wire(
    r: DisconnectReason,
) -> crate::messages::PlaybackDisconnectReasonV1 {
    match r {
        DisconnectReason::User => crate::messages::PlaybackDisconnectReasonV1::User,
        DisconnectReason::Stopped(sr) => crate::messages::PlaybackDisconnectReasonV1::Stopped(
            spec_stop_reason_to_wire(sr),
        ),
        DisconnectReason::SubscriberError => crate::messages::PlaybackDisconnectReasonV1::SubscriberError,
    }
}

impl StopReason {
    pub fn to_wire(self) -> (r: crate::messages::PlaybackStopReasonV1)
        ensures
            r == spec_stop_reason_to_wire(self),
    {
        match self {
            StopReason::HostError => crate::messages::PlaybackStopReasonV1::HostError,
            StopReason::StoppedByHost => crate::messages::PlaybackStopReasonV1::StoppedByHost,
            StopReason::Superseded => crate::messages::PlaybackStopReasonV1::Superseded,
        }
    }
}

impl DisconnectReason {
    pub fn to_wire(self) -> (r: crate::messages::PlaybackDisconnectReasonV1)
        ensures
            r == spec_disconnect_reason_to_wire(self),
    {
        match self {
            DisconnectReason::User => crate::messages::PlaybackDisconnectReasonV1::User,
            DisconnectReason::Stopped(sr) => crate::messages::PlaybackDisconnectReasonV1::Stopped(
                sr.to_wire(),
            ),
            DisconnectReason::SubscriberError => crate::messages::PlaybackDisconnectReasonV1::SubscriberError,
        }
    }
}

// ---------------------------------------------------------------------
// Session links
// ---------------------------------------------------------------------

/// What the room side knows of a session: its identity, its display name,
/// and the latest measured clock offset (milliseconds its clock runs ahead
/// of the server's).
#[derive(Debug, Clone, PartialEq, Eq)]
pub struct SessionLink {
    pub id: SessionId,
    pub name: String,
    pub time_offset: i64,
}

/// The mathematical content of a `SessionLink`.
pub struct SessionLinkV {
    pub id: SessionId,
    pub name: Seq<char>,
    pub time_offset: i64,
}

impl View for SessionLink {
    type V = SessionLinkV;

    open spec fn view(&self) -> SessionLinkV {
        SessionLinkV { id: self.id, name: self.name@, time_offset: self.time_offset }
    }
}

impl SessionLink {
    pub fn duplicate(&self) -> (r: Self)
        ensures
            r@ == self@,
    {
        SessionLink { id: self.id, name: self.name.clone(), time_offset: self.time_offset }
    }
}

pub open spec fn links_view(s: Seq<SessionLink>) -> Seq<SessionLinkV> {
    Seq::new(s.len(), |i: int| s[i]@)
}

/// Whether some link in `s` belongs to session `id`.
pub open spec fn has_link(s: Seq<SessionLinkV>, id: SessionId) -> bool {
    exists|i: int| 0 <= i < s.len() && s[i].id == id
}

/// The first position in `s` whose link belongs to session `id`.
pub open spec fn link_idx(s: Seq<SessionLinkV>, id: SessionId) -> int
    decreases s.len(),
{
    if s.len() == 0 {
        0
    } else if s[0].id == id {
        0
    } else {
        1 + link_idx(s.drop_first(), id)
    }
}

/// `link_idx` finds the first matching position.
pub proof fn lemma_link_idx(s: Seq<SessionLinkV>, id: SessionId)
    requires
        has_link(s, id),
    ensures
        0 <= link_idx(s, id) < s.len(),
        s[link_idx(s, id)].id == id,
        forall|j: int| 0 <= j < link_idx(s, id) ==> s[j].id != id,
    decreases s.len(),
{
    if s.len() > 0 && s[0].id != id {
        assert(has_link(s.drop_first(), id)) by {
            let i = choose|i: int| 0 <= i < s.len() && s[i].id == id;
            assert(s.drop_first()[i - 1].id == id);
        }
        lemma_link_idx(s.drop_first(), id);
        let k = link_idx(s, id);
        assert(k == 1 + link_idx(s.drop_first(), id));
        assert forall|j: int| 0 <= j < k implies s[j].id != id by {
            if j > 0 {
                assert(s.drop_first()[j - 1] == s[j]);
                assert(s.drop_first()[j - 1].id != id);
            }
        }
    }
}

// ---------------------------------------------------------------------
// The coordinator and its spec twins
// ---------------------------------------------------------------------

/// Host plus subscribers of one sync channel.
#[derive(Debug, Clone, PartialEq, Eq)]
pub struct Playback {
    pub running: bool,
    pub source: Option<PlaybackSource>,
    pub host: SessionLink,
    pub subscribers: Vec<SessionLink>,
}

/// The mathematical content of a `Playback`.
pub struct PlaybackV {
    pub running: bool,
    pub source: Option<PlaybackSourceView>,
    pub host: SessionLinkV,
    pub subscribers: Seq<SessionLinkV>,
}

impl View for Playback {
    type V = PlaybackV;

    open spec fn view(&self) -> PlaybackV {
        PlaybackV {
            running: self.running,
            source: opt_source_view(self.source),
            host: self.host@,
            subscribers: links_view(self.subscribers@),
        }
    }
}

impl PlaybackV {
    /// Subscribers are pairwise distinct sessions, and the host is never
    /// among them.
    pub open spec fn wf(self) -> bool {
        &&& forall|i: int, j: int|
            0 <= i < j < self.subscribers.len() ==> self.subscribers[i].id != self.subscribers[j].id
        &&& forall|i: int| 0 <= i < self.subscribers.len() ==> self.subscribers[i].id != self.host.id
    }

    pub open spec fn is_participant(self, id: SessionId) -> bool {
        id == self.host.id || has_link(self.subscribers, id)
    }

    /// The clock offset the coordinator holds for a participant.
    pub open spec fn offset_of(self, id: SessionId) -> int {
        if id == self.host.id {
            self.host.time_offset as int
        } else {
            self.subscribers[link_idx(self.subscribers, id)].time_offset as int
        }
    }

    /// What a joiner is told about this playback.
    pub open spec fn info(self) -> PlaybackInfoV {
        PlaybackInfoV { host: self.host.name, source: self.source }
    }
}

/// The fresh coordinator for a host: not running, no source, nobody
/// subscribed.
pub open spec fn spec_new_playback(host: SessionLinkV) -> PlaybackV {
    PlaybackV { running: false, source: None, host, subscribers: Seq::empty() }
}

/// Deliveries of a successful start: the host learns the playback
/// started, every subscriber learns what became available.
pub open spec fn start_effects(p: PlaybackV, source: PlaybackSourceView) -> Seq<DeliveryV> {
    seq![DeliveryV { target: p.host.id, msg: SessionMsgV::PlaybackStarted }]
        + Seq::new(p.subscribers.len(), |i: int| DeliveryV {
            target: p.subscribers[i].id,
            msg: SessionMsgV::PlaybackAvailable(PlaybackInfoV {
                host: p.host.name,
                source: Some(source),
            }),
        })
}

/// Start: a no-op while running, otherwise the playback begins with the
/// given source.
pub open spec fn spec_start(p: PlaybackV, source: PlaybackSourceView) -> (PlaybackV, Seq<DeliveryV>) {
    if p.running {
        (p, Seq::empty())
    } else {
        (PlaybackV { running: true, source: Some(source), ..p }, start_effects(p, source))
    }
}

/// Deliveries of a stop: every subscriber is disconnected with the stop
/// reason, then the host learns the playback stopped.
pub open spec fn stop_effects(p: PlaybackV, reason: StopReason) -> Seq<DeliveryV> {
    Seq::new(p.subscribers.len(), |i: int| DeliveryV {
        target: p.subscribers[i].id,
        msg: SessionMsgV::PlaybackDisconnected(DisconnectReason::Stopped(reason)),
    }) + seq![DeliveryV { target: p.host.id, msg: SessionMsgV::PlaybackStopped(reason) }]
}

/// Stop: a no-op while not running, otherwise the playback ends and the
/// sync channel empties.
pub open spec fn spec_stop(p: PlaybackV, reason: StopReason) -> (PlaybackV, Seq<DeliveryV>) {
    if !p.running {
        (p, Seq::empty())
    } else {
        (
            PlaybackV { running: false, source: None, subscribers: Seq::empty(), ..p },
            stop_effects(p, reason),
        )
    }
}

/// Connect: only to a running playback, never for the host; a session
/// already subscribed has its link refreshed in place.
pub open spec fn spec_connect(p: PlaybackV, user: SessionLinkV) -> Result<
    (PlaybackV, Seq<DeliveryV>),
    PlaybackError,
> {
    if !p.running {
        Err(PlaybackError::NotRunning)
    } else if user.id == p.host.id {
        Err(PlaybackError::HostConnect)
    } else {
        let subscribers = if has_link(p.subscribers, user.id) {
            p.subscribers.update(link_idx(p.subscribers, user.id), user)
        } else {
            p.subscribers.push(user)
        };
        Ok(
            (
                PlaybackV { subscribers, ..p },
                seq![DeliveryV { target: user.id, msg: SessionMsgV::PlaybackConnected }],
            ),
        )
    }
}

/// Disconnect: drops the subscriber, if present, and tells it why.
pub open spec fn spec_disconnect(p: PlaybackV, id: SessionId, reason: DisconnectReason) -> (
    PlaybackV,
    Seq<DeliveryV>,
) {
    if has_link(p.subscribers, id) {
        (
            PlaybackV { subscribers: p.subscribers.remove(link_idx(p.subscribers, id)), ..p },
            seq![DeliveryV { target: id, msg: SessionMsgV::PlaybackDisconnected(reason) }],
        )
    } else {
        (p, Seq::empty())
    }
}

/// The sync deliveries for the subscribers: each one except the reporter
/// receives the normalized report re-expressed in its own clock.
pub open spec fn sync_sub_effects(
    subs: Seq<SessionLinkV>,
    reporter: SessionId,
    normalized: PlaybackState,
) -> Seq<DeliveryV>
    decreases subs.len(),
{
    if subs.len() == 0 {
        Seq::empty()
    } else {
        let rest = sync_sub_effects(subs.drop_first(), reporter, normalized);
        if subs[0].id == reporter {
            rest
        } else {
            seq![DeliveryV {
                target: subs[0].id,
                msg: SessionMsgV::PlaybackSync(spec_shift_state(normalized, subs[0].time_offset as int)),
            }] + rest
        }
    }
}

/// Sync: the report is first normalized to server time by the reporter's
/// offset; a report from a subscriber also goes to the host, in host
/// time; every other subscriber receives it in its own time. The
/// coordinator itself does not change.
pub open spec fn spec_sync(p: PlaybackV, reporter: SessionId, state: PlaybackState) -> Seq<DeliveryV> {
    let normalized = spec_shift_state(state, -p.offset_of(reporter));
    let host_part = if reporter != p.host.id {
        seq![DeliveryV {
            target: p.host.id,
            msg: SessionMsgV::PlaybackSync(spec_shift_state(normalized, p.host.time_offset as int)),
        }]
    } else {
        Seq::empty()
    };
    host_part + sync_sub_effects(p.subscribers, reporter, normalized)
}

/// The coordinator after session `id` reports a fresh clock offset: any
/// link of that session carries the new offset.
pub open spec fn spec_refresh_offset(p: PlaybackV, id: SessionId, offset: i64) -> PlaybackV {
    let host = if p.host.id == id {
        SessionLinkV { time_offset: offset, ..p.host }
    } else {
        p.host
    };
    let subscribers = if has_link(p.subscribers, id) {
        let k = link_idx(p.subscribers, id);
        p.subscribers.update(k, SessionLinkV { time_offset: offset, ..p.subscribers[k] })
    } else {
        p.subscribers
    };
    PlaybackV { host, subscribers, ..p }
}

/// One playback request, dispatched with the permission rules: only a
/// participant is heard at all, and only the host may start or stop.
pub open spec fn spec_handle_request(p: PlaybackV, id: SessionId, request: PlaybackRequest) -> Result<
    (PlaybackV, Seq<DeliveryV>),
    PlaybackError,
> {
    if !p.is_participant(id) {
        Err(PlaybackError::NotParticipant)
    } else {
        match request {
            PlaybackRequest::Start(source) => if id != p.host.id {
                Err(PlaybackError::NotHost)
            } else {
                Ok(spec_start(p, source@))
            },
            PlaybackRequest::Disconnect(reason) => Ok(spec_disconnect(p, id, reason)),
            PlaybackRequest::Stop(reason) => if id != p.host.id {
                Err(PlaybackError::NotHost)
            } else {
                Ok(spec_stop(p, reason))
            },
            PlaybackRequest::Sync(state) => Ok((p, spec_sync(p, id, state))),
        }
    }
}

/// `deliveries_view` distributes over push.
pub proof fn lemma_deliveries_push(s: Seq<Delivery>, d: Delivery)
    ensures
        deliveries_view(s.push(d)) =~= deliveries_view(s) + seq![d@],
{
}

impl Playback {
    /// The position of the subscriber link of session `id`, if any.
    fn find_sub(&self, id: SessionId) -> (r: Option<usize>)
        ensures
            match r {
                Some(i) => has_link(self@.subscribers, id) && i == link_idx(self@.subscribers, id)
                    && i < self.subscribers@.len(),
                None => !has_link(self@.subscribers, id),
            },
    {
        let ghost lv = self@.subscribers;
        let n = self.subscribers.len();
        let mut i: usize = 0;
        while i < n
            invariant
                n == self.subscribers@.len(),
                lv == self@.subscribers,
                lv.len() == n,
                i <= n,
                forall|j: int| 0 <= j < i ==> lv[j].id != id,
            decreases n - i,
        {
            if self.subscribers[i].id == id {
                proof {
                    assert(lv[i as int] == self.subscribers@[i as int]@);
                    assert(lv[i as int].id == id);
                    assert(has_link(lv, id));
                    lemma_link_idx(lv, id);
                    let k = link_idx(lv, id);
                    assert(k >= i) by {
                        if k < i {
                            assert(lv[k].id != id);
                        }
                    }
                    assert(k <= i) by {
                        if k > i {
                            assert(lv[i as int].id != id);
                        }
                    }
                }
                return Some(i);
            }
            i = i + 1;
        }
        proof {
            if has_link(lv, id) {
                let w = choose|w: int| 0 <= w < lv.len() && lv[w].id == id;
                assert(lv[w].id != id);
            }
        }
        None
    }

    pub fn new(host: SessionLink) -> (p: Self)
        ensures
            p@ == spec_new_playback(host@),
            p@.wf(),
    {
        let p = Playback { running: false, source: None, host, subscribers: Vec::new() };
        proof {
            assert(p@.subscribers =~= Seq::<SessionLinkV>::empty());
            assert(p@ =~= spec_new_playback(p.host@));
        }
        p
    }

    pub fn get_info(&self) -> (info: PlaybackInfo)
        ensures
            info@ == self@.info(),
    {
        let source = match &self.source {
            None => None,
            Some(src) => Some(src.duplicate()),
        };
        PlaybackInfo { host: self.host.name.clone(), source }
    }

    /// Begins playback of `source`; a no-op while already running.
    pub fn start(&mut self, source: PlaybackSource) -> (fx: Vec<Delivery>)
        ensures
            (final(self)@, deliveries_view(fx@)) == spec_start(old(self)@, source@),
    {
        let ghost p0 = self@;
        if self.running {
            let fx: Vec<Delivery> = Vec::new();
            proof {
                assert(deliveries_view(fx@) =~= Seq::<DeliveryV>::empty());
            }
            return fx;
        }
        let mut fx: Vec<Delivery> = Vec::new();
        fx.push(Delivery { target: self.host.id, msg: SessionMsg::PlaybackStarted });
        let n = self.subscribers.len();
        let mut i: usize = 0;
        while i < n
            invariant
                n == self.subscribers@.len(),
                self@ == p0,
                i <= n,
                deliveries_view(fx@) =~= start_effects(p0, source@).take(1 + i as int),
            decreases n - i,
        {
            let sub = &self.subscribers[i];
            let info = PlaybackInfo {
                host: self.host.name.clone(),
                source: Some(source.duplicate()),
            };
            let d = Delivery { target: sub.id, msg: SessionMsg::PlaybackAvailable(info) };
            proof {
                lemma_deliveries_push(fx@, d);
                assert(d@ == start_effects(p0, source@)[1 + i as int]);
                assert(deliveries_view(fx@) + seq![d@]
                    =~= start_effects(p0, source@).take(2 + i as int));
            }
            fx.push(d);
            i = i + 1;
        }
        self.running = true;
        self.source = Some(source);
        proof {
            assert(final(self)@ == (PlaybackV { running: true, source: Some(source@), ..p0 }));
            assert(deliveries_view(fx@) =~= start_effects(p0, source@));
        }
        fx
    }

    /// Ends playback: disconnects every subscriber with the stop reason
    /// and tells the host; a no-op while not running.
    pub fn stop(&mut self, reason: StopReason) -> (fx: Vec<Delivery>)
        ensures
            (final(self)@, deliveries_view(fx@)) == spec_stop(old(self)@, reason),
    {
        let ghost p0 = self@;
        if !self.running {
            let fx: Vec<Delivery> = Vec::new();
            proof {
                assert(deliveries_view(fx@) =~= Seq::<DeliveryV>::empty());
            }
            return fx;
        }
        let mut fx: Vec<Delivery> = Vec::new();
        let n = self.subscribers.len();
        let mut i: usize = 0;
        while i < n
            invariant
                n == self.subscribers@.len(),
                self@ == p0,
                i <= n,
                deliveries_view(fx@) =~= stop_effects(p0, reason).take(i as int),
            decreases n - i,
        {
            let sub = &self.subscribers[i];
            let d = Delivery {
                target: sub.id,
                msg: SessionMsg::PlaybackDisconnected(DisconnectReason::Stopped(reason)),
            };
            proof {
                lemma_deliveries_push(fx@, d);
                assert(d@ == stop_effects(p0, reason)[i as int]);
                assert(deliveries_view(fx@) + seq![d@]
                    =~= stop_effects(p0, reason).take(1 + i as int));
            }
            fx.push(d);
            i = i + 1;
        }
        let d = Delivery { target: self.host.id, msg: SessionMsg::PlaybackStopped(reason) };
        proof {
            lemma_deliveries_push(fx@, d);
            assert(d@ == stop_effects(p0, reason)[p0.subscribers.len() as int]);
            assert(deliveries_view(fx@) + seq![d@] =~= stop_effects(p0, reason));
        }
        fx.push(d);
        self.running = false;
        self.source = None;
        self.subscribers.clear();
        proof {
            assert(final(self)@ == (PlaybackV {
                running: false,
                source: None,
                subscribers: Seq::empty(),
                ..p0
            })) by {
                assert(links_view(final(self).subscribers@) =~= Seq::<SessionLinkV>::empty());
            }
        }
        fx
    }

    /// Adds a session to the sync channel of a running playback.
    pub fn connect(&mut self, user: SessionLink) -> (r: Result<Vec<Delivery>, PlaybackError>)
        ensures
            match r {
                Ok(fx) => spec_connect(old(self)@, user@)
                    == Ok::<_, PlaybackError>((final(self)@, deliveries_view(fx@))),
                Err(e) => spec_connect(old(self)@, user@) == Err::<(PlaybackV, Seq<DeliveryV>), _>(e)
                    && final(self)@ == old(self)@,
            },
    {
        let ghost p0 = self@;
        if !self.running {
            return Err(PlaybackError::NotRunning);
        }
        if user.id == self.host.id {
            return Err(PlaybackError::HostConnect);
        }
        let target = user.id;
        let d = Delivery { target, msg: SessionMsg::PlaybackConnected };
        match self.find_sub(user.id) {
            Some(i) => {
                self.subscribers.set(i, user);
                proof {
                    assert(links_view(final(self).subscribers@)
                        =~= p0.subscribers.update(link_idx(p0.subscribers, target), user@));
                }
            },
            None => {
                self.subscribers.push(user);
                proof {
                    assert(links_view(final(self).subscribers@)
                        =~= p0.subscribers.push(user@));
                }
            },
        }
        let mut fx: Vec<Delivery> = Vec::new();
        fx.push(d);
        proof {
            assert(deliveries_view(fx@)
                =~= seq![DeliveryV { target, msg: SessionMsgV::PlaybackConnected }]);
        }
        Ok(fx)
    }

    /// Removes a session from the sync channel, if subscribed, and tells
    /// it why.
    pub fn disconnect(&mut self, id: SessionId, reason: DisconnectReason) -> (fx: Vec<Delivery>)
        ensures
            (final(self)@, deliveries_view(fx@)) == spec_disconnect(old(self)@, id, reason),
    {
        let ghost p0 = self@;
        match self.find_sub(id) {
            None => {
                let fx: Vec<Delivery> = Vec::new();
                proof {
                    assert(deliveries_view(fx@) =~= Seq::<DeliveryV>::empty());
                }
                fx
            },
            Some(i) => {
                self.subscribers.remove(i);
                let mut fx: Vec<Delivery> = Vec::new();
                fx.push(Delivery { target: id, msg: SessionMsg::PlaybackDisconnected(reason) });
                proof {
                    assert(links_view(final(self).subscribers@)
                        =~= p0.subscribers.remove(link_idx(p0.subscribers, id)));
                    assert(deliveries_view(fx@) =~= seq![DeliveryV {
                        target: id,
                        msg: SessionMsgV::PlaybackDisconnected(reason),
                    }]);
                }
                fx
            },
        }
    }

    /// Forwards a position report to every other participant, each in its
    /// own clock.
    fn sync(&self, id: SessionId, state: PlaybackState) -> (fx: Vec<Delivery>)
        requires
            self@.is_participant(id),
        ensures
            deliveries_view(fx@) == spec_sync(self@, id, state),
    {
        let ghost p0 = self@;
        let reporter_offset: i64 = if id == self.host.id {
            self.host.time_offset
        } else {
            let i = match self.find_sub(id) {
                Some(i) => i,
                None => {
                    proof {
                        assert(false);
                    }
                    0
                },
            };
            self.subscribers[i].time_offset
        };
        assert(reporter_offset as int == p0.offset_of(id));
        let normalized = state.normalize_offset(reporter_offset);
        let ghost norm = spec_shift_state(state, -p0.offset_of(id));
        assert(normalized == norm);
        let ghost host_part = if id != p0.host.id {
            seq![DeliveryV {
                target: p0.host.id,
                msg: SessionMsgV::PlaybackSync(spec_shift_state(norm, p0.host.time_offset as int)),
            }]
        } else {
            Seq::<DeliveryV>::empty()
        };

        let mut fx: Vec<Delivery> = Vec::new();
        if id != self.host.id {
            let d = Delivery {
                target: self.host.id,
                msg: SessionMsg::PlaybackSync(normalized.incorporate_offset(self.host.time_offset)),
            };
            proof {
                lemma_deliveries_push(fx@, d);
            }
            fx.push(d);
        }
        proof {
            assert(deliveries_view(fx@) =~= host_part);
            assert(p0.subscribers.skip(0) =~= p0.subscribers);
        }
        let n = self.subscribers.len();
        let mut i: usize = 0;
        while i < n
            invariant
                n == self.subscribers@.len(),
                self@ == p0,
                i <= n,
                normalized == norm,
                deliveries_view(fx@) + sync_sub_effects(p0.subscribers.skip(i as int), id, norm)
                    =~= host_part + sync_sub_effects(p0.subscribers, id, norm),
            decreases n - i,
        {
            let ghost pending = p0.subscribers.skip(i as int);
            proof {
                assert(pending[0] == p0.subscribers[i as int]);
                assert(p0.subscribers[i as int] == self.subscribers@[i as int]@);
                assert(pending.drop_first() =~= p0.subscribers.skip(i + 1));
            }
            let sub = &self.subscribers[i];
            if sub.id != id {
                let shifted = normalized.incorporate_offset(sub.time_offset);
                let d = Delivery { target: sub.id, msg: SessionMsg::PlaybackSync(shifted) };
                proof {
                    lemma_deliveries_push(fx@, d);
                    assert(pending[0].id == sub.id);
                    assert(pending[0].time_offset == sub.time_offset);
                    assert(shifted == spec_shift_state(norm, pending[0].time_offset as int));
                    assert(d@ == (DeliveryV {
                        target: pending[0].id,
                        msg: SessionMsgV::PlaybackSync(spec_shift_state(
                            norm,
                            pending[0].time_offset as int,
                        )),
                    }));
                    assert(sync_sub_effects(pending, id, norm)
                        =~= seq![d@] + sync_sub_effects(pending.drop_first(), id, norm));
                    assert(seq![d@] + sync_sub_effects(p0.subscribers.skip(i + 1), id, norm)
                        =~= sync_sub_effects(pending, id, norm));
                }
                fx.push(d);
            } else {
                proof {
                    assert(pending[0].id == id);
                    assert(sync_sub_effects(pending, id, norm)
                        == sync_sub_effects(pending.drop_first(), id, norm));
                    assert(sync_sub_effects(pending.drop_first(), id, norm)
                        == sync_sub_effects(p0.subscribers.skip(i + 1), id, norm));
                }
            }
            i = i + 1;
        }
        proof {
            assert(p0.subscribers.skip(n as int) =~= Seq::<SessionLinkV>::empty());
            assert(deliveries_view(fx@) =~= host_part + sync_sub_effects(p0.subscribers, id, norm));
        }
        fx
    }

    /// Carries a freshly measured clock offset into every link this
    /// coordinator holds for session `id`.
    pub(crate) fn refresh_offset(&mut self, id: SessionId, offset: i64) -> (r: ())
        ensures
            final(self)@ == spec_refresh_offset(old(self)@, id, offset),
    {
        let ghost p0 = self@;
        if self.host.id == id {
            self.host.time_offset = offset;
        }
        proof {
            assert(self.host@ == spec_refresh_offset(p0, id, offset).host);
        }
        match self.find_sub(id) {
            None => {
                proof {
                    assert(links_view(self.subscribers@)
                        == spec_refresh_offset(p0, id, offset).subscribers);
                }
            },
            Some(i) => {
                let mut link = self.subscribers[i].duplicate();
                link.time_offset = offset;
                self.subscribers.set(i, link);
                proof {
                    let k = link_idx(p0.subscribers, id);
                    assert(links_view(self.subscribers@)
                        =~= p0.subscribers.update(k, SessionLinkV {
                            time_offset: offset,
                            ..p0.subscribers[k]
                        }));
                }
            },
        }
    }

    /// Dispatches one request under the permission rules: only
    /// participants are heard, and only the host starts or stops.
    pub fn handle_request(&mut self, session_id: SessionId, request: PlaybackRequest) -> (r: Result<
        Vec<Delivery>,
        PlaybackError,
    >)
        ensures
            match r {
                Ok(fx) => spec_handle_request(old(self)@, session_id, request)
                    == Ok::<_, PlaybackError>((final(self)@, deliveries_view(fx@))),
                Err(e) => spec_handle_request(old(self)@, session_id, request)
                    == Err::<(PlaybackV, Seq<DeliveryV>), _>(e) && final(self)@ == old(self)@,
            },
    {
        let is_host = session_id == self.host.id;
        if !is_host {
            match self.find_sub(session_id) {
                Some(_) => (),
                None => {
                    return Err(PlaybackError::NotParticipant);
                },
            }
        }
        match request {
            PlaybackRequest::Start(source) => {
                if !is_host {
                    return Err(PlaybackError::NotHost);
                }
                Ok(self.start(source))
            },
            PlaybackRequest::Disconnect(reason) => Ok(self.disconnect(session_id, reason)),
            PlaybackRequest::Stop(reason) => {
                if !is_host {
                    return Err(PlaybackError::NotHost);
                }
                Ok(self.stop(reason))
            },
            PlaybackRequest::Sync(state) => Ok(self.sync(session_id, state)),
        }
    }
}

// ---------------------------------------------------------------------
// Laws of the coordinator
// ---------------------------------------------------------------------

/// Stopping twice is the same as stopping once: the second stop changes
/// nothing and delivers nothing.
pub proof fn lemma_stop_idempotent(p: PlaybackV, first: StopReason, second: StopReason)
    ensures
        spec_stop(spec_stop(p, first).0, second).0 == spec_stop(p, first).0,
        spec_stop(spec_stop(p, first).0, second).1 == Seq::<DeliveryV>::empty(),
{
}

/// A started playback keeps its host, and starting never touches the
/// subscriber list.
pub proof fn lemma_start_preserves_members(p: PlaybackV, source: PlaybackSourceView)
    ensures
        spec_start(p, source).0.host == p.host,
        spec_start(p, source).0.subscribers == p.subscribers,
{
}

/// Every step of the coordinator preserves well-formedness: subscribers
/// stay pairwise distinct and the host never subscribes to itself.
pub proof fn lemma_handle_request_preserves_wf(
    p: PlaybackV,
    id: SessionId,
    request: PlaybackRequest,
)
    requires
        p.wf(),
    ensures
        match spec_handle_request(p, id, request) {
            Ok(step) => step.0.wf(),
            Err(_) => true,
        },
{
    if p.is_participant(id) {
        match request {
            PlaybackRequest::Disconnect(reason) => {
                if has_link(p.subscribers, id) {
                    lemma_link_idx(p.subscribers, id);
                    let k = link_idx(p.subscribers, id);
                    let s2 = p.subscribers.remove(k);
                    assert forall|i: int, j: int| 0 <= i < j < s2.len() implies s2[i].id
                        != s2[j].id by {
                        assert(s2[i] == if i < k { p.subscribers[i] } else { p.subscribers[i + 1] });
                        assert(s2[j] == if j < k { p.subscribers[j] } else { p.subscribers[j + 1] });
                    }
                    assert forall|i: int| 0 <= i < s2.len() implies s2[i].id != p.host.id by {
                        assert(s2[i] == if i < k { p.subscribers[i] } else { p.subscribers[i + 1] });
                    }
                }
            },
            _ => (),
        }
    }
}

/// Disconnecting preserves well-formedness.
pub proof fn lemma_disconnect_preserves_wf(p: PlaybackV, id: SessionId, reason: DisconnectReason)
    requires
        p.wf(),
    ensures
        spec_disconnect(p, id, reason).0.wf(),
        spec_disconnect(p, id, reason).0.host == p.host,
        forall|i: int|
            0 <= i < spec_disconnect(p, id, reason).0.subscribers.len()
                ==> exists|j: int|
                0 <= j < p.subscribers.len() && p.subscribers[j]
                    == #[trigger] spec_disconnect(p, id, reason).0.subscribers[i],
{
    if has_link(p.subscribers, id) {
        lemma_link_idx(p.subscribers, id);
        let k = link_idx(p.subscribers, id);
        let s2 = p.subscribers.remove(k);
        assert forall|i: int, j: int| 0 <= i < j < s2.len() implies s2[i].id != s2[j].id by {
            assert(s2[i] == if i < k { p.subscribers[i] } else { p.subscribers[i + 1] });
            assert(s2[j] == if j < k { p.subscribers[j] } else { p.subscribers[j + 1] });
        }
        assert forall|i: int| 0 <= i < s2.len() implies s2[i].id != p.host.id by {
            assert(s2[i] == if i < k { p.subscribers[i] } else { p.subscribers[i + 1] });
        }
        assert forall|i: int| 0 <= i < s2.len() implies exists|j: int|
            0 <= j < p.subscribers.len() && p.subscribers[j] == #[trigger] s2[i] by {
            if i < k {
                assert(p.subscribers[i] == s2[i]);
            } else {
                assert(p.subscribers[i + 1] == s2[i]);
            }
        }
    }
}

/// A request never invents participants: the host stays the host, and
/// every subscriber left afterwards was a subscriber before.
pub proof fn lemma_handle_request_participants(
    p: PlaybackV,
    id: SessionId,
    request: PlaybackRequest,
)
    requires
        p.wf(),
    ensures
        match spec_handle_request(p, id, request) {
            Ok(step) => step.0.host == p.host && forall|i: int|
                0 <= i < step.0.subscribers.len() ==> exists|j: int|
                    0 <= j < p.subscribers.len() && p.subscribers[j]
                        == #[trigger] step.0.subscribers[i],
            Err(_) => true,
        },
{
    if p.is_participant(id) {
        match request {
            PlaybackRequest::Disconnect(reason) => {
                lemma_disconnect_preserves_wf(p, id, reason);
            },
            _ => (),
        }
    }
}

/// Connecting preserves well-formedness.
pub proof fn lemma_connect_preserves_wf(p: PlaybackV, user: SessionLinkV)
    requires
        p.wf(),
    ensures
        match spec_connect(p, user) {
            Ok(step) => step.0.wf(),
            Err(_) => true,
        },
{
    if p.running && user.id != p.host.id {
        if has_link(p.subscribers, user.id) {
            lemma_link_idx(p.subscribers, user.id);
        }
    }
}

} // verus!
