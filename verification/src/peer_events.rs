//! What is logged of the events of the peer.
use crate::text::Text;
use vstd::prelude::*;

verus! {

/// What became of something that was gossiped.
#[derive(Debug)]
pub enum PutResult {
    /// It was applied.
    Applied,
    /// Anything else, with its description.
    Other { description: String },
}

/// An event of the peer. All values are given as they are shown.
#[derive(Debug)]
pub enum PeerEvent {
    /// The waiting room has changed its state on an event.
    WaitingRoomTransition { event: String },
    /// Something was fetched because it was gossiped.
    GossipFetched {
        provider_id: String,
        provider_seen_addrs: String,
        urn: String,
        rev: String,
        origin: String,
        result: PutResult,
    },
    /// Any other event.
    Other,
}

/// The mathematical value of a [`PutResult`].
pub enum PutResultView {
    Applied,
    Other { description: Text },
}

impl View for PutResult {
    type V = PutResultView;

    open spec fn view(&self) -> PutResultView {
        match self {
            PutResult::Applied => PutResultView::Applied,
            PutResult::Other { description } => PutResultView::Other { description: description@ },
        }
    }
}

/// The mathematical value of a [`PeerEvent`].
pub enum PeerEventView {
    WaitingRoomTransition { event: Text },
    GossipFetched {
        provider_id: Text,
        provider_seen_addrs: Text,
        urn: Text,
        rev: Text,
        origin: Text,
        result: PutResultView,
    },
    Other,
}

impl View for PeerEvent {
    type V = PeerEventView;

    open spec fn view(&self) -> PeerEventView {
        match self {
            PeerEvent::WaitingRoomTransition { event } => PeerEventView::WaitingRoomTransition {
                event: event@,
            },
            PeerEvent::GossipFetched {
                provider_id,
                provider_seen_addrs,
                urn,
                rev,
                origin,
                result,
            } => PeerEventView::GossipFetched {
                provider_id: provider_id@,
                provider_seen_addrs: provider_seen_addrs@,
                urn: urn@,
                rev: rev@,
                origin: origin@,
                result: result@,
            },
            PeerEvent::Other => PeerEventView::Other,
        }
    }
}

/// A record in the log.
#[derive(Debug)]
pub enum PeerLog {
    /// The waiting room has changed its state on an event.
    WaitingRoomTransition { event: String },
    /// Something was put into the storage, or not.
    StoragePut {
        provider_id: String,
        provider_seen_addrs: String,
        urn: String,
        rev: String,
        origin: String,
        result: String,
    },
}

/// The mathematical value of a [`PeerLog`].
pub enum PeerLogView {
    WaitingRoomTransition { event: Text },
    StoragePut {
        provider_id: Text,
        provider_seen_addrs: Text,
        urn: Text,
        rev: Text,
        origin: Text,
        result: Text,
    },
}

impl DeepView for PeerLog {
    type V = PeerLogView;

    open spec fn deep_view(&self) -> PeerLogView {
        match self {
            PeerLog::WaitingRoomTransition { event } => PeerLogView::WaitingRoomTransition {
                event: event@,
            },
            PeerLog::StoragePut { provider_id, provider_seen_addrs, urn, rev, origin, result } =>
            PeerLogView::StoragePut {
                provider_id: provider_id@,
                provider_seen_addrs: provider_seen_addrs@,
                urn: urn@,
                rev: rev@,
                origin: origin@,
                result: result@,
            },
        }
    }
}

/// How the result of a fetch is shown: that something was applied is shown without what it was.
pub open spec fn shown_result(result: PutResultView) -> Text {
    match result {
        PutResultView::Applied => "Applied"@,
        PutResultView::Other { description } => description,
    }
}

/// What is logged of an event, if anything.
pub open spec fn logged(event: PeerEventView) -> Option<PeerLogView> {
    match event {
        PeerEventView::WaitingRoomTransition { event } => Some(
            PeerLogView::WaitingRoomTransition { event },
        ),
        PeerEventView::GossipFetched {
            provider_id,
            provider_seen_addrs,
            urn,
            rev,
            origin,
            result,
        } => Some(
            PeerLogView::StoragePut {
                provider_id,
                provider_seen_addrs,
                urn,
                rev,
                origin,
                result: shown_result(result),
            },
        ),
        PeerEventView::Other => None,
    }
}

/// Makes the record of an event of the peer; most events leave none.
pub fn log_daemon_peer_event(event: PeerEvent) -> (record: Option<PeerLog>)
    ensures
        record.deep_view() == logged(event@),
{
    match event {
        PeerEvent::WaitingRoomTransition { event } => Some(PeerLog::WaitingRoomTransition { event }),
        PeerEvent::GossipFetched {
            provider_id,
            provider_seen_addrs,
            urn,
            rev,
            origin,
            result,
        } => {
            let result = match result {
                PutResult::Applied => "Applied".to_string(),
                PutResult::Other { description } => description,
            };
            Some(
                PeerLog::StoragePut { provider_id, provider_seen_addrs, urn, rev, origin, result },
            )
        },
        PeerEvent::Other => None,
    }
}

/// The message of a record.
pub open spec fn log_message(record: PeerLogView) -> Text {
    match record {
        PeerLogView::WaitingRoomTransition { .. } => "waiting room transition"@,
        PeerLogView::StoragePut { .. } => "storage put"@,
    }
}

impl PeerLog {
    /// The message of the record.
    pub fn message(&self) -> (message: String)
        ensures
            message@ == log_message(self.deep_view()),
    {
        match self {
            PeerLog::WaitingRoomTransition { .. } => "waiting room transition".to_string(),
            PeerLog::StoragePut { .. } => "storage put".to_string(),
        }
    }
}

/// Events and records are seen as they are.
pub proof fn law_views_of_peer_events(event: PeerEvent, result: PutResult, record: PeerLog)
    ensures
        match event {
            PeerEvent::WaitingRoomTransition { event: transition } => event@ == (
            PeerEventView::WaitingRoomTransition { event: transition@ }),
            PeerEvent::GossipFetched {
                provider_id,
                provider_seen_addrs,
                urn,
                rev,
                origin,
                result: put,
            } => {
                &&& event@ is GossipFetched
                &&& event@->provider_id == provider_id@
                &&& event@->provider_seen_addrs == provider_seen_addrs@
                &&& event@->urn == urn@
                &&& event@->rev == rev@
                &&& event@->origin == origin@
                &&& event@->result == put@
            },
            PeerEvent::Other => event@ == PeerEventView::Other,
        },
        match result {
            PutResult::Applied => result@ == PutResultView::Applied,
            PutResult::Other { description } => result@ == (PutResultView::Other {
                description: description@,
            }),
        },
        match record {
            PeerLog::WaitingRoomTransition { event: transition } => record.deep_view() == (
            PeerLogView::WaitingRoomTransition { event: transition@ }),
            PeerLog::StoragePut {
                provider_id,
                provider_seen_addrs,
                urn,
                rev,
                origin,
                result: put,
            } => {
                let view = record.deep_view();
                &&& view is StoragePut
                &&& view->provider_id == provider_id@
                &&& view->provider_seen_addrs == provider_seen_addrs@
                &&& view->urn == urn@
                &&& view->rev == rev@
                &&& view->origin == origin@
                &&& view->result == put@
            },
        },
{
}

/// A transition of the waiting room is logged with its event.
pub proof fn law_transition_is_logged(event: Text)
    ensures
        ({
            let record = logged(PeerEventView::WaitingRoomTransition { event });
            &&& record is Some
            &&& record->0 is WaitingRoomTransition
            &&& record->0->event == event
            &&& log_message(record->0) == "waiting room transition"@
        }),
{
}

/// Fetched gossip is logged with each value under its own name. Its result is logged as it is
/// described, but if it was applied it is logged as `Applied` alone.
pub proof fn law_fetched_gossip_is_logged(
    provider_id: Text,
    provider_seen_addrs: Text,
    urn: Text,
    rev: Text,
    origin: Text,
    result: PutResultView,
)
    ensures
        ({
            let record = logged(
                PeerEventView::GossipFetched {
                    provider_id,
                    provider_seen_addrs,
                    urn,
                    rev,
                    origin,
                    result,
                },
            );
            &&& record is Some
            &&& record->0 is StoragePut
            &&& record->0->provider_id == provider_id
            &&& record->0->provider_seen_addrs == provider_seen_addrs
            &&& record->0->urn == urn
            &&& record->0->rev == rev
            &&& record->0->origin == origin
            &&& result is Applied ==> record->0->result == "Applied"@
            &&& result matches PutResultView::Other { description } ==> record->0->result
                == description
            &&& log_message(record->0) == "storage put"@
        }),
{
}

/// No other event is logged.
pub proof fn law_other_events_are_not_logged(event: PeerEventView)
    ensures
        logged(event) is None <==> event is Other,
{
}

} // verus!
