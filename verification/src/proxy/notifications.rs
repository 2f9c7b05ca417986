//! Notifications from the console and from other proxies, and the caches that they keep
//! valid.
//!
//! Cached entries that notifications keep valid do not expire by time; while the proxy is not
//! connected to the notifications they do.
use vstd::prelude::*;

verus! {

/// How long to wait before connecting again, in seconds.
pub const RECONNECT_TIMEOUT: u64 = 20;

/// How long after an invalidation it is repeated, in seconds: an outdated entry may have been
/// on its way into the cache.
pub const INVALIDATION_LAG: u64 = 20;

/// The channels to subscribe to, in order.
pub fn channel_names() -> (r: (&'static str, &'static str))
    ensures
        r.0@ == "neondb-proxy-ws-updates"@,
        r.1@ == "neondb-proxy-to-proxy-updates"@,
{
    ("neondb-proxy-ws-updates", "neondb-proxy-to-proxy-updates")
}

/// By which a client names the query that it wants to be cancelled.
#[derive(Clone, Copy, Debug, PartialEq, Eq, Structural)]
pub struct CancelKeyData {
    pub backend_pid: i32,
    pub cancel_key: i32,
}

/// A request to cancel a session.
pub struct CancelSession {
    /// The region that it is meant for; all where there is none.
    pub region_id: Option<String>,
    pub cancel_key_data: CancelKeyData,
    pub session_id: u128,
}

/// A notification.
pub enum Notification {
    /// The addresses that may connect to a project have changed.
    AllowedIpsUpdate { project_id: String },
    /// A password of a project has changed.
    PasswordUpdate { project_id: String, role_name: String },
    Cancel(CancelSession),
}

/// Entries that are to leave the cache.
pub enum Invalidation {
    AllowedIps { project_id: String },
    RoleSecret { project_id: String, role_name: String },
}

/// What a notification leads to.
pub enum HandlerAction {
    /// Nothing: it could not be read, or is meant for another region.
    Ignore,
    /// Cancel the session, without telling other proxies.
    Cancel(CancelKeyData),
    /// Invalidate the entries now, and once more after a while.
    Invalidate { what: Invalidation, repeat_after: u64 },
}

/// What a notification leads to in a region.
pub open spec fn action_for(region: Seq<char>, msg: Option<Notification>) -> HandlerAction {
    match msg {
        None => HandlerAction::Ignore,
        Some(Notification::Cancel(session)) => if session.region_id matches Some(r) && r@ != region {
            HandlerAction::Ignore
        } else {
            HandlerAction::Cancel(session.cancel_key_data)
        },
        Some(Notification::AllowedIpsUpdate { project_id }) => HandlerAction::Invalidate {
            what: Invalidation::AllowedIps { project_id },
            repeat_after: INVALIDATION_LAG,
        },
        Some(Notification::PasswordUpdate { project_id, role_name }) => HandlerAction::Invalidate {
            what: Invalidation::RoleSecret { project_id, role_name },
            repeat_after: INVALIDATION_LAG,
        },
    }
}

/// Handles notifications in a region.
pub struct MessageHandler {
    pub region_id: String,
    /// Whether cached entries expire by time.
    pub ttl_enabled: bool,
}

impl MessageHandler {
    /// A handler that is not connected yet.
    pub fn new(region_id: String) -> (r: MessageHandler)
        ensures
            r.region_id == region_id,
            r.ttl_enabled,
    {
        MessageHandler { region_id, ttl_enabled: true }
    }

    /// From here on cached entries do not expire by time.
    pub fn disable_ttl(&mut self)
        ensures
            !final(self).ttl_enabled,
            final(self).region_id == old(self).region_id,
    {
        self.ttl_enabled = false;
    }

    /// From here on cached entries expire by time.
    pub fn enable_ttl(&mut self)
        ensures
            final(self).ttl_enabled,
            final(self).region_id == old(self).region_id,
    {
        self.ttl_enabled = true;
    }

    /// Decides what a notification leads to; `msg` is none where it could not be read.
    pub fn handle_message(&self, msg: Option<Notification>) -> (r: HandlerAction)
        ensures
            r == action_for(self.region_id@, msg),
    {
        match msg {
            None => HandlerAction::Ignore,
            Some(Notification::Cancel(session)) => {
                if let Some(cancel_region) = &session.region_id {
                    if *cancel_region != self.region_id {
                        return HandlerAction::Ignore;
                    }
                }
                HandlerAction::Cancel(session.cancel_key_data)
            },
            Some(Notification::AllowedIpsUpdate { project_id }) => HandlerAction::Invalidate {
                what: Invalidation::AllowedIps { project_id },
                repeat_after: INVALIDATION_LAG,
            },
            Some(Notification::PasswordUpdate { project_id, role_name }) => HandlerAction::Invalidate {
                what: Invalidation::RoleSecret { project_id, role_name },
                repeat_after: INVALIDATION_LAG,
            },
        }
    }
}

/// What happens to the connection to the notifications.
#[derive(Clone, Copy, Debug, PartialEq, Eq, Structural)]
pub enum ConsumerEvent {
    Connected,
    ConnectFailed,
    /// The stream has ended, or a message could not be handled.
    StreamEnded,
}

/// What the consumer does next.
#[derive(Clone, Copy, Debug, PartialEq, Eq, Structural)]
pub enum ConsumerStep {
    ReadMessages,
    /// Wait this many seconds, then connect.
    ConnectAfter { seconds: u64 },
    Connect,
}

/// Takes an event of the connection into account.  Cached entries expire by time except while
/// connected.
pub fn on_consumer_event(handler: &mut MessageHandler, event: ConsumerEvent) -> (r: ConsumerStep)
    ensures
        final(handler).region_id == old(handler).region_id,
        final(handler).ttl_enabled == match event {
            ConsumerEvent::Connected => false,
            ConsumerEvent::ConnectFailed => old(handler).ttl_enabled,
            ConsumerEvent::StreamEnded => true,
        },
        r == match event {
            ConsumerEvent::Connected => ConsumerStep::ReadMessages,
            ConsumerEvent::ConnectFailed => ConsumerStep::ConnectAfter {
                seconds: RECONNECT_TIMEOUT,
            },
            ConsumerEvent::StreamEnded => ConsumerStep::Connect,
        },
{
    match event {
        ConsumerEvent::Connected => {
            handler.disable_ttl();
            ConsumerStep::ReadMessages
        },
        ConsumerEvent::ConnectFailed => ConsumerStep::ConnectAfter { seconds: RECONNECT_TIMEOUT },
        ConsumerEvent::StreamEnded => {
            handler.enable_ttl();
            ConsumerStep::Connect
        },
    }
}

/// Whether cached entries expire by time after a run of events, from a handler that is not
/// connected.
pub open spec fn ttl_after(events: Seq<ConsumerEvent>) -> bool
    decreases events.len(),
{
    if events.len() == 0 {
        true
    } else {
        match events.last() {
            ConsumerEvent::Connected => false,
            ConsumerEvent::ConnectFailed => ttl_after(events.drop_last()),
            ConsumerEvent::StreamEnded => true,
        }
    }
}

/// Whether a run of events is one of a consumer: it connects only when it is not connected,
/// and a stream ends only when it is.
pub open spec fn consumer_run(events: Seq<ConsumerEvent>) -> bool
    decreases events.len(),
{
    events.len() == 0 || {
        &&& consumer_run(events.drop_last())
        &&& (events.last() == ConsumerEvent::StreamEnded) == connected_after(events.drop_last())
    }
}

/// Whether the consumer is connected after a run of events.
pub open spec fn connected_after(events: Seq<ConsumerEvent>) -> bool {
    events.len() > 0 && events.last() == ConsumerEvent::Connected
}

/// Cached entries expire by time exactly while the consumer is not connected.
pub proof fn entries_expire_while_disconnected(events: Seq<ConsumerEvent>)
    requires
        consumer_run(events),
    ensures
        ttl_after(events) == !connected_after(events),
    decreases events.len(),
{
    if events.len() > 0 {
        entries_expire_while_disconnected(events.drop_last());
    }
}

/// A request to cancel a session that names no region reaches every region; one that names a
/// region reaches that one.
pub proof fn cancellations_reach_their_region(region: Seq<char>, session: CancelSession)
    ensures
        action_for(region, Some(Notification::Cancel(session))) == HandlerAction::Cancel(
            session.cancel_key_data,
        ) <==> (session.region_id is None || session.region_id->0@ == region),
{
}

/// A change of a project's addresses or passwords takes just the entries that it is about out
/// of the cache, in every region, now and once more after twenty seconds; what could not be
/// read does nothing.
pub proof fn changes_reach_every_region(
    region: Seq<char>,
    project_id: String,
    role_name: String,
)
    ensures
        action_for(region, None) is Ignore,
        action_for(region, Some(Notification::AllowedIpsUpdate { project_id })) == (
        HandlerAction::Invalidate {
            what: Invalidation::AllowedIps { project_id },
            repeat_after: INVALIDATION_LAG,
        }),
        action_for(region, Some(Notification::PasswordUpdate { project_id, role_name })) == (
        HandlerAction::Invalidate {
            what: Invalidation::RoleSecret { project_id, role_name },
            repeat_after: INVALIDATION_LAG,
        }),
        INVALIDATION_LAG == 20,
{
}

/// A request to cancel a session of another region is ignored.
pub proof fn other_regions_ignore_cancellations(region: Seq<char>, session: CancelSession)
    ensures
        action_for(region, Some(Notification::Cancel(session))) is Ignore <==> session.region_id
            is Some && session.region_id->0@ != region,
{
}

} // verus!
