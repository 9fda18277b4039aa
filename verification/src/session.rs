//! Sessions: the conversations on the channels of a connection. A session
//! owns its links and hands out their handles.

use vstd::prelude::*;
use crate::error::{AmqpError, AmqpResult};
use crate::ids::{new_uuid_text, uuid_hyphenated};
use crate::link::{link_id, Link, LinkConfig, Receiver, Sender};
use crate::message::Message;
use crate::text::{decimal, decimal_string, join};
use crate::types::{with_entry, AmqpMap, AmqpSymbol, AmqpValue, ValueModel};

verus! {

/// The state of a session.
#[derive(Debug, Clone, PartialEq)]
pub enum SessionState {
    /// Session is being established.
    Beginning,
    /// Session is active and ready.
    Active,
    /// Session is being ended.
    Ending,
    /// Session is ended.
    Ended,
    /// Session is in error state.
    Error(String),
}

/// The configuration of a session.
#[derive(Debug)]
pub struct SessionConfig {
    /// Session name.
    pub name: String,
    /// Incoming window size.
    pub incoming_window: u32,
    /// Outgoing window size.
    pub outgoing_window: u32,
    /// Next outgoing ID.
    pub next_outgoing_id: u32,
    /// Incoming window.
    pub incoming_window_size: u32,
    /// Outgoing window.
    pub outgoing_window_size: u32,
    /// Session properties.
    pub properties: AmqpMap,
}

/// Model of the configuration of a session.
pub struct SessionConfigModel {
    pub name: Seq<char>,
    pub incoming_window: u32,
    pub outgoing_window: u32,
    pub next_outgoing_id: u32,
    pub incoming_window_size: u32,
    pub outgoing_window_size: u32,
    pub properties: Seq<(Seq<char>, ValueModel)>,
}

impl View for SessionConfig {
    type V = SessionConfigModel;

    open spec fn view(&self) -> SessionConfigModel {
        SessionConfigModel {
            name: self.name@,
            incoming_window: self.incoming_window,
            outgoing_window: self.outgoing_window,
            next_outgoing_id: self.next_outgoing_id,
            incoming_window_size: self.incoming_window_size,
            outgoing_window_size: self.outgoing_window_size,
            properties: self.properties@,
        }
    }
}

impl SessionConfigModel {
    /// The configuration that a session has where only its name is
    /// given: windows of 100, transfer ids from 0, no properties.
    pub open spec fn standard(name: Seq<char>) -> SessionConfigModel {
        SessionConfigModel {
            name,
            incoming_window: 100,
            outgoing_window: 100,
            next_outgoing_id: 0,
            incoming_window_size: 100,
            outgoing_window_size: 100,
            properties: Seq::empty(),
        }
    }
}

impl Default for SessionConfig {
    /// The standard configuration under a fresh name: the text of a new
    /// random UUID.
    fn default() -> (config: Self)
        ensures
            exists|bits: u128| config@ == SessionConfigModel::standard(uuid_hyphenated(bits)),
            config@.name.len() == 36,
    {
        let name = new_uuid_text();
        let ghost bits = choose|bits: u128| name@ == uuid_hyphenated(bits);
        let config = SessionConfig {
            name,
            incoming_window: 100,
            outgoing_window: 100,
            next_outgoing_id: 0,
            incoming_window_size: 100,
            outgoing_window_size: 100,
            properties: AmqpMap::new(),
        };
        assert(config@ == SessionConfigModel::standard(uuid_hyphenated(bits)));
        config
    }
}

impl Clone for SessionConfig {
    fn clone(&self) -> (copy: Self)
        ensures
            copy@ == self@,
    {
        SessionConfig {
            name: self.name.clone(),
            incoming_window: self.incoming_window,
            outgoing_window: self.outgoing_window,
            next_outgoing_id: self.next_outgoing_id,
            incoming_window_size: self.incoming_window_size,
            outgoing_window_size: self.outgoing_window_size,
            properties: self.properties.clone(),
        }
    }
}

/// The identifier of a session: that of its connection, `-session-`, and
/// the channel number in decimal.
pub open spec fn session_id(connection_id: Seq<char>, channel: u16) -> Seq<char> {
    connection_id + "-session-"@ + decimal(channel as nat)
}

/// A session.
pub struct Session {
    config: SessionConfig,
    state: SessionState,
    id: String,
    connection_id: String,
    channel: u16,
    links: Vec<(u32, Link)>,
    next_handle: u32,
}

/// The number of links at the start of `links` that are attached.
pub open spec fn attached_prefix(links: Seq<(u32, Link)>) -> int
    decreases links.len(),
{
    if links.len() == 0 {
        0
    } else if links[0].1.current() is Attached {
        1 + attached_prefix(links.drop_first())
    } else {
        0
    }
}

/// `attached_prefix` is the first index whose link is not attached, or
/// the number of links where all are.
pub proof fn lemma_attached_prefix(links: Seq<(u32, Link)>, at: int)
    requires
        0 <= at <= links.len(),
        forall|j: int| 0 <= j < at ==> (#[trigger] links[j]).1.current() is Attached,
        at < links.len() ==> !(links[at].1.current() is Attached),
    ensures
        attached_prefix(links) == at,
    decreases links.len(),
{
    if links.len() > 0 && at > 0 {
        let tail = links.drop_first();
        assert forall|j: int| 0 <= j < at - 1 implies (#[trigger] tail[j]).1.current() is Attached by {
            assert(tail[j] == links[j + 1]);
        }
        lemma_attached_prefix(tail, at - 1);
    }
}

impl Session {
    /// The state of the session.
    pub closed spec fn current(&self) -> SessionState {
        self.state
    }

    /// The configuration of the session.
    pub closed spec fn configuration(&self) -> SessionConfigModel {
        self.config@
    }

    /// The identifier of the session.
    pub closed spec fn identifier(&self) -> Seq<char> {
        self.id@
    }

    /// The identifier of the session's connection.
    pub closed spec fn connection(&self) -> Seq<char> {
        self.connection_id@
    }

    /// The channel of the session.
    pub closed spec fn channel_number(&self) -> u16 {
        self.channel
    }

    /// The links of the session with their handles, in the order in which
    /// they were created.
    pub closed spec fn links(&self) -> Seq<(u32, Link)> {
        self.links@
    }

    /// The handle that the next link will get.
    pub closed spec fn handle_counter(&self) -> u32 {
        self.next_handle
    }

    /// True when `other` differs from this session in nothing but its
    /// state, its links and its handle counter.
    pub open spec fn same_session(&self, other: &Session) -> bool {
        &&& self.configuration() == other.configuration()
        &&& self.identifier() == other.identifier()
        &&& self.connection() == other.connection()
        &&& self.channel_number() == other.channel_number()
    }

    /// Create a new session: ended, without links, with the standard
    /// configuration under a fresh name.
    pub fn new(channel: u16, connection_id: String) -> (session: Self)
        ensures
            session.current() is Ended,
            session.identifier() == session_id(connection_id@, channel),
            session.connection() == connection_id@,
            session.channel_number() == channel,
            session.links() == Seq::<(u32, Link)>::empty(),
            session.handle_counter() == 0,
            exists|bits: u128|
                session.configuration() == SessionConfigModel::standard(uuid_hyphenated(bits)),
    {
        Session::with_config(SessionConfig::default(), channel, connection_id)
    }

    /// Create a new session with the given configuration: ended, without
    /// links.
    pub fn with_config(config: SessionConfig, channel: u16, connection_id: String) -> (session:
        Self)
        ensures
            session.current() is Ended,
            session.identifier() == session_id(connection_id@, channel),
            session.connection() == connection_id@,
            session.channel_number() == channel,
            session.links() == Seq::<(u32, Link)>::empty(),
            session.handle_counter() == 0,
            session.configuration() == config@,
    {
        let head = join(connection_id.as_str(), "-session-");
        let number = decimal_string(channel as u32);
        let id = join(head.as_str(), number.as_str());
        Session {
            config,
            state: SessionState::Ended,
            id,
            connection_id,
            channel,
            links: Vec::new(),
            next_handle: 0,
        }
    }

    /// Begin the session. Only an ended session can begin; in any other
    /// state the call fails with an invalid-state error and changes
    /// nothing.
    pub fn begin(&mut self) -> (result: AmqpResult<()>)
        ensures
            final(self).same_session(old(self)),
            final(self).links() == old(self).links(),
            final(self).handle_counter() == old(self).handle_counter(),
            old(self).current() is Ended ==> result is Ok && final(self).current() is Active,
            !(old(self).current() is Ended) ==> result is Err && result->Err_0 is InvalidState
                && result->Err_0->InvalidState_0@ == "Session is not ended"@ && final(self).current() == old(self).current(),
    {
        match self.state {
            SessionState::Ended => {},
            _ => {
                return Err(AmqpError::invalid_state("Session is not ended"));
            },
        }
        self.state = SessionState::Beginning;
        self.state = SessionState::Active;
        Ok(())
    }

    /// End the session. Only an active session can end; in any other
    /// state the call fails with an invalid-state error and changes
    /// nothing. Ending detaches the links in the order of their handles
    /// and then lets go of them. Where a link cannot be detached, because
    /// it is not attached, its error is handed on: the session stays in
    /// the state `Ending`, the links before that one are detached and the
    /// others are as they were.
    pub fn end(&mut self) -> (result: AmqpResult<()>)
        ensures
            final(self).same_session(old(self)),
            final(self).handle_counter() == old(self).handle_counter(),
            !(old(self).current() is Active) ==> result is Err && result->Err_0 is InvalidState
                && result->Err_0->InvalidState_0@ == "Session is not active"@ && final(self).current() == old(self).current() && final(self).links() == old(self).links(),
            old(self).current() is Active && attached_prefix(old(self).links()) == old(self).links().len() ==> result is Ok && final(self).current() is Ended && final(self).links().len() == 0,
            old(self).current() is Active && attached_prefix(old(self).links()) < old(self).links().len() ==> {
                &&& result is Err
                &&& result->Err_0 is InvalidState
                &&& result->Err_0->InvalidState_0@ == "Link is not attached"@
                &&& final(self).current() is Ending
                &&& final(self).links().len() == old(self).links().len()
                &&& forall|i: int|
                    0 <= i < old(self).links().len() ==> {
                        let before = (#[trigger] old(self).links()[i]);
                        let after = final(self).links()[i];
                        &&& after.0 == before.0
                        &&& after.1.same_but_state(&before.1)
                        &&& if i < attached_prefix(old(self).links()) {
                            after.1.current() is Detached
                        } else {
                            after.1.current() == before.1.current()
                        }
                    }
            },
    {
        match self.state {
            SessionState::Active => {},
            _ => {
                return Err(AmqpError::invalid_state("Session is not active"));
            },
        }
        self.state = SessionState::Ending;
        let ghost before = self.links@;
        let mut i: usize = 0;
        while i < self.links.len()
            invariant
                i <= self.links@.len(),
                before == old(self).links(),
                old(self).current() is Active,
                self.links@.len() == before.len(),
                self.state is Ending,
                self.same_session(old(self)),
                self.next_handle == old(self).handle_counter(),
                forall|j: int| 0 <= j < i ==> (#[trigger] before[j]).1.current() is Attached,
                forall|j: int|
                    0 <= j < before.len() ==> {
                        let was = (#[trigger] before[j]);
                        let now = self.links@[j];
                        &&& now.0 == was.0
                        &&& now.1.same_but_state(&was.1)
                        &&& if j < i {
                            now.1.current() is Detached
                        } else {
                            now.1.current() == was.1.current()
                        }
                    },
            decreases self.links@.len() - i,
        {
            let (handle, link) = self.links.remove(i);
            let mut link = link;
            let outcome = link.detach();
            self.links.insert(i, (handle, link));
            match outcome {
                Ok(()) => {},
                Err(e) => {
                    proof {
                        lemma_attached_prefix(before, i as int);
                        assert forall|j: int| 0 <= j < before.len() implies {
                            let was = (#[trigger] before[j]);
                            let now = self.links@[j];
                            &&& now.0 == was.0
                            &&& now.1.same_but_state(&was.1)
                            &&& if j < i {
                                now.1.current() is Detached
                            } else {
                                now.1.current() == was.1.current()
                            }
                        } by {}
                    }
                    return Err(e);
                },
            }
            i = i + 1;
        }
        proof {
            lemma_attached_prefix(before, before.len() as int);
        }
        self.links.clear();
        self.state = SessionState::Ended;
        Ok(())
    }

    /// Takes the next handle, where the session is active and has one
    /// left.
    fn take_handle(&mut self) -> (result: AmqpResult<u32>)
        ensures
            final(self).same_session(old(self)),
            final(self).current() == old(self).current(),
            final(self).links() == old(self).links(),
            match result {
                Ok(handle) => {
                    &&& old(self).current() is Active
                    &&& handle == old(self).handle_counter()
                    &&& handle < u32::MAX
                    &&& final(self).handle_counter() == handle + 1
                },
                Err(e) => {
                    &&& final(self).handle_counter() == old(self).handle_counter()
                    &&& if !(old(self).current() is Active) {
                        e is InvalidState && e->InvalidState_0@ == "Session is not active"@
                    } else {
                        old(self).handle_counter() == u32::MAX && e is Session
                    }
                },
            },
    {
        match self.state {
            SessionState::Active => {},
            _ => {
                return Err(AmqpError::invalid_state("Session is not active"));
            },
        }
        if self.next_handle == u32::MAX {
            return Err(AmqpError::session("Link handles exhausted"));
        }
        let handle = self.next_handle;
        self.next_handle = self.next_handle + 1;
        Ok(handle)
    }

    /// Create a sender link. The session must be active (else an
    /// invalid-state error) and have a handle left (else a session
    /// error). The sender is detached and bound to this session; the
    /// session keeps a detached link of its own under the next handle.
    pub fn create_sender(&mut self, config: LinkConfig) -> (result: AmqpResult<Sender>)
        ensures
            final(self).same_session(old(self)),
            final(self).current() == old(self).current(),
            match result {
                Ok(sender) => {
                    &&& old(self).current() is Active
                    &&& old(self).handle_counter() < u32::MAX
                    &&& final(self).handle_counter() == old(self).handle_counter() + 1
                    &&& final(self).links().len() == old(self).links().len() + 1
                    &&& final(self).links().drop_last() == old(self).links()
                    &&& final(self).links().last().0 == old(self).handle_counter()
                    &&& final(self).links().last().1.current() is Detached
                    &&& final(self).links().last().1.configuration() == config@
                    &&& final(self).links().last().1.identifier() == link_id(
                        old(self).identifier(),
                        config@.name,
                    )
                    &&& sender.link().current() is Detached
                    &&& sender.link().configuration() == config@
                    &&& sender.link().identifier() == link_id(old(self).identifier(), config@.name)
                    &&& sender.link().session() == old(self).identifier()
                    &&& sender.credit_left() == 0
                    &&& sender.pending() == Map::<u32, Message>::empty()
                    &&& sender.next_id() == 1
                },
                Err(e) => {
                    &&& final(self).links() == old(self).links()
                    &&& final(self).handle_counter() == old(self).handle_counter()
                    &&& if !(old(self).current() is Active) {
                        e is InvalidState && e->InvalidState_0@ == "Session is not active"@
                    } else {
                        old(self).handle_counter() == u32::MAX && e is Session
                    }
                },
            },
    {
        let handle = match self.take_handle() {
            Ok(handle) => handle,
            Err(e) => {
                return Err(e);
            },
        };
        let sender = Sender::new(config.clone(), self.id.clone());
        let link = Link::new(config, self.id.clone());
        self.links.push((handle, link));
        assert(self.links@.drop_last() =~= old(self).links());
        Ok(sender)
    }

    /// Create a receiver link. The session must be active (else an
    /// invalid-state error) and have a handle left (else a session
    /// error). The receiver is detached and bound to this session; the
    /// session keeps a detached link of its own under the next handle.
    pub fn create_receiver(&mut self, config: LinkConfig) -> (result: AmqpResult<Receiver>)
        ensures
            final(self).same_session(old(self)),
            final(self).current() == old(self).current(),
            match result {
                Ok(receiver) => {
                    &&& old(self).current() is Active
                    &&& old(self).handle_counter() < u32::MAX
                    &&& final(self).handle_counter() == old(self).handle_counter() + 1
                    &&& final(self).links().len() == old(self).links().len() + 1
                    &&& final(self).links().drop_last() == old(self).links()
                    &&& final(self).links().last().0 == old(self).handle_counter()
                    &&& final(self).links().last().1.current() is Detached
                    &&& final(self).links().last().1.configuration() == config@
                    &&& final(self).links().last().1.identifier() == link_id(
                        old(self).identifier(),
                        config@.name,
                    )
                    &&& receiver.link().current() is Detached
                    &&& receiver.link().configuration() == config@
                    &&& receiver.link().identifier() == link_id(old(self).identifier(), config@.name)
                    &&& receiver.link().session() == old(self).identifier()
                    &&& receiver.credit_left() == 0
                    &&& receiver.queue() == Seq::<Message>::empty()
                    &&& receiver.delivered() == 0
                },
                Err(e) => {
                    &&& final(self).links() == old(self).links()
                    &&& final(self).handle_counter() == old(self).handle_counter()
                    &&& if !(old(self).current() is Active) {
                        e is InvalidState && e->InvalidState_0@ == "Session is not active"@
                    } else {
                        old(self).handle_counter() == u32::MAX && e is Session
                    }
                },
            },
    {
        let handle = match self.take_handle() {
            Ok(handle) => handle,
            Err(e) => {
                return Err(e);
            },
        };
        let receiver = Receiver::new(config.clone(), self.id.clone());
        let link = Link::new(config, self.id.clone());
        self.links.push((handle, link));
        assert(self.links@.drop_last() =~= old(self).links());
        Ok(receiver)
    }

    /// Get session state.
    pub fn state(&self) -> (state: &SessionState)
        ensures
            *state == self.current(),
    {
        &self.state
    }

    /// Get session ID.
    pub fn id(&self) -> (id: &str)
        ensures
            id@ == self.identifier(),
    {
        self.id.as_str()
    }

    /// Get connection ID.
    pub fn connection_id(&self) -> (id: &str)
        ensures
            id@ == self.connection(),
    {
        self.connection_id.as_str()
    }

    /// Get channel number.
    pub fn channel(&self) -> (channel: u16)
        ensures
            channel == self.channel_number(),
    {
        self.channel
    }

    /// Get the configuration of the session.
    pub fn config(&self) -> (config: &SessionConfig)
        ensures
            config@ == self.configuration(),
    {
        &self.config
    }

    /// Get incoming window size.
    pub fn incoming_window(&self) -> (size: u32)
        ensures
            size == self.configuration().incoming_window,
    {
        self.config.incoming_window
    }

    /// Get outgoing window size.
    pub fn outgoing_window(&self) -> (size: u32)
        ensures
            size == self.configuration().outgoing_window,
    {
        self.config.outgoing_window
    }

    /// Set incoming window size.
    pub fn set_incoming_window(&mut self, size: u32)
        ensures
            final(self).configuration() == (SessionConfigModel {
                incoming_window: size,
                ..old(self).configuration()
            }),
            final(self).current() == old(self).current(),
            final(self).identifier() == old(self).identifier(),
            final(self).connection() == old(self).connection(),
            final(self).channel_number() == old(self).channel_number(),
            final(self).links() == old(self).links(),
            final(self).handle_counter() == old(self).handle_counter(),
    {
        self.config.incoming_window = size;
    }

    /// Set outgoing window size.
    pub fn set_outgoing_window(&mut self, size: u32)
        ensures
            final(self).configuration() == (SessionConfigModel {
                outgoing_window: size,
                ..old(self).configuration()
            }),
            final(self).current() == old(self).current(),
            final(self).identifier() == old(self).identifier(),
            final(self).connection() == old(self).connection(),
            final(self).channel_number() == old(self).channel_number(),
            final(self).links() == old(self).links(),
            final(self).handle_counter() == old(self).handle_counter(),
    {
        self.config.outgoing_window = size;
    }

    /// Get the number of links in this session.
    pub fn link_count(&self) -> (count: usize)
        ensures
            count == self.links().len(),
    {
        self.links.len()
    }

    /// Get the next link handle.
    pub fn next_handle(&self) -> (handle: u32)
        ensures
            handle == self.handle_counter(),
    {
        self.next_handle
    }
}

/// Puts the configuration of a session together, and builds the session.
#[derive(Debug, Clone)]
pub struct SessionBuilder {
    config: SessionConfig,
}

impl View for SessionBuilder {
    type V = SessionConfigModel;

    /// The configuration as built so far.
    closed spec fn view(&self) -> SessionConfigModel {
        self.config@
    }
}

impl SessionBuilder {
    /// Create a new session builder, with the standard configuration
    /// under a fresh name.
    pub fn new() -> (builder: Self)
        ensures
            exists|bits: u128| builder@ == SessionConfigModel::standard(uuid_hyphenated(bits)),
            builder@.name.len() == 36,
    {
        SessionBuilder { config: SessionConfig::default() }
    }

    /// The configuration as built so far.
    pub fn config(&self) -> (config: &SessionConfig)
        ensures
            config@ == self@,
    {
        &self.config
    }

    /// Set the session name.
    pub fn name(self, name: &str) -> (builder: Self)
        ensures
            builder@ == (SessionConfigModel { name: name@, ..self@ }),
    {
        let mut config = self.config;
        config.name = name.to_owned();
        SessionBuilder { config }
    }

    /// Set the incoming window size.
    pub fn incoming_window(self, size: u32) -> (builder: Self)
        ensures
            builder@ == (SessionConfigModel { incoming_window: size, ..self@ }),
    {
        let mut config = self.config;
        config.incoming_window = size;
        SessionBuilder { config }
    }

    /// Set the outgoing window size.
    pub fn outgoing_window(self, size: u32) -> (builder: Self)
        ensures
            builder@ == (SessionConfigModel { outgoing_window: size, ..self@ }),
    {
        let mut config = self.config;
        config.outgoing_window = size;
        SessionBuilder { config }
    }

    /// Set the next outgoing ID.
    pub fn next_outgoing_id(self, id: u32) -> (builder: Self)
        ensures
            builder@ == (SessionConfigModel { next_outgoing_id: id, ..self@ }),
    {
        let mut config = self.config;
        config.next_outgoing_id = id;
        SessionBuilder { config }
    }

    /// Add a session property.
    pub fn property(self, key: &str, value: AmqpValue) -> (builder: Self)
        ensures
            builder@ == (SessionConfigModel {
                properties: with_entry(self@.properties, key@, value@),
                ..self@
            }),
    {
        let mut config = self.config;
        config.properties.insert(AmqpSymbol(key.to_owned()), value);
        SessionBuilder { config }
    }

    /// Build the session: ended, without links, with the configuration
    /// that was built.
    pub fn build(self, channel: u16, connection_id: String) -> (session: Session)
        ensures
            session.current() is Ended,
            session.identifier() == session_id(connection_id@, channel),
            session.connection() == connection_id@,
            session.channel_number() == channel,
            session.links() == Seq::<(u32, Link)>::empty(),
            session.handle_counter() == 0,
            session.configuration() == self@,
    {
        Session::with_config(self.config, channel, connection_id)
    }
}

impl Default for SessionBuilder {
    fn default() -> (builder: Self)
        ensures
            exists|bits: u128| builder@ == SessionConfigModel::standard(uuid_hyphenated(bits)),
            builder@.name.len() == 36,
    {
        SessionBuilder::new()
    }
}

} // verus!
