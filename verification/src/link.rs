//! Links: the one-way flows of messages inside a session. A sender spends
//! credit to send; a receiver hands out what was delivered to it.

use std::collections::HashMap;
use vstd::prelude::*;
use crate::error::{AmqpError, AmqpResult};
use crate::ids::{new_uuid_text, uuid_hyphenated};
use crate::message::Message;
use crate::text::join;
use crate::types::{
    with_entry, AmqpMap, AmqpSymbol, AmqpValue, ReceiverSettleMode, SenderSettleMode,
    TerminusDurability, TerminusExpiryPolicy, ValueModel,
};

verus! {

/// The state of a link.
#[derive(Debug, Clone, PartialEq)]
pub enum LinkState {
    /// Link is being established.
    Attaching,
    /// Link is attached and ready.
    Attached,
    /// Link is being detached.
    Detaching,
    /// Link is detached.
    Detached,
    /// Link is in error state.
    Error(String),
}

/// The options of a terminus, the source or the target of a link.
#[derive(Debug)]
pub struct TerminusConfig {
    /// Terminus durability.
    pub durability: TerminusDurability,
    /// Terminus expiry policy.
    pub expiry_policy: TerminusExpiryPolicy,
    /// Terminus timeout.
    pub timeout: u32,
    /// Terminus properties.
    pub properties: AmqpMap,
}

/// Model of the options of a terminus.
pub struct TerminusModel {
    pub durability: TerminusDurability,
    pub expiry_policy: TerminusExpiryPolicy,
    pub timeout: u32,
    pub properties: Seq<(Seq<char>, ValueModel)>,
}

impl View for TerminusConfig {
    type V = TerminusModel;

    open spec fn view(&self) -> TerminusModel {
        TerminusModel {
            durability: self.durability,
            expiry_policy: self.expiry_policy,
            timeout: self.timeout,
            properties: self.properties@,
        }
    }
}

impl TerminusModel {
    /// The options that a terminus has where none are given: not durable,
    /// expiring with the session, no timeout, no properties.
    pub open spec fn standard() -> TerminusModel {
        TerminusModel {
            durability: TerminusDurability::NotDurable,
            expiry_policy: TerminusExpiryPolicy::SessionEnd,
            timeout: 0,
            properties: Seq::empty(),
        }
    }
}

impl Default for TerminusConfig {
    fn default() -> (config: Self)
        ensures
            config@ == TerminusModel::standard(),
    {
        TerminusConfig {
            durability: TerminusDurability::NotDurable,
            expiry_policy: TerminusExpiryPolicy::SessionEnd,
            timeout: 0,
            properties: AmqpMap::new(),
        }
    }
}

impl Clone for TerminusConfig {
    fn clone(&self) -> (copy: Self)
        ensures
            copy@ == self@,
    {
        TerminusConfig {
            durability: self.durability,
            expiry_policy: self.expiry_policy,
            timeout: self.timeout,
            properties: self.properties.clone(),
        }
    }
}

/// The model of optional terminus options.
pub open spec fn terminus_model(config: Option<TerminusConfig>) -> Option<TerminusModel> {
    match config {
        Some(c) => Some(c@),
        None => None,
    }
}

/// The configuration of a link.
#[derive(Debug)]
pub struct LinkConfig {
    /// Link name.
    pub name: String,
    /// Source address.
    pub source: Option<String>,
    /// Target address.
    pub target: Option<String>,
    /// Sender settle mode.
    pub sender_settle_mode: SenderSettleMode,
    /// Receiver settle mode.
    pub receiver_settle_mode: ReceiverSettleMode,
    /// Link properties.
    pub properties: AmqpMap,
    /// Source terminus configuration.
    pub source_config: Option<TerminusConfig>,
    /// Target terminus configuration.
    pub target_config: Option<TerminusConfig>,
}

/// Model of the configuration of a link.
pub struct LinkConfigModel {
    pub name: Seq<char>,
    pub source: Option<Seq<char>>,
    pub target: Option<Seq<char>>,
    pub sender_settle_mode: SenderSettleMode,
    pub receiver_settle_mode: ReceiverSettleMode,
    pub properties: Seq<(Seq<char>, ValueModel)>,
    pub source_config: Option<TerminusModel>,
    pub target_config: Option<TerminusModel>,
}

impl View for LinkConfig {
    type V = LinkConfigModel;

    open spec fn view(&self) -> LinkConfigModel {
        LinkConfigModel {
            name: self.name@,
            source: crate::message::text_model(self.source),
            target: crate::message::text_model(self.target),
            sender_settle_mode: self.sender_settle_mode,
            receiver_settle_mode: self.receiver_settle_mode,
            properties: self.properties@,
            source_config: terminus_model(self.source_config),
            target_config: terminus_model(self.target_config),
        }
    }
}

impl LinkConfigModel {
    /// The configuration that a link has where only its name is given:
    /// no addresses, mixed settlement by the sender, settlement on
    /// receipt by the receiver, no properties, no terminus options.
    pub open spec fn standard(name: Seq<char>) -> LinkConfigModel {
        LinkConfigModel {
            name,
            source: None,
            target: None,
            sender_settle_mode: SenderSettleMode::Mixed,
            receiver_settle_mode: ReceiverSettleMode::First,
            properties: Seq::empty(),
            source_config: None,
            target_config: None,
        }
    }
}

impl Default for LinkConfig {
    /// The standard configuration under a fresh name: the text of a new
    /// random UUID.
    fn default() -> (config: Self)
        ensures
            exists|bits: u128| config@ == LinkConfigModel::standard(uuid_hyphenated(bits)),
            config@.name.len() == 36,
    {
        let name = new_uuid_text();
        let ghost bits = choose|bits: u128| name@ == uuid_hyphenated(bits);
        let config = LinkConfig {
            name,
            source: None,
            target: None,
            sender_settle_mode: SenderSettleMode::Mixed,
            receiver_settle_mode: ReceiverSettleMode::First,
            properties: AmqpMap::new(),
            source_config: None,
            target_config: None,
        };
        assert(config@ == LinkConfigModel::standard(uuid_hyphenated(bits)));
        config
    }
}

/// Copies optional terminus options.
fn clone_terminus(config: &Option<TerminusConfig>) -> (copy: Option<TerminusConfig>)
    ensures
        terminus_model(copy) == terminus_model(*config),
{
    match config {
        Some(c) => Some(c.clone()),
        None => None,
    }
}

/// Copies an optional string.
fn clone_text(text: &Option<String>) -> (copy: Option<String>)
    ensures
        copy == *text,
{
    match text {
        Some(s) => Some(s.clone()),
        None => None,
    }
}

impl Clone for LinkConfig {
    fn clone(&self) -> (copy: Self)
        ensures
            copy@ == self@,
    {
        LinkConfig {
            name: self.name.clone(),
            source: clone_text(&self.source),
            target: clone_text(&self.target),
            sender_settle_mode: self.sender_settle_mode,
            receiver_settle_mode: self.receiver_settle_mode,
            properties: self.properties.clone(),
            source_config: clone_terminus(&self.source_config),
            target_config: clone_terminus(&self.target_config),
        }
    }
}

/// The part that a sender and a receiver share: a configuration, a state
/// and the identifiers of the link and of its session.
#[derive(Debug, Clone)]
pub struct Link {
    config: LinkConfig,
    state: LinkState,
    id: String,
    session_id: String,
    handle: u32,
}

/// The identifier of a link: that of its session, `-link-`, and the
/// link's name.
pub open spec fn link_id(session_id: Seq<char>, name: Seq<char>) -> Seq<char> {
    session_id + "-link-"@ + name
}

impl Link {
    /// The state of the link.
    pub closed spec fn current(&self) -> LinkState {
        self.state
    }

    /// The configuration of the link.
    pub closed spec fn configuration(&self) -> LinkConfigModel {
        self.config@
    }

    /// The identifier of the link.
    pub closed spec fn identifier(&self) -> Seq<char> {
        self.id@
    }

    /// The identifier of the link's session.
    pub closed spec fn session(&self) -> Seq<char> {
        self.session_id@
    }

    /// The handle of the link.
    pub closed spec fn handle_number(&self) -> u32 {
        self.handle
    }

    /// True when `other` is this link in another state.
    pub open spec fn same_but_state(&self, other: &Link) -> bool {
        &&& self.configuration() == other.configuration()
        &&& self.identifier() == other.identifier()
        &&& self.session() == other.session()
        &&& self.handle_number() == other.handle_number()
    }

    /// Create a new link: detached, with handle 0.
    pub fn new(config: LinkConfig, session_id: String) -> (link: Self)
        ensures
            link.current() is Detached,
            link.configuration() == config@,
            link.identifier() == link_id(session_id@, config@.name),
            link.session() == session_id@,
            link.handle_number() == 0,
    {
        let head = join(session_id.as_str(), "-link-");
        let id = join(head.as_str(), config.name.as_str());
        Link { id, config, state: LinkState::Detached, session_id, handle: 0 }
    }

    /// Attach the link. Only a detached link can be attached; in any
    /// other state the call fails with an invalid-state error and
    /// changes nothing.
    pub fn attach(&mut self) -> (result: AmqpResult<()>)
        ensures
            final(self).same_but_state(old(self)),
            old(self).current() is Detached ==> result is Ok && final(self).current() is Attached,
            !(old(self).current() is Detached) ==> result is Err && result->Err_0 is InvalidState
                && result->Err_0->InvalidState_0@ == "Link is not detached"@ && final(self).current() == old(self).current(),
    {
        match self.state {
            LinkState::Detached => {},
            _ => {
                return Err(AmqpError::invalid_state("Link is not detached"));
            },
        }
        self.state = LinkState::Attaching;
        self.state = LinkState::Attached;
        Ok(())
    }

    /// Detach the link. Only an attached link can be detached; in any
    /// other state the call fails with an invalid-state error and
    /// changes nothing.
    pub fn detach(&mut self) -> (result: AmqpResult<()>)
        ensures
            final(self).same_but_state(old(self)),
            old(self).current() is Attached ==> result is Ok && final(self).current() is Detached,
            !(old(self).current() is Attached) ==> result is Err && result->Err_0 is InvalidState
                && result->Err_0->InvalidState_0@ == "Link is not attached"@ && final(self).current() == old(self).current(),
    {
        match self.state {
            LinkState::Attached => {},
            _ => {
                return Err(AmqpError::invalid_state("Link is not attached"));
            },
        }
        self.state = LinkState::Detaching;
        self.state = LinkState::Detached;
        Ok(())
    }

    /// Get link state.
    pub fn state(&self) -> (state: &LinkState)
        ensures
            *state == self.current(),
    {
        &self.state
    }

    /// Get link ID.
    pub fn id(&self) -> (id: &str)
        ensures
            id@ == self.identifier(),
    {
        self.id.as_str()
    }

    /// Get link name.
    pub fn name(&self) -> (name: &str)
        ensures
            name@ == self.configuration().name,
    {
        self.config.name.as_str()
    }

    /// Get session ID.
    pub fn session_id(&self) -> (id: &str)
        ensures
            id@ == self.session(),
    {
        self.session_id.as_str()
    }

    /// Get handle.
    pub fn handle(&self) -> (handle: u32)
        ensures
            handle == self.handle_number(),
    {
        self.handle
    }

    /// Get the sender settle mode of the link.
    pub fn sender_settle_mode(&self) -> (mode: SenderSettleMode)
        ensures
            mode == self.configuration().sender_settle_mode,
    {
        self.config.sender_settle_mode
    }
}

/// The sending end of a link.
#[derive(Debug, Clone)]
pub struct Sender {
    link: Link,
    credit: u32,
    pending_deliveries: HashMap<u32, Message>,
    next_delivery_id: u32,
}

impl Sender {
    /// The link of the sender.
    pub closed spec fn link(&self) -> Link {
        self.link
    }

    /// The credit of the sender: the number of messages it may still send.
    pub closed spec fn credit_left(&self) -> u32 {
        self.credit
    }

    /// The deliveries that are not settled yet, by delivery id.
    pub closed spec fn pending(&self) -> Map<u32, Message> {
        self.pending_deliveries@
    }

    /// The id that the next delivery will get.
    pub closed spec fn next_id(&self) -> u32 {
        self.next_delivery_id
    }

    /// Create a new sender: detached, without credit, with nothing
    /// pending; its first delivery will have the id 1.
    pub fn new(config: LinkConfig, session_id: String) -> (sender: Self)
        ensures
            sender.link().current() is Detached,
            sender.link().configuration() == config@,
            sender.link().identifier() == link_id(session_id@, config@.name),
            sender.link().session() == session_id@,
            sender.credit_left() == 0,
            sender.pending() == Map::<u32, Message>::empty(),
            sender.next_id() == 1,
    {
        Sender {
            link: Link::new(config, session_id),
            credit: 0,
            pending_deliveries: HashMap::new(),
            next_delivery_id: 1,
        }
    }

    /// Attach the sender.
    pub fn attach(&mut self) -> (result: AmqpResult<()>)
        ensures
            final(self).link().same_but_state(&old(self).link()),
            final(self).credit_left() == old(self).credit_left(),
            final(self).pending() == old(self).pending(),
            final(self).next_id() == old(self).next_id(),
            old(self).link().current() is Detached ==> result is Ok && final(self).link().current() is Attached,
            !(old(self).link().current() is Detached) ==> result is Err
                && result->Err_0 is InvalidState && final(self).link().current() == old(self).link().current(),
    {
        self.link.attach()
    }

    /// Detach the sender.
    pub fn detach(&mut self) -> (result: AmqpResult<()>)
        ensures
            final(self).link().same_but_state(&old(self).link()),
            final(self).credit_left() == old(self).credit_left(),
            final(self).pending() == old(self).pending(),
            final(self).next_id() == old(self).next_id(),
            old(self).link().current() is Attached ==> result is Ok && final(self).link().current() is Detached,
            !(old(self).link().current() is Attached) ==> result is Err
                && result->Err_0 is InvalidState && final(self).link().current() == old(self).link().current(),
    {
        self.link.detach()
    }

    /// Send a message. The sender must be attached (else an invalid-state
    /// error) and have credit (else a link error). On success the message
    /// gets the next delivery id, one credit is spent, and the message
    /// stays pending under its id, unless the sender settles at send
    /// time. Delivery ids count up from 1 and go on from 0 after the
    /// largest. A failed call changes nothing.
    pub fn send(&mut self, message: Message) -> (result: AmqpResult<u32>)
        ensures
            final(self).link() == old(self).link(),
            result is Ok <==> old(self).link().current() is Attached && old(self).credit_left()
                >= 1,
            match result {
                Ok(id) => {
                    &&& id == old(self).next_id()
                    &&& final(self).next_id() == (if id == u32::MAX {
                        0u32
                    } else {
                        (id + 1) as u32
                    })
                    &&& final(self).credit_left() == old(self).credit_left() - 1
                    &&& final(self).pending() == (if old(self).link().configuration().sender_settle_mode == SenderSettleMode::Settled {
                        old(self).pending().remove(id)
                    } else {
                        old(self).pending().insert(id, message)
                    })
                },
                Err(e) => {
                    &&& final(self).credit_left() == old(self).credit_left()
                    &&& final(self).pending() == old(self).pending()
                    &&& final(self).next_id() == old(self).next_id()
                    &&& if !(old(self).link().current() is Attached) {
                        e is InvalidState && e->InvalidState_0@ == "Sender is not attached"@
                    } else {
                        e is Link && e->Link_0@ == "No credit available"@
                    }
                },
            },
    {
        broadcast use vstd::std_specs::hash::group_hash_axioms;

        match self.link.state() {
            LinkState::Attached => {},
            _ => {
                return Err(AmqpError::invalid_state("Sender is not attached"));
            },
        }
        if self.credit == 0 {
            return Err(AmqpError::link("No credit available"));
        }
        let delivery_id = self.next_delivery_id;
        self.next_delivery_id = self.next_delivery_id.wrapping_add(1);
        self.pending_deliveries.insert(delivery_id, message);
        self.credit = self.credit - 1;
        match self.link.sender_settle_mode() {
            SenderSettleMode::Settled => {
                self.pending_deliveries.remove(&delivery_id);
                assert(self.pending() =~= old(self).pending().remove(delivery_id));
            },
            _ => {},
        }
        Ok(delivery_id)
    }

    /// Get available credit.
    pub fn credit(&self) -> (credit: u32)
        ensures
            credit == self.credit_left(),
    {
        self.credit
    }

    /// Add credit; the credit stops at the largest number it can hold.
    pub fn add_credit(&mut self, credit: u32)
        ensures
            final(self).link() == old(self).link(),
            final(self).pending() == old(self).pending(),
            final(self).next_id() == old(self).next_id(),
            final(self).credit_left() == (if old(self).credit_left() + credit > u32::MAX {
                u32::MAX
            } else {
                (old(self).credit_left() + credit) as u32
            }),
    {
        self.credit = self.credit.saturating_add(credit);
    }

    /// The number of deliveries that are not settled yet.
    pub fn pending_count(&self) -> (count: usize)
        ensures
            count == self.pending().len(),
    {
        self.pending_deliveries.len()
    }

    /// Get link state.
    pub fn state(&self) -> (state: &LinkState)
        ensures
            *state == self.link().current(),
    {
        self.link.state()
    }

    /// Get sender ID.
    pub fn id(&self) -> (id: &str)
        ensures
            id@ == self.link().identifier(),
    {
        self.link.id()
    }

    /// Get sender name.
    pub fn name(&self) -> (name: &str)
        ensures
            name@ == self.link().configuration().name,
    {
        self.link.name()
    }
}

/// The receiving end of a link.
#[derive(Debug, Clone)]
pub struct Receiver {
    link: Link,
    credit: u32,
    message_queue: Vec<Message>,
    delivery_count: u32,
}

impl Receiver {
    /// The link of the receiver.
    pub closed spec fn link(&self) -> Link {
        self.link
    }

    /// The credit of the receiver: the number of messages it has asked
    /// for and not yet got.
    pub closed spec fn credit_left(&self) -> u32 {
        self.credit
    }

    /// The messages that arrived and were not handed out yet, first come
    /// first.
    pub closed spec fn queue(&self) -> Seq<Message> {
        self.message_queue@
    }

    /// The number of messages handed out so far, counted modulo 2^32.
    pub closed spec fn delivered(&self) -> u32 {
        self.delivery_count
    }

    /// Create a new receiver: detached, without credit, with nothing
    /// queued and nothing delivered.
    pub fn new(config: LinkConfig, session_id: String) -> (receiver: Self)
        ensures
            receiver.link().current() is Detached,
            receiver.link().configuration() == config@,
            receiver.link().identifier() == link_id(session_id@, config@.name),
            receiver.link().session() == session_id@,
            receiver.credit_left() == 0,
            receiver.queue() == Seq::<Message>::empty(),
            receiver.delivered() == 0,
    {
        Receiver {
            link: Link::new(config, session_id),
            credit: 0,
            message_queue: Vec::new(),
            delivery_count: 0,
        }
    }

    /// Attach the receiver.
    pub fn attach(&mut self) -> (result: AmqpResult<()>)
        ensures
            final(self).link().same_but_state(&old(self).link()),
            final(self).credit_left() == old(self).credit_left(),
            final(self).queue() == old(self).queue(),
            final(self).delivered() == old(self).delivered(),
            old(self).link().current() is Detached ==> result is Ok && final(self).link().current() is Attached,
            !(old(self).link().current() is Detached) ==> result is Err
                && result->Err_0 is InvalidState && final(self).link().current() == old(self).link().current(),
    {
        self.link.attach()
    }

    /// Detach the receiver.
    pub fn detach(&mut self) -> (result: AmqpResult<()>)
        ensures
            final(self).link().same_but_state(&old(self).link()),
            final(self).credit_left() == old(self).credit_left(),
            final(self).queue() == old(self).queue(),
            final(self).delivered() == old(self).delivered(),
            old(self).link().current() is Attached ==> result is Ok && final(self).link().current() is Detached,
            !(old(self).link().current() is Attached) ==> result is Err
                && result->Err_0 is InvalidState && final(self).link().current() == old(self).link().current(),
    {
        self.link.detach()
    }

    /// Receive a message: the one that has waited longest, or nothing
    /// where none waits. Each message handed out adds one to the
    /// delivery count. A receiver that is not attached fails with an
    /// invalid-state error and changes nothing.
    pub fn receive(&mut self) -> (result: AmqpResult<Option<Message>>)
        ensures
            final(self).link() == old(self).link(),
            final(self).credit_left() == old(self).credit_left(),
            match result {
                Ok(Some(message)) => {
                    &&& old(self).link().current() is Attached
                    &&& old(self).queue().len() > 0
                    &&& message == old(self).queue()[0]
                    &&& final(self).queue() == old(self).queue().drop_first()
                    &&& final(self).delivered() == (if old(self).delivered() == u32::MAX {
                        0u32
                    } else {
                        (old(self).delivered() + 1) as u32
                    })
                },
                Ok(None) => {
                    &&& old(self).link().current() is Attached
                    &&& old(self).queue().len() == 0
                    &&& final(self).queue() == old(self).queue()
                    &&& final(self).delivered() == old(self).delivered()
                },
                Err(e) => {
                    &&& !(old(self).link().current() is Attached)
                    &&& e is InvalidState
                    &&& e->InvalidState_0@ == "Receiver is not attached"@
                    &&& final(self).queue() == old(self).queue()
                    &&& final(self).delivered() == old(self).delivered()
                },
            },
    {
        match self.link.state() {
            LinkState::Attached => {},
            _ => {
                return Err(AmqpError::invalid_state("Receiver is not attached"));
            },
        }
        if self.message_queue.len() == 0 {
            Ok(None)
        } else {
            let message = self.message_queue.remove(0);
            self.delivery_count = self.delivery_count.wrapping_add(1);
            assert(self.queue() =~= old(self).queue().drop_first());
            Ok(Some(message))
        }
    }

    /// Add credit; the credit stops at the largest number it can hold.
    pub fn add_credit(&mut self, credit: u32)
        ensures
            final(self).link() == old(self).link(),
            final(self).queue() == old(self).queue(),
            final(self).delivered() == old(self).delivered(),
            final(self).credit_left() == (if old(self).credit_left() + credit > u32::MAX {
                u32::MAX
            } else {
                (old(self).credit_left() + credit) as u32
            }),
    {
        self.credit = self.credit.saturating_add(credit);
    }

    /// Get available credit.
    pub fn credit(&self) -> (credit: u32)
        ensures
            credit == self.credit_left(),
    {
        self.credit
    }

    /// Get delivery count.
    pub fn delivery_count(&self) -> (count: u32)
        ensures
            count == self.delivered(),
    {
        self.delivery_count
    }

    /// The number of messages that wait to be received.
    pub fn queued(&self) -> (count: usize)
        ensures
            count == self.queue().len(),
    {
        self.message_queue.len()
    }

    /// Get link state.
    pub fn state(&self) -> (state: &LinkState)
        ensures
            *state == self.link().current(),
    {
        self.link.state()
    }

    /// Get receiver ID.
    pub fn id(&self) -> (id: &str)
        ensures
            id@ == self.link().identifier(),
    {
        self.link.id()
    }

    /// Get receiver name.
    pub fn name(&self) -> (name: &str)
        ensures
            name@ == self.link().configuration().name,
    {
        self.link.name()
    }

    /// Puts a message at the end of the queue, as if it had arrived from
    /// the peer. The delivery count stays: it counts what `receive` hands
    /// out.
    pub fn simulate_receive(&mut self, message: Message)
        ensures
            final(self).link() == old(self).link(),
            final(self).credit_left() == old(self).credit_left(),
            final(self).delivered() == old(self).delivered(),
            final(self).queue() == old(self).queue().push(message),
    {
        self.message_queue.push(message);
    }
}

/// Puts the configuration of a link together, and builds a sender or a
/// receiver from it.
#[derive(Debug, Clone)]
pub struct LinkBuilder {
    config: LinkConfig,
}

impl View for LinkBuilder {
    type V = LinkConfigModel;

    /// The configuration as built so far.
    closed spec fn view(&self) -> LinkConfigModel {
        self.config@
    }
}

impl LinkBuilder {
    /// Create a new link builder, with the standard configuration under
    /// a fresh name.
    pub fn new() -> (builder: Self)
        ensures
            exists|bits: u128| builder@ == LinkConfigModel::standard(uuid_hyphenated(bits)),
            builder@.name.len() == 36,
    {
        LinkBuilder { config: LinkConfig::default() }
    }

    /// The configuration as built so far.
    pub fn config(&self) -> (config: &LinkConfig)
        ensures
            config@ == self@,
    {
        &self.config
    }

    /// Set the link name.
    pub fn name(self, name: &str) -> (builder: Self)
        ensures
            builder@ == (LinkConfigModel { name: name@, ..self@ }),
    {
        let mut config = self.config;
        config.name = name.to_owned();
        LinkBuilder { config }
    }

    /// Set the source address.
    pub fn source(self, source: &str) -> (builder: Self)
        ensures
            builder@ == (LinkConfigModel { source: Some(source@), ..self@ }),
    {
        let mut config = self.config;
        config.source = Some(source.to_owned());
        LinkBuilder { config }
    }

    /// Set the target address.
    pub fn target(self, target: &str) -> (builder: Self)
        ensures
            builder@ == (LinkConfigModel { target: Some(target@), ..self@ }),
    {
        let mut config = self.config;
        config.target = Some(target.to_owned());
        LinkBuilder { config }
    }

    /// Set the sender settle mode.
    pub fn sender_settle_mode(self, mode: SenderSettleMode) -> (builder: Self)
        ensures
            builder@ == (LinkConfigModel { sender_settle_mode: mode, ..self@ }),
    {
        let mut config = self.config;
        config.sender_settle_mode = mode;
        LinkBuilder { config }
    }

    /// Set the receiver settle mode.
    pub fn receiver_settle_mode(self, mode: ReceiverSettleMode) -> (builder: Self)
        ensures
            builder@ == (LinkConfigModel { receiver_settle_mode: mode, ..self@ }),
    {
        let mut config = self.config;
        config.receiver_settle_mode = mode;
        LinkBuilder { config }
    }

    /// Add a link property.
    pub fn property(self, key: &str, value: AmqpValue) -> (builder: Self)
        ensures
            builder@ == (LinkConfigModel {
                properties: with_entry(self@.properties, key@, value@),
                ..self@
            }),
    {
        let mut config = self.config;
        config.properties.insert(AmqpSymbol(key.to_owned()), value);
        LinkBuilder { config }
    }

    /// Set source terminus configuration.
    pub fn source_config(self, terminus: TerminusConfig) -> (builder: Self)
        ensures
            builder@ == (LinkConfigModel { source_config: Some(terminus@), ..self@ }),
    {
        let mut config = self.config;
        config.source_config = Some(terminus);
        LinkBuilder { config }
    }

    /// Set target terminus configuration.
    pub fn target_config(self, terminus: TerminusConfig) -> (builder: Self)
        ensures
            builder@ == (LinkConfigModel { target_config: Some(terminus@), ..self@ }),
    {
        let mut config = self.config;
        config.target_config = Some(terminus);
        LinkBuilder { config }
    }

    /// Build a sender.
    pub fn build_sender(self, session_id: String) -> (sender: Sender)
        ensures
            sender.link().current() is Detached,
            sender.link().configuration() == self@,
            sender.link().identifier() == link_id(session_id@, self@.name),
            sender.link().session() == session_id@,
            sender.credit_left() == 0,
            sender.pending() == Map::<u32, Message>::empty(),
            sender.next_id() == 1,
    {
        Sender::new(self.config, session_id)
    }

    /// Build a receiver.
    pub fn build_receiver(self, session_id: String) -> (receiver: Receiver)
        ensures
            receiver.link().current() is Detached,
            receiver.link().configuration() == self@,
            receiver.link().identifier() == link_id(session_id@, self@.name),
            receiver.link().session() == session_id@,
            receiver.credit_left() == 0,
            receiver.queue() == Seq::<Message>::empty(),
            receiver.delivered() == 0,
    {
        Receiver::new(self.config, session_id)
    }
}

impl Default for LinkBuilder {
    fn default() -> (builder: Self)
        ensures
            exists|bits: u128| builder@ == LinkConfigModel::standard(uuid_hyphenated(bits)),
            builder@.name.len() == 36,
    {
        LinkBuilder::new()
    }
}

/// Puts the options of a terminus together.
#[derive(Debug, Clone)]
pub struct TerminusBuilder {
    config: TerminusConfig,
}

impl View for TerminusBuilder {
    type V = TerminusModel;

    /// The options as built so far.
    closed spec fn view(&self) -> TerminusModel {
        self.config@
    }
}

impl TerminusBuilder {
    /// Create a new terminus builder, with the standard options.
    pub fn new() -> (builder: Self)
        ensures
            builder@ == TerminusModel::standard(),
    {
        TerminusBuilder { config: TerminusConfig::default() }
    }

    /// Set the durability.
    pub fn durability(self, durability: TerminusDurability) -> (builder: Self)
        ensures
            builder@ == (TerminusModel { durability, ..self@ }),
    {
        let mut config = self.config;
        config.durability = durability;
        TerminusBuilder { config }
    }

    /// Set the expiry policy.
    pub fn expiry_policy(self, policy: TerminusExpiryPolicy) -> (builder: Self)
        ensures
            builder@ == (TerminusModel { expiry_policy: policy, ..self@ }),
    {
        let mut config = self.config;
        config.expiry_policy = policy;
        TerminusBuilder { config }
    }

    /// Set the timeout.
    pub fn timeout(self, timeout: u32) -> (builder: Self)
        ensures
            builder@ == (TerminusModel { timeout, ..self@ }),
    {
        let mut config = self.config;
        config.timeout = timeout;
        TerminusBuilder { config }
    }

    /// Add a terminus property.
    pub fn property(self, key: &str, value: AmqpValue) -> (builder: Self)
        ensures
            builder@ == (TerminusModel {
                properties: with_entry(self@.properties, key@, value@),
                ..self@
            }),
    {
        let mut config = self.config;
        config.properties.insert(AmqpSymbol(key.to_owned()), value);
        TerminusBuilder { config }
    }

    /// Build the terminus configuration.
    pub fn build(self) -> (config: TerminusConfig)
        ensures
            config@ == self@,
    {
        self.config
    }
}

impl Default for TerminusBuilder {
    fn default() -> (builder: Self)
        ensures
            builder@ == TerminusModel::standard(),
    {
        TerminusBuilder::new()
    }
}

} // verus!
