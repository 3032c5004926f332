pub mod client_handler;
pub mod config;
pub mod msg;
pub mod session;

use vstd::prelude::*;

pub use self::config::Config;
use self::msg::BrokerMsg;
use crate::collections::{StrMap, StrSet};
use crate::mqtt::packet::{clone_strings, QosPid};
use crate::text::strings_view;

verus! {

broadcast use vstd::seq_lib::group_seq_properties;

/// Per-client bookkeeping of the shared broker state.
#[derive(Debug)]
pub struct ClientInfo<Tx> {
    /// channel to send messages to this client
    pub client_tx: Tx,
    /// topics that this client has subscribed to
    pub topics: StrSet,
}

/// The shared broker state: connected clients and, for each active topic
/// path, the clients subscribed to it.
pub struct Broker<Tx> {
    config: Config,
    clients: StrMap<ClientInfo<Tx>>,
    subscriptions: StrMap<StrSet>,
}

/// Connected clients, each with its recorded topics, after `client` connects.
pub open spec fn connected_clients(
    clients: Map<Seq<char>, Set<Seq<char>>>,
    client: Seq<char>,
) -> Map<Seq<char>, Set<Seq<char>>> {
    clients.insert(client, Set::empty())
}

/// Subscriptions once `client` has left the subscriber sets of `topics`; no
/// topic entry is added or removed.
pub open spec fn left_subscriptions(
    subs: Map<Seq<char>, Set<Seq<char>>>,
    topics: Set<Seq<char>>,
    client: Seq<char>,
) -> Map<Seq<char>, Set<Seq<char>>> {
    Map::new(
        |t: Seq<char>| subs.contains_key(t),
        |t: Seq<char>|
            if topics.contains(t) {
                subs[t].remove(client)
            } else {
                subs[t]
            },
    )
}

/// Subscriptions after `client` disconnects: it leaves every subscriber set;
/// no topic entry is added or removed.
pub open spec fn disconnected_subscriptions(
    subs: Map<Seq<char>, Set<Seq<char>>>,
    client: Seq<char>,
) -> Map<Seq<char>, Set<Seq<char>>> {
    Map::new(|t: Seq<char>| subs.contains_key(t), |t: Seq<char>| subs[t].remove(client))
}

/// Recorded client topics after `client` subscribes to `topics`: they are
/// added to its record, if it is connected.
pub open spec fn subscribed_clients(
    clients: Map<Seq<char>, Set<Seq<char>>>,
    client: Seq<char>,
    topics: Set<Seq<char>>,
) -> Map<Seq<char>, Set<Seq<char>>> {
    if clients.contains_key(client) {
        clients.insert(client, clients[client].union(topics))
    } else {
        clients
    }
}

/// Subscriptions after a publish to `topic`: the topic gets an (empty) entry
/// if it had none.
pub open spec fn published_subscriptions(
    subs: Map<Seq<char>, Set<Seq<char>>>,
    topic: Seq<char>,
) -> Map<Seq<char>, Set<Seq<char>>> {
    if subs.contains_key(topic) {
        subs
    } else {
        subs.insert(topic, Set::empty())
    }
}

/// The clients that a publish by `sender` to `topic` is forwarded to: the
/// connected subscribers of the topic, except the sender itself.
pub open spec fn publish_recipients(
    subs: Map<Seq<char>, Set<Seq<char>>>,
    clients: Map<Seq<char>, Set<Seq<char>>>,
    sender: Seq<char>,
    topic: Seq<char>,
) -> Set<Seq<char>> {
    Set::new(
        |c: Seq<char>|
            subs.contains_key(topic) && subs[topic].contains(c) && clients.contains_key(c) && c
                != sender,
    )
}

/// Subscriptions after `client` subscribes to `topics`.
pub open spec fn subscribed_subscriptions(
    subs: Map<Seq<char>, Set<Seq<char>>>,
    client: Seq<char>,
    topics: Set<Seq<char>>,
) -> Map<Seq<char>, Set<Seq<char>>> {
    Map::new(
        |t: Seq<char>| subs.contains_key(t) || topics.contains(t),
        |t: Seq<char>|
            if topics.contains(t) {
                if subs.contains_key(t) {
                    subs[t].insert(client)
                } else {
                    Set::empty().insert(client)
                }
            } else {
                subs[t]
            },
    )
}

/// Subscriptions after `client` unsubscribes from `topics`: it leaves each
/// of those subscriber sets, and a topic whose set becomes empty loses its
/// entry.
pub open spec fn unsubscribed_subscriptions(
    subs: Map<Seq<char>, Set<Seq<char>>>,
    client: Seq<char>,
    topics: Set<Seq<char>>,
) -> Map<Seq<char>, Set<Seq<char>>> {
    Map::new(
        |t: Seq<char>|
            subs.contains_key(t) && !(topics.contains(t) && subs[t].remove(client)
                =~= Set::empty()),
        |t: Seq<char>|
            if topics.contains(t) {
                subs[t].remove(client)
            } else {
                subs[t]
            },
    )
}

/// Recorded client topics after `client` unsubscribes from `topics`.
pub open spec fn unsubscribed_clients(
    clients: Map<Seq<char>, Set<Seq<char>>>,
    client: Seq<char>,
    topics: Set<Seq<char>>,
) -> Map<Seq<char>, Set<Seq<char>>> {
    if clients.contains_key(client) {
        clients.insert(client, clients[client].difference(topics))
    } else {
        clients
    }
}

/// The message forwarded to a subscriber for a publish.
pub open spec fn is_forwarded_publish<Tx>(
    msg: BrokerMsg<Tx>,
    client: Seq<char>,
    dup: bool,
    qospid: QosPid,
    retain: bool,
    topic: Seq<char>,
    payload: Seq<u8>,
) -> bool {
    match msg {
        BrokerMsg::Publish { client: c, dup: d, qospid: q, retain: r, topic_name: t, payload: p } => {
            &&& c@ == client
            &&& d == dup
            &&& q == qospid
            &&& r == retain
            &&& t@ == topic
            &&& p@ == payload
        },
        _ => false,
    }
}


/// A connected client that subscribed to a topic receives every message that
/// another client publishes to that topic.
pub proof fn lemma_subscriber_receives_publish(
    subs: Map<Seq<char>, Set<Seq<char>>>,
    clients: Map<Seq<char>, Set<Seq<char>>>,
    subscriber: Seq<char>,
    sender: Seq<char>,
    topics: Set<Seq<char>>,
    topic: Seq<char>,
)
    requires
        clients.contains_key(subscriber),
        subscriber != sender,
        topics.contains(topic),
    ensures
        publish_recipients(
            subscribed_subscriptions(subs, subscriber, topics),
            clients,
            sender,
            topic,
        ).contains(subscriber),
{
}

/// After a client unsubscribes from topics it had subscribed to, it is no
/// subscriber of any of them.
pub proof fn lemma_unsubscribe_undoes_subscribe(
    subs: Map<Seq<char>, Set<Seq<char>>>,
    client: Seq<char>,
    topics: Set<Seq<char>>,
    topic: Seq<char>,
)
    requires
        topics.contains(topic),
    ensures
        ({
            let after = unsubscribed_subscriptions(
                subscribed_subscriptions(subs, client, topics),
                client,
                topics,
            );
            !(after.contains_key(topic) && after[topic].contains(client))
        }),
{
}

/// An unsubscribe touches only the client that sends it: every other
/// client subscribes to a topic afterwards exactly when it did before.
pub proof fn lemma_unsubscribe_keeps_others(
    subs: Map<Seq<char>, Set<Seq<char>>>,
    client: Seq<char>,
    topics: Set<Seq<char>>,
    other: Seq<char>,
    topic: Seq<char>,
)
    requires
        other != client,
    ensures
        ({
            let after = unsubscribed_subscriptions(subs, client, topics);
            (after.contains_key(topic) && after[topic].contains(other)) == (subs.contains_key(topic)
                && subs[topic].contains(other))
        }),
{
    if subs.contains_key(topic) && subs[topic].contains(other) && topics.contains(topic) {
        assert(subs[topic].remove(client).contains(other));
        assert(!(subs[topic].remove(client) =~= Set::empty()));
    }
}

/// Whether `client` subscribes to `topic` in `subs`.
pub open spec fn subscribes(subs: Map<Seq<char>, Set<Seq<char>>>, client: Seq<char>, topic: Seq<char>) -> bool {
    subs.contains_key(topic) && subs[topic].contains(client)
}

/// After a client subscribes to topics it subscribes to exactly those and
/// the ones it had, and every other client's subscriptions are as they were.
pub proof fn lemma_subscribe_effect(
    subs: Map<Seq<char>, Set<Seq<char>>>,
    client: Seq<char>,
    topics: Set<Seq<char>>,
    other: Seq<char>,
    topic: Seq<char>,
)
    ensures
        subscribes(subscribed_subscriptions(subs, client, topics), client, topic) == (topics.contains(topic)
            || subscribes(subs, client, topic)),
        other != client ==> subscribes(subscribed_subscriptions(subs, client, topics), other, topic)
            == subscribes(subs, other, topic),
{
}

/// After a client unsubscribes from topics it subscribes to exactly the ones
/// it had outside them.
pub proof fn lemma_unsubscribe_effect(
    subs: Map<Seq<char>, Set<Seq<char>>>,
    client: Seq<char>,
    topics: Set<Seq<char>>,
    topic: Seq<char>,
)
    ensures
        subscribes(unsubscribed_subscriptions(subs, client, topics), client, topic) == (!topics.contains(
            topic,
        ) && subscribes(subs, client, topic)),
{
    let after = unsubscribed_subscriptions(subs, client, topics);
    if subscribes(subs, client, topic) && !topics.contains(topic) {
        assert(after.contains_key(topic));
    }
}

/// A client that disconnects subscribes to nothing afterwards, and every
/// other client's subscriptions are as they were.
pub proof fn lemma_disconnect_effect(
    subs: Map<Seq<char>, Set<Seq<char>>>,
    client: Seq<char>,
    other: Seq<char>,
    topic: Seq<char>,
)
    ensures
        !subscribes(disconnected_subscriptions(subs, client), client, topic),
        other != client ==> subscribes(disconnected_subscriptions(subs, client), other, topic)
            == subscribes(subs, other, topic),
{
}

/// Subscribing twice to the same topics is the same as subscribing once.
pub proof fn lemma_subscribe_idempotent(
    subs: Map<Seq<char>, Set<Seq<char>>>,
    client: Seq<char>,
    topics: Set<Seq<char>>,
)
    ensures
        subscribed_subscriptions(subscribed_subscriptions(subs, client, topics), client, topics)
            == subscribed_subscriptions(subs, client, topics),
{
    let once = subscribed_subscriptions(subs, client, topics);
    let twice = subscribed_subscriptions(once, client, topics);
    assert forall|t: Seq<char>| twice.contains_key(t) implies twice[t] == once[t] by {
        if topics.contains(t) {
            assert(once[t].insert(client) =~= once[t]);
        }
    }
    assert(twice =~= once);
}

/// A publish is never forwarded back to its sender, and only to connected
/// clients that subscribed to the topic.
pub proof fn lemma_recipients_are_other_connected_subscribers(
    subs: Map<Seq<char>, Set<Seq<char>>>,
    clients: Map<Seq<char>, Set<Seq<char>>>,
    sender: Seq<char>,
    topic: Seq<char>,
    c: Seq<char>,
)
    requires
        publish_recipients(subs, clients, sender, topic).contains(c),
    ensures
        c != sender,
        clients.contains_key(c),
        subs.contains_key(topic) && subs[topic].contains(c),
{
}

/// Once a client has disconnected, it is a subscriber of no topic, and the
/// other subscribers stay.
pub proof fn lemma_disconnect_removes_all_traces(
    subs: Map<Seq<char>, Set<Seq<char>>>,
    client: Seq<char>,
    topic: Seq<char>,
    other: Seq<char>,
)
    requires
        other != client,
    ensures
        ({
            let after = disconnected_subscriptions(subs, client);
            &&& !(after.contains_key(topic) && after[topic].contains(client))
            &&& (subs.contains_key(topic) && subs[topic].contains(other)) ==> after[topic].contains(
                other,
            )
        }),
{
}

/// Once a client has disconnected, no publish is forwarded to it.
pub proof fn lemma_disconnected_client_receives_nothing(
    subs: Map<Seq<char>, Set<Seq<char>>>,
    clients: Map<Seq<char>, Set<Seq<char>>>,
    client: Seq<char>,
    sender: Seq<char>,
    topic: Seq<char>,
)
    ensures
        !publish_recipients(subs, clients.remove(client), sender, topic).contains(client),
{
}

impl<Tx> Broker<Tx> {
    pub closed spec fn wf(&self) -> bool {
        &&& self.clients.wf()
        &&& self.subscriptions.wf()
        &&& forall|k: Seq<char>| #[trigger]
            self.subscriptions@.contains_key(k) ==> self.subscriptions@[k].wf()
        &&& forall|k: Seq<char>| #[trigger]
            self.clients@.contains_key(k) ==> self.clients@[k].topics.wf()
    }

    /// Active topic paths, each with its subscribers.
    pub closed spec fn subscriptions_view(&self) -> Map<Seq<char>, Set<Seq<char>>> {
        self.subscriptions@.map_values(|s: StrSet| s@)
    }

    /// Connected clients, each with the topics recorded for it.
    pub closed spec fn clients_view(&self) -> Map<Seq<char>, Set<Seq<char>>> {
        self.clients@.map_values(|c: ClientInfo<Tx>| c.topics@)
    }

    /// The channel of a connected client.
    pub closed spec fn spec_client_tx(&self, client: Seq<char>) -> Tx {
        self.clients@[client].client_tx
    }

    pub closed spec fn spec_config(&self) -> Config {
        self.config
    }

    /// The channels of the clients that stay connected are kept.
    pub open spec fn keeps_channels(&self, old: &Self) -> bool {
        forall|c: Seq<char>| #[trigger]
            self.clients_view().contains_key(c) && old.clients_view().contains_key(c)
                ==> self.spec_client_tx(c) == old.spec_client_tx(c)
    }

    /// An empty broker state.
    pub fn new(config: Config) -> (res: Broker<Tx>)
        ensures
            res.wf(),
            res.spec_config() == config,
            res.subscriptions_view() == Map::<Seq<char>, Set<Seq<char>>>::empty(),
            res.clients_view() == Map::<Seq<char>, Set<Seq<char>>>::empty(),
    {
        let res = Broker { config, clients: StrMap::new(), subscriptions: StrMap::new() };
        assert(res.subscriptions_view() =~= Map::<Seq<char>, Set<Seq<char>>>::empty());
        assert(res.clients_view() =~= Map::<Seq<char>, Set<Seq<char>>>::empty());
        res
    }

    pub fn config(&self) -> (res: &Config)
        ensures
            *res == self.spec_config(),
    {
        &self.config
    }

    /// The channel of a connected client.
    pub fn client_tx(&self, client: &str) -> (res: Option<&Tx>)
        requires
            self.wf(),
        ensures
            match res {
                Some(tx) => self.clients_view().contains_key(client@) && *tx
                    == self.spec_client_tx(client@),
                None => !self.clients_view().contains_key(client@),
            },
    {
        match self.clients.get(client) {
            Some(info) => Some(&info.client_tx),
            None => None,
        }
    }

    /// The subscribers of `topic`, if it has an entry.
    pub fn subscribers(&self, topic: &str) -> (res: Option<&StrSet>)
        requires
            self.wf(),
        ensures
            match res {
                Some(s) => self.subscriptions_view().contains_key(topic@) && s@
                    == self.subscriptions_view()[topic@] && s.wf(),
                None => !self.subscriptions_view().contains_key(topic@),
            },
    {
        self.subscriptions.get(topic)
    }

    /// A client completed the connection handshake: record it with no topics
    /// (an earlier entry under the same identifier is replaced).
    pub fn handle_client_connected(&mut self, client: String, client_tx: Tx)
        requires
            old(self).wf(),
        ensures
            final(self).wf(),
            final(self).clients_view() == connected_clients(old(self).clients_view(), client@),
            final(self).subscriptions_view() == old(self).subscriptions_view(),
            final(self).spec_client_tx(client@) == client_tx,
            forall|c: Seq<char>| #[trigger]
                old(self).clients_view().contains_key(c) && c != client@
                    ==> final(self).spec_client_tx(c) == old(self).spec_client_tx(c),
            final(self).spec_config() == old(self).spec_config(),
    {
        let ghost old_clients = self.clients@;
        let ghost old_view = self.clients_view();
        let topics = StrSet::new();
        self.clients.insert(client, ClientInfo { client_tx, topics });
        assert(self.clients_view() =~= connected_clients(old_view, client@));
        assert forall|k: Seq<char>| #[trigger] self.clients@.contains_key(k) implies self.clients@[
            k].topics.wf() by {
            if k != client@ {
                assert(old_clients.contains_key(k));
            }
        }
    }

    /// A client disconnected: it leaves every subscriber set, and its entry
    /// is removed.
    pub fn handle_client_disconnected(&mut self, client: String)
        requires
            old(self).wf(),
        ensures
            final(self).wf(),
            final(self).clients_view() == old(self).clients_view().remove(client@),
            final(self).subscriptions_view() == disconnected_subscriptions(
                old(self).subscriptions_view(),
                client@,
            ),
            final(self).keeps_channels(old(self)),
            final(self).spec_config() == old(self).spec_config(),
    {
        let ghost old_subs = self.subscriptions_view();
        let ghost old_clients = self.clients@;
        let ghost old_cview = self.clients_view();
        let _ = self.clients.take(client.as_str());
        assert(self.clients_view() =~= old_cview.remove(client@));
        assert forall|k: Seq<char>| #[trigger] self.clients@.contains_key(k) implies self.clients@[
            k].topics.wf() by {
            assert(old_clients.contains_key(k));
        }
        let items = clone_strings(self.subscriptions.keys());
        let ghost iv = strings_view(items@);
        assert(iv =~= self.subscriptions.key_seq());
        assert(iv.to_set() =~= old_subs.dom());
        let mut j: usize = 0;
        assert(left_subscriptions(old_subs, Seq::<Seq<char>>::empty().to_set(), client@) =~= old_subs);
        assert(iv.take(0) =~= Seq::<Seq<char>>::empty());
        while j < items.len()
            invariant
                j <= items@.len(),
                iv == strings_view(items@),
                self.subscriptions.wf(),
                forall|k: Seq<char>| #[trigger]
                    self.subscriptions@.contains_key(k) ==> self.subscriptions@[k].wf(),
                self.subscriptions_view() == left_subscriptions(
                    old_subs,
                    iv.take(j as int).to_set(),
                    client@,
                ),
                self.clients@ == old_clients.remove(client@),
                self.clients.wf(),
                forall|k: Seq<char>| #[trigger]
                    self.clients@.contains_key(k) ==> self.clients@[k].topics.wf(),
                self.config == old(self).config,
            decreases items@.len() - j,
        {
            let topic = &items[j];
            let ghost before = self.subscriptions_view();
            let ghost before_raw = self.subscriptions@;
            let ghost prefix = iv.take(j as int).to_set();
            let ghost next = iv.take(j + 1).to_set();
            assert(next =~= prefix.insert(topic@)) by {
                assert(iv.take(j + 1) =~= iv.take(j as int).push(topic@));
            }
            match self.subscriptions.take(topic.as_str()) {
                Some(set) => {
                    let mut set = set;
                    let ghost set0 = set@;
                    assert(before.contains_key(topic@));
                    assert(before[topic@] == set0);
                    set.remove(client.as_str());
                    self.subscriptions.insert(topic.clone(), set);
                    proof {
                        let after = self.subscriptions_view();
                        let target = left_subscriptions(old_subs, next, client@);
                        assert forall|k: Seq<char>| after.contains_key(k) == target.contains_key(k) by {
                            assert(after.contains_key(k) == before.contains_key(k));
                        }
                        assert forall|k: Seq<char>| after.contains_key(k) implies after[k] == target[k] by {
                            if k == topic@ {
                                assert(after[k] == set0.remove(client@));
                                if prefix.contains(k) {
                                    assert(set0 == old_subs[k].remove(client@));
                                    assert(set0.remove(client@) =~= old_subs[k].remove(client@));
                                }
                            } else {
                                assert(after[k] == before[k]);
                            }
                        }
                        assert(after =~= target);
                        assert forall|k: Seq<char>| #[trigger] self.subscriptions@.contains_key(k) implies self.subscriptions@[k].wf() by {
                            if k != topic@ {
                                assert(before_raw.contains_key(k));
                            }
                        }
                    }
                },
                None => {
                    proof {
                        let target = left_subscriptions(old_subs, next, client@);
                        assert(!before.contains_key(topic@));
                        assert(self.subscriptions_view() =~= before);
                        assert forall|k: Seq<char>| before.contains_key(k) implies before[k] == target[k] by {
                            assert(k != topic@);
                        }
                        assert(before =~= target);
                    }
                },
            }
            j = j + 1;
        }
        assert(iv.take(j as int) =~= iv);
        assert(left_subscriptions(old_subs, iv.to_set(), client@) =~= disconnected_subscriptions(
            old_subs,
            client@,
        ));
    }

    /// A client publishes `payload` to `topic_name`: the topic gets an
    /// entry if it had none, and the message is forwarded to every connected
    /// subscriber except the publisher. Returns the recipients with their
    /// messages, no recipient twice.
    pub fn handle_publish(
        &mut self,
        client: String,
        dup: bool,
        qospid: QosPid,
        retain: bool,
        topic_name: String,
        payload: Vec<u8>,
    ) -> (out: Vec<(String, BrokerMsg<Tx>)>)
        requires
            old(self).wf(),
        ensures
            final(self).wf(),
            final(self).subscriptions_view() == published_subscriptions(
                old(self).subscriptions_view(),
                topic_name@,
            ),
            final(self).clients_view() == old(self).clients_view(),
            final(self).keeps_channels(old(self)),
            final(self).spec_config() == old(self).spec_config(),
            out@.map_values(|m: (String, BrokerMsg<Tx>)| m.0@).no_duplicates(),
            out@.map_values(|m: (String, BrokerMsg<Tx>)| m.0@).to_set() == publish_recipients(
                old(self).subscriptions_view(),
                old(self).clients_view(),
                client@,
                topic_name@,
            ),
            forall|i: int|
                0 <= i < out@.len() ==> is_forwarded_publish(
                    #[trigger] out@[i].1,
                    client@,
                    dup,
                    qospid,
                    retain,
                    topic_name@,
                    payload@,
                ),
    {
        let ghost old_subs = self.subscriptions_view();
        let ghost old_raw = self.subscriptions@;
        if !self.subscriptions.contains_key(topic_name.as_str()) {
            self.subscriptions.insert(topic_name.clone(), StrSet::new());
            assert forall|k: Seq<char>| #[trigger] self.subscriptions@.contains_key(k) implies self.subscriptions@[
                k].wf() by {
                if k != topic_name@ {
                    assert(old_raw.contains_key(k));
                }
            }
        }
        assert(self.subscriptions_view() =~= published_subscriptions(old_subs, topic_name@));
        let mut out: Vec<(String, BrokerMsg<Tx>)> = Vec::new();
        let subs = self.subscriptions.get(topic_name.as_str()).unwrap();
        let items = subs.items();
        let ghost elems = strings_view(items@);
        let ghost recipients = publish_recipients(
            old_subs,
            self.clients_view(),
            client@,
            topic_name@,
        );
        let mut i: usize = 0;
        while i < items.len()
            invariant
                i <= items@.len(),
                elems == strings_view(items@),
                elems.no_duplicates(),
                elems.to_set() == self.subscriptions_view()[topic_name@],
                self.subscriptions_view() == published_subscriptions(old_subs, topic_name@),
                recipients == publish_recipients(
                    old_subs,
                    self.clients_view(),
                    client@,
                    topic_name@,
                ),
                self.clients.wf(),
                out@.map_values(|m: (String, BrokerMsg<Tx>)| m.0@).no_duplicates(),
                forall|k: int|
                    0 <= k < out@.len() ==> #[trigger] elems.take(i as int).contains(
                        out@[k].0@,
                    ),
                forall|x: Seq<char>|
                    elems.take(i as int).contains(x) && recipients.contains(x) ==> out@.map_values(
                        |m: (String, BrokerMsg<Tx>)| m.0@,
                    ).contains(x),
                forall|x: Seq<char>|
                    out@.map_values(|m: (String, BrokerMsg<Tx>)| m.0@).contains(x)
                        ==> recipients.contains(x),
                forall|k: int|
                    0 <= k < out@.len() ==> is_forwarded_publish(
                        #[trigger] out@[k].1,
                        client@,
                        dup,
                        qospid,
                        retain,
                        topic_name@,
                        payload@,
                    ),
            decreases items@.len() - i,
        {
            let id = &items[i];
            let ghost ids_before = out@.map_values(|m: (String, BrokerMsg<Tx>)| m.0@);
            assert(elems.take(i + 1) =~= elems.take(i as int).push(id@));
            if self.clients.contains_key(id.as_str()) && !crate::text::str_eq(
                id.as_str(),
                client.as_str(),
            ) {
                let msg = BrokerMsg::Publish {
                    client: client.clone(),
                    dup,
                    qospid,
                    retain,
                    topic_name: topic_name.clone(),
                    payload: payload.clone(),
                };
                proof {
                    assert(self.subscriptions_view()[topic_name@].contains(id@)) by {
                        assert(elems[i as int] == id@);
                    }
                    assert(recipients.contains(id@));
                    assert(!ids_before.contains(id@)) by {
                        if ids_before.contains(id@) {
                            let k = choose|k: int| 0 <= k < ids_before.len() && ids_before[k] == id@;
                            assert(elems.take(i as int).contains(out@[k].0@));
                            let m = choose|m: int| 0 <= m < i && elems[m] == id@;
                            assert(elems[i as int] == id@);
                        }
                    }
                }
                out.push((id.clone(), msg));
                proof {
                    let ids = out@.map_values(|m: (String, BrokerMsg<Tx>)| m.0@);
                    assert(ids =~= ids_before.push(id@));
                    assert forall|x: Seq<char>| ids.contains(x) implies recipients.contains(x) by {
                        if x != id@ {
                            let k = choose|k: int| 0 <= k < ids.len() && ids[k] == x;
                            assert(ids_before[k] == x);
                        }
                    }
                    assert forall|x: Seq<char>|
                        elems.take(i + 1).contains(x) && recipients.contains(x) implies ids.contains(
                        x,
                    ) by {
                        if x != id@ {
                            assert(elems.take(i as int).contains(x));
                            assert(ids_before.contains(x));
                            let k = choose|k: int| 0 <= k < ids_before.len() && ids_before[k] == x;
                            assert(ids[k] == x);
                        } else {
                            assert(ids[ids.len() - 1] == x);
                        }
                    }
                }
            } else {
                proof {
                    assert(!recipients.contains(id@));
                    assert forall|x: Seq<char>|
                        elems.take(i + 1).contains(x) && recipients.contains(x) implies ids_before.contains(
                        x,
                    ) by {
                        if x != id@ {
                            assert(elems.take(i as int).contains(x));
                        }
                    }
                }
            }
            i = i + 1;
        }
        proof {
            assert(elems.take(i as int) =~= elems);
            let ids = out@.map_values(|m: (String, BrokerMsg<Tx>)| m.0@);
            assert forall|x: Seq<char>| recipients.contains(x) implies ids.contains(x) by {
                assert(self.subscriptions_view()[topic_name@].contains(x));
                assert(elems.to_set().contains(x));
            }
            assert(ids.to_set() =~= recipients);
        }
        out
    }
    /// A client subscribes to `topics`: it joins the subscriber set of each
    /// of them, creating the entries that do not exist yet, and the topics
    /// are recorded for the client if it is connected.
    pub fn handle_subscribe(&mut self, client: String, topics: Vec<String>)
        requires
            old(self).wf(),
        ensures
            final(self).wf(),
            final(self).subscriptions_view() == subscribed_subscriptions(
                old(self).subscriptions_view(),
                client@,
                strings_view(topics@).to_set(),
            ),
            final(self).clients_view() == subscribed_clients(
                old(self).clients_view(),
                client@,
                strings_view(topics@).to_set(),
            ),
            final(self).keeps_channels(old(self)),
            final(self).spec_config() == old(self).spec_config(),
    {
        let ghost old_subs = self.subscriptions_view();
        let ghost tv = strings_view(topics@);
        let mut i: usize = 0;
        assert(subscribed_subscriptions(old_subs, client@, tv.take(0).to_set()) =~= old_subs);
        while i < topics.len()
            invariant
                i <= topics@.len(),
                tv == strings_view(topics@),
                self.subscriptions.wf(),
                forall|k: Seq<char>| #[trigger]
                    self.subscriptions@.contains_key(k) ==> self.subscriptions@[k].wf(),
                self.subscriptions_view() == subscribed_subscriptions(
                    old_subs,
                    client@,
                    tv.take(i as int).to_set(),
                ),
                self.clients == old(self).clients,
                self.config == old(self).config,
            decreases topics@.len() - i,
        {
            let topic = &topics[i];
            let ghost before = self.subscriptions_view();
            let ghost before_raw = self.subscriptions@;
            let ghost prefix = tv.take(i as int).to_set();
            let ghost next = tv.take(i + 1).to_set();
            assert(next =~= prefix.insert(topic@)) by {
                assert(tv.take(i + 1) =~= tv.take(i as int).push(topic@));
            }
            let mut set = match self.subscriptions.take(topic.as_str()) {
                Some(set) => set,
                None => StrSet::new(),
            };
            let ghost set0 = set@;
            assert(before.contains_key(topic@) ==> set0 == before[topic@]);
            assert(!before.contains_key(topic@) ==> set0 == Set::<Seq<char>>::empty());
            set.insert(client.clone());
            self.subscriptions.insert(topic.clone(), set);
            proof {
                let after = self.subscriptions_view();
                let target = subscribed_subscriptions(old_subs, client@, next);
                assert forall|k: Seq<char>| after.contains_key(k) == target.contains_key(k) by {
                    if k != topic@ {
                        assert(after.contains_key(k) == before.contains_key(k));
                    }
                }
                assert forall|k: Seq<char>| after.contains_key(k) implies after[k] == target[k] by {
                    if k == topic@ {
                        assert(after[k] == set0.insert(client@));
                        if prefix.contains(k) {
                            assert(set0.insert(client@) =~= set0);
                        } else if old_subs.contains_key(k) {
                            assert(set0 == old_subs[k]);
                        } else {
                            assert(set0 == Set::<Seq<char>>::empty());
                        }
                    } else {
                        assert(after[k] == before[k]);
                    }
                }
                assert(after =~= target);
                assert forall|k: Seq<char>| #[trigger] self.subscriptions@.contains_key(k) implies self.subscriptions@[k].wf() by {
                    if k != topic@ {
                        assert(before_raw.contains_key(k));
                    }
                }
            }
            i = i + 1;
        }
        assert(tv.take(i as int) =~= tv);
        let ghost old_clients_raw = self.clients@;
        let ghost old_cview = self.clients_view();
        match self.clients.take(client.as_str()) {
            Some(info) => {
                let mut info = info;
                let mut j: usize = 0;
                let ghost t0 = info.topics@;
                let ghost tx0 = info.client_tx;
                assert(tx0 == old_clients_raw[client@].client_tx);
                assert(t0.union(tv.take(0).to_set()) =~= t0);
                while j < topics.len()
                    invariant
                        j <= topics@.len(),
                        info.client_tx == tx0,
                        tv == strings_view(topics@),
                        info.topics.wf(),
                        info.topics@ == t0.union(tv.take(j as int).to_set()),
                    decreases topics@.len() - j,
                {
                    info.topics.insert(topics[j].clone());
                    assert(tv.take(j + 1) =~= tv.take(j as int).push(tv[j as int]));
                    assert(t0.union(tv.take(j + 1).to_set()) =~= t0.union(tv.take(j as int).to_set()).insert(tv[j as int]));
                    j = j + 1;
                }
                assert(tv.take(j as int) =~= tv);
                self.clients.insert(client, info);
                proof {
                    assert(self.clients_view() =~= subscribed_clients(old_cview, client@, tv.to_set()));
                    assert(self.spec_client_tx(client@) == old_clients_raw[client@].client_tx);
                    assert forall|k: Seq<char>| #[trigger] self.clients@.contains_key(k) implies self.clients@[k].topics.wf() by {
                        if k != client@ {
                            assert(old_clients_raw.contains_key(k));
                        }
                    }
                }
            },
            None => {
                assert(self.clients_view() =~= old_cview);
            },
        }
    }

    /// A client unsubscribes from `topics`: it leaves their subscriber sets,
    /// a topic left without subscribers loses its entry, and the topics are
    /// dropped from the client's recorded topics.
    pub fn handle_unsubscribe(&mut self, client: String, topics: Vec<String>)
        requires
            old(self).wf(),
        ensures
            final(self).wf(),
            final(self).subscriptions_view() == unsubscribed_subscriptions(
                old(self).subscriptions_view(),
                client@,
                strings_view(topics@).to_set(),
            ),
            final(self).clients_view() == unsubscribed_clients(
                old(self).clients_view(),
                client@,
                strings_view(topics@).to_set(),
            ),
            final(self).keeps_channels(old(self)),
            final(self).spec_config() == old(self).spec_config(),
    {
        let ghost old_subs = self.subscriptions_view();
        let ghost tv = strings_view(topics@);
        let mut i: usize = 0;
        assert(unsubscribed_subscriptions(old_subs, client@, tv.take(0).to_set()) =~= old_subs);
        while i < topics.len()
            invariant
                i <= topics@.len(),
                tv == strings_view(topics@),
                self.subscriptions.wf(),
                forall|k: Seq<char>| #[trigger]
                    self.subscriptions@.contains_key(k) ==> self.subscriptions@[k].wf(),
                self.subscriptions_view() == unsubscribed_subscriptions(
                    old_subs,
                    client@,
                    tv.take(i as int).to_set(),
                ),
                self.clients == old(self).clients,
                self.config == old(self).config,
            decreases topics@.len() - i,
        {
            let topic = &topics[i];
            let ghost before = self.subscriptions_view();
            let ghost before_raw = self.subscriptions@;
            let ghost prefix = tv.take(i as int).to_set();
            let ghost next = tv.take(i + 1).to_set();
            assert(next =~= prefix.insert(topic@)) by {
                assert(tv.take(i + 1) =~= tv.take(i as int).push(topic@));
            }
            match self.subscriptions.take(topic.as_str()) {
                Some(set) => {
                    let mut set = set;
                    let ghost set0 = set@;
                    assert(before.contains_key(topic@));
                    assert(before[topic@] == set0);
                    set.remove(client.as_str());
                    if !set.is_empty() {
                        self.subscriptions.insert(topic.clone(), set);
                    }
                    proof {
                        let after = self.subscriptions_view();
                        let target = unsubscribed_subscriptions(old_subs, client@, next);
                        assert(old_subs.contains_key(topic@));
                        if prefix.contains(topic@) {
                            assert(set0 == old_subs[topic@].remove(client@));
                            assert(set0.remove(client@) =~= old_subs[topic@].remove(client@));
                        } else {
                            assert(set0 == old_subs[topic@]);
                        }
                        assert forall|k: Seq<char>| after.contains_key(k) == target.contains_key(k) by {
                            if k != topic@ {
                                assert(after.contains_key(k) == before.contains_key(k));
                            }
                        }
                        assert forall|k: Seq<char>| after.contains_key(k) implies after[k] == target[k] by {
                            if k == topic@ {
                                assert(after[k] == set0.remove(client@));
                            } else {
                                assert(after[k] == before[k]);
                            }
                        }
                        assert(after =~= target);
                        assert forall|k: Seq<char>| #[trigger] self.subscriptions@.contains_key(k) implies self.subscriptions@[k].wf() by {
                            if k != topic@ {
                                assert(before_raw.contains_key(k));
                            }
                        }
                    }
                },
                None => {
                    proof {
                        let target = unsubscribed_subscriptions(old_subs, client@, next);
                        assert(!before.contains_key(topic@));
                        assert(!old_subs.contains_key(topic@) || (prefix.contains(topic@) && old_subs[topic@].remove(client@) =~= Set::empty()));
                        assert(self.subscriptions_view() =~= before);
                        assert forall|k: Seq<char>| before.contains_key(k) == target.contains_key(k) by {
                            if k == topic@ && old_subs.contains_key(k) {
                                assert(old_subs[k].remove(client@) =~= Set::empty());
                            }
                        }
                        assert forall|k: Seq<char>| before.contains_key(k) implies before[k] == target[k] by {
                            assert(k != topic@);
                        }
                        assert(before =~= target);
                    }
                },
            }
            i = i + 1;
        }
        assert(tv.take(i as int) =~= tv);
        let ghost old_clients_raw = self.clients@;
        let ghost old_cview = self.clients_view();
        match self.clients.take(client.as_str()) {
            Some(info) => {
                let mut info = info;
                let mut j: usize = 0;
                let ghost t0 = info.topics@;
                let ghost tx0 = info.client_tx;
                assert(tx0 == old_clients_raw[client@].client_tx);
                while j < topics.len()
                    invariant
                        j <= topics@.len(),
                        info.client_tx == tx0,
                        tv == strings_view(topics@),
                        info.topics.wf(),
                        info.topics@ == t0.difference(tv.take(j as int).to_set()),
                    decreases topics@.len() - j,
                {
                    info.topics.remove(topics[j].as_str());
                    assert(tv.take(j + 1) =~= tv.take(j as int).push(tv[j as int]));
                    assert(t0.difference(tv.take(j + 1).to_set()) =~= t0.difference(tv.take(j as int).to_set()).remove(tv[j as int]));
                    j = j + 1;
                }
                assert(tv.take(j as int) =~= tv);
                let ghost mid_raw = self.clients@;
                self.clients.insert(client, info);
                proof {
                    assert(self.clients_view() =~= unsubscribed_clients(old_cview, client@, tv.to_set()));
                    assert(self.spec_client_tx(client@) == old_clients_raw[client@].client_tx);
                    assert forall|k: Seq<char>| #[trigger] self.clients@.contains_key(k) implies self.clients@[k].topics.wf() by {
                        if k != client@ {
                            assert(old_clients_raw.contains_key(k));
                        }
                    }
                }
            },
            None => {
                assert(self.clients_view() =~= old_cview);
            },
        }
    }

    /// Apply one message from a client handler to the shared state. Returns
    /// the messages to deliver, each with the client to deliver it to.
    /// Messages that are addressed to client handlers are ignored.
    pub fn handle_broker_msg(&mut self, msg: BrokerMsg<Tx>) -> (out: Vec<(String, BrokerMsg<Tx>)>)
        requires
            old(self).wf(),
        ensures
            final(self).wf(),
            final(self).spec_config() == old(self).spec_config(),
            match msg {
                BrokerMsg::ClientConnected { client, client_tx } => {
                    &&& final(self).clients_view() == connected_clients(old(self).clients_view(), client@)
                    &&& final(self).subscriptions_view() == old(self).subscriptions_view()
                    &&& final(self).spec_client_tx(client@) == client_tx
                    &&& out@.len() == 0
                },
                BrokerMsg::ClientDisconnected { client } => {
                    &&& final(self).clients_view() == old(self).clients_view().remove(client@)
                    &&& final(self).subscriptions_view() == disconnected_subscriptions(
                        old(self).subscriptions_view(),
                        client@,
                    )
                    &&& out@.len() == 0
                },
                BrokerMsg::Publish { client, dup, qospid, retain, topic_name, payload } => {
                    &&& final(self).subscriptions_view() == published_subscriptions(
                        old(self).subscriptions_view(),
                        topic_name@,
                    )
                    &&& final(self).clients_view() == old(self).clients_view()
                    &&& out@.map_values(|m: (String, BrokerMsg<Tx>)| m.0@).no_duplicates()
                    &&& out@.map_values(|m: (String, BrokerMsg<Tx>)| m.0@).to_set()
                        == publish_recipients(
                        old(self).subscriptions_view(),
                        old(self).clients_view(),
                        client@,
                        topic_name@,
                    )
                    &&& forall|i: int|
                        0 <= i < out@.len() ==> is_forwarded_publish(
                            #[trigger] out@[i].1,
                            client@,
                            dup,
                            qospid,
                            retain,
                            topic_name@,
                            payload@,
                        )
                },
                BrokerMsg::Subscribe { client, pid, topics } => {
                    &&& final(self).subscriptions_view() == subscribed_subscriptions(
                        old(self).subscriptions_view(),
                        client@,
                        strings_view(topics@).to_set(),
                    )
                    &&& final(self).clients_view() == subscribed_clients(
                        old(self).clients_view(),
                        client@,
                        strings_view(topics@).to_set(),
                    )
                    &&& out@.len() == 0
                },
                BrokerMsg::Unsubscribe { client, pid, topics } => {
                    &&& final(self).subscriptions_view() == unsubscribed_subscriptions(
                        old(self).subscriptions_view(),
                        client@,
                        strings_view(topics@).to_set(),
                    )
                    &&& final(self).clients_view() == unsubscribed_clients(
                        old(self).clients_view(),
                        client@,
                        strings_view(topics@).to_set(),
                    )
                    &&& out@.len() == 0
                },
                _ => {
                    &&& final(self).subscriptions_view() == old(self).subscriptions_view()
                    &&& final(self).clients_view() == old(self).clients_view()
                    &&& out@.len() == 0
                },
            },
    {
        match msg {
            BrokerMsg::ClientConnected { client, client_tx } => {
                self.handle_client_connected(client, client_tx);
                Vec::new()
            },
            BrokerMsg::ClientDisconnected { client } => {
                self.handle_client_disconnected(client);
                Vec::new()
            },
            BrokerMsg::Publish { client, dup, qospid, retain, topic_name, payload } => {
                self.handle_publish(client, dup, qospid, retain, topic_name, payload)
            },
            BrokerMsg::Subscribe { client, pid: _, topics } => {
                self.handle_subscribe(client, topics);
                Vec::new()
            },
            BrokerMsg::Unsubscribe { client, pid: _, topics } => {
                self.handle_unsubscribe(client, topics);
                Vec::new()
            },
            _ => Vec::new(),
        }
    }
}

} // verus!
