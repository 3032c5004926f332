use vstd::prelude::*;

verus! {

/// Packet identifier of a QoS > 0 exchange. The protocol never uses 0.
#[derive(Clone, Copy, Debug, PartialEq, Eq, Structural, Hash)]
pub struct Pid {
    pub(crate) value: u16,
}

impl View for Pid {
    type V = u16;

    open spec fn view(&self) -> u16 {
        self.spec_value()
    }
}

impl Pid {
    pub closed spec fn spec_value(&self) -> u16 {
        self.value
    }

    /// An identifier is never 0.
    #[verifier::type_invariant]
    pub(crate) open spec fn nonzero(&self) -> bool {
        self.value != 0
    }

    /// An identifier whose invariant holds is not 0.
    pub(crate) proof fn lemma_nonzero(p: Pid)
        requires
            p.nonzero(),
        ensures
            p@ != 0,
    {
    }

    /// Identifiers with the same value are the same.
    pub proof fn lemma_view_eq(a: Pid, b: Pid)
        requires
            a@ == b@,
        ensures
            a == b,
    {
    }

    /// The identifier 1 has the value 1.
    pub proof fn lemma_one_value()
        ensures
            Pid::spec_one()@ == 1,
    {
    }

    /// The identifier 1.
    pub closed spec fn spec_one() -> Pid {
        Pid { value: 1 }
    }

    /// The identifier 1.
    pub fn new() -> (res: Pid)
        ensures
            res@ == 1,
            res == Pid::spec_one(),
    {
        Pid { value: 1 }
    }

    /// The identifier `value`; `None` for 0, which is not an identifier.
    pub fn from_u16(value: u16) -> (res: Option<Pid>)
        ensures
            value == 0 ==> res is None,
            value != 0 ==> (res matches Some(p) && p@ == value),
    {
        if value == 0 {
            None
        } else {
            Some(Pid { value })
        }
    }

    pub fn get(&self) -> (res: u16)
        ensures
            res == self@,
            res != 0,
    {
        proof {
            use_type_invariant(self);
        }
        self.value
    }
}

/// Delivery guarantee of a message.
#[derive(Clone, Copy, Debug, PartialEq, Eq, Structural, Hash)]
pub enum QoS {
    AtMostOnce,
    AtLeastOnce,
    ExactlyOnce,
}

/// QoS level together with the packet identifier that levels above 0 carry.
#[derive(Clone, Copy, Debug, PartialEq, Eq, Structural)]
pub enum QosPid {
    AtMostOnce,
    AtLeastOnce(Pid),
    ExactlyOnce(Pid),
}

impl QosPid {
    pub open spec fn spec_qos(self) -> QoS {
        match self {
            QosPid::AtMostOnce => QoS::AtMostOnce,
            QosPid::AtLeastOnce(_) => QoS::AtLeastOnce,
            QosPid::ExactlyOnce(_) => QoS::ExactlyOnce,
        }
    }

    pub open spec fn spec_pid(self) -> Option<Pid> {
        match self {
            QosPid::AtMostOnce => None,
            QosPid::AtLeastOnce(p) => Some(p),
            QosPid::ExactlyOnce(p) => Some(p),
        }
    }

    /// The QoS level.
    pub fn qos(&self) -> (res: QoS)
        ensures
            res == self.spec_qos(),
    {
        match self {
            QosPid::AtMostOnce => QoS::AtMostOnce,
            QosPid::AtLeastOnce(_) => QoS::AtLeastOnce,
            QosPid::ExactlyOnce(_) => QoS::ExactlyOnce,
        }
    }

    /// The packet identifier, if the level carries one.
    pub fn pid(&self) -> (res: Option<Pid>)
        ensures
            res == self.spec_pid(),
    {
        match self {
            QosPid::AtMostOnce => None,
            QosPid::AtLeastOnce(p) => Some(*p),
            QosPid::ExactlyOnce(p) => Some(*p),
        }
    }
}

/// Protocol name and level announced in a Connect packet.
#[derive(Clone, Copy, Debug, PartialEq, Eq, Structural)]
pub enum Protocol {
    /// MQTT 3.1.1
    MQTT311,
    /// MQTT 3.1
    MQIsdp,
}

/// Answer of the broker to a Connect packet.
#[derive(Clone, Copy, Debug, PartialEq, Eq, Structural)]
pub enum ConnectReturnCode {
    Accepted,
    RefusedProtocolVersion,
    RefusedIdentifierRejected,
    ServerUnavailable,
    BadUsernamePassword,
    NotAuthorized,
}

/// Data of the Connack control packet.
#[derive(Clone, Copy, Debug, PartialEq, Eq, Structural)]
pub struct Connack {
    pub session_present: bool,
    pub code: ConnectReturnCode,
}

/// Result of one topic filter of a Subscribe packet.
#[derive(Clone, Copy, Debug, PartialEq, Eq, Structural)]
pub enum SubscribeReturnCodes {
    Success(QoS),
    Failure,
}

/// Last Will message of a client.
#[derive(Debug, PartialEq)]
pub struct LastWill {
    pub topic: String,
    pub message: Vec<u8>,
    pub qos: QoS,
    pub retain: bool,
}

/// Data of the Connect control packet.
#[derive(Debug, PartialEq)]
pub struct Connect {
    pub protocol: Protocol,
    pub keep_alive: u16,
    pub client_id: String,
    pub clean_session: bool,
    pub last_will: Option<LastWill>,
    pub username: Option<String>,
    pub password: Option<Vec<u8>>,
}

/// Data of the Publish control packet.
#[derive(Debug, PartialEq)]
pub struct Publish {
    pub dup: bool,
    pub qospid: QosPid,
    pub retain: bool,
    pub topic_name: String,
    pub payload: Vec<u8>,
}

/// One topic filter of a Subscribe packet.
#[derive(Debug, PartialEq, Eq)]
pub struct SubscribeTopic {
    pub topic_path: String,
    pub qos: QoS,
}

/// Data of the Subscribe control packet.
#[derive(Debug, PartialEq)]
pub struct Subscribe {
    pub pid: Pid,
    pub topics: Vec<SubscribeTopic>,
}

/// Data of the Suback control packet.
#[derive(Debug, PartialEq)]
pub struct Suback {
    pub pid: Pid,
    pub return_codes: Vec<SubscribeReturnCodes>,
}

/// Data of the Unsubscribe control packet.
#[derive(Debug, PartialEq)]
pub struct Unsubscribe {
    pub pid: Pid,
    pub topics: Vec<String>,
}

/// MQTT control packets.
#[derive(Debug, PartialEq)]
pub enum Packet {
    Connack(Connack),
    Connect(Connect),
    Publish(Publish),
    Puback(Pid),
    Pubrec(Pid),
    Pubrel(Pid),
    Pubcomp(Pid),
    Subscribe(Subscribe),
    Suback(Suback),
    Unsubscribe(Unsubscribe),
    Unsuback(Pid),
    Pingreq,
    Pingresp,
    Disconnect,
}

/// Two strings lists with the same contents.
pub open spec fn same_strings(a: Seq<String>, b: Seq<String>) -> bool {
    &&& a.len() == b.len()
    &&& forall|i: int| 0 <= i < a.len() ==> #[trigger] a[i]@ == b[i]@
}

impl LastWill {
    pub open spec fn same(&self, other: &LastWill) -> bool {
        &&& self.topic@ == other.topic@
        &&& self.message@ == other.message@
        &&& self.qos == other.qos
        &&& self.retain == other.retain
    }
}

impl Clone for LastWill {
    fn clone(&self) -> (res: Self)
        ensures
            res.same(self),
    {
        LastWill {
            topic: self.topic.clone(),
            message: self.message.clone(),
            qos: self.qos,
            retain: self.retain,
        }
    }
}

impl Connect {
    pub open spec fn same(&self, other: &Connect) -> bool {
        &&& self.protocol == other.protocol
        &&& self.keep_alive == other.keep_alive
        &&& self.client_id@ == other.client_id@
        &&& self.clean_session == other.clean_session
        &&& match (&self.last_will, &other.last_will) {
            (Some(a), Some(b)) => a.same(b),
            (None, None) => true,
            _ => false,
        }
        &&& match (&self.username, &other.username) {
            (Some(a), Some(b)) => a@ == b@,
            (None, None) => true,
            _ => false,
        }
        &&& match (&self.password, &other.password) {
            (Some(a), Some(b)) => a@ == b@,
            (None, None) => true,
            _ => false,
        }
    }
}

impl Clone for Connect {
    fn clone(&self) -> (res: Self)
        ensures
            res.same(self),
    {
        let last_will = match &self.last_will {
            Some(lw) => Some(lw.clone()),
            None => None,
        };
        let username = match &self.username {
            Some(u) => Some(u.clone()),
            None => None,
        };
        let password = match &self.password {
            Some(p) => Some(p.clone()),
            None => None,
        };
        Connect {
            protocol: self.protocol,
            keep_alive: self.keep_alive,
            client_id: self.client_id.clone(),
            clean_session: self.clean_session,
            last_will,
            username,
            password,
        }
    }
}

impl Publish {
    pub open spec fn same(&self, other: &Publish) -> bool {
        &&& self.dup == other.dup
        &&& self.qospid == other.qospid
        &&& self.retain == other.retain
        &&& self.topic_name@ == other.topic_name@
        &&& self.payload@ == other.payload@
    }
}

impl Clone for Publish {
    fn clone(&self) -> (res: Self)
        ensures
            res.same(self),
    {
        Publish {
            dup: self.dup,
            qospid: self.qospid,
            retain: self.retain,
            topic_name: self.topic_name.clone(),
            payload: self.payload.clone(),
        }
    }
}

impl SubscribeTopic {
    pub open spec fn same(&self, other: &SubscribeTopic) -> bool {
        &&& self.topic_path@ == other.topic_path@
        &&& self.qos == other.qos
    }
}

impl From<String> for SubscribeTopic {
    /// A topic filter at QoS 0.
    fn from(path: String) -> (res: SubscribeTopic) {
        SubscribeTopic { topic_path: path, qos: QoS::AtMostOnce }
    }
}

impl vstd::std_specs::convert::FromSpecImpl<String> for SubscribeTopic {
    open spec fn obeys_from_spec() -> bool {
        true
    }

    open spec fn from_spec(path: String) -> SubscribeTopic {
        SubscribeTopic { topic_path: path, qos: QoS::AtMostOnce }
    }
}

impl From<SubscribeTopic> for String {
    /// The topic path.
    fn from(topic: SubscribeTopic) -> (res: String) {
        topic.topic_path
    }
}

impl vstd::std_specs::convert::FromSpecImpl<SubscribeTopic> for String {
    open spec fn obeys_from_spec() -> bool {
        true
    }

    open spec fn from_spec(topic: SubscribeTopic) -> String {
        topic.topic_path
    }
}

impl Clone for SubscribeTopic {
    fn clone(&self) -> (res: Self)
        ensures
            res.same(self),
    {
        SubscribeTopic { topic_path: self.topic_path.clone(), qos: self.qos }
    }
}

/// Copy a list of strings.
pub fn clone_strings(v: &Vec<String>) -> (res: Vec<String>)
    ensures
        same_strings(res@, v@),
{
    let mut res: Vec<String> = Vec::new();
    let mut i: usize = 0;
    while i < v.len()
        invariant
            i <= v@.len(),
            res@.len() == i,
            forall|j: int| 0 <= j < i ==> #[trigger] res@[j]@ == v@[j]@,
        decreases v@.len() - i,
    {
        res.push(v[i].clone());
        i = i + 1;
    }
    res
}

/// Copy a list of topic filters.
pub fn clone_topics(v: &Vec<SubscribeTopic>) -> (res: Vec<SubscribeTopic>)
    ensures
        res@.len() == v@.len(),
        forall|j: int| 0 <= j < v@.len() ==> #[trigger] res@[j].same(&v@[j]),
{
    let mut res: Vec<SubscribeTopic> = Vec::new();
    let mut i: usize = 0;
    while i < v.len()
        invariant
            i <= v@.len(),
            res@.len() == i,
            forall|j: int| 0 <= j < i ==> #[trigger] res@[j].same(&v@[j]),
        decreases v@.len() - i,
    {
        res.push(v[i].clone());
        i = i + 1;
    }
    res
}

impl Subscribe {
    pub open spec fn same(&self, other: &Subscribe) -> bool {
        &&& self.pid == other.pid
        &&& self.topics@.len() == other.topics@.len()
        &&& forall|j: int| 0 <= j < self.topics@.len() ==> #[trigger] self.topics@[j].same(&other.topics@[j])
    }
}

impl Clone for Subscribe {
    fn clone(&self) -> (res: Self)
        ensures
            res.same(self),
    {
        Subscribe { pid: self.pid, topics: clone_topics(&self.topics) }
    }
}

impl Suback {
    pub open spec fn same(&self, other: &Suback) -> bool {
        &&& self.pid == other.pid
        &&& self.return_codes@ == other.return_codes@
    }
}

impl Clone for Suback {
    fn clone(&self) -> (res: Self)
        ensures
            res.same(self),
    {
        let mut codes: Vec<SubscribeReturnCodes> = Vec::new();
        let mut i: usize = 0;
        while i < self.return_codes.len()
            invariant
                i <= self.return_codes@.len(),
                codes@ == self.return_codes@.take(i as int),
            decreases self.return_codes@.len() - i,
        {
            codes.push(self.return_codes[i]);
            i = i + 1;
            assert(codes@ =~= self.return_codes@.take(i as int));
        }
        assert(codes@ =~= self.return_codes@);
        Suback { pid: self.pid, return_codes: codes }
    }
}

impl Unsubscribe {
    pub open spec fn same(&self, other: &Unsubscribe) -> bool {
        &&& self.pid == other.pid
        &&& same_strings(self.topics@, other.topics@)
    }
}

impl Clone for Unsubscribe {
    fn clone(&self) -> (res: Self)
        ensures
            res.same(self),
    {
        Unsubscribe { pid: self.pid, topics: clone_strings(&self.topics) }
    }
}

impl Packet {
    /// Same packet kind with the same contents.
    pub open spec fn same(&self, other: &Packet) -> bool {
        match (self, other) {
            (Packet::Connack(a), Packet::Connack(b)) => a == b,
            (Packet::Connect(a), Packet::Connect(b)) => a.same(b),
            (Packet::Publish(a), Packet::Publish(b)) => a.same(b),
            (Packet::Puback(a), Packet::Puback(b)) => a == b,
            (Packet::Pubrec(a), Packet::Pubrec(b)) => a == b,
            (Packet::Pubrel(a), Packet::Pubrel(b)) => a == b,
            (Packet::Pubcomp(a), Packet::Pubcomp(b)) => a == b,
            (Packet::Subscribe(a), Packet::Subscribe(b)) => a.same(b),
            (Packet::Suback(a), Packet::Suback(b)) => a.same(b),
            (Packet::Unsubscribe(a), Packet::Unsubscribe(b)) => a.same(b),
            (Packet::Unsuback(a), Packet::Unsuback(b)) => a == b,
            (Packet::Pingreq, Packet::Pingreq) => true,
            (Packet::Pingresp, Packet::Pingresp) => true,
            (Packet::Disconnect, Packet::Disconnect) => true,
            _ => false,
        }
    }
}

impl Packet {
    /// The identifier of the QoS exchange that a packet belongs to: that of
    /// a Publish above QoS 0, a Puback, Pubrec, Pubrel or Pubcomp.
    pub open spec fn spec_exchange_pid(&self) -> Option<Pid> {
        match self {
            Packet::Publish(p) => p.qospid.spec_pid(),
            Packet::Puback(x) => Some(*x),
            Packet::Pubrec(x) => Some(*x),
            Packet::Pubrel(x) => Some(*x),
            Packet::Pubcomp(x) => Some(*x),
            _ => None,
        }
    }

    /// The identifier of the QoS exchange that a packet belongs to.
    pub fn exchange_pid(&self) -> (res: Option<Pid>)
        ensures
            res == self.spec_exchange_pid(),
    {
        match self {
            Packet::Publish(p) => match p.qospid {
                QosPid::AtMostOnce => None,
                QosPid::AtLeastOnce(x) => Some(x),
                QosPid::ExactlyOnce(x) => Some(x),
            },
            Packet::Puback(x) => Some(*x),
            Packet::Pubrec(x) => Some(*x),
            Packet::Pubrel(x) => Some(*x),
            Packet::Pubcomp(x) => Some(*x),
            _ => None,
        }
    }
}

impl Clone for Packet {
    fn clone(&self) -> (res: Self)
        ensures
            res.same(self),
    {
        match self {
            Packet::Connack(c) => Packet::Connack(*c),
            Packet::Connect(c) => Packet::Connect(c.clone()),
            Packet::Publish(p) => Packet::Publish(p.clone()),
            Packet::Puback(p) => Packet::Puback(*p),
            Packet::Pubrec(p) => Packet::Pubrec(*p),
            Packet::Pubrel(p) => Packet::Pubrel(*p),
            Packet::Pubcomp(p) => Packet::Pubcomp(*p),
            Packet::Subscribe(s) => Packet::Subscribe(s.clone()),
            Packet::Suback(s) => Packet::Suback(s.clone()),
            Packet::Unsubscribe(u) => Packet::Unsubscribe(u.clone()),
            Packet::Unsuback(p) => Packet::Unsuback(*p),
            Packet::Pingreq => Packet::Pingreq,
            Packet::Pingresp => Packet::Pingresp,
            Packet::Disconnect => Packet::Disconnect,
        }
    }
}

} // verus!
