//! Nexus IPC bus: capability-gated endpoints, bounded per-service message
//! queues and publish/subscribe topics.

use vstd::prelude::*;

verus! {

pub const MAX_SERVICES: usize = 16;
pub const MAX_TOPICS: usize = 16;
pub const MAX_SUBSCRIBERS_PER_TOPIC: usize = 8;
pub const MAX_QUEUE_DEPTH: usize = 8;
pub const MAX_PAYLOAD_SIZE: usize = 256;

#[derive(Debug, Clone, Copy, PartialEq, Eq, Structural)]
pub struct ServiceEndpoint {
    pub service_id: u32,
    pub capability_mask: u64,
}

impl ServiceEndpoint {
    pub fn new(service_id: u32, capability_mask: u64) -> (e: Self)
        ensures
            e == (ServiceEndpoint { service_id, capability_mask }),
    {
        ServiceEndpoint { service_id, capability_mask }
    }
}

#[derive(Debug, Clone, Copy, PartialEq, Eq, Structural)]
pub struct NexusHeader {
    pub sender_id: u32,
    pub receiver_id: u32,
    pub opcode: u16,
    pub payload_len: u16,
    pub sequence_num: u32,
    pub required_capability: u64,
}

#[derive(Debug, Clone, Copy)]
pub struct NexusMessage {
    pub header: NexusHeader,
    pub payload: [u8; MAX_PAYLOAD_SIZE],
}

/// The message carrying `data` under `header`, with the length recorded.
pub open spec fn message_of(header: NexusHeader, data: Seq<u8>, m: NexusMessage) -> bool {
    &&& m.header == (NexusHeader { payload_len: data.len() as u16, ..header })
    &&& m.payload@ == data + Seq::new((MAX_PAYLOAD_SIZE - data.len()) as nat, |i: int| 0u8)
}

impl NexusMessage {
    /// A message with at most 256 payload bytes, zero-padded.
    pub fn new(header: NexusHeader, data: &[u8]) -> (r: Result<NexusMessage, &'static str>)
        ensures
            data@.len() > MAX_PAYLOAD_SIZE ==> r == Err::<NexusMessage, &'static str>("Payload size exceeds maximum allowed buffer"),
            data@.len() <= MAX_PAYLOAD_SIZE ==> r is Ok && message_of(header, data@, r->Ok_0),
    {
        if data.len() > MAX_PAYLOAD_SIZE {
            return Err("Payload size exceeds maximum allowed buffer");
        }
        let mut payload = [0u8; MAX_PAYLOAD_SIZE];
        let mut i: usize = 0;
        while i < data.len()
            invariant
                i <= data@.len() <= MAX_PAYLOAD_SIZE,
                payload@.len() == MAX_PAYLOAD_SIZE,
                forall|j: int| 0 <= j < i ==> payload@[j] == data@[j],
                forall|j: int| i <= j < MAX_PAYLOAD_SIZE ==> payload@[j] == 0u8,
            decreases data@.len() - i,
        {
            payload[i] = data[i];
            i += 1;
        }
        assert(payload@ =~= data@ + Seq::new((MAX_PAYLOAD_SIZE - data@.len()) as nat, |i: int| 0u8));
        Ok(NexusMessage { header: NexusHeader { payload_len: data.len() as u16, ..header }, payload })
    }
}

/// A first-in, first-out ring of at most eight messages.
#[derive(Debug, Clone, Copy)]
pub struct MessageRing {
    messages: [Option<NexusMessage>; MAX_QUEUE_DEPTH],
    head: usize,
    tail: usize,
    count: usize,
}

impl MessageRing {
    pub closed spec fn wf(&self) -> bool {
        &&& self.head < MAX_QUEUE_DEPTH
        &&& self.count <= MAX_QUEUE_DEPTH
        &&& self.tail == (self.head + self.count) % (MAX_QUEUE_DEPTH as int)
        &&& forall|i: int| 0 <= i < self.count ==> (#[trigger] self.messages@[(self.head + i) % (MAX_QUEUE_DEPTH as int)]) is Some
    }

    /// The queued messages, oldest first.
    pub closed spec fn queue(&self) -> Seq<NexusMessage> {
        Seq::new(self.count as nat, |i: int| self.messages@[(self.head + i) % (MAX_QUEUE_DEPTH as int)]->Some_0)
    }

    pub fn new() -> (r: Self)
        ensures
            r.wf(),
            r.queue() == Seq::<NexusMessage>::empty(),
    {
        let r = MessageRing { messages: [None; MAX_QUEUE_DEPTH], head: 0, tail: 0, count: 0 };
        assert(r.queue() =~= Seq::<NexusMessage>::empty());
        r
    }

    #[verifier::rlimit(60)]
    pub fn enqueue(&mut self, msg: NexusMessage) -> (r: Result<(), &'static str>)
        requires
            old(self).wf(),
        ensures
            final(self).wf(),
            old(self).queue().len() >= MAX_QUEUE_DEPTH ==> r == Err::<(), &'static str>("Queue overflow: backpressure triggered")
                && final(self).queue() == old(self).queue(),
            old(self).queue().len() < MAX_QUEUE_DEPTH ==> r == Ok::<(), &'static str>(()) && final(self).queue() == old(self).queue().push(msg),
    {
        if self.count >= MAX_QUEUE_DEPTH {
            return Err("Queue overflow: backpressure triggered");
        }
        let ghost q = self.queue();
        let t = self.tail;
        self.messages[t] = Some(msg);
        self.tail = (self.tail + 1) % MAX_QUEUE_DEPTH;
        self.count = self.count + 1;
        assert forall|i: int| 0 <= i < self.count implies (#[trigger] self.messages@[(self.head + i) % (MAX_QUEUE_DEPTH as int)]) is Some by {
            if i < self.count - 1 {
                assert((self.head + i) % (MAX_QUEUE_DEPTH as int) != t);
            }
        }
        assert(self.queue() =~= q.push(msg)) by {
            assert forall|i: int| 0 <= i < self.count implies #[trigger] self.queue()[i] == q.push(msg)[i] by {
                if i < self.count - 1 {
                    assert((self.head + i) % (MAX_QUEUE_DEPTH as int) != t);
                }
            }
        }
        Ok(())
    }

    #[verifier::rlimit(60)]
    pub fn dequeue(&mut self) -> (r: Option<NexusMessage>)
        requires
            old(self).wf(),
        ensures
            final(self).wf(),
            old(self).queue().len() == 0 ==> r is None && final(self).queue() == old(self).queue(),
            old(self).queue().len() > 0 ==> r == Some(old(self).queue()[0]) && final(self).queue() == old(self).queue().drop_first(),
    {
        if self.count == 0 {
            return None;
        }
        let ghost q = self.queue();
        let h = self.head;
        let msg = self.messages[h];
        self.messages[h] = None;
        self.head = (self.head + 1) % MAX_QUEUE_DEPTH;
        self.count = self.count - 1;
        assert forall|i: int| 0 <= i < self.count implies (#[trigger] self.messages@[(self.head + i) % (MAX_QUEUE_DEPTH as int)]) is Some by {
            assert((self.head + i) % (MAX_QUEUE_DEPTH as int) == (h + (i + 1)) % (MAX_QUEUE_DEPTH as int));
            assert(old(self).messages@[(h + (i + 1)) % (MAX_QUEUE_DEPTH as int)] is Some);
        }
        assert(self.queue() =~= q.drop_first()) by {
            assert forall|i: int| 0 <= i < self.count implies #[trigger] self.queue()[i] == q.drop_first()[i] by {
                assert((self.head + i) % (MAX_QUEUE_DEPTH as int) == (h + (i + 1)) % (MAX_QUEUE_DEPTH as int));
            }
        }
        assert(old(self).messages@[(h + 0) % (MAX_QUEUE_DEPTH as int)] is Some);
        msg
    }

    pub fn count(&self) -> (n: usize)
        requires
            self.wf(),
        ensures
            n == self.queue().len(),
    {
        self.count
    }
}

/// Messages leave a ring in the order they entered it.
pub proof fn lemma_ring_fifo(q: Seq<NexusMessage>, m: NexusMessage)
    ensures
        q.len() > 0 ==> q.push(m)[0] == q[0] && q.push(m).drop_first() == q.drop_first().push(m),
        q.len() == 0 ==> q.push(m)[0] == m && q.push(m).drop_first() == Seq::<NexusMessage>::empty(),
{
    if q.len() > 0 {
        assert(q.push(m).drop_first() =~= q.drop_first().push(m));
    } else {
        assert(q.push(m).drop_first() =~= Seq::<NexusMessage>::empty());
    }
}

#[derive(Debug, Clone, Copy)]
pub struct PubSubTopic {
    pub topic_id: u32,
    pub required_capability: u64,
    pub subscribers: [u32; MAX_SUBSCRIBERS_PER_TOPIC],
    pub subscriber_count: usize,
}

impl PubSubTopic {
    pub open spec fn subscriber_list(&self) -> Seq<u32> {
        self.subscribers@.subrange(0, self.subscriber_count as int)
    }

    pub fn new(topic_id: u32, required_capability: u64) -> (t: Self)
        ensures
            t.topic_id == topic_id,
            t.required_capability == required_capability,
            t.subscriber_count == 0,
            t.subscribers@ == Seq::new(MAX_SUBSCRIBERS_PER_TOPIC as nat, |i: int| 0u32),
    {
        let t = PubSubTopic { topic_id, required_capability, subscribers: [0; MAX_SUBSCRIBERS_PER_TOPIC], subscriber_count: 0 };
        assert(t.subscribers@ =~= Seq::new(MAX_SUBSCRIBERS_PER_TOPIC as nat, |i: int| 0u32));
        t
    }

    /// Subscribes a service holding the topic's capability; subscribing again is a no-op.
    pub fn subscribe(&mut self, service_id: u32, capability_mask: u64) -> (r: Result<(), &'static str>)
        requires
            old(self).subscriber_count <= MAX_SUBSCRIBERS_PER_TOPIC,
        ensures
            final(self).subscriber_count <= MAX_SUBSCRIBERS_PER_TOPIC,
            final(self).topic_id == old(self).topic_id,
            final(self).required_capability == old(self).required_capability,
            capability_mask & old(self).required_capability != old(self).required_capability
                ==> r == Err::<(), &'static str>("Insufficient capability for topic subscription") && *final(self) == *old(self),
            capability_mask & old(self).required_capability == old(self).required_capability && old(self).subscriber_list().contains(service_id)
                ==> r == Ok::<(), &'static str>(()) && *final(self) == *old(self),
            capability_mask & old(self).required_capability == old(self).required_capability && !old(self).subscriber_list().contains(service_id)
                && old(self).subscriber_count == MAX_SUBSCRIBERS_PER_TOPIC
                ==> r == Err::<(), &'static str>("Topic subscriber limit reached") && *final(self) == *old(self),
            capability_mask & old(self).required_capability == old(self).required_capability && !old(self).subscriber_list().contains(service_id)
                && old(self).subscriber_count < MAX_SUBSCRIBERS_PER_TOPIC
                ==> r == Ok::<(), &'static str>(()) && final(self).subscriber_list() == old(self).subscriber_list().push(service_id),
    {
        if (capability_mask & self.required_capability) != self.required_capability {
            return Err("Insufficient capability for topic subscription");
        }
        let mut i: usize = 0;
        while i < self.subscriber_count
            invariant
                *self == *old(self),
                capability_mask & self.required_capability == self.required_capability,
                self.subscriber_count <= MAX_SUBSCRIBERS_PER_TOPIC,
                i <= self.subscriber_count,
                forall|j: int| 0 <= j < i ==> self.subscriber_list()[j] != service_id,
            decreases self.subscriber_count - i,
        {
            if self.subscribers[i] == service_id {
                assert(self.subscriber_list()[i as int] == service_id);
                return Ok(());
            }
            i += 1;
        }
        if self.subscriber_count >= MAX_SUBSCRIBERS_PER_TOPIC {
            return Err("Topic subscriber limit reached");
        }
        let ghost before = self.subscriber_list();
        self.subscribers[self.subscriber_count] = service_id;
        self.subscriber_count = self.subscriber_count + 1;
        assert(self.subscriber_list() =~= before.push(service_id));
        Ok(())
    }
}

/// The router's abstract state.
pub struct RouterView {
    pub endpoints: Seq<Option<ServiceEndpoint>>,
    pub queues: Seq<Seq<NexusMessage>>,
    pub topics: Seq<Option<PubSubTopic>>,
    pub sequence: u32,
}

/// The verdict on delivering `msg` from `sender_id`, and the state after it.
pub open spec fn routed(v: RouterView, sender_id: u32, msg: NexusMessage) -> (Result<(), &'static str>, RouterView) {
    let s = sender_id as int;
    let d = msg.header.receiver_id as int;
    if s >= MAX_SERVICES || d >= MAX_SERVICES {
        (Err("Invalid endpoint ID"), v)
    } else if v.endpoints[s] is None {
        (Err("Sender not registered"), v)
    } else if v.endpoints[d] is None {
        (Err("Receiver not registered"), v)
    } else if v.endpoints[s]->Some_0.capability_mask & msg.header.required_capability != msg.header.required_capability {
        (Err("Sender lacks required capability bit for message dispatch"), v)
    } else if v.queues[d].len() >= MAX_QUEUE_DEPTH {
        (Err("Queue overflow: backpressure triggered"), v)
    } else {
        (Ok(()), RouterView { queues: v.queues.update(d, v.queues[d].push(msg)), sequence: (v.sequence + 1) as u32, ..v })
    }
}

/// Publishing to the first `k` subscribers: the state and the deliveries made.
pub open spec fn published(v: RouterView, sender_id: u32, header: NexusHeader, data: Seq<u8>, subs: Seq<u32>, k: int, payload: [u8; MAX_PAYLOAD_SIZE]) -> (RouterView, nat)
    decreases k,
{
    if k <= 0 {
        (v, 0)
    } else {
        let (v1, n) = published(v, sender_id, header, data, subs, k - 1, payload);
        let msg = NexusMessage { header: NexusHeader { payload_len: data.len() as u16, receiver_id: subs[k - 1], ..header }, payload };
        let (r, v2) = routed(v1, sender_id, msg);
        if r is Ok { (v2, n + 1) } else { (v1, n) }
    }
}

pub struct NexusRouter {
    endpoints: [Option<ServiceEndpoint>; MAX_SERVICES],
    queues: [MessageRing; MAX_SERVICES],
    topics: [Option<PubSubTopic>; MAX_TOPICS],
    active_services: usize,
    sequence_counter: u32,
}

impl NexusRouter {
    pub closed spec fn wf(&self) -> bool {
        &&& self.active_services <= MAX_SERVICES
        &&& forall|i: int| 0 <= i < MAX_SERVICES ==> (#[trigger] self.queues@[i]).wf()
        &&& forall|i: int| 0 <= i < MAX_TOPICS ==> (#[trigger] self.topics@[i] matches Some(t) ==> t.subscriber_count <= MAX_SUBSCRIBERS_PER_TOPIC)
    }

    pub closed spec fn view(&self) -> RouterView {
        RouterView {
            endpoints: self.endpoints@,
            queues: Seq::new(MAX_SERVICES as nat, |i: int| self.queues@[i].queue()),
            topics: self.topics@,
            sequence: self.sequence_counter,
        }
    }

    pub closed spec fn active_count(&self) -> usize {
        self.active_services
    }

    pub fn new() -> (r: Self)
        ensures
            r.wf(),
            r.view().endpoints == Seq::new(MAX_SERVICES as nat, |i: int| None::<ServiceEndpoint>),
            r.view().queues == Seq::new(MAX_SERVICES as nat, |i: int| Seq::<NexusMessage>::empty()),
            r.view().topics == Seq::new(MAX_TOPICS as nat, |i: int| None::<PubSubTopic>),
            r.view().sequence == 1,
            r.active_count() == 0,
    {
        let empty = MessageRing::new();
        let mut queues = [empty; MAX_SERVICES];
        let mut endpoints: [Option<ServiceEndpoint>; MAX_SERVICES] = [None; MAX_SERVICES];
        let mut topics: [Option<PubSubTopic>; MAX_TOPICS] = [None; MAX_TOPICS];
        let mut k: usize = 0;
        while k < MAX_SERVICES
            invariant
                k <= MAX_SERVICES,
                empty.wf(),
                empty.queue() == Seq::<NexusMessage>::empty(),
                forall|i: int| 0 <= i < k ==> (#[trigger] queues@[i]).wf() && queues@[i].queue() == Seq::<NexusMessage>::empty(),
                forall|i: int| 0 <= i < k ==> (#[trigger] endpoints@[i]) is None,
                forall|i: int| 0 <= i < k ==> (#[trigger] topics@[i]) is None,
            decreases MAX_SERVICES - k,
        {
            queues[k] = empty;
            endpoints[k] = None;
            topics[k] = None;
            k += 1;
        }
        let r = NexusRouter { endpoints, queues, topics, active_services: 0, sequence_counter: 1 };
        assert(r.view().endpoints =~= Seq::new(MAX_SERVICES as nat, |i: int| None::<ServiceEndpoint>));
        assert(r.view().queues =~= Seq::new(MAX_SERVICES as nat, |i: int| Seq::<NexusMessage>::empty()));
        assert(r.view().topics =~= Seq::new(MAX_TOPICS as nat, |i: int| None::<PubSubTopic>));
        r
    }

    /// Registers an endpoint under its own id.
    pub fn register_service(&mut self, endpoint: ServiceEndpoint) -> (r: Result<(), &'static str>)
        requires
            old(self).wf(),
        ensures
            final(self).wf(),
            endpoint.service_id >= MAX_SERVICES ==> r == Err::<(), &'static str>("Service ID out of bounds") && final(self).view() == old(self).view(),
            endpoint.service_id < MAX_SERVICES && old(self).view().endpoints[endpoint.service_id as int] is Some
                ==> r == Err::<(), &'static str>("Service ID already registered") && final(self).view() == old(self).view(),
            endpoint.service_id < MAX_SERVICES && old(self).view().endpoints[endpoint.service_id as int] is None ==> r == Ok::<(), &'static str>(())
                && final(self).view() == (RouterView { endpoints: old(self).view().endpoints.update(endpoint.service_id as int, Some(endpoint)), ..old(self).view() }),
    {
        let idx = endpoint.service_id as usize;
        if idx >= MAX_SERVICES {
            return Err("Service ID out of bounds");
        }
        if self.endpoints[idx].is_some() {
            return Err("Service ID already registered");
        }
        self.endpoints[idx] = Some(endpoint);
        if self.active_services < MAX_SERVICES {
            self.active_services = self.active_services + 1;
        }
        assert(self.view().queues =~= old(self).view().queues);
        assert(self.view() == (RouterView { endpoints: old(self).view().endpoints.update(endpoint.service_id as int, Some(endpoint)), ..old(self).view() }));
        Ok(())
    }

    /// Delivers `msg` to its receiver's queue (see `routed`).
    pub fn send_message(&mut self, sender_id: u32, msg: NexusMessage) -> (r: Result<(), &'static str>)
        requires
            old(self).wf(),
            routed(old(self).view(), sender_id, msg).0 is Ok ==> old(self).view().sequence < u32::MAX,
        ensures
            final(self).wf(),
            (r, final(self).view()) == routed(old(self).view(), sender_id, msg),
    {
        let sender_idx = sender_id as usize;
        let recv_idx = msg.header.receiver_id as usize;
        if sender_idx >= MAX_SERVICES || recv_idx >= MAX_SERVICES {
            return Err("Invalid endpoint ID");
        }
        let sender_ep = match self.endpoints[sender_idx] {
            Some(e) => e,
            None => {
                return Err("Sender not registered");
            },
        };
        if self.endpoints[recv_idx].is_none() {
            return Err("Receiver not registered");
        }
        if (sender_ep.capability_mask & msg.header.required_capability) != msg.header.required_capability {
            return Err("Sender lacks required capability bit for message dispatch");
        }
        let mut q = self.queues[recv_idx];
        assert(q.wf());
        match q.enqueue(msg) {
            Err(e) => {
                return Err(e);
            },
            Ok(()) => {},
        }
        self.queues[recv_idx] = q;
        self.sequence_counter = self.sequence_counter + 1;
        proof {
            let v0 = old(self).view();
            assert(self.view().queues =~= v0.queues.update(recv_idx as int, v0.queues[recv_idx as int].push(msg)));
        }
        Ok(())
    }

    pub fn receive_message(&mut self, service_id: u32) -> (r: Option<NexusMessage>)
        requires
            old(self).wf(),
        ensures
            final(self).wf(),
            service_id >= MAX_SERVICES ==> r is None && final(self).view() == old(self).view(),
            service_id < MAX_SERVICES && old(self).view().queues[service_id as int].len() == 0 ==> r is None && final(self).view() == old(self).view(),
            service_id < MAX_SERVICES && old(self).view().queues[service_id as int].len() > 0 ==> r == Some(old(self).view().queues[service_id as int][0])
                && final(self).view() == (RouterView { queues: old(self).view().queues.update(service_id as int, old(self).view().queues[service_id as int].drop_first()), ..old(self).view() }),
    {
        let idx = service_id as usize;
        if idx >= MAX_SERVICES {
            return None;
        }
        let mut q = self.queues[idx];
        assert(q.wf());
        let r = q.dequeue();
        self.queues[idx] = q;
        proof {
            let v0 = old(self).view();
            if v0.queues[idx as int].len() == 0 {
                assert(self.view().queues =~= v0.queues);
            } else {
                assert(self.view().queues =~= v0.queues.update(idx as int, v0.queues[idx as int].drop_first()));
            }
        }
        r
    }

    pub fn create_topic(&mut self, topic_id: u32, required_capability: u64) -> (r: Result<(), &'static str>)
        requires
            old(self).wf(),
        ensures
            final(self).wf(),
            topic_id >= MAX_TOPICS ==> r == Err::<(), &'static str>("Topic ID out of bounds") && final(self).view() == old(self).view(),
            topic_id < MAX_TOPICS && old(self).view().topics[topic_id as int] is Some ==> r == Err::<(), &'static str>("Topic already exists")
                && final(self).view() == old(self).view(),
            topic_id < MAX_TOPICS && old(self).view().topics[topic_id as int] is None ==> r == Ok::<(), &'static str>(()) && ({
                let t = final(self).view().topics[topic_id as int]->Some_0;
                &&& final(self).view().topics[topic_id as int] is Some
                &&& t.topic_id == topic_id && t.required_capability == required_capability && t.subscriber_count == 0
                &&& final(self).view().topics == old(self).view().topics.update(topic_id as int, Some(t))
                &&& final(self).view().endpoints == old(self).view().endpoints
                &&& final(self).view().queues == old(self).view().queues
                &&& final(self).view().sequence == old(self).view().sequence
            }),
    {
        let idx = topic_id as usize;
        if idx >= MAX_TOPICS {
            return Err("Topic ID out of bounds");
        }
        if self.topics[idx].is_some() {
            return Err("Topic already exists");
        }
        self.topics[idx] = Some(PubSubTopic::new(topic_id, required_capability));
        assert(self.view().queues =~= old(self).view().queues);
        Ok(())
    }

    /// Sends `data` to every subscriber of the topic as opcode 0xEE, checked
    /// like any message against the topic's capability; returns how many
    /// deliveries succeeded.
    pub fn publish_event(&mut self, sender_id: u32, topic_id: u32, data: &[u8]) -> (r: Result<usize, &'static str>)
        requires
            old(self).wf(),
            topic_id < MAX_TOPICS && old(self).view().topics[topic_id as int] is Some
                ==> old(self).view().sequence + old(self).view().topics[topic_id as int]->Some_0.subscriber_count <= u32::MAX,
        ensures
            final(self).wf(),
            topic_id >= MAX_TOPICS ==> r == Err::<usize, &'static str>("Topic ID out of bounds") && final(self).view() == old(self).view(),
            topic_id < MAX_TOPICS && old(self).view().topics[topic_id as int] is None
                ==> r == Err::<usize, &'static str>("Topic does not exist") && final(self).view() == old(self).view(),
            topic_id < MAX_TOPICS && old(self).view().topics[topic_id as int] is Some ==> {
                let t = old(self).view().topics[topic_id as int]->Some_0;
                let header = NexusHeader {
                    sender_id,
                    receiver_id: 0,
                    opcode: 0xEE,
                    payload_len: data@.len() as u16,
                    sequence_num: old(self).view().sequence,
                    required_capability: t.required_capability,
                };
                if t.subscriber_count == 0 {
                    r == Ok::<usize, &'static str>(0) && final(self).view() == old(self).view()
                } else if data@.len() > MAX_PAYLOAD_SIZE {
                    r == Err::<usize, &'static str>("Payload size exceeds maximum allowed buffer") && final(self).view() == old(self).view()
                } else {
                    exists|payload: [u8; MAX_PAYLOAD_SIZE]| {
                        &&& payload@ == data@ + Seq::new((MAX_PAYLOAD_SIZE - data@.len()) as nat, |i: int| 0u8)
                        &&& ({
                            let (v, n) = published(old(self).view(), sender_id, header, data@, t.subscriber_list(), t.subscriber_count as int, payload);
                            r == Ok::<usize, &'static str>(n as usize) && final(self).view() == v
                        })
                    }
                }
            },
    {
        let topic_idx = topic_id as usize;
        if topic_idx >= MAX_TOPICS {
            return Err("Topic ID out of bounds");
        }
        let topic = match self.topics[topic_idx] {
            Some(t) => t,
            None => {
                return Err("Topic does not exist");
            },
        };
        assert(topic.subscriber_count <= MAX_SUBSCRIBERS_PER_TOPIC);
        let header = NexusHeader {
            sender_id,
            receiver_id: 0,
            opcode: 0xEE,
            payload_len: data.len() as u16,
            sequence_num: self.sequence_counter,
            required_capability: topic.required_capability,
        };
        let ghost v0 = self.view();
        if topic.subscriber_count > 0 && data.len() > MAX_PAYLOAD_SIZE {
            return Err("Payload size exceeds maximum allowed buffer");
        }
        let mut delivered: usize = 0;
        let mut payload_w: [u8; MAX_PAYLOAD_SIZE] = [0u8; MAX_PAYLOAD_SIZE];
        let mut i: usize = 0;
        while i < topic.subscriber_count
            invariant
                topic.subscriber_count <= MAX_SUBSCRIBERS_PER_TOPIC,
                topic.subscriber_count > 0 ==> data@.len() <= MAX_PAYLOAD_SIZE,
                i <= topic.subscriber_count,
                self.wf(),
                self.view().sequence <= v0.sequence + i,
                v0.sequence + topic.subscriber_count <= u32::MAX,
                delivered <= i,
                i > 0 ==> payload_w@ == data@ + Seq::new((MAX_PAYLOAD_SIZE - data@.len()) as nat, |j: int| 0u8),
                published(v0, sender_id, header, data@, topic.subscriber_list(), i as int, payload_w) == (self.view(), delivered as nat),
            decreases topic.subscriber_count - i,
        {
            let target_id = topic.subscribers[i];
            let mut msg = match NexusMessage::new(header, data) {
                Ok(m) => m,
                Err(e) => {
                    return Err(e);
                },
            };
            msg.header.receiver_id = target_id;
            let ghost prev_payload = payload_w;
            payload_w = msg.payload;
            proof {
                if i > 0 {
                    assert(payload_w == prev_payload);
                }
                assert(published(v0, sender_id, header, data@, topic.subscriber_list(), i as int, payload_w) == (self.view(), delivered as nat));
            }
            if self.send_message(sender_id, msg).is_ok() {
                delivered = delivered + 1;
            }
            i += 1;
        }
        proof {
            if topic.subscriber_count == 0 {
                assert(published(v0, sender_id, header, data@, topic.subscriber_list(), 0, payload_w) == (v0, 0nat));
            } else {
                assert(payload_w@ == data@ + Seq::new((MAX_PAYLOAD_SIZE - data@.len()) as nat, |j: int| 0u8));
            }
        }
        Ok(delivered)
    }
}

} // verus!
