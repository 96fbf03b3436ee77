use vstd::prelude::*;
use crate::wire::push_bytes;

verus! {

/// How many messages may wait for one client; past it the oldest is dropped,
/// since for live telemetry a stale message is worth less than a lost one.
pub const CLIENT_QUEUE_BOUND: usize = 1024;

/// The queue after one more message: the oldest leaves when it is full.
pub open spec fn queued(q: Seq<Seq<u8>>, m: Seq<u8>, bound: nat) -> Seq<Seq<u8>> {
    if q.len() < bound {
        q.push(m)
    } else {
        q.drop_first().push(m)
    }
}

pub open spec fn bytes_of(q: Seq<Vec<u8>>) -> Seq<Seq<u8>> {
    q.map_values(|m: Vec<u8>| m@)
}

/// One connected client: its socket, whether it asked for broadcasts, and the
/// messages that wait to be written to it.
pub struct Client {
    socket: i32,
    allow_broadcasts: bool,
    pending: Vec<Vec<u8>>,
}

pub struct ClientView {
    pub socket: i32,
    pub allow_broadcasts: bool,
    pub pending: Seq<Seq<u8>>,
}

impl View for Client {
    type V = ClientView;

    closed spec fn view(&self) -> ClientView {
        ClientView {
            socket: self.socket,
            allow_broadcasts: self.allow_broadcasts,
            pending: bytes_of(self.pending@),
        }
    }
}

pub open spec fn fresh_client(socket: i32) -> ClientView {
    ClientView { socket, allow_broadcasts: false, pending: Seq::empty() }
}

pub open spec fn with_message(c: ClientView, m: Seq<u8>, bound: nat) -> ClientView {
    ClientView { pending: queued(c.pending, m, bound), ..c }
}

fn copy_bytes(b: &[u8]) -> (r: Vec<u8>)
    ensures
        r@ == b@,
{
    let mut r: Vec<u8> = Vec::new();
    push_bytes(&mut r, b);
    r
}

impl Client {
    pub fn new(socket: i32) -> (r: Self)
        ensures
            r@ == fresh_client(socket),
    {
        let r = Self { socket, allow_broadcasts: false, pending: Vec::new() };
        assert(r@.pending =~= Seq::<Seq<u8>>::empty());
        r
    }

    pub fn socket(&self) -> (r: i32)
        ensures
            r == self@.socket,
    {
        self.socket
    }

    pub fn set_allow_broadcasts(&mut self)
        ensures
            final(self)@ == (ClientView { allow_broadcasts: true, ..old(self)@ }),
    {
        self.allow_broadcasts = true;
    }

    pub fn allow_broadcasts(&self) -> (r: bool)
        ensures
            r == self@.allow_broadcasts,
    {
        self.allow_broadcasts
    }

    /// Queues a copy of `data`, dropping the oldest message if `bound` are
    /// already waiting.
    fn enqueue(&mut self, data: &[u8], bound: usize)
        requires
            bound > 0,
            old(self)@.pending.len() <= bound,
        ensures
            final(self)@ == with_message(old(self)@, data@, bound as nat),
    {
        let ghost q = self.pending@;
        if self.pending.len() >= bound {
            self.pending.remove(0);
            assert(bytes_of(self.pending@) =~= bytes_of(q).drop_first());
        }
        let ghost q1 = self.pending@;
        let m = copy_bytes(data);
        self.pending.push(m);
        assert(bytes_of(self.pending@) =~= bytes_of(q1).push(data@));
    }

    /// Hands out the waiting messages, oldest first, and empties the queue.
    fn take_pending(&mut self) -> (r: Vec<Vec<u8>>)
        ensures
            bytes_of(r@) == old(self)@.pending,
            final(self)@ == (ClientView { pending: Seq::empty(), ..old(self)@ }),
    {
        let mut r: Vec<Vec<u8>> = Vec::new();
        std::mem::swap(&mut r, &mut self.pending);
        assert(bytes_of(self.pending@) =~= Seq::<Seq<u8>>::empty());
        r
    }
}

/// Where the client on `socket` stands in the list; -1 if there is none.
pub open spec fn position(clients: Seq<ClientView>, socket: i32) -> int
    decreases clients.len(),
{
    if clients.len() == 0 {
        -1
    } else if clients.last().socket == socket {
        clients.len() - 1
    } else {
        position(clients.drop_last(), socket)
    }
}

pub open spec fn unique_sockets(clients: Seq<ClientView>) -> bool {
    forall|i: int, j: int|
        0 <= i < clients.len() && 0 <= j < clients.len() && i != j ==> #[trigger] clients[i].socket
            != #[trigger] clients[j].socket
}

pub struct ServerView {
    pub clients: Seq<ClientView>,
    pub queue_bound: nat,
}

impl ServerView {
    /// No two clients share a socket, and no queue is over the bound.
    pub open spec fn wf(self) -> bool {
        &&& self.queue_bound > 0
        &&& forall|i: int|
            0 <= i < self.clients.len() ==> #[trigger] self.clients[i].pending.len()
                <= self.queue_bound
        &&& unique_sockets(self.clients)
    }

    /// A new client starts with an empty queue; one on a socket already
    /// listed takes that entry's place.
    pub open spec fn added(self, socket: i32) -> ServerView {
        let p = position(self.clients, socket);
        ServerView {
            clients: if p >= 0 {
                self.clients.update(p, fresh_client(socket))
            } else {
                self.clients.push(fresh_client(socket))
            },
            ..self
        }
    }

    pub open spec fn removed(self, socket: i32) -> ServerView {
        let p = position(self.clients, socket);
        ServerView {
            clients: if p >= 0 {
                self.clients.remove(p)
            } else {
                self.clients
            },
            ..self
        }
    }

    /// Every client gets the message at the end of its queue.
    pub open spec fn broadcasted(self, m: Seq<u8>) -> ServerView {
        ServerView {
            clients: self.clients.map_values(|c: ClientView| with_message(c, m, self.queue_bound)),
            ..self
        }
    }

    /// The client on `socket` has its queue emptied.
    pub open spec fn drained(self, socket: i32) -> ServerView {
        let p = position(self.clients, socket);
        ServerView {
            clients: if p >= 0 {
                self.clients.update(p, ClientView { pending: Seq::empty(), ..self.clients[p] })
            } else {
                self.clients
            },
            ..self
        }
    }

    pub open spec fn pending_of(self, socket: i32) -> Seq<Seq<u8>> {
        let p = position(self.clients, socket);
        if p >= 0 {
            self.clients[p].pending
        } else {
            Seq::empty()
        }
    }
}

proof fn lemma_position(clients: Seq<ClientView>, socket: i32)
    ensures
        -1 <= position(clients, socket) < clients.len(),
        position(clients, socket) >= 0 ==> clients[position(clients, socket)].socket == socket,
        position(clients, socket) == -1 ==> forall|i: int|
            0 <= i < clients.len() ==> #[trigger] clients[i].socket != socket,
    decreases clients.len(),
{
    if clients.len() > 0 {
        lemma_position(clients.drop_last(), socket);
        if clients.last().socket != socket {
            assert forall|i: int| 0 <= i < clients.len() - 1 implies #[trigger] clients[i].socket
                == clients.drop_last()[i].socket by {}
        }
    }
}

proof fn lemma_position_same_sockets(a: Seq<ClientView>, b: Seq<ClientView>, socket: i32)
    requires
        a.len() == b.len(),
        forall|i: int| 0 <= i < a.len() ==> #[trigger] a[i].socket == b[i].socket,
    ensures
        position(a, socket) == position(b, socket),
    decreases a.len(),
{
    if a.len() > 0 {
        assert(a.last().socket == b.last().socket);
        assert forall|i: int| 0 <= i < a.len() - 1 implies #[trigger] a.drop_last()[i].socket
            == b.drop_last()[i].socket by {
            assert(a.drop_last()[i] == a[i]);
            assert(b.drop_last()[i] == b[i]);
        }
        lemma_position_same_sockets(a.drop_last(), b.drop_last(), socket);
    }
}

proof fn lemma_position_unique(clients: Seq<ClientView>, socket: i32, i: int)
    requires
        unique_sockets(clients),
        0 <= i < clients.len(),
        clients[i].socket == socket,
    ensures
        position(clients, socket) == i,
    decreases clients.len(),
{
    if i != clients.len() - 1 {
        assert(clients[clients.len() - 1].socket != clients[i].socket);
        let d = clients.drop_last();
        assert forall|x: int, y: int|
            0 <= x < d.len() && 0 <= y < d.len() && x != y implies #[trigger] d[x].socket
            != #[trigger] d[y].socket by {
            assert(d[x] == clients[x]);
            assert(d[y] == clients[y]);
        }
        assert(d[i] == clients[i]);
        lemma_position_unique(d, socket, i);
    }
}

proof fn lemma_absent(clients: Seq<ClientView>, socket: i32)
    requires
        forall|i: int| 0 <= i < clients.len() ==> #[trigger] clients[i].socket != socket,
    ensures
        position(clients, socket) == -1,
{
    lemma_position(clients, socket);
}

/// A broadcast message lands at the end of every connected client's queue,
/// byte for byte; each queue keeps what it held, but for its oldest message
/// when it was full.
pub proof fn lemma_broadcast_reaches_every_client(s: ServerView, m: Seq<u8>)
    requires
        s.wf(),
    ensures
        s.broadcasted(m).wf(),
        s.broadcasted(m).clients.len() == s.clients.len(),
        forall|i: int|
            0 <= i < s.clients.len() ==> {
                let c = #[trigger] s.broadcasted(m).clients[i];
                &&& c.socket == s.clients[i].socket
                &&& c.pending.last() == m
                &&& c.pending == queued(s.clients[i].pending, m, s.queue_bound)
            },
{
}

/// Taking one client's messages leaves every other client's queue as it was,
/// before and after a broadcast: what one client has read so far changes
/// nothing for another.
pub proof fn lemma_take_spares_others(s: ServerView, taken: i32, other: i32, m: Seq<u8>)
    requires
        s.wf(),
        taken != other,
    ensures
        s.drained(taken).pending_of(other) == s.pending_of(other),
        s.drained(taken).broadcasted(m).pending_of(other) == s.broadcasted(m).pending_of(other),
{
    let d = s.drained(taken);
    let b = s.broadcasted(m);
    let db = d.broadcasted(m);
    lemma_position(s.clients, taken);
    lemma_position(s.clients, other);
    lemma_position_same_sockets(s.clients, d.clients, other);
    lemma_position_same_sockets(s.clients, b.clients, other);
    lemma_position_same_sockets(s.clients, db.clients, other);
}

/// Removing a client changes nothing for the others: a broadcast after the
/// removal reaches them just as it would have, and the removed client gets
/// nothing more.
pub proof fn lemma_removal_spares_others(s: ServerView, gone: i32, m: Seq<u8>)
    requires
        s.wf(),
    ensures
        s.removed(gone).broadcasted(m) == s.broadcasted(m).removed(gone),
        s.removed(gone).broadcasted(m).pending_of(gone) == Seq::<Seq<u8>>::empty(),
        forall|other: i32|
            other != gone ==> #[trigger] s.removed(gone).broadcasted(m).pending_of(other)
                == s.broadcasted(m).pending_of(other),
{
    let b = s.broadcasted(m);
    let r = s.removed(gone);
    let rb = r.broadcasted(m);
    lemma_position(s.clients, gone);
    lemma_position_same_sockets(s.clients, b.clients, gone);
    let p = position(s.clients, gone);
    assert(rb.clients =~= b.removed(gone).clients);
    assert forall|i: int| 0 <= i < rb.clients.len() implies #[trigger] rb.clients[i].socket
        != gone by {
        if p >= 0 {
            if i < p {
                assert(rb.clients[i].socket == s.clients[i].socket);
            } else {
                assert(rb.clients[i].socket == s.clients[i + 1].socket);
            }
        }
    }
    lemma_absent(rb.clients, gone);
    assert forall|other: i32| other != gone implies #[trigger] rb.pending_of(other)
        == b.pending_of(other) by {
        lemma_position(s.clients, other);
        lemma_position_same_sockets(s.clients, b.clients, other);
        let q = position(s.clients, other);
        if q >= 0 {
            assert(unique_sockets(b.clients));
            if p >= 0 {
                let q2 = if q < p { q } else { q - 1 };
                assert(rb.clients[q2] == b.clients[q]);
                assert(unique_sockets(rb.clients)) by {
                    assert forall|x: int, y: int|
                        0 <= x < rb.clients.len() && 0 <= y < rb.clients.len() && x != y implies #[trigger] rb.clients[x].socket
                        != #[trigger] rb.clients[y].socket by {
                        let x0 = if x < p { x } else { x + 1 };
                        let y0 = if y < p { y } else { y + 1 };
                        assert(rb.clients[x].socket == s.clients[x0].socket);
                        assert(rb.clients[y].socket == s.clients[y0].socket);
                    }
                }
                lemma_position_unique(rb.clients, other, q2);
            } else {
                lemma_position_same_sockets(s.clients, rb.clients, other);
            }
        } else {
            assert forall|i: int| 0 <= i < rb.clients.len() implies #[trigger] rb.clients[i].socket
                != other by {
                if p >= 0 && i >= p {
                    assert(rb.clients[i].socket == s.clients[i + 1].socket);
                } else {
                    assert(rb.clients[i].socket == s.clients[i].socket);
                }
            }
            lemma_absent(rb.clients, other);
        }
    }
}

/// The connected clients, each with its own queue of outgoing messages.
/// Nothing here writes to a socket: each client's writer drains its own
/// queue, so a slow client never holds up another.
pub struct Server {
    clients: Vec<Client>,
    queue_bound: usize,
}

impl View for Server {
    type V = ServerView;

    closed spec fn view(&self) -> ServerView {
        ServerView {
            clients: self.clients@.map_values(|c: Client| c@),
            queue_bound: self.queue_bound as nat,
        }
    }
}

impl Server {
    pub fn new() -> (r: Server)
        ensures
            r@.clients == Seq::<ClientView>::empty(),
            r@.queue_bound == CLIENT_QUEUE_BOUND,
            r@.wf(),
    {
        let r = Server { clients: Vec::new(), queue_bound: CLIENT_QUEUE_BOUND };
        assert(r@.clients =~= Seq::<ClientView>::empty());
        r
    }

    fn find(&self, socket: i32) -> (r: Option<usize>)
        ensures
            match r {
                Some(i) => i == position(self@.clients, socket) && i < self@.clients.len(),
                None => position(self@.clients, socket) == -1,
            },
    {
        let ghost cs = self@.clients;
        let mut i: usize = self.clients.len();
        assert(cs.take(i as int) =~= cs);
        while i > 0
            invariant
                cs == self@.clients,
                i <= cs.len(),
                position(cs, socket) == position(cs.take(i as int), socket),
            decreases i,
        {
            assert(cs.take(i as int).last() == cs[i - 1]);
            if self.clients[i - 1].socket() == socket {
                return Some(i - 1);
            }
            assert(cs.take(i as int).drop_last() =~= cs.take(i - 1));
            i = i - 1;
        }
        None
    }

    pub fn client_count(&self) -> (r: usize)
        ensures
            r == self@.clients.len(),
    {
        self.clients.len()
    }

    /// The sockets of all connected clients, in the order they joined.
    pub fn sockets(&self) -> (r: Vec<i32>)
        ensures
            r@ == self@.clients.map_values(|c: ClientView| c.socket),
    {
        let mut r: Vec<i32> = Vec::new();
        let mut i: usize = 0;
        while i < self.clients.len()
            invariant
                i <= self@.clients.len(),
                r@ == self@.clients.take(i as int).map_values(|c: ClientView| c.socket),
            decreases self@.clients.len() - i,
        {
            r.push(self.clients[i].socket());
            i = i + 1;
            assert(r@ =~= self@.clients.take(i as int).map_values(|c: ClientView| c.socket));
        }
        assert(self@.clients.take(i as int) =~= self@.clients);
        r
    }

    /// Registers a newly accepted client.
    pub fn add_client(&mut self, socket: i32)
        requires
            old(self)@.wf(),
        ensures
            final(self)@ == old(self)@.added(socket),
            final(self)@.wf(),
    {
        let ghost s = self@;
        proof {
            lemma_position(s.clients, socket);
        }
        match self.find(socket) {
            Some(i) => {
                self.clients.set(i, Client::new(socket));
                assert(self@.clients =~= s.added(socket).clients);
            },
            None => {
                self.clients.push(Client::new(socket));
                assert(self@.clients =~= s.added(socket).clients);
            },
        }
    }

    /// Forgets the client on `socket`, after a failed read or write.
    pub fn remove_client(&mut self, socket: i32)
        requires
            old(self)@.wf(),
        ensures
            final(self)@ == old(self)@.removed(socket),
            final(self)@.wf(),
    {
        let ghost s = self@;
        proof {
            lemma_position(s.clients, socket);
        }
        if let Some(i) = self.find(socket) {
            self.clients.remove(i);
            assert(self@.clients =~= s.removed(socket).clients);
        }
    }

    /// Queues `data` for every connected client.
    pub fn broadcast(&mut self, data: &[u8])
        requires
            old(self)@.wf(),
        ensures
            final(self)@ == old(self)@.broadcasted(data@),
            final(self)@.wf(),
    {
        let ghost s = self@;
        let bound = self.queue_bound;
        let mut i: usize = 0;
        while i < self.clients.len()
            invariant
                bound == s.queue_bound,
                s.wf(),
                i <= self@.clients.len(),
                self@.clients.len() == s.clients.len(),
                self@.queue_bound == s.queue_bound,
                forall|j: int|
                    0 <= j < i ==> #[trigger] self@.clients[j] == with_message(
                        s.clients[j],
                        data@,
                        s.queue_bound,
                    ),
                forall|j: int| i <= j < self@.clients.len() ==> #[trigger] self@.clients[j] == s.clients[j],
            decreases self@.clients.len() - i,
        {
            let ghost before = self.clients@;
            let ghost sv = self@.clients;
            assert forall|j: int| 0 <= j < before.len() implies #[trigger] before[j]@ == sv[j] by {}
            let mut c = self.clients.remove(i);
            assert(c@ == s.clients[i as int]);
            c.enqueue(data, bound);
            let ghost cv = c@;
            self.clients.insert(i, c);
            assert(self.clients@ =~= before.update(i as int, c));
            assert forall|j: int| 0 <= j < self@.clients.len() implies #[trigger] self@.clients[j]
                == (if j == i { cv } else { sv[j] }) by {}
            i = i + 1;
        }
        assert(self@.clients =~= s.broadcasted(data@).clients);
    }

    /// Hands out the messages waiting for the client on `socket`, oldest
    /// first, and empties its queue; nothing if no client is on it.
    pub fn take_pending(&mut self, socket: i32) -> (r: Vec<Vec<u8>>)
        requires
            old(self)@.wf(),
        ensures
            bytes_of(r@) == old(self)@.pending_of(socket),
            final(self)@ == old(self)@.drained(socket),
            final(self)@.wf(),
    {
        let ghost s = self@;
        proof {
            lemma_position(s.clients, socket);
        }
        match self.find(socket) {
            Some(i) => {
                let ghost before = self.clients@;
                assert(self@.clients[i as int] == before[i as int]@);
                let mut c = self.clients.remove(i);
                assert(c@ == s.clients[i as int]);
                let r = c.take_pending();
                self.clients.insert(i, c);
                assert(self.clients@ =~= before.update(i as int, c));
                assert(self@.clients =~= s.drained(socket).clients);
                r
            },
            None => {
                let r: Vec<Vec<u8>> = Vec::new();
                assert(bytes_of(r@) =~= Seq::<Seq<u8>>::empty());
                r
            },
        }
    }
}

} // verus!
