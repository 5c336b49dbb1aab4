//! Per-peer connection lifecycle: the client table and the dispatch step
//! that the listener's event loop runs for every inbound datagram.
//!
//! The dispatch step is a pure decision function from (table, peer address,
//! datagram bytes, current tick) to (new table, action); the I/O loop around
//! it only performs the action it is handed. Datagram dispatch touches no
//! table entry but the sender's own, so traffic from distinct peers can
//! never corrupt each other's record.

use vstd::prelude::*;
use vstd::string::StringSliceAdditionalSpecFns;
use std::collections::HashMap;

use crate::config::Config;
use crate::net::{
    decode_header,
    bytes_eq,
    parse_user_info,
    spec_header_of_bytes,
    spec_server_info_bytes,
    spec_user_info_of_bytes,
    Header,
    MessageType,
    ServerInfo,
    UserInfo,
    UserInfoView,
};

verus! {

broadcast use vstd::std_specs::hash::group_hash_axioms;

/// A peer's network endpoint as plain values: IPv4 address and UDP port.
#[derive(Clone, Copy, PartialEq, Eq, Structural, Debug)]
pub struct PeerAddr {
    pub ip: u32,
    pub port: u16,
}

impl PeerAddr {
    /// The integer the table is keyed by; distinct endpoints give distinct
    /// keys.
    pub open spec fn spec_key(self) -> u64 {
        (self.ip as int * 0x10000 + self.port as int) as u64
    }

    pub fn key(self) -> (k: u64)
        ensures
            k == self.spec_key(),
    {
        self.ip as u64 * 0x10000 + self.port as u64
    }
}

/// Distinct endpoints are keyed apart.
pub proof fn lemma_peer_key_injective(a: PeerAddr, b: PeerAddr)
    ensures
        (a.spec_key() == b.spec_key()) <==> (a == b),
{
    if a.spec_key() == b.spec_key() {
        assert(a.ip == b.ip && a.port == b.port) by (nonlinear_arith)
            requires
                a.ip as u64 * 0x10000 + a.port as u64 == b.ip as u64 * 0x10000 + b.port as u64,
                a.port < 0x10000,
                b.port < 0x10000,
        ;
    }
}

/// Where a peer stands in its handshake. There is no way back from
/// Connected to Pending.
#[derive(Clone, Copy, PartialEq, Eq, Structural, Debug)]
pub enum ClientState {
    /// Greeted with a valid Hello; its UserInfo is still outstanding.
    Pending,
    /// Handshake finished; traffic is forwarded to gameplay processing.
    Connected,
}

/// One record per connected peer address.
pub struct Client {
    pub state: ClientState,
    pub ipaddr: PeerAddr,
    /// The parsed user data, present once Connected.
    pub user: Option<UserInfo>,
    /// Tick timestamp of creation, for the handshake expiry sweep.
    pub created_at: u64,
}

/// Mathematical image of a client record.
pub struct ClientView {
    pub state: ClientState,
    pub ipaddr: PeerAddr,
    pub user: Option<UserInfoView>,
    pub created_at: u64,
}

impl View for Client {
    type V = ClientView;

    open spec fn view(&self) -> ClientView {
        ClientView {
            state: self.state,
            ipaddr: self.ipaddr,
            user: match self.user {
                Some(u) => Some(u@),
                None => None,
            },
            created_at: self.created_at,
        }
    }
}

/// Registry mapping peer address keys to connection records. At most one
/// record per address; lookups and mutations for distinct keys are
/// independent.
pub struct ClientTable {
    m: HashMap<u64, Client>,
    keys: Vec<u64>,
}

impl View for ClientTable {
    type V = Map<u64, ClientView>;

    closed spec fn view(&self) -> Map<u64, ClientView> {
        self.m@.map_values(|c: Client| c@)
    }
}

impl ClientTable {
    /// The private key list mirrors the map's domain, without duplicates.
    pub closed spec fn inv(&self) -> bool {
        &&& self.keys@.no_duplicates()
        &&& forall|k: u64| #[trigger] self.m@.contains_key(k) <==> self.keys@.contains(k)
        &&& vstd::std_specs::hash::obeys_key_model::<u64>()
        &&& vstd::std_specs::hash::builds_valid_hashers::<std::collections::hash_map::RandomState>()
    }

    pub fn new() -> (t: ClientTable)
        ensures
            t.inv(),
            t@ == Map::<u64, ClientView>::empty(),
    {
        let t = ClientTable { m: HashMap::new(), keys: Vec::new() };
        proof {
            assert(t.m@.map_values(|c: Client| c@) =~= Map::<u64, ClientView>::empty());
        }
        t
    }

    /// Number of clients in the table.
    pub fn len(&self) -> (n: usize)
        requires
            self.inv(),
        ensures
            n == self@.dom().len(),
    {
        proof {
            assert(self.m@.map_values(|c: Client| c@).dom() =~= self.m@.dom());
        }
        self.m.len()
    }

    pub fn contains(&self, k: u64) -> (r: bool)
        requires
            self.inv(),
        ensures
            r == self@.contains_key(k),
    {
        self.m.contains_key(&k)
    }

    /// The record at a key, if any.
    pub fn lookup(&self, k: u64) -> (r: Option<&Client>)
        requires
            self.inv(),
        ensures
            r is Some <==> self@.contains_key(k),
            r matches Some(c) ==> c@ == self@[k],
    {
        self.m.get(&k)
    }

    /// Inserts or replaces the record at a key.
    pub fn insert(&mut self, k: u64, c: Client)
        requires
            old(self).inv(),
        ensures
            final(self).inv(),
            final(self)@ == old(self)@.insert(k, c@),
    {
        let ghost ks_old = self.keys@;
        let fresh = !self.m.contains_key(&k);
        if fresh {
            self.keys.push(k);
        }
        self.m.insert(k, c);
        proof {
            if fresh {
                assert(self.keys@ =~= ks_old.push(k));
                assert(!ks_old.contains(k));
                assert(self.keys@.no_duplicates()) by {
                    assert forall|p: int, q: int|
                        0 <= p < self.keys@.len() && 0 <= q < self.keys@.len() && p
                            != q implies self.keys@[p] != self.keys@[q] by {
                        if p < ks_old.len() && q < ks_old.len() {
                        } else if p == ks_old.len() {
                            assert(self.keys@[q] == ks_old[q]);
                            if ks_old[q] == k {
                                assert(ks_old.contains(k));
                            }
                        } else {
                            assert(self.keys@[p] == ks_old[p]);
                            if ks_old[p] == k {
                                assert(ks_old.contains(k));
                            }
                        }
                    }
                }
                assert forall|k2: u64| #[trigger]
                    self.m@.contains_key(k2) <==> self.keys@.contains(k2) by {
                    if k2 == k {
                        assert(self.keys@[ks_old.len() as int] == k);
                        assert(self.keys@.contains(k));
                    } else {
                        if ks_old.contains(k2) {
                            let j = choose|j: int| 0 <= j < ks_old.len() && ks_old[j] == k2;
                            assert(self.keys@[j] == k2);
                        }
                        if self.keys@.contains(k2) {
                            let j = choose|j: int|
                                0 <= j < self.keys@.len() && self.keys@[j] == k2;
                            assert(j < ks_old.len());
                            assert(ks_old[j] == k2);
                        }
                    }
                }
            }
            assert(self@ =~= old(self)@.insert(k, c@));
        }
    }

    /// Removes the record at a key, if present.
    pub fn remove(&mut self, k: u64)
        requires
            old(self).inv(),
        ensures
            final(self).inv(),
            final(self)@ == old(self)@.remove(k),
    {
        if self.m.contains_key(&k) {
            match find_key(&self.keys, k) {
                Some(i) => {
                    proof {
                        assert(forall|j: int|
                            0 <= j < self.keys@.len() && j != i ==> self.keys@[j] != k) by {
                            assert forall|j: int|
                                0 <= j < self.keys@.len() && j != i implies self.keys@[j]
                                != k by {
                                if self.keys@[j] == k {
                                    assert(!self.keys@.no_duplicates());
                                }
                            }
                        }
                    }
                    let ghost ks = self.keys@;
                    self.keys.remove(i);
                    proof {
                        lemma_remove_keeps_no_duplicates(ks, i as int);
                        assert forall|k2: u64| k2 != k implies (ks.contains(k2)
                            == self.keys@.contains(k2)) by {
                            lemma_remove_contains(ks, i as int, k2);
                        }
                        assert(!self.keys@.contains(k)) by {
                            lemma_remove_contains(ks, i as int, k);
                            if ks.remove(i as int).contains(k) {
                                let j = choose|j: int|
                                    0 <= j < ks.remove(i as int).len() && ks.remove(i as int)[j]
                                        == k;
                                if j < i {
                                    assert(ks[j] == k);
                                } else {
                                    assert(ks[j + 1] == k);
                                }
                            }
                        }
                    }
                },
                None => {
                    proof {
                        assert(false);
                    }
                },
            }
        }
        self.m.remove(&k);
        proof {
            assert(self@ =~= old(self)@.remove(k));
        }
    }
}

/// Spec-level image of the action a dispatch step hands back to the loop.
pub enum DispatchEffect {
    /// Drop the datagram silently.
    Ignore,
    /// Send exactly one reply packet (command, source, stream id, payload)
    /// to the sender.
    Reply(MessageType, i32, u32, Seq<u8>),
    /// Hand the datagram on to gameplay processing.
    Forward(Header),
}

/// The action a dispatch step hands back to the loop.
pub enum DispatchAction {
    /// Drop the datagram silently.
    Ignore,
    /// Send exactly one reply packet (command, source, stream id, payload)
    /// to the sender.
    Reply(MessageType, i32, u32, Vec<u8>),
    /// Hand the datagram on to gameplay processing.
    Forward(Header),
}

impl View for DispatchAction {
    type V = DispatchEffect;

    open spec fn view(&self) -> DispatchEffect {
        match self {
            DispatchAction::Ignore => DispatchEffect::Ignore,
            DispatchAction::Reply(c, src, sid, p) => DispatchEffect::Reply(*c, *src, *sid, p@),
            DispatchAction::Forward(h) => DispatchEffect::Forward(*h),
        }
    }
}

/// The UTF-8 bytes of the protocol version string a Hello must carry.
pub open spec fn spec_version_bytes() -> Seq<u8> {
    "RoRnet_2.44".spec_bytes()
}

/// A Pending record is expired when more than `timeout` ticks have passed
/// since it was created. Connected records never expire here.
pub open spec fn spec_expired(c: ClientView, now: u64, timeout: u64) -> bool {
    c.state is Pending && c.created_at + timeout < now
}

/// The connection state machine, as one pure function from (table, peer
/// address, datagram bytes, current tick) to (new table, action):
///
/// * datagrams shorter than a header, or with an unknown command tag, are
///   dropped silently and change nothing;
/// * the first datagram from an unknown address creates a Pending record
///   and is answered with a ServerInfo payload, but only when it is a Hello
///   carrying the exact protocol version; otherwise nothing is created and
///   one WrongVer reply is sent;
/// * a Pending peer's next well-formed UserInfo promotes it to Connected,
///   storing the parsed user data; anything else evicts the record;
/// * a Connected peer's traffic is forwarded to gameplay processing.
///
/// No entry other than the sender's own is ever read or written.
pub open spec fn spec_dispatch(
    c: Config,
    m: Map<u64, ClientView>,
    addr: PeerAddr,
    data: Seq<u8>,
    now: u64,
) -> (Map<u64, ClientView>, DispatchEffect) {
    let k = addr.spec_key();
    if data.len() < 16 {
        (m, DispatchEffect::Ignore)
    } else {
        match spec_header_of_bytes(data) {
            None => (m, DispatchEffect::Ignore),
            Some(h) => {
                let payload = data.subrange(16, data.len() as int);
                if m.contains_key(k) {
                    match m[k].state {
                        ClientState::Pending => {
                            if h.command is UserInfo && payload.len()
                                == crate::net::USER_INFO_BYTES {
                                (
                                    m.insert(
                                        k,
                                        ClientView {
                                            state: ClientState::Connected,
                                            ipaddr: m[k].ipaddr,
                                            user: Some(spec_user_info_of_bytes(payload)),
                                            created_at: m[k].created_at,
                                        },
                                    ),
                                    DispatchEffect::Ignore,
                                )
                            } else {
                                (m.remove(k), DispatchEffect::Ignore)
                            }
                        },
                        ClientState::Connected => (m, DispatchEffect::Forward(h)),
                    }
                } else {
                    if !(h.command is Hello) {
                        (m, DispatchEffect::Reply(MessageType::WrongVer, 0, 0, Seq::empty()))
                    } else if payload == spec_version_bytes() {
                        (
                            m.insert(
                                k,
                                ClientView {
                                    state: ClientState::Pending,
                                    ipaddr: addr,
                                    user: None,
                                    created_at: now,
                                },
                            ),
                            DispatchEffect::Reply(
                                MessageType::Hello,
                                0,
                                0,
                                spec_server_info_bytes(c),
                            ),
                        )
                    } else {
                        (m, DispatchEffect::Reply(MessageType::WrongVer, 0, 0, Seq::empty()))
                    }
                }
            },
        }
    }
}

impl ClientTable {
    /// Runs the state machine for one inbound datagram and returns the
    /// action the loop must take; mutates only the sender's own entry.
    pub fn process_client_data(
        &mut self,
        conf: &Config,
        addr: PeerAddr,
        data: &[u8],
        now: u64,
    ) -> (act: DispatchAction)
        requires
            old(self).inv(),
        ensures
            final(self).inv(),
            final(self)@ == spec_dispatch(*conf, old(self)@, addr, data@, now).0,
            act@ == spec_dispatch(*conf, old(self)@, addr, data@, now).1,
    {
        let k = addr.key();
        if data.len() < 16 {
            return DispatchAction::Ignore;
        }
        let (head, payload) = match decode_header(data) {
            Ok(hp) => hp,
            Err(_) => {
                return DispatchAction::Ignore;
            },
        };
        let existing: Option<(ClientState, PeerAddr, u64)> = match self.lookup(k) {
            Some(c) => Some((c.state, c.ipaddr, c.created_at)),
            None => None,
        };
        match existing {
            Some((ClientState::Pending, ipaddr, created_at)) => {
                if head.command == MessageType::UserInfo {
                    match parse_user_info(payload) {
                        Ok(u) => {
                            self.insert(
                                k,
                                Client {
                                    state: ClientState::Connected,
                                    ipaddr,
                                    user: Some(u),
                                    created_at,
                                },
                            );
                            DispatchAction::Ignore
                        },
                        Err(_) => {
                            self.remove(k);
                            DispatchAction::Ignore
                        },
                    }
                } else {
                    self.remove(k);
                    DispatchAction::Ignore
                }
            },
            Some((ClientState::Connected, _, _)) => DispatchAction::Forward(head),
            None => {
                if head.command != MessageType::Hello {
                    DispatchAction::Reply(MessageType::WrongVer, 0, 0, Vec::new())
                } else if bytes_eq(payload, crate::RORNET_VERSION.as_bytes()) {
                    self.insert(
                        k,
                        Client { state: ClientState::Pending, ipaddr: addr, user: None, created_at: now },
                    );
                    DispatchAction::Reply(MessageType::Hello, 0, 0, ServerInfo::build_packet(conf))
                } else {
                    DispatchAction::Reply(MessageType::WrongVer, 0, 0, Vec::new())
                }
            },
        }
    }
}

impl ClientTable {
    /// Evicts every Pending record older than `timeout` ticks: the periodic
    /// sweep that keeps an abandoned or attacked handshake from occupying a
    /// table slot forever. Connected records are never touched.
    pub fn sweep_expired(&mut self, now: u64, timeout: u64)
        requires
            old(self).inv(),
        ensures
            final(self).inv(),
            forall|k: u64| #[trigger]
                final(self)@.contains_key(k) <==> (old(self)@.contains_key(k) && !spec_expired(
                    old(self)@[k],
                    now,
                    timeout,
                )),
            forall|k: u64| #[trigger]
                final(self)@.contains_key(k) ==> final(self)@[k] == old(self)@[k],
    {
        let ghost hm0 = self.m@;
        let ghost ks0 = self.keys@;
        let mut new_keys: Vec<u64> = Vec::new();
        let mut i: usize = 0;
        let n = self.keys.len();
        while i < n
            invariant
                i <= n,
                n == self.keys@.len(),
                self.keys@ == ks0,
                ks0.no_duplicates(),
                vstd::std_specs::hash::obeys_key_model::<u64>(),
                vstd::std_specs::hash::builds_valid_hashers::<
                    std::collections::hash_map::RandomState,
                >(),
                forall|k: u64| #[trigger] hm0.contains_key(k) <==> ks0.contains(k),
                forall|k: u64| #[trigger]
                    self.m@.contains_key(k) ==> hm0.contains_key(k) && self.m@[k] == hm0[k],
                forall|j: int|
                    #![trigger ks0[j]]
                    0 <= j < i ==> (self.m@.contains_key(ks0[j]) <==> !spec_expired(
                        hm0[ks0[j]]@,
                        now,
                        timeout,
                    )),
                forall|j: int| #![trigger ks0[j]] i <= j < n ==> self.m@.contains_key(ks0[j]),
                new_keys@.no_duplicates(),
                forall|k: u64| #[trigger]
                    new_keys@.contains(k) <==> exists|j: int|
                        0 <= j < i && ks0[j] == k && !spec_expired(hm0[ks0[j]]@, now, timeout),
            decreases n - i,
        {
            let k = self.keys[i];
            let expired = match self.m.get(&k) {
                Some(c) => c.state == ClientState::Pending && timeout < now && c.created_at < now
                    - timeout,
                None => false,
            };
            proof {
                assert(ks0.contains(k));
                assert(expired == spec_expired(hm0[k]@, now, timeout));
            }
            if expired {
                self.m.remove(&k);
            } else {
                proof {
                    if new_keys@.contains(k) {
                        let j = choose|j: int|
                            0 <= j < i && ks0[j] == k && !spec_expired(hm0[ks0[j]]@, now, timeout);
                        assert(ks0[j] == ks0[i as int]);
                        assert(!ks0.no_duplicates());
                    }
                }
                let ghost nk0 = new_keys@;
                new_keys.push(k);
                proof {
                    assert forall|k2: u64| #[trigger]
                        new_keys@.contains(k2) <==> (nk0.contains(k2) || k2 == k) by {
                        if new_keys@.contains(k2) {
                            let j = choose|j: int|
                                0 <= j < new_keys@.len() && new_keys@[j] == k2;
                            if j < nk0.len() {
                                assert(nk0[j] == k2);
                            }
                        }
                        if nk0.contains(k2) {
                            let j = choose|j: int| 0 <= j < nk0.len() && nk0[j] == k2;
                            assert(new_keys@[j] == k2);
                        }
                        if k2 == k {
                            assert(new_keys@[nk0.len() as int] == k2);
                        }
                    }
                    assert(new_keys@.no_duplicates()) by {
                        assert forall|p: int, q: int|
                            0 <= p < new_keys@.len() && 0 <= q < new_keys@.len() && p
                                != q implies new_keys@[p] != new_keys@[q] by {
                            if p < nk0.len() && q < nk0.len() {
                            } else if p == nk0.len() {
                                assert(nk0[q] == new_keys@[q]);
                                if new_keys@[q] == k {
                                    assert(nk0.contains(k));
                                }
                            } else if q == nk0.len() {
                                assert(nk0[p] == new_keys@[p]);
                                if new_keys@[p] == k {
                                    assert(nk0.contains(k));
                                }
                            }
                        }
                    }
                }
            }
            proof {
                // a key removed or kept this round is distinct from every
                // other listed key, so the per-index picture is preserved
                assert forall|j: int| 0 <= j < n && j != i && #[trigger] ks0[j] == k implies false by {
                    assert(!ks0.no_duplicates());
                }
            }
            i += 1;
        }
        self.keys = new_keys;
        proof {
            assert forall|k: u64| #[trigger]
                self.m@.contains_key(k) <==> self.keys@.contains(k) by {
                if self.m@.contains_key(k) {
                    assert(hm0.contains_key(k));
                    assert(ks0.contains(k));
                    let j = choose|j: int| 0 <= j < ks0.len() && ks0[j] == k;
                    assert(!spec_expired(hm0[ks0[j]]@, now, timeout));
                }
                if self.keys@.contains(k) {
                    let j = choose|j: int|
                        0 <= j < i && ks0[j] == k && !spec_expired(hm0[ks0[j]]@, now, timeout);
                }
            }
            assert forall|k: u64| #[trigger]
                self@.contains_key(k) <==> (old(self)@.contains_key(k) && !spec_expired(
                    old(self)@[k],
                    now,
                    timeout,
                )) by {
                if old(self)@.contains_key(k) {
                    assert(hm0.contains_key(k));
                    let j = choose|j: int| 0 <= j < ks0.len() && ks0[j] == k;
                    assert(old(self)@[k] == hm0[k]@);
                }
            }
        }
    }
}

/// A datagram shorter than one header changes nothing: no record is
/// created or touched and no reply is sent.
pub proof fn lemma_short_datagram_ignored(
    c: Config,
    m: Map<u64, ClientView>,
    addr: PeerAddr,
    data: Seq<u8>,
    now: u64,
)
    requires
        data.len() < 16,
    ensures
        spec_dispatch(c, m, addr, data, now) == (m, DispatchEffect::Ignore),
{
}

/// A first datagram from an unknown address that is a Hello carrying the
/// exact protocol version creates exactly one Pending record, at that
/// address, and is answered with exactly one ServerInfo reply.
pub proof fn lemma_first_hello_accepted(
    c: Config,
    m: Map<u64, ClientView>,
    addr: PeerAddr,
    data: Seq<u8>,
    now: u64,
)
    requires
        m.dom().finite(),
        !m.contains_key(addr.spec_key()),
        data.len() >= 16,
        spec_header_of_bytes(data) matches Some(h) && h.command is Hello,
        data.subrange(16, data.len() as int) == spec_version_bytes(),
    ensures
        spec_dispatch(c, m, addr, data, now).0 == m.insert(
            addr.spec_key(),
            ClientView { state: ClientState::Pending, ipaddr: addr, user: None, created_at: now },
        ),
        spec_dispatch(c, m, addr, data, now).0.dom().len() == m.dom().len() + 1,
        spec_dispatch(c, m, addr, data, now).1 == DispatchEffect::Reply(
            MessageType::Hello,
            0,
            0,
            spec_server_info_bytes(c),
        ),
{
    vstd::set::axiom_set_insert_len(m.dom(), addr.spec_key());
    assert(spec_dispatch(c, m, addr, data, now).0.dom() =~= m.dom().insert(addr.spec_key()));
}

/// A first datagram from an unknown address that is not a Hello with the
/// exact protocol version creates no record and is answered with exactly
/// one WrongVer reply.
pub proof fn lemma_first_contact_rejected(
    c: Config,
    m: Map<u64, ClientView>,
    addr: PeerAddr,
    data: Seq<u8>,
    now: u64,
)
    requires
        !m.contains_key(addr.spec_key()),
        data.len() >= 16,
        spec_header_of_bytes(data) is Some,
        !(spec_header_of_bytes(data)->0.command is Hello) || data.subrange(16, data.len() as int)
            != spec_version_bytes(),
    ensures
        spec_dispatch(c, m, addr, data, now).0 == m,
        spec_dispatch(c, m, addr, data, now).1 == DispatchEffect::Reply(
            MessageType::WrongVer,
            0,
            0,
            Seq::<u8>::empty(),
        ),
{
}

/// A Pending peer whose next datagram is a well-formed UserInfo becomes
/// Connected, with the parsed user data stored; the handshake itself
/// mandates no reply.
pub proof fn lemma_pending_userinfo_connects(
    c: Config,
    m: Map<u64, ClientView>,
    addr: PeerAddr,
    data: Seq<u8>,
    now: u64,
)
    requires
        m.contains_key(addr.spec_key()),
        m[addr.spec_key()].state is Pending,
        data.len() >= 16,
        spec_header_of_bytes(data) matches Some(h) && h.command is UserInfo,
        data.len() == 16 + crate::net::USER_INFO_BYTES,
    ensures
        spec_dispatch(c, m, addr, data, now).0 == m.insert(
            addr.spec_key(),
            ClientView {
                state: ClientState::Connected,
                ipaddr: m[addr.spec_key()].ipaddr,
                user: Some(spec_user_info_of_bytes(data.subrange(16, data.len() as int))),
                created_at: m[addr.spec_key()].created_at,
            },
        ),
        spec_dispatch(c, m, addr, data, now).1 == DispatchEffect::Ignore,
{
}

/// A Pending peer whose next datagram is anything but a well-formed
/// UserInfo is removed from the table: the handshake is abandoned.
pub proof fn lemma_pending_other_evicts(
    c: Config,
    m: Map<u64, ClientView>,
    addr: PeerAddr,
    data: Seq<u8>,
    now: u64,
)
    requires
        m.contains_key(addr.spec_key()),
        m[addr.spec_key()].state is Pending,
        data.len() >= 16,
        spec_header_of_bytes(data) is Some,
        !(spec_header_of_bytes(data)->0.command is UserInfo) || data.len() != 16
            + crate::net::USER_INFO_BYTES,
    ensures
        spec_dispatch(c, m, addr, data, now).0 == m.remove(addr.spec_key()),
        !spec_dispatch(c, m, addr, data, now).0.contains_key(addr.spec_key()),
        spec_dispatch(c, m, addr, data, now).1 == DispatchEffect::Ignore,
{
}

/// There is no way back from Connected: once a peer's record is Connected,
/// no datagram from any address changes or removes it, and the expiry
/// sweep never touches it.
pub proof fn lemma_no_regression_from_connected(
    c: Config,
    m: Map<u64, ClientView>,
    addr: PeerAddr,
    data: Seq<u8>,
    now: u64,
    timeout: u64,
    k: u64,
)
    requires
        m.contains_key(k),
        m[k].state is Connected,
    ensures
        spec_dispatch(c, m, addr, data, now).0.contains_key(k),
        spec_dispatch(c, m, addr, data, now).0[k] == m[k],
        !spec_expired(m[k], now, timeout),
{
}

/// Datagrams from distinct peer addresses are independent: a dispatch step
/// for one address neither reads nor writes the other's record, the action
/// taken for a datagram does not depend on the other peer's step having
/// happened, and the two steps commute on the table.
pub proof fn lemma_dispatch_independent(
    c: Config,
    m: Map<u64, ClientView>,
    a: PeerAddr,
    b: PeerAddr,
    d1: Seq<u8>,
    d2: Seq<u8>,
    n1: u64,
    n2: u64,
)
    requires
        a != b,
    ensures
        spec_dispatch(c, m, a, d1, n1).0.contains_key(b.spec_key()) == m.contains_key(
            b.spec_key(),
        ),
        m.contains_key(b.spec_key()) ==> spec_dispatch(c, m, a, d1, n1).0[b.spec_key()]
            == m[b.spec_key()],
        spec_dispatch(c, spec_dispatch(c, m, a, d1, n1).0, b, d2, n2).1 == spec_dispatch(
            c,
            m,
            b,
            d2,
            n2,
        ).1,
        spec_dispatch(c, spec_dispatch(c, m, a, d1, n1).0, b, d2, n2).0 == spec_dispatch(
            c,
            spec_dispatch(c, m, b, d2, n2).0,
            a,
            d1,
            n1,
        ).0,
{
    lemma_peer_key_injective(a, b);
    let ka = a.spec_key();
    let kb = b.spec_key();
    let ma = spec_dispatch(c, m, a, d1, n1).0;
    let mb = spec_dispatch(c, m, b, d2, n2).0;
    let mab = spec_dispatch(c, ma, b, d2, n2).0;
    let mba = spec_dispatch(c, mb, a, d1, n1).0;
    assert(spec_dispatch(c, ma, b, d2, n2).1 == spec_dispatch(c, m, b, d2, n2).1);
    assert(mab =~= mba);
}

/// Index of a key in a vector, if present.
fn find_key(v: &Vec<u64>, k: u64) -> (r: Option<usize>)
    ensures
        r matches Some(i) ==> i < v@.len() && v@[i as int] == k,
        r is None ==> !v@.contains(k),
{
    let mut i: usize = 0;
    while i < v.len()
        invariant
            i <= v@.len(),
            forall|j: int| 0 <= j < i ==> v@[j] != k,
        decreases v@.len() - i,
    {
        if v[i] == k {
            return Some(i);
        }
        i += 1;
    }
    None
}

/// Removing one element keeps a duplicate-free sequence duplicate-free.
proof fn lemma_remove_keeps_no_duplicates(s: Seq<u64>, i: int)
    requires
        0 <= i < s.len(),
        s.no_duplicates(),
    ensures
        s.remove(i).no_duplicates(),
{
    let t = s.remove(i);
    assert forall|p: int, q: int| 0 <= p < t.len() && 0 <= q < t.len() && p != q implies t[p]
        != t[q] by {
        let p0 = if p < i { p } else { p + 1 };
        let q0 = if q < i { q } else { q + 1 };
        assert(t[p] == s[p0] && t[q] == s[q0]);
    }
}

/// After removing the element at `i`, a value is present exactly when it
/// was present at some other index.
proof fn lemma_remove_contains(s: Seq<u64>, i: int, x: u64)
    requires
        0 <= i < s.len(),
    ensures
        s.remove(i).contains(x) ==> s.contains(x),
        (exists|j: int| 0 <= j < s.len() && j != i && s[j] == x) ==> s.remove(i).contains(x),
{
    let t = s.remove(i);
    if t.contains(x) {
        let j = choose|j: int| 0 <= j < t.len() && t[j] == x;
        if j < i {
            assert(s[j] == x);
        } else {
            assert(s[j + 1] == x);
        }
    }
    if exists|j: int| 0 <= j < s.len() && j != i && s[j] == x {
        let j = choose|j: int| 0 <= j < s.len() && j != i && s[j] == x;
        if j < i {
            assert(t[j] == x);
        } else {
            assert(t[j - 1] == x);
        }
    }
}

} // verus!
