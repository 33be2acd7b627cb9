//! A locker as the distributed mutex sees it: the node's own endpoint,
//! called in this process, or a peer's endpoint behind a link that may be
//! down.

use crate::local_locker::table_wf;
use crate::lock_args::{LockArgs, LockArgsView};
use crate::lock_service::{answer, table_after, LockError, LockOp, LockService, ServiceView};
use crate::text::{decimal, to_decimal};
use vstd::prelude::*;
use vstd::string::StringExecFns;

verus! {

/// A parsed URL of the `url` crate. Nothing is known of a value but what
/// `url_scheme`, `url_host` and `url_port` hand out.
#[verifier::external_type_specification]
#[verifier::external_body]
pub struct ExUrl(url::Url);

/// What `Url::scheme` returns for the URL.
pub uninterp spec fn url_scheme_text(url: url::Url) -> Seq<char>;

/// What `Url::host_str` returns for the URL.
pub uninterp spec fn url_host_text(url: url::Url) -> Option<Seq<char>>;

/// What `Url::port` returns for the URL.
pub uninterp spec fn url_port_number(url: url::Url) -> Option<u16>;

/// `Url::scheme`: the scheme of the URL, as a function of the URL alone.
/// Nothing is claimed of the text itself.
#[verifier::external_body]
fn url_scheme(url: &url::Url) -> (scheme: String)
    ensures
        scheme@ == url_scheme_text(*url),
{
    url.scheme().to_string()
}

/// `Url::host_str`: the host of the URL, if it has one, as a function of
/// the URL alone. Nothing is claimed of the text itself.
#[verifier::external_body]
fn url_host(url: &url::Url) -> (host: Option<String>)
    ensures
        host is Some == url_host_text(*url) is Some,
        host matches Some(h) ==> url_host_text(*url) == Some(h@),
{
    match url.host_str() {
        Some(h) => Some(h.to_string()),
        None => None,
    }
}

/// `Url::port`: the port that the URL names, if it names one, as a
/// function of the URL alone. Nothing is claimed of the number itself.
#[verifier::external_body]
fn url_port(url: &url::Url) -> (port: Option<u16>)
    ensures
        port == url_port_number(*url),
{
    url.port()
}

/// Whether the URL names a peer: it has a host and names a port.
pub open spec fn names_peer(url: url::Url) -> bool {
    url_host_text(url) is Some && url_port_number(url) is Some
}

/// The address of the peer that the URL names.
pub open spec fn peer_address_of(url: url::Url) -> Seq<char> {
    address_text(url_scheme_text(url), url_host_text(url)->0, url_port_number(url)->0)
}

/// The address of a peer: scheme, host and port.
pub open spec fn address_text(scheme: Seq<char>, host: Seq<char>, port: u16) -> Seq<char> {
    scheme + "://"@ + host + ":"@ + decimal(port as nat)
}

/// Writes the address of a peer.
pub fn peer_address(scheme: &str, host: &str, port: u16) -> (addr: String)
    ensures
        addr@ == address_text(scheme@, host@, port),
{
    let port_text = to_decimal(port as u64);
    String::from_str(scheme).concat("://").concat(host).concat(":").concat(port_text.as_str())
}

/// A locker as the mathematics sees it.
pub struct LockerView {
    /// Called in this process.
    pub local: bool,
    /// Whether calls reach the endpoint.
    pub online: bool,
    /// Where the peer is; empty for the local locker.
    pub addr: Seq<char>,
    /// The endpoint behind the locker.
    pub service: ServiceView,
}

/// What a call to the locker returns: the endpoint's answer, or a time-out
/// where the endpoint cannot be reached.
pub open spec fn locker_answer(l: LockerView, op: LockOp, a: LockArgsView) -> Result<bool, LockError> {
    if l.online {
        answer(l.service, op, a)
    } else {
        Err(LockError::Timeout)
    }
}

/// Whether the locker grants the request.
pub open spec fn grants(l: LockerView, op: LockOp, a: LockArgsView) -> bool {
    locker_answer(l, op, a) == Ok::<bool, LockError>(true)
}

/// Whether the locker does not answer the request in time.
pub open spec fn times_out(l: LockerView, op: LockOp, a: LockArgsView) -> bool {
    locker_answer(l, op, a) == Err::<bool, LockError>(LockError::Timeout)
}

/// The locker after the call. A call that times out never reached the
/// endpoint and leaves it as it was.
pub open spec fn locker_after(l: LockerView, op: LockOp, a: LockArgsView) -> LockerView {
    if l.online {
        LockerView {
            service: ServiceView { table: table_after(l.service, op, a), lockers: l.service.lockers },
            ..l
        }
    } else {
        l
    }
}

/// The client end of a link to a peer's endpoint.
pub struct RemoteClient {
    addr: String,
    online: bool,
    service: LockService,
}

impl View for RemoteClient {
    type V = LockerView;

    closed spec fn view(&self) -> LockerView {
        LockerView { local: false, online: self.online, addr: self.addr@, service: self.service@ }
    }
}

impl RemoteClient {
    pub closed spec fn wf(&self) -> bool {
        self.service.wf()
    }

    /// A well-formed client shows a well-formed table.
    pub proof fn lemma_view_wf(&self)
        requires
            self.wf(),
        ensures
            table_wf(self@.service.table),
    {
        self.service.lemma_view_wf();
    }

    /// A client for the peer at `addr`, whose endpoint is `service`; the
    /// link is up.
    pub fn new(addr: String, service: LockService) -> (c: RemoteClient)
        requires
            service.wf(),
        ensures
            c.wf(),
            c@ == (LockerView { local: false, online: true, addr: addr@, service: service@ }),
    {
        RemoteClient { addr, online: true, service }
    }

    /// The address of the peer.
    pub fn addr(&self) -> (a: &String)
        ensures
            a@ == self@.addr,
    {
        &self.addr
    }
}

/// A locker: the node's own endpoint or a peer's.
pub enum LockApi {
    Local(LockService),
    Remote(RemoteClient),
}

impl View for LockApi {
    type V = LockerView;

    open spec fn view(&self) -> LockerView {
        match self {
            LockApi::Local(s) => LockerView { local: true, online: true, addr: Seq::empty(), service: s@ },
            LockApi::Remote(c) => c@,
        }
    }
}

impl LockApi {
    pub open spec fn wf(&self) -> bool {
        match self {
            LockApi::Local(s) => s.wf(),
            LockApi::Remote(c) => c.wf(),
        }
    }

    /// A well-formed locker shows a well-formed table.
    pub proof fn lemma_view_wf(&self)
        requires
            self.wf(),
        ensures
            table_wf(self@.service.table),
    {
        match self {
            LockApi::Local(s) => s.lemma_view_wf(),
            LockApi::Remote(c) => c.lemma_view_wf(),
        }
    }

    /// Calls the locker: the endpoint handles the request if the call
    /// reaches it.
    pub fn call(&mut self, op: LockOp, args: &LockArgs) -> (r: Result<bool, LockError>)
        requires
            old(self).wf(),
        ensures
            final(self).wf(),
            r == locker_answer(old(self)@, op, args@),
            final(self)@ == locker_after(old(self)@, op, args@),
    {
        match self {
            LockApi::Local(s) => s.handle(op, args),
            LockApi::Remote(c) => {
                if c.online {
                    c.service.handle(op, args)
                } else {
                    Err(LockError::Timeout)
                }
            },
        }
    }

    pub fn lock(&mut self, args: &LockArgs) -> (r: Result<bool, LockError>)
        requires
            old(self).wf(),
        ensures
            final(self).wf(),
            r == locker_answer(old(self)@, LockOp::Lock, args@),
            final(self)@ == locker_after(old(self)@, LockOp::Lock, args@),
    {
        self.call(LockOp::Lock, args)
    }

    pub fn unlock(&mut self, args: &LockArgs) -> (r: Result<bool, LockError>)
        requires
            old(self).wf(),
        ensures
            final(self).wf(),
            r == locker_answer(old(self)@, LockOp::Unlock, args@),
            final(self)@ == locker_after(old(self)@, LockOp::Unlock, args@),
    {
        self.call(LockOp::Unlock, args)
    }

    pub fn rlock(&mut self, args: &LockArgs) -> (r: Result<bool, LockError>)
        requires
            old(self).wf(),
        ensures
            final(self).wf(),
            r == locker_answer(old(self)@, LockOp::RLock, args@),
            final(self)@ == locker_after(old(self)@, LockOp::RLock, args@),
    {
        self.call(LockOp::RLock, args)
    }

    pub fn runlock(&mut self, args: &LockArgs) -> (r: Result<bool, LockError>)
        requires
            old(self).wf(),
        ensures
            final(self).wf(),
            r == locker_answer(old(self)@, LockOp::RUnlock, args@),
            final(self)@ == locker_after(old(self)@, LockOp::RUnlock, args@),
    {
        self.call(LockOp::RUnlock, args)
    }

    pub fn refresh(&mut self, args: &LockArgs) -> (r: Result<bool, LockError>)
        requires
            old(self).wf(),
        ensures
            final(self).wf(),
            r == locker_answer(old(self)@, LockOp::Refresh, args@),
            final(self)@ == old(self)@,
    {
        self.call(LockOp::Refresh, args)
    }

    pub fn force_unlock(&mut self, args: &LockArgs) -> (r: Result<bool, LockError>)
        requires
            old(self).wf(),
        ensures
            final(self).wf(),
            r == locker_answer(old(self)@, LockOp::ForceUnlock, args@),
            final(self)@ == locker_after(old(self)@, LockOp::ForceUnlock, args@),
    {
        self.call(LockOp::ForceUnlock, args)
    }

    /// Whether the locker is called in this process.
    pub fn is_local(&self) -> (local: bool)
        ensures
            local == self@.local,
    {
        match self {
            LockApi::Local(_) => true,
            LockApi::Remote(_) => false,
        }
    }

    /// Whether calls reach the endpoint.
    pub fn is_online(&self) -> (online: bool)
        ensures
            online == self@.online,
    {
        match self {
            LockApi::Local(_) => true,
            LockApi::Remote(c) => c.online,
        }
    }

    /// Takes the link to a peer down or brings it up again. The local
    /// locker is always reached.
    pub fn set_online(&mut self, online: bool)
        requires
            old(self).wf(),
        ensures
            final(self).wf(),
            final(self)@ == (LockerView { online: old(self)@.local || online, ..old(self)@ }),
    {
        match self {
            LockApi::Local(_) => {},
            LockApi::Remote(c) => {
                c.online = online;
            },
        }
    }

    /// Whether `resource` is locked in the table behind the locker,
    /// reachable or not.
    pub fn is_locked(&self, resource: &str) -> (locked: bool)
        requires
            self.wf(),
        ensures
            locked == self@.service.table.contains_key(resource@),
    {
        match self {
            LockApi::Local(s) => s.is_locked(resource),
            LockApi::Remote(c) => c.service.is_locked(resource),
        }
    }
}

/// A locker for a cluster of `lockers` lockers with nothing locked behind
/// it: the local one, or a client for the peer that `url` names. A peer is
/// owed for every URL with a host and a port, and for no other.
pub fn new_lock_api(is_local: bool, url: Option<url::Url>, lockers: usize) -> (api: Option<LockApi>)
    ensures
        is_local ==> api is Some,
        !is_local && url is None ==> api is None,
        !is_local && url is Some ==> (api is Some <==> names_peer(url->0)),
        api matches Some(l) ==> l.wf() && l@ == (LockerView {
            local: is_local,
            online: true,
            addr: if is_local {
                Seq::empty()
            } else {
                peer_address_of(url->0)
            },
            service: ServiceView { table: Map::empty(), lockers: lockers as nat },
        }),
{
    if is_local {
        return Some(LockApi::Local(LockService::new(lockers)));
    }
    match url {
        None => None,
        Some(u) => {
            let scheme = url_scheme(&u);
            match (url_host(&u), url_port(&u)) {
                (Some(host), Some(port)) => {
                    let addr = peer_address(scheme.as_str(), host.as_str(), port);
                    Some(LockApi::Remote(RemoteClient::new(addr, LockService::new(lockers))))
                },
                _ => None,
            }
        },
    }
}

/// The lockers that a vector holds, in order.
pub open spec fn cluster_of(v: Seq<LockApi>) -> Seq<LockerView> {
    Seq::new(v.len(), |i: int| v[i]@)
}

/// Every locker of the vector is well formed.
pub open spec fn cluster_wf(v: Seq<LockApi>) -> bool {
    forall|i: int| 0 <= i < v.len() ==> (#[trigger] v[i]).wf()
}

} // verus!
