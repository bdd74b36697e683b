//! What a server is set up with: the ports it serves and the name it
//! gives itself.
use vstd::prelude::*;
use crate::model::server::SamotopServer;
use crate::model::text::text_of;

verus! {

/// The machine's host name, where it can be had as text.
///
/// Calls `hostname::get` and, on its result, `OsString::into_string`; the
/// name depends on the machine, so nothing is claimed of it.
#[verifier::external_body]
fn host_name() -> (r: Option<String>) {
    match hostname::get() {
        Ok(name) => match name.into_string() {
            Ok(text) => Some(text),
            Err(_) => None,
        },
        Err(_) => None,
    }
}

/// The ports to serve on: those given, or `localhost:25` where none are.
pub fn service_ports(ports: Vec<String>) -> (r: Vec<String>)
    ensures
        ports.len() == 0 ==> r.len() == 1 && r[0]@ == "localhost:25"@,
        ports.len() > 0 ==> r.deep_view() == ports.deep_view(),
{
    if ports.len() == 0 {
        let mut v = Vec::new();
        v.push(text_of("localhost:25"));
        v
    } else {
        ports
    }
}

/// The name to use in greetings: the one given, else the host name, else
/// `Samotop`.
pub open spec fn name_choice(given: Option<Seq<char>>, host: Option<Seq<char>>) -> Seq<char> {
    match given {
        Some(n) => n,
        None => match host {
            Some(h) => h,
            None => "Samotop"@,
        },
    }
}

pub open spec fn opt_view(o: Option<String>) -> Option<Seq<char>> {
    match o {
        Some(s) => Some(s@),
        None => None,
    }
}

/// The name to use in greetings, given the host name where it could be had.
pub fn choose_name(given: Option<String>, host: Option<String>) -> (r: String)
    ensures
        r@ == name_choice(opt_view(given), opt_view(host)),
{
    match given {
        Some(name) => name,
        None => match host {
            Some(h) => h,
            None => text_of("Samotop"),
        },
    }
}

/// The name to use in greetings: the one given, else the machine's host
/// name, else `Samotop`.
pub fn my_name(given: Option<String>) -> (r: String)
    ensures
        given matches Some(n) ==> r@ == n@,
        given is None ==> exists|h: Option<Seq<char>>| r@ == name_choice(None, h),
{
    match given {
        Some(name) => name,
        None => {
            let host = host_name();
            choose_name(None, host)
        },
    }
}

/// Sets up servers: the ports to serve on, with one to fall back on, and
/// the service to serve.
#[derive(Debug, Clone)]
pub struct SamotopBuilder<S> {
    default_port: String,
    ports: Vec<String>,
    service: S,
}

impl<S> SamotopBuilder<S> {
    pub closed spec fn fallback(&self) -> Seq<char> {
        self.default_port@
    }

    pub closed spec fn port_list(&self) -> Seq<Seq<char>> {
        self.ports.deep_view()
    }

    pub closed spec fn served(&self) -> S {
        self.service
    }

    /// No ports yet; `default_port` is served where none are given.
    pub fn new(default_port: String, service: S) -> (r: Self)
        ensures
            r.fallback() == default_port@,
            r.port_list() == Seq::<Seq<char>>::empty(),
            r.served() == service,
    {
        let r = Self { default_port, ports: Vec::new(), service };
        assert(r.ports.deep_view() =~= Seq::<Seq<char>>::empty());
        r
    }

    /// The same ports with another service.
    pub fn with<SX>(self, service: SX) -> (r: SamotopBuilder<SX>)
        ensures
            r.fallback() == self.fallback(),
            r.port_list() == self.port_list(),
            r.served() == service,
    {
        let Self { default_port, ports, .. } = self;
        SamotopBuilder { default_port, service, ports }
    }

    /// One more port.
    pub fn on(self, port: String) -> (r: Self)
        ensures
            r.fallback() == self.fallback(),
            r.port_list() == self.port_list().push(port@),
            r.served() == self.served(),
    {
        let Self { default_port, mut ports, service } = self;
        let ghost before = ports.deep_view();
        let ghost p = port@;
        ports.push(port);
        assert(ports.deep_view() =~= before.push(p));
        Self { default_port, ports, service }
    }

    /// More ports, in their order.
    pub fn on_all(self, more: Vec<String>) -> (r: Self)
        ensures
            r.fallback() == self.fallback(),
            r.port_list() == self.port_list() + more.deep_view(),
            r.served() == self.served(),
    {
        let Self { default_port, mut ports, service } = self;
        let ghost before = ports.deep_view();
        let mut rest = more;
        let ghost all = rest.deep_view();
        while rest.len() > 0
            invariant
                ports.deep_view() + rest.deep_view() == before + all,
            decreases rest.len(),
        {
            let ghost pv = ports.deep_view();
            let ghost rv = rest.deep_view();
            let p = rest.remove(0);
            assert(rest.deep_view() =~= rv.drop_first());
            ports.push(p);
            assert(ports.deep_view() =~= pv.push(rv[0]));
            assert(ports.deep_view() + rest.deep_view() =~= pv + rv);
        }
        assert(ports.deep_view() =~= ports.deep_view() + rest.deep_view());
        Self { default_port, ports, service }
    }

    /// The ports to serve on: those given, or the fallback where none are.
    pub fn into_ports(self) -> (r: Vec<String>)
        ensures
            self.port_list().len() == 0 ==> r.deep_view() == seq![self.fallback()],
            self.port_list().len() > 0 ==> r.deep_view() == self.port_list(),
    {
        let Self { default_port, ports, .. } = self;
        if ports.len() == 0 {
            let ghost d = default_port@;
            let mut v = Vec::new();
            v.push(default_port);
            assert(v.deep_view() =~= seq![d]);
            v
        } else {
            ports
        }
    }
}

impl<S: Clone> SamotopBuilder<S> {
    /// A server for each port to serve on, each with a copy of the service.
    pub fn into_servers(self) -> (r: Vec<SamotopServer<S>>)
        ensures
            self.port_list().len() == 0 ==> r.len() == 1 && r[0].addr@ == self.fallback(),
            self.port_list().len() > 0 ==> r.len() == self.port_list().len()
                && forall|i: int| 0 <= i < r.len() ==> #[trigger] r[i].addr@ == self.port_list()[i],
    {
        let service = self.service.clone();
        let mut ports = self.into_ports();
        let ghost pv = ports.deep_view();
        let mut servers: Vec<SamotopServer<S>> = Vec::new();
        while ports.len() > 0
            invariant
                servers.len() + ports.len() == pv.len(),
                forall|i: int| 0 <= i < servers.len() ==> #[trigger] servers[i].addr@ == pv[i],
                forall|i: int| 0 <= i < ports.len() ==> #[trigger] ports.deep_view()[i] == pv[servers.len() + i],
            decreases ports.len(),
        {
            let ghost rv = ports.deep_view();
            let addr = ports.remove(0);
            assert(ports.deep_view() =~= rv.drop_first());
            assert(addr@ == rv[0]);
            servers.push(SamotopServer { addr, service: service.clone() });
        }
        servers
    }
}

} // verus!
