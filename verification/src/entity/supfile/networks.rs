//! Hosts and the networks that group them.
use crate::entity::env::{EnvList, Pair};
use crate::entity::const_values::PASS_SEPARATOR;
use crate::entity::keyed::{distinct_keys, has_key, put, value_of, NameMap};
use crate::text::{chars_of, find, find_index, string_of};
use crate::usecase::inventory_tools::{check_hosts_form, host_record, GrammarError};
use vstd::prelude::*;
use vstd::string::*;

verus! {

/// A host to connect to.
#[derive(Debug, PartialEq, Eq)]
pub struct Host {
    pub host: String,
    pub user: Option<String>,
    pub pass: Option<String>,
    pub tube: Option<String>,
    pub env: Option<EnvList>,
    pub sudo: bool,
}

/// A host as plain text.
pub struct HostView {
    pub host: Seq<char>,
    pub user: Option<Seq<char>>,
    pub pass: Option<Seq<char>>,
    pub tube: Option<Seq<char>>,
    pub env: Option<Seq<Pair>>,
    pub sudo: bool,
}

impl View for Host {
    type V = HostView;

    open spec fn view(&self) -> HostView {
        HostView {
            host: self.host@,
            user: self.user.deep_view(),
            pass: self.pass.deep_view(),
            tube: self.tube.deep_view(),
            env: self.env.deep_view(),
            sudo: self.sudo,
        }
    }
}

impl DeepView for Host {
    type V = HostView;

    open spec fn deep_view(&self) -> HostView {
        self@
    }
}

impl Clone for Host {
    fn clone(&self) -> (r: Self)
        ensures
            r@ == self@,
    {
        Host {
            host: self.host.clone(),
            user: self.user.clone(),
            pass: self.pass.clone(),
            tube: self.tube.clone(),
            env: self.env.clone(),
            sudo: self.sudo,
        }
    }
}

impl Host {
    /// A host known by its address alone.
    pub fn new(host: String) -> (r: Host)
        ensures
            r@ == (HostView {
                host: host@,
                user: None,
                pass: None,
                tube: None,
                env: None,
                sudo: false,
            }),
    {
        Host { host, user: None, pass: None, tube: None, env: None, sudo: false }
    }
}

/// The copy of a list of hosts.
pub fn clone_hosts(hosts: &Vec<Host>) -> (r: Vec<Host>)
    ensures
        r.deep_view() == hosts.deep_view(),
{
    let r = hosts.clone();
    assert(r.deep_view() =~= hosts.deep_view());
    r
}

/// A named group of hosts that share connection defaults and environment.
#[derive(Debug, PartialEq, Eq)]
pub struct Network {
    pub hosts: Vec<Host>,
    pub env: EnvList,
    pub inventory: String,
    pub bastion: String,
    pub user: String,
    pub pass: String,
    pub id_file: String,
    pub name: String,
}

/// A network as plain text.
pub struct NetworkView {
    pub hosts: Seq<HostView>,
    pub env: Seq<Pair>,
    pub inventory: Seq<char>,
    pub bastion: Seq<char>,
    pub user: Seq<char>,
    pub pass: Seq<char>,
    pub id_file: Seq<char>,
    pub name: Seq<char>,
}

impl View for Network {
    type V = NetworkView;

    open spec fn view(&self) -> NetworkView {
        NetworkView {
            hosts: self.hosts.deep_view(),
            env: self.env@,
            inventory: self.inventory@,
            bastion: self.bastion@,
            user: self.user@,
            pass: self.pass@,
            id_file: self.id_file@,
            name: self.name@,
        }
    }
}

impl DeepView for Network {
    type V = NetworkView;

    open spec fn deep_view(&self) -> NetworkView {
        self@
    }
}

impl Clone for Network {
    fn clone(&self) -> (r: Self)
        ensures
            r@ == self@,
    {
        Network {
            hosts: clone_hosts(&self.hosts),
            env: self.env.clone(),
            inventory: self.inventory.clone(),
            bastion: self.bastion.clone(),
            user: self.user.clone(),
            pass: self.pass.clone(),
            id_file: self.id_file.clone(),
            name: self.name.clone(),
        }
    }
}

/// The network that holds nothing and has no name.
pub open spec fn empty_network() -> NetworkView {
    NetworkView {
        hosts: Seq::empty(),
        env: Seq::empty(),
        inventory: Seq::empty(),
        bastion: Seq::empty(),
        user: Seq::empty(),
        pass: Seq::empty(),
        id_file: Seq::empty(),
        name: Seq::empty(),
    }
}

impl Default for Network {
    fn default() -> (r: Self)
        ensures
            r@ == empty_network(),
    {
        let r = Network {
            hosts: Vec::new(),
            env: EnvList::new(),
            inventory: String::new(),
            bastion: String::new(),
            user: String::new(),
            pass: String::new(),
            id_file: String::new(),
            name: String::new(),
        };
        assert(r.hosts.deep_view() =~= Seq::<HostView>::empty());
        assert(r.env@ =~= Seq::<Pair>::empty());
        r
    }
}

/// The networks of a manifest, by name, with the names in the order in
/// which they were added.
#[derive(Debug, PartialEq, Eq)]
pub struct Networks {
    pub names: Vec<String>,
    pub nets: NameMap<Network>,
}

/// The networks of a manifest as plain values.
pub struct NetworksView {
    pub names: Seq<Seq<char>>,
    pub nets: Seq<(Seq<char>, NetworkView)>,
}

impl View for Networks {
    type V = NetworksView;

    open spec fn view(&self) -> NetworksView {
        NetworksView { names: self.names.deep_view(), nets: self.nets.deep_view() }
    }
}

/// A network that has hosts and a name and nothing else.
pub open spec fn bare_network(name: Seq<char>, hosts: Seq<HostView>) -> NetworkView {
    NetworkView { hosts, name, ..empty_network() }
}

impl Networks {
    /// The networks that hold one network: one called `name` that has the
    /// hosts of `network` and nothing else.
    pub fn new(name: &str, network: &Network) -> (r: Networks)
        ensures
            r@ == (NetworksView {
                names: seq![name@],
                nets: seq![(name@, bare_network(name@, network@.hosts))],
            }),
    {
        let network = Network {
            hosts: clone_hosts(&network.hosts),
            env: EnvList::new(),
            inventory: String::new(),
            bastion: String::new(),
            user: String::new(),
            pass: String::new(),
            id_file: String::new(),
            name: String::from_str(name),
        };
        assert(network.env@ =~= Seq::<Pair>::empty());
        let mut networks = Networks { names: Vec::new(), nets: NameMap::new() };
        networks.add_network(String::from_str(name), network);
        assert(networks@.names =~= seq![name@]);
        assert(networks@.nets =~= seq![(name@, bare_network(name@, network@.hosts))]);
        networks
    }

    /// The network called `name`. No two networks have one name.
    pub fn get(&self, name: &str) -> (r: Option<&Network>)
        ensures
            r.deep_view() == value_of(self@.nets, name@),
            distinct_keys(self@.nets),
    {
        self.nets.get(name)
    }

    /// Whether no network was added.
    pub fn is_empty(&self) -> (r: bool)
        ensures
            r == (self@.names.len() == 0),
    {
        self.names.len() == 0
    }

    /// The network called `name`, to be changed in place.
    pub fn get_mut(&mut self, name: &str) -> (r: Option<&mut Network>)
        ensures
            final(self)@.names == old(self)@.names,
            match r {
                Some(n) => value_of(old(self)@.nets, name@) == Some(n@) && final(self)@.nets
                    == put(old(self)@.nets, name@, final(n)@),
                None => !has_key(old(self)@.nets, name@) && final(self)@.nets == old(self)@.nets,
            },
    {
        self.nets.get_mut(name)
    }

    /// Adds `network` under `name`. The name is recorded once more; a
    /// network already known by that name is replaced.
    pub fn add_network(&mut self, name: String, network: Network)
        ensures
            final(self)@ == (NetworksView {
                names: old(self)@.names.push(name@),
                nets: put(old(self)@.nets, name@, network@),
            }),
    {
        self.names.push(name.clone());
        self.nets.insert(name, network);
        assert(self@.names =~= old(self)@.names.push(name@));
    }
}

/// A host as a manifest states it: as a host line, or field by field.
#[derive(Debug, PartialEq, Eq)]
pub enum HostEntry {
    Simple(String),
    Detailed(Host),
}

/// A stated host as plain values.
pub enum HostEntryView {
    Simple(Seq<char>),
    Detailed(HostView),
}

impl View for HostEntry {
    type V = HostEntryView;

    open spec fn view(&self) -> HostEntryView {
        match *self {
            HostEntry::Simple(line) => HostEntryView::Simple(line@),
            HostEntry::Detailed(host) => HostEntryView::Detailed(host@),
        }
    }
}

impl DeepView for HostEntry {
    type V = HostEntryView;

    open spec fn deep_view(&self) -> HostEntryView {
        self@
    }
}

/// The part of a stated host that may be shown: of a host line what
/// stands before the password separator, of a host stated field by field
/// its address.
pub open spec fn entry_label(entry: HostEntryView) -> Seq<char> {
    match entry {
        HostEntryView::Simple(line) => match find(line, PASS_SEPARATOR@) {
            Some(k) => line.subrange(0, k),
            None => line,
        },
        HostEntryView::Detailed(host) => host.host,
    }
}

/// The host that a stated host stands for.
pub open spec fn entry_host(entry: HostEntryView) -> Result<HostView, GrammarError> {
    match entry {
        HostEntryView::Simple(line) => host_record(line),
        HostEntryView::Detailed(host) => Ok(host),
    }
}

impl HostEntry {
    /// The stated host without what is secret.
    pub fn to_string(&self) -> (r: String)
        ensures
            r@ == entry_label(self@),
    {
        match self {
            HostEntry::Simple(line) => {
                let chars = chars_of(line.as_str());
                let sep = chars_of(PASS_SEPARATOR);
                match find_index(&chars, &sep, 0) {
                    Some(k) => string_of(&chars, 0, k),
                    None => line.clone(),
                }
            },
            HostEntry::Detailed(host) => host.host.clone(),
        }
    }

    /// The host that the entry stands for.
    ///
    /// Fails where the entry is a host line that the grammar does not admit.
    pub fn to_host(&self) -> (r: Result<Host, GrammarError>)
        ensures
            match r {
                Ok(h) => entry_host(self@) == Ok::<HostView, GrammarError>(h@),
                Err(e) => entry_host(self@) == Err::<HostView, GrammarError>(e),
            },
    {
        match self {
            HostEntry::Simple(line) => check_hosts_form(line.as_str()),
            HostEntry::Detailed(host) => Ok(host.clone()),
        }
    }
}

/// A network as a manifest states it: everything but the hosts may be
/// left out.
#[derive(Debug, PartialEq, Eq)]
pub struct NetworkOptionalMode {
    pub hosts: Vec<HostEntry>,
    pub env: Option<EnvList>,
    pub inventory: Option<String>,
    pub bastion: Option<String>,
    pub user: Option<String>,
    pub pass: Option<String>,
    pub id_file: Option<String>,
    pub name: String,
}

/// A stated network as plain values.
pub struct NetworkStatement {
    pub hosts: Seq<HostEntryView>,
    pub env: Option<Seq<Pair>>,
    pub inventory: Option<Seq<char>>,
    pub bastion: Option<Seq<char>>,
    pub user: Option<Seq<char>>,
    pub pass: Option<Seq<char>>,
    pub id_file: Option<Seq<char>>,
    pub name: Seq<char>,
}

impl View for NetworkOptionalMode {
    type V = NetworkStatement;

    open spec fn view(&self) -> NetworkStatement {
        NetworkStatement {
            hosts: self.hosts.deep_view(),
            env: self.env.deep_view(),
            inventory: self.inventory.deep_view(),
            bastion: self.bastion.deep_view(),
            user: self.user.deep_view(),
            pass: self.pass.deep_view(),
            id_file: self.id_file.deep_view(),
            name: self.name@,
        }
    }
}

impl DeepView for NetworkOptionalMode {
    type V = NetworkStatement;

    open spec fn deep_view(&self) -> NetworkStatement {
        self@
    }
}

/// The hosts that the stated hosts from position `i` on stand for, in
/// order. The first host line that the grammar does not admit ends the
/// reading.
pub open spec fn entry_hosts(entries: Seq<HostEntryView>, i: int) -> Result<
    Seq<HostView>,
    GrammarError,
>
    decreases entries.len() - i,
{
    if i < 0 || i >= entries.len() {
        Ok(Seq::empty())
    } else {
        match entry_host(entries[i]) {
            Err(e) => Err(e),
            Ok(h) => match entry_hosts(entries, i + 1) {
                Ok(rest) => Ok(seq![h] + rest),
                Err(e) => Err(e),
            },
        }
    }
}

/// `found`, then what `rest` gives.
pub open spec fn entries_then(found: Seq<HostView>, rest: Result<Seq<HostView>, GrammarError>) -> Result<
    Seq<HostView>,
    GrammarError,
> {
    match rest {
        Ok(more) => Ok(found + more),
        Err(e) => Err(e),
    }
}

/// What was stated, or nothing.
pub open spec fn stated_text(stated: Option<Seq<char>>) -> Seq<char> {
    match stated {
        Some(s) => s,
        None => Seq::empty(),
    }
}

/// The network that a statement stands for: what is left out is empty.
pub open spec fn network_of_statement(stated: NetworkStatement) -> Result<
    NetworkView,
    GrammarError,
> {
    match entry_hosts(stated.hosts, 0) {
        Err(e) => Err(e),
        Ok(hosts) => Ok(
            NetworkView {
                hosts,
                env: match stated.env {
                    Some(e) => e,
                    None => Seq::empty(),
                },
                inventory: stated_text(stated.inventory),
                bastion: stated_text(stated.bastion),
                user: stated_text(stated.user),
                pass: stated_text(stated.pass),
                id_file: stated_text(stated.id_file),
                name: stated.name,
            },
        ),
    }
}

/// The networks once the statements from position `i` on are added, one
/// after the other.
pub open spec fn networks_from(
    networks: NetworksView,
    stated: Seq<NetworkStatement>,
    i: int,
) -> Result<NetworksView, GrammarError>
    decreases stated.len() - i,
{
    if i < 0 || i >= stated.len() {
        Ok(networks)
    } else {
        match network_of_statement(stated[i]) {
            Err(e) => Err(e),
            Ok(n) => networks_from(
                NetworksView {
                    names: networks.names.push(stated[i].name),
                    nets: put(networks.nets, stated[i].name, n),
                },
                stated,
                i + 1,
            ),
        }
    }
}

fn text_or_empty(stated: &Option<String>) -> (r: String)
    ensures
        r@ == stated_text(stated.deep_view()),
{
    match stated {
        Some(s) => s.clone(),
        None => String::new(),
    }
}

impl Network {
    /// The network that a manifest's statement stands for.
    ///
    /// Fails on the first host line that the grammar does not admit.
    pub fn from_optional(stated: &NetworkOptionalMode) -> (r: Result<Network, GrammarError>)
        ensures
            match r {
                Ok(n) => network_of_statement(stated@) == Ok::<NetworkView, GrammarError>(n@),
                Err(e) => network_of_statement(stated@) == Err::<NetworkView, GrammarError>(e),
            },
    {
        let ghost all = stated@.hosts;
        let mut hosts: Vec<Host> = Vec::new();
        let mut i: usize = 0;
        proof {
            assert(hosts.deep_view() =~= Seq::<HostView>::empty());
            match entry_hosts(all, 0) {
                Ok(more) => {
                    assert(hosts.deep_view() + more =~= more);
                },
                Err(_) => {},
            }
        }
        while i < stated.hosts.len()
            invariant
                i <= stated.hosts.len(),
                all == stated@.hosts,
                entries_then(hosts.deep_view(), entry_hosts(all, i as int)) == entry_hosts(all, 0),
            decreases stated.hosts.len() - i,
        {
            let ghost before = hosts.deep_view();
            assert(all[i as int] == stated.hosts@[i as int]@);
            match stated.hosts[i].to_host() {
                Ok(h) => {
                    hosts.push(h);
                    proof {
                        assert(hosts.deep_view() =~= before.push(h@));
                        match entry_hosts(all, i + 1) {
                            Ok(rest) => {
                                assert(before + (seq![h@] + rest) =~= before.push(h@) + rest);
                            },
                            Err(_) => {},
                        }
                    }
                },
                Err(e) => {
                    return Err(e);
                },
            }
            i += 1;
        }
        proof {
            assert(hosts.deep_view() + Seq::<HostView>::empty() =~= hosts.deep_view());
        }
        let env = match &stated.env {
            Some(e) => e.clone(),
            None => EnvList::new(),
        };
        assert(stated.env is None ==> env@ =~= Seq::<Pair>::empty());
        Ok(
            Network {
                hosts,
                env,
                inventory: text_or_empty(&stated.inventory),
                bastion: text_or_empty(&stated.bastion),
                user: text_or_empty(&stated.user),
                pass: text_or_empty(&stated.pass),
                id_file: text_or_empty(&stated.id_file),
                name: stated.name.clone(),
            },
        )
    }
}

impl Networks {
    /// The networks that a manifest states, in the order of the
    /// statements. Each network is known by the name of its statement.
    ///
    /// Fails on the first host line that the grammar does not admit.
    pub fn from_entries(stated: &Vec<NetworkOptionalMode>) -> (r: Result<Networks, GrammarError>)
        ensures
            match r {
                Ok(n) => networks_from(
                    NetworksView { names: Seq::empty(), nets: Seq::empty() },
                    stated.deep_view(),
                    0,
                ) == Ok::<NetworksView, GrammarError>(n@),
                Err(e) => networks_from(
                    NetworksView { names: Seq::empty(), nets: Seq::empty() },
                    stated.deep_view(),
                    0,
                ) == Err::<NetworksView, GrammarError>(e),
            },
    {
        let ghost all = stated.deep_view();
        let mut networks = Networks { names: Vec::new(), nets: NameMap::new() };
        assert(networks@.names =~= Seq::<Seq<char>>::empty());
        let mut i: usize = 0;
        while i < stated.len()
            invariant
                i <= stated.len(),
                all == stated.deep_view(),
                networks_from(networks@, all, i as int) == networks_from(
                    NetworksView { names: Seq::empty(), nets: Seq::empty() },
                    all,
                    0,
                ),
            decreases stated.len() - i,
        {
            assert(all[i as int] == stated@[i as int]@);
            match Network::from_optional(&stated[i]) {
                Ok(n) => {
                    networks.add_network(stated[i].name.clone(), n);
                },
                Err(e) => {
                    return Err(e);
                },
            }
            i += 1;
        }
        Ok(networks)
    }
}

} // verus!
