//! The plan that is handed to the runner.
use crate::entity::supfile::commands::{Command, CommandView};
use crate::entity::supfile::networks::{empty_network, Network, NetworkView};
use vstd::prelude::*;

verus! {

/// One network and the commands to run on it, in order.
#[derive(Debug, PartialEq, Eq)]
pub struct Play {
    pub network: Network,
    pub commands: Vec<Command>,
}

/// A play as plain values.
pub struct PlayView {
    pub network: NetworkView,
    pub commands: Seq<CommandView>,
}

impl View for Play {
    type V = PlayView;

    open spec fn view(&self) -> PlayView {
        PlayView { network: self.network@, commands: self.commands.deep_view() }
    }
}

impl DeepView for Play {
    type V = PlayView;

    open spec fn deep_view(&self) -> PlayView {
        self@
    }
}

impl Clone for Play {
    fn clone(&self) -> (r: Self)
        ensures
            r@ == self@,
    {
        let commands = self.commands.clone();
        assert(commands.deep_view() =~= self.commands.deep_view());
        Play { network: self.network.clone(), commands }
    }
}

impl Default for Play {
    fn default() -> (r: Self)
        ensures
            r@ == (PlayView { network: empty_network(), commands: Seq::empty() }),
    {
        Play::new()
    }
}

impl Play {
    /// A play on the empty network, without commands.
    pub fn new() -> (r: Self)
        ensures
            r@ == (PlayView { network: empty_network(), commands: Seq::empty() }),
    {
        let r = Play { network: Network::default(), commands: Vec::new() };
        assert(r.commands.deep_view() =~= Seq::<CommandView>::empty());
        r
    }

    /// Sets the network of the play.
    pub fn add_net(&mut self, network: Network)
        ensures
            final(self)@ == (PlayView { network: network@, commands: old(self)@.commands }),
    {
        self.network = network;
    }

    /// Adds a command behind those of the play.
    pub fn add_command(&mut self, command: Command)
        ensures
            final(self)@ == (PlayView {
                network: old(self)@.network,
                commands: old(self)@.commands.push(command@),
            }),
    {
        self.commands.push(command);
        assert(self.commands.deep_view() =~= old(self).commands.deep_view().push(command@));
    }
}

/// The plays of one invocation, in order, and whether they were planned
/// for a manifest without networks.
#[derive(Debug, PartialEq, Eq)]
pub struct PlayBook {
    pub plays: Vec<Play>,
    pub is_makefile: bool,
}

/// A playbook as plain values.
pub struct PlayBookView {
    pub plays: Seq<PlayView>,
    pub is_makefile: bool,
}

impl View for PlayBook {
    type V = PlayBookView;

    open spec fn view(&self) -> PlayBookView {
        PlayBookView { plays: self.plays.deep_view(), is_makefile: self.is_makefile }
    }
}

impl Clone for PlayBook {
    fn clone(&self) -> (r: Self)
        ensures
            r@ == self@,
    {
        let plays = self.plays.clone();
        assert(plays.deep_view() =~= self.plays.deep_view());
        PlayBook { plays, is_makefile: self.is_makefile }
    }
}

impl PlayBook {
    /// A playbook without plays.
    pub fn new() -> (r: Self)
        ensures
            r@ == (PlayBookView { plays: Seq::empty(), is_makefile: false }),
    {
        let r = PlayBook { plays: Vec::new(), is_makefile: false };
        assert(r.plays.deep_view() =~= Seq::<PlayView>::empty());
        r
    }

    /// Adds a play behind those of the playbook.
    pub fn add_play(&mut self, play: Play)
        ensures
            final(self)@ == (PlayBookView {
                plays: old(self)@.plays.push(play@),
                is_makefile: old(self)@.is_makefile,
            }),
    {
        self.plays.push(play);
        assert(self.plays.deep_view() =~= old(self).plays.deep_view().push(play@));
    }

    /// The plays, in order.
    pub fn get_plays(&self) -> (r: &Vec<Play>)
        ensures
            r.deep_view() == self@.plays,
    {
        &self.plays
    }

    /// Records that the playbook was planned for a manifest without networks.
    pub fn mark_as_makefile_mode(&mut self)
        ensures
            final(self)@ == (PlayBookView { plays: old(self)@.plays, is_makefile: true }),
    {
        self.is_makefile = true;
    }
}

} // verus!
