//! The deployment manifest: networks, commands and targets.
pub mod commands;
pub mod networks;
pub mod targets;

use crate::entity::env::{EnvList, Pair};
use crate::entity::keyed::{distinct_keys, put, value_of, NameMap};
use crate::entity::supfile::commands::{
    command_of_statement, Command, CommandOptionalMode, CommandView,
};
use crate::entity::supfile::networks::{Networks, NetworksView};
use crate::entity::supfile::targets::{Targets, TargetsView};
use vstd::prelude::*;
use vstd::string::*;

verus! {

/// A file to copy to the hosts before a command runs.
#[derive(Debug, PartialEq, Eq)]
pub struct UploadEntry {
    pub src: String,
    pub dst: String,
}

/// A file to copy from the hosts after a command ran.
#[derive(Debug, PartialEq, Eq)]
pub struct FetchEntry {
    pub src: String,
    pub dst: String,
}

/// A file transfer as plain text.
pub struct TransferView {
    pub src: Seq<char>,
    pub dst: Seq<char>,
}

impl View for UploadEntry {
    type V = TransferView;

    open spec fn view(&self) -> TransferView {
        TransferView { src: self.src@, dst: self.dst@ }
    }
}

impl DeepView for UploadEntry {
    type V = TransferView;

    open spec fn deep_view(&self) -> TransferView {
        self@
    }
}

impl Clone for UploadEntry {
    fn clone(&self) -> (r: Self)
        ensures
            r@ == self@,
    {
        UploadEntry { src: self.src.clone(), dst: self.dst.clone() }
    }
}

impl View for FetchEntry {
    type V = TransferView;

    open spec fn view(&self) -> TransferView {
        TransferView { src: self.src@, dst: self.dst@ }
    }
}

impl DeepView for FetchEntry {
    type V = TransferView;

    open spec fn deep_view(&self) -> TransferView {
        self@
    }
}

impl Clone for FetchEntry {
    fn clone(&self) -> (r: Self)
        ensures
            r@ == self@,
    {
        FetchEntry { src: self.src.clone(), dst: self.dst.clone() }
    }
}

/// A deployment manifest.
#[derive(Debug, PartialEq, Eq)]
pub struct Supfile {
    pub desc: String,
    pub version: String,
    pub networks: Networks,
    pub env: EnvList,
    pub commands: NameMap<Command>,
    pub targets: Targets,
}

/// A manifest as plain values.
pub struct SupfileView {
    pub desc: Seq<char>,
    pub version: Seq<char>,
    pub networks: NetworksView,
    pub env: Seq<Pair>,
    pub commands: Seq<(Seq<char>, CommandView)>,
    pub targets: TargetsView,
}

impl View for Supfile {
    type V = SupfileView;

    open spec fn view(&self) -> SupfileView {
        SupfileView {
            desc: self.desc@,
            version: self.version@,
            networks: self.networks@,
            env: self.env@,
            commands: self.commands.deep_view(),
            targets: self.targets@,
        }
    }
}

impl Supfile {
    /// The command called `name`. No two commands have one name.
    pub fn get_command(&self, name: &str) -> (r: Option<&Command>)
        ensures
            r.deep_view() == value_of(self@.commands, name@),
            distinct_keys(self@.commands),
    {
        self.commands.get(name)
    }
}

/// A manifest as it is stated: only the version and the commands are
/// always there.
#[derive(Debug, PartialEq, Eq)]
pub struct SupfileStatement {
    pub version: String,
    pub desc: Option<String>,
    pub env: Option<EnvList>,
    pub networks: Option<Networks>,
    pub commands: Vec<(String, CommandOptionalMode)>,
    pub targets: Option<Targets>,
}

/// The commands once the statements from position `i` on are added, one
/// after the other. Each command is known by the name under which it
/// is stated, and carries that name.
pub open spec fn commands_from(
    commands: Seq<(Seq<char>, CommandView)>,
    stated: Seq<(String, CommandOptionalMode)>,
    i: int,
) -> Seq<(Seq<char>, CommandView)>
    decreases stated.len() - i,
{
    if i < 0 || i >= stated.len() {
        commands
    } else {
        commands_from(
            put(
                commands,
                stated[i].0@,
                CommandView { name: stated[i].0@, ..command_of_statement(stated[i].1) },
            ),
            stated,
            i + 1,
        )
    }
}

/// The manifest that a statement stands for: what is left out is empty,
/// and the description is `no description`.
pub open spec fn supfile_of_statement(stated: SupfileStatement) -> SupfileView {
    SupfileView {
        desc: match stated.desc {
            Some(d) => d@,
            None => "no description"@,
        },
        version: stated.version@,
        networks: match stated.networks {
            Some(n) => n@,
            None => NetworksView { names: Seq::empty(), nets: Seq::empty() },
        },
        env: match stated.env {
            Some(e) => e@,
            None => Seq::empty(),
        },
        commands: commands_from(Seq::empty(), stated.commands@, 0),
        targets: match stated.targets {
            Some(t) => t@,
            None => TargetsView { names: Seq::empty(), targets: Seq::empty() },
        },
    }
}

impl Supfile {
    /// The manifest that a statement stands for.
    pub fn from_statement(stated: SupfileStatement) -> (r: Supfile)
        ensures
            r@ == supfile_of_statement(stated),
    {
        let ghost all = stated.commands@;
        let mut commands: NameMap<Command> = NameMap::new();
        let mut i: usize = 0;
        while i < stated.commands.len()
            invariant
                i <= stated.commands.len(),
                all == stated.commands@,
                commands_from(commands.deep_view(), all, i as int) == commands_from(
                    Seq::empty(),
                    all,
                    0,
                ),
            decreases stated.commands.len() - i,
        {
            let mut command = Command::from_optional(&stated.commands[i].1);
            command.name = stated.commands[i].0.clone();
            commands.insert(stated.commands[i].0.clone(), command);
            i += 1;
        }
        let networks = match stated.networks {
            Some(n) => n,
            None => {
                let n = Networks { names: Vec::new(), nets: NameMap::new() };
                assert(n@.names =~= Seq::<Seq<char>>::empty());
                n
            },
        };
        let env = match stated.env {
            Some(e) => e,
            None => EnvList::new(),
        };
        assert(stated.env is None ==> env@ =~= Seq::<Pair>::empty());
        let targets = match stated.targets {
            Some(t) => t,
            None => Targets::new(),
        };
        Supfile {
            desc: match stated.desc {
                Some(d) => d,
                None => String::from_str("no description"),
            },
            version: stated.version,
            networks,
            env,
            commands,
            targets,
        }
    }
}

} // verus!
