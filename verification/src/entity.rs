//! The data the planner works on.
pub mod const_values;
pub mod env;
pub mod help_displayer;
pub mod keyed;
pub mod playbook;
pub mod supfile;

use crate::entity::env::{EnvList, Pair};
use crate::entity::keyed::put;
use crate::text::{chars_of, find, find_index, string_of};
use vstd::prelude::*;
use vstd::string::*;

verus! {

/// What the command line asked for, besides the positional arguments.
#[derive(Debug, PartialEq, Eq)]
pub struct CommandLineArgs {
    pub file: String,
    pub env: Vec<String>,
    pub debug: bool,
    pub sshconfig: String,
    pub disablecolor: bool,
    pub disableprefix: bool,
    pub excepthosts: String,
    pub onlyhosts: String,
    pub extra_args: Vec<String>,
}

/// The command line as plain values.
pub struct CommandLineArgsView {
    pub file: Seq<char>,
    pub env: Seq<Seq<char>>,
    pub debug: bool,
    pub sshconfig: Seq<char>,
    pub disablecolor: bool,
    pub disableprefix: bool,
    pub excepthosts: Seq<char>,
    pub onlyhosts: Seq<char>,
    pub extra_args: Seq<Seq<char>>,
}

impl View for CommandLineArgs {
    type V = CommandLineArgsView;

    open spec fn view(&self) -> CommandLineArgsView {
        CommandLineArgsView {
            file: self.file@,
            env: self.env.deep_view(),
            debug: self.debug,
            sshconfig: self.sshconfig@,
            disablecolor: self.disablecolor,
            disableprefix: self.disableprefix,
            excepthosts: self.excepthosts@,
            onlyhosts: self.onlyhosts@,
            extra_args: self.extra_args.deep_view(),
        }
    }
}

/// The variable that `KEY=VALUE` assigns: the key stands before the first
/// `=`, the value behind it. A text without `=` assigns nothing.
pub open spec fn assignment(s: Seq<char>) -> Option<Pair> {
    match find(s, "="@) {
        Some(k) => Some((s.subrange(0, k), s.subrange(k + 1, s.len() as int))),
        None => None,
    }
}

/// `env` after the assignments among `args` from position `i` on were
/// made, one after the other.
pub open spec fn assigned(env: Seq<Pair>, args: Seq<Seq<char>>, i: int) -> Seq<Pair>
    decreases args.len() - i,
{
    if i < 0 || i >= args.len() {
        env
    } else {
        match assignment(args[i]) {
            Some(p) => assigned(put(env, p.0, p.1), args, i + 1),
            None => assigned(env, args, i + 1),
        }
    }
}

impl CommandLineArgs {
    /// The variables given with `--env`, in the order in which their keys
    /// first occur. Of two assignments to one key the later one counts;
    /// what is no assignment is passed over.
    pub fn parse_env(&self) -> (r: EnvList)
        ensures
            r@ == assigned(Seq::empty(), self@.env, 0),
    {
        proof {
            reveal_strlit("=");
        }
        let ghost args = self.env.deep_view();
        let eq = chars_of("=");
        let mut out = EnvList::new();
        assert(out@ =~= Seq::<Pair>::empty());
        let mut i: usize = 0;
        while i < self.env.len()
            invariant
                i <= self.env.len(),
                args == self.env.deep_view(),
                eq@ == "="@,
                eq@.len() == 1,
                assigned(out@, args, i as int) == assigned(Seq::empty(), args, 0),
            decreases self.env.len() - i,
        {
            assert(args[i as int] == self.env@[i as int]@);
            let chars = chars_of(self.env[i].as_str());
            match find_index(&chars, &eq, 0) {
                Some(k) => {
                    let key = string_of(&chars, 0, k);
                    let value = string_of(&chars, k + 1, chars.len());
                    out.set(key, value);
                },
                None => {},
            }
            i += 1;
        }
        out
    }
}

/// Everything one invocation starts from.
#[derive(Debug, PartialEq, Eq)]
pub struct InitState {
    pub args: Vec<String>,
    pub flags: CommandLineArgs,
    pub supfile: supfile::Supfile,
    pub make_mode: bool,
}

/// An invocation as plain values.
pub struct InitStateView {
    pub args: Seq<Seq<char>>,
    pub flags: CommandLineArgsView,
    pub supfile: supfile::SupfileView,
    pub make_mode: bool,
}

impl View for InitState {
    type V = InitStateView;

    open spec fn view(&self) -> InitStateView {
        InitStateView {
            args: self.args.deep_view(),
            flags: self.flags@,
            supfile: self.supfile@,
            make_mode: self.make_mode,
        }
    }
}

} // verus!
