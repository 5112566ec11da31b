//! The commands of a manifest.
use crate::entity::env::{EnvList, Pair};
use crate::entity::supfile::{FetchEntry, TransferView, UploadEntry};
use crate::text::{string_of, trim, trimmed_chars};
use vstd::prelude::*;
use vstd::string::*;

verus! {

/// A named piece of work: what to run, what to copy and in which
/// environment.
#[derive(Debug, PartialEq, Eq)]
pub struct Command {
    pub desc: String,
    pub run: String,
    pub upload: Vec<UploadEntry>,
    pub fetch: FetchEntry,
    pub env: EnvList,
    pub local: String,
    pub script: String,
    pub stdin: bool,
    pub name: String,
}

/// A command as plain text.
pub struct CommandView {
    pub desc: Seq<char>,
    pub run: Seq<char>,
    pub upload: Seq<TransferView>,
    pub fetch: TransferView,
    pub env: Seq<Pair>,
    pub local: Seq<char>,
    pub script: Seq<char>,
    pub stdin: bool,
    pub name: Seq<char>,
}

impl View for Command {
    type V = CommandView;

    open spec fn view(&self) -> CommandView {
        CommandView {
            desc: self.desc@,
            run: self.run@,
            upload: self.upload.deep_view(),
            fetch: self.fetch@,
            env: self.env@,
            local: self.local@,
            script: self.script@,
            stdin: self.stdin,
            name: self.name@,
        }
    }
}

impl DeepView for Command {
    type V = CommandView;

    open spec fn deep_view(&self) -> CommandView {
        self@
    }
}

impl Clone for Command {
    fn clone(&self) -> (r: Self)
        ensures
            r@ == self@,
    {
        let upload = self.upload.clone();
        assert(upload.deep_view() =~= self.upload.deep_view());
        Command {
            desc: self.desc.clone(),
            run: self.run.clone(),
            upload,
            fetch: self.fetch.clone(),
            env: self.env.clone(),
            local: self.local.clone(),
            script: self.script.clone(),
            stdin: self.stdin,
            name: self.name.clone(),
        }
    }
}

/// A command as a manifest states it: every part may be left out.
#[derive(Debug, PartialEq, Eq)]
pub struct CommandOptionalMode {
    pub desc: Option<String>,
    pub run: Option<String>,
    pub upload: Option<Vec<UploadEntry>>,
    pub fetch: Option<FetchEntry>,
    pub env: Option<EnvList>,
    pub local: Option<String>,
    pub script: Option<String>,
    pub stdin: Option<bool>,
    pub name: Option<String>,
}

/// The text that was stated, or `default`.
pub open spec fn text_or(stated: Option<String>, default: Seq<char>) -> Seq<char> {
    match stated {
        Some(s) => s@,
        None => default,
    }
}

/// The command that a statement stands for: what is left out is empty,
/// `false`, or, for the description, `no description`.
pub open spec fn command_of_statement(stated: CommandOptionalMode) -> CommandView {
    CommandView {
        desc: text_or(stated.desc, "no description"@),
        run: text_or(stated.run, Seq::empty()),
        upload: match stated.upload {
            Some(u) => u.deep_view(),
            None => Seq::empty(),
        },
        fetch: match stated.fetch {
            Some(f) => f@,
            None => TransferView { src: Seq::empty(), dst: Seq::empty() },
        },
        env: match stated.env {
            Some(e) => e@,
            None => Seq::empty(),
        },
        local: text_or(stated.local, Seq::empty()),
        script: text_or(stated.script, Seq::empty()),
        stdin: match stated.stdin {
            Some(b) => b,
            None => false,
        },
        name: text_or(stated.name, Seq::empty()),
    }
}

fn stated_or(stated: &Option<String>, default: &str) -> (r: String)
    ensures
        r@ == text_or(*stated, default@),
{
    match stated {
        Some(s) => s.clone(),
        None => String::from_str(default),
    }
}

impl Command {
    /// The command that a manifest's statement stands for.
    pub fn from_optional(stated: &CommandOptionalMode) -> (r: Command)
        ensures
            r@ == command_of_statement(*stated),
    {
        proof {
            reveal_strlit("");
        }
        let upload: Vec<UploadEntry> = match &stated.upload {
            Some(u) => {
                let copy = u.clone();
                assert(copy.deep_view() =~= u.deep_view());
                copy
            },
            None => Vec::new(),
        };
        let fetch = match &stated.fetch {
            Some(f) => f.clone(),
            None => FetchEntry { src: String::new(), dst: String::new() },
        };
        let env = match &stated.env {
            Some(e) => e.clone(),
            None => EnvList::new(),
        };
        let r = Command {
            desc: stated_or(&stated.desc, "no description"),
            run: stated_or(&stated.run, ""),
            upload,
            fetch,
            env,
            local: stated_or(&stated.local, ""),
            script: stated_or(&stated.script, ""),
            stdin: match stated.stdin {
                Some(b) => b,
                None => false,
            },
            name: stated_or(&stated.name, ""),
        };
        assert(r@.upload =~= command_of_statement(*stated).upload);
        assert(r@.env =~= command_of_statement(*stated).env);
        assert(r@.run =~= command_of_statement(*stated).run);
        assert(r@.local =~= command_of_statement(*stated).local);
        assert(r@.script =~= command_of_statement(*stated).script);
        assert(r@.name =~= command_of_statement(*stated).name);
        r
    }

    /// The command's description, trimmed.
    pub fn to_string(&self) -> (r: String)
        ensures
            r@ == trim(self.desc@),
    {
        let chars = trimmed_chars(self.desc.as_str());
        assert(chars@.subrange(0, chars@.len() as int) =~= chars@);
        string_of(&chars, 0, chars.len())
    }
}

} // verus!
