//! The part of an SSH client configuration that the planner reads.
//!
//! The text is read line by line. A line is blank, or it begins with one
//! of the keywords `Host`, `HostName`, `User`, `Port`, `ProxyCommand`,
//! `HostKeyAlgorithms` and `IdentityFile`, written exactly so, followed by
//! whitespace and a value. `Host` opens a block and lists its patterns;
//! every other keyword sets a field of the block that was opened last.
use crate::text::{
    parse_port, port_of, split, split_text, split_words, string_of, sub_chars, text_eq, trim,
    trim_bounds, trimmed_chars, word_end, word_end_index, words,
};
use vstd::prelude::*;
use vstd::string::*;

verus! {

/// One block of the configuration: the patterns it is for and what it
/// sets for them.
#[derive(Debug, PartialEq, Eq)]
pub struct SSHHost {
    pub host: Vec<String>,
    pub host_name: Option<String>,
    pub user: Option<String>,
    pub port: u16,
    pub proxy_command: Option<String>,
    pub host_key_algorithms: Option<String>,
    pub identity_file: Option<String>,
}

/// A block as plain values.
pub struct SSHHostView {
    pub host: Seq<Seq<char>>,
    pub host_name: Option<Seq<char>>,
    pub user: Option<Seq<char>>,
    pub port: u16,
    pub proxy_command: Option<Seq<char>>,
    pub host_key_algorithms: Option<Seq<char>>,
    pub identity_file: Option<Seq<char>>,
}

impl View for SSHHost {
    type V = SSHHostView;

    open spec fn view(&self) -> SSHHostView {
        SSHHostView {
            host: self.host.deep_view(),
            host_name: self.host_name.deep_view(),
            user: self.user.deep_view(),
            port: self.port,
            proxy_command: self.proxy_command.deep_view(),
            host_key_algorithms: self.host_key_algorithms.deep_view(),
            identity_file: self.identity_file.deep_view(),
        }
    }
}

impl DeepView for SSHHost {
    type V = SSHHostView;

    open spec fn deep_view(&self) -> SSHHostView {
        self@
    }
}

impl Clone for SSHHost {
    fn clone(&self) -> (r: Self)
        ensures
            r@ == self@,
    {
        let host = self.host.clone();
        assert(host.deep_view() =~= self.host.deep_view());
        SSHHost {
            host,
            host_name: self.host_name.clone(),
            user: self.user.clone(),
            port: self.port,
            proxy_command: self.proxy_command.clone(),
            host_key_algorithms: self.host_key_algorithms.clone(),
            identity_file: self.identity_file.clone(),
        }
    }
}

/// The block that a `Host` line opens: port 22 and nothing else set.
pub open spec fn fresh_block(patterns: Seq<Seq<char>>) -> SSHHostView {
    SSHHostView {
        host: patterns,
        host_name: None,
        user: None,
        port: 22,
        proxy_command: None,
        host_key_algorithms: None,
        identity_file: None,
    }
}

impl SSHHost {
    /// The block for the given patterns, with port 22 and nothing else set.
    pub fn new(host: Vec<String>) -> (r: Self)
        ensures
            r@ == fresh_block(host.deep_view()),
    {
        SSHHost {
            host,
            host_name: None,
            user: None,
            port: 22,
            proxy_command: None,
            host_key_algorithms: None,
            identity_file: None,
        }
    }
}

/// What is wrong with a line of the configuration.
#[derive(Debug, Clone, Copy, PartialEq, Eq, Structural)]
pub enum ConfigFault {
    /// The line begins with a word that is none of the keywords.
    UnknownDirective,
    /// Nothing follows the keyword.
    ExpectedValue,
    /// The value of `Port` is no number below 65536.
    InvalidPort,
    /// The line sets a field before any `Host` line opened a block.
    OutsideBlock,
}

/// A line of the configuration that cannot be read, by its position among
/// the lines, counted from 0.
#[derive(Debug, Clone, Copy, PartialEq, Eq, Structural)]
pub struct SshConfigError {
    pub fault: ConfigFault,
    pub line: usize,
}

/// The fields of a block that take a text.
#[derive(Debug, Clone, Copy, PartialEq, Eq, Structural)]
pub enum Field {
    HostName,
    User,
    ProxyCommand,
    HostKeyAlgorithms,
    IdentityFile,
}

/// What a line asks for.
#[derive(Debug, PartialEq, Eq)]
pub enum Directive {
    Blank,
    Host { patterns: Vec<String> },
    Assign { field: Field, value: String },
    Port { port: u16 },
}

/// A directive as plain values.
pub enum DirectiveView {
    Blank,
    Host { patterns: Seq<Seq<char>> },
    Assign { field: Field, value: Seq<char> },
    Port { port: u16 },
}

impl View for Directive {
    type V = DirectiveView;

    open spec fn view(&self) -> DirectiveView {
        match *self {
            Directive::Blank => DirectiveView::Blank,
            Directive::Host { patterns } => DirectiveView::Host { patterns: patterns.deep_view() },
            Directive::Assign { field, value } => DirectiveView::Assign { field, value: value@ },
            Directive::Port { port } => DirectiveView::Port { port },
        }
    }
}

/// The field that a keyword names.
pub open spec fn field_of(key: Seq<char>) -> Option<Field> {
    if key == "HostName"@ {
        Some(Field::HostName)
    } else if key == "User"@ {
        Some(Field::User)
    } else if key == "ProxyCommand"@ {
        Some(Field::ProxyCommand)
    } else if key == "HostKeyAlgorithms"@ {
        Some(Field::HostKeyAlgorithms)
    } else if key == "IdentityFile"@ {
        Some(Field::IdentityFile)
    } else {
        None
    }
}

/// What a line asks for. The keyword is the first word of the trimmed
/// line, the value is what follows it, trimmed.
pub open spec fn directive_of(line: Seq<char>) -> Result<DirectiveView, ConfigFault> {
    let t = trim(line);
    if t.len() == 0 {
        Ok(DirectiveView::Blank)
    } else {
        let key = t.subrange(0, word_end(t, 0));
        let rest = trim(t.subrange(word_end(t, 0), t.len() as int));
        if key == "Host"@ {
            if rest.len() == 0 {
                Err(ConfigFault::ExpectedValue)
            } else {
                Ok(DirectiveView::Host { patterns: words(rest) })
            }
        } else if key == "Port"@ {
            if rest.len() == 0 {
                Err(ConfigFault::ExpectedValue)
            } else {
                match port_of(rest) {
                    Some(port) => Ok(DirectiveView::Port { port }),
                    None => Err(ConfigFault::InvalidPort),
                }
            }
        } else {
            match field_of(key) {
                Some(field) => if rest.len() == 0 {
                    Err(ConfigFault::ExpectedValue)
                } else {
                    Ok(DirectiveView::Assign { field, value: rest })
                },
                None => Err(ConfigFault::UnknownDirective),
            }
        }
    }
}

/// The block with one of its text fields set.
pub open spec fn with_field(block: SSHHostView, field: Field, value: Seq<char>) -> SSHHostView {
    match field {
        Field::HostName => SSHHostView { host_name: Some(value), ..block },
        Field::User => SSHHostView { user: Some(value), ..block },
        Field::ProxyCommand => SSHHostView { proxy_command: Some(value), ..block },
        Field::HostKeyAlgorithms => SSHHostView { host_key_algorithms: Some(value), ..block },
        Field::IdentityFile => SSHHostView { identity_file: Some(value), ..block },
    }
}

/// The blocks once a directive is carried out: `Host` opens a new block
/// behind the others, every other directive changes the last block.
pub open spec fn applied(blocks: Seq<SSHHostView>, d: DirectiveView) -> Result<
    Seq<SSHHostView>,
    ConfigFault,
> {
    match d {
        DirectiveView::Blank => Ok(blocks),
        DirectiveView::Host { patterns } => Ok(blocks.push(fresh_block(patterns))),
        DirectiveView::Assign { field, value } => if blocks.len() == 0 {
            Err(ConfigFault::OutsideBlock)
        } else {
            Ok(blocks.drop_last().push(with_field(blocks.last(), field, value)))
        },
        DirectiveView::Port { port } => if blocks.len() == 0 {
            Err(ConfigFault::OutsideBlock)
        } else {
            Ok(blocks.drop_last().push(SSHHostView { port, ..blocks.last() }))
        },
    }
}

/// The blocks once the lines from position `i` on are carried out, or the
/// first line that cannot be, with what is wrong with it.
pub open spec fn config_from(blocks: Seq<SSHHostView>, lines: Seq<Seq<char>>, i: int) -> Result<
    Seq<SSHHostView>,
    (ConfigFault, int),
>
    decreases lines.len() - i,
{
    if i < 0 || i >= lines.len() {
        Ok(blocks)
    } else {
        match directive_of(lines[i]) {
            Err(fault) => Err((fault, i)),
            Ok(d) => match applied(blocks, d) {
                Err(fault) => Err((fault, i)),
                Ok(next) => config_from(next, lines, i + 1),
            },
        }
    }
}

/// The blocks of a configuration, in the order in which they are opened.
pub open spec fn config_blocks(text: Seq<char>) -> Result<Seq<SSHHostView>, (ConfigFault, int)> {
    config_from(Seq::empty(), split(text, "\n"@), 0)
}

/// The value behind a keyword.
///
/// Fails where nothing follows the keyword.
pub fn expect_value(rest: &Vec<char>) -> (r: Result<String, ConfigFault>)
    ensures
        match r {
            Ok(v) => rest@.len() > 0 && v@ == rest@,
            Err(fault) => rest@.len() == 0 && fault == ConfigFault::ExpectedValue,
        },
{
    if rest.len() == 0 {
        Err(ConfigFault::ExpectedValue)
    } else {
        assert(rest@.subrange(0, rest@.len() as int) =~= rest@);
        Ok(string_of(rest, 0, rest.len()))
    }
}

/// The field that a keyword names.
pub fn keyword_field(key: &str) -> (r: Option<Field>)
    ensures
        r == field_of(key@),
{
    if text_eq(key, "HostName") {
        Some(Field::HostName)
    } else if text_eq(key, "User") {
        Some(Field::User)
    } else if text_eq(key, "ProxyCommand") {
        Some(Field::ProxyCommand)
    } else if text_eq(key, "HostKeyAlgorithms") {
        Some(Field::HostKeyAlgorithms)
    } else if text_eq(key, "IdentityFile") {
        Some(Field::IdentityFile)
    } else {
        None
    }
}

/// Reads what one line asks for.
pub fn read_directive(line: &str) -> (r: Result<Directive, ConfigFault>)
    ensures
        match r {
            Ok(d) => directive_of(line@) == Ok::<DirectiveView, ConfigFault>(d@),
            Err(fault) => directive_of(line@) == Err::<DirectiveView, ConfigFault>(fault),
        },
{
    let t = trimmed_chars(line);
    if t.len() == 0 {
        return Ok(Directive::Blank);
    }
    let k: usize = word_end_index(&t, 0);
    let key = string_of(&t, 0, k);
    let tail = sub_chars(&t, k, t.len());
    let bounds = trim_bounds(&tail);
    let rest = sub_chars(&tail, bounds.0, bounds.1);
    assert(rest@ == trim(t@.subrange(k as int, t@.len() as int)));
    if text_eq(key.as_str(), "Host") {
        let value = match expect_value(&rest) {
            Ok(v) => v,
            Err(fault) => {
                return Err(fault);
            },
        };
        Ok(Directive::Host { patterns: split_words(value.as_str()) })
    } else if text_eq(key.as_str(), "Port") {
        let value = match expect_value(&rest) {
            Ok(v) => v,
            Err(fault) => {
                return Err(fault);
            },
        };
        match parse_port(value.as_str()) {
            Some(port) => Ok(Directive::Port { port }),
            None => Err(ConfigFault::InvalidPort),
        }
    } else {
        match keyword_field(key.as_str()) {
            Some(field) => match expect_value(&rest) {
                Ok(value) => Ok(Directive::Assign { field, value }),
                Err(fault) => Err(fault),
            },
            None => Err(ConfigFault::UnknownDirective),
        }
    }
}

/// Carries out one directive on the blocks read so far.
///
/// Fails, and leaves the blocks as they were, where the directive sets a
/// field and no block is open.
pub fn apply_directive(blocks: &mut Vec<SSHHost>, directive: Directive) -> (r: Result<
    (),
    ConfigFault,
>)
    ensures
        match applied(old(blocks).deep_view(), directive@) {
            Ok(next) => r is Ok && final(blocks).deep_view() == next,
            Err(fault) => r == Err::<(), ConfigFault>(fault) && final(blocks).deep_view() == old(
                blocks,
            ).deep_view(),
        },
{
    let ghost before = blocks.deep_view();
    match directive {
        Directive::Blank => Ok(()),
        Directive::Host { patterns } => {
            blocks.push(SSHHost::new(patterns));
            assert(blocks.deep_view() =~= before.push(fresh_block(patterns.deep_view())));
            Ok(())
        },
        Directive::Assign { field, value } => {
            let mut block = match blocks.pop() {
                Some(b) => b,
                None => {
                    assert(blocks.deep_view() =~= before);
                    return Err(ConfigFault::OutsideBlock);
                },
            };
            assert(blocks.deep_view() =~= before.drop_last());
            assert(block@ == before.last());
            match field {
                Field::HostName => {
                    block.host_name = Some(value);
                },
                Field::User => {
                    block.user = Some(value);
                },
                Field::ProxyCommand => {
                    block.proxy_command = Some(value);
                },
                Field::HostKeyAlgorithms => {
                    block.host_key_algorithms = Some(value);
                },
                Field::IdentityFile => {
                    block.identity_file = Some(value);
                },
            }
            blocks.push(block);
            assert(blocks.deep_view() =~= before.drop_last().push(block@));
            Ok(())
        },
        Directive::Port { port } => {
            let mut block = match blocks.pop() {
                Some(b) => b,
                None => {
                    assert(blocks.deep_view() =~= before);
                    return Err(ConfigFault::OutsideBlock);
                },
            };
            assert(blocks.deep_view() =~= before.drop_last());
            assert(block@ == before.last());
            block.port = port;
            blocks.push(block);
            assert(blocks.deep_view() =~= before.drop_last().push(block@));
            Ok(())
        },
    }
}

/// Reads the blocks of a configuration.
///
/// Fails on the first line that cannot be carried out: one that begins
/// with an unknown word, lacks its value, gives a port that is no number
/// below 65536, or sets a field before any block is open.
pub fn parse(input: &str) -> (r: Result<Vec<SSHHost>, SshConfigError>)
    ensures
        match r {
            Ok(blocks) => config_blocks(input@) == Ok::<Seq<SSHHostView>, (ConfigFault, int)>(
                blocks.deep_view(),
            ),
            Err(e) => config_blocks(input@) == Err::<Seq<SSHHostView>, (ConfigFault, int)>(
                (e.fault, e.line as int),
            ),
        },
{
    let lines = split_text(input, "\n");
    let ghost all = lines.deep_view();
    let mut blocks: Vec<SSHHost> = Vec::new();
    let mut i: usize = 0;
    assert(blocks.deep_view() =~= Seq::<SSHHostView>::empty());
    while i < lines.len()
        invariant
            i <= lines.len(),
            all == lines.deep_view(),
            all == split(input@, "\n"@),
            config_from(blocks.deep_view(), all, i as int) == config_blocks(input@),
        decreases lines.len() - i,
    {
        assert(all[i as int] == lines@[i as int]@);
        let directive = match read_directive(lines[i].as_str()) {
            Ok(d) => d,
            Err(fault) => {
                return Err(SshConfigError { fault, line: i });
            },
        };
        match apply_directive(&mut blocks, directive) {
            Ok(_) => {},
            Err(fault) => {
                return Err(SshConfigError { fault, line: i });
            },
        }
        i += 1;
    }
    Ok(blocks)
}

/// The blocks of a configuration that is known to be well formed.
pub fn must_parse_ssh_config(input: &str) -> (r: Vec<SSHHost>)
    requires
        config_blocks(input@) is Ok,
    ensures
        config_blocks(input@) == Ok::<Seq<SSHHostView>, (ConfigFault, int)>(r.deep_view()),
{
    match parse(input) {
        Ok(blocks) => blocks,
        Err(_) => vstd::pervasive::unreached(),
    }
}

} // verus!
