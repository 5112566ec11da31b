//! Which scripts of a manifest are handed to a script checker.
use crate::entity::supfile::commands::{Command, CommandView};
use crate::entity::InitState;
use crate::text::{chars_of, contains, find_index, split, split_text, string_of, trim, trimmed_chars};
use vstd::prelude::*;
use vstd::string::*;

verus! {

/// A script whose first line names a shell that the checker does not
/// know, or asks for no check, is not checked.
pub open spec fn skips_shellcheck(first_line: Seq<char>) -> bool {
    contains(first_line, "fish"@) || contains(first_line, "nu"@) || contains(first_line, "nosc"@)
}

/// Whether a script with this first line is left unchecked.
pub fn should_skip_shellcheck(first_line: &str) -> (r: bool)
    ensures
        r == skips_shellcheck(first_line@),
{
    let chars = chars_of(first_line);
    let fish = chars_of("fish");
    let nu = chars_of("nu");
    let nosc = chars_of("nosc");
    find_index(&chars, &fish, 0).is_some() || find_index(&chars, &nu, 0).is_some() || find_index(
        &chars,
        &nosc,
        0,
    ).is_some()
}

/// The first line of a text.
pub open spec fn first_line(text: Seq<char>) -> Seq<char> {
    split(text, "\n"@)[0]
}

/// The scripts to check among `bodies` from position `i` on: each body is
/// trimmed; an empty one is passed over; the first one that is left
/// unchecked ends the list.
pub open spec fn scripts_from(bodies: Seq<Seq<char>>, i: int) -> Seq<Seq<char>>
    decreases bodies.len() - i,
{
    if i < 0 || i >= bodies.len() {
        Seq::empty()
    } else if trim(bodies[i]).len() == 0 {
        scripts_from(bodies, i + 1)
    } else if skips_shellcheck(first_line(trim(bodies[i]))) {
        Seq::empty()
    } else {
        seq![trim(bodies[i])] + scripts_from(bodies, i + 1)
    }
}

/// The scripts of a command that are checked: of `run`, `script` and
/// `local`, in this order.
pub open spec fn scripts_to_check(command: CommandView) -> Seq<Seq<char>> {
    scripts_from(seq![command.run, command.script, command.local], 0)
}

/// The scripts of a command that are to be checked, trimmed.
pub fn checks_for(command: &Command) -> (r: Vec<String>)
    ensures
        r.deep_view() == scripts_to_check(command@),
{
    let ghost bodies = seq![command@.run, command@.script, command@.local];
    let mut out: Vec<String> = Vec::new();
    let mut i: usize = 0;
    assert(out.deep_view() =~= Seq::<Seq<char>>::empty());
    assert(out.deep_view() + scripts_from(bodies, 0) =~= scripts_from(bodies, 0));
    while i < 3
        invariant
            i <= 3,
            bodies == seq![command@.run, command@.script, command@.local],
            out.deep_view() + scripts_from(bodies, i as int) == scripts_to_check(command@),
        decreases 3 - i,
    {
        let ghost before = out.deep_view();
        let body: &String = if i == 0 {
            &command.run
        } else if i == 1 {
            &command.script
        } else {
            &command.local
        };
        assert(body@ == bodies[i as int]);
        let chars = trimmed_chars(body.as_str());
        if chars.len() > 0 {
            assert(chars@.subrange(0, chars@.len() as int) =~= chars@);
            let trimmed = string_of(&chars, 0, chars.len());
            let lines = split_text(trimmed.as_str(), "\n");
            assert(lines.deep_view()[0] == lines@[0]@);
            if should_skip_shellcheck(lines[0].as_str()) {
                assert(out.deep_view() + Seq::<Seq<char>>::empty() =~= out.deep_view());
                return out;
            }
            out.push(trimmed);
            assert(out.deep_view() =~= before.push(trim(bodies[i as int])));
            assert(before + (seq![trim(bodies[i as int])] + scripts_from(bodies, i + 1))
                =~= before.push(trim(bodies[i as int])) + scripts_from(bodies, i + 1));
        }
        i += 1;
    }
    assert(out.deep_view() + Seq::<Seq<char>>::empty() =~= out.deep_view());
    out
}

/// A script that is to be checked, with the name of its command.
#[derive(Debug, PartialEq, Eq)]
pub struct ScriptCheck {
    pub command_name: String,
    pub content: String,
}

impl View for ScriptCheck {
    type V = (Seq<char>, Seq<char>);

    open spec fn view(&self) -> (Seq<char>, Seq<char>) {
        (self.command_name@, self.content@)
    }
}

impl DeepView for ScriptCheck {
    type V = (Seq<char>, Seq<char>);

    open spec fn deep_view(&self) -> (Seq<char>, Seq<char>) {
        self@
    }
}

/// Each script with the name of its command.
pub open spec fn named_scripts(name: Seq<char>, scripts: Seq<Seq<char>>) -> Seq<
    (Seq<char>, Seq<char>),
> {
    Seq::new(scripts.len(), |k: int| (name, scripts[k]))
}

/// The checks of the commands from position `i` on, command by command.
pub open spec fn checks_from(commands: Seq<(Seq<char>, CommandView)>, i: int) -> Seq<
    (Seq<char>, Seq<char>),
>
    decreases commands.len() - i,
{
    if i < 0 || i >= commands.len() {
        Seq::empty()
    } else {
        named_scripts(commands[i].0, scripts_to_check(commands[i].1)) + checks_from(
            commands,
            i + 1,
        )
    }
}

/// The scripts of the manifest that are to be checked, command by
/// command in the order of the manifest, each with the name of its command.
pub fn run_shellcheck(init_state: &InitState) -> (r: Vec<ScriptCheck>)
    ensures
        r.deep_view() == checks_from(init_state@.supfile.commands, 0),
{
    let ghost commands = init_state@.supfile.commands;
    let mut out: Vec<ScriptCheck> = Vec::new();
    let n: usize = init_state.supfile.commands.len();
    let mut i: usize = 0;
    assert(out.deep_view() =~= Seq::<(Seq<char>, Seq<char>)>::empty());
    assert(out.deep_view() + checks_from(commands, 0) =~= checks_from(commands, 0));
    while i < n
        invariant
            i <= n,
            n == commands.len(),
            commands == init_state@.supfile.commands,
            out.deep_view() + checks_from(commands, i as int) == checks_from(commands, 0),
        decreases n - i,
    {
        let ghost before = out.deep_view();
        let name = init_state.supfile.commands.name_at(i);
        let scripts = checks_for(init_state.supfile.commands.value_at(i));
        let ghost wanted = named_scripts(commands[i as int].0, scripts_to_check(commands[i as int].1));
        let mut k: usize = 0;
        while k < scripts.len()
            invariant
                k <= scripts.len(),
                name@ == commands[i as int].0,
                scripts.deep_view() == scripts_to_check(commands[i as int].1),
                wanted == named_scripts(commands[i as int].0, scripts_to_check(commands[i as int].1)),
                out.deep_view() =~= before + wanted.take(k as int),
            decreases scripts.len() - k,
        {
            let ghost sofar = out.deep_view();
            assert(scripts.deep_view()[k as int] == scripts@[k as int]@);
            out.push(ScriptCheck { command_name: name.clone(), content: scripts[k].clone() });
            assert(out.deep_view() =~= sofar.push(wanted[k as int]));
            k += 1;
        }
        assert(wanted.take(scripts@.len() as int) =~= wanted);
        assert(before + (wanted + checks_from(commands, i + 1)) =~= (before + wanted) + checks_from(
            commands,
            i + 1,
        ));
        i += 1;
    }
    assert(out.deep_view() + Seq::<(Seq<char>, Seq<char>)>::empty() =~= out.deep_view());
    out
}

} // verus!
