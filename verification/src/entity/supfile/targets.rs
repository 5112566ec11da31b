//! The targets of a manifest: names for lists of commands, each bound to
//! a network.
use crate::entity::keyed::{distinct_keys, has_key, put, value_of, NameMap};
use crate::text::{split_words, words};
use vstd::prelude::*;
use vstd::string::*;

verus! {

/// One step of a target: a command and the network it is bound to.
#[derive(Debug, PartialEq, Eq)]
pub struct Target {
    pub command: String,
    pub affixed_network: String,
}

/// A step as plain text.
pub struct TargetView {
    pub command: Seq<char>,
    pub affixed_network: Seq<char>,
}

impl View for Target {
    type V = TargetView;

    open spec fn view(&self) -> TargetView {
        TargetView { command: self.command@, affixed_network: self.affixed_network@ }
    }
}

impl DeepView for Target {
    type V = TargetView;

    open spec fn deep_view(&self) -> TargetView {
        self@
    }
}

impl Clone for Target {
    fn clone(&self) -> (r: Self)
        ensures
            r@ == self@,
    {
        Target { command: self.command.clone(), affixed_network: self.affixed_network.clone() }
    }
}

/// The copy of a list of steps.
pub fn clone_targets(steps: &Vec<Target>) -> (r: Vec<Target>)
    ensures
        r.deep_view() == steps.deep_view(),
{
    let r = steps.clone();
    assert(r.deep_view() =~= steps.deep_view());
    r
}

/// A line of a target that is neither `command` nor `command network`.
#[derive(Debug, Clone, Copy, PartialEq, Eq, Structural)]
pub enum TargetLineError {
    /// The line holds no word, or more than two.
    WrongFieldCount,
}

/// What a line of a target means: a command, and the network behind it
/// if one is named.
pub open spec fn target_of_line(line: Seq<char>) -> Result<TargetView, TargetLineError> {
    let parts = words(line);
    if parts.len() == 2 {
        Ok(TargetView { command: parts[0], affixed_network: parts[1] })
    } else if parts.len() == 1 {
        Ok(TargetView { command: parts[0], affixed_network: Seq::empty() })
    } else {
        Err(TargetLineError::WrongFieldCount)
    }
}

/// Reads one line of a target.
///
/// Fails exactly on a line that holds no word or more than two.
pub fn parse_target_line(line: &str) -> (r: Result<Target, TargetLineError>)
    ensures
        match r {
            Ok(t) => target_of_line(line@) == Ok::<TargetView, TargetLineError>(t@),
            Err(e) => target_of_line(line@) == Err::<TargetView, TargetLineError>(e),
        },
{
    let parts = split_words(line);
    if parts.len() == 2 {
        assert(parts.deep_view()[0] == parts@[0]@);
        assert(parts.deep_view()[1] == parts@[1]@);
        Ok(Target { command: parts[0].clone(), affixed_network: parts[1].clone() })
    } else if parts.len() == 1 {
        assert(parts.deep_view()[0] == parts@[0]@);
        Ok(Target { command: parts[0].clone(), affixed_network: String::new() })
    } else {
        Err(TargetLineError::WrongFieldCount)
    }
}

/// The steps that the lines from position `i` on mean, in the order of
/// the lines. The first line that cannot be read ends the reading.
pub open spec fn steps_of_lines(lines: Seq<Seq<char>>, i: int) -> Result<
    Seq<TargetView>,
    TargetLineError,
>
    decreases lines.len() - i,
{
    if i < 0 || i >= lines.len() {
        Ok(Seq::empty())
    } else {
        match target_of_line(lines[i]) {
            Err(e) => Err(e),
            Ok(t) => match steps_of_lines(lines, i + 1) {
                Ok(rest) => Ok(seq![t] + rest),
                Err(e) => Err(e),
            },
        }
    }
}

/// `found`, then what `rest` gives.
pub open spec fn steps_then(
    found: Seq<TargetView>,
    rest: Result<Seq<TargetView>, TargetLineError>,
) -> Result<Seq<TargetView>, TargetLineError> {
    match rest {
        Ok(more) => Ok(found + more),
        Err(e) => Err(e),
    }
}

/// Reads the lines of one target, keeping their order.
///
/// Fails on the first line that holds no word or more than two.
pub fn parse_target_lines(lines: &Vec<String>) -> (r: Result<Vec<Target>, TargetLineError>)
    ensures
        match r {
            Ok(steps) => steps_of_lines(lines.deep_view(), 0) == Ok::<
                Seq<TargetView>,
                TargetLineError,
            >(steps.deep_view()),
            Err(e) => steps_of_lines(lines.deep_view(), 0) == Err::<
                Seq<TargetView>,
                TargetLineError,
            >(e),
        },
{
    let ghost all = lines.deep_view();
    let mut out: Vec<Target> = Vec::new();
    let mut i: usize = 0;
    proof {
        assert(out.deep_view() =~= Seq::<TargetView>::empty());
        match steps_of_lines(all, 0) {
            Ok(more) => {
                assert(out.deep_view() + more =~= more);
            },
            Err(_) => {},
        }
    }
    while i < lines.len()
        invariant
            i <= lines.len(),
            all == lines.deep_view(),
            steps_then(out.deep_view(), steps_of_lines(all, i as int)) == steps_of_lines(all, 0),
        decreases lines.len() - i,
    {
        let ghost before = out.deep_view();
        assert(all[i as int] == lines@[i as int]@);
        match parse_target_line(lines[i].as_str()) {
            Ok(t) => {
                out.push(t);
                proof {
                    assert(out.deep_view() =~= before.push(t@));
                    match steps_of_lines(all, i + 1) {
                        Ok(rest) => {
                            assert(before + (seq![t@] + rest) =~= before.push(t@) + rest);
                        },
                        Err(_) => {},
                    }
                }
            },
            Err(e) => {
                return Err(e);
            },
        }
        i += 1;
    }
    assert(out.deep_view() + Seq::<TargetView>::empty() =~= out.deep_view());
    Ok(out)
}

/// The targets of a manifest, by name, with the names in the order in
/// which they were added.
#[derive(Debug, PartialEq, Eq)]
pub struct Targets {
    pub names: Vec<String>,
    pub targets: NameMap<Vec<Target>>,
}

/// The targets of a manifest as plain values.
pub struct TargetsView {
    pub names: Seq<Seq<char>>,
    pub targets: Seq<(Seq<char>, Seq<TargetView>)>,
}

impl View for Targets {
    type V = TargetsView;

    open spec fn view(&self) -> TargetsView {
        TargetsView { names: self.names.deep_view(), targets: self.targets.deep_view() }
    }
}

impl Targets {
    /// No targets.
    pub fn new() -> (r: Targets)
        ensures
            r@ == (TargetsView { names: Seq::empty(), targets: Seq::empty() }),
    {
        let r = Targets { names: Vec::new(), targets: NameMap::new() };
        assert(r@.names =~= Seq::<Seq<char>>::empty());
        r
    }

    /// The steps of the target called `name`.
    pub fn get(&self, name: &str) -> (r: Option<Vec<Target>>)
        ensures
            match r {
                Some(steps) => value_of(self@.targets, name@) == Some(steps.deep_view()),
                None => value_of(self@.targets, name@) is None,
            },
    {
        match self.targets.get(name) {
            Some(steps) => Some(clone_targets(steps)),
            None => None,
        }
    }

    /// Whether a target is called `name`. No two targets have one name.
    pub fn has(&self, name: &str) -> (r: bool)
        ensures
            r == has_key(self@.targets, name@),
            distinct_keys(self@.targets),
    {
        self.targets.position_of(name).is_some()
    }

    /// Whether no target was added.
    pub fn is_empty(&self) -> (r: bool)
        ensures
            r == (self@.names.len() == 0),
    {
        self.names.len() == 0
    }

    /// Adds the target `name` with its steps. The name is recorded once
    /// more; a target already known by that name is replaced.
    pub fn add_target(&mut self, name: String, steps: Vec<Target>)
        ensures
            final(self)@ == (TargetsView {
                names: old(self)@.names.push(name@),
                targets: put(old(self)@.targets, name@, steps.deep_view()),
            }),
    {
        self.names.push(name.clone());
        self.targets.insert(name, steps);
        assert(self@.names =~= old(self)@.names.push(name@));
    }
}

/// A target as a manifest states it: its name and its lines.
#[derive(Debug, PartialEq, Eq)]
pub struct TargetStatement {
    pub name: String,
    pub lines: Vec<String>,
}

impl View for TargetStatement {
    type V = (Seq<char>, Seq<Seq<char>>);

    open spec fn view(&self) -> (Seq<char>, Seq<Seq<char>>) {
        (self.name@, self.lines.deep_view())
    }
}

impl DeepView for TargetStatement {
    type V = (Seq<char>, Seq<Seq<char>>);

    open spec fn deep_view(&self) -> (Seq<char>, Seq<Seq<char>>) {
        self@
    }
}

/// The targets once the statements from position `i` on are added, one
/// after the other. The steps of a target keep the order of its lines.
pub open spec fn targets_from(
    targets: TargetsView,
    stated: Seq<(Seq<char>, Seq<Seq<char>>)>,
    i: int,
) -> Result<TargetsView, TargetLineError>
    decreases stated.len() - i,
{
    if i < 0 || i >= stated.len() {
        Ok(targets)
    } else {
        match steps_of_lines(stated[i].1, 0) {
            Err(e) => Err(e),
            Ok(steps) => targets_from(
                TargetsView {
                    names: targets.names.push(stated[i].0),
                    targets: put(targets.targets, stated[i].0, steps),
                },
                stated,
                i + 1,
            ),
        }
    }
}

impl Targets {
    /// The targets that a manifest states, in the order of the statements.
    ///
    /// Fails on the first line that holds no word or more than two.
    pub fn from_lines(stated: &Vec<TargetStatement>) -> (r: Result<Targets, TargetLineError>)
        ensures
            match r {
                Ok(t) => targets_from(
                    TargetsView { names: Seq::empty(), targets: Seq::empty() },
                    stated.deep_view(),
                    0,
                ) == Ok::<TargetsView, TargetLineError>(t@),
                Err(e) => targets_from(
                    TargetsView { names: Seq::empty(), targets: Seq::empty() },
                    stated.deep_view(),
                    0,
                ) == Err::<TargetsView, TargetLineError>(e),
            },
    {
        let ghost all = stated.deep_view();
        let mut targets = Targets::new();
        let mut i: usize = 0;
        while i < stated.len()
            invariant
                i <= stated.len(),
                all == stated.deep_view(),
                targets_from(targets@, all, i as int) == targets_from(
                    TargetsView { names: Seq::empty(), targets: Seq::empty() },
                    all,
                    0,
                ),
            decreases stated.len() - i,
        {
            assert(all[i as int] == stated@[i as int]@);
            match parse_target_lines(&stated[i].lines) {
                Ok(steps) => {
                    targets.add_target(stated[i].name.clone(), steps);
                },
                Err(e) => {
                    return Err(e);
                },
            }
            i += 1;
        }
        Ok(targets)
    }
}

} // verus!
