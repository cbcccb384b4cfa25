use vstd::prelude::*;

use crate::actions::{Action, ActionModel};
use crate::text::{copy_strings, strings_view};

verus! {

pub open spec fn edit_word() -> Seq<char> {
    seq!['e', 'd', 'i', 't']
}

/// The words typed out on screen before an action runs, if any: `cd <dir>`,
/// the command itself, or `edit <dest>`.
pub open spec fn echo_of(a: ActionModel) -> Option<Seq<Seq<char>>> {
    match a {
        ActionModel::ChangeDir(d) => Some(seq![seq!['c', 'd'], d]),
        ActionModel::RunCommand(args) => Some(args),
        ActionModel::RunEditor(dst, _) => Some(seq![edit_word(), dst]),
        _ => None,
    }
}

/// Whether the demo waits for a key press once the action is done.
pub open spec fn waits_after_spec(a: ActionModel) -> bool {
    a is ChangeDir || a is RunCommand
}

/// Whether the action's process gets the terminal's input and output.
pub open spec fn inherits_io_spec(a: ActionModel) -> bool {
    a is RunCommand || a is RunCommandOnlyOutput
}

/// The words to type out before running `a` (see [`echo_of`]).
pub fn typed_echo(a: &Action) -> (r: Option<Vec<String>>)
    ensures
        match echo_of(a@) {
            None => r is None,
            Some(words) => r is Some && strings_view(r->Some_0@) == words,
        },
{
    match a {
        Action::ChangeDir(d) => {
            let mut v: Vec<String> = Vec::new();
            let w = String::from_str("cd");
            proof { reveal_strlit("cd"); }
            assert(w@ =~= seq!['c', 'd']);
            v.push(w);
            v.push(d.clone());
            assert(strings_view(v@) =~= seq![seq!['c', 'd'], d@]);
            Some(v)
        },
        Action::RunCommand(args) => {
            Some(copy_strings(args))
        },
        Action::RunEditor(dst, _) => {
            let mut v: Vec<String> = Vec::new();
            let w = String::from_str("edit");
            proof { reveal_strlit("edit"); }
            assert(w@ =~= edit_word());
            v.push(w);
            v.push(dst.clone());
            assert(strings_view(v@) =~= seq![edit_word(), dst@]);
            Some(v)
        },
        _ => None,
    }
}

/// Whether the demo waits for a key press after `a`: only after a shown
/// directory change or a shown command.
pub fn waits_after(a: &Action) -> (r: bool)
    ensures
        r == waits_after_spec(a@),
{
    match a {
        Action::ChangeDir(_) => true,
        Action::RunCommand(_) => true,
        _ => false,
    }
}

/// Whether `a` runs a process with the terminal's input and output.
pub fn inherits_io(a: &Action) -> (r: bool)
    ensures
        r == inherits_io_spec(a@),
{
    match a {
        Action::RunCommand(_) => true,
        Action::RunCommandOnlyOutput(_) => true,
        _ => false,
    }
}

/// Where a `cd` target is resolved from.
#[derive(Debug, Clone, Copy, PartialEq, Eq, Structural)]
pub enum CdBase {
    /// An absolute path, taken as it is.
    Root,
    /// A path starting with `~`, joined onto the home directory.
    Home,
    /// Any other path, joined onto the working directory.
    Current,
}

pub fn cd_base(path: &str) -> (r: CdBase)
    ensures
        r == (if path@.len() > 0 && path@[0] == '/' {
            CdBase::Root
        } else if path@.len() > 0 && path@[0] == '~' {
            CdBase::Home
        } else {
            CdBase::Current
        }),
{
    if path.unicode_len() == 0 {
        CdBase::Current
    } else {
        let c = path.get_char(0);
        if c == '/' {
            CdBase::Root
        } else if c == '~' {
            CdBase::Home
        } else {
            CdBase::Current
        }
    }
}

/// Whether a read from the terminal holds a key press: any byte that is
/// not zero.
pub fn is_key_press(bytes: &[u8]) -> (r: bool)
    ensures
        r == exists|i: int| 0 <= i < bytes@.len() && bytes@[i] != 0,
{
    let mut i: usize = 0;
    while i < bytes.len()
        invariant
            i <= bytes@.len(),
            forall|j: int| 0 <= j < i ==> bytes@[j] == 0,
        decreases bytes@.len() - i,
    {
        if bytes[i] != 0 {
            return true;
        }
        i = i + 1;
    }
    false
}

} // verus!
