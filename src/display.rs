use vstd::prelude::*;

use crate::actions::{Action, ActionModel};
use crate::text::{push_char, strings_view};

verus! {

/// What `{:?}` makes of a string: quoted, with special characters escaped.
pub uninterp spec fn debug_text(s: Seq<char>) -> Seq<char>;

/// Relies on the `Debug` impl of `str`, through `format!("{:?}")`: the
/// result depends on the characters alone.
#[verifier::external_body]
fn debug_quoted(s: &str) -> (r: String)
    ensures
        r@ == debug_text(s@),
{
    format!("{:?}", s)
}

/// The parts separated by single spaces.
pub open spec fn joined(parts: Seq<Seq<char>>) -> Seq<char>
    decreases parts.len(),
{
    if parts.len() == 0 {
        seq![]
    } else if parts.len() == 1 {
        parts[0]
    } else {
        joined(parts.drop_last()) + seq![' '] + parts.last()
    }
}

pub open spec fn quoted_all(args: Seq<Seq<char>>) -> Seq<Seq<char>> {
    args.map_values(|a: Seq<char>| debug_text(a))
}

/// How an action is written back: its sigil, then its quoted words.
pub open spec fn action_text(a: ActionModel) -> Seq<char> {
    match a {
        ActionModel::ChangeDir(d) => seq!['c', 'd', ' '] + debug_text(d),
        ActionModel::ChangeDirQuiet(d) => seq!['#', 'c', 'd', ' '] + debug_text(d),
        ActionModel::RunEditor(dst, src) => seq!['+', ' '] + debug_text(dst) + seq![' ']
            + debug_text(src),
        ActionModel::RunCommand(args) => joined(quoted_all(args)),
        ActionModel::RunCommandQuiet(args) => seq!['#'] + joined(quoted_all(args)),
        ActionModel::RunCommandOnlyOutput(args) => seq!['-'] + joined(quoted_all(args)),
    }
}

/// Joins words with single spaces.
pub fn join_words(parts: &Vec<String>) -> (r: String)
    ensures
        r@ == joined(strings_view(parts@)),
{
    let mut out = String::new();
    let mut i: usize = 0;
    proof {
        assert(strings_view(parts@.subrange(0, 0)) =~= seq![]);
    }
    while i < parts.len()
        invariant
            i <= parts@.len(),
            out@ == joined(strings_view(parts@.subrange(0, i as int))),
        decreases parts@.len() - i,
    {
        let ghost prev = strings_view(parts@.subrange(0, i as int));
        let ghost next = strings_view(parts@.subrange(0, i + 1));
        assert(next.drop_last() =~= prev);
        assert(next.last() == parts@[i as int]@);
        if i > 0 {
            push_char(&mut out, ' ');
        }
        out.append(parts[i].as_str());
        i = i + 1;
    }
    assert(parts@.subrange(0, parts@.len() as int) =~= parts@);
    out
}

/// The quoted form of each argument.
fn quote_each(args: &Vec<String>) -> (r: Vec<String>)
    ensures
        strings_view(r@) == quoted_all(strings_view(args@)),
{
    let mut out: Vec<String> = Vec::new();
    let mut i: usize = 0;
    while i < args.len()
        invariant
            i <= args@.len(),
            strings_view(out@) =~= quoted_all(strings_view(args@.subrange(0, i as int))),
        decreases args@.len() - i,
    {
        let ghost before = out@;
        let q = debug_quoted(args[i].as_str());
        out.push(q);
        assert(strings_view(out@) =~= strings_view(before).push(q@));
        assert(strings_view(args@.subrange(0, i + 1)) =~= strings_view(
            args@.subrange(0, i as int),
        ).push(args@[i as int]@));
        i = i + 1;
    }
    assert(args@.subrange(0, args@.len() as int) =~= args@);
    out
}

fn prefixed(prefix: &str, body: String) -> (r: String)
    ensures
        r@ == prefix@ + body@,
{
    String::from_str(prefix).concat(body.as_str())
}

impl Action {
    /// The action written back as a script line (see [`action_text`]).
    pub fn to_string(&self) -> (r: String)
        ensures
            r@ == action_text(self@),
    {
        proof {
            reveal_strlit("cd ");
            reveal_strlit("#cd ");
            reveal_strlit("+ ");
            reveal_strlit(" ");
            reveal_strlit("#");
            reveal_strlit("-");
        }
        match self {
            Action::ChangeDir(d) => {
                let r = prefixed("cd ", debug_quoted(d.as_str()));
                assert(r@ =~= action_text(self@));
                r
            },
            Action::ChangeDirQuiet(d) => {
                let r = prefixed("#cd ", debug_quoted(d.as_str()));
                assert(r@ =~= action_text(self@));
                r
            },
            Action::RunEditor(dst, src) => {
                let r = prefixed("+ ", debug_quoted(dst.as_str())).concat(" ").concat(
                    debug_quoted(src.as_str()).as_str(),
                );
                assert(r@ =~= action_text(self@));
                r
            },
            Action::RunCommand(args) => join_words(&quote_each(args)),
            Action::RunCommandQuiet(args) => {
                let r = prefixed("#", join_words(&quote_each(args)));
                assert(r@ =~= action_text(self@));
                r
            },
            Action::RunCommandOnlyOutput(args) => {
                let r = prefixed("-", join_words(&quote_each(args)));
                assert(r@ =~= action_text(self@));
                r
            },
        }
    }
}

} // verus!
