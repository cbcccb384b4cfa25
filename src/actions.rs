use vstd::prelude::*;

use crate::text::{chars_of, strings_view};
use crate::tokenize::{has_visible, lemma_no_tokens_iff_spaces, tokenize, tokenize_chars};

verus! {

/// One step of a demo script.
#[derive(Debug, Clone, PartialEq, Eq)]
pub enum Action {
    /// Shows `cd <dir>` being typed, then changes directory.
    ChangeDir(String),
    /// Changes directory without showing anything.
    ChangeDirQuiet(String),
    /// Shows the command being typed, runs it, then waits for a key press.
    RunCommand(Vec<String>),
    /// Runs the command without echoing it.
    RunCommandQuiet(Vec<String>),
    /// Runs the command with its output shown, without echoing it.
    RunCommandOnlyOutput(Vec<String>),
    /// Copies the second file to the first and replays it in the editor.
    RunEditor(String, String),
}

/// What an [`Action`] holds, as sequences of characters.
pub enum ActionModel {
    ChangeDir(Seq<char>),
    ChangeDirQuiet(Seq<char>),
    RunCommand(Seq<Seq<char>>),
    RunCommandQuiet(Seq<Seq<char>>),
    RunCommandOnlyOutput(Seq<Seq<char>>),
    RunEditor(Seq<char>, Seq<char>),
}

impl View for Action {
    type V = ActionModel;

    open spec fn view(&self) -> ActionModel {
        match self {
            Action::ChangeDir(d) => ActionModel::ChangeDir(d@),
            Action::ChangeDirQuiet(d) => ActionModel::ChangeDirQuiet(d@),
            Action::RunCommand(a) => ActionModel::RunCommand(strings_view(a@)),
            Action::RunCommandQuiet(a) => ActionModel::RunCommandQuiet(strings_view(a@)),
            Action::RunCommandOnlyOutput(a) => ActionModel::RunCommandOnlyOutput(strings_view(a@)),
            Action::RunEditor(dst, src) => ActionModel::RunEditor(dst@, src@),
        }
    }
}

/// Why a script was rejected.
#[derive(Debug, Clone, Copy, PartialEq, Eq, Structural)]
pub enum ParseError {
    /// An editor line (`+`) whose token count is not two; `line` counts
    /// from zero over all lines of the script.
    EditorArgCount { line: usize, found: usize },
}

/// What one script line amounts to.
pub enum LineOutcome {
    Blank,
    Act(ActionModel),
    BadEditor(nat),
}

pub open spec fn cd_word() -> Seq<char> {
    seq!['c', 'd']
}

pub open spec fn starts_with(l: Seq<char>, c: char) -> bool {
    l.len() > 0 && l[0] == c
}

pub open spec fn has_sigil(l: Seq<char>) -> bool {
    starts_with(l, '#') || starts_with(l, '-') || starts_with(l, '+')
}

/// The line without its sigil.
pub open spec fn line_body(l: Seq<char>) -> Seq<char> {
    if has_sigil(l) { l.drop_first() } else { l }
}

/// A line with no tokens once its sigil is taken off.
pub open spec fn is_blank_line(l: Seq<char>) -> bool {
    tokenize(line_body(l)).len() == 0
}

pub open spec fn line_outcome(l: Seq<char>) -> LineOutcome {
    let toks = tokenize(line_body(l));
    if starts_with(l, '+') && toks.len() != 2 {
        LineOutcome::BadEditor(toks.len())
    } else if toks.len() == 0 {
        LineOutcome::Blank
    } else if toks.len() == 2 && toks[0] == cd_word() && !starts_with(l, '+') {
        if starts_with(l, '-') || starts_with(l, '#') {
            LineOutcome::Act(ActionModel::ChangeDirQuiet(toks[1]))
        } else {
            LineOutcome::Act(ActionModel::ChangeDir(toks[1]))
        }
    } else if starts_with(l, '#') {
        LineOutcome::Act(ActionModel::RunCommandQuiet(toks))
    } else if starts_with(l, '-') {
        LineOutcome::Act(ActionModel::RunCommandOnlyOutput(toks))
    } else if starts_with(l, '+') {
        LineOutcome::Act(ActionModel::RunEditor(toks[0], toks[1]))
    } else {
        LineOutcome::Act(ActionModel::RunCommand(toks))
    }
}

/// Lines read so far, and the line being read.
pub struct LinesState {
    pub done: Seq<Seq<char>>,
    pub current: Seq<char>,
}

/// A line without the `\r` of a `\r\n` ending.
pub open spec fn strip_cr(l: Seq<char>) -> Seq<char> {
    if l.len() > 0 && l.last() == '\r' { l.drop_last() } else { l }
}

pub open spec fn lines_run(s: Seq<char>) -> LinesState
    decreases s.len(),
{
    if s.len() == 0 {
        LinesState { done: seq![], current: seq![] }
    } else {
        let st = lines_run(s.drop_last());
        if s.last() == '\n' {
            LinesState { done: st.done.push(strip_cr(st.current)), current: seq![] }
        } else {
            LinesState { current: st.current.push(s.last()), ..st }
        }
    }
}

/// The lines of a text: split at `\n` or `\r\n`, with no empty line after a
/// final line ending.
pub open spec fn script_lines(s: Seq<char>) -> Seq<Seq<char>> {
    let st = lines_run(s);
    if st.current.len() > 0 { st.done.push(st.current) } else { st.done }
}

/// The actions of a sequence of lines, or the first bad editor line.
pub open spec fn parse_lines(ls: Seq<Seq<char>>) -> Result<Seq<ActionModel>, ParseError>
    decreases ls.len(),
{
    if ls.len() == 0 {
        Ok(seq![])
    } else {
        match parse_lines(ls.drop_last()) {
            Err(e) => Err(e),
            Ok(acts) => match line_outcome(ls.last()) {
                LineOutcome::Blank => Ok(acts),
                LineOutcome::Act(a) => Ok(acts.push(a)),
                LineOutcome::BadEditor(n) => Err(
                    ParseError::EditorArgCount { line: (ls.len() - 1) as usize, found: n as usize },
                ),
            },
        }
    }
}

pub open spec fn parse_script(s: Seq<char>) -> Result<Seq<ActionModel>, ParseError> {
    parse_lines(script_lines(s))
}

pub open spec fn actions_view(v: Seq<Action>) -> Seq<ActionModel> {
    v.map_values(|a: Action| a@)
}

pub open spec fn parsed_view(r: Result<Vec<Action>, ParseError>) -> Result<
    Seq<ActionModel>,
    ParseError,
> {
    match r {
        Ok(v) => Ok(actions_view(v@)),
        Err(e) => Err(e),
    }
}

fn is_cd_word(t: &String) -> (r: bool)
    ensures
        r == (t@ == cd_word()),
{
    let s = t.as_str();
    if s.unicode_len() != 2 {
        return false;
    }
    let r = s.get_char(0) == 'c' && s.get_char(1) == 'd';
    assert(r ==> s@ =~= cd_word());
    r
}

/// The action of one line; `index` is the line's position in the script.
fn parse_line(line: &Vec<char>, index: usize) -> (r: Result<Option<Action>, ParseError>)
    ensures
        match line_outcome(line@) {
            LineOutcome::Blank => r == Ok::<Option<Action>, ParseError>(None),
            LineOutcome::Act(a) => r is Ok && r->Ok_0 is Some && r->Ok_0->Some_0@ == a,
            LineOutcome::BadEditor(n) => r == Err::<Option<Action>, ParseError>(
                ParseError::EditorArgCount { line: index, found: n as usize },
            ),
        },
{
    let n = line.len();
    let first = if n > 0 { line[0] } else { ' ' };
    let silent = n > 0 && first == '#';
    let output_only = n > 0 && first == '-';
    let editor = n > 0 && first == '+';
    let start: usize = if silent || output_only || editor { 1 } else { 0 };
    let toks = tokenize_chars(line, start);
    proof {
        if start == 1 {
            assert(line@.subrange(1, n as int) =~= line@.drop_first());
        } else {
            assert(line@.subrange(0, n as int) =~= line@);
        }
        assert(strings_view(toks@) == tokenize(line_body(line@)));
    }
    let ghost tv = strings_view(toks@);
    assert(tv.len() == toks.len());
    if editor && toks.len() != 2 {
        return Err(ParseError::EditorArgCount { line: index, found: toks.len() });
    }
    if toks.len() == 0 {
        return Ok(None);
    }
    assert(tv[0] == toks@[0]@);
    if toks.len() == 2 && is_cd_word(&toks[0]) && !editor {
        assert(tv[1] == toks@[1]@);
        let dir = toks[1].clone();
        if output_only || silent {
            return Ok(Some(Action::ChangeDirQuiet(dir)));
        } else {
            return Ok(Some(Action::ChangeDir(dir)));
        }
    }
    if silent {
        Ok(Some(Action::RunCommandQuiet(toks)))
    } else if output_only {
        Ok(Some(Action::RunCommandOnlyOutput(toks)))
    } else if editor {
        assert(tv[1] == toks@[1]@);
        Ok(Some(Action::RunEditor(toks[0].clone(), toks[1].clone())))
    } else {
        Ok(Some(Action::RunCommand(toks)))
    }
}

/// Adds the action of one more line to what the earlier lines gave.
fn take_line(
    acc: &mut Result<Vec<Action>, ParseError>,
    line: &Vec<char>,
    index: usize,
    Ghost(before): Ghost<Seq<Seq<char>>>,
)
    requires
        parsed_view(*old(acc)) == parse_lines(before),
        before.len() == index,
    ensures
        parsed_view(*final(acc)) == parse_lines(before.push(line@)),
{
    let ghost ls = before.push(line@);
    assert(ls.drop_last() =~= before);
    match acc {
        Err(_) => {},
        Ok(v) => {
            let ghost old_v = v@;
            match parse_line(line, index) {
                Ok(None) => {},
                Ok(Some(a)) => {
                    v.push(a);
                    assert(actions_view(v@) =~= actions_view(old_v).push(a@));
                },
                Err(e) => {
                    *acc = Err(e);
                },
            }
        },
    }
}

/// Reads a script, one action per non-blank line.
///
/// Fails on the first editor line (`+`) that does not hold exactly two
/// tokens; otherwise returns the actions in line order.
pub fn parse_actions(contents: String) -> (r: Result<Vec<Action>, ParseError>)
    ensures
        parsed_view(r) == parse_script(contents@),
{
    let chars = chars_of(contents.as_str());
    let mut acc: Result<Vec<Action>, ParseError> = Ok(Vec::new());
    let mut line: Vec<char> = Vec::new();
    let mut index: usize = 0;
    let ghost mut done: Seq<Seq<char>> = seq![];
    let mut i: usize = 0;
    proof {
        assert(actions_view(seq![]) =~= seq![]);
        assert(chars@.subrange(0, 0) =~= seq![]);
    }
    while i < chars.len()
        invariant
            i <= chars.len(),
            chars@ == contents@,
            lines_run(chars@.subrange(0, i as int)) == (LinesState { done, current: line@ }),
            index as int == done.len(),
            done.len() <= i,
            parsed_view(acc) == parse_lines(done),
        decreases chars.len() - i,
    {
        let c = chars[i];
        proof {
            let s = chars@.subrange(0, i + 1);
            assert(s.drop_last() =~= chars@.subrange(0, i as int));
        }
        if c == '\n' {
            let ghost raw = line@;
            let k = line.len();
            if k > 0 && line[k - 1] == '\r' {
                line.pop();
                assert(line@ =~= raw.drop_last());
            }
            assert(line@ == strip_cr(raw));
            take_line(&mut acc, &line, index, Ghost(done));
            proof { done = done.push(line@); }
            index = index + 1;
            line = Vec::new();
        } else {
            line.push(c);
        }
        i = i + 1;
    }
    assert(chars@.subrange(0, chars.len() as int) =~= contents@);
    if line.len() > 0 {
        take_line(&mut acc, &line, index, Ghost(done));
    }
    acc
}

/// The lines that give an action.
pub open spec fn nonblank_lines(ls: Seq<Seq<char>>) -> Seq<Seq<char>> {
    ls.filter(|l: Seq<char>| !is_blank_line(l))
}

/// The variant that a line's sigil selects.
pub open spec fn sigil_matches(l: Seq<char>, a: ActionModel) -> bool {
    if starts_with(l, '#') {
        a is ChangeDirQuiet || a is RunCommandQuiet
    } else if starts_with(l, '-') {
        a is ChangeDirQuiet || a is RunCommandOnlyOutput
    } else if starts_with(l, '+') {
        a is RunEditor
    } else {
        a is ChangeDir || a is RunCommand
    }
}

/// A command action names at least the program to run.
pub open spec fn has_program(a: ActionModel) -> bool {
    match a {
        ActionModel::RunCommand(args) => args.len() > 0,
        ActionModel::RunCommandQuiet(args) => args.len() > 0,
        ActionModel::RunCommandOnlyOutput(args) => args.len() > 0,
        _ => true,
    }
}

proof fn lemma_parse_lines_one_per_line(ls: Seq<Seq<char>>)
    requires
        parse_lines(ls) is Ok,
    ensures
        parse_lines(ls)->Ok_0.len() == nonblank_lines(ls).len(),
        forall|i: int|
            0 <= i < nonblank_lines(ls).len() ==> {
                &&& line_outcome(#[trigger] nonblank_lines(ls)[i]) == LineOutcome::Act(
                    parse_lines(ls)->Ok_0[i],
                )
                &&& sigil_matches(nonblank_lines(ls)[i], parse_lines(ls)->Ok_0[i])
                &&& has_program(parse_lines(ls)->Ok_0[i])
            },
    decreases ls.len(),
{
    reveal(Seq::filter);
    if ls.len() > 0 {
        lemma_parse_lines_one_per_line(ls.drop_last());
    }
}

/// A valid script gives one action per line that holds a token once its
/// sigil is taken off, in line order; each action is the variant that the
/// line's sigil selects, and each command names a program.
pub proof fn lemma_one_action_per_line(s: Seq<char>)
    requires
        parse_script(s) is Ok,
    ensures
        parse_script(s)->Ok_0.len() == nonblank_lines(script_lines(s)).len(),
        forall|i: int|
            0 <= i < parse_script(s)->Ok_0.len() ==> {
                let l = #[trigger] nonblank_lines(script_lines(s))[i];
                let a = parse_script(s)->Ok_0[i];
                &&& line_outcome(l) == LineOutcome::Act(a)
                &&& sigil_matches(l, a)
                &&& has_program(a)
            },
{
    lemma_parse_lines_one_per_line(script_lines(s));
}

proof fn lemma_bad_line_rejects(ls: Seq<Seq<char>>, i: int)
    requires
        0 <= i < ls.len(),
        line_outcome(ls[i]) is BadEditor,
    ensures
        parse_lines(ls) is Err,
    decreases ls.len(),
{
    if i < ls.len() - 1 {
        lemma_bad_line_rejects(ls.drop_last(), i);
    }
}

/// An editor line (`+`) whose token count is not two makes the whole
/// script fail, so that none of its actions is ever run.
pub proof fn lemma_bad_editor_line_rejects_script(s: Seq<char>, i: int)
    requires
        0 <= i < script_lines(s).len(),
        starts_with(script_lines(s)[i], '+'),
        tokenize(line_body(script_lines(s)[i])).len() != 2,
    ensures
        parse_script(s) is Err,
{
    lemma_bad_line_rejects(script_lines(s), i);
}

proof fn lemma_filter_congruent(
    ls: Seq<Seq<char>>,
    p: spec_fn(Seq<char>) -> bool,
    q: spec_fn(Seq<char>) -> bool,
)
    requires
        forall|i: int| 0 <= i < ls.len() ==> p(#[trigger] ls[i]) == q(ls[i]),
    ensures
        ls.filter(p) == ls.filter(q),
    decreases ls.len(),
{
    reveal(Seq::filter);
    if ls.len() > 0 {
        let d = ls.drop_last();
        assert forall|i: int| 0 <= i < d.len() implies p(#[trigger] d[i]) == q(d[i]) by {
            assert(d[i] == ls[i]);
        }
        lemma_filter_congruent(d, p, q);
        assert(p(ls[ls.len() - 1]) == q(ls[ls.len() - 1]));
    }
}

/// The lines that hold a character other than a space.
pub open spec fn visible_lines(ls: Seq<Seq<char>>) -> Seq<Seq<char>> {
    ls.filter(|l: Seq<char>| has_visible(l))
}

/// A line that is a sigil followed only by spaces.
pub open spec fn bare_sigil(l: Seq<char>) -> bool {
    has_sigil(l) && !has_visible(line_body(l))
}

/// A valid script without a line that is a sigil followed only by spaces
/// gives one action per line holding a character other than a space, in
/// line order, each the variant that its sigil selects.
pub proof fn lemma_one_action_per_visible_line(s: Seq<char>)
    requires
        parse_script(s) is Ok,
        forall|i: int|
            0 <= i < script_lines(s).len() ==> !bare_sigil(#[trigger] script_lines(s)[i]),
    ensures
        parse_script(s)->Ok_0.len() == visible_lines(script_lines(s)).len(),
        forall|i: int|
            0 <= i < parse_script(s)->Ok_0.len() ==> {
                let l = #[trigger] visible_lines(script_lines(s))[i];
                let a = parse_script(s)->Ok_0[i];
                &&& line_outcome(l) == LineOutcome::Act(a)
                &&& sigil_matches(l, a)
                &&& has_program(a)
            },
{
    let ls = script_lines(s);
    assert forall|i: int| 0 <= i < ls.len() implies (|l: Seq<char>| !is_blank_line(l))(
        #[trigger] ls[i],
    ) == (|l: Seq<char>| has_visible(l))(ls[i]) by {
        let l = ls[i];
        lemma_no_tokens_iff_spaces(line_body(l));
        if has_sigil(l) {
            assert(l[0] != ' ');
        }
        if has_visible(line_body(l)) && has_sigil(l) {
            let k = choose|k: int| 0 <= k < line_body(l).len() && line_body(l)[k] != ' ';
            assert(l[k + 1] == line_body(l)[k]);
        }
    }
    lemma_filter_congruent(ls, |l: Seq<char>| !is_blank_line(l), |l: Seq<char>| has_visible(l));
    lemma_one_action_per_line(s);
}

} // verus!
