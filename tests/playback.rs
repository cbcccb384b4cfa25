use scripted_demo::compile::{compile, insts, StyledRun};
use scripted_demo::instruction::{finalize, Instruction, Rgb};
use scripted_demo::playback::{plan_playback, plan_session, typing_delay_ms, EngineOp};
use scripted_demo::quit::{next_event, quit_test, PollOutcome, QuitFlag};

fn count(ops: &[EngineOp], pred: fn(&EngineOp) -> bool) -> usize {
    ops.iter().filter(|o| pred(o)).count()
}

#[test]
fn plan_for_mixed_instructions() {
    let insts = vec![
        Instruction::Type('a', false),
        Instruction::Wait,
        Instruction::Pause(5),
        Instruction::HideCursor,
        Instruction::WaitForQuit,
        Instruction::Type('b', false),
    ];
    let ops = plan_playback(insts, &vec![40, 41, 42, 43, 44, 45]);
    assert_eq!(
        ops,
        vec![
            EngineOp::DrainAck,
            EngineOp::Sleep(40),
            EngineOp::Emit(Instruction::Type('a', false)),
            EngineOp::Emit(Instruction::Wait),
            EngineOp::AwaitAck,
            EngineOp::Sleep(5),
            EngineOp::DrainAck,
            EngineOp::Sleep(43),
            EngineOp::Emit(Instruction::HideCursor),
            EngineOp::AwaitAck,
            EngineOp::RaiseQuit,
        ]
    );
}

#[test]
fn plan_without_quit_closes_with_one_wait() {
    let ops = plan_playback(vec![Instruction::SetX(0)], &vec![50]);
    assert_eq!(
        ops,
        vec![
            EngineOp::DrainAck,
            EngineOp::Sleep(50),
            EngineOp::Emit(Instruction::SetX(0)),
            EngineOp::AwaitAck,
            EngineOp::RaiseQuit,
        ]
    );
    assert_eq!(plan_playback(vec![], &vec![]), vec![EngineOp::AwaitAck, EngineOp::RaiseQuit]);
}

#[test]
fn acknowledgments_counted_per_instruction() {
    let insts = vec![
        Instruction::Type('a', false),
        Instruction::Type('b', false),
        Instruction::Wait,
        Instruction::Type('c', false),
        Instruction::Wait,
    ];
    let ops = plan_session(insts);
    assert_eq!(count(&ops, |o| *o == EngineOp::DrainAck), 3);
    assert_eq!(count(&ops, |o| *o == EngineOp::AwaitAck), 3);
    assert_eq!(count(&ops, |o| *o == EngineOp::RaiseQuit), 1);
    for o in &ops {
        if let EngineOp::Sleep(ms) = o {
            assert!((35..85).contains(ms));
        }
    }
}

#[test]
fn typing_delay_in_range() {
    for _ in 0..200 {
        let d = typing_delay_ms();
        assert!((35..85).contains(&d));
    }
}

#[test]
fn quit_flag_is_edge_triggered() {
    let mut f = QuitFlag::new();
    assert_eq!(next_event(true, &mut f), PollOutcome::Forward);
    f.raise();
    assert!(quit_test(false, Some(&f)));
    assert!(f.is_raised());
    assert_eq!(next_event(true, &mut f), PollOutcome::Stop);
    assert!(!f.is_raised());
    assert_eq!(next_event(true, &mut f), PollOutcome::Forward);
    assert_eq!(next_event(false, &mut f), PollOutcome::Stop);
    assert!(quit_test(true, None));
    assert!(quit_test(false, None));
    assert!(!quit_test(false, Some(&QuitFlag::new())));
    assert!(f.raised == f.take());
}

fn run(text: &str, color: Rgb, bold: bool) -> StyledRun {
    StyledRun { text: text.to_string(), foreground: color, bold }
}

#[test]
fn compile_two_lines_one_color() {
    let red = Rgb { r: 200, g: 10, b: 10 };
    let lines = vec![vec![run("ab", red, false)], vec![run("c", red, true)]];
    let compiled = compile(&lines);
    assert_eq!(
        compiled,
        vec![
            Instruction::SetForeground(red),
            Instruction::Type('a', false),
            Instruction::Type('b', false),
            Instruction::Newline { x: 0 },
            Instruction::Type('c', true),
            Instruction::Newline { x: 0 },
        ]
    );
    let session = insts(&lines);
    assert_eq!(session.len(), compiled.len() - 1 + 2);
    assert_eq!(session[0], Instruction::Pause(1000));
    assert_eq!(session[session.len() - 1], Instruction::WaitForQuit);
    assert_eq!(session[1..session.len() - 1], compiled[..compiled.len() - 1]);
}

#[test]
fn compile_sets_color_only_on_change() {
    let blue = Rgb { r: 0, g: 0, b: 255 };
    let lines = vec![vec![run("a", Rgb::white(), false), run("b", blue, false), run("c", blue, false), run("d", Rgb::white(), false)]];
    assert_eq!(
        compile(&lines),
        vec![
            Instruction::Type('a', false),
            Instruction::SetForeground(blue),
            Instruction::Type('b', false),
            Instruction::Type('c', false),
            Instruction::SetForeground(Rgb::white()),
            Instruction::Type('d', false),
            Instruction::Newline { x: 0 },
        ]
    );
    assert_eq!(compile(&vec![]), vec![]);
}

#[test]
fn finalize_empty_and_single() {
    assert_eq!(finalize(vec![]), vec![Instruction::Pause(1000), Instruction::WaitForQuit]);
    assert_eq!(
        finalize(vec![Instruction::HideCursor]),
        vec![Instruction::Pause(1000), Instruction::WaitForQuit]
    );
}
