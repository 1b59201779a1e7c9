//! The command line.

use vstd::prelude::*;

verus! {

/// How the program runs.
#[derive(Debug, Clone, Copy, PartialEq, Eq, Structural)]
pub enum Mode {
    Gui { start_minimized: bool },
    Headless,
    Probe,
}

/// The mode that an argument asks for, where it asks for one.
pub open spec fn mode_of(arg: Seq<char>) -> Option<Mode> {
    if arg == "--probe"@ || arg == "-p"@ {
        Some(Mode::Probe)
    } else if arg == "--headless"@ || arg == "-H"@ {
        Some(Mode::Headless)
    } else if arg == "--tray"@ || arg == "--minimized"@ {
        Some(Mode::Gui { start_minimized: true })
    } else if arg == "--gui"@ {
        Some(Mode::Gui { start_minimized: false })
    } else {
        None
    }
}

/// The mode that the first argument to ask for one asks for, else the visible
/// window.
pub open spec fn chosen_mode(args: Seq<String>) -> Mode
    decreases args.len(),
{
    if args.len() == 0 {
        Mode::Gui { start_minimized: false }
    } else {
        match mode_of(args[0]@) {
            Some(mode) => mode,
            None => chosen_mode(args.skip(1)),
        }
    }
}

fn is_flag(arg: &String, flag: &str) -> (same: bool)
    ensures
        same == (arg@ == flag@),
{
    let flag = flag.to_owned();
    *arg == flag
}

fn recognize(arg: &String) -> (mode: Option<Mode>)
    ensures
        mode == mode_of(arg@),
{
    if is_flag(arg, "--probe") || is_flag(arg, "-p") {
        Some(Mode::Probe)
    } else if is_flag(arg, "--headless") || is_flag(arg, "-H") {
        Some(Mode::Headless)
    } else if is_flag(arg, "--tray") || is_flag(arg, "--minimized") {
        Some(Mode::Gui { start_minimized: true })
    } else if is_flag(arg, "--gui") {
        Some(Mode::Gui { start_minimized: false })
    } else {
        None
    }
}

/// Reads the arguments that follow the program's name.
pub fn parse_args_from(args: &Vec<String>) -> (mode: Mode)
    ensures
        mode == chosen_mode(args@),
{
    let mut at: usize = 0;
    assert(args@.skip(0) =~= args@);
    while at < args.len()
        invariant
            at <= args@.len(),
            chosen_mode(args@) == chosen_mode(args@.skip(at as int)),
        decreases args@.len() - at,
    {
        if let Some(mode) = recognize(&args[at]) {
            return mode;
        }
        assert(args@.skip(at as int).skip(1) =~= args@.skip(at + 1));
        at += 1;
    }
    Mode::Gui { start_minimized: false }
}

/// Arguments that ask for no mode change nothing.
pub proof fn other_arguments_are_ignored(before: Seq<String>, rest: Seq<String>)
    requires
        forall|i: int| 0 <= i < before.len() ==> mode_of((#[trigger] before[i])@) is None,
    ensures
        chosen_mode(before + rest) == chosen_mode(rest),
    decreases before.len(),
{
    if before.len() == 0 {
        assert(before + rest =~= rest);
    } else {
        assert(mode_of(before[0]@) is None);
        assert((before + rest).skip(1) =~= before.skip(1) + rest);
        assert forall|i: int| 0 <= i < before.skip(1).len() implies mode_of(
            (#[trigger] before.skip(1)[i])@,
        ) is None by {
            assert(before.skip(1)[i] == before[i + 1]);
        }
        other_arguments_are_ignored(before.skip(1), rest);
    }
}

/// What follows the first argument that asks for a mode changes nothing.
pub proof fn the_first_recognized_argument_wins(first: String, rest: Seq<String>)
    requires
        mode_of(first@) is Some,
    ensures
        chosen_mode(seq![first] + rest) == mode_of(first@).unwrap(),
{
    assert((seq![first] + rest)[0] == first);
}

/// The seven flags and what they ask for. Nothing else asks for anything.
pub proof fn the_flags_and_their_modes(arg: Seq<char>)
    ensures
        mode_of("--probe"@) == Some(Mode::Probe),
        mode_of("-p"@) == Some(Mode::Probe),
        mode_of("--headless"@) == Some(Mode::Headless),
        mode_of("-H"@) == Some(Mode::Headless),
        mode_of("--tray"@) == Some(Mode::Gui { start_minimized: true }),
        mode_of("--minimized"@) == Some(Mode::Gui { start_minimized: true }),
        mode_of("--gui"@) == Some(Mode::Gui { start_minimized: false }),
        mode_of(arg) is Some ==> {
            ||| arg == "--probe"@
            ||| arg == "-p"@
            ||| arg == "--headless"@
            ||| arg == "-H"@
            ||| arg == "--tray"@
            ||| arg == "--minimized"@
            ||| arg == "--gui"@
        },
{
    reveal_strlit("--probe");
    reveal_strlit("-p");
    reveal_strlit("--headless");
    reveal_strlit("-H");
    reveal_strlit("--tray");
    reveal_strlit("--minimized");
    reveal_strlit("--gui");
    assert("-H"@[1] != "-p"@[1]);
    assert("--tray"@.len() == 6 && "--gui"@.len() == 5 && "--minimized"@.len() == 11);
    assert("--probe"@.len() == 7 && "--headless"@.len() == 10);
}

/// Without a flag the window is shown; with flags, the first of them decides, wherever
/// it stands and whatever follows.
pub proof fn the_first_flag_decides(args: Seq<String>, k: int)
    requires
        0 <= k <= args.len(),
        forall|i: int| 0 <= i < k ==> mode_of((#[trigger] args[i])@) is None,
        k < args.len() ==> mode_of(args[k]@) is Some,
    ensures
        k == args.len() ==> chosen_mode(args) == (Mode::Gui { start_minimized: false }),
        k < args.len() ==> Some(chosen_mode(args)) == mode_of(args[k]@),
    decreases args.len(),
{
    if k > 0 {
        let rest = args.skip(1);
        assert forall|i: int| 0 <= i < k - 1 implies mode_of((#[trigger] rest[i])@) is None by {
            assert(rest[i] == args[i + 1]);
        }
        assert(mode_of(args[0]@) is None);
        the_first_flag_decides(rest, k - 1);
    }
}

} // verus!
