use sc2dsu::args::{parse_args_from, Mode};

fn parse(args: &[&str]) -> Mode {
    let args: Vec<String> = args.iter().map(|s| (*s).to_string()).collect();
    parse_args_from(&args)
}

#[test]
fn parse_args_defaults_to_visible_gui() {
    assert_eq!(
        parse(&[]),
        Mode::Gui {
            start_minimized: false
        }
    );
    assert_eq!(
        parse(&["some-positional-arg"]),
        Mode::Gui {
            start_minimized: false
        }
    );
}

#[test]
fn parse_args_recognizes_each_mode() {
    assert_eq!(parse(&["--probe"]), Mode::Probe);
    assert_eq!(parse(&["-p"]), Mode::Probe);
    assert_eq!(parse(&["--headless"]), Mode::Headless);
    assert_eq!(parse(&["-H"]), Mode::Headless);
    assert_eq!(
        parse(&["--gui"]),
        Mode::Gui {
            start_minimized: false
        }
    );
    assert_eq!(
        parse(&["--tray"]),
        Mode::Gui {
            start_minimized: true
        }
    );
    assert_eq!(
        parse(&["--minimized"]),
        Mode::Gui {
            start_minimized: true
        }
    );
}

#[test]
fn parse_args_uses_first_recognized_flag() {
    assert_eq!(
        parse(&["--gui", "--probe"]),
        Mode::Gui {
            start_minimized: false
        }
    );
}

#[test]
fn arguments_that_ask_for_no_mode_are_skipped() {
    assert_eq!(parse(&["x", "--Probe", "", "-H", "--gui"]), Mode::Headless);
    assert_eq!(
        parse(&["--probe ", "-h"]),
        Mode::Gui {
            start_minimized: false
        }
    );
}
