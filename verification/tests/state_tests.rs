use madparts::element::Element;
use madparts::settings::settings_from_text;
use madparts::state::{
    DirtyFlag, DrawState, EvalOutcome, IdleAction, LoopState, acknowledge_error,
    any_event_matches, collect_elements, diagnostic_for_display, eval_expression,
    export_basename, eval_step, initial_state, klc_command, klc_not_configured, poll_idle,
    status_ready, window_title,
};

#[test]
fn the_loop_starts_idle_and_dirty() {
    let (state, mut dirty) = initial_state();
    assert_eq!(state, LoopState::Idle);
    assert!(dirty.take());
}

#[test]
fn identical_saves_within_one_tick_coalesce_into_one_evaluation() {
    let mut flag = DirtyFlag::new();
    assert!(flag.take());
    assert!(!flag.take());
    // two writes before the next poll
    flag.mark();
    flag.mark();
    let mut evaluations = 0;
    if flag.take() {
        evaluations += 1;
    }
    if flag.take() {
        evaluations += 1;
    }
    assert_eq!(evaluations, 1);
}

#[test]
fn polling_orders_exit_before_save_before_dirty() {
    assert_eq!(poll_idle(true, true, true), (LoopState::Terminated, IdleAction::Exit));
    assert_eq!(poll_idle(false, true, true), (LoopState::Idle, IdleAction::PromptExport));
    assert_eq!(poll_idle(false, false, true), (LoopState::Evaluating, IdleAction::Evaluate));
    assert_eq!(poll_idle(false, false, false), (LoopState::Idle, IdleAction::Wait));
}

#[test]
fn a_script_diagnostic_shows_with_the_real_path() {
    let outcome = EvalOutcome::ScriptError(String::from(
        "Traceback:\n  File \"<string>\", line 1\nNameError: x",
    ));
    let (state, text) = eval_step(&outcome, "/home/me/part.py");
    assert_eq!(state, LoopState::ErrorShown);
    let text = text.unwrap();
    assert!(text.contains("/home/me/part.py"));
    assert!(!text.contains("<string>"));
    assert_eq!(acknowledge_error(), LoopState::Idle);
}

#[test]
fn a_sole_script_error_element_reaches_the_text_pane() {
    let wires = vec![String::from(r#"{"t":"PythonError","message":"NameError: x"}"#)];
    let outcome = collect_elements(&wires);
    match &outcome {
        EvalOutcome::ScriptError(m) => assert_eq!(m, "NameError: x"),
        other => panic!("expected a script error, got {:?}", other),
    }
    let (state, text) = eval_step(&outcome, "/home/me/part.py");
    assert_eq!(state, LoopState::ErrorShown);
    assert_eq!(text.unwrap(), "NameError: x");
}

#[test]
fn good_wire_texts_collect_into_elements() {
    let wires = vec![
        String::from(r#"{"t":"Rect","x":0,"y":0,"dx":2,"dy":1,"w":0.1,"filled":true,"layer":"F.Cu"}"#),
        String::from(r#"{"t":"Line","x1":0,"y1":0,"x2":1,"y2":1,"w":0.2,"layer":"F.SilkS"}"#),
    ];
    match collect_elements(&wires) {
        EvalOutcome::Elements(es) => {
            assert_eq!(es.len(), 2);
            let (state, text) = eval_step(&EvalOutcome::Elements(es), "p");
            assert_eq!(state, LoopState::Idle);
            assert!(text.is_none());
        },
        other => panic!("expected elements, got {:?}", other),
    }
}

#[test]
fn unchanged_wire_texts_evaluate_to_equal_element_lists() {
    let wires = vec![
        String::from(r#"{"t":"Rect","x":0,"y":0,"dx":2,"dy":1,"w":0.1,"filled":true,"layer":"F.Cu"}"#),
        String::from(r#"{"t":"Smd","name":"1","x":-2,"y":0,"dx":1,"dy":0.5,"layers":["F.Cu"]}"#),
    ];
    let first = collect_elements(&wires);
    let second = collect_elements(&wires);
    match (first, second) {
        (EvalOutcome::Elements(a), EvalOutcome::Elements(b)) => assert_eq!(a, b),
        other => panic!("expected two element lists, got {:?}", other),
    }
}

#[test]
fn a_malformed_wire_text_surfaces_as_an_error() {
    let wires = vec![String::from(r#"{"t":"Rect"}"#)];
    let outcome = collect_elements(&wires);
    assert!(matches!(outcome, EvalOutcome::Malformed(_)));
    let (state, text) = eval_step(&outcome, "p");
    assert_eq!(state, LoopState::ErrorShown);
    assert!(text.unwrap().starts_with("bad Rect in Element "));
}

#[test]
fn the_marker_substitution_replaces_every_occurrence() {
    assert_eq!(
        diagnostic_for_display("<string> and <string>", "a.py"),
        "a.py and a.py"
    );
    assert_eq!(diagnostic_for_display("clean", "a.py"), "clean");
}

#[test]
fn draw_state_names_itself_after_the_first_name_element() {
    let mut state = DrawState::default();
    assert_eq!(state.name(), "NAME");
    let wires = vec![
        String::from(r#"{"t":"Name","x":0,"y":-2,"dy":1,"txt":"TSSOP14","thickness":0.15,"layer":"F.Fab"}"#),
    ];
    match collect_elements(&wires) {
        EvalOutcome::Elements(es) => {
            let exts = vec![madparts::element::TextExt { w: 2_000_000, h: 1_000_000 }];
            state.update(es, &exts);
        },
        other => panic!("expected elements, got {:?}", other),
    }
    assert_eq!(state.name(), "TSSOP14");
    assert_eq!(state.bound.min_x, -1_000_000);
    assert_eq!(state.bound.max_y, -1_500_000);
}

#[test]
fn watcher_matches_only_the_watched_file() {
    let names = vec![String::from("other.py"), String::from("part.py")];
    assert!(any_event_matches(&names, "part.py"));
    assert!(!any_event_matches(&names, "missing.py"));
    assert!(!any_event_matches(&Vec::new(), "part.py"));
}

#[test]
fn settings_read_the_linter_directory() {
    let s = settings_from_text(Some(r#"{ "klc_dir": "/opt/klc" }"#));
    assert_eq!(s.klc_dir.as_deref(), Some("/opt/klc"));
    assert_eq!(settings_from_text(Some("{ broken")).klc_dir, None);
    assert_eq!(settings_from_text(Some(r#"{"klc_dir": 3}"#)).klc_dir, None);
    assert_eq!(settings_from_text(Some("{}")).klc_dir, None);
    assert_eq!(settings_from_text(None).klc_dir, None);
}

#[test]
fn the_shell_strings_are_exact() {
    assert_eq!(window_title("TSSOP14"), "madparts (rustic edition) 0.1.0 : TSSOP14");
    assert_eq!(status_ready("TSSOP14"), "TSSOP14 ready.");
    assert_eq!(export_basename("TSSOP14"), "TSSOP14.kicad_mod");
    assert_eq!(klc_not_configured(), "KLC not configured");
    assert_eq!(eval_expression("/p/a.py"), "handle_load_python(\"/p/a.py\")");
}

#[test]
fn the_linter_is_invoked_as_documented() {
    let (interpreter, args) = klc_command("/tmp/x/TSSOP14.kicad_mod");
    assert_eq!(interpreter, "/usr/bin/python");
    assert_eq!(
        args,
        vec![
            String::from("check_kicad_mod.py"),
            String::from("--nocolor"),
            String::from("-v"),
            String::from("/tmp/x/TSSOP14.kicad_mod"),
        ]
    );
}
