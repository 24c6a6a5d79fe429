use cbtr::config::{merge, Config, Entry, File, StringOrVec, Tools};
use cbtr::dispatch::{
    select_commands, Action, Dispatch, DispatchError, DispatchStatus, Operation,
};
use cbtr::paths::DirPath;
use cbtr::runner::RunOutcome;
use cbtr::search::Direction;
use cbtr::views::{BinView, FsView};

fn dp(parts: &[&str]) -> DirPath {
    let mut v: Vec<String> = Vec::new();
    for p in parts {
        v.push(p.to_string());
    }
    DirPath::new(v)
}

fn no_tools() -> Tools {
    Tools { format: None, check: None, build: None, test: None, run: None }
}

#[test]
fn operation_names() {
    assert_eq!(Operation::Format.name(), "format");
    assert_eq!(Operation::Check.name(), "check");
    assert_eq!(Operation::Build.name(), "build");
    assert_eq!(Operation::Test.name(), "test");
    assert_eq!(Operation::Run.name(), "run");
}

#[test]
fn tools_get_reads_the_matching_field() {
    let tools = Tools {
        format: Some(StringOrVec::Single("fmt".to_string())),
        check: None,
        build: Some(StringOrVec::Single("make".to_string())),
        test: None,
        run: None,
    };
    assert!(tools.get(Operation::Format).is_some());
    assert!(tools.get(Operation::Check).is_none());
    assert!(tools.get(Operation::Build).is_some());
    assert!(tools.get(Operation::Test).is_none());
    assert!(tools.get(Operation::Run).is_none());
}

#[test]
fn repository_build_profile_runs_exactly_its_one_command() {
    // Repository config defines profile X with a build tool list of one
    // command; there is no user config. The build operation resolves to
    // exactly that command, and a zero exit code ends the whole dispatch
    // with status zero.
    let mut tools = no_tools();
    tools.build = Some(StringOrVec::Multiple(vec!["make build".to_string()]));
    let x = Entry { name: "X".to_string(), bin: None, file: None, tools };
    let repo = Config { entries: vec![x] };
    let config = merge(Some(repo), None).unwrap();

    let cwd = dp(&["repo"]);
    let root = dp(&["repo"]);
    let cmds = select_commands(
        &config,
        Operation::Build,
        &cwd,
        &root,
        &FsView::new(),
        &BinView::new(),
    )
    .unwrap();
    assert_eq!(cmds, vec!["make build".to_string()]);

    let mut d = Dispatch::new(cmds, false);
    match d.next_action() {
        Action::Execute(tokens) => {
            assert_eq!(tokens, vec!["make".to_string(), "build".to_string()]);
        }
        _ => panic!("expected a command to execute"),
    }
    d.advance(RunOutcome::Exited(0));
    assert_eq!(d.status, DispatchStatus::Succeeded);
    assert!(matches!(d.next_action(), Action::Done));
    assert_eq!(d.exit_code(), 0);
}

#[test]
fn select_reports_no_match() {
    let e = Entry {
        name: "needs-foo".to_string(),
        bin: Some(StringOrVec::Single("foo".to_string())),
        file: None,
        tools: no_tools(),
    };
    let config = Config { entries: vec![e] };
    let cwd = dp(&["repo"]);
    let root = dp(&["repo"]);
    let r = select_commands(
        &config,
        Operation::Build,
        &cwd,
        &root,
        &FsView::new(),
        &BinView::new(),
    );
    assert_eq!(r, Err(DispatchError::NoMatch));
    assert_eq!(DispatchError::NoMatch.exit_code(), 1);
}

#[test]
fn select_reports_missing_tools_for_the_operation() {
    // The first profile matches but registers nothing for the requested
    // operation: that is a configuration error, not a reason to scan on.
    let matched = Entry { name: "X".to_string(), bin: None, file: None, tools: no_tools() };
    let mut later_tools = no_tools();
    later_tools.build = Some(StringOrVec::Single("make".to_string()));
    let later = Entry { name: "Y".to_string(), bin: None, file: None, tools: later_tools };
    let config = Config { entries: vec![matched, later] };
    let cwd = dp(&["repo"]);
    let root = dp(&["repo"]);
    let r = select_commands(
        &config,
        Operation::Build,
        &cwd,
        &root,
        &FsView::new(),
        &BinView::new(),
    );
    assert_eq!(r, Err(DispatchError::NoToolsForOperation));
    assert_eq!(DispatchError::NoToolsForOperation.exit_code(), 1);
}

#[test]
fn profile_matching_respects_the_file_requirement() {
    let mut tools = no_tools();
    tools.check = Some(StringOrVec::Single("cargo check".to_string()));
    let e = Entry {
        name: "rust".to_string(),
        bin: None,
        file: Some(File {
            name: StringOrVec::Single("Cargo.toml".to_string()),
            search_direction: Direction::Backwards,
        }),
        tools,
    };
    let config = Config { entries: vec![e] };
    let cwd = dp(&["repo", "crates", "sub"]);
    let root = dp(&["repo"]);
    let mut fs = FsView::new();
    fs.record(dp(&["repo", "crates"]), "Cargo.toml".to_string());
    let r = select_commands(&config, Operation::Check, &cwd, &root, &fs, &BinView::new());
    assert_eq!(r, Ok(vec!["cargo check".to_string()]));
}

#[test]
fn fail_fast_stops_at_the_second_of_three_commands() {
    // The second command exits with a non-zero code: the third is never
    // handed out, and the final status is the second command's code.
    let cmds = vec!["one".to_string(), "two".to_string(), "three".to_string()];
    let mut d = Dispatch::new(cmds, false);

    match d.next_action() {
        Action::Execute(tokens) => assert_eq!(tokens, vec!["one".to_string()]),
        _ => panic!("expected the first command"),
    }
    d.advance(RunOutcome::Exited(0));
    assert_eq!(d.status, DispatchStatus::Running);

    match d.next_action() {
        Action::Execute(tokens) => assert_eq!(tokens, vec!["two".to_string()]),
        _ => panic!("expected the second command"),
    }
    d.advance(RunOutcome::Exited(7));
    assert_eq!(d.status, DispatchStatus::Failed(7));
    assert_eq!(d.index, 1);
    assert!(matches!(d.next_action(), Action::Done));
    assert_eq!(d.exit_code(), 7);
}

#[test]
fn runner_level_failures_use_the_fixed_code() {
    let mut d = Dispatch::new(vec!["ghost".to_string()], false);
    d.advance(RunOutcome::NotFound);
    assert_eq!(d.status, DispatchStatus::Failed(1));
    assert_eq!(d.exit_code(), 1);

    let mut d2 = Dispatch::new(vec!["ghost".to_string()], false);
    d2.advance(RunOutcome::NoExitCode);
    assert_eq!(d2.status, DispatchStatus::Failed(1));
    assert_eq!(d2.exit_code(), 1);
}

#[test]
fn dry_run_executes_nothing_and_succeeds() {
    // In dry-run mode no command is ever handed out for execution; the
    // loop still walks every command and reports success.
    let cmds = vec!["one".to_string(), "two".to_string()];
    let mut d = Dispatch::new(cmds, true);

    match d.next_action() {
        Action::DryRun(c) => assert_eq!(c, "one".to_string()),
        _ => panic!("expected a dry-run step"),
    }
    d.advance_dry();
    assert_eq!(d.status, DispatchStatus::Running);

    match d.next_action() {
        Action::DryRun(c) => assert_eq!(c, "two".to_string()),
        _ => panic!("expected a dry-run step"),
    }
    d.advance_dry();
    assert_eq!(d.status, DispatchStatus::Succeeded);
    assert!(matches!(d.next_action(), Action::Done));
    assert_eq!(d.exit_code(), 0);
}

#[test]
fn an_empty_command_list_succeeds_at_once() {
    let d = Dispatch::new(Vec::new(), false);
    assert_eq!(d.status, DispatchStatus::Succeeded);
    assert_eq!(d.exit_code(), 0);
}
