use jarvisd::api::{
    api_not_found, health, router, router_with, Access, AdapterState, AppState, ServiceStatus,
    Wiring,
};
use jarvisd::cli::{parse, Command, USAGE};
use jarvisd::config::{BindAddress, Config};
use jarvisd::daemon::{
    dispatcher_restart, latest_user_text, poll_provider_health, poll_wait_secs, recover, shutdown_steps, start_plan,
    wiring, ShutdownStep, DISPATCH_RESTART_BACKOFF_SECS, HEALTH_IDLE_SECS, HEALTH_POLL_SECS,
};
use jarvisd::display::DisplayProfile;
use jarvisd::maps::{attribution, tile_path, DEFAULT_ATTRIBUTION};
use jarvisd::orchestrator_ports::{
    render, EchoModel, MemoryAssembler, MemoryHit, ModelEvent, PassthroughAssembler, FRAME_HEAD,
    FRAME_TAIL, MAX_HITS,
};
use jarvisd::artifacts::Sensitivity;
use jarvisd::runs::{Message, MessageRole, ParkedRuns, Run, RunBudget, RunInput, RunState};
use jarvisd::time::Timestamp;

const NOW: Timestamp = Timestamp { nanos: 1_700_000_000_000_000_000 };

const BUDGET: RunBudget = RunBudget {
    max_model_turns: 1,
    max_tool_calls: 2,
    max_duration_secs: 3,
    max_artifact_bytes: 4,
};

fn argv(words: &[&str]) -> Vec<String> {
    words.iter().map(|w| (*w).to_owned()).collect()
}

#[test]
fn the_command_line_takes_one_word_and_no_flags() {
    assert_eq!(parse(argv(&["jarvisd"])), Ok(Command::Serve));
    assert_eq!(parse(argv(&["jarvisd", "migrate"])), Ok(Command::Migrate));
    assert_eq!(parse(argv(&["jarvisd", "--help"])), Ok(Command::Help));
    let unknown = parse(argv(&["jarvisd", "mi\ngrate"])).unwrap_err();
    assert_eq!(unknown, format!("unknown subcommand \"mi\\ngrate\"\n{USAGE}"));
    let tail = parse(argv(&["jarvisd", "migrate", "--dry-run"])).unwrap_err();
    assert!(tail.starts_with("unexpected argument \"--dry-run\""));
}

fn config() -> Config {
    Config::defaults("reasoner".to_owned())
}

fn loopback() -> BindAddress {
    BindAddress::Socket { shown: "127.0.0.1:7878".to_owned(), loopback: true }
}

fn no_profile() -> DisplayProfile {
    DisplayProfile { assignments: Vec::new() }
}

#[test]
fn a_fresh_start_reaches_nothing() {
    let plan = start_plan(&config(), &no_profile()).expect("starts");
    assert!(plan.smtp_secret.is_none() && plan.caldav_secret.is_none() && plan.web.is_none());
    assert!(!plan.media && plan.archive.is_none() && !plan.cast);
    let wired = wiring(&plan, true, &config(), &loopback());
    assert!(wired.public_health && !wired.media && !wired.maps);
    let off = BindAddress::Socket { shown: "10.0.0.2:7878".to_owned(), loopback: false };
    assert!(!wiring(&plan, true, &config(), &off).public_health);
}

#[test]
fn a_volume_that_is_no_percentage_stops_the_start() {
    let mut c = config();
    c.integrations.media.max_volume_pct = 101;
    let why = start_plan(&c, &no_profile()).unwrap_err();
    assert!(why.contains("max_volume_pct"), "{why}");
}

#[test]
fn an_unfinished_run_starts_from_the_top_with_the_last_question() {
    let say = |role, text: &str| Message {
        id: "m".to_owned(),
        session_id: "s".to_owned(),
        role,
        text: text.to_owned(),
        created_at: NOW,
    };
    let messages = vec![
        say(MessageRole::User, "first"),
        say(MessageRole::User, "second"),
        say(MessageRole::Assistant, "answer"),
    ];
    assert_eq!(latest_user_text(Some(&messages)), "second");
    assert_eq!(latest_user_text(None), "");
    let mut run = Run::new("r".to_owned(), "s".to_owned(), BUDGET);
    run.state = RunState::InFlight("model_running".to_owned());
    let (again, input) = recover(run, "second".to_owned());
    assert!(matches!(again.state, RunState::Received));
    assert_eq!((again.id.as_str(), again.budget, input.text.as_str()), ("r", BUDGET, "second"));
}

#[test]
fn loops_pace_themselves_and_stop_in_order() {
    assert_eq!(poll_wait_secs(1), HEALTH_POLL_SECS);
    assert_eq!(poll_wait_secs(0), HEALTH_IDLE_SECS);
    assert_eq!(dispatcher_restart(true), Some(DISPATCH_RESTART_BACKOFF_SECS));
    assert_eq!(dispatcher_restart(false), None);
    let mut parked = ParkedRuns::new();
    assert_eq!(poll_provider_health(&mut parked).1, HEALTH_IDLE_SECS);
    for id in ["a", "b"] {
        let run = Run::new(id.to_owned(), "s".to_owned(), BUDGET);
        assert!(parked.park(run, RunInput { text: String::new() }).is_ok());
    }
    let (resumed, wait) = poll_provider_health(&mut parked);
    assert_eq!((resumed.expect("one run").0.id.as_str(), wait), ("a", HEALTH_POLL_SECS));
    let steps = shutdown_steps(true);
    let at = |step| steps.iter().position(|s| *s == step).expect("a step");
    assert!(at(ShutdownStep::DrainRuns) < at(ShutdownStep::StopDispatcher));
    assert!(!shutdown_steps(false).contains(&ShutdownStep::JoinTimers));
}

#[test]
fn a_lost_database_degrades_the_service() {
    let mut state = AppState::new();
    state.set_adapter("media", AdapterState::Disabled, None);
    let up = health(&mut state, Some(Ok(())), "1.0", Some("123-456".to_owned()), Some("dark"));
    assert_eq!(up.ui, Some("dark"));
    assert_eq!(up.adapters.len(), 2);
    assert_eq!(up.status, ServiceStatus::Healthy);
    assert_eq!(up.pairing_code.as_deref(), Some("123-456"));
    let down = health(&mut state, Some(Err("unreachable")), "1.0", None, None::<()>);
    assert_eq!(down.status, ServiceStatus::Degraded);
    assert_eq!(state.adapters()[0].1.detail.as_deref(), Some("unreachable"));
    assert_eq!(api_not_found().status, 404);
}

#[test]
fn only_health_and_pairing_are_open() {
    let all = Wiring {
        sessions: true,
        runs: true,
        artifacts: true,
        appbridge: true,
        display: true,
        media: true,
        maps: true,
        timers: true,
        lists: true,
        deepdive: true,
        memories: true,
        web_assets: false,
        public_health: false,
    };
    let routes = router_with(true, all);
    let health = routes.iter().find(|r| r.path == "/api/v1/diagnostics/health").expect("health is served");
    assert_ne!(health.access, Access::Open);
    for r in &routes {
        if r.access == Access::Open {
            assert!(r.path.contains("pair"), "{} is open", r.path);
        }
    }
    // A node that is no owner reaches the socket.
    assert!(routes.iter().any(|r| r.access == Access::Paired && r.path.contains("ws")));
    let bare = router(false);
    assert!(bare.iter().all(|r| r.access == Access::Open));
    assert!(bare.iter().any(|r| r.path == "/api/v1/diagnostics/health"));
}

#[test]
fn the_echo_model_says_back_what_it_hears() {
    let events = EchoModel::default().run("hello there");
    let mut said = String::new();
    let mut stopped = false;
    for event in &events {
        match event {
            ModelEvent::TextDelta(part) => said.push_str(part),
            ModelEvent::Stop => stopped = true,
        }
    }
    assert!(said.contains("hello there"), "{said}");
    assert!(stopped && matches!(events.last(), Some(ModelEvent::Stop)));
    let input = RunInput { text: "hi".to_owned() };
    assert_eq!(PassthroughAssembler.assemble(&input), "hi");
}

fn hit(text: &str, sensitivity: Sensitivity) -> MemoryHit {
    MemoryHit { id: format!("id of {text}"), text: text.to_owned(), sensitivity }
}

#[test]
fn memories_follow_the_prompt_inside_their_frame() {
    let hits = vec![hit("tea", Sensitivity::Normal), hit("pin", Sensitivity::Sensitive)];
    let (prompt, used) = render("What now?", &hits);
    assert!(prompt.starts_with("What now?"));
    assert!(prompt.contains(FRAME_HEAD) && prompt.ends_with(FRAME_TAIL));
    assert!(prompt.contains("tea") && !prompt.contains("pin"));
    assert_eq!(used, [0]);
    assert_eq!(render("Plain", &Vec::new()), ("Plain".to_owned(), Vec::new()));
    let many: Vec<MemoryHit> =
        (0..20).map(|i| hit(&format!("memory {i}"), Sensitivity::Normal)).collect();
    assert_eq!(render("p", &many).1.len(), MAX_HITS);
}

#[test]
fn the_agenda_is_of_the_day_that_holds_now() {
    let assembler = MemoryAssembler::new().with_calendar().with_audit();
    let (from, to) = assembler.agenda(Some("u"), true, NOW).expect("an agenda");
    assert!(from.nanos <= NOW.nanos && NOW.nanos < to.nanos);
    assert_eq!(to.nanos - from.nanos, 86_400_000_000_000);
    assert!(assembler.agenda(Some("u"), false, NOW).is_none());
    assert!(MemoryAssembler::new().agenda(Some("u"), true, NOW).is_none());
    let (given, audit) = assembler.agenda_read("u", Some(vec![1, 2, 3]), 2, NOW);
    assert_eq!(given, Some(vec![1, 2]));
    let audit = audit.expect("a read is on record");
    assert_eq!((audit.actor.as_str(), audit.event_type.as_str()), ("user:u", "calendar.read"));
    let (given, audit) = assembler.agenda_read::<u8>("u", None, 2, NOW);
    assert!(given.is_none() && audit.is_none());
    let quiet = MemoryAssembler::new().agenda_read("u", Some(vec![1]), 2, NOW);
    assert!(quiet.0 == Some(vec![1]) && quiet.1.is_none());
}

#[test]
fn the_memories_of_a_run_go_on_record() {
    let hits = vec![
        hit("pin", Sensitivity::Sensitive),
        hit("tea", Sensitivity::Normal),
        hit("jam", Sensitivity::Normal),
    ];
    let input = RunInput { text: "hi".to_owned() };
    let kept = MemoryAssembler::new().with_context_store();
    let context = kept.assemble_for_user("R", &input, Some("u"), Some(&hits), NOW);
    assert_eq!(context.prompt, render("hi", &hits).0);
    let uses: Vec<(&str, &str, usize, i32)> = context
        .uses
        .iter()
        .map(|u| (u.run_id.as_str(), u.memory_id.as_str(), u.hit, u.rank))
        .collect();
    assert_eq!(uses, [("R", "id of tea", 1, 0), ("R", "id of jam", 2, 1)]);
    let unkept = MemoryAssembler::new().assemble_for_user("R", &input, Some("u"), Some(&hits), NOW);
    assert!(unkept.uses.is_empty() && unkept.prompt == context.prompt);
    let nobody = kept.assemble_for_user("R", &input, None, Some(&hits), NOW);
    assert!(nobody.prompt == "hi" && nobody.uses.is_empty());
    let failed = kept.assemble_for_user("R", &input, Some("u"), None, NOW);
    assert!(failed.prompt == "hi" && failed.uses.is_empty());
}

#[test]
fn attribution_always_names_openstreetmap() {
    assert_eq!(attribution(&None, &None), DEFAULT_ATTRIBUTION);
    let own = attribution(&Some("Acme".to_owned()), &None);
    assert!(own.starts_with("Acme") && own.contains("OpenStreetMap"));
    let archive = attribution(&Some("  ".to_owned()), &Some("OpenStreetMap data".to_owned()));
    assert_eq!(archive, "OpenStreetMap data");
}

#[test]
fn tile_paths_are_plain_numbers_on_the_grid() {
    assert!(tile_path("1", "1", "0").is_ok());
    for (z, x, y) in [("1", "2", "0"), ("+1", "0", "0"), ("27", "0", "0"), ("a", "0", "0")] {
        assert_eq!(tile_path(z, x, y).err().expect("refused").status, 400);
    }
}
