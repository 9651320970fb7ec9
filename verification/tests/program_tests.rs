//! Tests of program validation and the run scheduler.

use blert_analysis::analysis::{AnalyzerOutput, Engine, Level};
use blert_analysis::challenge::{Challenge, ChallengeUuid, Status};
use blert_analysis::error::Error;
use blert_analysis::event::{ChallengeData, ChallengeEvents, ChallengeMode, ChallengeType, Stage};
use blert_analysis::item::Registry;
use blert_analysis::program::{
    AnalyzerDefinition, ConfigValue, ProgramConfig, ProgramDefinition,
};
use blert_analysis::stage::StageInfo;

fn definition(implementation: &str, dependencies: Option<Vec<&str>>, value_key: Option<(&str, i64)>)
    -> AnalyzerDefinition {
    AnalyzerDefinition {
        implementation: implementation.to_string(),
        dependencies: dependencies
            .map(|deps| deps.into_iter().map(|d| d.to_string()).collect()),
        config: value_key.map(|(key, v)| {
            ConfigValue::Table(vec![(key.to_string(), ConfigValue::Integer(v))])
        }),
    }
}

fn program(name: &str, analyzers: Vec<(&str, AnalyzerDefinition)>) -> ProgramConfig {
    ProgramConfig {
        program: ProgramDefinition { name: name.to_string() },
        analyzers: analyzers.into_iter().map(|(n, d)| (n.to_string(), d)).collect(),
    }
}

fn trivial_challenge() -> Challenge {
    let data = ChallengeData { stage_data: None };
    let stage = StageInfo::new(
        &data,
        ChallengeEvents {
            stage: Stage::TobMaiden,
            party_names: vec!["p1".to_string()],
            events: Vec::new(),
        },
    )
    .unwrap();
    Challenge::assemble(
        ChallengeUuid { hi: 0x1234, lo: 0x5678 },
        ChallengeType::Tob,
        ChallengeMode::TobRegular,
        Status::InProgress,
        Stage::TobMaiden,
        vec!["p1".to_string()],
        vec![stage],
    )
    .unwrap()
}

#[test]
fn valid_program_accepted() {
    let p = program(
        "basic",
        vec![
            ("a", definition("TestAnalyzer", None, Some(("value", 1)))),
            ("b", definition("TestOffsetAnalyzer", Some(vec!["a"]), Some(("offset", 10)))),
        ],
    );
    assert!(p.validate().is_ok());
}

#[test]
fn cyclic_program_rejected() {
    // A dependency cycle is rejected at load.
    let p = program(
        "cycle",
        vec![
            ("a", definition("TestAnalyzer", Some(vec!["b"]), Some(("value", 1)))),
            ("b", definition("TestOffsetAnalyzer", Some(vec!["a"]), Some(("offset", 1)))),
        ],
    );
    assert!(matches!(p.validate(), Err(Error::Config(_))));
}

#[test]
fn self_cycle_rejected() {
    let p = program(
        "selfcycle",
        vec![("a", definition("TestAnalyzer", Some(vec!["a"]), Some(("value", 1))))],
    );
    assert!(matches!(p.validate(), Err(Error::Config(_))));
}

#[test]
fn dangling_dependency_rejected() {
    let p = program(
        "dangling",
        vec![("a", definition("TestAnalyzer", Some(vec!["ghostly"]), Some(("value", 1))))],
    );
    assert!(matches!(p.validate(), Err(Error::Config(_))));
}

#[test]
fn unknown_implementation_rejected() {
    let p = program("unknown", vec![("a", definition("NoSuchAnalyzer", None, None))]);
    assert!(matches!(p.validate(), Err(Error::Config(_))));
}

#[test]
fn duplicate_name_rejected() {
    let p = program(
        "dup",
        vec![
            ("a", definition("TestAnalyzer", None, Some(("value", 1)))),
            ("a", definition("TestAnalyzer", None, Some(("value", 2)))),
        ],
    );
    assert!(matches!(p.validate(), Err(Error::Config(_))));
}

#[test]
fn unknown_program_is_invalid_argument() {
    let mut engine = Engine::new(Registry::new(Vec::new()));
    engine.start(8);
    match engine.run_program(&"missing".to_string(), Level::Basic) {
        Err(Error::InvalidArgument) => {}
        Err(other) => panic!("expected an invalid-argument error, got {other:?}"),
        Ok(_) => panic!("expected an invalid-argument error, got a run"),
    }
}

#[test]
fn engine_not_started_is_failed_precondition() {
    let mut engine = Engine::new(Registry::new(Vec::new()));
    let p = program("basic", vec![("a", definition("TestAnalyzer", None, Some(("value", 1))))]);
    engine.add_program(p).unwrap();
    match engine.run_program(&"basic".to_string(), Level::Basic) {
        Err(Error::FailedPrecondition(_)) => {}
        Err(other) => panic!("expected a failed-precondition error, got {other:?}"),
        Ok(_) => panic!("expected a failed-precondition error, got a run"),
    }
}

#[test]
fn duplicate_program_rejected_by_engine() {
    let mut engine = Engine::new(Registry::new(Vec::new()));
    let p1 = program("basic", vec![("a", definition("TestAnalyzer", None, Some(("value", 1))))]);
    let p2 = program("basic", vec![("a", definition("TestAnalyzer", None, Some(("value", 2))))]);
    engine.add_program(p1).unwrap();
    assert!(matches!(engine.add_program(p2), Err(Error::Config(_))));
}

#[test]
fn diamond_program_runs_in_dependency_order() {
    // Program {a; b dep a; c dep a}: all three run, a completes first, b and
    // c follow in either order, and all three outputs are retained.
    let registry = Registry::new(Vec::new());
    let mut engine = Engine::new(registry);
    let p = program(
        "diamond",
        vec![
            ("a", definition("TestAnalyzer", None, Some(("value", 1)))),
            ("b", definition("TestOffsetAnalyzer", Some(vec!["a"]), Some(("offset", 10)))),
            ("c", definition("TestOffsetAnalyzer", Some(vec!["a"]), Some(("offset", 20)))),
        ],
    );
    engine.add_program(p).unwrap();
    engine.start(8);

    let challenge = trivial_challenge();
    let mut run = engine.run_program(&"diamond".to_string(), Level::Basic).unwrap();
    let registry = Registry::new(Vec::new());
    run.run_sync(&challenge, &registry).unwrap();
    assert_eq!(run.remaining(), 0);

    let completed = run.completed();
    assert_eq!(completed.len(), 3);
    assert_eq!(completed[0].instance.logical_name, "a");
    let mut names: Vec<String> =
        completed.iter().map(|c| c.instance.logical_name.clone()).collect();
    names.sort();
    assert_eq!(names, vec!["a".to_string(), "b".to_string(), "c".to_string()]);

    // The offset analyzers read the first analyzer's output.
    for c in completed.iter() {
        match (&c.instance.logical_name, &c.output) {
            (name, AnalyzerOutput::Number(v)) if name == "a" => assert_eq!(*v, 1),
            (name, AnalyzerOutput::Number(v)) if name == "b" => assert_eq!(*v, 11),
            (name, AnalyzerOutput::Number(v)) if name == "c" => assert_eq!(*v, 21),
            other => panic!("unexpected completion {other:?}"),
        }
    }
}

#[test]
fn missing_analyzer_config_is_config_error() {
    let mut engine = Engine::new(Registry::new(Vec::new()));
    let p = program("needsconfig", vec![("a", definition("TestAnalyzer", None, None))]);
    engine.add_program(p).unwrap();
    engine.start(1);
    match engine.run_program(&"needsconfig".to_string(), Level::Basic) {
        Err(Error::Config(_)) => {}
        Err(other) => panic!("expected a configuration error, got {other:?}"),
        Ok(_) => panic!("expected a configuration error, got a run"),
    }
}
