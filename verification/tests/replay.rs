use weaver::harness::replay::{
    compare, edit_ask, edits_at, group, judge, replay_identity, replay_plan, reproduction,
    Comparison, Divergence, Edit, EditAsk, Grouped, ReplayStep, Reproduction, SourceGeneration,
};
use weaver::harness::state::{parse_replay_answer, Recalled};
use weaver::wire::{Finish, Generation};

fn generation(turn: &str, request: u64, measurement: u64) -> String {
    format!(
        r#"{{"envelope":{{"kind":"model.request","run":"r-1","turn":"{t}","sequence":"{a}"}},"pairs":{{"rendered":"hi","template":"tmpl","sampling":{{"seed":37}}}}}},{{"envelope":{{"kind":"model.measurement","run":"r-1","turn":"{t}","sequence":"{b}"}},"pairs":{{"input_tokens":[1,2],"output_tokens":[3],"model":"art","weights_hash":"h"}}}}"#,
        t = turn,
        a = request,
        b = measurement
    )
}

fn holdings(events: &[String]) -> String {
    format!("{}{}{}\n", r#"{"answer":{"replay":{"events":["#, events.join(","), r#"]}}}"#)
}

fn flush_event(sequence: u64, before: u64, after: u64) -> String {
    format!(
        r#"{{"envelope":{{"kind":"flush","run":"r-1","sequence":"{sequence}"}},"pairs":{{"resident_before":{before},"resident_after":{after}}}}}"#
    )
}

fn recall_event(sequence: u64, verb: &str) -> String {
    format!(
        r#"{{"envelope":{{"kind":"recall","run":"r-1","sequence":"{s}"}},"pairs":{{"ask":{{"verb":"{v}"}},"returned":[],"count":0}}}}"#,
        s = sequence,
        v = verb
    )
}

fn served(answer: &str) -> Vec<Recalled> {
    parse_replay_answer(answer.trim_end()).expect("the holdings parse")
}

fn grouped(events: &[String]) -> Result<Grouped, String> {
    group(&served(&holdings(events)))
}

fn refused(events: &[String]) -> String {
    match grouped(events) {
        Ok(_) => panic!("the grouping refuses"),
        Err(detail) => detail,
    }
}

fn sealed_answer() -> String {
    holdings(&[generation("t-1", 4, 6)])
}

fn refed(measurement: &str, resident: u64) -> Generation {
    Generation {
        content: vec![],
        emission: "hi".into(),
        finish: Finish::Completed,
        resident,
        capacity: 64,
        request: r#"{"rendered":"hi","template":"tmpl","sampling":{"seed":37}}"#.into(),
        measurement: measurement.into(),
    }
}

fn recorded() -> SourceGeneration {
    let grouped = group(&served(&sealed_answer())).expect("groups");
    let mut turns = grouped.turns;
    let (_, mut generations) = turns.remove(0);
    generations.remove(0)
}

#[test]
fn a_matching_replay_certifies_under_the_runs_own_session() {
    let grouped = group(&served(&sealed_answer())).expect("groups");
    assert_eq!(grouped.turns.len(), 1);
    assert_eq!(grouped.turns[0].0, "t-1");
    let identity = replay_identity(&grouped, "art").expect("the identity stands");
    assert_eq!(identity.model, "art");
    assert_eq!(identity.weights_hash, "h");
    assert_eq!(identity.template, "tmpl");
    assert_eq!(
        replay_plan(&grouped),
        vec![ReplayStep::Start(0), ReplayStep::Refeed(0, 0), ReplayStep::Close(0), ReplayStep::Certify]
    );
    let source = &grouped.turns[0].1[0];
    let answer = refed(r#"{"input_tokens":[1,2],"output_tokens":[3],"model":"art","weights_hash":"h"}"#, 6);
    assert_eq!(compare(source, &answer), Comparison::Matches);
}

#[test]
fn a_diagnostic_destination_certifies_without_renaming_source_evidence() {
    let grouped = group(&served(&sealed_answer())).expect("groups");
    assert_eq!(
        replay_identity(&grouped, "another").err(),
        Some("the record replays art and the load declared another".to_string())
    );
    let source = &grouped.turns[0].1[0];
    assert_eq!(source.sampling, r#"{"seed":37}"#);
    assert_eq!(source.rendered, "hi");
}

#[test]
fn refused_holdings_author_no_identity() {
    let unpaired = r#"{"envelope":{"kind":"model.measurement","run":"r-1","turn":"t-1","sequence":"6"},"pairs":{"input_tokens":[1,2],"output_tokens":[3],"model":"art","weights_hash":"h"}}"#;
    let detail = refused(&[unpaired.to_string()]);
    assert_eq!(detail, "a model.measurement in turn t-1 has no preceding unpaired request");
}

#[test]
fn the_holdings_replay_one_run() {
    let other_run = generation("t-2", 9, 11).replace("r-1", "r-2");
    assert_eq!(
        refused(&[generation("t-1", 4, 6), other_run]),
        "the holdings span runs r-1 and r-2, and this pass replays one"
    );
}

#[test]
fn a_turn_that_resumes_after_another_refuses() {
    let events = [generation("t-1", 1, 2), generation("t-2", 3, 4), generation("t-1", 5, 6)];
    assert_eq!(refused(&events), "turn t-1 resumes after another turn intervened");
}

#[test]
fn a_request_that_pairs_with_nothing_refuses() {
    let request = r#"{"envelope":{"kind":"model.request","run":"r-1","turn":"t-1","sequence":"4"},"pairs":{"rendered":"hi","template":"tmpl","sampling":{"seed":37}}}"#;
    assert_eq!(refused(&[request.to_string()]), "a model.request in turn t-1 pairs with nothing");
    assert_eq!(
        refused(&[request.to_string(), request.to_string()]),
        "two model.request events stand unpaired in turn t-1"
    );
}

#[test]
fn the_replay_certifies_past_the_flush() {
    let grouped = grouped(&[generation("t-36", 250, 252), flush_event(255, 26551, 38), generation("t-37", 259, 261)])
        .expect("groups");
    assert_eq!(grouped.edits, vec![(1usize, Edit::Flush { before: 26551, after: 38 })]);
    assert_eq!(edits_at(&grouped.edits, 1), vec![Edit::Flush { before: 26551, after: 38 }]);
    assert_eq!(edits_at(&grouped.edits, 0), vec![]);
    assert_eq!(
        replay_plan(&grouped),
        vec![
            ReplayStep::Start(0),
            ReplayStep::Refeed(0, 0),
            ReplayStep::Close(0),
            ReplayStep::Reproduce(Edit::Flush { before: 26551, after: 38 }),
            ReplayStep::Start(1),
            ReplayStep::Refeed(1, 0),
            ReplayStep::Close(1),
            ReplayStep::Certify,
        ]
    );
    assert_eq!(edit_ask(Edit::Flush { before: 26551, after: 38 }), EditAsk::Flush { keep: 38 });
    assert_eq!(reproduction(Edit::Flush { before: 26551, after: 38 }, Some((26551, 38))), Reproduction::Continue);
}

#[test]
fn a_flush_that_disagrees_with_the_record_abandons_at_identity() {
    assert_eq!(
        reproduction(Edit::Flush { before: 26600, after: 38 }, Some((26551, 38))),
        Reproduction::Refused(
            "the replay's flush took the resident from 26551 to 38 where the record's went from 26600 to 38"
                .to_string()
        )
    );
    assert_eq!(reproduction(Edit::Flush { before: 1, after: 0 }, None), Reproduction::Ended);
}

#[test]
fn the_replay_certifies_past_an_elision() {
    let elision = r#"{"envelope":{"kind":"elision","run":"r-1","sequence":"7"},"pairs":{"from":10,"to":20,"resident_before":94,"resident_after":84}}"#;
    let grouped = grouped(&[generation("t-1", 4, 6), elision.to_string(), generation("t-2", 9, 11)]).expect("groups");
    let edit = Edit::Elision { from: 10, to: 20, before: 94, after: 84 };
    assert_eq!(grouped.edits, vec![(1usize, edit)]);
    assert_eq!(edit_ask(edit), EditAsk::Elide { from: 10, to: 20 });
    assert_eq!(reproduction(edit, Some((94, 84))), Reproduction::Continue);
}

#[test]
fn an_edit_without_its_place_or_its_counts_refuses_the_grouping() {
    let inside = [
        r#"{"envelope":{"kind":"model.request","run":"r-1","turn":"t-1","sequence":"4"},"pairs":{"rendered":"hi","template":"tmpl","sampling":{"seed":37}}}"#.to_string(),
        flush_event(5, 6, 3),
        r#"{"envelope":{"kind":"model.measurement","run":"r-1","turn":"t-1","sequence":"6"},"pairs":{"input_tokens":[1,2],"output_tokens":[3],"model":"art","weights_hash":"h"}}"#.to_string(),
    ];
    let bare = [
        generation("t-1", 4, 6),
        r#"{"envelope":{"kind":"flush","run":"r-1","sequence":"7"},"pairs":{}}"#.to_string(),
        generation("t-2", 9, 11),
    ];
    assert!(refused(&inside).contains("lands inside turn t-1"));
    assert_eq!(refused(&bare), "the flush at sequence 7 holds no resident_before");
}

#[test]
fn an_unrecorded_opening_refuses_certification_and_another_fault_does_not() {
    let fault = |case: &str| {
        format!(r#"{{"envelope":{{"kind":"fault","run":"r-1","sequence":"2"}},"pairs":{{"case":"{case}"}}}}"#)
    };
    let detail = refused(&[fault("identity_prefix_unrecorded"), generation("t-1", 4, 6)]);
    assert!(detail.contains("identity_prefix_unrecorded"), "{detail}");
    assert!(grouped(&[fault("recorder_commit_pressure"), generation("t-1", 4, 6)]).is_ok());
}

fn m1_recalled_holdings(between: &[String]) -> Vec<String> {
    let mut events = vec![recall_event(1, "identity"), generation("t-36", 250, 252), flush_event(255, 26551, 38)];
    events.extend_from_slice(between);
    events.push(generation("t-37", 259, 261));
    events
}

#[test]
fn a_post_flush_request_without_a_recall_refuses_certification() {
    let detail = refused(&m1_recalled_holdings(&[]));
    assert!(detail.contains("flush at sequence 255") && detail.contains("t-37"), "{detail}");
    assert!(grouped(&m1_recalled_holdings(&[recall_event(257, "recall")])).is_ok());
    assert!(grouped(&m1_recalled_holdings(&[recall_event(257, "identity")])).is_err());
    assert!(
        grouped(&[generation("t-36", 250, 252), flush_event(255, 26551, 38), generation("t-37", 259, 261)]).is_ok(),
        "a record with no recall kind is read as older than it"
    );
}

#[test]
fn each_flush_needs_its_own_recall() {
    let events = [
        recall_event(1, "identity"),
        generation("t-36", 250, 252),
        flush_event(255, 26551, 38),
        recall_event(257, "recall"),
        generation("t-37", 259, 261),
        flush_event(262, 42, 20),
        generation("t-38", 264, 266),
    ];
    let detail = refused(&events);
    assert!(detail.contains("flush at sequence 262") && detail.contains("t-38"), "{detail}");
}

#[test]
fn a_draw_divergence_names_the_resident_length_at_the_draw() {
    let answer = refed(r#"{"input_tokens":[1,2],"output_tokens":[4],"model":"art","weights_hash":"h"}"#, 6);
    assert_eq!(
        compare(&recorded(), &answer),
        Comparison::Diverged(Divergence::TokenPath { position: 4, recorded: 3, recomputed: 4 })
    );
}

#[test]
fn an_input_divergence_names_the_tokens_resident_length() {
    let answer = refed(r#"{"input_tokens":[1,9],"output_tokens":[3],"model":"art","weights_hash":"h"}"#, 6);
    assert_eq!(
        compare(&recorded(), &answer),
        Comparison::Diverged(Divergence::TokenPath { position: 3, recorded: 2, recomputed: 9 })
    );
}

#[test]
fn a_shorter_path_diverges_where_it_ends() {
    let source = recorded();
    assert_eq!(
        judge(&source, &vec![1, 2], &vec![3, 5], 7),
        Comparison::Diverged(Divergence::TokenPath { position: 5, recorded: 0, recomputed: 5 })
    );
    assert_eq!(
        judge(&source, &vec![1], &vec![3], 5),
        Comparison::Diverged(Divergence::TokenPath { position: 3, recorded: 2, recomputed: 0 })
    );
}

#[test]
fn a_closing_count_too_small_breaks_identity() {
    let source = recorded();
    assert_eq!(
        judge(&source, &vec![1, 2], &vec![3], 1),
        Comparison::IdentityBroken("the re-fed closing count 1 cannot hold its 1 draws and the terminator".into())
    );
    assert_eq!(
        judge(&source, &vec![1, 2], &vec![3], 3),
        Comparison::IdentityBroken("the re-fed closing count 3 cannot hold its 2 appended input tokens".into())
    );
}

#[test]
fn the_loaded_identity_must_be_the_recorded_one() {
    let source = recorded();
    let answer = refed(r#"{"input_tokens":[1,2],"output_tokens":[3],"model":"art","weights_hash":"h2"}"#, 6);
    assert_eq!(
        compare(&source, &answer),
        Comparison::IdentityBroken("the loaded weights hash Some(String(\"h2\")) is not the recorded h".into())
    );
    let mut answer = refed(r#"{"input_tokens":[1,2],"output_tokens":[3],"model":"art","weights_hash":"h"}"#, 6);
    answer.request = r#"{"rendered":"hi","template":"tmpl","sampling":{"seed":38}}"#.into();
    assert!(matches!(compare(&source, &answer), Comparison::IdentityBroken(d) if d.contains("effective sampling")));
    let unparsed = refed("not json", 6);
    assert_eq!(compare(&source, &unparsed), Comparison::IdentityBroken("the re-fed measurement does not parse".into()));
    let missing = refed(r#"{"output_tokens":[3]}"#, 6);
    assert_eq!(
        compare(&source, &missing),
        Comparison::IdentityBroken("the re-fed measurement holds no input_tokens".into())
    );
}

#[test]
fn the_sampling_is_held_as_values_not_as_text() {
    let mut source = recorded();
    source.sampling = r#"{"seed":37,"temperature":-0.0}"#.into();
    let mut answer = refed(r#"{"input_tokens":[1,2],"output_tokens":[3],"model":"art","weights_hash":"h"}"#, 6);
    answer.request = r#"{"rendered":"hi","template":"tmpl","sampling":{"temperature":0.0,"seed":37}}"#.into();
    assert!(
        !matches!(compare(&source, &answer), Comparison::IdentityBroken(_)),
        "a signed zero is the same sampling value"
    );
    answer.request = r#"{"rendered":"hi","template":"tmpl","sampling":{"temperature":0.5,"seed":37}}"#.into();
    assert_eq!(
        compare(&source, &answer),
        Comparison::IdentityBroken(
            "the effective sampling Some(Object {\"seed\": Number(37), \"temperature\": Number(0.5)}) is not the recorded {\"seed\":37,\"temperature\":-0.0}".into()
        )
    );
}

#[test]
fn a_grouping_holds_each_turn_once_with_its_edits_in_place() {
    let events = vec![
        flush_event(1, 10, 2),
        generation("t-1", 2, 3),
        flush_event(4, 30, 5),
        generation("t-1", 5, 6),
        generation("t-2", 7, 8),
        flush_event(9, 40, 6),
    ];
    let g = grouped(&events).expect("groups");
    let names: Vec<&str> = g.turns.iter().map(|(t, _)| t.as_str()).collect();
    assert_eq!(names, vec!["t-1", "t-2"]);
    assert_eq!(g.turns[0].1.len(), 2);
    assert_eq!(g.turns[1].1.len(), 1);
    let places: Vec<usize> = g.edits.iter().map(|(at, _)| *at).collect();
    assert_eq!(places, vec![0, 1, 2]);
}
