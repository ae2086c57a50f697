use spis::cancel::{cancel_next, CancelAction, CancelEvent, CancelPhase};
use spis::generate::{generate_outcome, GenerateOutcome};
use spis::html::{
    extract_tag_candidates, lowered_score, page_image_candidates, preflight_score, slug_of_lowercased,
    slugify_name, Candidate,
};
use spis::json::Json;
use spis::start::{start_decision, StartDecision};
use spis::submit::{after_drive_failure, continue_step, ContinueAction, ContinueEvent, DriveFailure};

fn object(fields: &[(&str, &str)]) -> Json {
    Json::Object(
        fields
            .iter()
            .map(|(k, v)| (k.to_string(), Json::Str(v.to_string())))
            .collect(),
    )
}

#[test]
fn cancellation_persists_before_publishing() {
    let (phase, action) = cancel_next(CancelPhase::Start, CancelEvent::Begin);
    assert_eq!(action, CancelAction::PersistIntent);
    // Nothing is published or dispatched until persistence was observed.
    let (stuck, stop) = cancel_next(phase, CancelEvent::Published(true));
    assert_eq!(stop, CancelAction::Stop);
    assert_ne!(stuck, CancelPhase::LookingUp);
    let (phase, action) = cancel_next(phase, CancelEvent::Persisted);
    assert_eq!((phase, action), (CancelPhase::IntentDurable, CancelAction::PublishIntent));
    let (phase, action) = cancel_next(phase, CancelEvent::Published(true));
    assert_eq!((phase, action), (CancelPhase::LookingUp, CancelAction::LookupStatus));
}

#[test]
fn a_record_never_submitted_settles_after_publication() {
    let (phase, _) = cancel_next(CancelPhase::Start, CancelEvent::Begin);
    let (phase, _) = cancel_next(phase, CancelEvent::Persisted);
    let (phase, action) = cancel_next(phase, CancelEvent::Published(false));
    assert_eq!((phase, action), (CancelPhase::Settling, CancelAction::PersistResult));
}

#[test]
fn settled_records_are_left_alone() {
    let report = object(&[("state", "passed")]);
    for state in ["completed", "queued", "running", "imported", "cancelled"] {
        let entry = object(&[("record", "alpha"), ("state", state)]);
        let (after, action) = continue_step(entry, ContinueEvent::Begin(report.duplicate()));
        assert_eq!(action, ContinueAction::Done);
        assert_eq!(after.get_str("state"), Some(state));
        assert_eq!(after.get_str("record"), Some("alpha"));
    }
    let entry = object(&[("record", "beta"), ("state", "planned"), ("stado_job_id", "job-7")]);
    let (after, action) = continue_step(entry, ContinueEvent::Begin(report));
    assert_eq!(action, ContinueAction::Done);
    assert_eq!(after.get_str("state"), Some("planned"));
    assert_eq!(after.get_str("stado_job_id"), Some("job-7"));
}

#[test]
fn start_continues_only_its_own_run() {
    assert_eq!(start_decision(None, "abc"), StartDecision::Create);
    let run = object(&[("request_digest", "abc")]);
    assert_eq!(start_decision(Some(&run), "abc"), StartDecision::Continue);
    assert_eq!(start_decision(Some(&run), "abd"), StartDecision::Conflict);
    let bare = object(&[("run_id", "r1")]);
    assert_eq!(start_decision(Some(&bare), "abc"), StartDecision::Conflict);
}

#[test]
fn generated_bindings_report_their_outcome() {
    let new = b"{\n}\n".to_vec();
    assert_eq!(generate_outcome(None, &new), GenerateOutcome::Created);
    assert_eq!(generate_outcome(Some(&new.clone()), &new), GenerateOutcome::Unchanged);
    assert_eq!(generate_outcome(Some(&b"{}\n".to_vec()), &new), GenerateOutcome::Replaced);
    assert_eq!(GenerateOutcome::Created.name(), "created");
    assert_eq!(GenerateOutcome::Replaced.name(), "replaced");
    assert_eq!(GenerateOutcome::Unchanged.name(), "unchanged");
}

#[test]
fn slugs_of_lowered_names() {
    assert_eq!(slug_of_lowercased("visual studio code"), "visual-studio-code");
    assert_eq!(slug_of_lowercased("--a__b--"), "a-b");
    assert_eq!(slug_of_lowercased("éclair"), "clair");
    // The full function lowercases first, Unicode included.
    assert_eq!(slugify_name("Visual Studio Code"), "visual-studio-code");
    assert_eq!(slugify_name("ÉCLAIR 2"), "clair-2");
}

#[test]
fn scores_of_lowered_text() {
    assert_eq!(lowered_score("https://x/app-screenshot.png hero", "img", 2), 35000 + 18000 + 5000 + 4000 - 30);
    assert_eq!(lowered_score("logo", "meta", 0), -45000 + 9000);
    assert_eq!(lowered_score("plain", "img-srcset", 1), 7000 - 15);
    let candidate = Candidate {
        url: "https://x/LOGO.png".to_string(),
        hint: "Dashboard".to_string(),
        order: 0,
        origin: "img",
    };
    assert_eq!(preflight_score(&candidate), -45000 + 22000);
}

#[test]
fn decoded_pages_yield_their_candidates() {
    let page = "https://example.com/p/";
    let text = "<img src=\"shot.png\" alt=\"Screenshot\"><meta property=\"og:image\" content=\"https:\\/\\/example.com\\/og.png\">";
    let found = page_image_candidates(page, text);
    let urls: Vec<&str> = found.iter().map(|c| c.url.as_str()).collect();
    assert_eq!(urls[0], "https://example.com/p/shot.png");
    assert!(urls.contains(&"https://example.com/og.png"));
    assert!(urls.len() <= 14);
}

#[test]
fn numbering_may_start_past_the_output() {
    let mut out: Vec<Candidate> = Vec::new();
    let mut order: usize = 5;
    extract_tag_candidates("<link rel=\"image_src\" href=\"a.png\" title=\"t\">", &mut out, &mut order);
    assert_eq!(out.len(), 1);
    assert_eq!(out[0].order, 5);
    assert_eq!(order, 6);
}

#[test]
fn page_candidates_are_distinct_and_best_first() {
    let page = "https://example.com/";
    let text = "<img src=\"a.png\" alt=\"logo\"><img src=\"b.png\" alt=\"screenshot\">\
                <img src=\"a.png\"><div style=\"background:url('https://cdn.example.com/hero.jpg')\"></div>\
                see https://cdn.example.com/app-window.webp";
    let found = page_image_candidates(page, text);
    assert!(found.len() <= 14);
    for i in 0..found.len() {
        for k in i + 1..found.len() {
            assert_ne!(found[i].url, found[k].url);
            assert!(preflight_score(&found[i]) >= preflight_score(&found[k]));
        }
    }
    assert_eq!(found[0].url, "https://example.com/b.png");
}

#[test]
fn records_held_elsewhere_are_skipped_never_failed() {
    let mut held = object(&[("record", "a"), ("state", "planned")]);
    after_drive_failure(&mut held, DriveFailure::Busy);
    assert_eq!(held.get_str("state"), Some("planned"));
    assert!(held.get("diagnostic").is_none());
    let mut broken = object(&[("record", "a"), ("state", "planned")]);
    after_drive_failure(&mut broken, DriveFailure::Failed("boom".to_string()));
    assert_eq!(broken.get_str("state"), Some("submission_failed"));
    let diagnostic = broken.get("diagnostic").expect("a diagnostic");
    assert_eq!(diagnostic.get_str("code"), Some("record_coordinator_failed"));
    assert_eq!(diagnostic.get_str("message"), Some("boom"));
}
