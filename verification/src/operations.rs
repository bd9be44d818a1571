//! Running the harness: stage budgets, switches in the environment, and the
//! report of a shutdown.

use vstd::prelude::*;
use crate::text;

verus! {

/// Microseconds that a stage may take under a strict budget.
pub const STAGE_BUDGET_US: u64 = 2000;

/// Whether a reading of a switch in the environment means on.
pub open spec fn means_on(value: Option<String>) -> bool {
    match value {
        None => false,
        Some(s) => {
            let word = text::lower(text::trimmed(s@));
            word == "1"@ || word == "true"@ || word == "yes"@ || word == "on"@
        },
    }
}

/// Whether a reading of a switch in the environment means on.
pub fn truthy_env(value: &Option<String>) -> (on: bool)
    ensures
        on == means_on(*value),
{
    match value {
        None => false,
        Some(s) => {
            let word: String = text::to_lower(text::trim(s.as_str()).as_str());
            text::same_text(word.as_str(), "1") || text::same_text(word.as_str(), "true") || text::same_text(
                word.as_str(),
                "yes",
            ) || text::same_text(word.as_str(), "on")
        },
    }
}

/// Whether a stage counts as a breach of the strict budget, which the
/// configuration or the environment switches on.
pub fn breaches_stage_budget(strict: bool, switch: &Option<String>, elapsed_us: u64) -> (breach: bool)
    ensures
        breach == ((strict || means_on(*switch)) && elapsed_us > STAGE_BUDGET_US),
{
    (strict || truthy_env(switch)) && elapsed_us > STAGE_BUDGET_US
}

/// How closing the open sessions at shutdown went.
#[derive(Debug)]
pub enum FinalizationPhase {
    Done,
    Failed(String),
    TimedOut,
}

/// The failures of a shutdown, in the order of its phases.
pub open spec fn shutdown_failures(
    server: Result<(), String>,
    worker_drained: bool,
    finalization: FinalizationPhase,
    telemetry: Result<(), String>,
) -> Seq<Seq<char>> {
    let a = match server {
        Ok(()) => Seq::empty(),
        Err(e) => seq!["server: "@ + e@],
    };
    let b = if worker_drained {
        Seq::empty()
    } else {
        seq!["timed out draining audit worker during shutdown"@]
    };
    let c = match finalization {
        FinalizationPhase::Done => Seq::empty(),
        FinalizationPhase::Failed(e) => seq!["session finalization: "@ + e@],
        FinalizationPhase::TimedOut => seq!["timed out finalizing sessions during shutdown"@],
    };
    let d = match telemetry {
        Ok(()) => Seq::empty(),
        Err(e) => seq!["telemetry: "@ + e@],
    };
    a + b + c + d
}

/// Appends a text to a list of texts.
fn append_text(list: &mut Vec<String>, s: String)
    ensures
        text::texts(final(list)@) == text::texts(old(list)@) + seq![s@],
{
    let ghost before = list@;
    list.push(s);
    assert(text::texts(list@) =~= text::texts(before) + seq![s@]);
}

/// The report of a shutdown: every phase that failed, whichever others did.
pub fn finish_shutdown(
    server: Result<(), String>,
    worker_drained: bool,
    finalization: FinalizationPhase,
    telemetry: Result<(), String>,
) -> (report: Result<(), String>)
    ensures
        ({
            let failures = shutdown_failures(server, worker_drained, finalization, telemetry);
            match report {
                Ok(()) => failures.len() == 0,
                Err(e) => failures.len() > 0 && e@ == "shutdown failures: "@ + text::joined(failures, "; "@),
            }
        }),
{
    let ghost wanted = shutdown_failures(server, worker_drained, finalization, telemetry);
    let mut failures: Vec<String> = Vec::new();
    assert(text::texts(failures@) =~= Seq::<Seq<char>>::empty());
    if let Err(e) = server {
        append_text(&mut failures, text::concat2("server: ", e.as_str()));
    }
    if !worker_drained {
        append_text(&mut failures, "timed out draining audit worker during shutdown".to_owned());
    }
    match finalization {
        FinalizationPhase::Done => {},
        FinalizationPhase::Failed(e) => {
            append_text(&mut failures, text::concat2("session finalization: ", e.as_str()));
        },
        FinalizationPhase::TimedOut => {
            append_text(&mut failures, "timed out finalizing sessions during shutdown".to_owned());
        },
    }
    if let Err(e) = telemetry {
        append_text(&mut failures, text::concat2("telemetry: ", e.as_str()));
    }
    proof {
        assert(text::texts(failures@) =~= wanted);
        assert(text::texts(failures@).len() == failures@.len());
    }
    if failures.len() == 0 {
        Ok(())
    } else {
        Err(text::concat2("shutdown failures: ", text::join(&failures, "; ").as_str()))
    }
}

/// The outcome of closing several sessions: all failures, one after another.
pub fn join_failures(failures: &Vec<String>) -> (outcome: FinalizationPhase)
    ensures
        match outcome {
            FinalizationPhase::Done => failures@.len() == 0,
            FinalizationPhase::Failed(e) => failures@.len() > 0 && e@ == text::joined(
                text::texts(failures@),
                "; "@,
            ),
            FinalizationPhase::TimedOut => false,
        },
{
    if failures.len() == 0 {
        FinalizationPhase::Done
    } else {
        FinalizationPhase::Failed(text::join(failures, "; "))
    }
}

/// A switch in the environment is on for the words "1", "true", "yes" and
/// "on", in whatever letters and with white space around them, and for
/// nothing else.
pub proof fn law_switches_are_read(value: String)
    ensures
        !means_on(None),
        means_on(Some(value)) <==> (text::lower(text::trimmed(value@)) == "1"@ || text::lower(text::trimmed(value@))
            == "true"@ || text::lower(text::trimmed(value@)) == "yes"@ || text::lower(text::trimmed(value@)) == "on"@),
{
}

/// A shutdown tells every part that failed, once and in order, and is a
/// success exactly where none did.
pub proof fn law_failed_shutdowns_are_told(
    server: Result<(), String>,
    worker_drained: bool,
    finalization: FinalizationPhase,
    telemetry: Result<(), String>,
)
    ensures
        ({
            let told = shutdown_failures(server, worker_drained, finalization, telemetry);
            let failed = |b: bool| if b {
                1int
            } else {
                0int
            };
            &&& told.len() == 0 <==> server is Ok && worker_drained && finalization is Done && telemetry is Ok
            &&& told.len() == failed(server is Err) + failed(!worker_drained) + failed(!(finalization is Done)) + failed(
                telemetry is Err,
            )
            &&& server matches Err(words) ==> told.first() == "server: "@ + words@
            &&& telemetry matches Err(words) ==> told.last() == "telemetry: "@ + words@
            &&& finalization matches FinalizationPhase::Failed(words) ==> told.contains("session finalization: "@ + words@)
            &&& finalization is TimedOut ==> told.contains("timed out finalizing sessions during shutdown"@)
            &&& !worker_drained ==> told.contains("timed out draining audit worker during shutdown"@)
        }),
{
    let told = shutdown_failures(server, worker_drained, finalization, telemetry);
    let a: int = if server is Err {
        1
    } else {
        0
    };
    let b: int = if worker_drained {
        0
    } else {
        1
    };
    if !worker_drained {
        assert(told[a] == "timed out draining audit worker during shutdown"@);
    }
    if let FinalizationPhase::Failed(words) = finalization {
        assert(told[a + b] == "session finalization: "@ + words@);
    }
    if finalization is TimedOut {
        assert(told[a + b] == "timed out finalizing sessions during shutdown"@);
    }
}

} // verus!
