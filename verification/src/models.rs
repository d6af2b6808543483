//! The records that travel through the service.

use crate::text::{chars_of, concat3, opt_text};
use vstd::prelude::*;

verus! {

/// Outcome of one test: passed, failed or ignored. No other token is a status.
#[derive(Debug, Clone, Copy, PartialEq, Eq, Structural)]
pub enum Status {
    P,
    F,
    I,
}

/// The status that the token `s` stands for, if it is one of `P`, `F`, `I`.
pub open spec fn status_of_token(s: Seq<char>) -> Option<Status> {
    if s == seq!['P'] {
        Some(Status::P)
    } else if s == seq!['F'] {
        Some(Status::F)
    } else if s == seq!['I'] {
        Some(Status::I)
    } else {
        None
    }
}

/// The message with which the token `s` is refused as a status.
pub open spec fn unknown_status_message(s: Seq<char>) -> Seq<char> {
    "unknown variant `"@ + s + "`, expected one of `P`, `F`, `I`"@
}

impl Status {
    /// The token of this status.
    pub open spec fn token(self) -> Seq<char> {
        match self {
            Status::P => seq!['P'],
            Status::F => seq!['F'],
            Status::I => seq!['I'],
        }
    }

    /// Reads a status token. Every token but `P`, `F` and `I` is refused, with
    /// a message that quotes it.
    pub fn value_of(s: &str) -> (r: Result<Status, String>)
        ensures
            match r {
                Ok(status) => status_of_token(s@) == Some(status),
                Err(e) => status_of_token(s@) is None && e@ == unknown_status_message(s@),
            },
    {
        let chars = chars_of(s);
        if chars.len() == 1 {
            let c: char = chars[0];
            assert(s@ =~= seq![c]);
            if c == 'P' {
                return Ok(Status::P);
            } else if c == 'F' {
                return Ok(Status::F);
            } else if c == 'I' {
                return Ok(Status::I);
            }
            assert(seq![c] != seq!['P']) by {
                assert(seq![c][0] != seq!['P'][0]);
            }
            assert(seq![c] != seq!['F']) by {
                assert(seq![c][0] != seq!['F'][0]);
            }
            assert(seq![c] != seq!['I']) by {
                assert(seq![c][0] != seq!['I'][0]);
            }
        } else {
            assert(seq!['P'].len() == 1 && seq!['F'].len() == 1 && seq!['I'].len() == 1);
        }
        Err(concat3("unknown variant `", s, "`, expected one of `P`, `F`, `I`"))
    }

    /// The token of this status, as text.
    pub fn as_str(&self) -> (r: &'static str)
        ensures
            r@ == self.token(),
    {
        proof {
            reveal_strlit("P");
            reveal_strlit("F");
            reveal_strlit("I");
        }
        match self {
            Status::P => {
                assert("P"@ =~= seq!['P']);
                "P"
            },
            Status::F => {
                assert("F"@ =~= seq!['F']);
                "F"
            },
            Status::I => {
                assert("I"@ =~= seq!['I']);
                "I"
            },
        }
    }
}

/// A logical run of a test suite.
#[derive(Debug, Clone)]
pub struct Execution {
    pub id: Option<i64>,
    pub name: String,
    pub tag: Option<String>,
    pub created_by: Option<String>,
    pub time_created: i64,
}

/// One stored outcome of a named test within an execution.
#[derive(Debug, Clone)]
pub struct TestResult {
    pub id: Option<i64>,
    pub execution_id: i64,
    pub name: String,
    pub platform: String,
    pub description: Option<String>,
    pub status: Status,
    pub execution_time: Option<i64>,
    pub counter: i64,
    pub log: Option<String>,
    pub screenshot_id: Option<i64>,
    pub created_by: Option<String>,
    pub time_created: i64,
}

/// What a client sends to register an execution.
#[derive(Debug, Clone)]
pub struct CreateExecution {
    pub name: String,
    pub tag: Option<String>,
    pub created_by: Option<String>,
    pub time_created: i64,
}

/// One page of executions.
#[derive(Debug)]
pub struct ExecutionListResponse {
    pub total: i64,
    pub limit: i64,
    pub offset: i64,
    pub has_next: bool,
    pub items: Vec<Execution>,
}

/// One page of an execution's results, with the counts by status on request.
#[derive(Debug)]
pub struct ExecutionResultsResponse {
    pub execution_id: i64,
    pub summary: Option<Summary>,
    pub total: i64,
    pub limit: i64,
    pub offset: i64,
    pub has_next: bool,
    pub items: Vec<TestResult>,
}

/// Counts of an execution's results by status.
#[derive(Debug, Clone, Copy, PartialEq, Eq, Structural)]
pub struct Summary {
    pub total: i64,
    pub pass: i64,
    pub fail: i64,
    pub ignor: i64,
}

/// An inbound result without the execution it belongs to.
#[derive(Debug, Clone)]
pub struct CreateTestResultBase {
    pub name: String,
    pub platform: String,
    pub description: Option<String>,
    pub status: Status,
    pub execution_time: Option<i64>,
    pub log: Option<String>,
    pub screenshot_id: Option<i64>,
    pub created_by: Option<String>,
    pub time_created: i64,
}

/// An inbound result: what the writer upserts under `(execution_id, name)`.
#[derive(Debug, Clone)]
pub struct CreateTestResult {
    pub execution_id: i64,
    pub base: CreateTestResultBase,
}

/// The answer to a single accepted result.
#[derive(Debug)]
pub struct CreateTestResultResponse {
    pub status: String,
}

impl CreateTestResultResponse {
    /// The answer to a result that the queue has accepted. It says that the
    /// result was handed over, not that it is stored.
    pub fn delivered() -> (r: Self)
        ensures
            r.status@ == "delivered"@,
    {
        CreateTestResultResponse { status: "delivered".to_owned() }
    }
}

/// The report on one streamed batch.
#[derive(Debug)]
pub struct StreamResponse {
    pub status: String,
    pub execution_id: i64,
    pub received: i64,
    pub inserted: i64,
    pub failed: i64,
    pub failed_items: Option<Vec<FailedItem>>,
}

/// One line of a streamed batch that was not accepted, with the reason.
#[derive(Debug)]
pub struct FailedItem {
    pub error: String,
    pub raw_payload: Option<String>,
}

/// What a verified bearer token states.
#[derive(Debug)]
pub struct Claims {
    pub sub: String,
    pub roles: Vec<String>,
    pub exp: usize,
}

/// The body of a status update.
#[derive(Debug)]
pub struct UpdateStatusRequest {
    pub status: String,
}

/// The query of a suggestion request.
#[derive(Debug)]
pub struct SuggestQuery {
    pub query: Option<String>,
}

/// The answer to a suggestion request.
#[derive(Debug)]
pub struct SuggestResponse {
    pub query: String,
    pub suggestions: Vec<SuggestedItem>,
    pub limit: usize,
}

/// The body of every answer that is not a success.
#[derive(Debug)]
pub struct ErrorResponse {
    pub error: String,
    pub message: String,
    pub field: Option<String>,
}

/// What a `SuggestedItem` holds, as mathematical values.
pub struct SuggestedItemView {
    pub id: Seq<char>,
    pub name: Seq<char>,
}

/// One suggestion: the execution's id in decimal and its name.
#[derive(Debug)]
pub struct SuggestedItem {
    pub id: String,
    pub name: String,
}

impl View for SuggestedItem {
    type V = SuggestedItemView;

    open spec fn view(&self) -> SuggestedItemView {
        SuggestedItemView { id: self.id@, name: self.name@ }
    }
}

impl Clone for SuggestedItem {
    fn clone(&self) -> (r: Self)
        ensures
            r@ == self@,
    {
        SuggestedItem { id: self.id.clone(), name: self.name.clone() }
    }
}

impl PartialEq for SuggestedItem {
    fn eq(&self, other: &Self) -> (r: bool) {
        self.id == other.id && self.name == other.name
    }
}

impl vstd::std_specs::cmp::PartialEqSpecImpl for SuggestedItem {
    open spec fn obeys_eq_spec() -> bool {
        true
    }

    open spec fn eq_spec(&self, other: &Self) -> bool {
        self@ == other@
    }
}

/// What an inbound result holds, as mathematical values.
pub struct PayloadView {
    pub execution_id: i64,
    pub name: Seq<char>,
    pub platform: Seq<char>,
    pub description: Option<Seq<char>>,
    pub status: Status,
    pub execution_time: Option<i64>,
    pub log: Option<Seq<char>>,
    pub screenshot_id: Option<i64>,
    pub created_by: Option<Seq<char>>,
    pub time_created: i64,
}

impl View for CreateTestResult {
    type V = PayloadView;

    open spec fn view(&self) -> PayloadView {
        PayloadView {
            execution_id: self.execution_id,
            name: self.base.name@,
            platform: self.base.platform@,
            description: opt_text(self.base.description),
            status: self.base.status,
            execution_time: self.base.execution_time,
            log: opt_text(self.base.log),
            screenshot_id: self.base.screenshot_id,
            created_by: opt_text(self.base.created_by),
            time_created: self.base.time_created,
        }
    }
}

/// What a stored result holds, as mathematical values: its id, how often its
/// key was ingested, and the payload that was ingested last.
pub struct RowView {
    pub id: Option<i64>,
    pub counter: i64,
    pub payload: PayloadView,
}

impl View for TestResult {
    type V = RowView;

    open spec fn view(&self) -> RowView {
        RowView {
            id: self.id,
            counter: self.counter,
            payload: PayloadView {
                execution_id: self.execution_id,
                name: self.name@,
                platform: self.platform@,
                description: opt_text(self.description),
                status: self.status,
                execution_time: self.execution_time,
                log: opt_text(self.log),
                screenshot_id: self.screenshot_id,
                created_by: opt_text(self.created_by),
                time_created: self.time_created,
            },
        }
    }
}

} // verus!
