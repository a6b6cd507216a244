use vstd::prelude::*;

verus! {

/// What a task does.
#[derive(Debug, Clone, Copy, Eq, PartialEq, Structural)]
pub enum Type {
    NoOp,
    PurgeLocalStorage,
    DeleteLocalStorage,
    StopIfTrue,
    GetResults,
}

impl Type {
    /// The number under which the ledger stores a kind of task.
    pub open spec fn ordinal(self) -> usize {
        match self {
            Type::NoOp => 0,
            Type::PurgeLocalStorage => 1,
            Type::DeleteLocalStorage => 2,
            Type::StopIfTrue => 3,
            Type::GetResults => 4,
        }
    }

    /// The number under which the ledger stores this kind of task.
    pub fn to_db(&self) -> (id: usize)
        ensures
            id == self.ordinal(),
    {
        match self {
            Type::NoOp => 0,
            Type::PurgeLocalStorage => 1,
            Type::DeleteLocalStorage => 2,
            Type::StopIfTrue => 3,
            Type::GetResults => 4,
        }
    }
}

/// The kind of task that the ledger stores under a number. A number that
/// stands for no kind reads as a task that does nothing.
pub open spec fn kind_of(id: usize) -> Type {
    if id == 1 {
        Type::PurgeLocalStorage
    } else if id == 2 {
        Type::DeleteLocalStorage
    } else if id == 3 {
        Type::StopIfTrue
    } else if id == 4 {
        Type::GetResults
    } else {
        Type::NoOp
    }
}

pub fn from_db_to_type(id: usize) -> (kind: Type)
    ensures
        kind == kind_of(id),
{
    match id {
        1 => Type::PurgeLocalStorage,
        2 => Type::DeleteLocalStorage,
        3 => Type::StopIfTrue,
        4 => Type::GetResults,
        _ => Type::NoOp,
    }
}

/// Storing a kind of task and reading it back gives the same kind.
pub proof fn lemma_kind_round_trip(kind: Type)
    ensures
        kind.ordinal() <= 4,
        kind_of(kind.ordinal()) == kind,
{
}

/// What is done for a deployment beside running its services: a rule that
/// stops it, or the retrieval of results. Deployment and service are named by
/// their identifiers in the ledger.
#[derive(Debug)]
pub struct Task {
    pub deployment: Option<i64>,
    pub service: Option<i64>,
    pub task_type: Type,
    pub parameters: String,
    pub start: Option<i64>,
    pub end: Option<i64>,
    pub during_deployment: bool,
}

/// What a task holds.
pub struct TaskView {
    pub deployment: Option<i64>,
    pub service: Option<i64>,
    pub task_type: Type,
    pub parameters: Seq<char>,
    pub start: Option<i64>,
    pub end: Option<i64>,
    pub during_deployment: bool,
}

impl View for Task {
    type V = TaskView;

    open spec fn view(&self) -> TaskView {
        TaskView {
            deployment: self.deployment,
            service: self.service,
            task_type: self.task_type,
            parameters: self.parameters@,
            start: self.start,
            end: self.end,
            during_deployment: self.during_deployment,
        }
    }
}

/// What the tasks of a list hold.
pub open spec fn task_views(list: Seq<Task>) -> Seq<TaskView> {
    Seq::new(list.len(), |i: int| list[i]@)
}

impl Clone for Task {
    fn clone(&self) -> (r: Self)
        ensures
            r@ == self@,
    {
        Task {
            deployment: self.deployment,
            service: self.service,
            task_type: self.task_type,
            parameters: self.parameters.clone(),
            start: self.start,
            end: self.end,
            during_deployment: self.during_deployment,
        }
    }
}

/// The text under which a rule that stops a deployment is stored: the log line
/// to look for and how often it has to occur, as a list of two items in JSON.
pub uninterp spec fn stop_rule_text(message: Seq<char>, occurrence: i64) -> Seq<char>;

/// The rule that a stored text holds, where it holds one: a list of a string
/// and a whole number in JSON.
pub uninterp spec fn stop_rule_of(parameters: Seq<char>) -> Option<(Seq<char>, i64)>;

/// Writes a rule as JSON (`serde_json::to_string` on a pair of a string slice
/// and an integer). The call writes into memory and a pair of these types
/// holds nothing that cannot be written, so it always gives a text; the text
/// depends on the pair alone.
#[verifier::external_body]
pub(crate) fn encode_stop_rule(message: &str, occurrence: i64) -> (r: Option<String>)
    ensures
        r is Some,
        r matches Some(text) ==> text@ == stop_rule_text(message@, occurrence),
{
    serde_json::to_string(&(message, occurrence)).ok()
}

/// Reads a rule from JSON (`serde_json::from_str` for a pair of a string and
/// an integer): the pair that the text holds, or nothing where the text is no
/// such pair. The result depends on the text alone.
#[verifier::external_body]
pub(crate) fn decode_stop_rule(parameters: &str) -> (r: Option<(String, i64)>)
    ensures
        match r {
            Some(rule) => stop_rule_of(parameters@) == Some((rule.0@, rule.1)),
            None => stop_rule_of(parameters@) is None,
        },
{
    serde_json::from_str::<(String, i64)>(parameters).ok()
}

impl Task {
    /// A task that has neither begun nor ended.
    pub fn new(
        deployment: Option<i64>,
        service: Option<i64>,
        task_type: Type,
        parameters: String,
        during_deployment: bool,
    ) -> (r: Self)
        ensures
            r@ == (TaskView {
                deployment,
                service,
                task_type,
                parameters: parameters@,
                during_deployment,
                start: None,
                end: None,
            }),
    {
        Task { deployment, service, task_type, parameters, during_deployment, start: None, end: None }
    }

    /// The task as a row of the ledger holds it.
    pub fn from_row(
        deployment: i64,
        service: Option<i64>,
        kind: usize,
        parameters: String,
        during_deployment: bool,
        start: Option<i64>,
        end: Option<i64>,
    ) -> (r: Self)
        ensures
            r@ == (TaskView {
                deployment: Some(deployment),
                service,
                task_type: kind_of(kind),
                parameters: parameters@,
                during_deployment,
                start,
                end,
            }),
    {
        Task {
            deployment: Some(deployment),
            service,
            task_type: from_db_to_type(kind),
            parameters,
            during_deployment,
            start,
            end,
        }
    }

    /// The rule that stops a deployment once a line has occurred in its logs
    /// as often as required. The rule is watched while the deployment runs.
    pub fn stop_if_true(message: &str, occurrence: i64) -> (r: Self)
        ensures
            r@ == (TaskView {
                deployment: None,
                service: None,
                task_type: Type::StopIfTrue,
                parameters: stop_rule_text(message@, occurrence),
                during_deployment: true,
                start: None,
                end: None,
            }),
    {
        let parameters = match encode_stop_rule(message, occurrence) {
            Some(text) => text,
            None => String::new(),
        };
        Task::new(None, None, Type::StopIfTrue, parameters, true)
    }

    /// The rule that a task's parameters hold, where they hold one.
    pub fn stop_rule(&self) -> (r: Option<(String, i64)>)
        ensures
            match r {
                Some(rule) => stop_rule_of(self@.parameters) == Some((rule.0@, rule.1)),
                None => stop_rule_of(self@.parameters) is None,
            },
    {
        decode_stop_rule(self.parameters.as_str())
    }
}

} // verus!
