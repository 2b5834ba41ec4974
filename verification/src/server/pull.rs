//! Pulling an image: what is asked of the runtime, and what the operator
//! is told of the progress that it reports.

use crate::text::join;
use crate::text::signed_decimal;
use crate::text::signed_decimal_text;
use vstd::prelude::*;
use vstd::string::*;

verus! {

/// The registry that images are pulled from.
pub const REGISTRY: &'static str = "docker.io";

/// What the runtime is asked to pull.
#[derive(Clone, Debug, PartialEq, Eq)]
pub struct PullRequest {
    pub image: String,
    pub repo: String,
    pub tag: String,
}

/// One report of the progress of a pull.
#[derive(Clone, Debug, PartialEq, Eq)]
pub struct PullProgress {
    pub status: Option<String>,
    /// The bytes had so far.
    pub current: Option<i64>,
    /// The bytes to be had.
    pub total: Option<i64>,
    pub error: Option<String>,
}

/// Why a pull failed.
#[derive(Clone, Debug, PartialEq, Eq)]
pub enum PullError {
    /// The runtime reported this error while it pulled.
    StreamError(String),
}

impl View for PullError {
    type V = Seq<char>;

    /// The error that the runtime reported.
    open spec fn view(&self) -> Seq<char> {
        match self {
            PullError::StreamError(message) => message@,
        }
    }
}

/// The status of a report, or what stands for it where it has none.
pub open spec fn status_of(progress: PullProgress) -> Seq<char> {
    match progress.status {
        Some(status) => status@,
        None => "Downloading image"@,
    }
}

/// The line that tells the operator of a report without an error: the
/// status, and the bytes had and to be had where both are known.
pub open spec fn progress_text(progress: PullProgress) -> Seq<char> {
    match (progress.current, progress.total) {
        (Some(current), Some(total)) => status_of(progress) + ": ("@ + signed_decimal(
            current as int,
        ) + "/"@ + signed_decimal(total as int) + ")"@,
        _ => status_of(progress),
    }
}

/// What the operator is told of a run of reports, and the error that
/// ended it: a line for each report before the first that carries an
/// error, and that error.
pub open spec fn reported(reports: Seq<PullProgress>) -> (Seq<Seq<char>>, Option<Seq<char>>)
    decreases reports.len(),
{
    if reports.len() == 0 {
        (Seq::empty(), None)
    } else {
        let (lines, error) = reported(reports.drop_last());
        match (error, reports.last().error) {
            (Some(_), _) => (lines, error),
            (None, Some(message)) => (lines, Some(message@)),
            (None, None) => (lines.push(progress_text(reports.last())), None),
        }
    }
}

/// What the operator is told when a pull begins.
pub fn pull_announcement(image: &str) -> (r: String)
    ensures
        r@ == "Pulling "@ + image@,
{
    join("Pulling ", image)
}

impl PullProgress {
    /// What the operator is told of the report, or the error that it
    /// carries.
    pub fn line(&self) -> (r: Result<String, PullError>)
        ensures
            match self.error {
                Some(message) => r matches Err(e) && e@ == message@,
                None => r matches Ok(line) && line@ == progress_text(*self),
            },
    {
        match &self.error {
            Some(message) => {
                return Err(PullError::StreamError(message.clone()));
            },
            None => {},
        }
        let mut line = match &self.status {
            Some(status) => status.clone(),
            None => "Downloading image".to_owned(),
        };
        match (self.current, self.total) {
            (Some(current), Some(total)) => {
                line.append(": (");
                line.append(signed_decimal_text(current).as_str());
                line.append("/");
                line.append(signed_decimal_text(total).as_str());
                line.append(")");
            },
            _ => {},
        }
        Ok(line)
    }
}

/// Goes through the reports of a pull in the order in which they came:
/// gives the line for each up to the first that carries an error, and
/// fails with that error. The pull has succeeded if no report carries
/// one.
pub fn report(reports: &Vec<PullProgress>) -> (r: (Vec<String>, Result<(), PullError>))
    ensures
        r.0.deep_view() == reported(reports@).0,
        match reported(reports@).1 {
            Some(message) => r.1 matches Err(e) && e@ == message,
            None => r.1 is Ok,
        },
{
    let mut lines: Vec<String> = Vec::new();
    let n = reports.len();
    let mut i: usize = 0;
    assert(lines.deep_view() =~= reported(reports@.take(0)).0);
    while i < n
        invariant
            i <= n,
            n == reports@.len(),
            lines.deep_view() == reported(reports@.take(i as int)).0,
            reported(reports@.take(i as int)).1 is None,
        decreases n - i,
    {
        proof {
            let before = reports@.take(i as int);
            let after = reports@.take(i + 1);
            assert(after.drop_last() =~= before);
            assert(after.last() == reports@[i as int]);
        }
        match reports[i].line() {
            Ok(line) => {
                let ghost old_lines = lines.deep_view();
                lines.push(line);
                assert(lines.deep_view() =~= old_lines.push(line@));
            },
            Err(e) => {
                proof {
                    lemma_reported_stops(reports@, i + 1);
                }
                return (lines, Err(e));
            },
        }
        i += 1;
    }
    proof {
        assert(reports@.take(n as int) =~= reports@);
    }
    (lines, Ok(()))
}

/// Once a report has carried an error, what follows changes nothing.
pub proof fn lemma_reported_stops(reports: Seq<PullProgress>, upto: int)
    requires
        0 <= upto <= reports.len(),
        reported(reports.take(upto)).1 is Some,
    ensures
        reported(reports) == reported(reports.take(upto)),
    decreases reports.len() - upto,
{
    if upto == reports.len() {
        assert(reports.take(upto) =~= reports);
    } else {
        let before = reports.take(upto);
        let after = reports.take(upto + 1);
        assert(after.drop_last() =~= before);
        assert(reported(after) == reported(before));
        lemma_reported_stops(reports, upto + 1);
    }
}

/// A pull succeeds exactly if none of its reports carries an error, and
/// the operator is then told of every report.
pub proof fn law_pull_succeeds_without_error(reports: Seq<PullProgress>)
    ensures
        reported(reports).1 is None <==> forall|i: int|
            0 <= i < reports.len() ==> (#[trigger] reports[i]).error is None,
        reported(reports).1 is None ==> reported(reports).0.len() == reports.len(),
    decreases reports.len(),
{
    if reports.len() > 0 {
        let rest = reports.drop_last();
        law_pull_succeeds_without_error(rest);
        assert forall|i: int| 0 <= i < rest.len() implies #[trigger] rest[i] == reports[i] by {}
        if reported(reports).1 is None {
            assert forall|i: int| 0 <= i < reports.len() implies (#[trigger] reports[i]).error
                is None by {
                if i < rest.len() {
                    assert(rest[i] == reports[i]);
                }
            }
        }
        if forall|i: int| 0 <= i < reports.len() ==> (#[trigger] reports[i]).error is None {
            assert forall|i: int| 0 <= i < rest.len() implies (#[trigger] rest[i]).error is None by {
                assert(rest[i] == reports[i]);
            }
            assert(reports[reports.len() - 1].error is None);
        }
    }
}

} // verus!
