//! Progress lines of the fetch tool, and the progress of a request.

use crate::text::{
    after_last, all_zeros, digits_value, is_decimal, is_percentage, is_percentage_text, to_chars,
};
use vstd::prelude::*;

verus! {

/// Whether `regex::Regex::new` accepts the pattern.
pub uninterp spec fn regex_compiles(pattern: Seq<char>) -> bool;

/// What `regex::Regex::captures` finds in `line` for an accepted pattern:
/// nothing, or the text of each group of the leftmost match, the whole
/// match first, with `None` for a group that took no part in it.
pub uninterp spec fn regex_groups(pattern: Seq<char>, line: Seq<char>) -> Option<
    Seq<Option<Seq<char>>>,
>;

/// The model of the groups of a match.
pub open spec fn groups_model(groups: Option<Vec<Option<String>>>) -> Option<
    Seq<Option<Seq<char>>>,
> {
    match groups {
        Some(g) => Some(
            g@.map_values(
                |t: Option<String>|
                    match t {
                        Some(s) => Some(s@),
                        None => None,
                    },
            ),
        ),
        None => None,
    }
}

/// Calls `regex::Regex::new` on the pattern and `Regex::captures` on the
/// line. The outer `None` says that the pattern was refused; the inner
/// value is what the search found. Both depend on the two texts alone.
#[verifier::external_body]
fn regex_captures(pattern: &str, line: &str) -> (r: Option<Option<Vec<Option<String>>>>)
    ensures
        r is Some <==> regex_compiles(pattern@),
        r is Some ==> groups_model(r.unwrap()) == regex_groups(pattern@, line@),
{
    match regex::Regex::new(pattern) {
        Ok(re) => Some(
            re.captures(line).map(
                |found| found.iter().map(|group| group.map(|m| m.as_str().to_string())).collect(),
            ),
        ),
        Err(_) => None,
    }
}

/// The shape of a progress line: the tag, a percentage with a fraction,
/// then a size after `of`, a speed after `at` and a time after `ETA`.
pub open spec fn progress_pattern() -> Seq<char> {
    "\\[download\\]\\s+(\\d+\\.\\d+)%.*of\\s+(.*)\\s+at\\s+(.*)\\s+ETA\\s+(.*)"@
}

/// What one progress line states. The percentage is kept as the decimal
/// text that the tool printed; what `parse_progress` returns is between 0
/// and 100.
#[derive(Clone, Debug)]
pub struct ProgressFields {
    pub percent: String,
    pub size: String,
    pub speed: String,
    pub eta: String,
}

/// Mathematical model of `ProgressFields`.
pub struct ProgressFieldsModel {
    pub percent: Seq<char>,
    pub size: Seq<char>,
    pub speed: Seq<char>,
    pub eta: Seq<char>,
}

impl View for ProgressFields {
    type V = ProgressFieldsModel;

    open spec fn view(&self) -> ProgressFieldsModel {
        ProgressFieldsModel {
            percent: self.percent@,
            size: self.size@,
            speed: self.speed@,
            eta: self.eta@,
        }
    }
}

/// The model of an optional `ProgressFields`.
pub open spec fn fields_model(fields: Option<ProgressFields>) -> Option<ProgressFieldsModel> {
    match fields {
        Some(f) => Some(f@),
        None => None,
    }
}

/// The fields that the groups of a match state: there are some exactly
/// where the match has its whole text and four groups, each present, and
/// the first of them writes a percentage: a decimal fraction in plain
/// digits, no more than 100.
pub open spec fn fields_of(groups: Option<Seq<Option<Seq<char>>>>) -> Option<ProgressFieldsModel> {
    match groups {
        Some(g) => if g.len() == 5 && g[1] is Some && g[2] is Some && g[3] is Some && g[4] is Some
            && is_percentage(g[1].unwrap()) {
            Some(
                ProgressFieldsModel {
                    percent: g[1].unwrap(),
                    size: g[2].unwrap(),
                    speed: g[3].unwrap(),
                    eta: g[4].unwrap(),
                },
            )
        } else {
            None
        },
        None => None,
    }
}

/// What a line of the tool's output states of the progress: nothing where
/// the line has not the shape of a progress line.
pub open spec fn progress_of(line: Seq<char>) -> Option<ProgressFieldsModel> {
    if regex_compiles(progress_pattern()) {
        fields_of(regex_groups(progress_pattern(), line))
    } else {
        None
    }
}

/// Reads the fields of a progress line from the groups of its match.
pub fn fields_from_groups(groups: Option<Vec<Option<String>>>) -> (r: Option<ProgressFields>)
    ensures
        fields_model(r) == fields_of(groups_model(groups)),
        r is Some ==> is_percentage(r.unwrap().percent@),
{
    let g = match groups {
        Some(g) => g,
        None => {
            return None;
        },
    };
    if g.len() != 5 {
        return None;
    }
    match (&g[1], &g[2], &g[3], &g[4]) {
        (Some(percent), Some(size), Some(speed), Some(eta)) => {
            let digits = to_chars(percent.as_str());
            if is_percentage_text(digits.as_slice()) {
                Some(
                    ProgressFields {
                        percent: percent.clone(),
                        size: size.clone(),
                        speed: speed.clone(),
                        eta: eta.clone(),
                    },
                )
            } else {
                None
            }
        },
        _ => None,
    }
}

/// Reads one line of the tool's output. Lines of another shape than a
/// progress line, or with a percentage above 100, give `None`.
pub fn parse_progress(line: &str) -> (r: Option<ProgressFields>)
    ensures
        fields_model(r) == progress_of(line@),
        r is Some ==> is_percentage(r.unwrap().percent@),
{
    match regex_captures(
        "\\[download\\]\\s+(\\d+\\.\\d+)%.*of\\s+(.*)\\s+at\\s+(.*)\\s+ETA\\s+(.*)",
        line,
    ) {
        Some(groups) => fields_from_groups(groups),
        None => None,
    }
}

/// The progress of one request, as last reported.
#[derive(Clone, Debug)]
pub struct DownloadProgress {
    pub id: String,
    /// The percentage done, as decimal text between 0 and 100.
    pub progress_percent: String,
    pub size: Option<String>,
    pub speed: Option<String>,
    pub eta: Option<String>,
}

/// Mathematical model of a `DownloadProgress`.
pub struct ProgressModel {
    pub id: Seq<char>,
    pub progress_percent: Seq<char>,
    pub size: Option<Seq<char>>,
    pub speed: Option<Seq<char>>,
    pub eta: Option<Seq<char>>,
}

/// The model of an optional text.
pub open spec fn text_model(t: Option<String>) -> Option<Seq<char>> {
    match t {
        Some(s) => Some(s@),
        None => None,
    }
}

impl View for DownloadProgress {
    type V = ProgressModel;

    open spec fn view(&self) -> ProgressModel {
        ProgressModel {
            id: self.id@,
            progress_percent: self.progress_percent@,
            size: text_model(self.size),
            speed: text_model(self.speed),
            eta: text_model(self.eta),
        }
    }
}

impl ProgressModel {
    /// The invariant of a progress: its percentage is between 0 and 100.
    pub open spec fn well_formed(self) -> bool {
        is_percentage(self.progress_percent)
    }
}

/// The progress of a request of which nothing was reported yet.
pub open spec fn initial_progress(id: Seq<char>) -> ProgressModel {
    ProgressModel { id, progress_percent: "0.0"@, size: None, speed: None, eta: None }
}

/// The progress after a report: the request stays, every other field is
/// the report's.
pub open spec fn merged(progress: ProgressModel, fields: ProgressFieldsModel) -> ProgressModel {
    ProgressModel {
        id: progress.id,
        progress_percent: fields.percent,
        size: Some(fields.size),
        speed: Some(fields.speed),
        eta: Some(fields.eta),
    }
}

/// The progress before any report is well formed.
pub proof fn lemma_initial_progress_well_formed(id: Seq<char>)
    ensures
        initial_progress(id).well_formed(),
{
    reveal_strlit("0.0");
    let s = "0.0"@;
    assert(s.drop_last().last() == '.');
    assert(after_last(s.drop_last(), '.') == 2);
    assert(after_last(s, '.') == 2);
    let whole = s.subrange(0, 1);
    assert(whole.drop_last() =~= Seq::<char>::empty());
    assert(digits_value(whole.drop_last()) == 0);
    assert(whole.last() == '0');
    assert(digits_value(whole) == 0);
    assert(is_decimal(s));
    assert(all_zeros(s.skip(2)));
}

/// Whatever a line reports of the progress is a percentage between 0 and
/// 100.
pub proof fn lemma_reported_progress_in_range(line: Seq<char>)
    ensures
        progress_of(line) is Some ==> is_percentage(progress_of(line).unwrap().percent),
{
}

impl DownloadProgress {
    /// The progress of a request before any report.
    pub fn new(id: String) -> (r: DownloadProgress)
        ensures
            r@ == initial_progress(id@),
            r@.well_formed(),
    {
        proof {
            lemma_initial_progress_well_formed(id@);
        }
        DownloadProgress {
            id,
            progress_percent: "0.0".to_owned(),
            size: None,
            speed: None,
            eta: None,
        }
    }

    /// Takes over what a progress line reported.
    pub fn merge(&mut self, fields: ProgressFields)
        ensures
            final(self)@ == merged(old(self)@, fields@),
            is_percentage(fields.percent@) ==> final(self)@.well_formed(),
    {
        self.progress_percent = fields.percent;
        self.size = Some(fields.size);
        self.speed = Some(fields.speed);
        self.eta = Some(fields.eta);
    }
}

} // verus!
