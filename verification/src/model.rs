//! Where the whisper.cpp model files come from, and the progress reports of
//! their download.
use vstd::prelude::*;
use crate::text::views;

verus! {

/// The address under which the model files are published.
pub const BASE_URL: &'static str = "https://huggingface.co/ggerganov/whisper.cpp/resolve/main/";

/// The file name of a model: `ggml-<model>.bin`.
pub open spec fn model_file_name(model: Seq<char>) -> Seq<char> {
    "ggml-"@ + model + ".bin"@
}

/// The file name of a model (see `model_file_name`).
pub fn filename_for(model: &str) -> (name: String)
    ensures
        name@ == model_file_name(model@),
{
    let mut name = String::from_str("ggml-");
    name.append(model);
    name.append(".bin");
    name
}

/// Where a model file lies below the local data directory.
pub open spec fn model_file_parts(model: Seq<char>) -> Seq<Seq<char>> {
    seq!["bvoice"@, "models"@, model_file_name(model)]
}

/// The path components of a model file below the local data directory
/// (see `model_file_parts`).
pub fn model_file_components(model: &str) -> (parts: Vec<String>)
    ensures
        views(parts@) == model_file_parts(model@),
{
    let mut parts: Vec<String> = Vec::new();
    parts.push(String::from_str("bvoice"));
    parts.push(String::from_str("models"));
    parts.push(filename_for(model));
    assert(views(parts@) =~= model_file_parts(model@));
    parts
}

/// The address a model file is downloaded from.
pub open spec fn model_url(model: Seq<char>) -> Seq<char> {
    BASE_URL@ + model_file_name(model)
}

/// The address a model file is downloaded from (see `model_url`).
pub fn download_url(model: &str) -> (url: String)
    ensures
        url@ == model_url(model@),
{
    let mut url = String::from_str(BASE_URL);
    let name = filename_for(model);
    url.append(name.as_str());
    url
}

/// What it takes to have a model file on disk.
#[derive(Debug)]
pub enum ModelAction {
    /// The file is already there: use it as it is.
    UseCached,
    /// Fetch the file from `url`.
    Download { url: String },
}

/// Decides how to provide the model file: keep a file that is already
/// present, else download it from `model_url`.
pub fn ensure_model(model: &str, cached: bool) -> (a: ModelAction)
    ensures
        cached ==> a is UseCached,
        !cached ==> (a matches ModelAction::Download { url } && url@ == model_url(model@)),
{
    if cached {
        ModelAction::UseCached
    } else {
        ModelAction::Download { url: download_url(model) }
    }
}

/// The percentage shown for `downloaded` of `total` bytes: `downloaded * 100 /
/// total` (cut to 32 bits), or 0 when the total is unknown (zero) or the
/// product does not fit in 64 bits.
pub open spec fn spec_progress_percent(downloaded: u64, total: u64) -> u32 {
    if downloaded * 100 > u64::MAX || total == 0 {
        0
    } else {
        ((downloaded * 100) / (total as int)) as u32
    }
}

/// The percentage shown for a download (see `spec_progress_percent`).
pub fn progress_percent(downloaded: u64, total: u64) -> (pct: u32)
    ensures
        pct == spec_progress_percent(downloaded, total),
        total > 0 && downloaded * 100 <= u64::MAX && downloaded <= total ==> pct as int == downloaded
            * 100 / (total as int),
{
    match downloaded.checked_mul(100) {
        Some(x) => match x.checked_div(total) {
            Some(q) => {
                proof {
                    if downloaded <= total {
                        assert(x / total <= 100) by (nonlinear_arith)
                            requires x == downloaded * 100, downloaded <= total, total > 0;
                    }
                }
                q as u32
            },
            None => 0,
        },
        None => 0,
    }
}

/// The download percentage on which a progress report is sent: `downloaded *
/// 100 / total` as a signed number; none while the total is unknown (zero).
pub open spec fn report_percent(downloaded: u64, total: u64) -> Option<i64> {
    if total == 0 {
        None
    } else {
        Some(((downloaded * 100) / (total as int)) as i64)
    }
}

/// Decides when a running download reports its progress: once for each
/// whole percentage that it reaches.
pub struct ProgressGate {
    pub downloaded: u64,
    pub total: u64,
    pub last_reported: i64,
}

/// Nothing reported yet, or the last report was at the percentage that the
/// byte count reaches now.
pub open spec fn gate_consistent(g: ProgressGate) -> bool {
    g.last_reported == -1 || report_percent(g.downloaded, g.total) == Some(g.last_reported)
}

impl ProgressGate {
    /// A gate for a download of `total` bytes (0 when the size is unknown).
    pub fn new(total: u64) -> (g: Self)
        ensures
            g.downloaded == 0,
            g.total == total,
            g.last_reported == -1,
            gate_consistent(g),
    {
        ProgressGate { downloaded: 0, total, last_reported: -1 }
    }

    /// Counts `n` more bytes; returns whether a progress report is due, that
    /// is whether the percentage reached differs from the last one reported.
    pub fn record(&mut self, n: u64) -> (report: bool)
        requires
            (old(self).downloaded + n) * 100 <= u64::MAX,
        ensures
            final(self).downloaded == old(self).downloaded + n,
            final(self).total == old(self).total,
            match report_percent(final(self).downloaded, final(self).total) {
                Some(p) => report == (p != old(self).last_reported) && final(self).last_reported == p,
                None => !report && final(self).last_reported == old(self).last_reported,
            },
            gate_consistent(*old(self)) ==> gate_consistent(*final(self)),
    {
        self.downloaded = self.downloaded + n;
        match (self.downloaded * 100).checked_div(self.total) {
            Some(q) => {
                let pct = q as i64;
                if pct != self.last_reported {
                    self.last_reported = pct;
                    true
                } else {
                    false
                }
            },
            None => false,
        }
    }
}

/// Reported percentages only go up: while the percentages stay within the
/// signed 64-bit range, a consistent gate reports only at a percentage above
/// the last one it reported.
pub proof fn lemma_reports_increase(g: ProgressGate, n: u64)
    requires
        gate_consistent(g),
        g.total != 0,
        (g.downloaded + n) * 100 <= i64::MAX,
    ensures
        ({
            let p = report_percent((g.downloaded + n) as u64, g.total)->Some_0;
            p != g.last_reported ==> p > g.last_reported
        }),
{
    let before = g.downloaded;
    let after = (g.downloaded + n) as u64;
    let total = g.total;
    assert((before * 100) / (total as int) <= (after * 100) / (total as int)) by (nonlinear_arith)
        requires before <= after, total > 0;
    assert((after * 100) / (total as int) <= after * 100) by (nonlinear_arith)
        requires total > 0, after >= 0;
}

/// Before the end of a download of known size, the percentage shown is the
/// share of bytes arrived, rounded down: it grows with the byte count and
/// is 100 exactly at the total.
pub proof fn lemma_percent_is_share(downloaded: u64, more: u64, total: u64)
    requires
        total > 0,
        downloaded <= more <= total,
        total * 100 <= u64::MAX,
    ensures
        spec_progress_percent(downloaded, total) as int == downloaded * 100 / (total as int),
        spec_progress_percent(downloaded, total) <= spec_progress_percent(more, total),
        spec_progress_percent(total, total) == 100,
{
    assert(downloaded * 100 <= total * 100) by (nonlinear_arith)
        requires downloaded <= total;
    assert(more * 100 <= total * 100) by (nonlinear_arith)
        requires more <= total;
    assert(downloaded * 100 / (total as int) <= 100) by (nonlinear_arith)
        requires downloaded <= total, total > 0;
    assert(more * 100 / (total as int) <= 100) by (nonlinear_arith)
        requires more <= total, total > 0;
    assert(downloaded * 100 / (total as int) <= more * 100 / (total as int)) by (nonlinear_arith)
        requires downloaded <= more, total > 0;
    assert(total * 100 / (total as int) == 100) by (nonlinear_arith)
        requires total > 0;
}

/// The percentage shown never exceeds 100 while no more than the announced
/// total has arrived.
pub proof fn lemma_percent_at_most_100(downloaded: u64, total: u64)
    requires
        downloaded <= total,
    ensures
        spec_progress_percent(downloaded, total) <= 100,
{
    if total != 0 && downloaded * 100 <= u64::MAX {
        assert((downloaded * 100) / (total as int) <= 100) by (nonlinear_arith)
            requires downloaded <= total, total > 0;
    }
}

} // verus!
