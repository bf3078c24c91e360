//! Downloads that resume: progress, and the decisions of a transfer.
//!
//! A transfer streams to a partial file beside its target and renames it at the
//! end, so the target is always complete. An interrupted transfer keeps the
//! partial file and continues from its length.

use crate::compute::local::error::{LocalError, LocalErrorView};
use crate::model::opt;
use crate::text::{
    chars_of, decimal, is_digit, law_number_is_read_back, lemma_decimal_spells, lemma_trim,
    parse_u64, parsed_u64, stands_at, string_of, trim, trim_text, u64_text,
};
use vstd::prelude::*;

verus! {

/// Lifecycle of one download.
#[derive(Debug)]
pub enum DownloadStatus {
    Idle,
    Downloading,
    Completed,
    Failed(String),
}

/// [`DownloadStatus`] as a mathematical value.
pub enum StatusView {
    Idle,
    Downloading,
    Completed,
    Failed(Seq<char>),
}

impl View for DownloadStatus {
    type V = StatusView;

    open spec fn view(&self) -> StatusView {
        match self {
            DownloadStatus::Idle => StatusView::Idle,
            DownloadStatus::Downloading => StatusView::Downloading,
            DownloadStatus::Completed => StatusView::Completed,
            DownloadStatus::Failed(s) => StatusView::Failed(s@),
        }
    }
}

impl Clone for DownloadStatus {
    fn clone(&self) -> (r: Self)
        ensures
            r@ == self@,
    {
        match self {
            DownloadStatus::Idle => DownloadStatus::Idle,
            DownloadStatus::Downloading => DownloadStatus::Downloading,
            DownloadStatus::Completed => DownloadStatus::Completed,
            DownloadStatus::Failed(s) => DownloadStatus::Failed(s.clone()),
        }
    }
}

impl Default for DownloadStatus {
    fn default() -> (r: Self)
        ensures
            r@ == StatusView::Idle,
    {
        DownloadStatus::Idle
    }
}

/// Progress of one download.
#[derive(Debug)]
pub struct DownloadState {
    bytes_downloaded: u64,
    total_bytes: u64,
    cancelled: bool,
    status: DownloadStatus,
}

/// [`DownloadState`] as a mathematical value.
pub struct ProgressView {
    pub downloaded: u64,
    pub total: u64,
    pub cancelled: bool,
    pub status: StatusView,
}

impl View for DownloadState {
    type V = ProgressView;

    closed spec fn view(&self) -> ProgressView {
        ProgressView {
            downloaded: self.bytes_downloaded,
            total: self.total_bytes,
            cancelled: self.cancelled,
            status: self.status@,
        }
    }
}

impl Default for DownloadState {
    fn default() -> (r: Self)
        ensures
            r@ == (ProgressView {
                downloaded: 0,
                total: 0,
                cancelled: false,
                status: StatusView::Idle,
            }),
    {
        DownloadState {
            bytes_downloaded: 0,
            total_bytes: 0,
            cancelled: false,
            status: DownloadStatus::Idle,
        }
    }
}

impl DownloadState {
    /// The progress of a download that begins, with its published size.
    pub fn begin(size_bytes: u64) -> (r: DownloadState)
        ensures
            r@ == (ProgressView {
                downloaded: 0,
                total: size_bytes,
                cancelled: false,
                status: StatusView::Downloading,
            }),
    {
        let mut state = DownloadState::default();
        state.set_status(DownloadStatus::Downloading);
        state.set_total(size_bytes);
        state
    }

    /// Bytes written so far, resumed bytes included.
    pub fn bytes_downloaded(&self) -> (r: u64)
        ensures
            r == self@.downloaded,
    {
        self.bytes_downloaded
    }

    /// Total expected bytes; zero while unknown.
    pub fn total_bytes(&self) -> (r: u64)
        ensures
            r == self@.total,
    {
        self.total_bytes
    }

    /// Current lifecycle status.
    pub fn status(&self) -> (r: DownloadStatus)
        ensures
            r@ == self@.status,
    {
        self.status.clone()
    }

    /// Requests cancellation.
    pub fn cancel(&mut self)
        ensures
            final(self)@ == (ProgressView { cancelled: true, ..old(self)@ }),
    {
        self.cancelled = true;
    }

    /// Whether cancellation has been requested.
    pub fn is_cancelled(&self) -> (r: bool)
        ensures
            r == self@.cancelled,
    {
        self.cancelled
    }

    /// Sets the lifecycle status.
    pub fn set_status(&mut self, status: DownloadStatus)
        ensures
            final(self)@ == (ProgressView { status: status@, ..old(self)@ }),
    {
        self.status = status;
    }

    /// Sets the total.
    pub fn set_total(&mut self, total: u64)
        ensures
            final(self)@ == (ProgressView { total, ..old(self)@ }),
    {
        self.total_bytes = total;
    }

    /// Sets the bytes written.
    pub fn set_downloaded(&mut self, bytes: u64)
        ensures
            final(self)@ == (ProgressView { downloaded: bytes, ..old(self)@ }),
    {
        self.bytes_downloaded = bytes;
    }

    /// Adds to the bytes written, around the end of the range.
    pub fn add_downloaded(&mut self, bytes: u64)
        ensures
            final(self)@ == (ProgressView {
                downloaded: wrapped_sum(old(self)@.downloaded, bytes),
                ..old(self)@
            }),
    {
        self.bytes_downloaded = self.bytes_downloaded.wrapping_add(bytes);
    }

    /// Notes how a transfer ended.
    pub fn conclude(&mut self, result: Result<(), LocalError>)
        ensures
            final(self)@ == (ProgressView {
                status: match result {
                    Ok(_) => StatusView::Completed,
                    Err(e) => StatusView::Failed(e@.message()),
                },
                ..old(self)@
            }),
    {
        match result {
            Ok(_) => self.set_status(DownloadStatus::Completed),
            Err(e) => self.set_status(DownloadStatus::Failed(e.to_text())),
        }
    }

    /// Notes that the worker ended abnormally, unless a failure is noted already.
    pub fn note_panic(&mut self)
        ensures
            final(self)@ == (if old(self)@.status is Failed {
                old(self)@
            } else {
                ProgressView {
                    status: StatusView::Failed("download task panicked"@),
                    ..old(self)@
                }
            }),
    {
        let failed = match &self.status {
            DownloadStatus::Failed(_) => true,
            _ => false,
        };
        if !failed {
            self.set_status(DownloadStatus::Failed("download task panicked".to_owned()));
        }
    }
}

/// The sum of two counts, around the end of the range.
pub open spec fn wrapped_sum(a: u64, b: u64) -> u64 {
    if a + b > u64::MAX {
        (a + b - u64::MAX - 1) as u64
    } else {
        (a + b) as u64
    }
}

/// The partial file beside a target.
pub fn part_path(dest: &str) -> (r: String)
    ensures
        r@ == dest@ + ".part"@,
{
    dest.to_owned().concat(".part")
}

/// The text behind the last slash.
pub open spec fn after_last_slash(s: Seq<char>, n: int) -> Seq<char>
    decreases n,
{
    if n <= 0 || s[n - 1] == '/' {
        s.skip(n)
    } else {
        after_last_slash(s, n - 1)
    }
}

/// The total length in the value of a `Content-Range` header.
pub open spec fn range_total(header: Seq<char>) -> Option<u64> {
    parsed_u64(trim(after_last_slash(header, header.len() as int)))
}

/// The total length in the value of a `Content-Range` header, where there is one.
pub fn content_range_total(header: &Option<String>) -> (r: Option<u64>)
    ensures
        r == (match header {
            Some(h) => range_total(h@),
            None => None,
        }),
{
    match header {
        Some(h) => {
            let chars = chars_of(h.as_str());
            let mut n: usize = chars.len();
            while n > 0 && chars[n - 1] != '/'
                invariant
                    n <= chars.len(),
                    chars@ == h@,
                    after_last_slash(h@, h@.len() as int) == after_last_slash(h@, n as int),
                decreases n,
            {
                n -= 1;
            }
            let tail = string_of(vstd::slice::slice_subrange(chars.as_slice(), n, chars.len()));
            assert(tail@ =~= h@.skip(n as int));
            parse_u64(trim_text(tail.as_str()).as_str())
        },
        None => None,
    }
}

/// Where a transfer stands: what it waits for.
#[derive(Clone, Copy, Debug, PartialEq, Eq, Structural)]
pub enum Stage {
    /// Whether the target exists.
    CheckingTarget,
    /// The directory of the target.
    EnsuringDir,
    /// The length of the partial file.
    ProbingPart,
    /// The removal of the partial file.
    RemovingPart,
    /// The response.
    Sending,
    /// The partial file to write to.
    Opening,
    /// The next piece of the body.
    Reading,
    /// The writing of a piece.
    Writing { len: u64 },
    /// The flushing of what is written, before giving up.
    Flushing,
    /// The closing and renaming of the partial file.
    Finalizing,
    /// Nothing: the transfer is over.
    Over,
}

/// A transfer.
pub struct Transfer {
    url: String,
    stage: Stage,
    /// Whether the partial file may still be used.
    allow_resume: bool,
    /// The length of the partial file.
    resume_from: u64,
}

/// [`Transfer`] as a mathematical value.
pub struct TransferView {
    pub url: Seq<char>,
    pub stage: Stage,
    pub allow_resume: bool,
    pub resume_from: u64,
}

impl View for Transfer {
    type V = TransferView;

    closed spec fn view(&self) -> TransferView {
        TransferView {
            url: self.url@,
            stage: self.stage,
            allow_resume: self.allow_resume,
            resume_from: self.resume_from,
        }
    }
}

/// What a server answers: the status code and the line that shows it, the
/// `Content-Range` header and the length of the body.
#[derive(Debug)]
pub struct Response {
    pub status: u16,
    pub status_line: String,
    pub content_range: Option<String>,
    pub content_length: Option<u64>,
}

/// [`Response`] as a mathematical value.
pub struct ResponseView {
    pub status: u16,
    pub status_line: Seq<char>,
    pub content_range: Option<Seq<char>>,
    pub content_length: Option<u64>,
}

impl View for Response {
    type V = ResponseView;

    open spec fn view(&self) -> ResponseView {
        ResponseView {
            status: self.status,
            status_line: self.status_line@,
            content_range: opt(self.content_range),
            content_length: self.content_length,
        }
    }
}

/// What a transfer is told.
#[allow(inconsistent_fields)]
#[derive(Debug)]
pub enum TransferInput {
    /// The length of the target, where it exists.
    Target { len: Option<u64> },
    /// File work has been done, or failed with a message.
    Files { result: Result<(), String> },
    /// The length of the partial file, zero where there is none.
    PartLength { len: u64 },
    /// The server answered, or the request failed with a message.
    Answered { result: Result<Response, String> },
    /// A piece of the body of the given length; none at its end; or a failure.
    Piece { result: Result<Option<u64>, String> },
}

/// [`TransferInput`] as a mathematical value.
#[allow(inconsistent_fields)]
pub enum TransferInputView {
    Target { len: Option<u64> },
    Files { result: Result<(), Seq<char>> },
    PartLength { len: u64 },
    Answered { result: Result<ResponseView, Seq<char>> },
    Piece { result: Result<Option<u64>, Seq<char>> },
}

impl View for TransferInput {
    type V = TransferInputView;

    open spec fn view(&self) -> TransferInputView {
        match self {
            TransferInput::Target { len } => TransferInputView::Target { len: *len },
            TransferInput::Files { result } => TransferInputView::Files {
                result: match result {
                    Ok(u) => Ok(*u),
                    Err(e) => Err(e@),
                },
            },
            TransferInput::PartLength { len } => TransferInputView::PartLength { len: *len },
            TransferInput::Answered { result } => TransferInputView::Answered {
                result: match result {
                    Ok(a) => Ok(a@),
                    Err(e) => Err(e@),
                },
            },
            TransferInput::Piece { result } => TransferInputView::Piece {
                result: match result {
                    Ok(p) => Ok(*p),
                    Err(e) => Err(e@),
                },
            },
        }
    }
}

/// What a transfer asks for.
#[derive(Debug)]
pub enum TransferAction {
    /// Make the directory of the target.
    EnsureDir,
    /// Look at the partial file.
    ProbePart,
    /// Remove the partial file; a failure does not matter.
    RemovePart,
    /// Request the file, from a position on where one is given.
    Send { range_from: Option<u64> },
    /// Open the partial file, to append or anew.
    OpenPart { append: bool },
    /// Wait for the next piece of the body.
    NextPiece,
    /// Write the piece.
    WritePiece,
    /// Flush what is written.
    Flush,
    /// Flush, sync and close the partial file, and rename it to the target.
    Finalize,
    /// The transfer is over.
    Finish { result: Result<(), LocalError> },
    /// The input did not fit; keep waiting.
    Wait,
}

/// [`TransferAction`] as a mathematical value.
pub enum TransferActionView {
    EnsureDir,
    ProbePart,
    RemovePart,
    Send { range_from: Option<u64> },
    OpenPart { append: bool },
    NextPiece,
    WritePiece,
    Flush,
    Finalize,
    Finish { result: Result<(), LocalErrorView> },
    Wait,
}

impl View for TransferAction {
    type V = TransferActionView;

    open spec fn view(&self) -> TransferActionView {
        match self {
            TransferAction::EnsureDir => TransferActionView::EnsureDir,
            TransferAction::ProbePart => TransferActionView::ProbePart,
            TransferAction::RemovePart => TransferActionView::RemovePart,
            TransferAction::Send { range_from } => TransferActionView::Send {
                range_from: *range_from,
            },
            TransferAction::OpenPart { append } => TransferActionView::OpenPart { append: *append },
            TransferAction::NextPiece => TransferActionView::NextPiece,
            TransferAction::WritePiece => TransferActionView::WritePiece,
            TransferAction::Flush => TransferActionView::Flush,
            TransferAction::Finalize => TransferActionView::Finalize,
            TransferAction::Finish { result } => TransferActionView::Finish {
                result: match result {
                    Ok(u) => Ok(*u),
                    Err(e) => Err(e@),
                },
            },
            TransferAction::Wait => TransferActionView::Wait,
        }
    }
}

/// A transfer and its progress.
pub type Both = (TransferView, ProgressView);

/// The transfer is over.
pub open spec fn over(b: Both, result: Result<(), LocalErrorView>) -> (Both, TransferActionView) {
    ((TransferView { stage: Stage::Over, ..b.0 }, b.1), TransferActionView::Finish { result })
}

/// An attempt begins: nothing where the download is cancelled, the partial file
/// where it may be used, or its removal.
pub open spec fn attempt(b: Both) -> (Both, TransferActionView) {
    if b.1.cancelled {
        over(b, Err(LocalErrorView::Cancelled))
    } else if b.0.allow_resume {
        ((TransferView { stage: Stage::ProbingPart, ..b.0 }, b.1), TransferActionView::ProbePart)
    } else {
        ((TransferView { stage: Stage::RemovingPart, ..b.0 }, b.1), TransferActionView::RemovePart)
    }
}

/// The request is sent, with a range where there is something to resume.
pub open spec fn send(b: Both, resume_from: u64) -> (Both, TransferActionView) {
    (
        (TransferView { stage: Stage::Sending, resume_from, ..b.0 }, b.1),
        TransferActionView::Send {
            range_from: if resume_from > 0 {
                Some(resume_from)
            } else {
                None
            },
        },
    )
}

/// Whether a response continues the partial file.
pub open spec fn resuming(t: TransferView, a: ResponseView) -> bool {
    a.status == 206 && t.resume_from > 0
}

/// The total that a response reports, where it does.
pub open spec fn reported_total(t: TransferView, a: ResponseView) -> Option<u64> {
    if resuming(t, a) {
        match a.content_range {
            Some(h) => match range_total(h) {
                Some(n) => Some(n),
                None => match a.content_length {
                    Some(len) => Some(wrapped_sum(t.resume_from, len)),
                    None => None,
                },
            },
            None => match a.content_length {
                Some(len) => Some(wrapped_sum(t.resume_from, len)),
                None => None,
            },
        }
    } else {
        a.content_length
    }
}

/// The server answers. A partial file that the server cannot continue is thrown
/// away, once; any other status that is no success ends the transfer.
pub open spec fn answered(b: Both, a: ResponseView) -> (Both, TransferActionView) {
    if a.status == 416 && b.0.allow_resume {
        attempt((TransferView { allow_resume: false, ..b.0 }, b.1))
    } else if !(200 <= a.status <= 299) {
        over(
            b,
            Err(
                LocalErrorView::Http(
                    "HTTP "@ + a.status_line + " downloading "@ + b.0.url,
                ),
            ),
        )
    } else {
        let append = resuming(b.0, a);
        (
            (
                TransferView {
                    stage: Stage::Opening,
                    resume_from: if append {
                        b.0.resume_from
                    } else {
                        0
                    },
                    ..b.0
                },
                ProgressView {
                    total: match reported_total(b.0, a) {
                        Some(n) => n,
                        None => b.1.total,
                    },
                    ..b.1
                },
            ),
            TransferActionView::OpenPart { append },
        )
    }
}

/// File work has been done, or failed.
pub open spec fn filed(b: Both, result: Result<(), Seq<char>>) -> (Both, TransferActionView) {
    match (b.0.stage, result) {
        (Stage::RemovingPart, _) => send(b, 0),
        (Stage::EnsuringDir, Ok(_)) => attempt(b),
        (Stage::Opening, Ok(_)) => (
            (
                TransferView { stage: Stage::Reading, ..b.0 },
                ProgressView { downloaded: b.0.resume_from, ..b.1 },
            ),
            TransferActionView::NextPiece,
        ),
        (Stage::Writing { len }, Ok(_)) => (
            (
                TransferView { stage: Stage::Reading, ..b.0 },
                ProgressView { downloaded: wrapped_sum(b.1.downloaded, len), ..b.1 },
            ),
            TransferActionView::NextPiece,
        ),
        (Stage::Flushing, Ok(_)) => over(b, Err(LocalErrorView::Cancelled)),
        (Stage::Finalizing, Ok(_)) => over(b, Ok(())),
        (Stage::EnsuringDir, Err(e)) => over(b, Err(LocalErrorView::Io(e))),
        (Stage::Opening, Err(e)) => over(b, Err(LocalErrorView::Io(e))),
        (Stage::Writing { len }, Err(e)) => over(b, Err(LocalErrorView::Io(e))),
        (Stage::Flushing, Err(e)) => over(b, Err(LocalErrorView::Io(e))),
        (Stage::Finalizing, Err(e)) => over(b, Err(LocalErrorView::Io(e))),
        _ => (b, TransferActionView::Wait),
    }
}

/// A piece of the body arrives. Cancellation counts before anything else; the
/// partial file stays.
pub open spec fn pieced(b: Both, result: Result<Option<u64>, Seq<char>>) -> (
    Both,
    TransferActionView,
) {
    match result {
        Ok(None) => (
            (TransferView { stage: Stage::Finalizing, ..b.0 }, b.1),
            TransferActionView::Finalize,
        ),
        _ => if b.1.cancelled {
            ((TransferView { stage: Stage::Flushing, ..b.0 }, b.1), TransferActionView::Flush)
        } else {
            match result {
                Ok(Some(len)) => (
                    (TransferView { stage: Stage::Writing { len }, ..b.0 }, b.1),
                    TransferActionView::WritePiece,
                ),
                Ok(None) => (b, TransferActionView::Wait),
                Err(e) => over(b, Err(LocalErrorView::Http("stream error: "@ + e))),
            }
        },
    }
}

/// The transfer after an input, and what it asks for.
pub open spec fn transfer_step(b: Both, input: TransferInputView) -> (Both, TransferActionView) {
    match (b.0.stage, input) {
        (Stage::CheckingTarget, TransferInputView::Target { len }) => match len {
            Some(n) => over((b.0, ProgressView { downloaded: n, total: n, ..b.1 }), Ok(())),
            None => (
                (TransferView { stage: Stage::EnsuringDir, ..b.0 }, b.1),
                TransferActionView::EnsureDir,
            ),
        },
        (Stage::ProbingPart, TransferInputView::PartLength { len }) => send(b, len),
        (Stage::Sending, TransferInputView::Answered { result }) => match result {
            Ok(a) => answered(b, a),
            Err(e) => over(
                b,
                Err(LocalErrorView::Http("request to "@ + b.0.url + " failed: "@ + e)),
            ),
        },
        (Stage::Reading, TransferInputView::Piece { result }) => pieced(b, result),
        (_, TransferInputView::Files { result }) => filed(b, result),
        _ => (b, TransferActionView::Wait),
    }
}

impl Transfer {
    /// A transfer of a URL that has not begun.
    pub fn new(url: &str) -> (r: Transfer)
        ensures
            r@ == (TransferView {
                url: url@,
                stage: Stage::CheckingTarget,
                allow_resume: true,
                resume_from: 0,
            }),
    {
        Transfer {
            url: url.to_owned(),
            stage: Stage::CheckingTarget,
            allow_resume: true,
            resume_from: 0,
        }
    }

    /// Whether the transfer is over.
    pub fn is_over(&self) -> (r: bool)
        ensures
            r == (self@.stage == Stage::Over),
    {
        self.stage == Stage::Over
    }

    fn over(&mut self, result: Result<(), LocalError>) -> (r: TransferAction)
        ensures
            final(self)@ == (TransferView { stage: Stage::Over, ..old(self)@ }),
            r@ == (TransferActionView::Finish {
                result: match result {
                    Ok(u) => Ok(u),
                    Err(e) => Err(e@),
                },
            }),
    {
        self.stage = Stage::Over;
        TransferAction::Finish { result }
    }

    fn attempt(&mut self, state: &DownloadState) -> (r: TransferAction)
        ensures
            ((final(self)@, state@), r@) == attempt((old(self)@, state@)),
    {
        if state.is_cancelled() {
            self.over(Err(LocalError::Cancelled))
        } else if self.allow_resume {
            self.stage = Stage::ProbingPart;
            TransferAction::ProbePart
        } else {
            self.stage = Stage::RemovingPart;
            TransferAction::RemovePart
        }
    }

    fn send(&mut self, resume_from: u64) -> (r: TransferAction)
        ensures
            forall|p: ProgressView|
                ((final(self)@, p), r@) == #[trigger] send((old(self)@, p), resume_from),
    {
        self.stage = Stage::Sending;
        self.resume_from = resume_from;
        TransferAction::Send {
            range_from: if resume_from > 0 {
                Some(resume_from)
            } else {
                None
            },
        }
    }

    fn answered(&mut self, state: &mut DownloadState, a: Response) -> (r: TransferAction)
        ensures
            ((final(self)@, final(state)@), r@) == answered((old(self)@, old(state)@), a@),
    {
        if a.status == 416 && self.allow_resume {
            self.allow_resume = false;
            return self.attempt(state);
        }
        if !(200 <= a.status && a.status <= 299) {
            let mut message = "HTTP ".to_owned();
            message.append(a.status_line.as_str());
            message.append(" downloading ");
            message.append(self.url.as_str());
            return self.over(Err(LocalError::Http(message)));
        }
        let append = a.status == 206 && self.resume_from > 0;
        let total: Option<u64> = if append {
            match content_range_total(&a.content_range) {
                Some(n) => Some(n),
                None => match a.content_length {
                    Some(len) => Some(self.resume_from.wrapping_add(len)),
                    None => None,
                },
            }
        } else {
            a.content_length
        };
        match total {
            Some(n) => {
                state.set_total(n);
            },
            None => {},
        }
        if !append {
            self.resume_from = 0;
        }
        self.stage = Stage::Opening;
        TransferAction::OpenPart { append }
    }

    fn filed(&mut self, state: &mut DownloadState, result: Result<(), String>) -> (r: TransferAction)
        ensures
            ((final(self)@, final(state)@), r@) == filed(
                (old(self)@, old(state)@),
                match result {
                    Ok(u) => Ok(u),
                    Err(e) => Err(e@),
                },
            ),
    {
        match (self.stage, result) {
            (Stage::RemovingPart, _) => self.send(0),
            (Stage::EnsuringDir, Ok(_)) => self.attempt(state),
            (Stage::Opening, Ok(_)) => {
                self.stage = Stage::Reading;
                state.set_downloaded(self.resume_from);
                TransferAction::NextPiece
            },
            (Stage::Writing { len }, Ok(_)) => {
                self.stage = Stage::Reading;
                state.add_downloaded(len);
                TransferAction::NextPiece
            },
            (Stage::Flushing, Ok(_)) => self.over(Err(LocalError::Cancelled)),
            (Stage::Finalizing, Ok(_)) => self.over(Ok(())),
            (Stage::EnsuringDir, Err(e)) => self.over(Err(LocalError::Io(e))),
            (Stage::Opening, Err(e)) => self.over(Err(LocalError::Io(e))),
            (Stage::Writing { .. }, Err(e)) => self.over(Err(LocalError::Io(e))),
            (Stage::Flushing, Err(e)) => self.over(Err(LocalError::Io(e))),
            (Stage::Finalizing, Err(e)) => self.over(Err(LocalError::Io(e))),
            _ => TransferAction::Wait,
        }
    }

    fn pieced(&mut self, state: &DownloadState, result: Result<Option<u64>, String>) -> (r:
        TransferAction)
        ensures
            ((final(self)@, state@), r@) == pieced(
                (old(self)@, state@),
                match result {
                    Ok(p) => Ok(p),
                    Err(e) => Err(e@),
                },
            ),
    {
        match result {
            Ok(None) => {
                self.stage = Stage::Finalizing;
                TransferAction::Finalize
            },
            Ok(Some(len)) => {
                if state.is_cancelled() {
                    self.stage = Stage::Flushing;
                    TransferAction::Flush
                } else {
                    self.stage = Stage::Writing { len };
                    TransferAction::WritePiece
                }
            },
            Err(e) => {
                if state.is_cancelled() {
                    self.stage = Stage::Flushing;
                    TransferAction::Flush
                } else {
                    self.over(
                        Err(LocalError::Http("stream error: ".to_owned().concat(e.as_str()))),
                    )
                }
            },
        }
    }

    /// Takes an input and yields what comes next.
    pub fn step(&mut self, state: &mut DownloadState, input: TransferInput) -> (r: TransferAction)
        ensures
            ((final(self)@, final(state)@), r@) == transfer_step(
                (old(self)@, old(state)@),
                input@,
            ),
    {
        match (self.stage, input) {
            (Stage::CheckingTarget, TransferInput::Target { len }) => match len {
                Some(n) => {
                    state.set_downloaded(n);
                    state.set_total(n);
                    self.over(Ok(()))
                },
                None => {
                    self.stage = Stage::EnsuringDir;
                    TransferAction::EnsureDir
                },
            },
            (Stage::ProbingPart, TransferInput::PartLength { len }) => self.send(len),
            (Stage::Sending, TransferInput::Answered { result }) => match result {
                Ok(a) => self.answered(state, a),
                Err(e) => {
                    let mut message = "request to ".to_owned();
                    message.append(self.url.as_str());
                    message.append(" failed: ");
                    message.append(e.as_str());
                    self.over(Err(LocalError::Http(message)))
                },
            },
            (Stage::Reading, TransferInput::Piece { result }) => self.pieced(state, result),
            (_, TransferInput::Files { result }) => self.filed(state, result),
            _ => TransferAction::Wait,
        }
    }
}

/// The value of the range header that asks for a file from a position on.
pub fn range_header(from: u64) -> (r: String)
    ensures
        r@ == "bytes="@ + decimal(from as nat) + "-"@,
{
    let mut s = "bytes=".to_owned();
    s.append(u64_text(from).as_str());
    s.append("-");
    s
}

/// The partial file is removed only after the server refused to continue it, so
/// a cancelled or failed transfer keeps it.
pub proof fn law_partial_file_is_kept(b: Both, input: TransferInputView)
    requires
        transfer_step(b, input).1 is RemovePart,
    ensures
        !transfer_step(b, input).0.0.allow_resume,
        b.0.stage == Stage::Sending ==> (input matches TransferInputView::Answered {
            result: Ok(a),
        } && a.status == 416),
        b.0.stage == Stage::Sending || b.0.stage == Stage::EnsuringDir,
        b.0.stage == Stage::EnsuringDir ==> !b.0.allow_resume,
{
}

/// The target appears only through the renaming at the end, after the whole body.
pub proof fn law_target_is_complete(b: Both, input: TransferInputView)
    requires
        transfer_step(b, input).1 is Finalize,
    ensures
        b.0.stage == Stage::Reading,
        input == (TransferInputView::Piece { result: Ok(None) }),
{
}

/// A transfer succeeds only by the renaming, or because the target existed.
pub proof fn law_success_means_the_target_exists(b: Both, input: TransferInputView)
    requires
        transfer_step(b, input).1 == (TransferActionView::Finish { result: Ok(()) }),
    ensures
        b.0.stage == Stage::Finalizing || (input matches TransferInputView::Target {
            len: Some(n),
        }),
{
}

/// Restarting happens at most once: without leave to resume, no step gives it back.
pub proof fn law_restart_happens_once(b: Both, input: TransferInputView)
    requires
        !b.0.allow_resume,
    ensures
        !transfer_step(b, input).0.0.allow_resume,
        b.0.stage == Stage::Sending ==> !(transfer_step(b, input).1 is RemovePart),
{
}

/// A resumed transfer counts what the partial file held; a restarted one does not.
pub proof fn law_progress_counts_resumed_bytes(b: Both, a: ResponseView)
    requires
        b.0.stage == Stage::Sending,
        200 <= a.status <= 299,
    ensures
        ({
            let opened = transfer_step(b, TransferInputView::Answered { result: Ok(a) }).0;
            transfer_step(opened, TransferInputView::Files { result: Ok(()) }).0.1.downloaded
                == (if a.status == 206 {
                b.0.resume_from
            } else {
                0
            })
        }),
{
}

/// A transfer goes on where the partial file ends: it asks for the rest from there, or for
/// the whole where there is nothing yet, and appends just where the server sends the rest.
pub proof fn law_transfer_goes_on_where_it_stopped(b: Both, len: u64, a: ResponseView)
    requires
        b.0.stage == Stage::ProbingPart,
        200 <= a.status <= 299,
    ensures
        ({
            let (sent, action) = transfer_step(b, TransferInputView::PartLength { len });
            let (opened, next) = transfer_step(
                sent,
                TransferInputView::Answered { result: Ok(a) },
            );
            &&& len > 0 ==> action == (TransferActionView::Send { range_from: Some(len) })
            &&& len == 0 ==> action == (TransferActionView::Send { range_from: None })
            &&& next == (TransferActionView::OpenPart { append: a.status == 206 && len > 0 })
            &&& sent.1 == b.1
        }),
{
}

/// Every piece that arrives is written, and counted once it is; then the next is asked for.
pub proof fn law_every_piece_is_written_and_counted(b: Both, len: u64)
    requires
        b.0.stage == Stage::Reading,
        !b.1.cancelled,
        b.1.downloaded + len <= u64::MAX,
    ensures
        ({
            let (got, action) = transfer_step(
                b,
                TransferInputView::Piece { result: Ok(Some(len)) },
            );
            let (written, next) = transfer_step(got, TransferInputView::Files { result: Ok(()) });
            &&& action is WritePiece && got.1 == b.1
            &&& next is NextPiece && written.0.stage == Stage::Reading
            &&& written.1.downloaded == b.1.downloaded + len && written.1.total == b.1.total
        }),
{
}

/// The end of the body makes the partial file the target, and then the transfer is done.
pub proof fn law_end_of_the_body_completes(b: Both)
    requires
        b.0.stage == Stage::Reading,
    ensures
        ({
            let (done, action) = transfer_step(b, TransferInputView::Piece { result: Ok(None) });
            let (over, last) = transfer_step(done, TransferInputView::Files { result: Ok(()) });
            &&& action is Finalize && done.1 == b.1
            &&& last == (TransferActionView::Finish { result: Ok(()) }) && over.0.stage
                == Stage::Over
        }),
{
}

/// A cancelled transfer writes nothing more: what is there is flushed, and the transfer
/// ends as cancelled. It is not even begun where it was cancelled before.
pub proof fn law_cancelled_transfer_writes_nothing_more(
    b: Both,
    result: Result<Option<u64>, Seq<char>>,
)
    requires
        b.1.cancelled,
    ensures
        b.0.stage == Stage::Reading && result != Ok::<Option<u64>, Seq<char>>(None) ==> {
            let (flushed, action) = transfer_step(b, TransferInputView::Piece { result });
            let (over, last) = transfer_step(flushed, TransferInputView::Files { result: Ok(()) });
            &&& action is Flush
            &&& last == (TransferActionView::Finish { result: Err(LocalErrorView::Cancelled) })
        },
        b.0.stage == Stage::EnsuringDir ==> transfer_step(
            b,
            TransferInputView::Files { result: Ok(()) },
        ).1 == (TransferActionView::Finish { result: Err(LocalErrorView::Cancelled) }),
{
}

/// A failure ends the transfer and is told: a status that is no success with its line and
/// the address, a request that failed with its reason, and file work with its own.
pub proof fn law_failed_transfer_tells_why(b: Both, a: ResponseView, e: Seq<char>)
    ensures
        b.0.stage == Stage::Sending && !(200 <= a.status <= 299) && !(a.status == 416
            && b.0.allow_resume) ==> (transfer_step(
            b,
            TransferInputView::Answered { result: Ok(a) },
        ).1 matches TransferActionView::Finish { result: Err(LocalErrorView::Http(told)) }
            && stands_at(told, a.status_line, 5) && stands_at(
            told,
            b.0.url,
            told.len() - b.0.url.len(),
        )),
        b.0.stage == Stage::Sending ==> (transfer_step(
            b,
            TransferInputView::Answered { result: Err(e) },
        ).1 matches TransferActionView::Finish { result: Err(LocalErrorView::Http(told)) }
            && stands_at(told, e, told.len() - e.len()) && stands_at(told, b.0.url, 11)),
        b.0.stage == Stage::Reading && !b.1.cancelled ==> (transfer_step(
            b,
            TransferInputView::Piece { result: Err(e) },
        ).1 matches TransferActionView::Finish { result: Err(LocalErrorView::Http(told)) }
            && stands_at(told, e, told.len() - e.len())),
        b.0.stage == Stage::EnsuringDir || b.0.stage == Stage::Opening || b.0.stage is Writing
            || b.0.stage == Stage::Finalizing ==> transfer_step(
            b,
            TransferInputView::Files { result: Err(e) },
        ).1 == (TransferActionView::Finish { result: Err(LocalErrorView::Io(e)) }),
{
    reveal_strlit("HTTP ");
    reveal_strlit("request to ");
}

/// The total is what the server says: the whole length of the range header where it sends
/// the rest, or what is there and what is to come; else the length of the body.
pub proof fn law_total_is_what_the_server_says(b: Both, a: ResponseView)
    requires
        b.0.stage == Stage::Sending,
        200 <= a.status <= 299,
    ensures
        ({
            let after = transfer_step(b, TransferInputView::Answered { result: Ok(a) }).0.1;
            let rest = a.status == 206 && b.0.resume_from > 0;
            &&& after.downloaded == b.1.downloaded
            &&& !rest ==> (a.content_length matches Some(n) ==> after.total == n)
            &&& !rest && a.content_length is None ==> after.total == b.1.total
            &&& rest && (a.content_range matches Some(h) && range_total(h) is Some) ==> after.total
                == range_total(a.content_range->0)->0
            &&& rest && a.content_range is None ==> (a.content_length matches Some(n) ==> (
            b.0.resume_from + n <= u64::MAX ==> after.total == b.0.resume_from + n))
        }),
{
}

/// The total of a range header is the number behind its last slash.
pub proof fn law_range_total_is_behind_the_slash(lead: Seq<char>, total: u64)
    ensures
        range_total(lead + seq!['/'] + decimal(total as nat)) == Some(total),
{
    let digits = decimal(total as nat);
    let header = lead + seq!['/'] + digits;
    lemma_decimal_spells(total as nat);
    lemma_after_last_slash(header, header.len() as int, lead.len() as int);
    assert(header.skip(lead.len() as int + 1) =~= digits);
    assert(is_digit(digits[0]) && is_digit(digits[digits.len() - 1]));
    lemma_trim(digits);
    law_number_is_read_back(total);
}

proof fn lemma_after_last_slash(s: Seq<char>, n: int, k: int)
    requires
        0 <= k < n <= s.len(),
        s[k] == '/',
        forall|i: int| k < i < n ==> #[trigger] s[i] != '/',
    ensures
        after_last_slash(s, n) == s.skip(k + 1),
    decreases n,
{
    if n > k + 1 {
        lemma_after_last_slash(s, n - 1, k);
    }
}

/// A target that is there is not fetched again: the transfer is done, and counts as whole.
/// One that is not there is begun.
pub proof fn law_present_target_is_not_fetched(b: Both, len: u64)
    requires
        b.0.stage == Stage::CheckingTarget,
    ensures
        ({
            let (done, action) = transfer_step(b, TransferInputView::Target { len: Some(len) });
            &&& action == (TransferActionView::Finish { result: Ok(()) })
            &&& done.1.downloaded == len && done.1.total == len
        }),
        transfer_step(b, TransferInputView::Target { len: None }).1 is EnsureDir,
{
}

/// A partial file that the server cannot continue is thrown away, and the whole is asked
/// for.
pub proof fn law_refused_part_is_started_over(b: Both, a: ResponseView, r: Result<(), Seq<char>>)
    requires
        b.0.stage == Stage::Sending,
        b.0.allow_resume,
        !b.1.cancelled,
        a.status == 416,
    ensures
        ({
            let (refused, action) = transfer_step(
                b,
                TransferInputView::Answered { result: Ok(a) },
            );
            let (again, next) = transfer_step(refused, TransferInputView::Files { result: r });
            &&& action is RemovePart
            &&& next == (TransferActionView::Send { range_from: None }) && again.0.url == b.0.url
        }),
{
}

} // verus!
