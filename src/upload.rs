//! The upload handler's decisions: admission of a request, the sink of each
//! part, and the course of one upload.

use vstd::prelude::*;
use crate::args::{Args, Mode, Output};
use crate::progress::{rate_sample, smoothed, Progress, RESET, UPDATE_INTERVAL_NS};
use crate::shutdown::Shutdown;
use crate::status::Status;
use crate::text::{chars_of, parse_decimal, parse_usize, same_text};

verus! {

pub open spec fn is_separator(c: char) -> bool {
    c == '/' || c == '\\'
}

/// The index just past the last separator of `s`, or 0.
pub open spec fn base_start(s: Seq<char>) -> int
    decreases s.len(),
{
    if s.len() == 0 {
        0
    } else if is_separator(s.last()) {
        s.len() as int
    } else {
        base_start(s.drop_last())
    }
}

/// The last path component of `s`.
pub open spec fn basename(s: Seq<char>) -> Seq<char> {
    s.subrange(base_start(s), s.len() as int)
}

/// `s` has a `..` component at index `i`.
pub open spec fn parent_at(s: Seq<char>, i: int) -> bool {
    &&& 0 <= i
    &&& i + 2 <= s.len()
    &&& s[i] == '.'
    &&& s[i + 1] == '.'
    &&& (i == 0 || is_separator(s[i - 1]))
    &&& (i + 2 == s.len() || is_separator(s[i + 2]))
}

/// `s` has a `..` component, which would climb out of the output directory.
pub open spec fn has_parent_component(s: Seq<char>) -> bool {
    exists|i: int| parent_at(s, i)
}

/// The name under which a client-supplied file name is stored: its last
/// component, with `/` and `\` both taken as separators; none where the name
/// holds a NUL character or a `..` component, or where the last component is
/// empty or `.`.
pub open spec fn safe_name(s: Seq<char>) -> Option<Seq<char>> {
    if s.contains('\0') || has_parent_component(s) {
        None
    } else if basename(s).len() == 0 || basename(s) == seq!['.'] {
        None
    } else {
        Some(basename(s))
    }
}

proof fn lemma_base_start_step(s: Seq<char>, i: int)
    requires
        0 <= i < s.len(),
    ensures
        base_start(s.subrange(0, i + 1)) == if is_separator(s[i]) {
            i + 1
        } else {
            base_start(s.subrange(0, i))
        },
{
    assert(s.subrange(0, i + 1).drop_last() =~= s.subrange(0, i));
}

proof fn lemma_base_start_bounds(s: Seq<char>)
    ensures
        0 <= base_start(s) <= s.len(),
        base_start(s) > 0 ==> is_separator(s[base_start(s) - 1]),
        forall|j: int| base_start(s) <= j < s.len() ==> !is_separator(#[trigger] s[j]),
    decreases s.len(),
{
    if s.len() > 0 && !is_separator(s.last()) {
        lemma_base_start_bounds(s.drop_last());
        assert forall|j: int| base_start(s) <= j < s.len() implies !is_separator(#[trigger] s[j]) by {
            if j < s.len() - 1 {
                assert(s[j] == s.drop_last()[j]);
            }
        }
    }
}

/// The safe name of a client-supplied file name, see [`safe_name`].
pub fn safe_path<'a>(path: &'a str) -> (r: Option<&'a str>)
    ensures
        r matches Some(b) ==> safe_name(path@) == Some(b@),
        r is None ==> safe_name(path@) is None,
{
    let cs = chars_of(path);
    let n = cs.len();
    let mut start: usize = 0;
    let mut i: usize = 0;
    assert(cs@.subrange(0, 0).len() == 0);
    while i < n
        invariant
            n == cs@.len(),
            cs@ == path@,
            i <= n,
            start <= i,
            start == base_start(cs@.subrange(0, i as int)),
            forall|j: int| 0 <= j < i ==> cs@[j] != '\0',
            forall|j: int| 0 <= j < i ==> !parent_at(cs@, j),
        decreases n - i,
    {
        let c = cs[i];
        if c == '\0' {
            assert(cs@[i as int] == '\0');
            return None;
        }
        if c == '.' && i + 1 < n && cs[i + 1] == '.' && (i == 0 || cs[i - 1] == '/' || cs[i - 1]
            == '\\') && (i + 2 == n || cs[i + 2] == '/' || cs[i + 2] == '\\') {
            assert(parent_at(cs@, i as int));
            return None;
        }
        proof { lemma_base_start_step(cs@, i as int); }
        if c == '/' || c == '\\' {
            start = i + 1;
        }
        i = i + 1;
    }
    assert(cs@.subrange(0, n as int) =~= cs@);
    assert(!cs@.contains('\0'));
    assert(!has_parent_component(cs@));
    if start == n || (start + 1 == n && cs[start] == '.') {
        proof {
            if start + 1 == n {
                assert(basename(cs@) =~= seq!['.']);
            }
        }
        return None;
    }
    assert(base_start(cs@) == start);
    assert(basename(cs@).len() > 0);
    proof {
        if basename(cs@) == seq!['.'] {
            assert(basename(cs@)[0] == cs@[start as int]);
        }
    }
    Some(path.substring_char(start, n))
}

/// `name` inside the directory `dir`: joined with a `/` unless `dir` is
/// empty or already ends with one.
pub open spec fn join_path(dir: Seq<char>, name: Seq<char>) -> Seq<char> {
    if dir.len() == 0 || dir.last() == '/' {
        dir + name
    } else {
        dir + seq!['/'] + name
    }
}

pub open spec fn opt_view(o: Option<&str>) -> Option<Seq<char>> {
    match o {
        Some(s) => Some(s@),
        None => None,
    }
}

/// The safe name of a part's file name; a missing or unsafe one is a bad request.
pub open spec fn client_name(file_name: Option<Seq<char>>) -> Result<Seq<char>, Status> {
    match file_name {
        None => Err(Status::BadRequest),
        Some(f) => match safe_name(f) {
            None => Err(Status::BadRequest),
            Some(b) => Ok(b),
        },
    }
}

/// Where a part goes in `mode`: `Ok(None)` for standard output,
/// `Ok(Some(path))` for a file created or truncated at `path`.
pub open spec fn sink_target(mode: Mode, file_name: Option<Seq<char>>) -> Result<
    Option<Seq<char>>,
    Status,
> {
    match mode {
        Mode::Text { out_filename: None } => Ok(None),
        Mode::SingleFile { out: Output::Stdout } => Ok(None),
        Mode::Text { out_filename: Some(p) } => Ok(Some(p@)),
        Mode::SingleFile { out: Output::Filename(p) } => Ok(Some(p@)),
        Mode::SingleFile { out: Output::ClientFilename } => match client_name(file_name) {
            Ok(b) => Ok(Some(b)),
            Err(e) => Err(e),
        },
        Mode::MultipleFiles { out_dir } => match client_name(file_name) {
            Ok(b) => Ok(
                Some(
                    join_path(
                        match out_dir {
                            Some(d) => d@,
                            None => seq!['.'],
                        },
                        b,
                    ),
                ),
            ),
            Err(e) => Err(e),
        },
    }
}

/// The sink of one part: a file to create at a path, or standard output.
#[derive(Debug)]
pub enum FileOrStdout {
    File(String),
    Stdout,
}

impl View for FileOrStdout {
    type V = Option<Seq<char>>;

    open spec fn view(&self) -> Option<Seq<char>> {
        match self {
            FileOrStdout::File(p) => Some(p@),
            FileOrStdout::Stdout => None,
        }
    }
}

impl FileOrStdout {
    /// Only standard output is flushed when a part ends; a file is flushed
    /// when it is closed.
    pub fn needs_flush(&self) -> (r: bool)
        ensures
            r == (self is Stdout),
    {
        match self {
            FileOrStdout::Stdout => true,
            FileOrStdout::File(_) => false,
        }
    }

    /// The sink of a part with file name `file_name` in `mode`, see [`sink_target`].
    pub fn from_mode(mode: &Mode, file_name: Option<&str>) -> (r: Result<FileOrStdout, Status>)
        ensures
            r matches Ok(o) ==> sink_target(*mode, opt_view(file_name)) == Ok::<
                Option<Seq<char>>,
                Status,
            >(o@),
            r matches Err(e) ==> sink_target(*mode, opt_view(file_name)) == Err::<
                Option<Seq<char>>,
                Status,
            >(e),
    {
        match mode {
            Mode::Text { out_filename: None } => Ok(FileOrStdout::Stdout),
            Mode::SingleFile { out: Output::Stdout } => Ok(FileOrStdout::Stdout),
            Mode::Text { out_filename: Some(name) } => Ok(FileOrStdout::File(name.clone())),
            Mode::SingleFile { out: Output::Filename(name) } => Ok(
                FileOrStdout::File(name.clone()),
            ),
            Mode::SingleFile { out: Output::ClientFilename } => {
                let base = client_safe_name(file_name)?;
                Ok(FileOrStdout::File(String::from_str(base)))
            },
            Mode::MultipleFiles { out_dir } => {
                let base = client_safe_name(file_name)?;
                let mut path = match out_dir {
                    Some(d) => d.clone(),
                    None => {
                        proof { reveal_strlit("."); }
                        String::from_str(".")
                    },
                };
                let dir = path.as_str();
                let dir_len = dir.unicode_len();
                if dir_len > 0 && dir.get_char(dir_len - 1) != '/' {
                    proof { reveal_strlit("/"); }
                    path.append("/");
                }
                path.append(base);
                let ghost d = match out_dir {
                    Some(d) => d@,
                    None => seq!['.'],
                };
                assert(path@ == join_path(d, base@));
                Ok(FileOrStdout::File(path))
            },
        }
    }
}

/// The safe name of a part's file name, see [`client_name`].
fn client_safe_name<'a>(file_name: Option<&'a str>) -> (r: Result<&'a str, Status>)
    ensures
        r matches Ok(b) ==> client_name(opt_view(file_name)) == Ok::<Seq<char>, Status>(b@),
        r matches Err(e) ==> client_name(opt_view(file_name)) == Err::<Seq<char>, Status>(e),
{
    match file_name {
        None => Err(Status::BadRequest),
        Some(f) => match safe_path(f) {
            None => Err(Status::BadRequest),
            Some(b) => Ok(b),
        },
    }
}

/// The progress bar's total: the declared length less the content type's
/// length and 128 bytes of multipart framing, or zero.
pub open spec fn size_estimate(content_length: nat, content_type_len: nat) -> nat {
    if content_length >= content_type_len + 128 {
        (content_length - content_type_len - 128) as nat
    } else {
        0
    }
}

/// Whether a request is taken on, from its `Content-Length` header (as text),
/// the length in bytes of its `Content-Type` header, and the limit: the
/// progress total, or the refusal. A declared length over the limit is
/// refused with [`Status::PayloadTooLarge`], whatever the content type.
pub open spec fn admission(
    content_length: Option<Seq<char>>,
    content_type_len: Option<usize>,
    limit: nat,
) -> Result<nat, Status> {
    match content_length {
        None => Err(Status::BadRequest),
        Some(text) => match parse_decimal(text, usize::MAX as nat) {
            Err(_) => Err(Status::BadRequest),
            Ok(n) => if n > limit {
                Err(Status::PayloadTooLarge)
            } else {
                match content_type_len {
                    None => Err(Status::BadRequest),
                    Some(t) => Ok(size_estimate(n, t as nat)),
                }
            },
        },
    }
}

/// The name of the form field that carries the upload.
pub const UPLOAD_FIELD: &'static str = "data";

/// The page shown after a successful upload.
pub struct UploadSuccessTemplate {
    pub message: &'static str,
    pub keep_running: bool,
}

/// The message of the success page in `mode`.
pub open spec fn success_message(mode: Mode) -> Seq<char> {
    match mode {
        Mode::MultipleFiles { .. } => "Your files have been uploaded."@,
        Mode::SingleFile { .. } => "Your file has been uploaded."@,
        Mode::Text { .. } => "Your text has been sent."@,
    }
}

/// A part to consume: where its bytes go, and what to print before them.
pub struct Part {
    pub sink: FileOrStdout,
    pub announce: Option<String>,
}

/// One upload in progress.
pub struct Upload<'a> {
    args: &'a Args,
    progress: Progress,
    finished: bool,
}

impl<'a> Upload<'a> {
    pub closed spec fn args(&self) -> Args {
        *self.args
    }

    pub closed spec fn progress(&self) -> Progress {
        self.progress
    }

    /// No more parts are consumed.
    pub closed spec fn finished(&self) -> bool {
        self.finished
    }

    pub open spec fn wf(&self) -> bool {
        self.progress().wf()
    }

    /// Takes on a request, see [`admission`]; the progress bar starts at
    /// clock reading `now_ns`. Where the length is over the limit, the
    /// caller reads the body to its end before answering, so that the
    /// client sees the answer rather than a reset connection.
    pub fn start(
        args: &'a Args,
        content_length: Option<&str>,
        content_type_len: Option<usize>,
        now_ns: u64,
    ) -> (r: Result<Upload<'a>, Status>)
        ensures
            match admission(opt_view(content_length), content_type_len, args.limit as nat) {
                Ok(total) => r matches Ok(u) && {
                    &&& u.wf()
                    &&& u.args() == *args
                    &&& !u.finished()
                    &&& u.progress().total() == total
                    &&& u.progress().so_far() == 0
                    &&& u.progress().rate() is None
                    &&& u.progress().last_update_ns() == now_ns
                    &&& u.progress().last_update_bytes() == 0
                },
                Err(e) => r matches Err(x) && x == e,
            },
    {
        let n = match content_length {
            None => return Err(Status::BadRequest),
            Some(text) => match parse_usize(text) {
                Err(_) => return Err(Status::BadRequest),
                Ok(n) => n,
            },
        };
        if n > args.limit {
            return Err(Status::PayloadTooLarge);
        }
        let t = match content_type_len {
            None => return Err(Status::BadRequest),
            Some(t) => t,
        };
        let total = n.saturating_sub(t).saturating_sub(128);
        Ok(Upload { args, progress: Progress::new(total, now_ns), finished: false })
    }

    /// The directory to create, with its parents, before the first part.
    pub fn directory_to_create(&self) -> (r: Option<&'a str>)
        ensures
            match self.args().mode {
                Mode::MultipleFiles { out_dir: Some(d) } => r matches Some(x) && x@ == d@,
                _ => r is None,
            },
    {
        match &self.args.mode {
            Mode::MultipleFiles { out_dir: Some(d) } => Some(d.as_str()),
            _ => None,
        }
    }

    /// Whether no more parts are consumed.
    pub fn is_finished(&self) -> (r: bool)
        ensures
            r == self.finished(),
    {
        self.finished
    }

    /// Bytes counted on the progress bar.
    pub fn received(&self) -> (r: usize)
        ensures
            r == self.progress().so_far(),
    {
        self.progress.received()
    }

    /// A part named `name` with file name `file_name` begins: none for a
    /// part that is not [`UPLOAD_FIELD`], which is skipped; else its sink
    /// (see [`FileOrStdout::from_mode`]) and, unless quiet, the progress
    /// text announcing its file name.
    pub fn on_part(&mut self, name: Option<&str>, file_name: Option<&str>) -> (r: Result<
        Option<Part>,
        Status,
    >)
        requires
            old(self).wf(),
            !old(self).finished(),
        ensures
            *final(self) == *old(self),
            opt_view(name) != Some(UPLOAD_FIELD@) ==> r matches Ok(None),
            opt_view(name) == Some(UPLOAD_FIELD@) ==> match sink_target(
                old(self).args().mode,
                opt_view(file_name),
            ) {
                Err(e) => r matches Err(x) && x == e,
                Ok(target) => r matches Ok(Some(part)) && {
                    &&& part.sink@ == target
                    &&& (!old(self).args().quiet && file_name is Some) ==> (part.announce matches Some(a)
                        && a@ == RESET@ + file_name->0@ + seq!['\n']
                        + old(self).progress().frame_text())
                    &&& (old(self).args().quiet || file_name is None) ==> part.announce is None
                },
            },
    {
        let is_upload = match name {
            Some(n) => same_text(n, UPLOAD_FIELD),
            None => false,
        };
        if !is_upload {
            return Ok(None);
        }
        let sink = FileOrStdout::from_mode(&self.args.mode, file_name)?;
        let announce = if !self.args.quiet {
            match file_name {
                Some(f) => Some(self.progress.new_file(f)),
                None => None,
            }
        } else {
            None
        };
        Ok(Some(Part { sink, announce }))
    }

    /// `len` more bytes of the current part arrived at clock reading
    /// `now_ns`; unless quiet, they are counted and the frame to redraw, if
    /// one is due, is returned (see [`Progress::update`]).
    pub fn on_chunk(&mut self, len: usize, now_ns: u64) -> (r: Option<String>)
        requires
            old(self).wf(),
            !old(self).args().quiet ==> old(self).progress().so_far() + len <= usize::MAX,
        ensures
            final(self).wf(),
            final(self).args() == old(self).args(),
            final(self).finished() == old(self).finished(),
            old(self).args().quiet ==> r is None && *final(self) == *old(self),
            !old(self).args().quiet ==> {
                &&& final(self).progress().so_far() == old(self).progress().so_far() + len
                &&& final(self).progress().total() == old(self).progress().total()
                &&& old(self).progress().elapsed_to(now_ns) < UPDATE_INTERVAL_NS ==> {
                    &&& r is None
                    &&& final(self).progress().rate() == old(self).progress().rate()
                    &&& final(self).progress().last_update_ns() == old(self).progress().last_update_ns()
                    &&& final(self).progress().last_update_bytes() == old(self).progress().last_update_bytes()
                }
                &&& old(self).progress().elapsed_to(now_ns) >= UPDATE_INTERVAL_NS ==> {
                    &&& final(self).progress().rate() matches Some(rate) && rate == smoothed(
                        old(self).progress().rate(),
                        rate_sample(
                            (final(self).progress().so_far() - old(self).progress().last_update_bytes()) as nat,
                            old(self).progress().elapsed_to(now_ns),
                        ),
                    )
                    &&& final(self).progress().last_update_ns() == now_ns
                    &&& final(self).progress().last_update_bytes() == final(self).progress().so_far()
                    &&& r matches Some(t) && t@ == final(self).progress().frame_text()
                }
            },
    {
        if self.args.quiet {
            return None;
        }
        self.progress.update(len, now_ns)
    }

    /// The current part ended; outside multiple-files mode no further part
    /// is consumed.
    pub fn end_part(&mut self)
        ensures
            final(self).args() == old(self).args(),
            final(self).progress() == old(self).progress(),
            final(self).finished() == (old(self).finished() || !(old(self).args().mode is MultipleFiles)),
    {
        if !matches!(self.args.mode, Mode::MultipleFiles { .. }) {
            self.finished = true;
        }
    }

    /// The upload completed: unless the server keeps running, fires the
    /// shutdown signal (if nobody has yet), and gives the success page.
    pub fn finish(&self, shutdown: &mut Shutdown) -> (r: UploadSuccessTemplate)
        requires
            old(shutdown).wf(),
        ensures
            final(shutdown).wf(),
            self.args().keep_running ==> *final(shutdown) == *old(shutdown),
            !self.args().keep_running ==> !final(shutdown).armed() && final(shutdown).fired() == 1,
            r.message@ == success_message(self.args().mode),
            r.keep_running == self.args().keep_running,
    {
        if !self.args.keep_running {
            shutdown.fire();
        }
        let message: &'static str = match self.args.mode {
            Mode::MultipleFiles { .. } => "Your files have been uploaded.",
            Mode::SingleFile { .. } => "Your file has been uploaded.",
            Mode::Text { .. } => "Your text has been sent.",
        };
        UploadSuccessTemplate { message, keep_running: self.args.keep_running }
    }
}

/// A request that declares more bytes than the limit is refused as too
/// large, whatever its content type; since sinks come only from an
/// [`Upload`] that [`Upload::start`] returned, no file is created for it.
pub proof fn lemma_oversize_refused(
    content_length: Seq<char>,
    content_type_len: Option<usize>,
    limit: nat,
)
    requires
        parse_decimal(content_length, usize::MAX as nat) matches Ok(n) && n > limit,
    ensures
        admission(Some(content_length), content_type_len, limit) == Err::<nat, Status>(
            Status::PayloadTooLarge,
        ),
{
}

/// A stored name is one plain path component taken from the end of the
/// client's name: not empty, not `.` or `..`, without `/`, `\` or NUL. A
/// name with a `..` component, or whose last component is empty, is refused.
pub proof fn lemma_safe_name(s: Seq<char>)
    ensures
        safe_name(s) matches Some(b) ==> {
            &&& b.len() > 0
            &&& b != seq!['.']
            &&& b != seq!['.', '.']
            &&& forall|j: int| 0 <= j < b.len() ==> !is_separator(#[trigger] b[j]) && b[j] != '\0'
            &&& b == s.subrange(s.len() - b.len(), s.len() as int)
        },
        has_parent_component(s) ==> safe_name(s) is None,
        basename(s).len() == 0 ==> safe_name(s) is None,
{
    lemma_base_start_bounds(s);
    let k = base_start(s);
    if safe_name(s) is Some {
        let b = basename(s);
        assert forall|j: int| 0 <= j < b.len() implies !is_separator(#[trigger] b[j]) && b[j] != '\0' by {
            assert(b[j] == s[k + j]);
            if b[j] == '\0' {
                assert(s.contains('\0'));
            }
        }
        if b == seq!['.', '.'] {
            assert(s[k] == '.' && s[k + 1] == '.');
            assert(parent_at(s, k));
        }
    }
}

} // verus!
