//! The client side of the flow daemon's protocol: one request, one response.
//!
//! Requests are built here (bodies travel base64-encoded) and the daemon's
//! responses are read here; carrying them over the daemon's socket is the
//! application's part. Cursors move by keyword only (origin, head, next,
//! prev), so committing a cursor is a walk that is planned here.
use vstd::prelude::*;
use vstd::utf8::*;
use crate::codec::{base64_decoded, base64_of, decode_base64, encode_base64, lossy_text, utf8_lossy};
use crate::config::{join_path, joined};
use crate::store::ov;
use crate::text::{
    decimal, decimal_spec, lines, lines_spec, strip_prefix, strip_prefix_spec, trim, trim_spec, views,
};

verus! {

/// A decoded queue entry.
pub struct Entry {
    pub ordinal: u64,
    pub content_type: String,
    pub body: String,
    pub enqueued_at: i64,
}

pub struct EntryV {
    pub ordinal: u64,
    pub content_type: Seq<char>,
    pub body: Seq<char>,
    pub enqueued_at: i64,
}

impl View for Entry {
    type V = EntryV;

    open spec fn view(&self) -> EntryV {
        EntryV {
            ordinal: self.ordinal,
            content_type: self.content_type@,
            body: self.body@,
            enqueued_at: self.enqueued_at,
        }
    }
}

/// Where a cursor can be moved.
#[derive(PartialEq, Eq, Structural, Clone, Copy)]
pub enum MoveTo {
    Origin,
    Head,
    Next,
    Prev,
}

impl MoveTo {
    /// The daemon's keyword for this move.
    pub open spec fn word_spec(self) -> Seq<char> {
        match self {
            MoveTo::Origin => "origin"@,
            MoveTo::Head => "head"@,
            MoveTo::Next => "next"@,
            MoveTo::Prev => "prev"@,
        }
    }

    /// The daemon's keyword for this move.
    pub fn word(self) -> (w: &'static str)
        ensures
            w@ == self.word_spec(),
    {
        match self {
            MoveTo::Origin => "origin",
            MoveTo::Head => "head",
            MoveTo::Next => "next",
            MoveTo::Prev => "prev",
        }
    }
}

/// One request to the daemon.
pub enum Request {
    /// Append one entry; the body is already base64.
    Append { body: String, content_type: String },
    /// Append entries atomically; each body is already base64.
    AppendBatch { items: Vec<(String, String)> },
    Len,
    Get { ordinal: u64 },
    CursorCreate { name: String },
    CursorDelete { name: String },
    CursorState { name: String },
    CursorMove { name: String, to: MoveTo },
}

/// What the application read out of one response line (each field present
/// only when the response carried it with the right JSON type), with the
/// line itself for error messages.
pub struct DaemonResponse {
    pub ok: Option<bool>,
    pub ordinal: Option<u64>,
    pub len: Option<u64>,
    pub position: Option<u64>,
    /// Each element of the `ordinals` array, read as a `u64` where it is one.
    pub ordinals: Option<Vec<Option<u64>>>,
    pub body: Option<String>,
    pub content_type: Option<String>,
    pub enqueued_at: Option<i64>,
    pub raw: String,
}

/// Why a response could not be used.
pub enum FlowError {
    /// An append answered without an ordinal.
    NoOrdinal { raw: String },
    /// An atomic append was refused.
    BatchFailed { raw: String },
    /// A length request answered without a length.
    BadLen { raw: String },
    /// A cursor move was refused.
    MoveFailed { to: MoveTo, raw: String },
    /// An entry's body is not valid base64.
    BadBase64,
    /// An entry came without its ordinal.
    NoEntryOrdinal,
    /// A commit asked to move a cursor backwards.
    CursorBeyond { name: String, position: u64, target: u64 },
}

/// How an error reads when reported.
pub open spec fn error_text(e: FlowError) -> Seq<char> {
    match e {
        FlowError::NoOrdinal { raw } => "append: no ordinal in response: "@ + raw@,
        FlowError::BatchFailed { raw } => "append_batch failed: "@ + raw@,
        FlowError::BadLen { raw } => "len: bad response: "@ + raw@,
        FlowError::MoveFailed { to, raw } => "cursor_move "@ + to.word_spec() + " failed: "@ + raw@,
        FlowError::BadBase64 => "entry body is not valid base64"@,
        FlowError::NoEntryOrdinal => "entry without ordinal"@,
        FlowError::CursorBeyond { name, position, target } => "cursor '"@ + name@ + "' at "@
            + decimal_spec(position as nat) + ", beyond commit target "@ + decimal_spec(target as nat),
    }
}

impl FlowError {
    /// The error as reported.
    pub fn message(&self) -> (r: String)
        ensures
            r@ == error_text(*self),
    {
        match self {
            FlowError::NoOrdinal { raw } => String::from_str("append: no ordinal in response: ").concat(
                raw.as_str(),
            ),
            FlowError::BatchFailed { raw } => String::from_str("append_batch failed: ").concat(raw.as_str()),
            FlowError::BadLen { raw } => String::from_str("len: bad response: ").concat(raw.as_str()),
            FlowError::MoveFailed { to, raw } => String::from_str("cursor_move ").concat(to.word()).concat(
                " failed: ",
            ).concat(raw.as_str()),
            FlowError::BadBase64 => String::from_str("entry body is not valid base64"),
            FlowError::NoEntryOrdinal => String::from_str("entry without ordinal"),
            FlowError::CursorBeyond { name, position, target } => String::from_str("cursor '").concat(
                name.as_str(),
            ).concat("' at ").concat(decimal(*position).as_str()).concat(
                ", beyond commit target ",
            ).concat(decimal(*target).as_str()),
        }
    }
}

/// The daemon's client: where its socket is.
pub struct FlowClient {
    socket_path: String,
}

/// The longest socket path (in bytes) that connects directly; longer paths
/// go through a shorter link.
pub const SUN_PATH_MAX: usize = 100;

/// The length in bytes of a path's UTF-8 encoding (as `str::len` reports it).
pub open spec fn path_bytes(path: Seq<char>) -> usize {
    encode_utf8(path).len() as usize
}

/// The path to connect through: the socket path itself when it is short
/// enough, else the link made for it when that one is short enough.
pub open spec fn connect_path(path: Seq<char>, link: Option<Seq<char>>) -> Seq<char> {
    if path_bytes(path) <= SUN_PATH_MAX {
        path
    } else {
        match link {
            Some(l) if path_bytes(l) <= SUN_PATH_MAX => l,
            _ => path,
        }
    }
}

/// Whether a socket path is too long to connect directly.
pub fn needs_short_path(path: &str) -> (r: bool)
    ensures
        r == (path_bytes(path@) > SUN_PATH_MAX),
{
    path.len() > SUN_PATH_MAX
}

impl FlowClient {
    /// A client for the socket at `socket_path`; `short_link` is the link the
    /// application made for a path too long to connect directly, if it could.
    pub fn new(socket_path: String, short_link: Option<String>) -> (c: FlowClient)
        ensures
            c.socket()@ == connect_path(socket_path@, ov(short_link)),
    {
        if !needs_short_path(socket_path.as_str()) {
            return FlowClient { socket_path };
        }
        match short_link {
            Some(l) => {
                if needs_short_path(l.as_str()) {
                    FlowClient { socket_path }
                } else {
                    FlowClient { socket_path: l }
                }
            },
            None => FlowClient { socket_path },
        }
    }

    pub closed spec fn socket(&self) -> String {
        self.socket_path
    }

    /// The path the client connects to.
    pub fn socket_path(&self) -> (p: &String)
        ensures
            p@ == self.socket()@,
    {
        &self.socket_path
    }

    /// Plans a cursor commit to `ordinal` from the cursor's `position` (none
    /// for a fresh cursor): a fresh cursor is first moved to the origin (0),
    /// then the cursor steps `next` until it stands at `ordinal`. A cursor
    /// already beyond `ordinal` is an error.
    pub fn cursor_commit(&self, name: &str, ordinal: u64, position: Option<u64>) -> (r: Result<
        CommitPlan,
        FlowError,
    >)
        ensures
            match position {
                Some(p) => if p > ordinal {
                    r matches Err(FlowError::CursorBeyond { name: n, position: q, target: t })
                        && n@ == name@ && q == p && t == ordinal
                } else {
                    r == Ok::<CommitPlan, FlowError>(CommitPlan { from_origin: false, steps: (ordinal - p) as u64 })
                },
                None => r == Ok::<CommitPlan, FlowError>(CommitPlan { from_origin: true, steps: ordinal }),
            },
    {
        match position {
            Some(p) => {
                if p > ordinal {
                    Err(FlowError::CursorBeyond { name: name.to_owned(), position: p, target: ordinal })
                } else {
                    Ok(CommitPlan { from_origin: false, steps: ordinal - p })
                }
            },
            None => Ok(CommitPlan { from_origin: true, steps: ordinal }),
        }
    }

    /// The moves that jump cursor `name` to the newest entry, given its
    /// `position`: an unpositioned cursor is placed at the origin first. The
    /// cursor's new position is what the last move answers.
    pub fn cursor_move_head(&self, name: &str, position: Option<u64>) -> (r: Vec<Request>)
        ensures
            r@.len() == (if position is None { 2int } else { 1int }),
            forall|i: int|
                0 <= i < r@.len() ==> (#[trigger] r@[i] matches Request::CursorMove { name: n, to }
                    && n@ == name@ && to == (if i == r@.len() - 1 {
                    MoveTo::Head
                } else {
                    MoveTo::Origin
                })),
    {
        let mut v: Vec<Request> = Vec::new();
        if position.is_none() {
            v.push(Request::CursorMove { name: name.to_owned(), to: MoveTo::Origin });
        }
        v.push(Request::CursorMove { name: name.to_owned(), to: MoveTo::Head });
        v
    }
}

/// How to walk a cursor to a commit target: from the origin or not, then
/// that many `next` steps.
#[derive(PartialEq, Eq, Structural)]
pub struct CommitPlan {
    pub from_origin: bool,
    pub steps: u64,
}

/// Where a cursor at `position` stands after the moves of `plan` (the
/// daemon places a cursor moved to the origin at 0; `next` advances it by one).
pub open spec fn after_plan(position: Option<u64>, plan: CommitPlan) -> Option<int> {
    if plan.from_origin {
        Some(plan.steps as int)
    } else {
        match position {
            Some(p) => Some(p + plan.steps),
            None => None,
        }
    }
}

/// A successful commit leaves the cursor exactly at the committed ordinal.
pub proof fn law_commit_lands_on_target(position: Option<u64>, ordinal: u64, plan: CommitPlan)
    requires
        match position {
            Some(p) => p <= ordinal && plan == (CommitPlan { from_origin: false, steps: (ordinal - p) as u64 }),
            None => plan == (CommitPlan { from_origin: true, steps: ordinal }),
        },
    ensures
        after_plan(position, plan) == Some(ordinal as int),
{
}

// ── requests ───────────────────────────────────────────────────────────────

/// The body text `text` sent on the queue carries `body`: it decodes to
/// exactly the UTF-8 bytes of `body`.
pub open spec fn carries(text: Seq<char>, body: Seq<char>) -> bool {
    base64_decoded(text) == Some(encode_utf8(body))
}

/// `body` is what an entry whose body text is `text` reads as: the decoded
/// bytes read as UTF-8 (lossily), which for valid UTF-8 is the text they encode.
pub open spec fn reads_as(text: Seq<char>, body: Seq<char>) -> bool {
    match base64_decoded(text) {
        Some(bytes) => body == lossy_text(bytes) && (valid_utf8(bytes) ==> body == decode_utf8(bytes)),
        None => false,
    }
}

/// A body read back is the body appended: the body text that an append sends
/// for `body`, when an entry comes back carrying that same text, reads as
/// `body` again.
pub proof fn law_appended_body_reads_back(body: Seq<char>, sent: Seq<char>, read: Seq<char>)
    requires
        carries(sent, body),
        reads_as(sent, read),
    ensures
        read == body,
{
    broadcast use encode_utf8_valid_utf8, encode_utf8_decode_utf8;

}

/// Appends `body` under `content_type`.
pub fn append_request(body: &str, content_type: &str) -> (r: Request)
    requires
        encode_utf8(body@).len() < usize::MAX / 2,
    ensures
        r matches Request::Append { body: b, content_type: c } && b@ == base64_of(body@) && c@
            == content_type@ && carries(b@, body@),
{
    Request::Append { body: encode_base64(body), content_type: content_type.to_owned() }
}

/// Appends the `(body, content_type)` items atomically.
pub fn append_batch_request(items: &Vec<(String, String)>) -> (r: Request)
    requires
        forall|i: int| 0 <= i < items@.len() ==> encode_utf8(#[trigger] items@[i].0@).len() < usize::MAX / 2,
    ensures
        r matches Request::AppendBatch { items: out } && out@.len() == items@.len() && forall|i: int|
            0 <= i < items@.len() ==> (#[trigger] out@[i]).0@ == base64_of(items@[i].0@) && out@[i].1@
                == items@[i].1@ && carries(out@[i].0@, items@[i].0@),
{
    let mut out: Vec<(String, String)> = Vec::new();
    let n = items.len();
    let mut i: usize = 0;
    while i < n
        invariant
            n == items@.len(),
            i <= n,
            forall|j: int| 0 <= j < n ==> encode_utf8(#[trigger] items@[j].0@).len() < usize::MAX / 2,
            out@.len() == i,
            forall|j: int| 0 <= j < i ==> (#[trigger] out@[j]).0@ == base64_of(items@[j].0@) && out@[j].1@
                == items@[j].1@ && carries(out@[j].0@, items@[j].0@),
        decreases n - i,
    {
        let body = encode_base64(items[i].0.as_str());
        let ct = items[i].1.clone();
        out.push((body, ct));
        i += 1;
    }
    Request::AppendBatch { items: out }
}

pub open spec fn text_or_empty(o: Option<String>) -> Seq<char> {
    match o {
        Some(s) => s@,
        None => Seq::empty(),
    }
}

// ── responses ──────────────────────────────────────────────────────────────

/// The ordinal an append was given.
pub fn append_result(resp: DaemonResponse) -> (r: Result<u64, FlowError>)
    ensures
        match resp.ordinal {
            Some(o) => r == Ok::<u64, FlowError>(o),
            None => r matches Err(FlowError::NoOrdinal { raw }) && raw@ == resp.raw@,
        },
{
    match resp.ordinal {
        Some(o) => Ok(o),
        None => Err(FlowError::NoOrdinal { raw: resp.raw }),
    }
}

/// The ordinals an atomic append was given (those the response wrote as
/// unsigned integers), or the refusal.
pub fn append_batch_result(resp: DaemonResponse) -> (r: Result<Vec<u64>, FlowError>)
    ensures
        resp.ok != Some(true) ==> (r matches Err(FlowError::BatchFailed { raw }) && raw@ == resp.raw@),
        resp.ok == Some(true) ==> (r matches Ok(v) && v@ == (match resp.ordinals {
            Some(a) => present_values(a@),
            None => Seq::empty(),
        })),
{
    match resp.ok {
        Some(true) => {},
        _ => {
            return Err(FlowError::BatchFailed { raw: resp.raw });
        },
    }
    match resp.ordinals {
        None => Ok(Vec::new()),
        Some(a) => Ok(keep_present(&a)),
    }
}

/// The values present in `s`, in order.
pub open spec fn present_values(s: Seq<Option<u64>>) -> Seq<u64>
    decreases s.len(),
{
    if s.len() == 0 {
        Seq::empty()
    } else {
        let rest = present_values(s.drop_last());
        match s.last() {
            Some(x) => rest.push(x),
            None => rest,
        }
    }
}

fn keep_present(a: &Vec<Option<u64>>) -> (r: Vec<u64>)
    ensures
        r@ == present_values(a@),
{
    let mut r: Vec<u64> = Vec::new();
    let n = a.len();
    let mut i: usize = 0;
    assert(a@.take(0) =~= Seq::<Option<u64>>::empty());
    while i < n
        invariant
            n == a@.len(),
            i <= n,
            r@ == present_values(a@.take(i as int)),
        decreases n - i,
    {
        assert(a@.take(i + 1).drop_last() =~= a@.take(i as int));
        assert(a@.take(i + 1).last() == a@[i as int]);
        match a[i] {
            Some(x) => r.push(x),
            None => {},
        }
        i += 1;
    }
    assert(a@.take(n as int) =~= a@);
    r
}

/// The queue's length.
pub fn len_result(resp: DaemonResponse) -> (r: Result<u64, FlowError>)
    ensures
        match resp.len {
            Some(n) => r == Ok::<u64, FlowError>(n),
            None => r matches Err(FlowError::BadLen { raw }) && raw@ == resp.raw@,
        },
{
    match resp.len {
        Some(n) => Ok(n),
        None => Err(FlowError::BadLen { raw: resp.raw }),
    }
}

/// The entry a `get` fetched: none when the daemon has no entry at that
/// ordinal (the reader is caught up).
pub fn get_result(resp: DaemonResponse) -> (r: Result<Option<Entry>, FlowError>)
    ensures
        resp.ok != Some(true) ==> r matches Ok(None),
        resp.ok == Some(true) ==> match base64_decoded(text_or_empty(resp.body)) {
            None => r matches Err(FlowError::BadBase64),
            Some(bytes) => match resp.ordinal {
                None => r matches Err(FlowError::NoEntryOrdinal),
                Some(o) => r matches Ok(Some(e)) && e@ == (EntryV {
                    ordinal: o,
                    content_type: text_or_empty(resp.content_type),
                    body: lossy_text(bytes),
                    enqueued_at: match resp.enqueued_at {
                        Some(t) => t,
                        None => 0,
                    },
                }) && reads_as(text_or_empty(resp.body), e.body@),
            },
        },
{
    match resp.ok {
        Some(true) => {},
        _ => {
            return Ok(None);
        },
    }
    let text = match resp.body {
        Some(b) => b,
        None => String::new(),
    };
    let raw = match decode_base64(text.as_str()) {
        Some(b) => b,
        None => {
            return Err(FlowError::BadBase64);
        },
    };
    let ordinal = match resp.ordinal {
        Some(o) => o,
        None => {
            return Err(FlowError::NoEntryOrdinal);
        },
    };
    let content_type = match resp.content_type {
        Some(c) => c,
        None => String::new(),
    };
    let body = utf8_lossy(raw.as_slice());
    let enqueued_at = match resp.enqueued_at {
        Some(t) => t,
        None => 0,
    };
    Ok(Some(Entry { ordinal, content_type, body, enqueued_at }))
}

/// A cursor's position: the last fully processed ordinal, none for a fresh cursor.
pub fn cursor_position_result(resp: &DaemonResponse) -> (r: Option<u64>)
    ensures
        r == resp.position,
{
    resp.position
}

/// A cursor's position after a move, or the refusal.
pub fn cursor_move_result(to: MoveTo, resp: DaemonResponse) -> (r: Result<u64, FlowError>)
    ensures
        resp.ok != Some(true) ==> (r matches Err(FlowError::MoveFailed { to: t, raw }) && t == to && raw@
            == resp.raw@),
        resp.ok == Some(true) ==> r == Ok::<u64, FlowError>(
            match resp.position {
                Some(p) => p,
                None => 0,
            },
        ),
{
    match resp.ok {
        Some(true) => {},
        _ => {
            return Err(FlowError::MoveFailed { to, raw: resp.raw });
        },
    }
    match resp.position {
        Some(p) => Ok(p),
        None => Ok(0),
    }
}


// ── discovering the socket ─────────────────────────────────────────────────

/// The socket path a status line announces: a line that, trimmed, starts
/// with `socket` gives the rest of it, trimmed.
pub open spec fn status_socket(line: Seq<char>) -> Option<Seq<char>> {
    match strip_prefix_spec(trim_spec(line), "socket"@) {
        Some(rest) => Some(trim_spec(rest)),
        None => None,
    }
}

/// The first socket path announced among `ls`.
pub open spec fn first_status_socket(ls: Seq<Seq<char>>) -> Option<Seq<char>>
    decreases ls.len(),
{
    if ls.len() == 0 {
        None
    } else {
        match status_socket(ls[0]) {
            Some(p) => Some(p),
            None => first_status_socket(ls.drop_first()),
        }
    }
}

/// The socket path the daemon's status output announces, if any.
pub fn socket_from_status(output: &str) -> (r: Option<String>)
    ensures
        ov(r) == first_status_socket(lines_spec(output@)),
{
    let ls = lines(output);
    let ghost lv = views(ls@);
    let n = ls.len();
    let mut i: usize = 0;
    assert(lv.skip(0) =~= lv);
    while i < n
        invariant
            n == ls@.len() == lv.len(),
            lv == views(ls@),
            lv == lines_spec(output@),
            i <= n,
            first_status_socket(lv) == first_status_socket(lv.skip(i as int)),
        decreases n - i,
    {
        assert(lv.skip(i as int)[0] == ls@[i as int]@);
        assert(lv.skip(i as int).drop_first() =~= lv.skip(i + 1));
        let t = trim(ls[i].as_str());
        if let Some(rest) = strip_prefix(t.as_str(), "socket") {
            return Some(trim(rest.as_str()));
        }
        i += 1;
    }
    None
}

/// A socket path as announced, made absolute against the checkout it was
/// announced in (a path not starting with `/` is relative to it).
pub fn resolve_socket_path(ovk_root: &str, announced: &str) -> (r: String)
    ensures
        r@ == (if announced@.len() > 0 && announced@[0] == '/' {
            announced@
        } else {
            joined(ovk_root@, announced@)
        }),
{
    if announced.unicode_len() > 0 && announced.get_char(0) == '/' {
        announced.to_owned()
    } else {
        join_path(ovk_root, announced)
    }
}

/// How many times the daemon's status is asked before discovery gives up.
pub const DISCOVER_ATTEMPTS: u32 = 10;

/// What discovery does after reading the status output of attempt `attempt`.
pub enum DiscoverAction {
    /// Connect to the announced socket, made absolute.
    Connect(String),
    /// Start the daemon, wait, and ask again.
    StartDaemon,
    /// Wait and ask again.
    Wait,
    /// Stop: no socket was announced in any attempt.
    GiveUp,
}

/// The absolute path of a socket announced as `announced` in `ovk_root`.
pub open spec fn announced_path(ovk_root: Seq<char>, announced: Seq<char>) -> Seq<char> {
    if announced.len() > 0 && announced[0] == '/' {
        announced
    } else {
        joined(ovk_root, announced)
    }
}

/// What is reported when no socket was announced for `queue` in `ovk_root`.
pub fn discover_failure(queue: &str, ovk_root: &str) -> (r: String)
    ensures
        r@ == "could not discover flow socket for queue '"@ + queue@ + "' in "@ + ovk_root@,
{
    String::from_str("could not discover flow socket for queue '").concat(queue).concat("' in ").concat(
        ovk_root,
    )
}

/// One round of discovery: a socket announced in the status `output` is
/// connected to; otherwise the first miss starts the daemon, later misses
/// wait, and after the last attempt discovery gives up.
pub fn discover_step(attempt: u32, output: &str, ovk_root: &str) -> (r: DiscoverAction)
    ensures
        match first_status_socket(lines_spec(output@)) {
            Some(p) => r matches DiscoverAction::Connect(path) && path@ == announced_path(ovk_root@, p),
            None => if attempt == 0 {
                r is StartDaemon
            } else if attempt + 1 < DISCOVER_ATTEMPTS {
                r is Wait
            } else {
                r is GiveUp
            },
        },
{
    match socket_from_status(output) {
        Some(p) => DiscoverAction::Connect(resolve_socket_path(ovk_root, p.as_str())),
        None => if attempt == 0 {
            DiscoverAction::StartDaemon
        } else if attempt < DISCOVER_ATTEMPTS - 1 {
            DiscoverAction::Wait
        } else {
            DiscoverAction::GiveUp
        },
    }
}

} // verus!
