//! Line buffers. `LogBuffer` is the capability a sink offers: accept one
//! finished line, fire-and-forget. Beside it stand the verified cores of
//! the concrete sinks: an append-only in-memory sequence, and the state
//! machine of the hybrid sink that moves its lines between memory and a
//! backing file. The file itself is the caller's: the state machine hands
//! out exactly what to write and takes back exactly what was read.

use vstd::prelude::*;
use vstd::string::StrSliceExecFns;
use vstd::string::StringExecFns;

verus! {

/// A sink that accepts completed, fully formatted lines in arrival order.
/// Accepting must not block the logging call and must not panic; a sink
/// that fails to persist reports that on its own side channel.
pub trait LogBuffer {
    fn push_line(&self, line: String);
}

/// The zero-configuration default sink: accept the line and drop it.
impl LogBuffer for Option<()> {
    fn push_line(&self, _line: String) {
    }
}

/// The character sequences of a list of lines.
pub open spec fn views(lines: Seq<String>) -> Seq<Seq<char>> {
    lines.map_values(|s: String| s@)
}

/// An ordered, append-only sequence of lines.
pub struct InMemory {
    pub lines: Vec<String>,
}

impl InMemory {
    /// An empty buffer.
    pub fn new() -> (r: Self)
        ensures
            r.lines@.len() == 0,
    {
        InMemory { lines: Vec::new() }
    }

    /// Append one line; nothing already held moves or changes.
    pub fn push(&mut self, value: String)
        ensures
            final(self).lines@ == old(self).lines@.push(value),
    {
        self.lines.push(value);
    }
}

/// Where the hybrid sink's lines currently live.
pub enum Status {
    InMemory,
    OnDisk,
}

/// The index of the first newline in `s`, or -1 when there is none.
pub open spec fn find_newline(s: Seq<char>) -> int
    decreases s.len(),
{
    if s.len() == 0 {
        -1
    } else if s[0] == '\n' {
        0
    } else {
        let r = find_newline(s.drop_first());
        if r < 0 {
            -1
        } else {
            r + 1
        }
    }
}

/// `find_newline` points at the first newline when one exists, and returns
/// -1 exactly when none does.
pub proof fn lemma_find_newline_bounds(s: Seq<char>)
    ensures
        find_newline(s) >= 0 ==> {
            &&& find_newline(s) < s.len()
            &&& s[find_newline(s)] == '\n'
            &&& forall|j: int| 0 <= j < find_newline(s) ==> s[j] != '\n'
        },
        find_newline(s) < 0 ==> {
            &&& find_newline(s) == -1
            &&& forall|j: int| 0 <= j < s.len() ==> s[j] != '\n'
        },
    decreases s.len(),
{
    if s.len() == 0 {
    } else if s[0] == '\n' {
    } else {
        let t = s.drop_first();
        lemma_find_newline_bounds(t);
        if find_newline(t) >= 0 {
            assert forall|j: int| 0 <= j < find_newline(s) implies s[j] != '\n' by {
                if j > 0 {
                    assert(t[j - 1] == s[j]);
                    assert(t[j - 1] != '\n');
                }
            }
        } else {
            assert forall|j: int| 0 <= j < s.len() implies s[j] != '\n' by {
                if j > 0 {
                    assert(t[j - 1] == s[j]);
                    assert(t[j - 1] != '\n');
                }
            }
        }
    }
}

/// The lines of `s`: the segments between newlines. A trailing segment
/// without a terminating newline still counts as a line; a trailing
/// newline does not open an empty one.
pub open spec fn split_lines(s: Seq<char>) -> Seq<Seq<char>>
    decreases s.len(),
    via split_lines_dec
{
    if s.len() == 0 {
        Seq::empty()
    } else {
        let k = find_newline(s);
        if k < 0 {
            seq![s]
        } else {
            seq![s.subrange(0, k)] + split_lines(s.subrange(k + 1, s.len() as int))
        }
    }
}

#[via_fn]
proof fn split_lines_dec(s: Seq<char>) {
    lemma_find_newline_bounds(s);
}

/// The serialized form of `ls`: each line followed by one newline.
pub open spec fn join_lines(ls: Seq<Seq<char>>) -> Seq<char>
    decreases ls.len(),
{
    if ls.len() == 0 {
        Seq::empty()
    } else {
        ls.first() + seq!['\n'] + join_lines(ls.drop_first())
    }
}

/// A line that contains no newline of its own.
pub open spec fn line_clean(l: Seq<char>) -> bool {
    forall|i: int| 0 <= i < l.len() ==> l[i] != '\n'
}

/// Every line in the list is newline-free.
pub open spec fn all_clean(ls: Seq<Seq<char>>) -> bool {
    forall|i: int| 0 <= i < ls.len() ==> line_clean(#[trigger] ls[i])
}

/// Serializing grows on the right: one more line adds itself and its
/// terminating newline at the end.
pub proof fn lemma_join_lines_push(ls: Seq<Seq<char>>, l: Seq<char>)
    ensures
        join_lines(ls.push(l)) == join_lines(ls) + l + seq!['\n'],
    decreases ls.len(),
{
    if ls.len() == 0 {
        assert(ls.push(l).drop_first() =~= Seq::<Seq<char>>::empty());
        assert(ls.push(l).first() == l);
        assert(join_lines(ls.push(l)) == l + seq!['\n'] + join_lines(ls.push(l).drop_first()));
        assert(join_lines(ls.push(l).drop_first()) == Seq::<char>::empty());
        assert(join_lines(ls.push(l)) =~= join_lines(ls) + l + seq!['\n']);
    } else {
        lemma_join_lines_push(ls.drop_first(), l);
        assert(ls.push(l).drop_first() =~= ls.drop_first().push(l));
        assert(ls.push(l).first() == ls.first());
        assert(join_lines(ls.push(l)) =~= join_lines(ls) + l + seq!['\n']);
    }
}

/// In `a ++ "\n" ++ b` with `a` newline-free, the first newline is the one
/// in the middle.
pub proof fn lemma_find_newline_after(a: Seq<char>, b: Seq<char>)
    requires
        line_clean(a),
    ensures
        find_newline(a + seq!['\n'] + b) == a.len(),
    decreases a.len(),
{
    let s = a + seq!['\n'] + b;
    if a.len() == 0 {
        assert(s[0] == '\n');
    } else {
        assert(s[0] == a[0]);
        lemma_find_newline_after(a.drop_first(), b);
        assert(s.drop_first() =~= a.drop_first() + seq!['\n'] + b);
    }
}

/// Offload then reload is the identity: splitting the serialized form of
/// newline-free lines gives those lines back, in order.
pub proof fn lemma_split_join_round_trip(ls: Seq<Seq<char>>)
    requires
        all_clean(ls),
    ensures
        split_lines(join_lines(ls)) == ls,
    decreases ls.len(),
{
    if ls.len() == 0 {
    } else {
        let s = join_lines(ls);
        let hd = ls.first();
        let tl = join_lines(ls.drop_first());
        assert(line_clean(hd));
        lemma_find_newline_after(hd, tl);
        assert(find_newline(s) == hd.len());
        assert(s.subrange(0, hd.len() as int) =~= hd);
        assert(s.subrange(hd.len() as int + 1, s.len() as int) =~= tl);
        assert(all_clean(ls.drop_first())) by {
            assert(forall|i: int|
                0 <= i < ls.drop_first().len() ==> ls.drop_first()[i] == ls[i + 1]);
        }
        lemma_split_join_round_trip(ls.drop_first());
        assert(split_lines(s) =~= ls) by {
            assert(split_lines(s) == seq![hd] + ls.drop_first());
        }
    }
}

/// A push that found the lines on disk loses nothing: reloading the
/// serialized form of `ls` and appending `v` yields exactly `ls` followed
/// by `v`.
pub proof fn lemma_offload_reload_push(ls: Seq<Seq<char>>, v: Seq<char>)
    requires
        all_clean(ls),
    ensures
        split_lines(join_lines(ls)).push(v) == ls.push(v),
{
    lemma_split_join_round_trip(ls);
}

/// Serialize the lines: each followed by one newline.
pub fn join_lines_exec(lines: &Vec<String>) -> (r: String)
    ensures
        r@ == join_lines(views(lines@)),
{
    let ghost vs = views(lines@);
    let mut out = String::new();
    let mut i: usize = 0;
    proof {
        reveal_strlit("\n");
        assert(vs.subrange(0, 0) =~= Seq::<Seq<char>>::empty());
        assert(out@ =~= join_lines(vs.subrange(0, 0)));
    }
    while i < lines.len()
        invariant
            vs == views(lines@),
            i <= lines@.len(),
            out@ == join_lines(vs.subrange(0, i as int)),
            "\n"@ =~= seq!['\n'],
        decreases lines@.len() - i,
    {
        out.append(lines[i].as_str());
        out.append("\n");
        proof {
            lemma_join_lines_push(vs.subrange(0, i as int), vs[i as int]);
            assert(vs.subrange(0, i + 1).drop_last() =~= vs.subrange(0, i as int));
            assert(vs.subrange(0, i + 1) =~= vs.subrange(0, i as int).push(vs[i as int]));
            assert(vs[i as int] == lines@[i as int]@);
            assert(out@ =~= join_lines(vs.subrange(0, i + 1)));
        }
        i += 1;
    }
    proof {
        assert(vs.subrange(0, lines@.len() as int) =~= vs);
    }
    out
}

/// Split file content back into lines.
pub fn parse_lines(s: &str) -> (r: Vec<String>)
    ensures
        views(r@) == split_lines(s@),
{
    let n = s.unicode_len();
    let mut r: Vec<String> = Vec::new();
    let mut start: usize = 0;
    let mut i: usize = 0;
    proof {
        assert(views(r@) =~= Seq::<Seq<char>>::empty());
        assert(s@.subrange(0, n as int) =~= s@);
    }
    while i < n
        invariant
            n == s@.len(),
            start <= i <= n,
            split_lines(s@) == views(r@) + split_lines(s@.subrange(start as int, n as int)),
            forall|j: int| start <= j < i ==> s@[j] != '\n',
        decreases n - i,
    {
        if s.get_char(i) == '\n' {
            let piece = s.substring_char(start, i);
            let ghost prev = r@;
            r.push(piece.to_owned());
            proof {
                let rem = s@.subrange(start as int, n as int);
                let a = s@.subrange(start as int, i as int);
                let b = s@.subrange(i + 1, n as int);
                assert(rem =~= a + seq!['\n'] + b);
                assert(line_clean(a));
                lemma_find_newline_after(a, b);
                assert(rem.subrange(0, a.len() as int) =~= a);
                assert(rem.subrange(a.len() as int + 1, rem.len() as int) =~= b);
                assert(split_lines(rem) == seq![a] + split_lines(b));
                assert(piece@ == a);
                assert(views(r@) =~= views(prev).push(a));
                assert(views(r@) + split_lines(b) =~= views(prev) + (seq![a] + split_lines(b)));
            }
            start = i + 1;
        }
        i += 1;
    }
    if start < n {
        let piece = s.substring_char(start, n);
        let ghost prev = r@;
        r.push(piece.to_owned());
        proof {
            let rem = s@.subrange(start as int, n as int);
            assert(line_clean(rem));
            lemma_find_newline_bounds(rem);
            assert(find_newline(rem) == -1) by {
                if find_newline(rem) >= 0 {
                    assert(rem[find_newline(rem)] == '\n');
                }
            }
            assert(split_lines(rem) == seq![rem]);
            assert(piece@ == rem);
            assert(views(r@) =~= views(prev).push(rem));
            assert(views(r@) =~= views(prev) + seq![rem]);
        }
    } else {
        proof {
            assert(s@.subrange(start as int, n as int).len() == 0);
        }
    }
    r
}

/// The hybrid sink's state: the lines it holds in memory, and whether the
/// authoritative copy currently lives in memory or in the backing file.
pub struct State {
    pub inner: Vec<String>,
    pub status: Status,
}

impl State {
    /// A fresh hybrid sink starts empty and in memory.
    pub fn new() -> (r: Self)
        ensures
            r.inner@.len() == 0,
            r.status is InMemory,
    {
        State { inner: Vec::new(), status: Status::InMemory }
    }

    /// Accept a pushed line while the lines live in memory; while they live
    /// on disk the push is refused and the caller must reload first
    /// (`reload_and_push`), so no line can land in a stale empty sequence.
    pub fn apply_push(&mut self, value: String) -> (accepted: bool)
        ensures
            old(self).status is InMemory ==> {
                &&& accepted
                &&& final(self).inner@ == old(self).inner@.push(value)
                &&& final(self).status is InMemory
            },
            old(self).status is OnDisk ==> !accepted && *final(self) == *old(self),
    {
        match self.status {
            Status::InMemory => {
                self.inner.push(value);
                true
            },
            Status::OnDisk => false,
        }
    }

    /// What an offload writes to the backing file: the held lines, each
    /// terminated by one newline. Nothing changes until `commit_offload`.
    pub fn offload_payload(&self) -> (r: String)
        ensures
            r@ == join_lines(views(self.inner@)),
    {
        join_lines_exec(&self.inner)
    }

    /// Record that the offload payload reached the file: the in-memory
    /// sequence empties and the file becomes the authoritative copy. A
    /// failed write simply never commits, so the lines stay in memory.
    pub fn commit_offload(&mut self)
        requires
            old(self).status is InMemory,
        ensures
            final(self).inner@.len() == 0,
            final(self).status is OnDisk,
    {
        self.inner = Vec::new();
        self.status = Status::OnDisk;
    }

    /// Complete a push that found the lines on disk: take the file content
    /// just read, split it back into lines, append the new line, and make
    /// memory authoritative again. Absent pushes between offload and
    /// reload, the result is exactly the offloaded lines plus the new one.
    pub fn reload_and_push(&mut self, file_content: &str, value: String)
        requires
            old(self).status is OnDisk,
        ensures
            final(self).status is InMemory,
            views(final(self).inner@) == split_lines(file_content@).push(value@),
    {
        let mut lines = parse_lines(file_content);
        let ghost parsed = lines@;
        lines.push(value);
        proof {
            assert(views(lines@) =~= views(parsed).push(value@));
        }
        self.inner = lines;
        self.status = Status::InMemory;
    }

    /// Replace the in-memory lines with lines read back from the file, but
    /// only while the file is authoritative: a reload that arrives while
    /// lines live in memory is refused rather than allowed to overwrite
    /// them.
    pub fn apply_reload(&mut self, file_lines: Vec<String>) -> (accepted: bool)
        ensures
            old(self).status is OnDisk ==> {
                &&& accepted
                &&& final(self).inner@ == file_lines@
                &&& final(self).status is InMemory
            },
            old(self).status is InMemory ==> !accepted && *final(self) == *old(self),
    {
        match self.status {
            Status::OnDisk => {
                self.inner = file_lines;
                self.status = Status::InMemory;
                true
            },
            Status::InMemory => false,
        }
    }
}

/// A control message for the hybrid sink's background loop.
pub enum Msg {
    /// Reload the backing file into memory.
    Load,
    /// A push arrived: start the idle timer over.
    ExtendTimeout,
    /// End the background loop.
    Stop,
}

/// What wakes the background loop up.
pub enum LoaderEvent {
    /// The idle timer ran out with no push.
    TimerExpired,
    /// A control message arrived.
    Received(Msg),
}

/// What the background loop does next.
pub enum LoaderAction {
    /// Serialize the in-memory lines to the backing file.
    Offload,
    /// Read the backing file back into memory.
    Reload,
    /// Nothing but restarting the timer.
    AwaitNext,
    /// Leave the loop; no further timer fires.
    Shutdown,
}

/// The background loop's decision for one wakeup: an expired idle timer
/// offloads, a load request reloads, a push only restarts the timer, and
/// stop ends the loop.
pub fn loader_step(event: &LoaderEvent) -> (a: LoaderAction)
    ensures
        event is TimerExpired ==> a is Offload,
        event matches LoaderEvent::Received(m) ==> match m {
            Msg::Load => a is Reload,
            Msg::ExtendTimeout => a is AwaitNext,
            Msg::Stop => a is Shutdown,
        },
{
    match event {
        LoaderEvent::TimerExpired => LoaderAction::Offload,
        LoaderEvent::Received(Msg::Load) => LoaderAction::Reload,
        LoaderEvent::Received(Msg::ExtendTimeout) => LoaderAction::AwaitNext,
        LoaderEvent::Received(Msg::Stop) => LoaderAction::Shutdown,
    }
}

} // verus!
