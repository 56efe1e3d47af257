//! The logger itself. A `Log` holds the immutable configuration — program
//! name, the two padding tables, the level display map, the timestamp mode
//! and the line buffer — and is shared by reference count across
//! `SubmoduleLog` handles. `Print` assembles one line from (submodule,
//! level, content), writes it to standard output and hands it to the
//! buffer.

use std::sync::Arc;
use vstd::prelude::*;
use vstd::string::StrSliceExecFns;
use vstd::string::StringExecFns;
use crate::buffer::LogBuffer;
use crate::color::GetColor;
use crate::color::wraps_styled;
use crate::padding::PadLeft;
use crate::padding::all_spaces;
use crate::padding::lemma_registered_label_aligns;
use crate::padding::make_spaces;
use crate::padding::max_label_width;
use crate::padding::pad_width;
use crate::padding::str_eq;

verus! {

/// The capability of rendering to a string for inclusion in a log line.
pub trait Loggable: Sized {
    /// The characters this value renders as.
    spec fn loggable_view(&self) -> Seq<char>;

    /// Render the value.
    fn as_loggable(&self) -> (r: String)
        ensures
            r@ == self.loggable_view(),
    ;
}

impl Loggable for String {
    open spec fn loggable_view(&self) -> Seq<char> {
        self@
    }

    fn as_loggable(&self) -> (r: String)
        ensures
            r@ == self.loggable_view(),
    {
        self.clone()
    }
}

impl<'a> Loggable for &'a str {
    open spec fn loggable_view(&self) -> Seq<char> {
        self@
    }

    fn as_loggable(&self) -> (r: String)
        ensures
            r@ == self.loggable_view(),
    {
        (*self).to_owned()
    }
}

/// Whether lines carry a timestamp, and at which precision.
pub enum Timestamp {
    /// No timestamp block.
    Off,
    /// Whole seconds.
    Seconds,
    /// Milliseconds.
    Millis,
}

/// Whether the level display map holds an entry for name `k`.
pub open spec fn color_entries_contain(m: Seq<(String, String)>, k: Seq<char>) -> bool {
    exists|i: int| 0 <= i < m.len() && m[i].0@ == k
}

/// The display form stored for name `k`.
pub open spec fn color_entry_at(m: Seq<(String, String)>, k: Seq<char>) -> Seq<char> {
    m[choose|i: int| 0 <= i < m.len() && m[i].0@ == k].1@
}

/// The display map's names are distinct.
pub open spec fn color_entries_distinct(m: Seq<(String, String)>) -> bool {
    forall|i: int, j: int| 0 <= i < j < m.len() ==> m[i].0@ != m[j].0@
}

/// With distinct names, the entry found at `i` is the entry looked up.
pub proof fn lemma_color_entry_at(m: Seq<(String, String)>, i: int)
    requires
        color_entries_distinct(m),
        0 <= i < m.len(),
    ensures
        color_entries_contain(m, m[i].0@),
        color_entry_at(m, m[i].0@) == m[i].1@,
{
    assert(0 <= i < m.len() && m[i].0@ == m[i].0@);
    let w = choose|j: int| 0 <= j < m.len() && m[j].0@ == m[i].0@;
    if w != i {
        assert(m[w].0@ == m[i].0@);
        assert(false);
    }
}

/// Look a level name up in the display map.
fn lookup_color(m: &Vec<(String, String)>, k: &str) -> (r: Option<String>)
    requires
        color_entries_distinct(m@),
    ensures
        color_entries_contain(m@, k@) ==> (r matches Some(v) && v@ == color_entry_at(m@, k@)),
        !color_entries_contain(m@, k@) ==> r is None,
{
    let mut i: usize = 0;
    while i < m.len()
        invariant
            color_entries_distinct(m@),
            i <= m@.len(),
            forall|t: int| 0 <= t < i ==> m@[t].0@ != k@,
        decreases m@.len() - i,
    {
        if str_eq(m[i].0.as_str(), k) {
            proof {
                lemma_color_entry_at(m@, i as int);
            }
            return Some(m[i].1.clone());
        }
        i += 1;
    }
    None
}

/// The `[program submodule]`-shaped block before the level block. With a
/// program name and a submodule, both stand in one bracket pair and the
/// submodule right-aligns to the column width; with only a program name,
/// the brackets close early and spaces keep the columns aligned; with only
/// a submodule, it stands alone in brackets; with neither, spaces alone
/// hold the column open.
pub open spec fn prefix_block(
    program: Option<Seq<char>>,
    submod: Option<Seq<char>>,
    width: nat,
) -> Seq<char> {
    match (program, submod) {
        (Some(p), Some(m)) => seq!['['] + p + seq![' '] + all_spaces(pad_width(width, m)) + m
            + seq![']'],
        (Some(p), None) => seq!['['] + p + seq![']', ' '] + all_spaces(width),
        (None, Some(m)) => seq!['['] + all_spaces(pad_width(width, m)) + m + seq![']'],
        (None, None) => all_spaces(width),
    }
}

/// The level block: the level's padding, then its display form — colored
/// when the display map knows the name, the bare name otherwise.
pub open spec fn level_block(
    colors: Seq<(String, String)>,
    level_width: nat,
    level: Seq<char>,
) -> Seq<char> {
    let padding = all_spaces(pad_width(level_width, level));
    if color_entries_contain(colors, level) {
        padding + color_entry_at(colors, level)
    } else {
        padding + level
    }
}

/// One full line, without a timestamp block:
/// `{prefix} {level}: {content}` terminated by CRLF.
pub open spec fn line_of(
    program: Option<Seq<char>>,
    submod_width: nat,
    submod: Option<Seq<char>>,
    colors: Seq<(String, String)>,
    level_width: nat,
    level: Seq<char>,
    content: Seq<char>,
) -> Seq<char> {
    prefix_block(program, submod, submod_width) + seq![' '] + level_block(
        colors,
        level_width,
        level,
    ) + seq![':', ' '] + content + seq!['\r', '\n']
}

/// A timestamp humanized for display: `T` becomes a space and `Z` is
/// dropped, as in `2000-01-02 03:04:05`.
pub open spec fn humanize(ts: Seq<char>) -> Seq<char>
    decreases ts.len(),
{
    if ts.len() == 0 {
        Seq::empty()
    } else {
        let head = if ts[0] == 'T' {
            seq![' ']
        } else if ts[0] == 'Z' {
            Seq::<char>::empty()
        } else {
            seq![ts[0]]
        };
        head + humanize(ts.drop_first())
    }
}

/// Humanizing works character by character from the left.
pub proof fn lemma_humanize_push(p: Seq<char>, c: char)
    ensures
        humanize(p.push(c)) == humanize(p) + (if c == 'T' {
            seq![' ']
        } else if c == 'Z' {
            Seq::<char>::empty()
        } else {
            seq![c]
        }),
    decreases p.len(),
{
    let head = if c == 'T' {
        seq![' ']
    } else if c == 'Z' {
        Seq::<char>::empty()
    } else {
        seq![c]
    };
    if p.len() == 0 {
        assert(p.push(c)[0] == c);
        assert(p.push(c).drop_first() =~= Seq::<char>::empty());
        assert(humanize(Seq::<char>::empty()) == Seq::<char>::empty());
        assert(humanize(p.push(c)) =~= humanize(p) + head);
    } else {
        lemma_humanize_push(p.drop_first(), c);
        assert(p.push(c)[0] == p[0]);
        assert(p.push(c).drop_first() =~= p.drop_first().push(c));
        assert(humanize(p.push(c)) =~= humanize(p) + head);
    }
}

/// Rewrite a timestamp for display: each `T` becomes a space, each `Z`
/// disappears, everything else stays.
pub fn humanize_timestamp(s: &str) -> (r: String)
    ensures
        r@ == humanize(s@),
{
    let n = s.unicode_len();
    let mut out = String::new();
    let mut i: usize = 0;
    proof {
        reveal_strlit(" ");
        assert(s@.subrange(0, 0) =~= Seq::<char>::empty());
        assert(out@ =~= humanize(s@.subrange(0, 0)));
    }
    while i < n
        invariant
            n == s@.len(),
            i <= n,
            out@ == humanize(s@.subrange(0, i as int)),
            " "@ =~= seq![' '],
        decreases n - i,
    {
        let c = s.get_char(i);
        if c == 'T' {
            out.append(" ");
        } else if c == 'Z' {
        } else {
            let piece = s.substring_char(i, i + 1);
            out.append(piece);
            proof {
                assert(piece@ =~= seq![s@[i as int]]);
            }
        }
        proof {
            lemma_humanize_push(s@.subrange(0, i as int), s@[i as int]);
            assert(s@.subrange(0, i + 1) =~= s@.subrange(0, i as int).push(s@[i as int]));
            assert(out@ =~= humanize(s@.subrange(0, i + 1)));
        }
        i += 1;
    }
    proof {
        assert(s@.subrange(0, n as int) =~= s@);
    }
    out
}

/// Relies on chrono's `Utc::now().to_rfc3339_opts(SecondsFormat::Secs, true)`:
/// the timestamp is built from digits and the separators `- : . + T Z`
/// only, so it is nonempty and free of carriage returns and newlines.
#[verifier::external_body]
fn now_rfc3339_secs() -> (r: String)
    ensures
        r@.len() > 0,
        forall|i: int| 0 <= i < r@.len() ==> r@[i] != '\n' && r@[i] != '\r',
{
    chrono::Utc::now().to_rfc3339_opts(chrono::SecondsFormat::Secs, true)
}

/// Relies on chrono exactly as `now_rfc3339_secs` does, with
/// `SecondsFormat::Millis` for millisecond precision.
#[verifier::external_body]
fn now_rfc3339_millis() -> (r: String)
    ensures
        r@.len() > 0,
        forall|i: int| 0 <= i < r@.len() ==> r@[i] != '\n' && r@[i] != '\r',
{
    chrono::Utc::now().to_rfc3339_opts(chrono::SecondsFormat::Millis, true)
}

/// Relies on `std::io::Write::write_all` on the standard output handle to
/// hand the finished line to the console; a failed write is dropped, as
/// the console is best-effort.
#[verifier::external_body]
fn emit_stdout(line: &str) {
    let _ = std::io::Write::write_all(&mut std::io::stdout(), line.as_bytes());
}

/// The logger's immutable configuration: the buffer lines are handed to,
/// the resolved program name, the padding tables for submodule and level
/// names, the level display map, and the timestamp mode.
pub struct Log<B: LogBuffer> {
    pub buf: B,
    pub program_name: Option<String>,
    pub submodule_pad: PadLeft,
    pub level_pad: PadLeft,
    pub level_color: Vec<(String, String)>,
    pub timestamp: Timestamp,
}

/// The built display map holds exactly the names of `levels`, each mapped
/// to the display form of its first occurrence.
pub open spec fn level_map_matches(
    map: Seq<(String, String)>,
    levels: Seq<(String, String)>,
) -> bool {
    &&& color_entries_distinct(map)
    &&& forall|i: int| 0 <= i < levels.len() ==> color_entries_contain(map, #[trigger] levels[i].0@)
    &&& forall|k: Seq<char>|
        color_entries_contain(map, k) ==> exists|i: int| 0 <= i < levels.len() && levels[i].0@ == k
    &&& forall|i: int|
        (0 <= i < levels.len() && (forall|j: int| 0 <= j < i ==> levels[j].0@ != levels[i].0@))
            ==> color_entry_at(map, #[trigger] levels[i].0@) == levels[i].1@
}

impl<B: LogBuffer> Log<B> {
    /// Both padding tables and the display map are well formed.
    pub open spec fn wf(&self) -> bool {
        &&& self.submodule_pad.wf()
        &&& self.level_pad.wf()
        &&& color_entries_distinct(self.level_color@)
    }

    /// The line this configuration renders for (submodule, level, content),
    /// before any timestamp block.
    pub open spec fn spec_line(
        &self,
        submod: Option<Seq<char>>,
        level: Seq<char>,
        content: Seq<char>,
    ) -> Seq<char> {
        line_of(
            match self.program_name {
                Some(p) => Some(p@),
                None => None,
            },
            self.submodule_pad.width as nat,
            submod,
            self.level_color@,
            self.level_pad.width as nat,
            level,
            content,
        )
    }

    /// Assemble a `Log` from its parts. The program name arrives already
    /// resolved (the caller read any environment identifier); the level
    /// pairs are (name, display form), duplicates collapsing to the first.
    pub fn new(
        buffer: B,
        program_name: Option<String>,
        submodule_names: Vec<String>,
        levels: Vec<(String, String)>,
    ) -> (r: Arc<Self>)
        ensures
            r.wf(),
            r.program_name == program_name,
            r.timestamp is Off,
            r.submodule_pad.width as nat == max_label_width(
                submodule_names@.map_values(|s: String| s@),
            ),
            forall|i: int|
                0 <= i < submodule_names@.len() ==> r.submodule_pad.contains_key(
                    submodule_names@[i]@,
                ),
            forall|k: Seq<char>|
                r.submodule_pad.contains_key(k) ==> submodule_names@.map_values(
                    |s: String| s@,
                ).contains(k),
            r.level_pad.width as nat == max_label_width(
                levels@.map_values(|p: (String, String)| p.0@),
            ),
            forall|i: int| 0 <= i < levels@.len() ==> r.level_pad.contains_key(levels@[i].0@),
            level_map_matches(r.level_color@, levels@),
    {
        let submodule_pad = PadLeft::new(submodule_names);
        Self::new_raw(buffer, program_name, submodule_pad, levels, Timestamp::Off)
    }

    /// Assemble a `Log` from an already built submodule table.
    pub fn new_raw(
        buffer: B,
        program_name: Option<String>,
        submodule_pad: PadLeft,
        levels: Vec<(String, String)>,
        timestamp: Timestamp,
    ) -> (r: Arc<Self>)
        requires
            submodule_pad.wf(),
        ensures
            r.wf(),
            r.program_name == program_name,
            r.timestamp == timestamp,
            r.submodule_pad == submodule_pad,
            r.level_pad.width as nat == max_label_width(
                levels@.map_values(|p: (String, String)| p.0@),
            ),
            forall|i: int| 0 <= i < levels@.len() ==> r.level_pad.contains_key(levels@[i].0@),
            level_map_matches(r.level_color@, levels@),
    {
        let mut names: Vec<String> = Vec::new();
        let mut i: usize = 0;
        while i < levels.len()
            invariant
                i <= levels@.len(),
                names@.len() == i,
                forall|t: int| 0 <= t < i ==> names@[t]@ == levels@[t].0@,
            decreases levels@.len() - i,
        {
            names.push(levels[i].0.clone());
            i += 1;
        }
        let level_pad = PadLeft::new(names);
        proof {
            assert(names@.map_values(|s: String| s@) =~= levels@.map_values(
                |p: (String, String)| p.0@,
            ));
            assert forall|t: int| 0 <= t < levels@.len() implies level_pad.contains_key(
                levels@[t].0@,
            ) by {
                assert(level_pad.contains_key(names@[t]@));
            }
        }
        let level_color = dedup_levels(&levels);
        Arc::new(
            Log {
                buf: buffer,
                program_name,
                submodule_pad,
                level_pad,
                level_color,
                timestamp,
            },
        )
    }

    /// A lightweight handle bound to one submodule name, sharing this
    /// configuration; the name need not be registered.
    pub fn submodule(self: &Arc<Self>, name: String) -> (r: SubmoduleLog<B>)
        ensures
            r.log == *self,
            r.submod == name,
    {
        SubmoduleLog { log: self.clone(), submod: name }
    }

    /// Emit one line at level DEBUG.
    pub fn debug<L: Loggable>(&self, content: L)
        requires
            self.wf(),
    {
        Print::new(self, (None, Some("DEBUG".to_owned()), Some(content))).print();
    }

    /// Emit one line at level INFO.
    pub fn info<L: Loggable>(&self, content: L)
        requires
            self.wf(),
    {
        Print::new(self, (None, Some("INFO".to_owned()), Some(content))).print();
    }

    /// Emit one line at level OK.
    pub fn ok<L: Loggable>(&self, content: L)
        requires
            self.wf(),
    {
        Print::new(self, (None, Some("OK".to_owned()), Some(content))).print();
    }

    /// Emit one line at level ERROR.
    pub fn error<L: Loggable>(&self, content: L)
        requires
            self.wf(),
    {
        Print::new(self, (None, Some("ERROR".to_owned()), Some(content))).print();
    }
}

/// Collapse level pairs to one entry per name, keeping first occurrences.
fn dedup_levels(levels: &Vec<(String, String)>) -> (r: Vec<(String, String)>)
    ensures
        level_map_matches(r@, levels@),
{
    let mut map: Vec<(String, String)> = Vec::new();
    let mut i: usize = 0;
    while i < levels.len()
        invariant
            i <= levels@.len(),
            color_entries_distinct(map@),
            forall|t: int| 0 <= t < i ==> color_entries_contain(map@, #[trigger] levels@[t].0@),
            forall|k: Seq<char>|
                color_entries_contain(map@, k) ==> exists|t: int|
                    0 <= t < i && levels@[t].0@ == k,
            forall|t: int|
                (0 <= t < i && (forall|j: int| 0 <= j < t ==> levels@[j].0@ != levels@[t].0@))
                    ==> color_entry_at(map@, #[trigger] levels@[t].0@) == levels@[t].1@,
        decreases levels@.len() - i,
    {
        let ghost prev = map@;
        let mut found = false;
        let mut t: usize = 0;
        while t < map.len()
            invariant
                t <= map@.len(),
                found <==> exists|u: int| 0 <= u < t && map@[u].0@ == levels@[i as int].0@,
                map@ == prev,
                i < levels@.len(),
            decreases map@.len() - t,
        {
            if str_eq(map[t].0.as_str(), levels[i].0.as_str()) {
                found = true;
                proof {
                    assert(0 <= t < t + 1 && map@[t as int].0@ == levels@[i as int].0@);
                }
            }
            t += 1;
        }
        if !found {
            map.push((levels[i].0.clone(), levels[i].1.clone()));
            proof {
                assert(map@[prev.len() as int].0@ == levels@[i as int].0@);
                assert(forall|u: int| 0 <= u < prev.len() ==> map@[u] == prev[u]);
            }
        }
        proof {
            assert forall|u: int| 0 <= u < i + 1 implies color_entries_contain(
                map@,
                #[trigger] levels@[u].0@,
            ) by {
                if u < i {
                    let w = choose|v: int| 0 <= v < prev.len() && prev[v].0@ == levels@[u].0@;
                    assert(map@[w].0@ == levels@[u].0@);
                } else {
                    if map@.len() == prev.len() + 1 {
                        assert(map@[prev.len() as int].0@ == levels@[u].0@);
                    } else {
                        let w = choose|v: int| 0 <= v < prev.len() && prev[v].0@ == levels@[
                            i as int
                        ].0@;
                        assert(map@[w].0@ == levels@[u].0@);
                    }
                }
            }
            assert forall|k: Seq<char>| color_entries_contain(map@, k) implies exists|t2: int|
                0 <= t2 < i + 1 && levels@[t2].0@ == k by {
                let w = choose|v: int| 0 <= v < map@.len() && map@[v].0@ == k;
                if w < prev.len() {
                    assert(color_entries_contain(prev, k)) by {
                        assert(0 <= w < prev.len() && prev[w].0@ == k);
                    }
                    let t2 = choose|t2: int| 0 <= t2 < i && levels@[t2].0@ == k;
                    assert(0 <= t2 < i + 1 && levels@[t2].0@ == k);
                } else {
                    assert(levels@[i as int].0@ == k);
                }
            }
            assert forall|t2: int|
                (0 <= t2 < i + 1 && (forall|j: int|
                    0 <= j < t2 ==> levels@[j].0@ != levels@[t2].0@)) implies color_entry_at(
                map@,
                #[trigger] levels@[t2].0@,
            ) == levels@[t2].1@ by {
                if t2 < i {
                    if map@.len() == prev.len() + 1 {
                        let w = choose|v: int| 0 <= v < prev.len() && prev[v].0@ == levels@[
                            t2
                        ].0@;
                        assert(map@[w].0@ == levels@[t2].0@ && map@[w].1@ == color_entry_at(
                            prev,
                            levels@[t2].0@,
                        )) by {
                            lemma_color_entry_at(prev, w);
                        }
                        lemma_color_entry_at(map@, w);
                    } else {
                        assert(color_entry_at(map@, levels@[t2].0@) == color_entry_at(
                            prev,
                            levels@[t2].0@,
                        ));
                    }
                } else {
                    assert(!found);
                    assert(map@[prev.len() as int].0@ == levels@[i as int].0@);
                    assert(map@[prev.len() as int].1@ == levels@[i as int].1@);
                    lemma_color_entry_at(map@, prev.len() as int);
                }
            }
        }
        i += 1;
    }
    map
}

/// A (shared `Log`, submodule name) pair: the cheap per-submodule view.
pub struct SubmoduleLog<B: LogBuffer> {
    pub log: Arc<Log<B>>,
    pub submod: String,
}

impl<B: LogBuffer> SubmoduleLog<B> {
    /// Bind a submodule name to a shared `Log`.
    pub fn new(log: Arc<Log<B>>, submod: String) -> (r: Self)
        ensures
            r.log == log,
            r.submod == submod,
    {
        SubmoduleLog { log, submod }
    }

    /// Emit one line at level DEBUG under this submodule name.
    pub fn debug<L: Loggable>(&self, content: L)
        requires
            self.log.wf(),
    {
        Print::new(
            &self.log,
            (Some(self.submod.clone()), Some("DEBUG".to_owned()), Some(content)),
        ).print();
    }

    /// Emit one line at level INFO under this submodule name.
    pub fn info<L: Loggable>(&self, content: L)
        requires
            self.log.wf(),
    {
        Print::new(
            &self.log,
            (Some(self.submod.clone()), Some("INFO".to_owned()), Some(content)),
        ).print();
    }

    /// Emit one line at level OK under this submodule name.
    pub fn ok<L: Loggable>(&self, content: L)
        requires
            self.log.wf(),
    {
        Print::new(
            &self.log,
            (Some(self.submod.clone()), Some("OK".to_owned()), Some(content)),
        ).print();
    }

    /// Emit one line at level ERROR under this submodule name.
    pub fn error<L: Loggable>(&self, content: L)
        requires
            self.log.wf(),
    {
        Print::new(
            &self.log,
            (Some(self.submod.clone()), Some("ERROR".to_owned()), Some(content)),
        ).print();
    }
}

/// One line in the making: the configuration it renders against, and the
/// optional submodule, level and content.
pub struct Print<'b, B: LogBuffer, L: Loggable> {
    pub log: &'b Log<B>,
    pub submod: Option<String>,
    pub level: Option<String>,
    pub content: Option<L>,
}

impl<'b, B: LogBuffer, L: Loggable> Print<'b, B, L> {
    /// The submodule name's characters, when one is set.
    pub open spec fn submod_view(&self) -> Option<Seq<char>> {
        match self.submod {
            Some(s) => Some(s@),
            None => None,
        }
    }

    /// The level name used: the one set, or DEBUG.
    pub open spec fn level_view(&self) -> Seq<char> {
        match self.level {
            Some(l) => l@,
            None => "DEBUG"@,
        }
    }

    /// The content's characters; none renders as empty.
    pub open spec fn content_view(&self) -> Seq<char> {
        match self.content {
            Some(c) => c.loggable_view(),
            None => Seq::empty(),
        }
    }

    /// Start a line against `log` from its three optional parts.
    pub fn new(log: &'b Log<B>, parts: (Option<String>, Option<String>, Option<L>)) -> (r: Self)
        ensures
            r.log == log,
            r.submod == parts.0,
            r.level == parts.1,
            r.content == parts.2,
    {
        let (submod, level, content) = parts;
        Print { log, submod, level, content }
    }

    /// Set the submodule name.
    pub fn submod(self, submod: String) -> (r: Self)
        ensures
            r == (Self { submod: Some(submod), ..self }),
    {
        Self { submod: Some(submod), ..self }
    }

    /// Set the level name.
    pub fn level(self, level: String) -> (r: Self)
        ensures
            r == (Self { level: Some(level), ..self }),
    {
        Self { level: Some(level), ..self }
    }

    /// Set the content.
    pub fn content(self, content: L) -> (r: Self)
        ensures
            r == (Self { content: Some(content), ..self }),
    {
        Self { content: Some(content), ..self }
    }

    /// Emit with level DEBUG and the given content.
    pub fn debug(self, content: L)
        requires
            self.log.wf(),
    {
        self.level("DEBUG".to_owned()).content(content).print();
    }

    /// Emit with level INFO and the given content.
    pub fn info(self, content: L)
        requires
            self.log.wf(),
    {
        self.level("INFO".to_owned()).content(content).print();
    }

    /// Emit with level OK and the given content.
    pub fn ok(self, content: L)
        requires
            self.log.wf(),
    {
        self.level("OK".to_owned()).content(content).print();
    }

    /// Emit with level ERROR and the given content.
    pub fn error(self, content: L)
        requires
            self.log.wf(),
    {
        self.level("ERROR".to_owned()).content(content).print();
    }

    /// Emit with the given content and the parts already set.
    pub fn printc(self, content: L)
        requires
            self.log.wf(),
    {
        self.content(content).print();
    }

    /// Assemble the line, write it to standard output, and hand it to the
    /// buffer.
    pub fn print(self)
        requires
            self.log.wf(),
    {
        let line = self.get_line();
        emit_stdout(line.as_str());
        self.log.buf.push_line(line);
    }

    /// As `print`, and hand the line back too.
    pub fn into_line(self) -> (r: String)
        requires
            self.log.wf(),
        ensures
            self.log.timestamp is Off ==> r@ == self.log.spec_line(
                self.submod_view(),
                self.level_view(),
                self.content_view(),
            ),
            !(self.log.timestamp is Off) ==> exists|ts: Seq<char>|
                r@ == humanize(ts) + seq![' '] + self.log.spec_line(
                    self.submod_view(),
                    self.level_view(),
                    self.content_view(),
                ),
    {
        let line = self.get_line();
        emit_stdout(line.as_str());
        self.log.buf.push_line(line.clone());
        line
    }

    /// The finished line: prefix block, level block, content, CRLF — with
    /// a humanized timestamp in front when the configuration asks for one.
    pub fn get_line(&self) -> (r: String)
        requires
            self.log.wf(),
        ensures
            self.log.timestamp is Off ==> r@ == self.log.spec_line(
                self.submod_view(),
                self.level_view(),
                self.content_view(),
            ),
            !(self.log.timestamp is Off) ==> exists|ts: Seq<char>|
                r@ == humanize(ts) + seq![' '] + self.log.spec_line(
                    self.submod_view(),
                    self.level_view(),
                    self.content_view(),
                ),
    {
        let prefix = render_prefix(&self.log.program_name, &self.submod, &self.log.submodule_pad);
        let level: &str = match &self.level {
            Some(l) => l.as_str(),
            None => "DEBUG",
        };
        let level_part = render_level(&self.log.level_color, &self.log.level_pad, level);
        let content = self.get_content();
        let mut line = String::new();
        line.append(prefix.as_str());
        line.append(" ");
        line.append(level_part.as_str());
        line.append(": ");
        line.append(content.as_str());
        line.append("\r\n");
        proof {
            reveal_strlit(" ");
            reveal_strlit(": ");
            reveal_strlit("\r\n");
            assert(line@ =~= self.log.spec_line(
                self.submod_view(),
                self.level_view(),
                self.content_view(),
            ));
        }
        match self.log.timestamp {
            Timestamp::Off => line,
            Timestamp::Seconds => {
                let ts = now_rfc3339_secs();
                let mut out = humanize_timestamp(ts.as_str());
                out.append(" ");
                out.append(line.as_str());
                proof {
                    reveal_strlit(" ");
                    assert(out@ =~= humanize(ts@) + seq![' '] + line@);
                }
                out
            },
            Timestamp::Millis => {
                let ts = now_rfc3339_millis();
                let mut out = humanize_timestamp(ts.as_str());
                out.append(" ");
                out.append(line.as_str());
                proof {
                    reveal_strlit(" ");
                    assert(out@ =~= humanize(ts@) + seq![' '] + line@);
                }
                out
            },
        }
    }

    /// The content's rendered form; none renders as empty.
    fn get_content(&self) -> (r: String)
        ensures
            r@ == self.content_view(),
    {
        match &self.content {
            Some(c) => c.as_loggable(),
            None => String::new(),
        }
    }
}

/// Render the prefix block for the given program name and submodule.
fn render_prefix(program_name: &Option<String>, submod: &Option<String>, pad: &PadLeft) -> (r:
    String)
    requires
        pad.wf(),
    ensures
        r@ == prefix_block(
            match program_name {
                Some(p) => Some(p@),
                None => None,
            },
            match submod {
                Some(m) => Some(m@),
                None => None,
            },
            pad.width as nat,
        ),
{
    proof {
        reveal_strlit("[");
        reveal_strlit("]");
        reveal_strlit(" ");
        reveal_strlit("] ");
    }
    match (program_name, submod) {
        (Some(p), Some(m)) => {
            let mut out = String::new();
            out.append("[");
            out.append(p.as_str());
            out.append(" ");
            let padded = pad.get(m.as_str());
            out.append(padded.as_str());
            out.append("]");
            proof {
                assert(out@ =~= prefix_block(Some(p@), Some(m@), pad.width as nat));
            }
            out
        },
        (Some(p), None) => {
            let mut out = String::new();
            out.append("[");
            out.append(p.as_str());
            out.append("] ");
            let spacing = make_spaces(pad.width);
            out.append(spacing.as_str());
            proof {
                assert(out@ =~= prefix_block(Some(p@), None, pad.width as nat));
            }
            out
        },
        (None, Some(m)) => {
            let mut out = String::new();
            out.append("[");
            let padded = pad.get(m.as_str());
            out.append(padded.as_str());
            out.append("]");
            proof {
                assert(out@ =~= prefix_block(None, Some(m@), pad.width as nat));
            }
            out
        },
        (None, None) => {
            let out = make_spaces(pad.width);
            proof {
                assert(out@ =~= prefix_block(None, None, pad.width as nat));
            }
            out
        },
    }
}

/// Render the level block: padding, then the colored or bare level name.
fn render_level(colors: &Vec<(String, String)>, pad: &PadLeft, level: &str) -> (r: String)
    requires
        pad.wf(),
        color_entries_distinct(colors@),
    ensures
        r@ == level_block(colors@, pad.width as nat, level@),
{
    let (padding, key) = pad.get_split(level);
    match lookup_color(colors, key) {
        Some(c) => padding.concat(c.as_str()),
        None => padding.concat(key),
    }
}

/// The four built-in levels with their built-in colors: INFO in blue, OK
/// in green, ERROR in red, DEBUG in cyan.
pub fn default_levels() -> (r: Vec<crate::color::Color>)
    ensures
        r@.len() == 4,
        r@[0] matches crate::color::Color::Blue(s) && s@ == "INFO"@,
        r@[1] matches crate::color::Color::Green(s) && s@ == "OK"@,
        r@[2] matches crate::color::Color::Red(s) && s@ == "ERROR"@,
        r@[3] matches crate::color::Color::Cyan(s) && s@ == "DEBUG"@,
{
    let mut v: Vec<crate::color::Color> = Vec::new();
    v.push(crate::color::Color::Blue("INFO".to_owned()));
    v.push(crate::color::Color::Green("OK".to_owned()));
    v.push(crate::color::Color::Red("ERROR".to_owned()));
    v.push(crate::color::Color::Cyan("DEBUG".to_owned()));
    v
}

/// Render level items to (name, display form) pairs.
pub fn render_levels<T: GetColor>(items: &Vec<T>) -> (r: Vec<(String, String)>)
    ensures
        r@.len() == items@.len(),
        forall|i: int|
            0 <= i < items@.len() ==> (#[trigger] r@[i].0@) == items@[i].inner_view()
                && wraps_styled(r@[i].1@, items@[i].inner_view()),
{
    let mut r: Vec<(String, String)> = Vec::new();
    let mut i: usize = 0;
    while i < items.len()
        invariant
            i <= items@.len(),
            r@.len() == i,
            forall|t: int|
                0 <= t < i ==> (#[trigger] r@[t].0@) == items@[t].inner_view() && wraps_styled(
                    r@[t].1@,
                    items@[t].inner_view(),
                ),
        decreases items@.len() - i,
    {
        let name = items[i].get_inner_str();
        let colored = items[i].get_colored_str();
        r.push((name, colored));
        i += 1;
    }
    r
}

/// Registered submodule names all render prefix blocks of one and the
/// same width: each name's padding fills its column exactly.
pub proof fn lemma_registered_prefix_aligned(
    program: Option<Seq<char>>,
    pad: PadLeft,
    m1: Seq<char>,
    m2: Seq<char>,
)
    requires
        pad.wf(),
        pad.contains_key(m1),
        pad.contains_key(m2),
    ensures
        prefix_block(program, Some(m1), pad.width as nat).len() == prefix_block(
            program,
            Some(m2),
            pad.width as nat,
        ).len(),
{
    lemma_registered_label_aligns(pad, m1);
    lemma_registered_label_aligns(pad, m2);
}

/// With no registered submodule names the column width is 0, and a bare
/// submodule renders with no padding at all: `[name]` exactly.
pub proof fn lemma_empty_table_prefix(m: Seq<char>)
    ensures
        prefix_block(None, Some(m), 0) == seq!['['] + m + seq![']'],
{
    assert(all_spaces(pad_width(0, m)) =~= Seq::<char>::empty());
    assert(prefix_block(None, Some(m), 0) =~= seq!['['] + m + seq![']']);
}

} // verus!
