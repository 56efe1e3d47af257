//! The builder: optional configuration accumulated field by field, then
//! one total `build` that fills every gap with its default. Building
//! cannot fail.

use std::sync::Arc;
use vstd::prelude::*;
use crate::buffer::LogBuffer;
use crate::color::GetColor;
use crate::color::wraps_styled;
use crate::log::Log;
use crate::log::Timestamp;
use crate::log::color_entries_contain;
use crate::log::color_entry_at;
use crate::log::default_levels;
use crate::log::level_map_matches;
use crate::log::render_levels;
use crate::padding::PadLeft;
use crate::padding::max_label_width;
use crate::program_name::ProgramName;

verus! {

/// Optional configuration for a `Log`: the buffer, the program-name
/// policy, the registered submodule names, the level set, and the
/// timestamp mode. Every field has a default.
pub struct Builder<B: LogBuffer> {
    pub buffer: B,
    pub program_name: Option<ProgramName>,
    pub submodule_names: Option<PadLeft>,
    pub levels: Option<Vec<(String, String)>>,
    pub timestamp: Timestamp,
}

impl<B: LogBuffer> Builder<B> {
    /// Choose the buffer the finished `Log` hands its lines to.
    pub fn with_buffer<B2: LogBuffer>(self, bfr: B2) -> (r: Builder<B2>)
        ensures
            r.buffer == bfr,
            r.program_name == self.program_name,
            r.submodule_names == self.submodule_names,
            r.levels == self.levels,
            r.timestamp == self.timestamp,
    {
        Builder {
            buffer: bfr,
            program_name: self.program_name,
            submodule_names: self.submodule_names,
            levels: self.levels,
            timestamp: self.timestamp,
        }
    }

    /// Choose the program-name policy.
    pub fn with_program_name(self, v: ProgramName) -> (r: Self)
        ensures
            r.program_name == Some(v),
            r.buffer == self.buffer,
            r.submodule_names == self.submodule_names,
            r.levels == self.levels,
            r.timestamp == self.timestamp,
    {
        Self { program_name: Some(v), ..self }
    }

    /// Register the submodule names that should align to one column.
    pub fn with_submodule_names(self, names: Vec<String>) -> (r: Self)
        ensures
            r.submodule_names matches Some(p) && {
                &&& p.wf()
                &&& p.width as nat == max_label_width(names@.map_values(|s: String| s@))
                &&& forall|i: int| 0 <= i < names@.len() ==> p.contains_key(names@[i]@)
                &&& forall|k: Seq<char>|
                    p.contains_key(k) ==> names@.map_values(|s: String| s@).contains(k)
            },
            r.buffer == self.buffer,
            r.program_name == self.program_name,
            r.levels == self.levels,
            r.timestamp == self.timestamp,
    {
        Self { submodule_names: Some(PadLeft::new(names)), ..self }
    }

    /// Choose the level set: each item renders to its name and display
    /// form.
    pub fn with_levels<T: GetColor>(self, items: Vec<T>) -> (r: Self)
        ensures
            r.levels matches Some(v) && {
                &&& v@.len() == items@.len()
                &&& forall|i: int|
                    0 <= i < items@.len() ==> (#[trigger] v@[i].0@) == items@[i].inner_view()
                        && wraps_styled(v@[i].1@, items@[i].inner_view())
            },
            r.buffer == self.buffer,
            r.program_name == self.program_name,
            r.submodule_names == self.submodule_names,
            r.timestamp == self.timestamp,
    {
        let rendered = render_levels(&items);
        Self { levels: Some(rendered), ..self }
    }

    /// Choose the timestamp mode.
    pub fn with_timestamp(self, t: Timestamp) -> (r: Self)
        ensures
            r.timestamp == t,
            r.buffer == self.buffer,
            r.program_name == self.program_name,
            r.submodule_names == self.submodule_names,
            r.levels == self.levels,
    {
        Self { timestamp: t, ..self }
    }

    /// Produce the finished, immutable `Log`. Building is total: a missing
    /// buffer was the no-op default from `Log::builder`, a missing policy
    /// means the build identifier, missing submodule names mean an empty
    /// table, and a missing level set means the four built-in levels.
    /// `crate_name` is the caller's environment snapshot of the build
    /// identifier, used only by the identifier policy.
    pub fn build(self, crate_name: Option<String>) -> (r: Arc<Log<B>>)
        requires
            self.submodule_names matches Some(p) ==> p.wf(),
        ensures
            r.wf(),
            r.timestamp == self.timestamp,
            ({
                let policy = match self.program_name {
                    Some(p) => p,
                    None => ProgramName::CrateName,
                };
                &&& policy is CrateName ==> r.program_name == crate_name
                &&& policy matches ProgramName::Custom(s) ==> r.program_name == Some(s)
                &&& policy is Disable ==> r.program_name is None
            }),
            self.submodule_names matches Some(p) ==> r.submodule_pad == p,
            self.submodule_names is None ==> r.submodule_pad.width == 0
                && r.submodule_pad.map@.len() == 0,
            self.levels matches Some(v) ==> {
                &&& level_map_matches(r.level_color@, v@)
                &&& r.level_pad.width as nat == max_label_width(
                    v@.map_values(|p: (String, String)| p.0@),
                )
                &&& forall|i: int| 0 <= i < v@.len() ==> r.level_pad.contains_key(v@[i].0@)
            },
            self.levels is None ==> {
                &&& color_entries_contain(r.level_color@, "INFO"@) && wraps_styled(
                    color_entry_at(r.level_color@, "INFO"@),
                    "INFO"@,
                )
                &&& color_entries_contain(r.level_color@, "OK"@) && wraps_styled(
                    color_entry_at(r.level_color@, "OK"@),
                    "OK"@,
                )
                &&& color_entries_contain(r.level_color@, "ERROR"@) && wraps_styled(
                    color_entry_at(r.level_color@, "ERROR"@),
                    "ERROR"@,
                )
                &&& color_entries_contain(r.level_color@, "DEBUG"@) && wraps_styled(
                    color_entry_at(r.level_color@, "DEBUG"@),
                    "DEBUG"@,
                )
                &&& r.level_pad.contains_key("INFO"@)
                &&& r.level_pad.contains_key("OK"@)
                &&& r.level_pad.contains_key("ERROR"@)
                &&& r.level_pad.contains_key("DEBUG"@)
            },
    {
        let policy = match self.program_name {
            Some(p) => p,
            None => ProgramName::CrateName,
        };
        let program_name = policy.try_to_string(crate_name);
        let submodule_pad = match self.submodule_names {
            Some(p) => p,
            None => {
                let no_names: Vec<String> = Vec::new();
                let ghost nv = no_names@;
                let empty = PadLeft::new(no_names);
                proof {
                    assert(nv.map_values(|s: String| s@) =~= Seq::<Seq<char>>::empty());
                    assert(crate::padding::max_label_width(Seq::<Seq<char>>::empty()) == 0);
                    if empty.map@.len() > 0 {
                        crate::padding::lemma_entries_contain_at(empty.map@, 0);
                        assert(empty.contains_key(empty.map@[0].0@));
                        assert(nv.map_values(|s: String| s@).contains(empty.map@[0].0@));
                        assert(false);
                    }
                }
                empty
            },
        };
        let ghost had_levels = self.levels;
        let levels: Vec<(String, String)> = match self.levels {
            Some(v) => v,
            None => render_levels(&default_levels()),
        };
        let r = Log::new_raw(self.buffer, program_name, submodule_pad, levels, self.timestamp);
        proof {
            if had_levels is None {
                reveal_strlit("INFO");
                reveal_strlit("OK");
                reveal_strlit("ERROR");
                reveal_strlit("DEBUG");
                assert("INFO"@.len() == 4 && "OK"@.len() == 2 && "ERROR"@.len() == 5
                    && "DEBUG"@.len() == 5);
                assert("ERROR"@[0] == 'E' && "DEBUG"@[0] == 'D');
                assert(levels@[0].0@ == "INFO"@ && levels@[1].0@ == "OK"@ && levels@[2].0@
                    == "ERROR"@ && levels@[3].0@ == "DEBUG"@);
                assert(forall|j: int| 0 <= j < 0 ==> (#[trigger] levels@[j].0@) != levels@[0].0@);
                assert(forall|j: int| 0 <= j < 1 ==> (#[trigger] levels@[j].0@) != levels@[1].0@);
                assert(forall|j: int| 0 <= j < 2 ==> (#[trigger] levels@[j].0@) != levels@[2].0@);
                assert(forall|j: int| 0 <= j < 3 ==> (#[trigger] levels@[j].0@) != levels@[3].0@);
            }
        }
        r
    }
}

impl Log<Option<()>> {
    /// Start from nothing: no buffer, no explicit policy, no names, no
    /// levels, no timestamp.
    pub fn builder() -> (r: Builder<Option<()>>)
        ensures
            r.buffer is None,
            r.program_name is None,
            r.submodule_names is None,
            r.levels is None,
            r.timestamp is Off,
    {
        Builder {
            buffer: None,
            program_name: None,
            submodule_names: None,
            levels: None,
            timestamp: Timestamp::Off,
        }
    }
}

} // verus!
