//! Left-padding tables: a finite set of labels is measured once, and each
//! label is later rendered right-aligned to the widest label's width.
//! Widths are counted in characters (Unicode scalar values), not bytes.

use vstd::prelude::*;
use vstd::string::StrSliceExecFns;
use vstd::string::StringExecFns;

verus! {

/// The number of spaces put before `label` so that it right-aligns in a
/// column of `width` characters: `width - len` when the label is shorter,
/// and none at all when it is as wide or wider.
pub open spec fn pad_width(width: nat, label: Seq<char>) -> nat {
    if label.len() < width {
        (width - label.len()) as nat
    } else {
        0
    }
}

/// A run of `n` spaces.
pub open spec fn all_spaces(n: nat) -> Seq<char> {
    Seq::new(n, |i: int| ' ')
}

/// The width, in characters, of the widest label (0 when there are none).
pub open spec fn max_label_width(labels: Seq<Seq<char>>) -> nat
    decreases labels.len(),
{
    if labels.len() == 0 {
        0
    } else {
        let rest = max_label_width(labels.drop_last());
        if labels.last().len() > rest {
            labels.last().len()
        } else {
            rest
        }
    }
}

/// No label is wider than the widest.
pub proof fn lemma_max_label_width_bounds(labels: Seq<Seq<char>>, i: int)
    requires
        0 <= i < labels.len(),
    ensures
        labels[i].len() <= max_label_width(labels),
    decreases labels.len(),
{
    if i == labels.len() - 1 {
        assert(labels.last() == labels[i]);
    } else {
        lemma_max_label_width_bounds(labels.drop_last(), i);
        assert(labels.drop_last()[i] == labels[i]);
    }
}

/// Compare two string slices character by character.
pub fn str_eq(a: &str, b: &str) -> (r: bool)
    ensures
        r == (a@ == b@),
{
    let alen = a.unicode_len();
    let blen = b.unicode_len();
    if alen != blen {
        return false;
    }
    let mut i: usize = 0;
    while i < alen
        invariant
            a@.len() == alen,
            b@.len() == blen,
            alen == blen,
            i <= alen,
            forall|j: int| 0 <= j < i ==> a@[j] == b@[j],
        decreases alen - i,
    {
        if a.get_char(i) != b.get_char(i) {
            return false;
        }
        i += 1;
    }
    proof {
        assert(a@ =~= b@);
    }
    true
}

/// A string of `n` spaces.
pub fn make_spaces(n: usize) -> (r: String)
    ensures
        r@ == all_spaces(n as nat),
{
    let mut s = String::new();
    let mut i: usize = 0;
    proof {
        reveal_strlit(" ");
        assert(s@ =~= all_spaces(0));
    }
    while i < n
        invariant
            i <= n,
            s@ == all_spaces(i as nat),
            " "@ =~= seq![' '],
        decreases n - i,
    {
        s.append(" ");
        i += 1;
        proof {
            assert(s@ =~= all_spaces(i as nat));
        }
    }
    s
}

/// Whether the entry list holds label `k`.
pub open spec fn entries_contain(m: Seq<(String, usize)>, k: Seq<char>) -> bool {
    exists|i: int| 0 <= i < m.len() && m[i].0@ == k
}

/// Entry keys are distinct, none is wider than `width`, and each stored
/// padding is exactly what its key needs to reach `width`.
pub open spec fn entries_wf(m: Seq<(String, usize)>, width: nat) -> bool {
    &&& forall|i: int, j: int| 0 <= i < j < m.len() ==> m[i].0@ != m[j].0@
    &&& forall|i: int| 0 <= i < m.len() ==> #[trigger] m[i].0@.len() <= width
    &&& forall|i: int| 0 <= i < m.len() ==> #[trigger] m[i].1 == width - m[i].0@.len()
}

/// The entry at a valid index is contained.
pub proof fn lemma_entries_contain_at(m: Seq<(String, usize)>, i: int)
    requires
        0 <= i < m.len(),
    ensures
        entries_contain(m, m[i].0@),
{
    assert(0 <= i < m.len() && m[i].0@ == m[i].0@);
}

/// A table that right-aligns a known set of labels: `width` is the widest
/// label's character count, and `map` holds, for each label, the number of
/// spaces it needs to reach `width`.
pub struct PadLeft {
    pub width: usize,
    pub map: Vec<(String, usize)>,
}

impl PadLeft {
    /// Whether `k` is a registered label.
    pub open spec fn contains_key(&self, k: Seq<char>) -> bool {
        entries_contain(self.map@, k)
    }

    /// Registered labels are distinct, none is wider than `width`, and each
    /// stored padding is exactly what the label needs to reach `width`.
    pub open spec fn wf(&self) -> bool {
        entries_wf(self.map@, self.width as nat)
    }

    /// Build a table from the given labels; duplicates collapse to one entry.
    pub fn new(labels: Vec<String>) -> (r: Self)
        ensures
            r.wf(),
            r.width as nat == max_label_width(labels@.map_values(|s: String| s@)),
            forall|i: int| 0 <= i < labels@.len() ==> r.contains_key(labels@[i]@),
            forall|k: Seq<char>|
                r.contains_key(k) ==> labels@.map_values(|s: String| s@).contains(k),
    {
        let (width, map) = to_pad_map_left(&labels);
        Self { width, map }
    }

    /// The padding owed to `k` followed by `k` itself, as one string.
    pub fn get(&self, k: &str) -> (r: String)
        requires
            self.wf(),
        ensures
            r@ == all_spaces(pad_width(self.width as nat, k@)) + k@,
    {
        let (padding, key) = self.get_split(k);
        padding.concat(key)
    }

    /// The padding owed to `k`, and `k` back. A registered label gets its
    /// stored padding; any other label gets `width - len` spaces when it is
    /// narrower than `width`, and none otherwise.
    pub fn get_split<'a>(&self, k: &'a str) -> (r: (String, &'a str))
        requires
            self.wf(),
        ensures
            r.0@ == all_spaces(pad_width(self.width as nat, k@)),
            r.1@ == k@,
    {
        let mut i: usize = 0;
        while i < self.map.len()
            invariant
                self.wf(),
                i <= self.map@.len(),
            decreases self.map@.len() - i,
        {
            if str_eq(self.map[i].0.as_str(), k) {
                return (make_spaces(self.map[i].1), k);
            }
            i += 1;
        }
        let letters_count = k.unicode_len();
        if letters_count < self.width {
            let n = self.width - letters_count;
            (make_spaces(n), k)
        } else {
            (make_spaces(0), k)
        }
    }
}

/// Measure the labels: the widest character count, and per label the number
/// of spaces that right-aligns it to that count. Duplicate labels collapse.
pub fn to_pad_map_left(labels: &Vec<String>) -> (r: (usize, Vec<(String, usize)>))
    ensures
        ({
            let table = PadLeft { width: r.0, map: r.1 };
            &&& table.wf()
            &&& r.0 as nat == max_label_width(labels@.map_values(|s: String| s@))
            &&& forall|i: int| 0 <= i < labels@.len() ==> table.contains_key(labels@[i]@)
            &&& forall|k: Seq<char>|
                table.contains_key(k) ==> labels@.map_values(|s: String| s@).contains(k)
        }),
{
    let ghost vs = labels@.map_values(|s: String| s@);
    let mut widest: usize = 0;
    let mut i: usize = 0;
    while i < labels.len()
        invariant
            vs == labels@.map_values(|s: String| s@),
            i <= labels@.len(),
            widest as nat == max_label_width(vs.subrange(0, i as int)),
        decreases labels@.len() - i,
    {
        let n = labels[i].as_str().unicode_len();
        if n > widest {
            widest = n;
        }
        i += 1;
        proof {
            assert(vs.subrange(0, i as int).drop_last() =~= vs.subrange(0, i - 1));
        }
    }
    proof {
        assert(vs.subrange(0, labels@.len() as int) =~= vs);
    }

    let mut map: Vec<(String, usize)> = Vec::new();
    let mut j: usize = 0;
    while j < labels.len()
        invariant
            vs == labels@.map_values(|s: String| s@),
            j <= labels@.len(),
            widest as nat == max_label_width(vs),
            entries_wf(map@, widest as nat),
            forall|t: int| 0 <= t < j ==> entries_contain(map@, vs[t]),
            forall|k: Seq<char>| entries_contain(map@, k) ==> vs.contains(k),
        decreases labels@.len() - j,
    {
        let s = &labels[j];
        proof {
            assert(vs[j as int] == labels@[j as int]@);
        }
        let ghost prev = map@;
        if !contains_label(&map, s.as_str()) {
            let n = s.as_str().unicode_len();
            proof {
                lemma_max_label_width_bounds(vs, j as int);
            }
            map.push((s.clone(), widest - n));
            proof {
                assert(map@.len() == prev.len() + 1);
                assert(map@[prev.len() as int].0@ == vs[j as int]);
                assert(forall|t: int| 0 <= t < prev.len() ==> map@[t] == prev[t]);
            }
        }
        proof {
            assert forall|t: int| 0 <= t < j + 1 implies entries_contain(map@, vs[t]) by {
                if t < j {
                    let w = choose|i: int| 0 <= i < prev.len() && prev[i].0@ == vs[t];
                    lemma_entries_contain_at(map@, w);
                } else {
                    if map@.len() == prev.len() + 1 {
                        lemma_entries_contain_at(map@, prev.len() as int);
                    } else {
                        let w = choose|i: int| 0 <= i < prev.len() && prev[i].0@ == vs[j as int];
                        lemma_entries_contain_at(map@, w);
                    }
                }
            }
            assert forall|k: Seq<char>| entries_contain(map@, k) implies vs.contains(k) by {
                let w = choose|i: int| 0 <= i < map@.len() && map@[i].0@ == k;
                if w < prev.len() {
                    assert(entries_contain(prev, k)) by {
                        lemma_entries_contain_at(prev, w);
                    }
                } else {
                    assert(vs[j as int] == k);
                }
            }
        }
        j += 1;
    }
    proof {
        assert forall|t: int| 0 <= t < labels@.len() implies entries_contain(
            map@,
            labels@[t]@,
        ) by {
            assert(vs[t] == labels@[t]@);
        }
    }
    (widest, map)
}

/// Whether the table already holds an entry for label `k`.
fn contains_label(map: &Vec<(String, usize)>, k: &str) -> (r: bool)
    ensures
        r == exists|i: int| 0 <= i < map@.len() && map@[i].0@ == k@,
{
    let mut i: usize = 0;
    while i < map.len()
        invariant
            i <= map@.len(),
            forall|t: int| 0 <= t < i ==> map@[t].0@ != k@,
        decreases map@.len() - i,
    {
        if str_eq(map[i].0.as_str(), k) {
            return true;
        }
        i += 1;
    }
    false
}

/// Every registered label, padded by its table, fills the common column
/// exactly: padding plus label width equals the table's width.
pub proof fn lemma_registered_label_aligns(p: PadLeft, k: Seq<char>)
    requires
        p.wf(),
        p.contains_key(k),
    ensures
        pad_width(p.width as nat, k) + k.len() == p.width,
{
}

} // verus!
