//! Header mappings: finite maps from header names to header values.

use vstd::prelude::*;

verus! {

/// The mapping that a sequence of header lines denotes when the lines are
/// entered one after the other: a later line replaces an earlier line of
/// the same name.
pub open spec fn lines_to_map(lines: Seq<(Seq<char>, Seq<char>)>) -> Map<Seq<char>, Seq<char>>
    decreases lines.len(),
{
    if lines.len() == 0 {
        Map::empty()
    } else {
        lines_to_map(lines.drop_last()).insert(lines.last().0, lines.last().1)
    }
}

/// No two lines carry the same name.
pub open spec fn names_distinct(lines: Seq<(Seq<char>, Seq<char>)>) -> bool {
    forall|i: int, j: int| 0 <= i < j < lines.len() ==> lines[i].0 != lines[j].0
}

/// The lines held by a vector of owned pairs.
pub open spec fn line_views(entries: Seq<(String, String)>) -> Seq<(Seq<char>, Seq<char>)> {
    entries.map_values(|e: (String, String)| (e.0@, e.1@))
}

/// The names of a mapping built from lines are exactly the names of the lines.
pub proof fn lemma_lines_to_map_names(lines: Seq<(Seq<char>, Seq<char>)>)
    ensures
        forall|k: Seq<char>| #[trigger]
            lines_to_map(lines).contains_key(k) <==> exists|i: int|
                0 <= i < lines.len() && #[trigger] lines[i].0 == k,
        lines_to_map(lines).dom().finite(),
    decreases lines.len(),
{
    if lines.len() > 0 {
        let front = lines.drop_last();
        lemma_lines_to_map_names(front);
        assert forall|k: Seq<char>| #[trigger]
            lines_to_map(lines).contains_key(k) implies exists|i: int|
            0 <= i < lines.len() && #[trigger] lines[i].0 == k by {
            if k == lines.last().0 {
                assert(lines[lines.len() - 1].0 == k);
            } else {
                let i = choose|i: int| 0 <= i < front.len() && #[trigger] front[i].0 == k;
                assert(lines[i].0 == k);
            }
        }
        assert forall|k: Seq<char>|
            (exists|i: int|
                0 <= i < lines.len() && #[trigger] lines[i].0 == k) implies #[trigger] lines_to_map(
            lines,
        ).contains_key(k) by {
            let i = choose|i: int| 0 <= i < lines.len() && #[trigger] lines[i].0 == k;
            if i < lines.len() - 1 {
                assert(front[i].0 == k);
            }
        }
    }
}

/// Where no name occurs twice, every line is found in the mapping under
/// its name.
pub proof fn lemma_lines_to_map_value(lines: Seq<(Seq<char>, Seq<char>)>, i: int)
    requires
        names_distinct(lines),
        0 <= i < lines.len(),
    ensures
        lines_to_map(lines).contains_key(lines[i].0),
        lines_to_map(lines)[lines[i].0] == lines[i].1,
    decreases lines.len(),
{
    if i < lines.len() - 1 {
        let front = lines.drop_last();
        assert(front[i] == lines[i]);
        lemma_lines_to_map_value(front, i);
    }
}

/// Where no name occurs twice, the mapping has as many names as there are
/// lines.
pub proof fn lemma_lines_to_map_len(lines: Seq<(Seq<char>, Seq<char>)>)
    requires
        names_distinct(lines),
    ensures
        lines_to_map(lines).dom().finite(),
        lines_to_map(lines).len() == lines.len(),
    decreases lines.len(),
{
    lemma_lines_to_map_names(lines);
    if lines.len() > 0 {
        let front = lines.drop_last();
        lemma_lines_to_map_len(front);
        lemma_lines_to_map_names(front);
        if lines_to_map(front).contains_key(lines.last().0) {
            let i = choose|i: int| 0 <= i < front.len() && #[trigger] front[i].0 == lines.last().0;
            assert(lines[i].0 == lines[lines.len() - 1].0);
        }
    }
}

/// A header mapping: each name occurs once, and the order of entry does
/// not matter.
#[derive(Debug)]
pub struct Headers {
    entries: Vec<(String, String)>,
}

impl View for Headers {
    type V = Map<Seq<char>, Seq<char>>;

    open spec fn view(&self) -> Map<Seq<char>, Seq<char>> {
        lines_to_map(self.lines())
    }
}

impl Clone for Headers {
    fn clone(&self) -> (copy: Self)
        ensures
            copy.lines() == self.lines(),
            copy@ == self@,
    {
        proof {
            use_type_invariant(self);
        }
        let mut entries: Vec<(String, String)> = Vec::new();
        let mut i: usize = 0;
        while i < self.entries.len()
            invariant
                i <= self.entries.len(),
                entries.len() == i,
                line_views(entries@) == self.lines().subrange(0, i as int),
            decreases self.entries.len() - i,
        {
            let ghost before = entries@;
            let name = self.entries[i].0.clone();
            let value = self.entries[i].1.clone();
            entries.push((name, value));
            assert forall|j: int| 0 <= j < i implies line_views(entries@)[j] == self.lines()[j] by {
                assert(line_views(before)[j] == self.lines().subrange(0, i as int)[j]);
            }
            i += 1;
            assert(line_views(entries@) =~= self.lines().subrange(0, i as int));
        }
        assert(self.lines().subrange(0, i as int) =~= self.lines());
        Headers { entries }
    }
}

impl PartialEq for Headers {
    /// Two mappings are equal when they hold the same values under the
    /// same names, in whatever order these were entered.
    fn eq(&self, other: &Headers) -> (same: bool) {
        proof {
            use_type_invariant(self);
            use_type_invariant(other);
            lemma_lines_to_map_len(self.lines());
            lemma_lines_to_map_len(other.lines());
            lemma_lines_to_map_names(self.lines());
        }
        if self.entries.len() != other.entries.len() {
            return false;
        }
        let mut i: usize = 0;
        while i < self.entries.len()
            invariant
                i <= self.entries.len(),
                names_distinct(self.lines()),
                forall|j: int|
                    0 <= j < i ==> other@.contains_key(#[trigger] self.lines()[j].0)
                        && other@[self.lines()[j].0] == self.lines()[j].1,
            decreases self.entries.len() - i,
        {
            proof {
                lemma_lines_to_map_value(self.lines(), i as int);
            }
            match other.get(&self.entries[i].0) {
                Some(value) => {
                    if !(*value == self.entries[i].1) {
                        return false;
                    }
                },
                None => {
                    return false;
                },
            }
            i += 1;
        }
        proof {
            let mine = self.lines();
            assert forall|name: Seq<char>| #[trigger] self@.contains_key(name) implies other@
                .contains_key(name) && other@[name] == self@[name] by {
                let j = choose|j: int| 0 <= j < mine.len() && #[trigger] mine[j].0 == name;
                lemma_lines_to_map_value(mine, j);
            }
            assert(self@.dom().subset_of(other@.dom()));
            vstd::set_lib::lemma_subset_equality(self@.dom(), other@.dom());
            assert(self@ =~= other@);
        }
        true
    }
}

impl vstd::std_specs::cmp::PartialEqSpecImpl for Headers {
    open spec fn obeys_eq_spec() -> bool {
        true
    }

    open spec fn eq_spec(&self, other: &Headers) -> bool {
        self@ == other@
    }
}

impl Headers {
    /// The entries as lines, in the order in which they are stored.
    pub closed spec fn lines(&self) -> Seq<(Seq<char>, Seq<char>)> {
        line_views(self.entries@)
    }

    #[verifier::type_invariant]
    spec fn well_formed(&self) -> bool {
        names_distinct(self.lines())
    }

    /// The empty mapping.
    pub fn new() -> (h: Headers)
        ensures
            h@ == Map::<Seq<char>, Seq<char>>::empty(),
            h.lines().len() == 0,
    {
        Headers { entries: Vec::new() }
    }

    /// The number of names in the mapping.
    pub fn len(&self) -> (n: usize)
        ensures
            n == self@.len(),
            n == self.lines().len(),
    {
        proof {
            use_type_invariant(self);
            lemma_lines_to_map_len(self.lines());
        }
        self.entries.len()
    }

    fn position(&self, name: &String) -> (found: Option<usize>)
        ensures
            match found {
                Some(i) => i < self.lines().len() && self.lines()[i as int].0 == name@,
                None => forall|j: int| 0 <= j < self.lines().len() ==> self.lines()[j].0 != name@,
            },
    {
        let mut i: usize = 0;
        while i < self.entries.len()
            invariant
                i <= self.entries.len(),
                forall|j: int| 0 <= j < i ==> self.lines()[j].0 != name@,
            decreases self.entries.len() - i,
        {
            if self.entries[i].0 == *name {
                return Some(i);
            }
            i += 1;
        }
        None
    }

    /// The value entered under `name`, if there is one.
    pub fn get(&self, name: &String) -> (value: Option<&String>)
        ensures
            match value {
                Some(v) => self@.contains_key(name@) && self@[name@] == v@,
                None => !self@.contains_key(name@),
            },
    {
        proof {
            use_type_invariant(self);
            lemma_lines_to_map_names(self.lines());
        }
        match self.position(name) {
            Some(i) => {
                proof {
                    lemma_lines_to_map_value(self.lines(), i as int);
                }
                Some(&self.entries[i].1)
            },
            None => None,
        }
    }

    /// Enters `value` under `name`, in place of any value entered under
    /// that name before.
    pub fn insert(&mut self, name: String, value: String)
        ensures
            final(self)@ == old(self)@.insert(name@, value@),
    {
        proof {
            use_type_invariant(&*self);
        }
        let ghost before = self.lines();
        let ghost line = (name@, value@);
        let found = self.position(&name);
        let mut taken = Headers::new();
        core::mem::swap(self, &mut taken);
        let mut entries = taken.entries;
        match found {
            Some(i) => {
                entries.set(i, (name, value));
                proof {
                    assert(line_views(entries@) =~= before.update(i as int, line));
                    lemma_update_line(before, i as int, line.1);
                }
            },
            None => {
                entries.push((name, value));
                proof {
                    let after = line_views(entries@);
                    assert(after =~= before.push(line));
                    assert(after.drop_last() =~= before);
                }
            },
        }
        *self = Headers { entries };
    }

    /// The entries as pairs, each name once.
    pub fn pairs(&self) -> (pairs: &Vec<(String, String)>)
        ensures
            line_views(pairs@) == self.lines(),
            names_distinct(line_views(pairs@)),
            lines_to_map(line_views(pairs@)) == self@,
    {
        proof {
            use_type_invariant(self);
        }
        &self.entries
    }

    /// The entries as a vector of pairs, each name once.
    pub fn into_pairs(self) -> (pairs: Vec<(String, String)>)
        ensures
            line_views(pairs@) == self.lines(),
            names_distinct(line_views(pairs@)),
            lines_to_map(line_views(pairs@)) == self@,
    {
        proof {
            use_type_invariant(&self);
        }
        self.entries
    }
}

/// Replacing the value of one line, where no name occurs twice, replaces
/// the value under that name and nothing else.
pub proof fn lemma_update_line(lines: Seq<(Seq<char>, Seq<char>)>, i: int, value: Seq<char>)
    requires
        names_distinct(lines),
        0 <= i < lines.len(),
    ensures
        names_distinct(lines.update(i, (lines[i].0, value))),
        lines_to_map(lines.update(i, (lines[i].0, value))) == lines_to_map(lines).insert(
            lines[i].0,
            value,
        ),
{
    let name = lines[i].0;
    let changed = lines.update(i, (name, value));
    assert(names_distinct(changed)) by {
        assert forall|a: int, b: int| 0 <= a < b < changed.len() implies changed[a].0
            != changed[b].0 by {
            assert(changed[a].0 == lines[a].0);
            assert(changed[b].0 == lines[b].0);
        }
    }
    lemma_lines_to_map_names(lines);
    lemma_lines_to_map_names(changed);
    let left = lines_to_map(changed);
    let right = lines_to_map(lines).insert(name, value);
    assert forall|k: Seq<char>| left.contains_key(k) <==> right.contains_key(k) by {
        if left.contains_key(k) {
            let j = choose|j: int| 0 <= j < changed.len() && #[trigger] changed[j].0 == k;
            assert(lines[j].0 == k);
        }
        if right.contains_key(k) && k != name {
            let j = choose|j: int| 0 <= j < lines.len() && #[trigger] lines[j].0 == k;
            assert(changed[j].0 == k);
        }
        if k == name {
            assert(changed[i].0 == k);
        }
    }
    assert forall|k: Seq<char>| left.contains_key(k) implies left[k] == right[k] by {
        let j = choose|j: int| 0 <= j < changed.len() && #[trigger] changed[j].0 == k;
        lemma_lines_to_map_value(changed, j);
        if j != i {
            assert(changed[j] == lines[j]);
            lemma_lines_to_map_value(lines, j);
        }
    }
    assert(left =~= right);
}

} // verus!
