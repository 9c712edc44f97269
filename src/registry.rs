//! The named file-type registry: an ordered mapping from a type name to its
//! glob patterns, and an append-only log of select / negate directives.

use vstd::prelude::*;

use crate::engine::{default_catalog, default_type_definitions, regex_is_match, regex_match};
use crate::error::Error;

verus! {

/// A type name is made of Unicode letters and digits only.
pub const TYPE_NAME_PATTERN: &'static str = "^[\\pL\\pN]+$";

/// The name that stands for every registered type in a selection.
pub const ALL_TYPES: &'static str = "all";

/// The text of each string of a sequence.
pub open spec fn texts(v: Seq<String>) -> Seq<Seq<char>> {
    v.map_values(|s: String| s@)
}

/// A name the registry accepts: it matches `TYPE_NAME_PATTERN` and is not the
/// reserved `all`.
pub open spec fn valid_type_name(name: Seq<char>) -> bool {
    name != ALL_TYPES@ && regex_match(TYPE_NAME_PATTERN@, name)
}

/// The mapping that parallel sequences of names and pattern lists describe.
pub open spec fn as_map(
    names: Seq<Seq<char>>,
    lists: Seq<Seq<Seq<char>>>,
) -> Map<Seq<char>, Seq<Seq<char>>> {
    Map::new(|k: Seq<char>| names.contains(k), |k: Seq<char>| lists[names.index_of(k)])
}

/// Well-formed registry contents: one list per name, no name twice, every
/// name valid and every list non-empty.
pub open spec fn wf_contents(names: Seq<Seq<char>>, lists: Seq<Seq<Seq<char>>>) -> bool {
    &&& names.len() == lists.len()
    &&& names.no_duplicates()
    &&& forall|i: int| 0 <= i < names.len() ==> valid_type_name(#[trigger] names[i])
    &&& forall|i: int| 0 <= i < lists.len() ==> (#[trigger] lists[i]).len() > 0
}

/// The contents after appending `pattern` to `name`: a new name goes last
/// with a list of one; a pattern already listed is not repeated.
pub open spec fn with_pattern(
    names: Seq<Seq<char>>,
    lists: Seq<Seq<Seq<char>>>,
    name: Seq<char>,
    pattern: Seq<char>,
) -> (Seq<Seq<char>>, Seq<Seq<Seq<char>>>) {
    if names.contains(name) {
        let i = names.index_of(name);
        if lists[i].contains(pattern) {
            (names, lists)
        } else {
            (names, lists.update(i, lists[i].push(pattern)))
        }
    } else {
        (names.push(name), lists.push(seq![pattern]))
    }
}

/// `patterns` in order, each kept at its first place only.
pub open spec fn distinct(patterns: Seq<Seq<char>>) -> Seq<Seq<char>>
    decreases patterns.len(),
{
    if patterns.len() == 0 {
        Seq::empty()
    } else {
        let prev = distinct(patterns.drop_last());
        if prev.contains(patterns.last()) {
            prev
        } else {
            prev.push(patterns.last())
        }
    }
}

/// The contents after setting `name` to `patterns`: a registered name keeps
/// its place and now maps to the patterns, repeats dropped; a new name goes
/// last; no patterns at all removes the name.
pub open spec fn with_list(
    names: Seq<Seq<char>>,
    lists: Seq<Seq<Seq<char>>>,
    name: Seq<char>,
    patterns: Seq<Seq<char>>,
) -> (Seq<Seq<char>>, Seq<Seq<Seq<char>>>) {
    if patterns.len() == 0 {
        if names.contains(name) {
            without(names, lists, name)
        } else {
            (names, lists)
        }
    } else if names.contains(name) {
        (names, lists.update(names.index_of(name), distinct(patterns)))
    } else {
        (names.push(name), lists.push(distinct(patterns)))
    }
}

/// The text of each (name, patterns) pair.
pub open spec fn items_view(v: Seq<(String, Vec<String>)>) -> Seq<(Seq<char>, Seq<Seq<char>>)> {
    v.map_values(|p: (String, Vec<String>)| (p.0@, texts(p.1@)))
}

/// The text of each pattern list.
pub open spec fn lists_view(v: Seq<Vec<String>>) -> Seq<Seq<Seq<char>>> {
    v.map_values(|g: Vec<String>| texts(g@))
}

/// Names and lists paired up, in order.
pub open spec fn pairs(
    names: Seq<Seq<char>>,
    lists: Seq<Seq<Seq<char>>>,
) -> Seq<(Seq<char>, Seq<Seq<char>>)> {
    Seq::new(names.len(), |i: int| (names[i], lists[i]))
}

/// The contents after setting each (name, patterns) pair in order.
pub open spec fn with_items(
    names: Seq<Seq<char>>,
    lists: Seq<Seq<Seq<char>>>,
    items: Seq<(Seq<char>, Seq<Seq<char>>)>,
) -> (Seq<Seq<char>>, Seq<Seq<Seq<char>>>)
    decreases items.len(),
{
    if items.len() == 0 {
        (names, lists)
    } else {
        let prev = with_items(names, lists, items.drop_last());
        with_list(prev.0, prev.1, items.last().0, items.last().1)
    }
}

/// Every pair that carries a pattern names a valid type.
pub open spec fn items_acceptable(items: Seq<(Seq<char>, Seq<Seq<char>>)>) -> bool {
    forall|i: int|
        0 <= i < items.len() ==> (#[trigger] items[i]).1.len() > 0 ==> valid_type_name(
            items[i].0,
        )
}

/// The contents without the entry of `name`.
pub open spec fn without(
    names: Seq<Seq<char>>,
    lists: Seq<Seq<Seq<char>>>,
    name: Seq<char>,
) -> (Seq<Seq<char>>, Seq<Seq<Seq<char>>>) {
    let i = names.index_of(name);
    (names.remove(i), lists.remove(i))
}

/// The directives that `select` (when `select` holds) or `negate` records
/// for `name`: one per registered name, in order, for `all`; else one.
pub open spec fn directives(
    names: Seq<Seq<char>>,
    select: bool,
    name: Seq<char>,
) -> Seq<(bool, Seq<char>)> {
    if name == ALL_TYPES@ {
        names.map_values(|n: Seq<char>| (select, n))
    } else {
        seq![(select, name)]
    }
}

/// The word that marks a select directive in a saved state.
pub const SELECT_WORD: &'static str = "select";

/// The word that marks a negate directive in a saved state.
pub const NEGATE_WORD: &'static str = "negate";

/// A selection log as saved: each directive as its word and its name.
pub open spec fn state_of(log: Seq<(bool, Seq<char>)>) -> Seq<(Seq<char>, Seq<char>)> {
    log.map_values(
        |d: (bool, Seq<char>)|
            (
                if d.0 {
                    SELECT_WORD@
                } else {
                    NEGATE_WORD@
                },
                d.1,
            ),
    )
}

/// A saved state every directive of which is a select or a negate of one
/// type, never of `all`.
pub open spec fn state_well_formed(state: Seq<(Seq<char>, Seq<char>)>) -> bool {
    forall|i: int|
        0 <= i < state.len() ==> ((#[trigger] state[i]).0 == SELECT_WORD@ || state[i].0
            == NEGATE_WORD@) && state[i].1 != ALL_TYPES@
}

/// A selection log every directive of which names one type, never `all`.
pub open spec fn log_well_formed(log: Seq<(bool, Seq<char>)>) -> bool {
    forall|i: int| 0 <= i < log.len() ==> (#[trigger] log[i]).1 != ALL_TYPES@
}

/// The selection log a well-formed saved state holds.
pub open spec fn log_of_state(state: Seq<(Seq<char>, Seq<char>)>) -> Seq<(bool, Seq<char>)> {
    state.map_values(|p: (Seq<char>, Seq<char>)| (p.0 == SELECT_WORD@, p.1))
}

/// The text of each (word, name) pair of a saved state.
pub open spec fn state_view(v: Seq<(String, String)>) -> Seq<(Seq<char>, Seq<char>)> {
    v.map_values(|p: (String, String)| (p.0@, p.1@))
}

/// The patterns a `setdefault` call falls back to.
pub open spec fn fallback(default: Option<Vec<String>>) -> Seq<Seq<char>> {
    match default {
        Some(d) => texts(d@),
        None => Seq::empty(),
    }
}

/// A selection directive: `(true, name)` selects, `(false, name)` negates.
#[derive(Clone, Debug)]
pub enum Selection {
    Select(String),
    Negate(String),
}

impl View for Selection {
    type V = (bool, Seq<char>);

    open spec fn view(&self) -> (bool, Seq<char>) {
        match self {
            Selection::Select(name) => (true, name@),
            Selection::Negate(name) => (false, name@),
        }
    }
}

/// A value the caller may have left out, told apart from every value the
/// caller could pass.
#[derive(Clone, Debug)]
pub enum Maybe<T> {
    Supplied(T),
    Missing,
}

/// The file-type registry.
#[derive(Debug, Clone)]
pub struct Types {
    names: Vec<String>,
    globs: Vec<Vec<String>>,
    selections: Vec<Selection>,
}

impl Types {
    /// The names, in order of first insertion.
    pub closed spec fn names(&self) -> Seq<Seq<char>> {
        texts(self.names@)
    }

    /// The pattern list of each name, in the same order.
    pub closed spec fn lists(&self) -> Seq<Seq<Seq<char>>> {
        lists_view(self.globs@)
    }

    /// The selection log.
    pub closed spec fn log(&self) -> Seq<(bool, Seq<char>)> {
        self.selections@.map_values(|s: Selection| s@)
    }

    /// The contents as a mapping from name to patterns.
    pub open spec fn mapping(&self) -> Map<Seq<char>, Seq<Seq<char>>> {
        as_map(self.names(), self.lists())
    }

    /// The names and their lists together.
    pub open spec fn contents(&self) -> (Seq<Seq<char>>, Seq<Seq<Seq<char>>>) {
        (self.names(), self.lists())
    }

    pub open spec fn wf(&self) -> bool {
        wf_contents(self.names(), self.lists()) && log_well_formed(self.log())
    }

    /// An empty registry with an empty log.
    pub fn new() -> (r: Types)
        ensures
            r.wf(),
            r.names() == Seq::<Seq<char>>::empty(),
            r.lists() == Seq::<Seq<Seq<char>>>::empty(),
            r.log() == Seq::<(bool, Seq<char>)>::empty(),
    {
        let r = Types { names: Vec::new(), globs: Vec::new(), selections: Vec::new() };
        proof {
            assert(r.names() =~= Seq::<Seq<char>>::empty());
            assert(r.lists() =~= Seq::<Seq<Seq<char>>>::empty());
            assert(r.log() =~= Seq::<(bool, Seq<char>)>::empty());
        }
        r
    }

    /// A registry holding `items`, set pair by pair as `update` does, with an
    /// empty log; fails when a pair that carries patterns has an invalid name.
    pub fn from_items(items: &Vec<(String, Vec<String>)>) -> (r: Result<Types, Error>)
        ensures
            r is Ok <==> items_acceptable(items_view(items@)),
            r matches Ok(t) ==> t.wf() && t.contents() == with_items(
                Seq::empty(),
                Seq::empty(),
                items_view(items@),
            ) && t.log() == Seq::<(bool, Seq<char>)>::empty(),
            r is Err ==> (r matches Err(Error::InvalidDefinition)),
    {
        let mut t = Types::new();
        match t.update(items) {
            Ok(()) => Ok(t),
            Err(e) => Err(e),
        }
    }

    /// Where `name` stands among the names, if it does.
    fn position(&self, name: &str) -> (r: Option<usize>)
        requires
            self.wf(),
        ensures
            r is None <==> !self.names().contains(name@),
            r matches Some(i) ==> i < self.names().len() && self.names()[i as int] == name@
                && self.names().index_of(name@) == i,
    {
        let key = name.to_owned();
        let mut i: usize = 0;
        while i < self.names.len()
            invariant
                self.wf(),
                key@ == name@,
                i <= self.names@.len(),
                forall|j: int| 0 <= j < i ==> self.names()[j] != name@,
            decreases self.names@.len() - i,
        {
            if self.names[i] == key {
                proof {
                    assert(self.names()[i as int] == name@);
                    assert(self.names().contains(name@));
                    assert(self.names().index_of(name@) == i) by {
                        let k = self.names().index_of(name@);
                        assert(self.names()[k] == name@);
                    }
                }
                return Some(i);
            }
            i = i + 1;
        }
        None
    }

    /// Appends `pattern` to the list of the valid name `name`.
    fn append_pattern(&mut self, name: &str, pattern: &str)
        requires
            old(self).wf(),
            valid_type_name(name@),
        ensures
            final(self).wf(),
            final(self).contents() == with_pattern(old(self).names(), old(self).lists(), name@, pattern@),
            final(self).log() == old(self).log(),
    {
        proof {
            lemma_with_pattern_wf(self.names(), self.lists(), name@, pattern@);
        }
        let ghost before = *self;
        match self.position(name) {
            Some(i) => {
                let mut list = self.globs.remove(i);
                if !contains_text(&list, pattern) {
                    list.push(pattern.to_owned());
                    proof {
                        assert(texts(list@) =~= before.lists()[i as int].push(pattern@));
                    }
                } else {
                    proof {
                        assert(texts(list@) =~= before.lists()[i as int]);
                    }
                }
                self.globs.insert(i, list);
                proof {
                    assert(self.names() =~= before.names());
                    if before.lists()[i as int].contains(pattern@) {
                        assert(self.lists() =~= before.lists());
                    } else {
                        assert(self.lists() =~= before.lists().update(
                            i as int,
                            before.lists()[i as int].push(pattern@),
                        ));
                    }
                }
            },
            None => {
                self.names.push(name.to_owned());
                let mut list: Vec<String> = Vec::new();
                list.push(pattern.to_owned());
                self.globs.push(list);
                proof {
                    assert(self.names() =~= before.names().push(name@));
                    assert(texts(list@) =~= seq![pattern@]);
                    assert(self.lists() =~= before.lists().push(seq![pattern@]));
                }
            },
        }
    }

    /// Appends `glob` to the patterns of `name`, registering the name first if
    /// it is new. Fails, changing nothing, when the name is not valid.
    pub fn add(&mut self, name: &str, glob: &str) -> (r: Result<(), Error>)
        requires
            old(self).wf(),
        ensures
            final(self).wf(),
            final(self).log() == old(self).log(),
            r is Ok <==> valid_type_name(name@),
            r is Ok ==> final(self).contents() == with_pattern(
                old(self).names(),
                old(self).lists(),
                name@,
                glob@,
            ),
            r is Err ==> (r matches Err(Error::InvalidDefinition)),
            r is Err ==> final(self).contents() == old(self).contents(),
    {
        if !is_valid_type_name(name) {
            return Err(Error::InvalidDefinition);
        }
        self.append_pattern(name, glob);
        Ok(())
    }

    /// The patterns of `name`, in order; fails when the name is absent.
    pub fn get_item(&self, name: &str) -> (r: Result<Vec<String>, Error>)
        requires
            self.wf(),
        ensures
            r is Ok <==> self.mapping().contains_key(name@),
            r matches Ok(v) ==> texts(v@) == self.mapping()[name@],
            r is Err ==> (r matches Err(Error::KeyNotFound { .. })),
            r matches Err(Error::KeyNotFound { key }) ==> key@ == name@,
    {
        match self.position(name) {
            Some(i) => Ok(copy_texts(&self.globs[i])),
            None => Err(Error::KeyNotFound { key: name.to_owned() }),
        }
    }

    /// The patterns of `key`, or `default` when the key is absent.
    pub fn get(&self, key: &str, default: Option<Vec<String>>) -> (r: Option<Vec<String>>)
        requires
            self.wf(),
        ensures
            self.mapping().contains_key(key@) ==> (r matches Some(v) && texts(v@)
                == self.mapping()[key@]),
            !self.mapping().contains_key(key@) ==> r == default,
    {
        match self.position(key) {
            Some(i) => Some(copy_texts(&self.globs[i])),
            None => default,
        }
    }

    /// The names, in order of first insertion.
    pub fn keys(&self) -> (r: Vec<String>)
        requires
            self.wf(),
        ensures
            texts(r@) == self.names(),
    {
        copy_texts(&self.names)
    }

    /// The pattern lists, in the order of their names.
    pub fn values(&self) -> (r: Vec<Vec<String>>)
        requires
            self.wf(),
        ensures
            lists_view(r@) == self.lists(),
    {
        let mut out: Vec<Vec<String>> = Vec::new();
        let mut i: usize = 0;
        while i < self.globs.len()
            invariant
                i <= self.globs@.len(),
                out@.len() == i,
                self.lists().len() == self.globs@.len(),
                lists_view(out@) == self.lists().subrange(0, i as int),
            decreases self.globs@.len() - i,
        {
            let copy = copy_texts(&self.globs[i]);
            proof {
                assert(texts(copy@) == self.lists()[i as int]);
            }
            let ghost prev = out@;
            out.push(copy);
            proof {
                assert forall|k: int| 0 <= k < prev.len() implies lists_view(out@)[k] == lists_view(
                    prev,
                )[k] by {
                    assert(out@[k] == prev[k]);
                }
            }
            proof {
                assert(lists_view(out@) =~= self.lists().subrange(0, i + 1));
            }
            i = i + 1;
        }
        proof {
            assert(self.lists().subrange(0, i as int) =~= self.lists());
        }
        out
    }

    /// The (name, patterns) pairs, in order of first insertion.
    pub fn items(&self) -> (r: Vec<(String, Vec<String>)>)
        requires
            self.wf(),
        ensures
            items_view(r@) == pairs(self.names(), self.lists()),
    {
        let mut out: Vec<(String, Vec<String>)> = Vec::new();
        let mut i: usize = 0;
        while i < self.names.len()
            invariant
                self.wf(),
                i <= self.names@.len(),
                out@.len() == i,
                items_view(out@) == pairs(self.names(), self.lists()).subrange(0, i as int),
            decreases self.names@.len() - i,
        {
            let copy = copy_texts(&self.globs[i]);
            let name = self.names[i].clone();
            proof {
                assert(texts(copy@) == self.lists()[i as int]);
                assert(name@ == self.names()[i as int]);
            }
            let ghost prev = out@;
            out.push((name, copy));
            proof {
                assert forall|k: int| 0 <= k < prev.len() implies items_view(out@)[k] == items_view(
                    prev,
                )[k] by {
                    assert(out@[k] == prev[k]);
                }
            }
            i = i + 1;
            proof {
                assert(items_view(out@) =~= pairs(self.names(), self.lists()).subrange(0, i as int));
            }
        }
        proof {
            assert(pairs(self.names(), self.lists()).subrange(0, i as int) =~= pairs(
                self.names(),
                self.lists(),
            ));
        }
        out
    }

    /// Sets `name` to `globs`: the name keeps its place if registered, goes
    /// last otherwise, and maps to the globs with repeats dropped. No globs
    /// at all remove the name. Fails, changing nothing, when globs are given
    /// for an invalid name.
    pub fn set_item(&mut self, name: &str, globs: &Vec<String>) -> (r: Result<(), Error>)
        requires
            old(self).wf(),
        ensures
            final(self).wf(),
            final(self).log() == old(self).log(),
            r is Ok <==> (globs@.len() == 0 || valid_type_name(name@)),
            r is Ok ==> final(self).contents() == with_list(
                old(self).names(),
                old(self).lists(),
                name@,
                texts(globs@),
            ),
            r is Err ==> (r matches Err(Error::InvalidDefinition)),
            r is Err ==> final(self).contents() == old(self).contents(),
    {
        if globs.len() == 0 {
            proof {
                assert(texts(globs@).len() == 0);
            }
            let _ = self.take(name);
            return Ok(());
        }
        if !is_valid_type_name(name) {
            return Err(Error::InvalidDefinition);
        }
        let list = distinct_texts(globs);
        proof {
            lemma_distinct_nonempty(texts(globs@));
        }
        let ghost before = *self;
        match self.position(name) {
            Some(i) => {
                self.globs.remove(i);
                self.globs.insert(i, list);
                proof {
                    assert(self.names() =~= before.names());
                    assert(self.lists() =~= before.lists().update(i as int, distinct(texts(globs@))));
                    lemma_with_list_wf(before.names(), before.lists(), name@, texts(globs@));
                }
            },
            None => {
                self.names.push(name.to_owned());
                self.globs.push(list);
                proof {
                    assert(self.names() =~= before.names().push(name@));
                    assert(self.lists() =~= before.lists().push(distinct(texts(globs@))));
                    lemma_with_list_wf(before.names(), before.lists(), name@, texts(globs@));
                }
            },
        }
        Ok(())
    }

    /// Removes `name` and its patterns; fails when the name is absent.
    pub fn remove(&mut self, name: &str) -> (r: Result<(), Error>)
        requires
            old(self).wf(),
        ensures
            final(self).wf(),
            final(self).log() == old(self).log(),
            r is Ok <==> old(self).mapping().contains_key(name@),
            r is Ok ==> final(self).contents() == without(old(self).names(), old(self).lists(), name@),
            r is Err ==> (r matches Err(Error::KeyNotFound { .. })),
            r is Err ==> final(self).contents() == old(self).contents(),
    {
        match self.take(name) {
            Some(_) => Ok(()),
            None => Err(Error::KeyNotFound { key: name.to_owned() }),
        }
    }

    /// Takes `name`'s entry out, handing back its patterns.
    fn take(&mut self, name: &str) -> (r: Option<Vec<String>>)
        requires
            old(self).wf(),
        ensures
            final(self).wf(),
            final(self).log() == old(self).log(),
            r is Some <==> old(self).mapping().contains_key(name@),
            r matches Some(v) ==> texts(v@) == old(self).mapping()[name@],
            r is Some ==> final(self).contents() == without(old(self).names(), old(self).lists(), name@),
            r is None ==> final(self).contents() == old(self).contents(),
    {
        match self.position(name) {
            Some(i) => {
                let ghost before = *self;
                proof {
                    lemma_without_wf(self.names(), self.lists(), name@);
                }
                self.names.remove(i);
                let list = self.globs.remove(i);
                proof {
                    assert(self.names() =~= before.names().remove(i as int));
                    assert(self.lists() =~= before.lists().remove(i as int));
                }
                Some(list)
            },
            None => None,
        }
    }

    /// Removes `key` and hands back its patterns; when the key is absent,
    /// hands back a supplied default, or fails when none was supplied.
    pub fn pop(&mut self, key: &str, default: Maybe<Vec<String>>) -> (r: Result<Vec<String>, Error>)
        requires
            old(self).wf(),
        ensures
            final(self).wf(),
            final(self).log() == old(self).log(),
            old(self).mapping().contains_key(key@) ==> (r matches Ok(v) && texts(v@)
                == old(self).mapping()[key@]),
            old(self).mapping().contains_key(key@) ==> final(self).contents() == without(
                old(self).names(),
                old(self).lists(),
                key@,
            ),
            !old(self).mapping().contains_key(key@) ==> final(self).contents() == old(
                self,
            ).contents(),
            !old(self).mapping().contains_key(key@) ==> match default {
                Maybe::Supplied(d) => r == Ok::<Vec<String>, Error>(d),
                Maybe::Missing => r matches Err(Error::KeyNotFound { key: k }) && k@ == key@,
            },
    {
        match self.take(key) {
            Some(list) => Ok(list),
            None => match default {
                Maybe::Supplied(d) => Ok(d),
                Maybe::Missing => Err(Error::KeyNotFound { key: key.to_owned() }),
            },
        }
    }

    /// Removes and hands back the most recently registered entry; fails when
    /// the registry is empty.
    pub fn popitem(&mut self) -> (r: Result<(String, Vec<String>), Error>)
        requires
            old(self).wf(),
        ensures
            final(self).wf(),
            final(self).log() == old(self).log(),
            r is Ok <==> old(self).names().len() > 0,
            r matches Ok(p) ==> p.0@ == old(self).names().last() && texts(p.1@) == old(
                self,
            ).lists().last(),
            r is Ok ==> final(self).contents() == (
                old(self).names().drop_last(),
                old(self).lists().drop_last(),
            ),
            r is Err ==> (r matches Err(Error::EmptyRegistry)),
            r is Err ==> final(self).contents() == old(self).contents(),
    {
        let ghost before = *self;
        match self.names.pop() {
            Some(name) => match self.globs.pop() {
                Some(list) => {
                    proof {
                        assert(self.names() =~= before.names().drop_last());
                        assert(self.lists() =~= before.lists().drop_last());
                        assert(wf_contents(self.names(), self.lists())) by {
                            assert forall|a: int, b: int|
                                0 <= a < b < self.names().len() implies self.names()[a]
                                != self.names()[b] by {
                                assert(self.names()[a] == before.names()[a]);
                                assert(self.names()[b] == before.names()[b]);
                            }
                            assert forall|i: int| 0 <= i < self.names().len() implies valid_type_name(
                                #[trigger] self.names()[i],
                            ) by {
                                assert(self.names()[i] == before.names()[i]);
                            }
                            assert forall|i: int| 0 <= i < self.lists().len() implies (
                            #[trigger] self.lists()[i]).len() > 0 by {
                                assert(self.lists()[i] == before.lists()[i]);
                            }
                        }
                    }
                    Ok((name, list))
                },
                None => Err(Error::EmptyRegistry),
            },
            None => Err(Error::EmptyRegistry),
        }
    }

    /// Removes every entry; the selection log stays.
    pub fn clear(&mut self)
        requires
            old(self).wf(),
        ensures
            final(self).wf(),
            final(self).log() == old(self).log(),
            final(self).names() == Seq::<Seq<char>>::empty(),
            final(self).lists() == Seq::<Seq<Seq<char>>>::empty(),
    {
        self.names.clear();
        self.globs.clear();
        proof {
            assert(self.names() =~= Seq::<Seq<char>>::empty());
            assert(self.lists() =~= Seq::<Seq<Seq<char>>>::empty());
        }
    }

    /// Sets each (name, patterns) pair in order, as `set_item` does. Fails,
    /// changing nothing, when a pair that carries patterns has an invalid name.
    pub fn update(&mut self, other: &Vec<(String, Vec<String>)>) -> (r: Result<(), Error>)
        requires
            old(self).wf(),
        ensures
            final(self).wf(),
            final(self).log() == old(self).log(),
            r is Ok <==> items_acceptable(items_view(other@)),
            r is Ok ==> final(self).contents() == with_items(
                old(self).names(),
                old(self).lists(),
                items_view(other@),
            ),
            r is Err ==> (r matches Err(Error::InvalidDefinition)),
            r is Err ==> final(self).contents() == old(self).contents(),
    {
        let ghost items = items_view(other@);
        let mut k: usize = 0;
        while k < other.len()
            invariant
                items == items_view(other@),
                self.wf(),
                *self == *old(self),
                k <= other@.len(),
                forall|j: int|
                    0 <= j < k ==> (#[trigger] items[j]).1.len() > 0 ==> valid_type_name(
                        items[j].0,
                    ),
            decreases other@.len() - k,
        {
            if other[k].1.len() > 0 && !is_valid_type_name(other[k].0.as_str()) {
                proof {
                    assert(items[k as int].1.len() > 0 && !valid_type_name(items[k as int].0));
                }
                return Err(Error::InvalidDefinition);
            }
            k = k + 1;
        }
        let ghost before = *self;
        let mut i: usize = 0;
        while i < other.len()
            invariant
                items == items_view(other@),
                items_acceptable(items),
                self.wf(),
                self.log() == before.log(),
                i <= other@.len(),
                self.contents() == with_items(
                    before.names(),
                    before.lists(),
                    items.subrange(0, i as int),
                ),
            decreases other@.len() - i,
        {
            proof {
                let next = items.subrange(0, i + 1);
                assert(next.drop_last() =~= items.subrange(0, i as int));
                assert(next.last() == items[i as int]);
            }
            let res = self.set_item(other[i].0.as_str(), &other[i].1);
            proof {
                assert(items[i as int].1.len() > 0 ==> valid_type_name(items[i as int].0));
            }
            i = i + 1;
        }
        proof {
            assert(items.subrange(0, i as int) =~= items);
        }
        Ok(())
    }

    /// The patterns of `key`; when the key is absent, first sets it to
    /// `default` (no patterns when none is given) and hands that back.
    pub fn setdefault(&mut self, key: &str, default: Option<Vec<String>>) -> (r: Result<
        Vec<String>,
        Error,
    >)
        requires
            old(self).wf(),
        ensures
            final(self).wf(),
            final(self).log() == old(self).log(),
            old(self).mapping().contains_key(key@) ==> (r matches Ok(v) && texts(v@)
                == old(self).mapping()[key@]),
            old(self).mapping().contains_key(key@) ==> final(self).contents() == old(
                self,
            ).contents(),
            !old(self).mapping().contains_key(key@) ==> (r is Ok <==> (fallback(default).len()
                == 0 || valid_type_name(key@))),
            !old(self).mapping().contains_key(key@) ==> (r matches Ok(v) ==> texts(v@)
                == fallback(default)),
            !old(self).mapping().contains_key(key@) && r is Ok ==> final(self).contents()
                == with_list(old(self).names(), old(self).lists(), key@, fallback(default)),
            r is Err ==> (r matches Err(Error::InvalidDefinition)),
            r is Err ==> final(self).contents() == old(self).contents(),
    {
        match self.position(key) {
            Some(i) => Ok(copy_texts(&self.globs[i])),
            None => {
                let d = match default {
                    Some(d) => d,
                    None => Vec::new(),
                };
                proof {
                    assert(texts(d@) =~= fallback(default));
                }
                match self.set_item(key, &d) {
                    Ok(()) => Ok(d),
                    Err(e) => Err(e),
                }
            },
        }
    }

    /// Registers the engine's built-in catalog of file types, name by name.
    pub fn add_defaults(&mut self) -> (r: Result<(), Error>)
        requires
            old(self).wf(),
        ensures
            final(self).wf(),
            final(self).log() == old(self).log(),
            r is Ok <==> items_acceptable(default_catalog(())),
            r is Ok ==> final(self).contents() == with_items(
                old(self).names(),
                old(self).lists(),
                default_catalog(()),
            ),
            r is Err ==> final(self).contents() == old(self).contents(),
    {
        let catalog = default_type_definitions();
        self.update(&catalog)
    }

    /// Records a directive for `name`, or one for each registered name, in
    /// order, when `name` is `all`.
    fn record(&mut self, select: bool, name: &str)
        requires
            old(self).wf(),
        ensures
            final(self).wf(),
            final(self).contents() == old(self).contents(),
            final(self).log() == old(self).log() + directives(old(self).names(), select, name@),
    {
        let ghost before = *self;
        if name.to_owned() == ALL_TYPES.to_owned() {
            let mut i: usize = 0;
            while i < self.names.len()
                invariant
                    self.wf(),
                    self.contents() == before.contents(),
                    name@ == ALL_TYPES@,
                    i <= self.names@.len(),
                    self.log() == before.log() + directives(before.names(), select, name@).subrange(
                        0,
                        i as int,
                    ),
                decreases self.names@.len() - i,
            {
                let n = self.names[i].clone();
                let d = if select {
                    Selection::Select(n)
                } else {
                    Selection::Negate(n)
                };
                let ghost prev = self.log();
                self.selections.push(d);
                i = i + 1;
                proof {
                    assert(self.log() =~= prev.push((select, before.names()[i - 1])));
                    assert(self.log() =~= before.log() + directives(
                        before.names(),
                        select,
                        name@,
                    ).subrange(0, i as int));
                }
            }
            proof {
                assert(directives(before.names(), select, name@).subrange(0, i as int)
                    =~= directives(before.names(), select, name@));
            }
        } else {
            let n = name.to_owned();
            let d = if select {
                Selection::Select(n)
            } else {
                Selection::Negate(n)
            };
            self.selections.push(d);
            proof {
                assert(self.log() =~= before.log() + directives(before.names(), select, name@));
            }
        }
    }

    /// Selects the file type `name`; `all` selects every type registered at
    /// the time of the call.
    pub fn select(&mut self, name: &str)
        requires
            old(self).wf(),
        ensures
            final(self).wf(),
            final(self).contents() == old(self).contents(),
            final(self).log() == old(self).log() + directives(old(self).names(), true, name@),
    {
        self.record(true, name)
    }

    /// Negates the file type `name`; `all` negates every type registered at
    /// the time of the call.
    pub fn negate(&mut self, name: &str)
        requires
            old(self).wf(),
        ensures
            final(self).wf(),
            final(self).contents() == old(self).contents(),
            final(self).log() == old(self).log() + directives(old(self).names(), false, name@),
    {
        self.record(false, name)
    }

    /// The selection log, in order.
    pub fn selections(&self) -> (r: Vec<Selection>)
        ensures
            r@.map_values(|s: Selection| s@) == self.log(),
    {
        let mut out: Vec<Selection> = Vec::new();
        let mut i: usize = 0;
        while i < self.selections.len()
            invariant
                i <= self.selections@.len(),
                out@.len() == i,
                out@.map_values(|s: Selection| s@) == self.log().subrange(0, i as int),
            decreases self.selections@.len() - i,
        {
            let d = match &self.selections[i] {
                Selection::Select(n) => Selection::Select(n.clone()),
                Selection::Negate(n) => Selection::Negate(n.clone()),
            };
            let ghost prev = out@;
            out.push(d);
            proof {
                assert forall|k: int| 0 <= k < prev.len() implies out@[k]@ == prev[k]@ by {
                    assert(out@[k] == prev[k]);
                }
            }
            i = i + 1;
            proof {
                assert(out@.map_values(|s: Selection| s@) =~= self.log().subrange(0, i as int));
            }
        }
        proof {
            assert(self.log().subrange(0, i as int) =~= self.log());
        }
        out
    }

    /// The selection log as saved: a (word, name) pair per directive.
    pub fn get_state(&self) -> (r: Vec<(String, String)>)
        ensures
            state_view(r@) == state_of(self.log()),
    {
        let mut out: Vec<(String, String)> = Vec::new();
        let mut i: usize = 0;
        while i < self.selections.len()
            invariant
                i <= self.selections@.len(),
                out@.len() == i,
                state_view(out@) == state_of(self.log()).subrange(0, i as int),
            decreases self.selections@.len() - i,
        {
            let pair = match &self.selections[i] {
                Selection::Select(n) => (SELECT_WORD.to_owned(), n.clone()),
                Selection::Negate(n) => (NEGATE_WORD.to_owned(), n.clone()),
            };
            let ghost prev = out@;
            out.push(pair);
            proof {
                assert forall|k: int| 0 <= k < prev.len() implies state_view(out@)[k] == state_view(
                    prev,
                )[k] by {
                    assert(out@[k] == prev[k]);
                }
            }
            i = i + 1;
            proof {
                assert(state_view(out@) =~= state_of(self.log()).subrange(0, i as int));
            }
        }
        proof {
            assert(state_of(self.log()).subrange(0, i as int) =~= state_of(self.log()));
        }
        out
    }

    /// Replaces the selection log with the one a saved state holds; fails,
    /// changing nothing, when a directive is neither a select nor a negate.
    pub fn set_state(&mut self, state: &Vec<(String, String)>) -> (r: Result<(), Error>)
        requires
            old(self).wf(),
        ensures
            final(self).wf(),
            final(self).contents() == old(self).contents(),
            r is Ok <==> state_well_formed(state_view(state@)),
            r is Ok ==> final(self).log() == log_of_state(state_view(state@)),
            r is Err ==> (r matches Err(Error::InvalidState)),
            r is Err ==> final(self).log() == old(self).log(),
    {
        let ghost sv = state_view(state@);
        let select_word = SELECT_WORD.to_owned();
        let negate_word = NEGATE_WORD.to_owned();
        let all_word = ALL_TYPES.to_owned();
        let mut out: Vec<Selection> = Vec::new();
        let mut i: usize = 0;
        while i < state.len()
            invariant
                sv == state_view(state@),
                self.wf(),
                *self == *old(self),
                select_word@ == SELECT_WORD@,
                negate_word@ == NEGATE_WORD@,
                all_word@ == ALL_TYPES@,
                i <= state@.len(),
                out@.len() == i,
                forall|j: int| 0 <= j < i ==> ((#[trigger] sv[j]).0 == SELECT_WORD@ || sv[j].0
                    == NEGATE_WORD@) && sv[j].1 != ALL_TYPES@,
                out@.map_values(|s: Selection| s@) == log_of_state(sv).subrange(0, i as int),
            decreases state@.len() - i,
        {
            if state[i].1 == all_word {
                proof {
                    assert(!state_well_formed(sv)) by {
                        assert(sv[i as int].1 == ALL_TYPES@);
                    }
                }
                return Err(Error::InvalidState);
            }
            let d = if state[i].0 == select_word {
                Selection::Select(state[i].1.clone())
            } else if state[i].0 == negate_word {
                proof {
                    reveal_strlit("select");
                    reveal_strlit("negate");
                }
                Selection::Negate(state[i].1.clone())
            } else {
                proof {
                    assert(!state_well_formed(sv)) by {
                        assert(sv[i as int].0 != SELECT_WORD@ && sv[i as int].0 != NEGATE_WORD@);
                    }
                }
                return Err(Error::InvalidState);
            };
            let ghost prev = out@;
            out.push(d);
            proof {
                assert forall|k: int| 0 <= k < prev.len() implies out@[k]@ == prev[k]@ by {
                    assert(out@[k] == prev[k]);
                }
            }
            i = i + 1;
            proof {
                assert(out@.map_values(|s: Selection| s@) =~= log_of_state(sv).subrange(0, i as int));
            }
        }
        proof {
            assert(log_of_state(sv).subrange(0, i as int) =~= log_of_state(sv));
            assert(log_well_formed(log_of_state(sv)));
        }
        self.selections = out;
        Ok(())
    }

    /// Whether both registries map the same names to the same pattern lists;
    /// the selection logs play no part.
    pub fn same_contents(&self, other: &Types) -> (r: bool)
        requires
            self.wf(),
            other.wf(),
        ensures
            r == (self.mapping() == other.mapping()),
    {
        proof {
            lemma_map_size(self.names(), self.lists());
            lemma_map_size(other.names(), other.lists());
        }
        if self.names.len() != other.names.len() {
            return false;
        }
        let mut i: usize = 0;
        while i < self.names.len()
            invariant
                self.wf(),
                other.wf(),
                self.names@.len() == other.names@.len(),
                i <= self.names@.len(),
                forall|j: int|
                    0 <= j < i ==> other.mapping().contains_key(#[trigger] self.names()[j])
                        && other.mapping()[self.names()[j]] == self.lists()[j],
            decreases self.names@.len() - i,
        {
            let ghost k = self.names()[i as int];
            proof {
                lemma_index_of_unique(self.names(), i as int);
            }
            match other.position(self.names[i].as_str()) {
                None => {
                    proof {
                        assert(self.mapping().contains_key(k));
                        assert(!other.mapping().contains_key(k));
                    }
                    return false;
                },
                Some(j) => {
                    if !same_texts(&self.globs[i], &other.globs[j]) {
                        proof {
                            assert(self.mapping()[k] == self.lists()[i as int]);
                            assert(other.mapping()[k] == other.lists()[j as int]);
                        }
                        return false;
                    }
                },
            }
            i = i + 1;
        }
        proof {
            let a = self.mapping();
            let b = other.mapping();
            assert(a.dom().subset_of(b.dom())) by {
                assert forall|k: Seq<char>| a.dom().contains(k) implies b.dom().contains(k) by {
                    let j = self.names().index_of(k);
                    assert(self.names()[j] == k);
                }
            }
            vstd::set_lib::lemma_subset_equality(a.dom(), b.dom());
            assert forall|k: Seq<char>| a.dom().contains(k) implies a[k] == b[k] by {
                let j = self.names().index_of(k);
                assert(self.names()[j] == k);
                lemma_index_of_unique(self.names(), j);
            }
            assert(a =~= b);
        }
        true
    }

    /// Whether `name` is registered.
    pub fn contains(&self, name: &str) -> (r: bool)
        requires
            self.wf(),
        ensures
            r == self.mapping().contains_key(name@),
    {
        self.position(name).is_some()
    }

    /// The number of registered names.
    pub fn len(&self) -> (r: usize)
        requires
            self.wf(),
        ensures
            r == self.names().len(),
            r == self.mapping().dom().len(),
    {
        proof {
            lemma_map_size(self.names(), self.lists());
        }
        self.names.len()
    }
}

/// Whether `name` is a name the registry accepts.
pub fn is_valid_type_name(name: &str) -> (r: bool)
    ensures
        r == valid_type_name(name@),
{
    let reserved = ALL_TYPES.to_owned();
    if name.to_owned() == reserved {
        false
    } else {
        regex_is_match(TYPE_NAME_PATTERN, name)
    }
}

/// A copy of `v`.
fn copy_texts(v: &Vec<String>) -> (r: Vec<String>)
    ensures
        r@ == v@,
        texts(r@) == texts(v@),
{
    let mut out: Vec<String> = Vec::new();
    let mut i: usize = 0;
    while i < v.len()
        invariant
            i <= v@.len(),
            out@ == v@.subrange(0, i as int),
        decreases v@.len() - i,
    {
        out.push(v[i].clone());
        i = i + 1;
        proof {
            assert(out@ =~= v@.subrange(0, i as int));
        }
    }
    proof {
        assert(v@.subrange(0, i as int) =~= v@);
    }
    out
}

/// `globs` in order, each kept at its first place only.
fn distinct_texts(globs: &Vec<String>) -> (r: Vec<String>)
    ensures
        texts(r@) == distinct(texts(globs@)),
{
    let mut out: Vec<String> = Vec::new();
    let mut i: usize = 0;
    proof {
        assert(texts(globs@).subrange(0, 0) =~= Seq::<Seq<char>>::empty());
        assert(texts(out@) =~= Seq::<Seq<char>>::empty());
    }
    while i < globs.len()
        invariant
            i <= globs@.len(),
            texts(out@) == distinct(texts(globs@).subrange(0, i as int)),
        decreases globs@.len() - i,
    {
        proof {
            let next = texts(globs@).subrange(0, i + 1);
            assert(next.drop_last() =~= texts(globs@).subrange(0, i as int));
            assert(next.last() == globs@[i as int]@);
        }
        if !contains_text(&out, globs[i].as_str()) {
            let ghost prev = out@;
            out.push(globs[i].clone());
            proof {
                assert(texts(out@) =~= texts(prev).push(globs@[i as int]@));
            }
        }
        i = i + 1;
    }
    proof {
        assert(texts(globs@).subrange(0, i as int) =~= texts(globs@));
    }
    out
}

/// Whether two lists hold the same texts, in the same order.
fn same_texts(a: &Vec<String>, b: &Vec<String>) -> (r: bool)
    ensures
        r == (texts(a@) == texts(b@)),
{
    if a.len() != b.len() {
        proof {
            assert(texts(a@).len() != texts(b@).len());
        }
        return false;
    }
    let mut i: usize = 0;
    while i < a.len()
        invariant
            a@.len() == b@.len(),
            i <= a@.len(),
            forall|j: int| 0 <= j < i ==> texts(a@)[j] == texts(b@)[j],
        decreases a@.len() - i,
    {
        if a[i] != b[i] {
            proof {
                assert(texts(a@)[i as int] != texts(b@)[i as int]);
            }
            return false;
        }
        i = i + 1;
    }
    proof {
        assert(texts(a@) =~= texts(b@));
    }
    true
}

/// Whether `text` is among `list`.
fn contains_text(list: &Vec<String>, text: &str) -> (r: bool)
    ensures
        r == texts(list@).contains(text@),
{
    let key = text.to_owned();
    let mut i: usize = 0;
    while i < list.len()
        invariant
            key@ == text@,
            i <= list@.len(),
            forall|j: int| 0 <= j < i ==> texts(list@)[j] != text@,
        decreases list@.len() - i,
    {
        if list[i] == key {
            proof {
                assert(texts(list@)[i as int] == text@);
            }
            return true;
        }
        i = i + 1;
    }
    false
}

/// Appending a pattern to a valid name keeps the contents well formed.
pub proof fn lemma_with_pattern_wf(
    names: Seq<Seq<char>>,
    lists: Seq<Seq<Seq<char>>>,
    name: Seq<char>,
    pattern: Seq<char>,
)
    requires
        wf_contents(names, lists),
        valid_type_name(name),
    ensures
        wf_contents(with_pattern(names, lists, name, pattern).0, with_pattern(names, lists, name, pattern).1),
{
    if !names.contains(name) {
        let n2 = names.push(name);
        assert forall|a: int, b: int| 0 <= a < b < n2.len() implies n2[a] != n2[b] by {
            if b == names.len() {
                assert(names[a] == n2[a]);
            }
        }
        let l2 = lists.push(seq![pattern]);
        assert forall|i: int| 0 <= i < l2.len() implies (#[trigger] l2[i]).len() > 0 by {
            if i < lists.len() {
                assert(l2[i] == lists[i]);
            }
        }
        assert forall|i: int| 0 <= i < n2.len() implies valid_type_name(#[trigger] n2[i]) by {
            if i < names.len() {
                assert(n2[i] == names[i]);
            }
        }
    } else {
        let i = names.index_of(name);
        let l2 = lists.update(i, lists[i].push(pattern));
        assert forall|j: int| 0 <= j < l2.len() implies (#[trigger] l2[j]).len() > 0 by {
            if j != i {
                assert(l2[j] == lists[j]);
            }
        }
    }
}

/// Saving a selection log and restoring it gives back the same log,
/// duplicates and order included, and the saved form is always accepted.
pub proof fn lemma_state_round_trip(log: Seq<(bool, Seq<char>)>)
    requires
        log_well_formed(log),
    ensures
        state_well_formed(state_of(log)),
        log_of_state(state_of(log)) == log,
{
    reveal_strlit("select");
    reveal_strlit("negate");
    assert(SELECT_WORD@ != NEGATE_WORD@) by {
        assert(SELECT_WORD@[0] != NEGATE_WORD@[0]);
    }
    assert(log_of_state(state_of(log)) =~= log);
}

/// After a pattern is added under a name not yet registered, the name is
/// registered with exactly that one pattern; the reserved `all` is never a
/// valid name.
pub proof fn lemma_add_fresh_name(
    names: Seq<Seq<char>>,
    lists: Seq<Seq<Seq<char>>>,
    name: Seq<char>,
    pattern: Seq<char>,
)
    requires
        wf_contents(names, lists),
        valid_type_name(name),
        !names.contains(name),
    ensures
        as_map(with_pattern(names, lists, name, pattern).0, with_pattern(names, lists, name, pattern).1).contains_key(name),
        as_map(with_pattern(names, lists, name, pattern).0, with_pattern(names, lists, name, pattern).1)[name]
            == seq![pattern],
        !valid_type_name(ALL_TYPES@),
{
    lemma_with_pattern_wf(names, lists, name, pattern);
    let n2 = names.push(name);
    assert(n2[names.len() as int] == name);
    lemma_index_of_unique(n2, names.len() as int);
}

/// Two registries with the same names and pattern lists are equal whatever
/// their selection logs hold.
pub proof fn lemma_equality_ignores_log(a: Types, b: Types)
    requires
        a.wf(),
        b.wf(),
        a.contents() == b.contents(),
    ensures
        a.mapping() == b.mapping(),
{
}

/// `select("all")` records one directive per name registered at that time;
/// names registered afterwards add none: with `t1` the registry after the
/// selection and `t2` after any number of `add` calls, the directives past
/// the old log are exactly the old names, in order.
pub proof fn lemma_select_all_fixed_at_call(t0: Types, t1: Types, t2: Types)
    requires
        t0.wf(),
        t1.log() == t0.log() + directives(t0.names(), true, ALL_TYPES@),
        t2.log() == t1.log(),
    ensures
        t2.log().len() == t0.log().len() + t0.names().len(),
        forall|i: int|
            0 <= i < t0.names().len() ==> t2.log()[t0.log().len() + i] == (
                true,
                #[trigger] t0.names()[i],
            ),
{
}

/// Dropping repeats leaves at least one pattern of a non-empty list.
pub proof fn lemma_distinct_nonempty(patterns: Seq<Seq<char>>)
    requires
        patterns.len() > 0,
    ensures
        distinct(patterns).len() > 0,
    decreases patterns.len(),
{
    let prev = distinct(patterns.drop_last());
    if patterns.len() > 1 {
        lemma_distinct_nonempty(patterns.drop_last());
    }
}

/// Setting a valid name, or clearing any name, keeps the contents well
/// formed.
pub proof fn lemma_with_list_wf(
    names: Seq<Seq<char>>,
    lists: Seq<Seq<Seq<char>>>,
    name: Seq<char>,
    patterns: Seq<Seq<char>>,
)
    requires
        wf_contents(names, lists),
        patterns.len() == 0 || valid_type_name(name),
    ensures
        wf_contents(with_list(names, lists, name, patterns).0, with_list(names, lists, name, patterns).1),
{
    if patterns.len() == 0 {
        if names.contains(name) {
            lemma_without_wf(names, lists, name);
        }
    } else {
        lemma_distinct_nonempty(patterns);
        if names.contains(name) {
            let i = names.index_of(name);
            let l2 = lists.update(i, distinct(patterns));
            assert forall|j: int| 0 <= j < l2.len() implies (#[trigger] l2[j]).len() > 0 by {
                if j != i {
                    assert(l2[j] == lists[j]);
                }
            }
        } else {
            let n2 = names.push(name);
            assert forall|a: int, b: int| 0 <= a < b < n2.len() implies n2[a] != n2[b] by {
                if b == names.len() {
                    assert(names[a] == n2[a]);
                }
            }
            let l2 = lists.push(distinct(patterns));
            assert forall|i: int| 0 <= i < l2.len() implies (#[trigger] l2[i]).len() > 0 by {
                if i < lists.len() {
                    assert(l2[i] == lists[i]);
                }
            }
            assert forall|i: int| 0 <= i < n2.len() implies valid_type_name(#[trigger] n2[i]) by {
                if i < names.len() {
                    assert(n2[i] == names[i]);
                }
            }
        }
    }
}

/// Removing a registered name keeps the contents well formed.
pub proof fn lemma_without_wf(names: Seq<Seq<char>>, lists: Seq<Seq<Seq<char>>>, name: Seq<char>)
    requires
        wf_contents(names, lists),
        names.contains(name),
    ensures
        wf_contents(without(names, lists, name).0, without(names, lists, name).1),
{
    let i = names.index_of(name);
    let n2 = names.remove(i);
    let l2 = lists.remove(i);
    assert forall|a: int, b: int| 0 <= a < b < n2.len() implies n2[a] != n2[b] by {
        let a0 = if a < i { a } else { a + 1 };
        let b0 = if b < i { b } else { b + 1 };
        assert(n2[a] == names[a0]);
        assert(n2[b] == names[b0]);
    }
    assert forall|j: int| 0 <= j < n2.len() implies valid_type_name(#[trigger] n2[j]) by {
        let j0 = if j < i { j } else { j + 1 };
        assert(n2[j] == names[j0]);
    }
    assert forall|j: int| 0 <= j < l2.len() implies (#[trigger] l2[j]).len() > 0 by {
        let j0 = if j < i { j } else { j + 1 };
        assert(l2[j] == lists[j0]);
    }
}

/// With no name twice, a name's first place is its only place.
pub proof fn lemma_index_of_unique(names: Seq<Seq<char>>, i: int)
    requires
        names.no_duplicates(),
        0 <= i < names.len(),
    ensures
        names.index_of(names[i]) == i,
{
    assert(names.contains(names[i]));
    let k = names.index_of(names[i]);
    assert(names[k] == names[i]);
}

/// With no name twice, the mapping has as many keys as there are names.
pub proof fn lemma_map_size(names: Seq<Seq<char>>, lists: Seq<Seq<Seq<char>>>)
    requires
        names.no_duplicates(),
    ensures
        as_map(names, lists).dom() == names.to_set(),
        as_map(names, lists).dom().len() == names.len(),
{
    assert(as_map(names, lists).dom() =~= names.to_set());
    names.unique_seq_to_set();
}

} // verus!
