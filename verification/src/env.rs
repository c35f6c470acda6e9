//! Environment variables given as `KEY=VALUE` strings.

use vstd::prelude::*;
use vstd::string::{StrSliceExecFns, StringExecFns};

verus! {

/// The text before and behind the first `=`, if there is one.
pub open spec fn split_assignment(text: Seq<char>) -> Option<(Seq<char>, Seq<char>)> {
    match text.index_of_first('=') {
        Some(i) => Some((text.take(i), text.skip(i + 1))),
        None => None,
    }
}

/// The variables that a list of assignments sets. Of several assignments to one
/// key the last counts; what is no assignment is skipped.
pub open spec fn assigned(texts: Seq<Seq<char>>) -> Map<Seq<char>, Seq<char>>
    decreases texts.len(),
{
    if texts.len() == 0 {
        Map::empty()
    } else {
        match split_assignment(texts.last()) {
            Some((key, value)) => assigned(texts.drop_last()).insert(key, value),
            None => assigned(texts.drop_last()),
        }
    }
}

/// The texts that are no assignments, in their order.
pub open spec fn malformed(texts: Seq<Seq<char>>) -> Seq<Seq<char>>
    decreases texts.len(),
{
    if texts.len() == 0 {
        Seq::empty()
    } else if texts.last().contains('=') {
        malformed(texts.drop_last())
    } else {
        malformed(texts.drop_last()).push(texts.last())
    }
}

/// The strings of a list as character sequences.
pub open spec fn texts(strings: Seq<String>) -> Seq<Seq<char>> {
    strings.map_values(|s: String| s@)
}

/// Environment variables, each with its value. No key occurs twice.
#[derive(Debug)]
pub struct EnvVars {
    entries: Vec<(String, String)>,
}

spec fn map_of(entries: Seq<(String, String)>) -> Map<Seq<char>, Seq<char>>
    decreases entries.len(),
{
    if entries.len() == 0 {
        Map::empty()
    } else {
        map_of(entries.drop_last()).insert(entries.last().0@, entries.last().1@)
    }
}

spec fn distinct_keys(entries: Seq<(String, String)>) -> bool {
    forall|i: int, j: int|
        0 <= i < j < entries.len() ==> (#[trigger] entries[i]).0@ != (#[trigger] entries[j]).0@
}

proof fn lemma_map_of(entries: Seq<(String, String)>)
    requires
        distinct_keys(entries),
    ensures
        forall|i: int|
            0 <= i < entries.len() ==> map_of(entries).dom().contains((#[trigger] entries[i]).0@)
                && map_of(entries)[entries[i].0@] == entries[i].1@,
        forall|k: Seq<char>| #[trigger]
            map_of(entries).dom().contains(k) ==> exists|i: int|
                0 <= i < entries.len() && (#[trigger] entries[i]).0@ == k,
    decreases entries.len(),
{
    if entries.len() > 0 {
        let front = entries.drop_last();
        lemma_map_of(front);
        assert forall|i: int| 0 <= i < entries.len() implies map_of(entries).dom().contains(
            (#[trigger] entries[i]).0@,
        ) && map_of(entries)[entries[i].0@] == entries[i].1@ by {
            if i < entries.len() - 1 {
                assert(front[i] == entries[i]);
            }
        }
        assert forall|k: Seq<char>| #[trigger] map_of(entries).dom().contains(k) implies exists|
            i: int,
        |
            0 <= i < entries.len() && (#[trigger] entries[i]).0@ == k by {
            if k == entries.last().0@ {
                assert(entries[entries.len() - 1].0@ == k);
            } else {
                assert(map_of(front).dom().contains(k));
                let i = choose|i: int| 0 <= i < front.len() && (#[trigger] front[i]).0@ == k;
                assert(entries[i].0@ == k);
            }
        }
    }
}

impl View for EnvVars {
    type V = Map<Seq<char>, Seq<char>>;

    closed spec fn view(&self) -> Map<Seq<char>, Seq<char>> {
        map_of(self.entries@)
    }
}

impl EnvVars {
    #[verifier::type_invariant]
    spec fn well_formed(self) -> bool {
        distinct_keys(self.entries@)
    }

    /// No variables.
    pub fn new() -> (vars: Self)
        ensures
            vars@ == Map::<Seq<char>, Seq<char>>::empty(),
    {
        EnvVars { entries: Vec::new() }
    }

    /// Whether there are no variables.
    pub fn is_empty(&self) -> (empty: bool)
        ensures
            empty <==> self@ == Map::<Seq<char>, Seq<char>>::empty(),
    {
        proof {
            use_type_invariant(self);
            lemma_map_of(self.entries@);
            if self.entries@.len() > 0 {
                assert(self@.dom().contains(self.entries@[0].0@));
            }
        }
        self.entries.len() == 0
    }

    /// Sets `key` to `value`.
    pub fn set(&mut self, key: String, value: String)
        ensures
            final(self)@ == old(self)@.insert(key@, value@),
    {
        proof {
            use_type_invariant(&*self);
        }
        let mut entries: Vec<(String, String)> = Vec::new();
        std::mem::swap(&mut entries, &mut self.entries);
        set_entry(&mut entries, key, value);
        self.entries = entries;
    }

    /// The variables and their values, each key once.
    pub fn into_entries(self) -> (entries: Vec<(String, String)>)
        ensures
            forall|i: int|
                0 <= i < entries@.len() ==> self@.dom().contains((#[trigger] entries@[i]).0@)
                    && self@[entries@[i].0@] == entries@[i].1@,
            forall|key: Seq<char>| #[trigger]
                self@.dom().contains(key) ==> exists|i: int|
                    0 <= i < entries@.len() && (#[trigger] entries@[i]).0@ == key,
            forall|i: int, j: int|
                0 <= i < j < entries@.len() ==> (#[trigger] entries@[i]).0@ != (
                #[trigger] entries@[j]).0@,
    {
        proof {
            use_type_invariant(&self);
            lemma_map_of(self.entries@);
        }
        self.entries
    }
}

fn set_entry(entries: &mut Vec<(String, String)>, key: String, value: String)
    requires
        distinct_keys(old(entries)@),
    ensures
        distinct_keys(final(entries)@),
        map_of(final(entries)@) == map_of(old(entries)@).insert(key@, value@),
{
    let ghost before = entries@;
    let mut i: usize = 0;
    while i < entries.len()
        invariant
            i <= entries@.len(),
            entries@ == before,
            before == old(entries)@,
            distinct_keys(before),
            forall|j: int| 0 <= j < i ==> (#[trigger] entries@[j]).0@ != key@,
        decreases entries@.len() - i,
    {
        if entries[i].0 == key {
            let ghost (k, v) = (key@, value@);
            entries.set(i, (key, value));
            proof {
                assert forall|a: int, b: int| 0 <= a < b < entries@.len() implies (
                #[trigger] entries@[a]).0@ != (#[trigger] entries@[b]).0@ by {
                    assert(entries@[a].0@ == before[a].0@);
                    assert(entries@[b].0@ == before[b].0@);
                }
                lemma_map_of(before);
                lemma_map_of(entries@);
                lemma_same_map(entries@, before, i as int, k, v);
            }
            return ;
        }
        i += 1;
    }
    entries.push((key, value));
    assert(entries@.drop_last() =~= before);
}

/// Changing the value of one entry changes the map at its key alone.
proof fn lemma_same_map(
    after: Seq<(String, String)>,
    before: Seq<(String, String)>,
    i: int,
    key: Seq<char>,
    value: Seq<char>,
)
    requires
        distinct_keys(before),
        distinct_keys(after),
        0 <= i < before.len(),
        before[i].0@ == key,
        after.len() == before.len(),
        after[i].0@ == key,
        after[i].1@ == value,
        forall|j: int| 0 <= j < before.len() && j != i ==> after[j] == before[j],
    ensures
        map_of(after) == map_of(before).insert(key, value),
{
    lemma_map_of(before);
    lemma_map_of(after);
    let (m, n) = (map_of(after), map_of(before).insert(key, value));
    assert forall|k: Seq<char>| m.dom().contains(k) == n.dom().contains(k) by {
        if m.dom().contains(k) {
            let j = choose|j: int| 0 <= j < after.len() && (#[trigger] after[j]).0@ == k;
            assert(before[j].0@ == k);
        }
        if n.dom().contains(k) && k != key {
            let j = choose|j: int| 0 <= j < before.len() && (#[trigger] before[j]).0@ == k;
            assert(after[j].0@ == k);
        }
    }
    assert forall|k: Seq<char>| m.dom().contains(k) implies m[k] == n[k] by {
        let j = choose|j: int| 0 <= j < after.len() && (#[trigger] after[j]).0@ == k;
        assert(m[after[j].0@] == after[j].1@);
        assert(before[j].0@ == k);
        if j == i {
            assert(k == key);
        } else {
            assert(after[i].0@ != after[j].0@);
        }
    }
    assert(m =~= n);
}

/// Splits a text at its first `=`.
fn split_at_equals(text: &str) -> (parts: Option<(String, String)>)
    ensures
        parts is Some <==> text@.contains('='),
        parts matches Some((key, value)) ==> split_assignment(text@) == Some((key@, value@)),
        parts is None ==> split_assignment(text@) is None,
{
    let len = text.unicode_len();
    let mut i: usize = 0;
    proof {
        text@.index_of_first_ensures('=');
    }
    for c in it: text.chars()
        invariant
            i == it.index(),
            it.seq() == text@,
            len == text@.len(),
            forall|j: int| 0 <= j < i ==> text@[j] != '=',
    {
        if c == '=' {
            proof {
                text@.index_of_first_ensures('=');
                assert(text@.contains('='));
                let first = text@.index_of_first('=')->0;
                assert(first == i) by {
                    if first < i {
                        assert(text@[first] != '=');
                    }
                }
                assert(text@.take(i as int) =~= text@.subrange(0, i as int));
                assert(text@.skip(i + 1) =~= text@.subrange(i + 1, len as int));
            }
            let key = text.substring_char(0, i);
            let value = text.substring_char(i + 1, len);
            return Some((String::from_str(key), String::from_str(value)));
        }
        i += 1;
    }
    None
}

/// The variables that the assignments in `env` set, and the strings that are no
/// assignments.
pub fn parse_env_vars(env: &Vec<String>) -> (parsed: (EnvVars, Vec<String>))
    ensures
        parsed.0@ == assigned(texts(env@)),
        texts(parsed.1@) == malformed(texts(env@)),
{
    let mut vars = EnvVars::new();
    let mut rejected: Vec<String> = Vec::new();
    let mut i: usize = 0;
    assert(texts(rejected@) =~= malformed(texts(env@.take(0))));
    while i < env.len()
        invariant
            i <= env@.len(),
            vars@ == assigned(texts(env@.take(i as int))),
            texts(rejected@) == malformed(texts(env@.take(i as int))),
        decreases env@.len() - i,
    {
        proof {
            let now = texts(env@.take(i + 1));
            assert(now.drop_last() =~= texts(env@.take(i as int)));
            assert(now.last() == env@[i as int]@);
        }
        match split_at_equals(env[i].as_str()) {
            Some((key, value)) => vars.set(key, value),
            None => {
                let ghost before = rejected@;
                rejected.push(env[i].clone());
                assert(texts(rejected@) =~= texts(before).push(env@[i as int]@));
            },
        }
        i += 1;
    }
    assert(env@.take(i as int) =~= env@);
    (vars, rejected)
}

/// A text has its first `=` right behind `key`.
proof fn lemma_split_assignment(text: Seq<char>, key: Seq<char>)
    ensures
        !key.contains('=') && key.push('=').is_prefix_of(text) ==> split_assignment(text) == Some(
            (key, text.skip(key.len() as int + 1)),
        ) && text.contains('='),
        (split_assignment(text) matches Some((k, _)) && k == key) ==> !key.contains('=')
            && key.push('=').is_prefix_of(text),
{
    text.index_of_first_ensures('=');
    if !key.contains('=') && key.push('=').is_prefix_of(text) {
        let n = key.len() as int;
        assert(key.push('=')[n] == '=');
        assert(text.subrange(0, n + 1)[n] == text[n]);
        assert(text.contains('='));
        let first = text.index_of_first('=')->0;
        if first < n {
            assert(text.subrange(0, n + 1)[first] == key.push('=')[first]);
            assert(key[first] == '=');
        }
        assert(first == n);
        assert forall|j: int| 0 <= j < n implies text.take(n)[j] == key[j] by {
            assert(text.subrange(0, n + 1)[j] == key.push('=')[j]);
        }
        assert(text.take(n) =~= key);
    }
    if let Some((k, v)) = split_assignment(text) {
        if k == key {
            let first = text.index_of_first('=')->0;
            assert(text.contains('=')) by {
                if !text.contains('=') {
                    assert(text.index_of_first('=') is None);
                }
            }
            assert forall|j: int| 0 <= j < key.len() implies key[j] != '=' by {
                assert(key[j] == text[j]);
            }
            assert(key.push('=') =~= text.subrange(0, key.len() as int + 1));
        }
    }
}

/// A variable is set exactly if some string of `env` starts with its key, which
/// holds no `=`, and an `=`.
pub proof fn law_variables_come_from_assignments(env: Seq<String>, key: Seq<char>)
    ensures
        assigned(texts(env)).dom().contains(key) <==> !key.contains('=') && exists|i: int|
            0 <= i < env.len() && key.push('=').is_prefix_of((#[trigger] env[i])@),
    decreases env.len(),
{
    if env.len() > 0 {
        let front = env.drop_last();
        let n = env.len() - 1;
        law_variables_come_from_assignments(front, key);
        assert(texts(env).drop_last() =~= texts(front));
        assert(texts(env).last() == env[n]@);
        lemma_split_assignment(env[n]@, key);
        if !key.contains('=') {
            if exists|i: int|
                0 <= i < front.len() && key.push('=').is_prefix_of((#[trigger] front[i])@) {
                let i = choose|i: int|
                    0 <= i < front.len() && key.push('=').is_prefix_of((#[trigger] front[i])@);
                assert(key.push('=').is_prefix_of(env[i]@));
            }
            if exists|i: int|
                0 <= i < env.len() && key.push('=').is_prefix_of((#[trigger] env[i])@) {
                let i = choose|i: int|
                    0 <= i < env.len() && key.push('=').is_prefix_of((#[trigger] env[i])@);
                if i < n {
                    assert(key.push('=').is_prefix_of(front[i]@));
                }
            }
        }
    }
}

/// Of the strings that assign to a key, the last counts: it is the key, `=` and
/// the value of the variable.
pub proof fn law_last_assignment_counts(env: Seq<String>, i: int, key: Seq<char>)
    requires
        0 <= i < env.len(),
        !key.contains('='),
        key.push('=').is_prefix_of(env[i]@),
        forall|j: int| i < j < env.len() ==> !key.push('=').is_prefix_of((#[trigger] env[j])@),
    ensures
        assigned(texts(env)).dom().contains(key),
        key.push('=') + assigned(texts(env))[key] == env[i]@,
    decreases env.len(),
{
    let front = env.drop_last();
    let n = env.len() - 1;
    assert(texts(env).drop_last() =~= texts(front));
    assert(texts(env).last() == env[n]@);
    lemma_split_assignment(env[n]@, key);
    if i == n {
        assert(key.push('=') + env[i]@.skip(key.len() as int + 1) =~= env[i]@) by {
            assert(key.push('=') =~= env[i]@.subrange(0, key.len() as int + 1));
        }
    } else {
        assert forall|j: int| i < j < front.len() implies !key.push('=').is_prefix_of(
            (#[trigger] front[j])@,
        ) by {
            assert(front[j] == env[j]);
        }
        assert(front[i] == env[i]);
        law_last_assignment_counts(front, i, key);
        assert(!key.push('=').is_prefix_of(env[n]@));
    }
}

/// The rejected strings are those of `env` without an `=`, in their order.
pub proof fn law_malformed_strings_have_no_equals_sign(env: Seq<String>)
    ensures
        malformed(texts(env)) == env.map_values(|s: String| s@).filter(
            |text: Seq<char>| !text.contains('='),
        ),
    decreases env.len(),
{
    reveal(Seq::filter);
    let all = env.map_values(|s: String| s@);
    if env.len() > 0 {
        law_malformed_strings_have_no_equals_sign(env.drop_last());
        assert(all.drop_last() =~= env.drop_last().map_values(|s: String| s@));
        assert(texts(env).drop_last() =~= texts(env.drop_last()));
        assert(all.last() == env.last()@);
        assert(texts(env).last() == env.last()@);
    } else {
        assert(malformed(texts(env)) =~= all);
    }
}

} // verus!
