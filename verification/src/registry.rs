//! The command registry: per-command metadata keyed by unique name.
//!
//! Registration inserts or overwrites; overwriting is allowed, reported to
//! the caller as a warning signal, and the last registration wins. The
//! entries are kept in strict lexicographic order by name, which makes
//! lookup unambiguous and the help listing alphabetized and deterministic.

use vstd::prelude::*;

use crate::help::{CommandInfo, CommandInfoView};
use crate::text::{lemma_lex_lt_props, lemma_lex_lt_trans, lex_less, lex_lt, str_eq};

verus! {

/// One registry entry: a command name with its optional help metadata.
#[derive(Debug)]
pub struct CommandEntry {
    /// The command name, the registry's unique key.
    pub name: String,
    /// The registered help metadata, when the command supplied any.
    pub info: Option<CommandInfo>,
}

impl View for CommandEntry {
    type V = (Seq<char>, Option<CommandInfoView>);

    open spec fn view(&self) -> (Seq<char>, Option<CommandInfoView>) {
        (self.name@, self.info.deep_view())
    }
}

impl DeepView for CommandEntry {
    type V = (Seq<char>, Option<CommandInfoView>);

    open spec fn deep_view(&self) -> (Seq<char>, Option<CommandInfoView>) {
        self.view()
    }
}

/// The registry's mathematical model: names with metadata, in order.
pub type RegModel = Seq<(Seq<char>, Option<CommandInfoView>)>;

/// Strictly sorted by name: unique keys in lexicographic order.
pub open spec fn reg_sorted(m: RegModel) -> bool {
    forall|i: int, j: int| 0 <= i < j < m.len() ==> lex_lt(#[trigger] m[i].0, #[trigger] m[j].0)
}

/// Registration in the model: insert in order, or overwrite the entry that
/// carries the same name.
pub open spec fn register_spec(m: RegModel, name: Seq<char>, info: Option<CommandInfoView>)
    -> RegModel
    decreases m.len(),
{
    if m.len() == 0 {
        seq![(name, info)]
    } else if m[0].0 == name {
        seq![(name, info)] + m.drop_first()
    } else if lex_lt(name, m[0].0) {
        seq![(name, info)] + m
    } else {
        seq![m[0]] + register_spec(m.drop_first(), name, info)
    }
}

/// Lookup in the model: the metadata of the entry carrying `name`.
pub open spec fn lookup_spec(m: RegModel, name: Seq<char>) -> Option<Option<CommandInfoView>>
    decreases m.len(),
{
    if m.len() == 0 {
        None
    } else if m[0].0 == name {
        Some(m[0].1)
    } else {
        lookup_spec(m.drop_first(), name)
    }
}

/// How many entries of the model carry `name`.
pub open spec fn count_name(m: RegModel, name: Seq<char>) -> nat
    decreases m.len(),
{
    if m.len() == 0 {
        0
    } else {
        (if m[0].0 == name {
            1nat
        } else {
            0nat
        }) + count_name(m.drop_first(), name)
    }
}

/// A model none of whose entries carry `name` counts zero of it.
proof fn lemma_count_zero(m: RegModel, name: Seq<char>)
    requires
        forall|k: int| 0 <= k < m.len() ==> (#[trigger] m[k].0) != name,
    ensures
        count_name(m, name) == 0,
        lookup_spec(m, name) is None,
    decreases m.len(),
{
    if m.len() > 0 {
        assert(forall|k: int| 0 <= k < m.drop_first().len() ==> #[trigger] m.drop_first()[k]
            == m[k + 1]);
        lemma_count_zero(m.drop_first(), name);
    }
}

/// The tail of a sorted model is sorted, and every tail name sits above the
/// head name.
proof fn lemma_sorted_tail(m: RegModel)
    requires
        reg_sorted(m),
        m.len() > 0,
    ensures
        reg_sorted(m.drop_first()),
        forall|k: int| 0 <= k < m.drop_first().len() ==> lex_lt(
            m[0].0,
            (#[trigger] m.drop_first()[k]).0,
        ),
{
    assert(forall|k: int| 0 <= k < m.drop_first().len() ==> #[trigger] m.drop_first()[k] == m[k
        + 1]);
}

/// Registering leaves exactly one entry carrying the name, holding the
/// registered metadata.
pub proof fn lemma_register_unique(m: RegModel, name: Seq<char>, info: Option<CommandInfoView>)
    requires
        reg_sorted(m),
    ensures
        count_name(register_spec(m, name, info), name) == 1,
        lookup_spec(register_spec(m, name, info), name) == Some(info),
    decreases m.len(),
{
    let r = register_spec(m, name, info);
    assert(r.len() > 0 ==> r.drop_first().len() == r.len() - 1);
    if m.len() == 0 {
        assert(r.drop_first() =~= Seq::<(Seq<char>, Option<CommandInfoView>)>::empty());
        assert(count_name(r.drop_first(), name) == 0);
        assert(r[0].0 == name);
        assert(count_name(r, name) == 1);
    } else if m[0].0 == name {
        lemma_sorted_tail(m);
        assert forall|k: int| 0 <= k < m.drop_first().len() implies (#[trigger] m.drop_first()[
            k
        ]).0 != name by {
            lemma_lex_lt_props(name, m.drop_first()[k].0);
        }
        assert(r.drop_first() =~= m.drop_first());
        lemma_count_zero(m.drop_first(), name);
        assert(r[0].0 == name);
        assert(count_name(r, name) == 1);
    } else if lex_lt(name, m[0].0) {
        lemma_sorted_tail(m);
        assert forall|k: int| 0 <= k < m.len() implies (#[trigger] m[k].0) != name by {
            if k > 0 {
                lemma_lex_lt_trans(name, m[0].0, m[k].0);
            }
            lemma_lex_lt_props(name, m[k].0);
        }
        assert(r.drop_first() =~= m);
        lemma_count_zero(m, name);
        assert(r[0].0 == name);
        assert(count_name(r, name) == 1);
    } else {
        lemma_lex_lt_props(name, m[0].0);
        lemma_sorted_tail(m);
        lemma_register_unique(m.drop_first(), name, info);
        assert(r.drop_first() =~= register_spec(m.drop_first(), name, info));
        assert(r[0] == m[0]);
        assert(m[0].0 != name);
        assert(count_name(r.drop_first(), name) == 1);
        assert(count_name(r, name) == 1);
        assert(lookup_spec(r, name) == Some(info));
    }
}

/// Registering the same name twice leaves the model exactly as one
/// registration of the second metadata would: re-registration is idempotent
/// and the last registration wins.
pub proof fn lemma_register_idempotent(
    m: RegModel,
    name: Seq<char>,
    first: Option<CommandInfoView>,
    second: Option<CommandInfoView>,
)
    ensures
        register_spec(register_spec(m, name, first), name, second) == register_spec(
            m,
            name,
            second,
        ),
    decreases m.len(),
{
    let r1 = register_spec(m, name, first);
    if m.len() == 0 {
        assert(r1[0].0 == name);
        assert(register_spec(r1, name, second) =~= register_spec(m, name, second));
    } else if m[0].0 == name {
        assert(r1[0].0 == name);
        assert(r1.drop_first() =~= m.drop_first());
        assert(register_spec(r1, name, second) =~= register_spec(m, name, second));
    } else if lex_lt(name, m[0].0) {
        assert(r1[0].0 == name);
        assert(r1.drop_first() =~= m);
        assert(register_spec(r1, name, second) =~= register_spec(m, name, second));
    } else {
        assert(r1[0] == m[0]);
        assert(r1.drop_first() =~= register_spec(m.drop_first(), name, first));
        lemma_register_idempotent(m.drop_first(), name, first, second);
        assert(register_spec(r1, name, second) =~= register_spec(m, name, second));
    }
}

/// Registration at the position a sorted scan found: overwrite in place, or
/// insert just before the first name not below the new one.
proof fn lemma_register_at(m: RegModel, name: Seq<char>, info: Option<CommandInfoView>, p: int)
    requires
        0 <= p <= m.len(),
        forall|k: int| 0 <= k < p ==> lex_lt((#[trigger] m[k]).0, name),
        p < m.len() ==> !lex_lt(m[p].0, name),
    ensures
        p < m.len() && m[p].0 == name ==> register_spec(m, name, info) == m.take(p) + seq![
            (name, info),
        ] + m.skip(p + 1),
        !(p < m.len() && m[p].0 == name) ==> register_spec(m, name, info) == m.take(p) + seq![
            (name, info),
        ] + m.skip(p),
    decreases p,
{
    if p == 0 {
        if m.len() == 0 {
            assert(register_spec(m, name, info) =~= m.take(0) + seq![(name, info)] + m.skip(0));
        } else if m[0].0 == name {
            assert(seq![(name, info)] + m.drop_first() =~= m.take(0) + seq![(name, info)] + m.skip(
                1,
            ));
        } else {
            lemma_lex_lt_props(m[0].0, name);
            assert(lex_lt(name, m[0].0));
            assert(seq![(name, info)] + m =~= m.take(0) + seq![(name, info)] + m.skip(0));
        }
    } else {
        lemma_lex_lt_props(m[0].0, name);
        assert(m[0].0 != name);
        assert(!lex_lt(name, m[0].0));
        let t = m.drop_first();
        assert(forall|k: int| 0 <= k < t.len() ==> #[trigger] t[k] == m[k + 1]);
        lemma_register_at(t, name, info, p - 1);
        if p < m.len() && m[p].0 == name {
            assert(t[p - 1].0 == name);
            assert(seq![m[0]] + (t.take(p - 1) + seq![(name, info)] + t.skip(p)) =~= m.take(p)
                + seq![(name, info)] + m.skip(p + 1));
        } else {
            assert(seq![m[0]] + (t.take(p - 1) + seq![(name, info)] + t.skip(p - 1)) =~= m.take(p)
                + seq![(name, info)] + m.skip(p));
        }
    }
}

/// What a sorted scan says about lookup: the entry is at the scan's stop
/// position or nowhere.
proof fn lemma_lookup_at(m: RegModel, name: Seq<char>, p: int)
    requires
        reg_sorted(m),
        0 <= p <= m.len(),
        forall|k: int| 0 <= k < p ==> lex_lt((#[trigger] m[k]).0, name),
        p < m.len() ==> !lex_lt(m[p].0, name),
    ensures
        p < m.len() && m[p].0 == name ==> lookup_spec(m, name) == Some(m[p].1),
        !(p < m.len() && m[p].0 == name) ==> lookup_spec(m, name) is None,
    decreases p,
{
    if p == 0 {
        if m.len() > 0 && m[0].0 != name {
            lemma_lex_lt_props(m[0].0, name);
            lemma_sorted_tail(m);
            assert forall|k: int| 0 <= k < m.len() implies (#[trigger] m[k].0) != name by {
                if k > 0 {
                    lemma_lex_lt_trans(name, m[0].0, m[k].0);
                }
                lemma_lex_lt_props(name, m[k].0);
            }
            lemma_count_zero(m, name);
        }
    } else {
        lemma_lex_lt_props(m[0].0, name);
        let t = m.drop_first();
        assert(forall|k: int| 0 <= k < t.len() ==> #[trigger] t[k] == m[k + 1]);
        lemma_sorted_tail(m);
        lemma_lookup_at(t, name, p - 1);
    }
}

/// The interpreter's configuration: the command registry and the bound on
/// the history ring.
#[derive(Debug)]
pub struct TerminalConfiguration {
    /// Registered commands, strictly sorted by name.
    pub commands: Vec<CommandEntry>,
    /// How many submitted lines the history keeps beside the scratch slot.
    pub history_size: usize,
}

impl TerminalConfiguration {
    /// The registry's model: names with metadata, in registry order.
    pub open spec fn model(&self) -> RegModel {
        self.commands.deep_view()
    }

    /// The registry invariant: strictly sorted, hence unique, names.
    pub open spec fn wf(&self) -> bool {
        reg_sorted(self.model())
    }

    /// An empty registry with the default history bound of 20.
    pub fn new() -> (r: TerminalConfiguration)
        ensures
            r.wf(),
            r.model() == Seq::<(Seq<char>, Option<CommandInfoView>)>::empty(),
            r.history_size == 20,
    {
        let r = TerminalConfiguration { commands: Vec::new(), history_size: 20 };
        proof {
            assert(r.model() =~= Seq::<(Seq<char>, Option<CommandInfoView>)>::empty());
        }
        r
    }

    /// Registers a command: inserts the metadata under `name`, overwriting
    /// any earlier registration. Registration cannot fail; the result says
    /// whether an entry was overwritten, which the host reports as a
    /// non-fatal warning.
    pub fn register(&mut self, name: &str, info: Option<CommandInfo>) -> (overwrote: bool)
        requires
            old(self).wf(),
        ensures
            final(self).wf(),
            final(self).model() == register_spec(old(self).model(), name@, info.deep_view()),
            final(self).history_size == old(self).history_size,
            overwrote == (lookup_spec(old(self).model(), name@) is Some),
    {
        let ghost m = self.model();
        let mut p: usize = 0;
        while p < self.commands.len() && lex_less(self.commands[p].name.as_str(), name)
            invariant
                m == self.commands.deep_view(),
                self.commands@.len() == m.len(),
                0 <= p <= m.len(),
                forall|k: int| 0 <= k < p ==> lex_lt((#[trigger] m[k]).0, name@),
            decreases self.commands.len() - p,
        {
            proof {
                assert(self.commands@[p as int].deep_view() == m[p as int]);
            }
            p = p + 1;
        }
        proof {
            assert(p < m.len() ==> self.commands@[p as int].deep_view() == m[p as int]);
            lemma_register_at(m, name@, info.deep_view(), p as int);
            lemma_lookup_at(m, name@, p as int);
        }
        let entry = CommandEntry { name: name.to_owned(), info };
        let ghost ev = entry.deep_view();
        let replaces = p < self.commands.len() && str_eq(self.commands[p].name.as_str(), name);
        if replaces {
            self.commands.remove(p);
            self.commands.insert(p, entry);
        } else {
            self.commands.insert(p, entry);
        }
        proof {
            assert(ev == (name@, info.deep_view()));
            if replaces {
                assert(self.commands.deep_view() =~= m.take(p as int) + seq![ev] + m.skip(
                    p as int + 1,
                ));
            } else {
                assert(self.commands.deep_view() =~= m.take(p as int) + seq![ev] + m.skip(
                    p as int,
                ));
            }
            assert(self.model() == register_spec(m, name@, info.deep_view()));
            lemma_register_sorted(m, name@, info.deep_view(), p as int);
        }
        replaces
    }

    /// Looks up the metadata registered under `name`.
    pub fn lookup(&self, name: &str) -> (r: Option<&Option<CommandInfo>>)
        ensures
            match r {
                Some(info) => lookup_spec(self.model(), name@) == Some(info.deep_view()),
                None => lookup_spec(self.model(), name@) is None,
            },
    {
        let ghost m = self.model();
        let mut i: usize = 0;
        proof {
            assert(m.skip(0) =~= m);
        }
        while i < self.commands.len()
            invariant
                m == self.commands.deep_view(),
                self.commands@.len() == m.len(),
                0 <= i <= m.len(),
                lookup_spec(m, name@) == lookup_spec(m.skip(i as int), name@),
            decreases self.commands.len() - i,
        {
            proof {
                assert(self.commands@[i as int].deep_view() == m[i as int]);
                assert(m.skip(i as int)[0] == m[i as int]);
                assert(m.skip(i as int).drop_first() =~= m.skip(i as int + 1));
            }
            if str_eq(self.commands[i].name.as_str(), name) {
                return Some(&self.commands[i].info);
            }
            i = i + 1;
        }
        None
    }

    /// The registered entries, in alphabetized order, for the help listing.
    pub fn entries(&self) -> (r: &Vec<CommandEntry>)
        ensures
            r.deep_view() == self.model(),
    {
        &self.commands
    }
}

impl Default for TerminalConfiguration {
    /// An empty registry with the default history bound.
    fn default() -> (r: TerminalConfiguration)
        ensures
            r.wf(),
            r.model() == Seq::<(Seq<char>, Option<CommandInfoView>)>::empty(),
            r.history_size == 20,
    {
        TerminalConfiguration::new()
    }
}

/// Registration at a sorted scan's stop position keeps the model sorted.
proof fn lemma_register_sorted(m: RegModel, name: Seq<char>, info: Option<CommandInfoView>, p: int)
    requires
        reg_sorted(m),
        0 <= p <= m.len(),
        forall|k: int| 0 <= k < p ==> lex_lt((#[trigger] m[k]).0, name),
        p < m.len() ==> !lex_lt(m[p].0, name),
    ensures
        reg_sorted(register_spec(m, name, info)),
{
    let r = register_spec(m, name, info);
    lemma_register_at(m, name, info, p);
    if p < m.len() && m[p].0 == name {
        assert forall|i: int, j: int| 0 <= i < j < r.len() implies lex_lt(
            #[trigger] r[i].0,
            #[trigger] r[j].0,
        ) by {
            assert(forall|k: int| 0 <= k < r.len() && k != p ==> #[trigger] r[k] == m[k]);
            assert(r[p].0 == name);
            assert(r[p].0 == m[p].0);
        }
    } else {
        assert forall|i: int, j: int| 0 <= i < j < r.len() implies lex_lt(
            #[trigger] r[i].0,
            #[trigger] r[j].0,
        ) by {
            assert(forall|k: int| 0 <= k < p ==> #[trigger] r[k] == m[k]);
            assert(forall|k: int| p < k < r.len() ==> #[trigger] r[k] == m[k - 1]);
            assert(r[p] == (name, info));
            if p < m.len() {
                lemma_lex_lt_props(m[p].0, name);
            }
            if i == p && j > p {
                if !lex_lt(name, m[j - 1].0) {
                    assert(p < m.len());
                    assert(m[p].0 != name);
                    assert(lex_lt(name, m[p].0));
                    if j - 1 > p {
                        lemma_lex_lt_trans(name, m[p].0, m[j - 1].0);
                    }
                }
            }
            if j == p && i < p {
            }
        }
    }
}

} // verus!
