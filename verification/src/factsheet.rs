//! The shared project artifact that is handed from agent to agent.

use vstd::prelude::*;
use vstd::string::StringExecFns;

verus! {

/// One named field of a fact sheet.
#[derive(Debug, PartialEq, Eq)]
struct Fact {
    name: String,
    value: String,
}

/// The map that a list of facts stands for: each name is bound to its value.
spec fn facts_map(facts: Seq<Fact>) -> Map<Seq<char>, Seq<char>>
    decreases facts.len(),
{
    if facts.len() == 0 {
        Map::empty()
    } else {
        facts_map(facts.drop_last()).insert(facts.last().name@, facts.last().value@)
    }
}

/// No name occurs twice.
spec fn distinct_names(facts: Seq<Fact>) -> bool {
    forall|i: int, j: int|
        0 <= i < j < facts.len() ==> (#[trigger] facts[i]).name@ != (#[trigger] facts[j]).name@
}

/// Names that differ in a list differ in the list without its last fact.
proof fn lemma_distinct_front(facts: Seq<Fact>)
    requires
        distinct_names(facts),
        facts.len() > 0,
    ensures
        distinct_names(facts.drop_last()),
{
    let front = facts.drop_last();
    assert forall|a: int, b: int| 0 <= a < b < front.len() implies (#[trigger] front[a]).name@
        != (#[trigger] front[b]).name@ by {
        assert(facts[a].name@ != facts[b].name@);
    }
}

proof fn lemma_facts_map_domain(facts: Seq<Fact>, name: Seq<char>)
    ensures
        facts_map(facts).contains_key(name) <==> exists|i: int|
            0 <= i < facts.len() && (#[trigger] facts[i]).name@ == name,
    decreases facts.len(),
{
    if facts.len() > 0 {
        let front = facts.drop_last();
        lemma_facts_map_domain(front, name);
        if facts_map(facts).contains_key(name) {
            if facts.last().name@ == name {
                assert(facts[facts.len() - 1].name@ == name);
            } else {
                let i = choose|i: int| 0 <= i < front.len() && (#[trigger] front[i]).name@ == name;
                assert(facts[i].name@ == name);
            }
        }
        if exists|i: int| 0 <= i < facts.len() && (#[trigger] facts[i]).name@ == name {
            let i = choose|i: int| 0 <= i < facts.len() && (#[trigger] facts[i]).name@ == name;
            if i < front.len() {
                assert(front[i].name@ == name);
            }
        }
    }
}

proof fn lemma_facts_map_lookup(facts: Seq<Fact>, i: int)
    requires
        distinct_names(facts),
        0 <= i < facts.len(),
    ensures
        facts_map(facts).contains_key(facts[i].name@),
        facts_map(facts)[facts[i].name@] == facts[i].value@,
    decreases facts.len(),
{
    let front = facts.drop_last();
    if i < facts.len() - 1 {
        lemma_distinct_front(facts);
        lemma_facts_map_lookup(front, i);
        assert(facts[i].name@ != facts[facts.len() - 1].name@);
    }
}

proof fn lemma_facts_map_update(facts: Seq<Fact>, i: int, fact: Fact)
    requires
        distinct_names(facts),
        0 <= i < facts.len(),
        fact.name@ == facts[i].name@,
    ensures
        distinct_names(facts.update(i, fact)),
        facts_map(facts.update(i, fact)) == facts_map(facts).insert(fact.name@, fact.value@),
    decreases facts.len(),
{
    let changed = facts.update(i, fact);
    let front = facts.drop_last();
    assert(distinct_names(changed)) by {
        assert forall|a: int, b: int| 0 <= a < b < changed.len() implies (#[trigger] changed[a]).name@
            != (#[trigger] changed[b]).name@ by {
            assert(facts[a].name@ != facts[b].name@);
        }
    }
    if i == facts.len() - 1 {
        assert(changed.drop_last() =~= front);
        assert(facts_map(changed) =~= facts_map(facts).insert(fact.name@, fact.value@));
    } else {
        lemma_distinct_front(facts);
        lemma_facts_map_update(front, i, fact);
        assert(changed.drop_last() =~= front.update(i, fact));
        assert(facts[i].name@ != facts[facts.len() - 1].name@);
        assert(facts_map(changed) =~= facts_map(facts).insert(fact.name@, fact.value@));
    }
}

proof fn lemma_facts_map_len(facts: Seq<Fact>)
    requires
        distinct_names(facts),
    ensures
        facts_map(facts).dom().finite(),
        facts_map(facts).dom().len() == facts.len(),
    decreases facts.len(),
{
    if facts.len() > 0 {
        let front = facts.drop_last();
        lemma_distinct_front(facts);
        lemma_facts_map_len(front);
        lemma_facts_map_domain(front, facts.last().name@);
        if facts_map(front).contains_key(facts.last().name@) {
            let i = choose|i: int|
                0 <= i < front.len() && (#[trigger] front[i]).name@ == facts.last().name@;
            assert(facts[i].name@ != facts[facts.len() - 1].name@);
        }
    }
}

/// Of two writes to one field the later wins, as if the earlier had not
/// happened; and a write to one field does not touch another.
pub proof fn law_later_write_wins(
    sheet: Map<Seq<char>, Seq<char>>,
    name: Seq<char>,
    earlier: Seq<char>,
    later: Seq<char>,
    other: Seq<char>,
)
    requires
        other != name,
    ensures
        sheet.insert(name, earlier).insert(name, later) == sheet.insert(name, later),
        sheet.insert(name, earlier).insert(name, later)[name] == later,
        sheet.insert(name, later).contains_key(other) == sheet.contains_key(other),
        sheet.contains_key(other) ==> sheet.insert(name, later)[other] == sheet[other],
{
    assert(sheet.insert(name, earlier).insert(name, later) =~= sheet.insert(name, later));
}

/// The project artifact that agents read and extend: a record of named text
/// fields. A field, once written, stays; writing it again replaces its value.
///
/// The manager owns the sheet and lends it to one agent at a time.
#[derive(Debug, PartialEq, Eq)]
pub struct FactSheet {
    facts: Vec<Fact>,
}

impl View for FactSheet {
    type V = Map<Seq<char>, Seq<char>>;

    closed spec fn view(&self) -> Map<Seq<char>, Seq<char>> {
        facts_map(self.facts@)
    }
}

impl FactSheet {
    /// Every field is held once.
    #[verifier::type_invariant]
    spec fn well_formed(self) -> bool {
        distinct_names(self.facts@)
    }

    /// A sheet without fields.
    pub fn new() -> (sheet: FactSheet)
        ensures
            sheet@ == Map::<Seq<char>, Seq<char>>::empty(),
    {
        FactSheet { facts: Vec::new() }
    }

    /// Index of the field called `name`, if there is one.
    fn position(&self, name: &String) -> (found: Option<usize>)
        ensures
            match found {
                Some(i) => i < self.facts@.len() && self.facts@[i as int].name@ == name@,
                None => forall|i: int|
                    0 <= i < self.facts@.len() ==> (#[trigger] self.facts@[i]).name@ != name@,
            },
    {
        let mut i: usize = 0;
        while i < self.facts.len()
            invariant
                i <= self.facts@.len(),
                forall|k: int| 0 <= k < i ==> (#[trigger] self.facts@[k]).name@ != name@,
            decreases self.facts@.len() - i,
        {
            if self.facts[i].name == *name {
                return Some(i);
            }
            i += 1;
        }
        None
    }

    /// Binds `name` to `value`. A later write to a name wins over an earlier
    /// one; every other field keeps its value.
    pub fn write(&mut self, name: &str, value: String)
        ensures
            final(self)@ == old(self)@.insert(name@, value@),
    {
        proof {
            use_type_invariant(&*self);
        }
        let key = String::from_str(name);
        let found = self.position(&key);
        let fact = Fact { name: key, value };
        let mut facts: Vec<Fact> = Vec::new();
        core::mem::swap(&mut self.facts, &mut facts);
        match found {
            Some(i) => {
                proof {
                    lemma_facts_map_update(facts@, i as int, fact);
                }
                facts.set(i, fact);
            },
            None => {
                assert(facts@.push(fact).drop_last() =~= facts@);
                facts.push(fact);
            },
        }
        self.facts = facts;
    }

    /// The value bound to `name`, if the field has been written.
    pub fn read(&self, name: &str) -> (value: Option<&String>)
        ensures
            match value {
                Some(text) => self@.contains_key(name@) && text@ == self@[name@],
                None => !self@.contains_key(name@),
            },
    {
        proof {
            use_type_invariant(self);
            lemma_facts_map_domain(self.facts@, name@);
        }
        let key = String::from_str(name);
        match self.position(&key) {
            Some(i) => {
                proof {
                    lemma_facts_map_lookup(self.facts@, i as int);
                }
                Some(&self.facts[i].value)
            },
            None => None,
        }
    }

    /// Whether the field called `name` has been written.
    pub fn contains(&self, name: &str) -> (present: bool)
        ensures
            present == self@.contains_key(name@),
    {
        self.read(name).is_some()
    }

    /// Number of fields.
    pub fn len(&self) -> (count: usize)
        ensures
            self@.dom().finite(),
            count == self@.dom().len(),
    {
        proof {
            use_type_invariant(self);
            lemma_facts_map_len(self.facts@);
        }
        self.facts.len()
    }

    /// Whether the sheet has no field.
    pub fn is_empty(&self) -> (empty: bool)
        ensures
            empty == (self@ == Map::<Seq<char>, Seq<char>>::empty()),
    {
        proof {
            use_type_invariant(self);
            lemma_facts_map_len(self.facts@);
            if self.facts@.len() == 0 {
            } else {
                assert(self@.dom().len() != 0);
                assert(Map::<Seq<char>, Seq<char>>::empty().dom().len() == 0);
            }
        }
        self.facts.len() == 0
    }
}

impl Clone for FactSheet {
    /// A sheet with the same fields and values.
    fn clone(&self) -> (copy: FactSheet)
        ensures
            copy@ == self@,
    {
        proof {
            use_type_invariant(self);
        }
        let mut facts: Vec<Fact> = Vec::new();
        let mut i: usize = 0;
        while i < self.facts.len()
            invariant
                i <= self.facts@.len(),
                facts@ == self.facts@.take(i as int),
            decreases self.facts@.len() - i,
        {
            let fact = Fact {
                name: self.facts[i].name.clone(),
                value: self.facts[i].value.clone(),
            };
            assert(self.facts@.take(i as int).push(fact) =~= self.facts@.take(i + 1));
            facts.push(fact);
            i += 1;
        }
        assert(facts@ =~= self.facts@);
        FactSheet { facts }
    }
}

} // verus!
