//! The table of challenges: which nonces were issued, and to which identity
//! each is bound, if to any.

use crate::curve::random_bytes;
use crate::encoding::{encode_hex, hex_encoded, is_lower_hex, lemma_hex_round_trip};
use vstd::prelude::*;

verus! {

/// What a nonce is bound to, as a mathematical value.
pub enum Binding {
    Pending,
    Bound(Seq<char>),
}

/// One line of the table, as a mathematical value.
pub struct Entry {
    pub nonce: Seq<char>,
    pub state: Binding,
}

/// The state of a challenge: issued and waiting for a proof, or bound to the
/// identity that gave one.
#[derive(Debug, Clone, PartialEq, Eq)]
pub enum ChallengeState {
    Pending,
    Bound(String),
}

impl View for ChallengeState {
    type V = Binding;

    open spec fn view(&self) -> Binding {
        match self {
            ChallengeState::Pending => Binding::Pending,
            ChallengeState::Bound(identity) => Binding::Bound(identity@),
        }
    }
}

/// A challenge and its state.
#[derive(Debug, Clone, PartialEq, Eq)]
pub struct ChallengeRecord {
    pub nonce: String,
    pub state: ChallengeState,
}

impl View for ChallengeRecord {
    type V = Entry;

    open spec fn view(&self) -> Entry {
        Entry { nonce: self.nonce@, state: self.state@ }
    }
}

/// Why the table refused a lookup or a binding.
#[derive(Debug, PartialEq, Eq, Structural, Clone, Copy)]
pub enum StoreError {
    /// The nonce is not in the table.
    NotFound,
    /// The nonce is bound already.
    AlreadyBound,
}

/// A nonce as it is issued: 64 lower-case hex digits.
pub open spec fn is_nonce(s: Seq<char>) -> bool {
    s.len() == 64 && is_lower_hex(s)
}

/// Some line of `entries` is for `nonce`.
pub open spec fn holds(entries: Seq<Entry>, nonce: Seq<char>) -> bool {
    exists|i: int| 0 <= i < entries.len() && (#[trigger] entries[i]).nonce == nonce
}

/// No two lines of `entries` are for the same nonce.
pub open spec fn distinct(entries: Seq<Entry>) -> bool {
    forall|i: int, j: int|
        0 <= i < entries.len() && 0 <= j < entries.len() && i != j ==> (#[trigger] entries[i]).nonce
            != (#[trigger] entries[j]).nonce
}

/// The place of a line for `nonce` in `entries`, where there is one.
pub open spec fn index_of(entries: Seq<Entry>, nonce: Seq<char>) -> int {
    choose|i: int| 0 <= i < entries.len() && (#[trigger] entries[i]).nonce == nonce
}

/// The table that `entries` stand for: each nonce with its state.
pub open spec fn table(entries: Seq<Entry>) -> Map<Seq<char>, Binding> {
    Map::new(
        |nonce: Seq<char>| holds(entries, nonce),
        |nonce: Seq<char>| entries[index_of(entries, nonce)].state,
    )
}

/// The identities that `entries` bind, in the order of the lines.
pub open spec fn bound_identities(entries: Seq<Entry>) -> Seq<Seq<char>>
    decreases entries.len(),
{
    if entries.len() == 0 {
        Seq::empty()
    } else {
        let rest = bound_identities(entries.drop_last());
        match entries.last().state {
            Binding::Bound(identity) => rest.push(identity),
            Binding::Pending => rest,
        }
    }
}

/// What a binding of `nonce` answers on `table`.
pub open spec fn bind_outcome(table: Map<Seq<char>, Binding>, nonce: Seq<char>) -> Result<
    (),
    StoreError,
> {
    if !table.dom().contains(nonce) {
        Err(StoreError::NotFound)
    } else if table[nonce] is Bound {
        Err(StoreError::AlreadyBound)
    } else {
        Ok(())
    }
}

/// The lines after a binding of `nonce` to `identity`: the line of a pending
/// `nonce` is bound, and nothing else changes.
pub open spec fn bind_entries(entries: Seq<Entry>, nonce: Seq<char>, identity: Seq<char>) -> Seq<
    Entry,
> {
    if bind_outcome(table(entries), nonce) is Ok {
        entries.update(
            index_of(entries, nonce),
            Entry { nonce: nonce, state: Binding::Bound(identity) },
        )
    } else {
        entries
    }
}

/// In lines without a repeated nonce, the table gives each line's state
/// under its nonce.
pub proof fn lemma_table_lookup(entries: Seq<Entry>, i: int)
    requires
        distinct(entries),
        0 <= i < entries.len(),
    ensures
        holds(entries, entries[i].nonce),
        index_of(entries, entries[i].nonce) == i,
        table(entries).dom().contains(entries[i].nonce),
        table(entries)[entries[i].nonce] == entries[i].state,
{
    let nonce = entries[i].nonce;
    assert(holds(entries, nonce));
    let k = index_of(entries, nonce);
    assert(0 <= k < entries.len() && entries[k].nonce == nonce);
}

/// A new line for a nonce that no line is for adds that nonce to the table
/// and keeps the lines free of repeats.
pub proof fn lemma_table_push(entries: Seq<Entry>, entry: Entry)
    requires
        distinct(entries),
        !holds(entries, entry.nonce),
    ensures
        distinct(entries.push(entry)),
        table(entries.push(entry)) == table(entries).insert(entry.nonce, entry.state),
{
    let after = entries.push(entry);
    assert forall|i: int, j: int|
        0 <= i < after.len() && 0 <= j < after.len() && i != j implies (#[trigger] after[i]).nonce
        != (#[trigger] after[j]).nonce by {
        if i < entries.len() {
            assert(after[i] == entries[i]);
        }
        if j < entries.len() {
            assert(after[j] == entries[j]);
        }
    }
    let want = table(entries).insert(entry.nonce, entry.state);
    assert forall|nonce: Seq<char>| #[trigger]
        table(after).dom().contains(nonce) == want.dom().contains(nonce) by {
        if holds(after, nonce) {
            let k = index_of(after, nonce);
            if k < entries.len() {
                assert(entries[k].nonce == nonce);
            }
        }
        if holds(entries, nonce) {
            let k = index_of(entries, nonce);
            assert(after[k] == entries[k]);
        }
        if nonce == entry.nonce {
            assert(after[entries.len() as int] == entry);
        }
    }
    assert forall|nonce: Seq<char>| #[trigger]
        want.dom().contains(nonce) implies table(after)[nonce] == want[nonce] by {
        if nonce == entry.nonce {
            assert(after[entries.len() as int] == entry);
            lemma_table_lookup(after, entries.len() as int);
        } else {
            let k = index_of(entries, nonce);
            assert(after[k] == entries[k]);
            lemma_table_lookup(after, k);
        }
    }
    assert(table(after) =~= want);
}

/// A new state in the line of a nonce changes that nonce's state in the
/// table and keeps the lines free of repeats.
pub proof fn lemma_table_update(entries: Seq<Entry>, i: int, state: Binding)
    requires
        distinct(entries),
        0 <= i < entries.len(),
    ensures
        distinct(entries.update(i, Entry { nonce: entries[i].nonce, state: state })),
        table(entries.update(i, Entry { nonce: entries[i].nonce, state: state })) == table(
            entries,
        ).insert(entries[i].nonce, state),
{
    let entry = Entry { nonce: entries[i].nonce, state: state };
    let after = entries.update(i, entry);
    assert forall|a: int, b: int|
        0 <= a < after.len() && 0 <= b < after.len() && a != b implies (#[trigger] after[a]).nonce
        != (#[trigger] after[b]).nonce by {
        assert(after[a].nonce == entries[a].nonce);
        assert(after[b].nonce == entries[b].nonce);
    }
    let want = table(entries).insert(entry.nonce, state);
    assert forall|nonce: Seq<char>| #[trigger]
        table(after).dom().contains(nonce) == want.dom().contains(nonce) by {
        if holds(after, nonce) {
            let k = index_of(after, nonce);
            assert(entries[k].nonce == nonce);
        }
        if holds(entries, nonce) {
            let k = index_of(entries, nonce);
            assert(after[k].nonce == nonce);
        }
        if nonce == entry.nonce {
            assert(after[i] == entry);
        }
    }
    assert forall|nonce: Seq<char>| #[trigger]
        want.dom().contains(nonce) implies table(after)[nonce] == want[nonce] by {
        if nonce == entry.nonce {
            assert(after[i] == entry);
            lemma_table_lookup(after, i);
        } else {
            let k = index_of(entries, nonce);
            assert(k != i);
            assert(after[k] == entries[k]);
            lemma_table_lookup(after, k);
            lemma_table_lookup(entries, k);
        }
    }
    assert(table(after) =~= want);
}

/// A binding keeps the lines free of repeats and the table's nonces the
/// same: it neither issues nor removes one. Where it is accepted, it sets
/// the state of its nonce in the table and of no other; where it is refused,
/// the lines stay as they were.
pub proof fn lemma_bind_entries(entries: Seq<Entry>, nonce: Seq<char>, identity: Seq<char>)
    requires
        distinct(entries),
    ensures
        distinct(bind_entries(entries, nonce, identity)),
        table(bind_entries(entries, nonce, identity)).dom() == table(entries).dom(),
        bind_outcome(table(entries), nonce) is Ok ==> table(bind_entries(entries, nonce, identity))
            == table(entries).insert(nonce, Binding::Bound(identity)),
        bind_outcome(table(entries), nonce) is Err ==> bind_entries(entries, nonce, identity)
            == entries,
{
    if bind_outcome(table(entries), nonce) is Ok {
        let i = index_of(entries, nonce);
        assert(holds(entries, nonce));
        lemma_table_update(entries, i, Binding::Bound(identity));
        assert(table(entries).insert(nonce, Binding::Bound(identity)).dom() =~= table(
            entries,
        ).dom());
    }
}

/// No binding removes a nonce from the table, and none changes the state of
/// a nonce that is bound: once bound, a nonce stays bound to the same
/// identity.
pub proof fn lemma_bound_is_terminal(
    entries: Seq<Entry>,
    bound: Seq<char>,
    nonce: Seq<char>,
    identity: Seq<char>,
)
    requires
        distinct(entries),
        table(entries).dom().contains(bound),
        table(entries)[bound] is Bound,
    ensures
        table(bind_entries(entries, nonce, identity)).dom().contains(bound),
        table(bind_entries(entries, nonce, identity))[bound] == table(entries)[bound],
{
    lemma_bind_entries(entries, nonce, identity);
}

/// Two challenges issued one after the other have different nonces,
/// whatever was bound in between: a nonce that is issued is not in the table
/// before, and the first is in it from then on.
pub proof fn lemma_issued_nonces_differ(
    entries: Seq<Entry>,
    first: Seq<char>,
    nonce: Seq<char>,
    identity: Seq<char>,
    second: Seq<char>,
)
    requires
        distinct(entries),
        !table(entries).dom().contains(first),
        !table(
            bind_entries(
                entries.push(Entry { nonce: first, state: Binding::Pending }),
                nonce,
                identity,
            ),
        ).dom().contains(second),
    ensures
        first != second,
{
    let issued = entries.push(Entry { nonce: first, state: Binding::Pending });
    lemma_table_push(entries, Entry { nonce: first, state: Binding::Pending });
    lemma_bind_entries(issued, nonce, identity);
}

/// The identities of two runs of lines, one after the other, are those of
/// the first followed by those of the second.
pub proof fn lemma_bound_identities_concat(a: Seq<Entry>, b: Seq<Entry>)
    ensures
        bound_identities(a + b) == bound_identities(a) + bound_identities(b),
    decreases b.len(),
{
    if b.len() == 0 {
        assert(a + b =~= a);
        assert(bound_identities(a) + bound_identities(b) =~= bound_identities(a));
    } else {
        assert((a + b).drop_last() =~= a + b.drop_last());
        assert((a + b).last() == b.last());
        lemma_bound_identities_concat(a, b.drop_last());
        let rest = bound_identities(a) + bound_identities(b.drop_last());
        match b.last().state {
            Binding::Bound(identity) => {
                assert(rest.push(identity) =~= bound_identities(a) + bound_identities(
                    b.drop_last(),
                ).push(identity));
            },
            Binding::Pending => {},
        }
    }
}

/// An identity is listed exactly where some line is bound to it.
pub proof fn lemma_bound_identities_contains(entries: Seq<Entry>, identity: Seq<char>)
    ensures
        bound_identities(entries).contains(identity) <==> exists|i: int|
            0 <= i < entries.len() && (#[trigger] entries[i]).state == Binding::Bound(identity),
    decreases entries.len(),
{
    if entries.len() > 0 {
        let front = entries.drop_last();
        let rest = bound_identities(front);
        lemma_bound_identities_contains(front, identity);
        if bound_identities(entries).contains(identity) {
            let k = choose|k: int|
                0 <= k < bound_identities(entries).len() && bound_identities(entries)[k]
                    == identity;
            if k < rest.len() {
                assert(rest[k] == identity);
                assert(rest.contains(identity));
                let i = choose|i: int|
                    0 <= i < front.len() && (#[trigger] front[i]).state == Binding::Bound(identity);
                assert(entries[i] == front[i]);
            } else {
                assert(entries[entries.len() - 1].state == Binding::Bound(identity));
            }
        }
        if exists|i: int|
            0 <= i < entries.len() && (#[trigger] entries[i]).state == Binding::Bound(identity) {
            let i = choose|i: int|
                0 <= i < entries.len() && (#[trigger] entries[i]).state == Binding::Bound(identity);
            if i < front.len() {
                assert(front[i] == entries[i]);
                assert(rest.contains(identity));
                let k = choose|k: int| 0 <= k < rest.len() && rest[k] == identity;
                assert(bound_identities(entries)[k] == identity);
            } else {
                assert(bound_identities(entries) == rest.push(identity));
                assert(bound_identities(entries)[rest.len() as int] == identity);
            }
        }
    }
}

/// A binding that is accepted adds its identity to the list, once, at the
/// place of its nonce among the bound ones, and moves no other.
pub proof fn lemma_bind_lists_identity(entries: Seq<Entry>, nonce: Seq<char>, identity: Seq<char>)
    requires
        distinct(entries),
        bind_outcome(table(entries), nonce) is Ok,
    ensures
        bound_identities(bind_entries(entries, nonce, identity)) == bound_identities(
            entries,
        ).insert(
            bound_identities(entries.take(index_of(entries, nonce))).len() as int,
            identity,
        ),
        bound_identities(bind_entries(entries, nonce, identity)).len() == bound_identities(
            entries,
        ).len() + 1,
{
    let i = index_of(entries, nonce);
    assert(holds(entries, nonce));
    lemma_table_lookup(entries, i);
    let entry = Entry { nonce: nonce, state: Binding::Bound(identity) };
    let after = entries.update(i, entry);
    let front = entries.take(i);
    let back = entries.skip(i + 1);
    assert(entries =~= front + seq![entries[i]] + back);
    assert(after =~= front + seq![entry] + back);
    lemma_bound_identities_concat(front + seq![entries[i]], back);
    lemma_bound_identities_concat(front, seq![entries[i]]);
    lemma_bound_identities_concat(front + seq![entry], back);
    lemma_bound_identities_concat(front, seq![entry]);
    assert(bound_identities(seq![entry]) =~= seq![identity]) by {
        reveal_with_fuel(bound_identities, 2);
        assert(seq![entry].drop_last() =~= Seq::<Entry>::empty());
        assert(seq![entry].last() == entry);
    }
    assert(bound_identities(seq![entries[i]]) =~= Seq::<Seq<char>>::empty()) by {
        reveal_with_fuel(bound_identities, 2);
        assert(seq![entries[i]].drop_last() =~= Seq::<Entry>::empty());
        assert(seq![entries[i]].last() == entries[i]);
    }
    let a = bound_identities(front);
    let b = bound_identities(back);
    assert(bound_identities(entries) =~= a + b);
    assert(bound_identities(after) =~= a + seq![identity] + b);
    assert((a + b).insert(a.len() as int, identity) =~= a + seq![identity] + b);
}

/// The challenges that were issued, each pending or bound to an identity.
pub struct ChallengeStore {
    records: Vec<ChallengeRecord>,
}

impl View for ChallengeStore {
    type V = Map<Seq<char>, Binding>;

    open spec fn view(&self) -> Map<Seq<char>, Binding> {
        table(self.entries())
    }
}

impl ChallengeStore {
    /// The lines of the table, in the order in which the nonces were issued.
    pub closed spec fn entries(&self) -> Seq<Entry> {
        self.records@.map_values(|r: ChallengeRecord| r@)
    }

    /// No nonce has two lines.
    pub open spec fn wf(&self) -> bool {
        distinct(self.entries())
    }

    /// An empty table.
    pub fn new() -> (store: Self)
        ensures
            store.wf(),
            store.entries() == Seq::<Entry>::empty(),
            store@ == Map::<Seq<char>, Binding>::empty(),
    {
        let store = ChallengeStore { records: Vec::new() };
        proof {
            assert(store.entries() =~= Seq::<Entry>::empty());
            assert(store@ =~= Map::<Seq<char>, Binding>::empty());
        }
        store
    }

    /// The place of the line for `nonce`, if there is one.
    fn find(&self, nonce: &String) -> (r: Option<usize>)
        ensures
            match r {
                Some(i) => i < self.entries().len() && self.entries()[i as int].nonce == nonce@
                    && self.records@[i as int]@ == self.entries()[i as int],
                None => !holds(self.entries(), nonce@),
            },
    {
        let mut i: usize = 0;
        while i < self.records.len()
            invariant
                i <= self.records.len(),
                self.entries().len() == self.records.len(),
                forall|j: int| 0 <= j < i ==> (#[trigger] self.entries()[j]).nonce != nonce@,
            decreases self.records.len() - i,
        {
            if self.records[i].nonce == *nonce {
                return Some(i);
            }
            i += 1;
        }
        None
    }

    /// The record of `nonce`, or `NotFound` where it was never issued.
    pub fn get(&self, nonce: &str) -> (r: Result<&ChallengeRecord, StoreError>)
        requires
            self.wf(),
        ensures
            match r {
                Ok(record) => self@.dom().contains(nonce@) && record@ == (Entry {
                    nonce: nonce@,
                    state: self@[nonce@],
                }),
                Err(e) => e == StoreError::NotFound && !self@.dom().contains(nonce@),
            },
    {
        let key = nonce.to_owned();
        match self.find(&key) {
            Some(i) => {
                proof {
                    lemma_table_lookup(self.entries(), i as int);
                }
                Ok(&self.records[i])
            },
            None => Err(StoreError::NotFound),
        }
    }

    /// Issues the nonce that is the hex of `bytes`: adds it as pending and
    /// returns it. Where the table holds that nonce already, nothing changes
    /// and nothing is returned.
    pub fn create_from(&mut self, bytes: &[u8; 32]) -> (r: Option<String>)
        requires
            old(self).wf(),
        ensures
            final(self).wf(),
            match r {
                Some(nonce) => nonce@ == hex_encoded(bytes@) && !old(self)@.dom().contains(nonce@)
                    && final(self).entries() == old(self).entries().push(
                    Entry { nonce: nonce@, state: Binding::Pending },
                ) && final(self)@ == old(self)@.insert(nonce@, Binding::Pending),
                None => old(self)@.dom().contains(hex_encoded(bytes@)) && final(self).entries()
                    == old(self).entries(),
            },
    {
        let nonce = encode_hex(bytes.as_slice());
        match self.find(&nonce) {
            Some(i) => {
                proof {
                    lemma_table_lookup(self.entries(), i as int);
                }
                None
            },
            None => {
                let record = ChallengeRecord { nonce: nonce.clone(), state: ChallengeState::Pending };
                proof {
                    lemma_table_push(self.entries(), record@);
                }
                self.records.push(record);
                proof {
                    assert(self.entries() =~= old(self).entries().push(record@));
                }
                Some(nonce)
            },
        }
    }

    /// Issues a nonce made of 32 random bytes: adds it as pending and
    /// returns it. Where the bytes drawn give a nonce that the table holds
    /// already, nothing changes and nothing is returned.
    pub fn create(&mut self) -> (r: Option<String>)
        requires
            old(self).wf(),
        ensures
            final(self).wf(),
            match r {
                Some(nonce) => is_nonce(nonce@) && !old(self)@.dom().contains(nonce@)
                    && final(self).entries() == old(self).entries().push(
                    Entry { nonce: nonce@, state: Binding::Pending },
                ) && final(self)@ == old(self)@.insert(nonce@, Binding::Pending),
                None => final(self).entries() == old(self).entries() && old(self).entries().len()
                    > 0,
            },
    {
        let bytes = random_bytes();
        proof {
            lemma_hex_round_trip(bytes@);
        }
        self.create_from(&bytes)
    }

    /// Binds the pending `nonce` to `identity`. A nonce that was never
    /// issued, or that is bound already, is refused and nothing changes.
    pub fn bind(&mut self, nonce: &str, identity: &str) -> (r: Result<(), StoreError>)
        requires
            old(self).wf(),
        ensures
            final(self).wf(),
            r == bind_outcome(old(self)@, nonce@),
            final(self).entries() == bind_entries(old(self).entries(), nonce@, identity@),
            r is Ok ==> final(self)@ == old(self)@.insert(nonce@, Binding::Bound(identity@)),
            r is Err ==> final(self)@ == old(self)@,
    {
        let key = nonce.to_owned();
        match self.find(&key) {
            None => Err(StoreError::NotFound),
            Some(i) => {
                proof {
                    lemma_table_lookup(self.entries(), i as int);
                }
                let pending = match &self.records[i].state {
                    ChallengeState::Pending => true,
                    ChallengeState::Bound(_) => false,
                };
                if pending {
                    let record = ChallengeRecord {
                        nonce: key,
                        state: ChallengeState::Bound(identity.to_owned()),
                    };
                    proof {
                        lemma_table_update(self.entries(), i as int, record@.state);
                    }
                    self.records.set(i, record);
                    proof {
                        assert(self.entries() =~= old(self).entries().update(i as int, record@));
                    }
                    Ok(())
                } else {
                    Err(StoreError::AlreadyBound)
                }
            },
        }
    }

    /// The identities that nonces are bound to, in the order in which those
    /// nonces were issued.
    pub fn list_bound(&self) -> (r: Vec<String>)
        ensures
            r@.map_values(|s: String| s@) == bound_identities(self.entries()),
    {
        let mut out: Vec<String> = Vec::new();
        let mut i: usize = 0;
        while i < self.records.len()
            invariant
                i <= self.records.len(),
                self.entries().len() == self.records.len(),
                out@.map_values(|s: String| s@) == bound_identities(self.entries().take(i as int)),
            decreases self.records.len() - i,
        {
            proof {
                let next = self.entries().take(i + 1);
                assert(next.drop_last() =~= self.entries().take(i as int));
                assert(next.last() == self.entries()[i as int]);
            }
            let ghost before = out@.map_values(|s: String| s@);
            match &self.records[i].state {
                ChallengeState::Bound(identity) => {
                    let copy = identity.clone();
                    out.push(copy);
                    proof {
                        assert(out@.map_values(|s: String| s@) =~= before.push(identity@));
                    }
                },
                ChallengeState::Pending => {},
            }
            i += 1;
        }
        proof {
            assert(self.entries().take(i as int) =~= self.entries());
        }
        out
    }
}

} // verus!
