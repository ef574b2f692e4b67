use vstd::prelude::*;
use crate::protocol::bytes_equal;

verus! {

/// What `m` holds under `name`, as the option a lookup returns.
pub open spec fn entry_of<T>(m: Map<Seq<u8>, T>, name: Seq<u8>) -> Option<T> {
    if m.contains_key(name) {
        Option::Some(m[name])
    } else {
        Option::None
    }
}

/// The map of waiting providers: service name to the provider's connection.
///
/// Each name appears at most once. Registering a name that is already held
/// hands the earlier connection back to the caller, which closes it; a request
/// removes the entry it is given, so no connection is handed out twice.
pub struct Registry<T> {
    entries: Vec<(Vec<u8>, T)>,
    contents: Ghost<Map<Seq<u8>, T>>,
}

impl<T> View for Registry<T> {
    type V = Map<Seq<u8>, T>;

    closed spec fn view(&self) -> Map<Seq<u8>, T> {
        self.contents@
    }
}

impl<T> Registry<T> {
    pub closed spec fn well_formed(&self) -> bool {
        let e = self.entries@;
        let m = self.contents@;
        &&& forall|i: int|
            0 <= i < e.len() ==> #[trigger] m.contains_key(e[i].0@) && m[e[i].0@] == e[i].1
        &&& forall|k: Seq<u8>|
            #[trigger] m.contains_key(k) ==> exists|i: int| 0 <= i < e.len() && e[i].0@ == k
        &&& forall|i: int, j: int|
            0 <= i < e.len() && 0 <= j < e.len() && i != j ==> e[i].0@ != e[j].0@
    }

    /// An empty registry.
    pub fn new() -> (r: Self)
        ensures
            r.well_formed(),
            r@ == Map::<Seq<u8>, T>::empty(),
    {
        Registry { entries: Vec::new(), contents: Ghost(Map::empty()) }
    }

    /// Position of the entry for `name`.
    fn position(&self, name: &[u8]) -> (r: Option<usize>)
        requires
            self.well_formed(),
        ensures
            match r {
                Option::Some(i) => i < self.entries@.len() && self.entries@[i as int].0@ == name@,
                Option::None => !self@.contains_key(name@),
            },
    {
        let mut i: usize = 0;
        while i < self.entries.len()
            invariant
                self.well_formed(),
                i <= self.entries@.len(),
                forall|j: int| 0 <= j < i ==> self.entries@[j].0@ != name@,
            decreases self.entries@.len() - i,
        {
            if bytes_equal(self.entries[i].0.as_slice(), name) {
                return Option::Some(i);
            }
            i = i + 1;
        }
        proof {
            if self@.contains_key(name@) {
                let k = name@;
                assert(self.contents@.contains_key(k));
            }
        }
        Option::None
    }

    /// Removes and returns the connection registered under `name`.
    pub fn take_for_request(&mut self, name: &[u8]) -> (r: Option<T>)
        requires
            old(self).well_formed(),
        ensures
            final(self).well_formed(),
            r == entry_of(old(self)@, name@),
            final(self)@ == old(self)@.remove(name@),
    {
        match self.position(name) {
            Option::None => {
                assert(self@ =~= self@.remove(name@));
                Option::None
            },
            Option::Some(i) => {
                let ghost old_e = self.entries@;
                let ghost old_m = self.contents@;
                assert(old_m.contains_key(old_e[i as int].0@));
                let (_, t) = self.entries.remove(i);
                self.contents = Ghost(old_m.remove(name@));
                let ghost e = self.entries@;
                let ghost m = self.contents@;
                assert forall|j: int| 0 <= j < e.len() implies #[trigger] m.contains_key(e[j].0@)
                    && m[e[j].0@] == e[j].1 by {
                    if j < i {
                        assert(e[j] == old_e[j]);
                        assert(old_m.contains_key(old_e[j].0@));
                    } else {
                        assert(e[j] == old_e[j + 1]);
                        assert(old_m.contains_key(old_e[j + 1].0@));
                    }
                }
                assert forall|k: Seq<u8>| #[trigger] m.contains_key(k) implies exists|j: int|
                    0 <= j < e.len() && e[j].0@ == k by {
                    assert(old_m.contains_key(k));
                    let w = choose|j: int| 0 <= j < old_e.len() && old_e[j].0@ == k;
                    if w < i {
                        assert(e[w] == old_e[w]);
                    } else {
                        assert(w != i);
                        assert(e[w - 1] == old_e[w]);
                    }
                }
                assert forall|a: int, b: int|
                    0 <= a < e.len() && 0 <= b < e.len() && a != b implies e[a].0@ != e[b].0@ by {
                    let oa = if a < i { a } else { a + 1 };
                    let ob = if b < i { b } else { b + 1 };
                    assert(e[a] == old_e[oa]);
                    assert(e[b] == old_e[ob]);
                }
                Option::Some(t)
            },
        }
    }

    /// Registers `conn` under `name`, handing back the connection that held
    /// the name before, which the caller closes.
    pub fn register(&mut self, name: Vec<u8>, conn: T) -> (r: Option<T>)
        requires
            old(self).well_formed(),
        ensures
            final(self).well_formed(),
            r == entry_of(old(self)@, name@),
            final(self)@ == old(self)@.insert(name@, conn),
    {
        let evicted = self.take_for_request(name.as_slice());
        let ghost old_e = self.entries@;
        let ghost old_m = self.contents@;
        let ghost k = name@;
        assert forall|j: int| 0 <= j < old_e.len() implies old_e[j].0@ != k by {
            assert(old_m.contains_key(old_e[j].0@));
        }
        self.entries.push((name, conn));
        self.contents = Ghost(old_m.insert(k, conn));
        let ghost e = self.entries@;
        let ghost m = self.contents@;
        assert forall|j: int| 0 <= j < e.len() implies #[trigger] m.contains_key(e[j].0@)
            && m[e[j].0@] == e[j].1 by {
            if j < old_e.len() {
                assert(e[j] == old_e[j]);
                assert(old_m.contains_key(old_e[j].0@));
            }
        }
        assert forall|q: Seq<u8>| #[trigger] m.contains_key(q) implies exists|j: int|
            0 <= j < e.len() && e[j].0@ == q by {
            if q == k {
                assert(e[old_e.len() as int].0@ == k);
            } else {
                assert(old_m.contains_key(q));
                let w = choose|j: int| 0 <= j < old_e.len() && old_e[j].0@ == q;
                assert(e[w] == old_e[w]);
            }
        }
        assert forall|a: int, b: int|
            0 <= a < e.len() && 0 <= b < e.len() && a != b implies e[a].0@ != e[b].0@ by {
            if a < old_e.len() {
                assert(e[a] == old_e[a]);
            }
            if b < old_e.len() {
                assert(e[b] == old_e[b]);
            }
        }
        evicted
    }
}

/// The registry's contents after each of `conns` is registered under `name`,
/// in order.
pub open spec fn after_registrations<T>(m: Map<Seq<u8>, T>, name: Seq<u8>, conns: Seq<T>) -> Map<
    Seq<u8>,
    T,
>
    decreases conns.len(),
{
    if conns.len() == 0 {
        m
    } else {
        after_registrations(m, name, conns.drop_last()).insert(name, conns.last())
    }
}

/// Registrations under one name: last writer wins. After any sequence of
/// registrations under `name`, the registry holds the connection of the last
/// one, every registration but the first hands back the connection of the one
/// just before it (which is then closed), and other names are untouched.
pub proof fn lemma_last_registration_wins<T>(m: Map<Seq<u8>, T>, name: Seq<u8>, conns: Seq<T>)
    requires
        conns.len() > 0,
    ensures
        entry_of(after_registrations(m, name, conns), name) == Option::Some(conns.last()),
        forall|k: int|
            0 < k < conns.len() ==> entry_of(
                #[trigger] after_registrations(m, name, conns.take(k)),
                name,
            ) == Option::Some(conns[k - 1]),
        after_registrations(m, name, conns).remove(name) == m.remove(name),
    decreases conns.len(),
{
    assert forall|k: int| 0 < k < conns.len() implies entry_of(
        #[trigger] after_registrations(m, name, conns.take(k)),
        name,
    ) == Option::Some(conns[k - 1]) by {
        assert(conns.take(k).last() == conns[k - 1]);
    }
    if conns.len() == 1 {
        assert(conns.drop_last().len() == 0);
        assert(after_registrations(m, name, conns.drop_last()) == m);
        assert(after_registrations(m, name, conns).remove(name) =~= m.remove(name));
    } else {
        lemma_last_registration_wins(m, name, conns.drop_last());
        assert(after_registrations(m, name, conns).remove(name) =~= after_registrations(
            m,
            name,
            conns.drop_last(),
        ).remove(name));
    }
}

/// At most one hand-out. Of two requests for a name that was just
/// registered, made one after the other as the registry orders them, the
/// first receives the registered connection and the second finds none.
pub proof fn lemma_single_hand_out<T>(m: Map<Seq<u8>, T>, name: Seq<u8>, conn: T)
    ensures
        entry_of(m.insert(name, conn), name) == Option::Some(conn),
        entry_of(m.insert(name, conn).remove(name), name) == Option::<T>::None,
{
}

} // verus!
