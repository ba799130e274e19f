use vstd::prelude::*;

verus! {

/// The registry of a computed value: the last value of each key, the keys each dependency
/// reads, the dependencies registered under each key (in registration order, once per
/// mention), each dependency's consumer, and the next dependency id.
pub struct ComputedView<T, F> {
    pub next_id: nat,
    pub dep_keys: Map<u32, Seq<Seq<char>>>,
    pub consumers: Map<u32, F>,
    pub key_ids: Map<Seq<char>, Seq<u32>>,
    pub values: Map<Seq<char>, T>,
}

/// A map held as a list of (text key, entry) pairs, each key once.
pub open spec fn str_assoc<X, Y>(s: Seq<(String, X)>, f: spec_fn(X) -> Y) -> Map<Seq<char>, Y> {
    Map::new(
        |k: Seq<char>| exists|i: int| 0 <= i < s.len() && s[i].0@ == k,
        |k: Seq<char>| f(s[choose|i: int| 0 <= i < s.len() && s[i].0@ == k].1),
    )
}

/// A map held as a list of (id, entry) pairs, each id once.
pub open spec fn id_assoc<X, Y>(s: Seq<(u32, X)>, f: spec_fn(X) -> Y) -> Map<u32, Y> {
    Map::new(
        |k: u32| exists|i: int| 0 <= i < s.len() && s[i].0 == k,
        |k: u32| f(s[choose|i: int| 0 <= i < s.len() && s[i].0 == k].1),
    )
}

pub open spec fn str_unique<X>(s: Seq<(String, X)>) -> bool {
    forall|i: int, j: int| 0 <= i < s.len() && 0 <= j < s.len() && i != j ==> s[i].0@ != s[j].0@
}

pub open spec fn id_unique<X>(s: Seq<(u32, X)>) -> bool {
    forall|i: int, j: int| 0 <= i < s.len() && 0 <= j < s.len() && i != j ==> s[i].0 != s[j].0
}

pub open spec fn strs(v: Vec<String>) -> Seq<Seq<char>> {
    v@.map_values(|s: String| s@)
}

proof fn lemma_str_assoc_at<X, Y>(s: Seq<(String, X)>, f: spec_fn(X) -> Y, i: int)
    requires
        str_unique(s),
        0 <= i < s.len(),
    ensures
        str_assoc(s, f).contains_key(s[i].0@),
        str_assoc(s, f)[s[i].0@] == f(s[i].1),
{
    let k = s[i].0@;
    let j = choose|j: int| 0 <= j < s.len() && s[j].0@ == k;
    assert(j == i);
}

proof fn lemma_id_assoc_at<X, Y>(s: Seq<(u32, X)>, f: spec_fn(X) -> Y, i: int)
    requires
        id_unique(s),
        0 <= i < s.len(),
    ensures
        id_assoc(s, f).contains_key(s[i].0),
        id_assoc(s, f)[s[i].0] == f(s[i].1),
{
    let k = s[i].0;
    let j = choose|j: int| 0 <= j < s.len() && s[j].0 == k;
    assert(j == i);
}

/// Changing the entry of a key changes the map at that key only.
proof fn lemma_str_assoc_update<X, Y>(s: Seq<(String, X)>, f: spec_fn(X) -> Y, i: int, x: X)
    requires
        str_unique(s),
        0 <= i < s.len(),
    ensures
        str_unique(s.update(i, (s[i].0, x))),
        str_assoc(s.update(i, (s[i].0, x)), f) == str_assoc(s, f).insert(s[i].0@, f(x)),
{
    let t = s.update(i, (s[i].0, x));
    let m = str_assoc(s, f).insert(s[i].0@, f(x));
    assert forall|k: Seq<char>| #[trigger] str_assoc(t, f).contains_key(k) == m.contains_key(k) by {
        if exists|j: int| 0 <= j < s.len() && s[j].0@ == k {
            let j = choose|j: int| 0 <= j < s.len() && s[j].0@ == k;
            assert(t[j].0@ == k);
        }
        if exists|j: int| 0 <= j < t.len() && t[j].0@ == k {
            let j = choose|j: int| 0 <= j < t.len() && t[j].0@ == k;
            assert(s[j].0@ == k);
        }
    }
    assert forall|k: Seq<char>| str_assoc(t, f).contains_key(k) implies #[trigger] str_assoc(t, f)[k] == m[k] by {
        let j = choose|j: int| 0 <= j < t.len() && t[j].0@ == k;
        lemma_str_assoc_at(t, f, j);
        if j != i {
            lemma_str_assoc_at(s, f, j);
        }
    }
    assert(str_assoc(t, f) =~= m);
}

/// A pair with a new key adds that key to the map.
proof fn lemma_str_assoc_push<X, Y>(s: Seq<(String, X)>, f: spec_fn(X) -> Y, key: String, x: X)
    requires
        str_unique(s),
        !str_assoc(s, f).contains_key(key@),
    ensures
        str_unique(s.push((key, x))),
        str_assoc(s.push((key, x)), f) == str_assoc(s, f).insert(key@, f(x)),
{
    let t = s.push((key, x));
    let m = str_assoc(s, f).insert(key@, f(x));
    assert forall|i: int, j: int| 0 <= i < t.len() && 0 <= j < t.len() && i != j implies t[i].0@ != t[j].0@ by {
        if i == s.len() {
            assert(!(0 <= j < s.len() && s[j].0@ == key@));
        } else if j == s.len() {
            assert(!(0 <= i < s.len() && s[i].0@ == key@));
        }
    }
    assert forall|k: Seq<char>| #[trigger] str_assoc(t, f).contains_key(k) == m.contains_key(k) by {
        if exists|j: int| 0 <= j < s.len() && s[j].0@ == k {
            let j = choose|j: int| 0 <= j < s.len() && s[j].0@ == k;
            assert(t[j].0@ == k);
        }
        if k == key@ {
            assert(t[s.len() as int].0@ == k);
        }
        if exists|j: int| 0 <= j < t.len() && t[j].0@ == k {
            let j = choose|j: int| 0 <= j < t.len() && t[j].0@ == k;
            if j < s.len() {
                assert(s[j].0@ == k);
            }
        }
    }
    assert forall|k: Seq<char>| str_assoc(t, f).contains_key(k) implies #[trigger] str_assoc(t, f)[k] == m[k] by {
        let j = choose|j: int| 0 <= j < t.len() && t[j].0@ == k;
        lemma_str_assoc_at(t, f, j);
        if j < s.len() {
            lemma_str_assoc_at(s, f, j);
        }
    }
    assert(str_assoc(t, f) =~= m);
}

/// A pair with a new id adds that id to the map.
proof fn lemma_id_assoc_push<X, Y>(s: Seq<(u32, X)>, f: spec_fn(X) -> Y, key: u32, x: X)
    requires
        id_unique(s),
        !id_assoc(s, f).contains_key(key),
    ensures
        id_unique(s.push((key, x))),
        id_assoc(s.push((key, x)), f) == id_assoc(s, f).insert(key, f(x)),
{
    let t = s.push((key, x));
    let m = id_assoc(s, f).insert(key, f(x));
    assert forall|i: int, j: int| 0 <= i < t.len() && 0 <= j < t.len() && i != j implies t[i].0 != t[j].0 by {
        if i == s.len() {
            assert(!(0 <= j < s.len() && s[j].0 == key));
        } else if j == s.len() {
            assert(!(0 <= i < s.len() && s[i].0 == key));
        }
    }
    assert forall|k: u32| #[trigger] id_assoc(t, f).contains_key(k) == m.contains_key(k) by {
        if exists|j: int| 0 <= j < s.len() && s[j].0 == k {
            let j = choose|j: int| 0 <= j < s.len() && s[j].0 == k;
            assert(t[j].0 == k);
        }
        if k == key {
            assert(t[s.len() as int].0 == k);
        }
        if exists|j: int| 0 <= j < t.len() && t[j].0 == k {
            let j = choose|j: int| 0 <= j < t.len() && t[j].0 == k;
            if j < s.len() {
                assert(s[j].0 == k);
            }
        }
    }
    assert forall|k: u32| id_assoc(t, f).contains_key(k) implies #[trigger] id_assoc(t, f)[k] == m[k] by {
        let j = choose|j: int| 0 <= j < t.len() && t[j].0 == k;
        lemma_id_assoc_at(t, f, j);
        if j < s.len() {
            lemma_id_assoc_at(s, f, j);
        }
    }
    assert(id_assoc(t, f) =~= m);
}

/// Removing the pair of an id removes that id from the map.
proof fn lemma_id_assoc_remove<X, Y>(s: Seq<(u32, X)>, f: spec_fn(X) -> Y, i: int)
    requires
        id_unique(s),
        0 <= i < s.len(),
    ensures
        id_unique(s.remove(i)),
        id_assoc(s.remove(i), f) == id_assoc(s, f).remove(s[i].0),
{
    let t = s.remove(i);
    let key = s[i].0;
    let m = id_assoc(s, f).remove(key);
    assert forall|a: int, b: int| 0 <= a < t.len() && 0 <= b < t.len() && a != b implies t[a].0 != t[b].0 by {
        let a1 = if a < i { a } else { a + 1 };
        let b1 = if b < i { b } else { b + 1 };
        assert(t[a] == s[a1]);
        assert(t[b] == s[b1]);
    }
    assert forall|k: u32| #[trigger] id_assoc(t, f).contains_key(k) == m.contains_key(k) by {
        if exists|j: int| 0 <= j < s.len() && s[j].0 == k {
            let j = choose|j: int| 0 <= j < s.len() && s[j].0 == k;
            if k != key {
                assert(j != i);
                let j1 = if j < i { j } else { j - 1 };
                assert(t[j1].0 == k);
            }
        }
        if exists|j: int| 0 <= j < t.len() && t[j].0 == k {
            let j = choose|j: int| 0 <= j < t.len() && t[j].0 == k;
            let j1 = if j < i { j } else { j + 1 };
            assert(s[j1].0 == k);
            assert(j1 != i);
        }
    }
    assert forall|k: u32| id_assoc(t, f).contains_key(k) implies #[trigger] id_assoc(t, f)[k] == m[k] by {
        let j = choose|j: int| 0 <= j < t.len() && t[j].0 == k;
        lemma_id_assoc_at(t, f, j);
        let j1 = if j < i { j } else { j + 1 };
        assert(t[j] == s[j1]);
        lemma_id_assoc_at(s, f, j1);
    }
    assert(id_assoc(t, f) =~= m);
}

proof fn lemma_without_idempotent(s: Seq<u32>, id: u32)
    ensures
        without_id(without_id(s, id), id) == without_id(s, id),
    decreases s.len(),
{
    if s.len() > 0 {
        lemma_without_idempotent(s.drop_last(), id);
        let w = without_id(s.drop_last(), id);
        if s.last() != id {
            assert(w.push(s.last()).drop_last() =~= w);
        }
    }
}

/// `s` without the entries equal to `id`.
fn without(s: &Vec<u32>, id: u32) -> (res: Vec<u32>)
    ensures
        res@ == without_id(s@, id),
{
    let mut res: Vec<u32> = Vec::new();
    let mut i: usize = 0;
    while i < s.len()
        invariant
            i <= s@.len(),
            res@ == without_id(s@.take(i as int), id),
        decreases s@.len() - i,
    {
        proof {
            assert(s@.take(i + 1).drop_last() =~= s@.take(i as int));
        }
        if s[i] != id {
            res.push(s[i]);
        }
        i = i + 1;
    }
    assert(s@.take(i as int) =~= s@);
    res
}

fn find_str<X>(s: &Vec<(String, X)>, k: &str) -> (res: Option<usize>)
    ensures
        match res {
            Some(i) => i < s@.len() && s@[i as int].0@ == k@,
            None => forall|i: int| 0 <= i < s@.len() ==> s@[i].0@ != k@,
        },
{
    let mut i: usize = 0;
    while i < s.len()
        invariant
            i <= s@.len(),
            forall|j: int| 0 <= j < i ==> s@[j].0@ != k@,
        decreases s@.len() - i,
    {
        if crate::strings::str_equals(s[i].0.as_str(), k) {
            return Some(i);
        }
        i = i + 1;
    }
    None
}

fn find_id<X>(s: &Vec<(u32, X)>, k: u32) -> (res: Option<usize>)
    ensures
        match res {
            Some(i) => i < s@.len() && s@[i as int].0 == k,
            None => forall|i: int| 0 <= i < s@.len() ==> s@[i].0 != k,
        },
{
    let mut i: usize = 0;
    while i < s.len()
        invariant
            i <= s@.len(),
            forall|j: int| 0 <= j < i ==> s@[j].0 != k,
        decreases s@.len() - i,
    {
        if s[i].0 == k {
            return Some(i);
        }
        i = i + 1;
    }
    None
}


/// The values of `ks` in order, where each of them has one.
pub open spec fn values_of<T>(values: Map<Seq<char>, T>, ks: Seq<Seq<char>>) -> Option<Seq<T>> {
    if forall|i: int| 0 <= i < ks.len() ==> values.contains_key(#[trigger] ks[i]) {
        Some(Seq::new(ks.len(), |i: int| values[ks[i]]))
    } else {
        None
    }
}

/// The registrations after adding `id` under each key of `ks`, in order.
pub open spec fn add_id(m: Map<Seq<char>, Seq<u32>>, ks: Seq<Seq<char>>, id: u32) -> Map<Seq<char>, Seq<u32>>
    decreases ks.len(),
{
    if ks.len() == 0 {
        m
    } else {
        let m1 = add_id(m, ks.drop_last(), id);
        let k = ks.last();
        m1.insert(k, (if m1.contains_key(k) { m1[k] } else { Seq::empty() }).push(id))
    }
}

/// `s` without the entries equal to `id`.
pub open spec fn without_id(s: Seq<u32>, id: u32) -> Seq<u32>
    decreases s.len(),
{
    if s.len() == 0 {
        s
    } else if s.last() == id {
        without_id(s.drop_last(), id)
    } else {
        without_id(s.drop_last(), id).push(s.last())
    }
}

/// The registrations after removing dependency `id` from the keys it reads.
pub open spec fn removed_id<T, F>(v: ComputedView<T, F>, id: u32) -> Map<Seq<char>, Seq<u32>> {
    Map::new(
        |k: Seq<char>| v.key_ids.contains_key(k),
        |k: Seq<char>| if v.dep_keys.contains_key(id) && v.dep_keys[id].contains(k) {
            without_id(v.key_ids[k], id)
        } else {
            v.key_ids[k]
        },
    )
}

/// The calls that a change runs, for the dependencies `ids` in order: each dependency that is
/// still registered, whose keys all have values, gets those values.
pub open spec fn notifications<T, F>(v: ComputedView<T, F>, ids: Seq<u32>) -> Seq<(u32, Seq<T>)>
    decreases ids.len(),
{
    if ids.len() == 0 {
        Seq::empty()
    } else {
        let prev = notifications(v, ids.drop_last());
        let id = ids.last();
        if v.dep_keys.contains_key(id) && v.consumers.contains_key(id)
            && values_of(v.values, v.dep_keys[id]) is Some {
            prev.push((id, values_of(v.values, v.dep_keys[id])->0))
        } else {
            prev
        }
    }
}

pub open spec fn ids_of<T, F>(v: ComputedView<T, F>, key: Seq<char>) -> Seq<u32> {
    if v.key_ids.contains_key(key) {
        v.key_ids[key]
    } else {
        Seq::empty()
    }
}

/// Whether the consumer of every notification accepted its values.
pub open spec fn notified<T, F: Fn(Vec<T>)>(consumers: Map<u32, F>, ns: Seq<(u32, Seq<T>)>) -> bool {
    forall|i: int| 0 <= i < ns.len() ==> exists|a: Vec<T>| a@ == #[trigger] ns[i].1
        && call_ensures(consumers[ns[i].0], (a,), ())
}

/// Values under text keys, and consumers that depend on lists of keys: a consumer runs with
/// the values of its keys when it is registered and whenever one of its keys changes, as long
/// as all of its keys have values.
pub struct ComputedValueInner<T, F> {
    next_id: u32,
    id2keys: Vec<(u32, Vec<String>)>,
    consumers: Vec<(u32, F)>,
    keys: Vec<(String, Vec<u32>)>,
    values: Vec<(String, T)>,
}

impl<T, F> View for ComputedValueInner<T, F> {
    type V = ComputedView<T, F>;

    closed spec fn view(&self) -> ComputedView<T, F> {
        ComputedView {
            next_id: self.next_id as nat,
            dep_keys: id_assoc(self.id2keys@, |v: Vec<String>| strs(v)),
            consumers: id_assoc(self.consumers@, |f: F| f),
            key_ids: str_assoc(self.keys@, |v: Vec<u32>| v@),
            values: str_assoc(self.values@, |t: T| t),
        }
    }
}

pub open spec fn computed_wf<T, F: Fn(Vec<T>)>(v: ComputedView<T, F>) -> bool {
    &&& v.next_id >= 1
    &&& forall|id: u32| v.dep_keys.contains_key(id) ==> id < v.next_id
    &&& forall|id: u32| v.consumers.contains_key(id) ==> id < v.next_id
    &&& forall|id: u32, a: Vec<T>| v.consumers.contains_key(id) ==> call_requires(v.consumers[id], (a,))
}

impl<T: Copy, F: Fn(Vec<T>)> ComputedValueInner<T, F> {
    closed spec fn lists_unique(&self) -> bool {
        &&& id_unique(self.id2keys@)
        &&& id_unique(self.consumers@)
        &&& str_unique(self.keys@)
        &&& str_unique(self.values@)
    }

    pub closed spec fn wf(&self) -> bool {
        self.lists_unique() && computed_wf(self@)
    }

    pub fn new() -> (res: Self)
        ensures
            res.wf(),
            res@.next_id == 1,
            res@.dep_keys == Map::<u32, Seq<Seq<char>>>::empty(),
            res@.consumers == Map::<u32, F>::empty(),
            res@.key_ids == Map::<Seq<char>, Seq<u32>>::empty(),
            res@.values == Map::<Seq<char>, T>::empty(),
    {
        let res = ComputedValueInner { next_id: 1, consumers: Vec::new(), keys: Vec::new(), values: Vec::new(), id2keys: Vec::new() };
        assert(res@.dep_keys =~= Map::<u32, Seq<Seq<char>>>::empty());
        assert(res@.consumers =~= Map::<u32, F>::empty());
        assert(res@.key_ids =~= Map::<Seq<char>, Seq<u32>>::empty());
        assert(res@.values =~= Map::<Seq<char>, T>::empty());
        res
    }

    /// The value of `key`, where it has one.
    pub fn read_value(&self, key: &str) -> (res: Option<T>)
        requires
            self.wf(),
        ensures
            res == (if self@.values.contains_key(key@) { Some(self@.values[key@]) } else { None }),
    {
        match find_str(&self.values, key) {
            Some(i) => {
                proof {
                    lemma_str_assoc_at(self.values@, |t: T| t, i as int);
                }
                Some(self.values[i].1)
            },
            None => None,
        }
    }

    /// The values of `keys` in order, where each of them has one.
    pub fn get_values(&self, keys: &Vec<String>) -> (res: Option<Vec<T>>)
        requires
            self.wf(),
        ensures
            match res {
                Some(v) => values_of(self@.values, strs(*keys)) == Some(v@),
                None => values_of(self@.values, strs(*keys)) is None,
            },
    {
        let ghost ks = strs(*keys);
        let mut result: Vec<T> = Vec::new();
        let mut i: usize = 0;
        while i < keys.len()
            invariant
                i <= keys@.len(),
                ks == strs(*keys),
                self.wf(),
                result@.len() == i,
                forall|j: int| 0 <= j < i ==> self@.values.contains_key(#[trigger] ks[j]),
                forall|j: int| 0 <= j < i ==> result@[j] == self@.values[#[trigger] ks[j]],
            decreases keys@.len() - i,
        {
            match find_str(&self.values, keys[i].as_str()) {
                Some(p) => {
                    proof {
                        lemma_str_assoc_at(self.values@, |t: T| t, p as int);
                    }
                    result.push(self.values[p].1);
                },
                None => {
                    proof {
                        assert(!self@.values.contains_key(ks[i as int]));
                    }
                    return None;
                },
            }
            i = i + 1;
        }
        proof {
            assert(result@ =~= Seq::new(ks.len(), |j: int| self@.values[ks[j]]));
        }
        Some(result)
    }

    /// Adds `id` under `key`.
    fn add_key_id(&mut self, key: &String, id: u32)
        requires
            old(self).lists_unique(),
        ensures
            final(self).lists_unique(),
            final(self)@ == (ComputedView {
                key_ids: old(self)@.key_ids.insert(key@,
                    (if old(self)@.key_ids.contains_key(key@) { old(self)@.key_ids[key@] } else { Seq::empty() }).push(id)),
                ..old(self)@
            }),
    {
        match find_str(&self.keys, key.as_str()) {
            Some(i) => {
                proof {
                    lemma_str_assoc_at(self.keys@, |v: Vec<u32>| v@, i as int);
                }
                let mut list = self.keys[i].1.clone();
                assert(list@ =~= self.keys@[i as int].1@);
                list.push(id);
                let k = self.keys[i].0.clone();
                let ghost old_keys = self.keys@;
                self.keys.set(i, (k, list));
                proof {
                    lemma_str_assoc_update(old_keys, |v: Vec<u32>| v@, i as int, list);
                }
            },
            None => {
                let mut list: Vec<u32> = Vec::new();
                list.push(id);
                let ghost old_keys = self.keys@;
                proof {
                    if str_assoc(old_keys, |v: Vec<u32>| v@).contains_key(key@) {
                        let j = choose|j: int| 0 <= j < old_keys.len() && old_keys[j].0@ == key@;
                        assert(old_keys[j].0@ != key@);
                    }
                }
                let owned = key.clone();
                self.keys.push((owned, list));
                proof {
                    lemma_str_assoc_push(old_keys, |v: Vec<u32>| v@, owned, list);
                    assert(list@ =~= Seq::<u32>::empty().push(id));
                }
            },
        }
    }

    /// Registers `consumer` for `keys` and returns its id; where all the keys have values, the
    /// consumer runs at once with them.
    pub fn register_dep(&mut self, keys: &Vec<String>, consumer: F) -> (res: u32)
        requires
            old(self).wf(),
            old(self)@.next_id < u32::MAX,
            forall|a: Vec<T>| call_requires(consumer, (a,)),
        ensures
            final(self).wf(),
            res == old(self)@.next_id,
            final(self)@ == (ComputedView {
                next_id: old(self)@.next_id + 1,
                dep_keys: old(self)@.dep_keys.insert(res, strs(*keys)),
                consumers: old(self)@.consumers.insert(res, consumer),
                key_ids: add_id(old(self)@.key_ids, strs(*keys), res),
                values: old(self)@.values,
            }),
            values_of(old(self)@.values, strs(*keys)) matches Some(vs) ==> exists|a: Vec<T>| a@ == vs
                && call_ensures(consumer, (a,), ()),
    {
        if let Some(v) = self.get_values(keys) {
            consumer(v);
        }
        let id = self.next_id;
        self.next_id = self.next_id + 1;
        let owned_keys = keys.clone();
        proof {
            assert(owned_keys@ =~= keys@);
        }
        let ghost old_ids = self.id2keys@;
        proof {
            if id_assoc(old_ids, |v: Vec<String>| strs(v)).contains_key(id) {
                let j = choose|j: int| 0 <= j < old_ids.len() && old_ids[j].0 == id;
                lemma_id_assoc_at(old_ids, |v: Vec<String>| strs(v), j);
            }
        }
        self.id2keys.push((id, owned_keys));
        proof {
            lemma_id_assoc_push(old_ids, |v: Vec<String>| strs(v), id, owned_keys);
        }
        let ghost old_cons = self.consumers@;
        proof {
            if id_assoc(old_cons, |f: F| f).contains_key(id) {
                let j = choose|j: int| 0 <= j < old_cons.len() && old_cons[j].0 == id;
                lemma_id_assoc_at(old_cons, |f: F| f, j);
            }
        }
        self.consumers.push((id, consumer));
        proof {
            lemma_id_assoc_push(old_cons, |f: F| f, id, consumer);
        }
        let ghost ks = strs(*keys);
        let ghost base = self@.key_ids;
        let mut i: usize = 0;
        proof {
            assert(ks.take(0) =~= Seq::<Seq<char>>::empty());
        }
        while i < keys.len()
            invariant
                i <= keys@.len(),
                ks == strs(*keys),
                self.lists_unique(),
                self@.key_ids == add_id(base, ks.take(i as int), id),
                self@.next_id == id + 1,
                self@.dep_keys == old(self)@.dep_keys.insert(id, ks),
                self@.consumers == old(self)@.consumers.insert(id, consumer),
                self@.values == old(self)@.values,
            decreases keys@.len() - i,
        {
            self.add_key_id(&keys[i], id);
            proof {
                assert(ks.take(i + 1).drop_last() =~= ks.take(i as int));
                assert(ks.take(i + 1).last() == keys@[i as int]@);
            }
            i = i + 1;
        }
        proof {
            assert(ks.take(i as int) =~= ks);
            assert(computed_wf(self@));
        }
        id
    }

    /// Sets the value of `key`.
    fn set_value(&mut self, key: &str, value: T)
        requires
            old(self).wf(),
        ensures
            final(self).wf(),
            final(self)@ == (ComputedView { values: old(self)@.values.insert(key@, value), ..old(self)@ }),
    {
        let ghost old_values = self.values@;
        match find_str(&self.values, key) {
            Some(i) => {
                let k = self.values[i].0.clone();
                self.values.set(i, (k, value));
                proof {
                    lemma_str_assoc_update(old_values, |t: T| t, i as int, value);
                }
            },
            None => {
                let owned = key.to_owned();
                proof {
                    if str_assoc(old_values, |t: T| t).contains_key(key@) {
                        let j = choose|j: int| 0 <= j < old_values.len() && old_values[j].0@ == key@;
                        assert(old_values[j].0@ != key@);
                    }
                }
                self.values.push((owned, value));
                proof {
                    lemma_str_assoc_push(old_values, |t: T| t, owned, value);
                }
            },
        }
    }

    /// Sets the value of `key`, then runs, in registration order, each consumer registered
    /// under `key` whose keys all have values, with those values.
    pub fn update(&mut self, key: &str, value: T)
        requires
            old(self).wf(),
        ensures
            final(self).wf(),
            final(self)@ == (ComputedView { values: old(self)@.values.insert(key@, value), ..old(self)@ }),
            notified(final(self)@.consumers, notifications(final(self)@, ids_of(old(self)@, key@))),
    {
        self.set_value(key, value);
        let ghost v = self@;
        match find_str(&self.keys, key) {
            Some(ki) => {
                proof {
                    lemma_str_assoc_at(self.keys@, |l: Vec<u32>| l@, ki as int);
                }
                let ghost ids = self.keys@[ki as int].1@;
                let n = self.keys[ki].1.len();
                let mut j: usize = 0;
                proof {
                    assert(ids.take(0) =~= Seq::<u32>::empty());
                }
                while j < n
                    invariant
                        self@ == v,
                        self.wf(),
                        ki < self.keys@.len(),
                        ids == self.keys@[ki as int].1@,
                        n == ids.len(),
                        j <= n,
                        notified(v.consumers, notifications(v, ids.take(j as int))),
                    decreases n - j,
                {
                    let id = self.keys[ki].1[j];
                    let ghost prev = notifications(v, ids.take(j as int));
                    proof {
                        assert(ids.take(j + 1).drop_last() =~= ids.take(j as int));
                        assert(ids.take(j + 1).last() == id);
                    }
                    match find_id(&self.id2keys, id) {
                        Some(d) => {
                            proof {
                                lemma_id_assoc_at(self.id2keys@, |l: Vec<String>| strs(l), d as int);
                            }
                            match self.get_values(&self.id2keys[d].1) {
                                Some(values) => {
                                    match find_id(&self.consumers, id) {
                                        Some(c) => {
                                            proof {
                                                lemma_id_assoc_at(self.consumers@, |f: F| f, c as int);
                                            }
                                            let ghost args = values@;
                                            let consumer = &self.consumers[c].1;
                                            consumer(values);
                                            proof {
                                                let now = notifications(v, ids.take(j + 1));
                                                assert(now == prev.push((id, args)));
                                                assert forall|m: int| 0 <= m < now.len() implies exists|a: Vec<T>| a@ == #[trigger] now[m].1
                                                    && call_ensures(v.consumers[now[m].0], (a,), ()) by {
                                                    if m < prev.len() {
                                                        assert(now[m] == prev[m]);
                                                    } else {
                                                        assert(values@ == now[m].1);
                                                    }
                                                }
                                            }
                                        },
                                        None => {
                                            proof {
                                                if v.consumers.contains_key(id) {
                                                    let q = choose|q: int| 0 <= q < self.consumers@.len() && self.consumers@[q].0 == id;
                                                    assert(self.consumers@[q].0 != id);
                                                }
                                            }
                                        },
                                    }
                                },
                                None => {},
                            }
                        },
                        None => {
                            proof {
                                if v.dep_keys.contains_key(id) {
                                    let q = choose|q: int| 0 <= q < self.id2keys@.len() && self.id2keys@[q].0 == id;
                                    assert(self.id2keys@[q].0 != id);
                                }
                            }
                        },
                    }
                    j = j + 1;
                }
                proof {
                    assert(ids.take(n as int) =~= ids);
                }
            },
            None => {
                proof {
                    if v.key_ids.contains_key(key@) {
                        let q = choose|q: int| 0 <= q < self.keys@.len() && self.keys@[q].0@ == key@;
                        assert(self.keys@[q].0@ != key@);
                    }
                    assert(notifications(v, Seq::<u32>::empty()) =~= Seq::<(u32, Seq<T>)>::empty());
                }
            },
        }
    }

    /// Removes the consumer `id` and takes it off the keys it reads.
    pub fn unregister_dep(&mut self, id: u32)
        requires
            old(self).wf(),
        ensures
            final(self).wf(),
            final(self)@ == (ComputedView {
                consumers: old(self)@.consumers.remove(id),
                key_ids: removed_id(old(self)@, id),
                ..old(self)@
            }),
    {
        let ghost v0 = self@;
        match find_id(&self.consumers, id) {
            Some(c) => {
                let ghost old_cons = self.consumers@;
                self.consumers.remove(c);
                proof {
                    lemma_id_assoc_remove(old_cons, |f: F| f, c as int);
                }
            },
            None => {
                proof {
                    if v0.consumers.contains_key(id) {
                        let q = choose|q: int| 0 <= q < self.consumers@.len() && self.consumers@[q].0 == id;
                        assert(self.consumers@[q].0 != id);
                    }
                    assert(v0.consumers.remove(id) =~= v0.consumers);
                }
            },
        }
        let d = match find_id(&self.id2keys, id) {
            Some(d) => d,
            None => {
                proof {
                    if v0.dep_keys.contains_key(id) {
                        let q = choose|q: int| 0 <= q < self.id2keys@.len() && self.id2keys@[q].0 == id;
                        assert(self.id2keys@[q].0 != id);
                    }
                    assert(removed_id(v0, id) =~= v0.key_ids);
                }
                return;
            },
        };
        proof {
            lemma_id_assoc_at(self.id2keys@, |l: Vec<String>| strs(l), d as int);
        }
        let ghost ks = v0.dep_keys[id];
        let n = self.id2keys[d].1.len();
        let mut j: usize = 0;
        while j < n
            invariant
                self.lists_unique(),
                d < self.id2keys@.len(),
                self.id2keys@ == old(self).id2keys@,
                ks == strs(self.id2keys@[d as int].1),
                n == ks.len(),
                j <= n,
                self@.next_id == v0.next_id,
                self@.dep_keys == v0.dep_keys,
                self@.consumers == v0.consumers.remove(id),
                self@.values == v0.values,
                self@.key_ids == Map::new(
                    |k: Seq<char>| v0.key_ids.contains_key(k),
                    |k: Seq<char>| if ks.take(j as int).contains(k) { without_id(v0.key_ids[k], id) } else { v0.key_ids[k] },
                ),
            decreases n - j,
        {
            let ghost before = self@.key_ids;
            let key = &self.id2keys[d].1[j];
            proof {
                assert(ks[j as int] == key@);
            }
            match find_str(&self.keys, key.as_str()) {
                Some(p) => {
                    proof {
                        lemma_str_assoc_at(self.keys@, |l: Vec<u32>| l@, p as int);
                    }
                    let list = without(&self.keys[p].1, id);
                    let k = self.keys[p].0.clone();
                    let ghost old_keys = self.keys@;
                    self.keys.set(p, (k, list));
                    proof {
                        lemma_str_assoc_update(old_keys, |l: Vec<u32>| l@, p as int, list);
                        if ks.take(j as int).contains(key@) {
                            lemma_without_idempotent(v0.key_ids[key@], id);
                        }
                        assert forall|k2: Seq<char>| #![auto] ks.take(j + 1).contains(k2) == (ks.take(j as int).contains(k2) || k2 == key@) by {
                            assert(ks.take(j + 1) =~= ks.take(j as int).push(key@));
                            if ks.take(j as int).contains(k2) {
                                let q = choose|q: int| 0 <= q < ks.take(j as int).len() && ks.take(j as int)[q] == k2;
                                assert(ks.take(j + 1)[q] == k2);
                            }
                            if k2 == key@ {
                                assert(ks.take(j + 1)[j as int] == k2);
                            }
                        }
                        assert(self@.key_ids =~= Map::new(
                            |k: Seq<char>| v0.key_ids.contains_key(k),
                            |k: Seq<char>| if ks.take(j + 1).contains(k) { without_id(v0.key_ids[k], id) } else { v0.key_ids[k] },
                        ));
                    }
                },
                None => {
                    proof {
                        assert(!v0.key_ids.contains_key(key@)) by {
                            if v0.key_ids.contains_key(key@) {
                                assert(self@.key_ids.contains_key(key@));
                                let q = choose|q: int| 0 <= q < self.keys@.len() && self.keys@[q].0@ == key@;
                                assert(self.keys@[q].0@ != key@);
                            }
                        }
                        assert forall|k2: Seq<char>| #![auto] ks.take(j + 1).contains(k2) == (ks.take(j as int).contains(k2) || k2 == key@) by {
                            assert(ks.take(j + 1) =~= ks.take(j as int).push(key@));
                            if ks.take(j as int).contains(k2) {
                                let q = choose|q: int| 0 <= q < ks.take(j as int).len() && ks.take(j as int)[q] == k2;
                                assert(ks.take(j + 1)[q] == k2);
                            }
                            if k2 == key@ {
                                assert(ks.take(j + 1)[j as int] == k2);
                            }
                        }
                        assert(self@.key_ids =~= Map::new(
                            |k: Seq<char>| v0.key_ids.contains_key(k),
                            |k: Seq<char>| if ks.take(j + 1).contains(k) { without_id(v0.key_ids[k], id) } else { v0.key_ids[k] },
                        ));
                    }
                },
            }
            j = j + 1;
        }
        proof {
            assert(ks.take(n as int) =~= ks);
            assert(self@.key_ids =~= removed_id(v0, id));
        }
    }
}

/// A shared computed value: values under text keys and the consumers that depend on them.
pub struct ComputedValue<T, F> {
    inner: ComputedValueInner<T, F>,
}

/// The registration of a consumer; `ComputedValue::remove_dep` ends it.
pub struct ComputedValueHandle {
    id: u32,
}

impl ComputedValueHandle {
    pub closed spec fn dep_id(&self) -> u32 {
        self.id
    }
}

impl<T, F> View for ComputedValue<T, F> {
    type V = ComputedView<T, F>;

    closed spec fn view(&self) -> ComputedView<T, F> {
        self.inner@
    }
}

impl<T: Copy, F: Fn(Vec<T>)> ComputedValue<T, F> {
    pub closed spec fn wf(&self) -> bool {
        self.inner.wf()
    }

    pub fn new() -> (res: Self)
        ensures
            res.wf(),
            res@.next_id == 1,
            res@.dep_keys == Map::<u32, Seq<Seq<char>>>::empty(),
            res@.consumers == Map::<u32, F>::empty(),
            res@.key_ids == Map::<Seq<char>, Seq<u32>>::empty(),
            res@.values == Map::<Seq<char>, T>::empty(),
    {
        ComputedValue { inner: ComputedValueInner::new() }
    }

    /// Sets the value of `key` and runs the consumers that depend on it (see
    /// `ComputedValueInner::update`).
    pub fn update_value(&mut self, key: &str, value: T)
        requires
            old(self).wf(),
        ensures
            final(self).wf(),
            final(self)@ == (ComputedView { values: old(self)@.values.insert(key@, value), ..old(self)@ }),
            notified(final(self)@.consumers, notifications(final(self)@, ids_of(old(self)@, key@))),
    {
        self.inner.update(key, value);
    }

    /// Makes `consumer` depend on `keys`; it runs at once where all of them have values.
    pub fn dep(&mut self, keys: &Vec<String>, consumer: F) -> (res: ComputedValueHandle)
        requires
            old(self).wf(),
            old(self)@.next_id < u32::MAX,
            forall|a: Vec<T>| call_requires(consumer, (a,)),
        ensures
            final(self).wf(),
            res.dep_id() == old(self)@.next_id,
            final(self)@ == (ComputedView {
                next_id: old(self)@.next_id + 1,
                dep_keys: old(self)@.dep_keys.insert(res.dep_id(), strs(*keys)),
                consumers: old(self)@.consumers.insert(res.dep_id(), consumer),
                key_ids: add_id(old(self)@.key_ids, strs(*keys), res.dep_id()),
                values: old(self)@.values,
            }),
            values_of(old(self)@.values, strs(*keys)) matches Some(vs) ==> exists|a: Vec<T>| a@ == vs
                && call_ensures(consumer, (a,), ()),
    {
        let id = self.inner.register_dep(keys, consumer);
        ComputedValueHandle { id }
    }

    /// Ends a registration: its consumer no longer runs.
    pub fn remove_dep(&mut self, handle: ComputedValueHandle)
        requires
            old(self).wf(),
        ensures
            final(self).wf(),
            final(self)@ == (ComputedView {
                consumers: old(self)@.consumers.remove(handle.dep_id()),
                key_ids: removed_id(old(self)@, handle.dep_id()),
                ..old(self)@
            }),
    {
        self.inner.unregister_dep(handle.id);
    }
}

} // verus!