//! The subscription registry: exact-match topic filters to duplicate-free
//! membership lists.

use vstd::prelude::*;

verus! {

/// The membership lists of a list of strings, as plain character sequences.
pub open spec fn spec_views(l: Seq<String>) -> Seq<Seq<char>> {
    Seq::new(l.len(), |i: int| l[i]@)
}

/// One topic filter and the clients subscribed to it.
pub struct TopicEntry {
    pub topic: String,
    pub subscribers: Vec<String>,
}

/// The subscription registry: topic filter (exact-match string) to the set
/// of subscribed client identifiers, kept free of duplicates.
pub struct TopicHandler {
    pub entries: Vec<TopicEntry>,
}

/// What one subscription does to a membership list: nothing when the client
/// is already there, else it joins at the end.
pub open spec fn spec_subscribe_list(l: Seq<Seq<char>>, c: Seq<char>) -> Seq<Seq<char>> {
    if l.contains(c) {
        l
    } else {
        l.push(c)
    }
}

/// A membership list with every occurrence of `c` removed, order kept.
pub open spec fn spec_remove_client(l: Seq<Seq<char>>, c: Seq<char>) -> Seq<Seq<char>>
    decreases l.len(),
{
    if l.len() == 0 {
        Seq::<Seq<char>>::empty()
    } else {
        let rest = spec_remove_client(l.drop_last(), c);
        if l.last() == c {
            rest
        } else {
            rest.push(l.last())
        }
    }
}

impl TopicHandler {
    /// The registry as pairs of a topic filter and its membership list.
    pub open spec fn model(&self) -> Seq<(Seq<char>, Seq<Seq<char>>)> {
        Seq::new(self.entries@.len(), |i: int| (self.entries@[i].topic@, spec_views(self.entries@[i].subscribers@)))
    }

    /// Topics are unique and no membership list holds a client twice.
    pub open spec fn wf(&self) -> bool {
        &&& forall|i: int, j: int|
            0 <= i < j < self.model().len() ==> (#[trigger] self.model()[i]).0 != (#[trigger] self.model()[j]).0
        &&& forall|k: int|
            0 <= k < self.model().len() ==> list_unique((#[trigger] self.model()[k]).1)
    }

    /// The membership list of `topic`, empty when the topic has no entry.
    pub open spec fn subscribers_of(&self, topic: Seq<char>) -> Seq<Seq<char>> {
        match spec_topic_lookup(self.model(), topic) {
            Some(l) => l,
            None => Seq::<Seq<char>>::empty(),
        }
    }
}

/// No element appears twice.
pub open spec fn list_unique(l: Seq<Seq<char>>) -> bool {
    forall|i: int, j: int| 0 <= i < j < l.len() ==> l[i] != l[j]
}

/// The membership list registered for `topic`, if any.
pub open spec fn spec_topic_lookup(m: Seq<(Seq<char>, Seq<Seq<char>>)>, topic: Seq<char>) -> Option<Seq<Seq<char>>>
    decreases m.len(),
{
    if m.len() == 0 {
        None
    } else if m.last().0 == topic {
        Some(m.last().1)
    } else {
        spec_topic_lookup(m.drop_last(), topic)
    }
}

/// A topic registered nowhere looks up to nothing.
pub proof fn lemma_topic_lookup_none(m: Seq<(Seq<char>, Seq<Seq<char>>)>, topic: Seq<char>)
    requires
        forall|i: int| 0 <= i < m.len() ==> (#[trigger] m[i]).0 != topic,
    ensures
        spec_topic_lookup(m, topic) is None,
    decreases m.len(),
{
    if m.len() > 0 {
        assert(m.last() == m[m.len() - 1]);
        assert(forall|i: int| 0 <= i < m.drop_last().len() ==> #[trigger] m.drop_last()[i] == m[i]);
        lemma_topic_lookup_none(m.drop_last(), topic);
    }
}

/// A registered topic looks up to its membership list.
pub proof fn lemma_topic_lookup_some(m: Seq<(Seq<char>, Seq<Seq<char>>)>, k: int)
    requires
        0 <= k < m.len(),
        forall|i: int, j: int| 0 <= i < j < m.len() ==> (#[trigger] m[i]).0 != (#[trigger] m[j]).0,
    ensures
        spec_topic_lookup(m, m[k].0) == Some(m[k].1),
    decreases m.len(),
{
    assert(m.last() == m[m.len() - 1]);
    if k == m.len() - 1 {
    } else {
        assert(m.last().0 != m[k].0);
        assert(forall|i: int| 0 <= i < m.drop_last().len() ==> #[trigger] m.drop_last()[i] == m[i]);
        lemma_topic_lookup_some(m.drop_last(), k);
    }
}

/// Two registries of the same shape that agree on every entry whose topic is
/// not `f` look up every other topic alike.
pub proof fn lemma_topic_lookup_agrees(
    m1: Seq<(Seq<char>, Seq<Seq<char>>)>,
    m2: Seq<(Seq<char>, Seq<Seq<char>>)>,
    f: Seq<char>,
    g: Seq<char>,
)
    requires
        m1.len() == m2.len(),
        forall|k: int| 0 <= k < m1.len() ==> (#[trigger] m1[k]).0 == (#[trigger] m2[k]).0,
        forall|k: int| 0 <= k < m1.len() ==> ((#[trigger] m1[k]).0 != f ==> m1[k] == m2[k]),
        g != f,
    ensures
        spec_topic_lookup(m1, g) == spec_topic_lookup(m2, g),
    decreases m1.len(),
{
    if m1.len() > 0 {
        assert(m1.last() == m1[m1.len() - 1]);
        assert(m2.last() == m2[m2.len() - 1]);
        assert(forall|i: int| 0 <= i < m1.drop_last().len() ==> #[trigger] m1.drop_last()[i] == m1[i]);
        assert(forall|i: int| 0 <= i < m2.drop_last().len() ==> #[trigger] m2.drop_last()[i] == m2[i]);
        lemma_topic_lookup_agrees(m1.drop_last(), m2.drop_last(), f, g);
    }
}

/// Removing a client removes every occurrence: the result never contains it.
pub proof fn lemma_remove_client_total(l: Seq<Seq<char>>, c: Seq<char>)
    ensures
        !spec_remove_client(l, c).contains(c),
    decreases l.len(),
{
    if l.len() > 0 {
        lemma_remove_client_total(l.drop_last(), c);
        let rest = spec_remove_client(l.drop_last(), c);
        if l.last() != c {
            assert forall|i: int| 0 <= i < rest.push(l.last()).len() implies rest.push(l.last())[i] != c by {
                if i < rest.len() {
                    assert(rest.push(l.last())[i] == rest[i]);
                    assert(!rest.contains(c));
                }
            }
        }
    }
}

/// What survives the removal: exactly the other members.
pub proof fn lemma_remove_client_contains(l: Seq<Seq<char>>, c: Seq<char>, x: Seq<char>)
    ensures
        spec_remove_client(l, c).contains(x) <==> (l.contains(x) && x != c),
    decreases l.len(),
{
    if l.len() > 0 {
        lemma_remove_client_contains(l.drop_last(), c, x);
        let rest = spec_remove_client(l.drop_last(), c);
        assert(l.contains(x) <==> (l.drop_last().contains(x) || x == l.last())) by {
            if l.contains(x) {
                let k = choose|k: int| 0 <= k < l.len() && l[k] == x;
                if k < l.len() - 1 {
                    assert(l.drop_last()[k] == x);
                }
                assert(l.last() == l[l.len() - 1]);
            }
            if l.drop_last().contains(x) {
                let k = choose|k: int| 0 <= k < l.drop_last().len() && l.drop_last()[k] == x;
                assert(l[k] == x);
            }
        }
        if l.last() != c {
            assert(rest.push(l.last()).contains(x) <==> (rest.contains(x) || x == l.last())) by {
                if rest.push(l.last()).contains(x) {
                    let k = choose|k: int| 0 <= k < rest.push(l.last()).len() && rest.push(l.last())[k] == x;
                    if k < rest.len() {
                        assert(rest[k] == x);
                    }
                }
                if rest.contains(x) {
                    let k = choose|k: int| 0 <= k < rest.len() && rest[k] == x;
                    assert(rest.push(l.last())[k] == x);
                }
                assert(rest.push(l.last())[rest.len() as int] == l.last());
            }
        }
    }
}

/// Removal keeps a duplicate-free list duplicate-free.
pub proof fn lemma_remove_client_unique(l: Seq<Seq<char>>, c: Seq<char>)
    requires
        list_unique(l),
    ensures
        list_unique(spec_remove_client(l, c)),
    decreases l.len(),
{
    if l.len() > 0 {
        assert(forall|i: int| 0 <= i < l.drop_last().len() ==> #[trigger] l.drop_last()[i] == l[i]);
        lemma_remove_client_unique(l.drop_last(), c);
        let rest = spec_remove_client(l.drop_last(), c);
        if l.last() != c {
            assert(l.last() == l[l.len() - 1]);
            assert forall|i: int, j: int| 0 <= i < j < rest.push(l.last()).len() implies rest.push(
                l.last(),
            )[i] != rest.push(l.last())[j] by {
                if j < rest.len() {
                    assert(rest.push(l.last())[i] == rest[i]);
                    assert(rest.push(l.last())[j] == rest[j]);
                } else {
                    assert(rest.push(l.last())[i] == rest[i]);
                    assert(rest.push(l.last())[j] == l.last());
                    assert(rest.contains(rest[i]));
                    lemma_remove_client_contains(l.drop_last(), c, rest[i]);
                    let k = choose|k: int| 0 <= k < l.drop_last().len() && l.drop_last()[k] == rest[i];
                    assert(l[k] == rest[i]);
                }
            }
        }
    }
}

/// Subscribing twice leaves the same membership as subscribing once.
pub proof fn lemma_subscribe_idempotent(l: Seq<Seq<char>>, c: Seq<char>)
    ensures
        spec_subscribe_list(spec_subscribe_list(l, c), c) == spec_subscribe_list(l, c),
{
    if !l.contains(c) {
        assert(l.push(c)[l.len() as int] == c);
        assert(l.push(c).contains(c));
    }
}

impl TopicHandler {
    pub fn new() -> (r: Self)
        ensures
            r.wf(),
            r.model() == Seq::<(Seq<char>, Seq<Seq<char>>)>::empty(),
    {
        let r = TopicHandler { entries: Vec::new() };
        proof {
            assert(r.model() =~= Seq::<(Seq<char>, Seq<Seq<char>>)>::empty());
        }
        r
    }

    /// Subscribe `client_id` to `topic_filter`.  Idempotent: a client
    /// already in the membership list stays there once; all other topics
    /// keep their membership.
    pub fn subscribe(&mut self, client_id: &String, topic_filter: &String)
        requires
            old(self).wf(),
        ensures
            final(self).wf(),
            final(self).subscribers_of(topic_filter@) == spec_subscribe_list(
                old(self).subscribers_of(topic_filter@),
                client_id@,
            ),
            forall|g: Seq<char>|
                g != topic_filter@ ==> #[trigger] final(self).subscribers_of(g) == old(self).subscribers_of(g),
    {
        let ghost old_model = self.model();
        let mut i: usize = 0;
        let n = self.entries.len();
        while i < n
            invariant
                i <= n,
                n == self.entries@.len(),
                self.wf(),
                self.model() == old_model,
                old_model == old(self).model(),
                forall|k: int| 0 <= k < i ==> (#[trigger] old_model[k]).0 != topic_filter@,
            decreases n - i,
        {
            if self.entries[i].topic == *topic_filter {
                let ghost old_list = old_model[i as int].1;
                let mut present = false;
                let mut j: usize = 0;
                let subs_len = self.entries[i].subscribers.len();
                while j < subs_len
                    invariant
                        j <= subs_len,
                        i < self.entries@.len(),
                        subs_len == self.entries@[i as int].subscribers@.len(),
                        self.model() == old_model,
                        old_list == old_model[i as int].1,
                        if present {
                            old_list.contains(client_id@)
                        } else {
                            forall|k: int| 0 <= k < j ==> #[trigger] old_list[k] != client_id@
                        },
                    decreases subs_len - j,
                {
                    if self.entries[i].subscribers[j] == *client_id {
                        present = true;
                        proof {
                            assert(old_list[j as int] == client_id@);
                        }
                    }
                    j = j + 1;
                }
                if !present {
                    let mut entry = self.entries.remove(i);
                    entry.subscribers.push(client_id.clone());
                    self.entries.insert(i, entry);
                }
                proof {
                    let new_model = self.model();
                    assert(new_model.len() == old_model.len());
                    if present {
                        assert(new_model =~= old_model);
                        assert(old_list.contains(client_id@));
                    } else {
                        assert(forall|k: int|
                            0 <= k < old_model.len() && k != i ==> #[trigger] new_model[k] == old_model[k]);
                        assert(new_model[i as int].0 == topic_filter@);
                        assert(new_model[i as int].1 =~= old_list.push(client_id@));
                        assert(!old_list.contains(client_id@));
                    }
                    assert(forall|k: int|
                        0 <= k < new_model.len() ==> (#[trigger] new_model[k]).0 == (#[trigger] old_model[k]).0);
                    lemma_topic_lookup_some(old_model, i as int);
                    lemma_topic_lookup_some(new_model, i as int);
                    assert forall|g: Seq<char>| g != topic_filter@ implies #[trigger] spec_topic_lookup(
                        new_model,
                        g,
                    ) == spec_topic_lookup(old_model, g) by {
                        lemma_topic_lookup_agrees(new_model, old_model, topic_filter@, g);
                    }
                    if !present {
                        assert(list_unique(new_model[i as int].1)) by {
                            let nl = new_model[i as int].1;
                            assert forall|a: int, b: int| 0 <= a < b < nl.len() implies nl[a] != nl[b] by {
                                if b < old_list.len() {
                                    assert(nl[a] == old_list[a] && nl[b] == old_list[b]);
                                } else {
                                    assert(nl[a] == old_list[a] && nl[b] == client_id@);
                                    assert(old_list.contains(old_list[a]) ==> true);
                                    assert(!old_list.contains(client_id@));
                                }
                            }
                        }
                    }
                    assert(self.model() == new_model);
                    assert(old(self).model() == old_model);
                    assert(self.subscribers_of(topic_filter@) == spec_subscribe_list(
                        old(self).subscribers_of(topic_filter@),
                        client_id@,
                    ));
                    assert forall|g: Seq<char>| g != topic_filter@ implies #[trigger] self.subscribers_of(g)
                        == old(self).subscribers_of(g) by {
                        lemma_topic_lookup_agrees(new_model, old_model, topic_filter@, g);
                    }
                }
                return ;
            }
            i = i + 1;
        }
        let ghost old_model2 = self.model();
        self.entries.push(TopicEntry { topic: topic_filter.clone(), subscribers: vec![client_id.clone()] });
        proof {
            let new_model = self.model();
            assert(new_model.len() == old_model.len() + 1);
            assert(forall|k: int| 0 <= k < old_model.len() ==> #[trigger] new_model[k] == old_model[k]);
            assert(new_model.last().0 == topic_filter@);
            assert(new_model.last().1 =~= Seq::<Seq<char>>::empty().push(client_id@));
            lemma_topic_lookup_none(old_model, topic_filter@);
            assert(spec_topic_lookup(new_model, topic_filter@) == Some(new_model.last().1));
            assert(final(self).subscribers_of(topic_filter@) =~= spec_subscribe_list(
                Seq::<Seq<char>>::empty(),
                client_id@,
            ));
            assert forall|g: Seq<char>| g != topic_filter@ implies #[trigger] spec_topic_lookup(new_model, g)
                == spec_topic_lookup(old_model, g) by {
                assert(new_model.drop_last() =~= old_model);
            }
        }
    }

    /// Remove `client_id` from the membership of `topic_filter`; an empty
    /// entry may remain.  All other topics keep their membership.
    pub fn unsubscribe(&mut self, client_id: &String, topic_filter: &String)
        requires
            old(self).wf(),
        ensures
            final(self).wf(),
            final(self).subscribers_of(topic_filter@) == spec_remove_client(
                old(self).subscribers_of(topic_filter@),
                client_id@,
            ),
            forall|g: Seq<char>|
                g != topic_filter@ ==> #[trigger] final(self).subscribers_of(g) == old(self).subscribers_of(g),
    {
        let ghost old_model = self.model();
        let mut i: usize = 0;
        let n = self.entries.len();
        while i < n
            invariant
                i <= n,
                n == self.entries@.len(),
                self.wf(),
                self.model() == old_model,
                old_model == old(self).model(),
                forall|k: int| 0 <= k < i ==> (#[trigger] old_model[k]).0 != topic_filter@,
            decreases n - i,
        {
            if self.entries[i].topic == *topic_filter {
                let ghost old_list = old_model[i as int].1;
                let mut entry = self.entries.remove(i);
                let filtered = remove_client_exec(&entry.subscribers, client_id);
                entry.subscribers = filtered;
                self.entries.insert(i, entry);
                proof {
                    let new_model = self.model();
                    assert(new_model.len() == old_model.len());
                    assert(forall|k: int|
                        0 <= k < old_model.len() && k != i ==> #[trigger] new_model[k] == old_model[k]);
                    assert(new_model[i as int].0 == topic_filter@);
                    assert(new_model[i as int].1 == spec_remove_client(old_list, client_id@));
                    assert(forall|k: int|
                        0 <= k < new_model.len() ==> (#[trigger] new_model[k]).0 == (#[trigger] old_model[k]).0);
                    lemma_topic_lookup_some(old_model, i as int);
                    lemma_topic_lookup_some(new_model, i as int);
                    lemma_remove_client_unique(old_list, client_id@);
                    assert(self.model() == new_model);
                    assert(old(self).model() == old_model);
                    assert(self.subscribers_of(topic_filter@) == spec_remove_client(
                        old(self).subscribers_of(topic_filter@),
                        client_id@,
                    ));
                    assert forall|g: Seq<char>| g != topic_filter@ implies #[trigger] self.subscribers_of(g)
                        == old(self).subscribers_of(g) by {
                        lemma_topic_lookup_agrees(new_model, old_model, topic_filter@, g);
                    }
                }
                return ;
            }
            i = i + 1;
        }
        proof {
            lemma_topic_lookup_none(old_model, topic_filter@);
            assert(spec_remove_client(Seq::<Seq<char>>::empty(), client_id@) =~= Seq::<Seq<char>>::empty());
        }
    }

    /// Remove `client_id` from the membership of every topic.
    pub fn unsubscribe_all(&mut self, client_id: &String)
        requires
            old(self).wf(),
        ensures
            final(self).wf(),
            forall|g: Seq<char>|
                #[trigger] final(self).subscribers_of(g) == spec_remove_client(
                    old(self).subscribers_of(g),
                    client_id@,
                ),
    {
        let ghost old_model = self.model();
        let mut out: Vec<TopicEntry> = Vec::new();
        let mut i: usize = 0;
        let n = self.entries.len();
        while i < n
            invariant
                i <= n,
                n == self.entries@.len(),
                self.wf(),
                self.model() == old_model,
                out@.len() == i,
                forall|k: int|
                    0 <= k < i ==> (#[trigger] out@[k]).topic@ == old_model[k].0 && spec_views(
                        out@[k].subscribers@,
                    ) == spec_remove_client(old_model[k].1, client_id@),
            decreases n - i,
        {
            let topic = self.entries[i].topic.clone();
            let filtered = remove_client_exec(&self.entries[i].subscribers, client_id);
            out.push(TopicEntry { topic, subscribers: filtered });
            i = i + 1;
        }
        self.entries = out;
        proof {
            let new_model = self.model();
            assert(new_model.len() == old_model.len());
            assert(forall|k: int|
                0 <= k < new_model.len() ==> #[trigger] new_model[k] == (
                    old_model[k].0,
                    spec_remove_client(old_model[k].1, client_id@),
                ));
            assert(forall|k: int|
                0 <= k < new_model.len() ==> (#[trigger] new_model[k]).0 == (#[trigger] old_model[k]).0);
            assert forall|k: int| 0 <= k < new_model.len() implies list_unique((#[trigger] new_model[k]).1) by {
                lemma_remove_client_unique(old_model[k].1, client_id@);
            }
            assert forall|g: Seq<char>| true implies #[trigger] final(self).subscribers_of(g)
                == spec_remove_client(old(self).subscribers_of(g), client_id@) by {
                lemma_lookup_removes(new_model, old_model, client_id@, g);
            }
        }
    }

    /// The current membership of the exact-match entry for `topic_name`,
    /// empty when there is none.
    pub fn find_subscribers(&self, topic_name: &String) -> (r: Vec<String>)
        requires
            self.wf(),
        ensures
            spec_views(r@) == self.subscribers_of(topic_name@),
    {
        let mut i: usize = 0;
        let n = self.entries.len();
        while i < n
            invariant
                i <= n,
                n == self.entries@.len(),
                self.wf(),
                forall|k: int| 0 <= k < i ==> (#[trigger] self.model()[k]).0 != topic_name@,
            decreases n - i,
        {
            if self.entries[i].topic == *topic_name {
                let r = crate::vec_util::clone_strings(&self.entries[i].subscribers);
                proof {
                    lemma_topic_lookup_some(self.model(), i as int);
                    assert(spec_views(r@) =~= self.model()[i as int].1);
                }
                return r;
            }
            i = i + 1;
        }
        proof {
            lemma_topic_lookup_none(self.model(), topic_name@);
            assert(spec_views(Seq::<String>::empty()) =~= Seq::<Seq<char>>::empty());
        }
        let r: Vec<String> = Vec::new();
        proof {
            assert(spec_views(r@) =~= Seq::<Seq<char>>::empty());
        }
        r
    }
}

/// In two same-shaped registries where the second's lists are the first's
/// with `c` removed, every lookup relates by the removal.
proof fn lemma_lookup_removes(
    new_m: Seq<(Seq<char>, Seq<Seq<char>>)>,
    old_m: Seq<(Seq<char>, Seq<Seq<char>>)>,
    c: Seq<char>,
    g: Seq<char>,
)
    requires
        new_m.len() == old_m.len(),
        forall|k: int|
            0 <= k < new_m.len() ==> #[trigger] new_m[k] == ((#[trigger] old_m[k]).0, spec_remove_client(
                old_m[k].1,
                c,
            )),
    ensures
        (match spec_topic_lookup(new_m, g) {
            Some(l) => l,
            None => Seq::<Seq<char>>::empty(),
        }) == spec_remove_client(
            match spec_topic_lookup(old_m, g) {
                Some(l) => l,
                None => Seq::<Seq<char>>::empty(),
            },
            c,
        ),
    decreases new_m.len(),
{
    if new_m.len() == 0 {
        assert(spec_remove_client(Seq::<Seq<char>>::empty(), c) =~= Seq::<Seq<char>>::empty());
    } else {
        assert(new_m.last() == new_m[new_m.len() - 1]);
        assert(old_m.last() == old_m[old_m.len() - 1]);
        if old_m.last().0 == g {
        } else {
            assert(forall|i: int| 0 <= i < new_m.drop_last().len() ==> #[trigger] new_m.drop_last()[i] == new_m[i]);
            assert(forall|i: int| 0 <= i < old_m.drop_last().len() ==> #[trigger] old_m.drop_last()[i] == old_m[i]);
            lemma_lookup_removes(new_m.drop_last(), old_m.drop_last(), c, g);
        }
    }
}

/// Copy of `l` with every entry equal to `c` dropped, order kept.
fn remove_client_exec(l: &Vec<String>, c: &String) -> (r: Vec<String>)
    ensures
        spec_views(r@) == spec_remove_client(spec_views(l@), c@),
{
    let mut out: Vec<String> = Vec::new();
    let mut i: usize = 0;
    while i < l.len()
        invariant
            i <= l@.len(),
            spec_views(out@) == spec_remove_client(spec_views(l@).subrange(0, i as int), c@),
        decreases l@.len() - i,
    {
        let ghost pre_views = spec_views(out@);
        if !(l[i] == *c) {
            out.push(l[i].clone());
        }
        proof {
            let pre = spec_views(l@).subrange(0, i as int);
            let cur = spec_views(l@).subrange(0, i + 1 as int);
            assert(cur.drop_last() =~= pre);
            assert(cur.last() == spec_views(l@)[i as int]);
            assert(spec_views(l@)[i as int] == l@[i as int]@);
            if !(l@[i as int]@ == c@) {
                assert(spec_views(out@) =~= pre_views.push(l@[i as int]@));
            }
        }
        i = i + 1;
    }
    proof {
        assert(spec_views(l@).subrange(0, l@.len() as int) =~= spec_views(l@));
    }
    out
}

/// After removing a client from every membership list, no lookup of any
/// topic contains the client: this is what a total unsubscribe leaves.
pub proof fn lemma_unsubscribe_all_totality(l: Seq<Seq<char>>, c: Seq<char>)
    ensures
        !spec_remove_client(l, c).contains(c),
{
    lemma_remove_client_total(l, c);
}

} // verus!
