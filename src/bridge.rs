use vstd::prelude::*;
use crate::client::views_of;

verus! {

/// A request to follow one topic. Its identity is the topic name alone, so
/// requests for one topic are interchangeable.
pub struct TopicSubscription {
    topic: String,
}

impl TopicSubscription {
    pub closed spec fn topic_view(&self) -> Seq<char> {
        self.topic@
    }

    /// A subscription to `topic`.
    pub fn new(topic: String) -> (r: Self)
        ensures
            r.topic_view() == topic@,
    {
        TopicSubscription { topic }
    }

    /// The topic followed.
    pub fn topic(&self) -> (r: &str)
        ensures
            r@ == self.topic_view(),
    {
        self.topic.as_str()
    }

    /// The identity under which the subscription is registered: two
    /// subscriptions have the same key exactly when they follow one topic.
    pub fn key(&self) -> (r: String)
        ensures
            r@ == self.topic_view(),
    {
        self.topic.clone()
    }
}

/// Whether a fresh consumer was started for an activation.
#[derive(Clone, Copy, Debug, PartialEq, Eq, Structural)]
pub enum Activation {
    /// No consumer followed the topic; one is to be started.
    Started,
    /// A consumer already follows the topic; it is reused.
    Reused,
}

/// The active topics after activating `t` on active topics `v`.
pub open spec fn activated(v: Seq<Seq<char>>, t: Seq<char>) -> Seq<Seq<char>> {
    if v.contains(t) {
        v
    } else {
        v.push(t)
    }
}

/// Records which topics have a running consumer: at most one per topic.
pub struct SubscriptionBridge {
    active: Vec<String>,
}

/// What a reconciliation asks of the consumers.
pub struct Plan {
    /// Topics whose consumer is to be started.
    pub start: Vec<String>,
    /// Topics whose consumer is to be stopped.
    pub stop: Vec<String>,
}

impl SubscriptionBridge {
    /// The topics with a running consumer, in order of activation.
    pub closed spec fn view(&self) -> Seq<Seq<char>> {
        views_of(self.active@)
    }

    pub open spec fn well_formed(&self) -> bool {
        self.view().no_duplicates()
    }

    /// A bridge with no consumer running.
    pub fn new() -> (r: Self)
        ensures
            r.view() == Seq::<Seq<char>>::empty(),
            r.well_formed(),
    {
        let r = SubscriptionBridge { active: Vec::new() };
        assert(r.view() =~= Seq::<Seq<char>>::empty());
        r
    }

    /// Where `topic` stands among the active topics, if it is active.
    fn position(&self, topic: &str) -> (r: Option<usize>)
        ensures
            r is None ==> !self.view().contains(topic@),
            r is Some ==> r->0 < self.view().len() && self.view()[r->0 as int] == topic@,
    {
        let wanted = String::from_str(topic);
        let mut i: usize = 0;
        while i < self.active.len()
            invariant
                i <= self.active@.len(),
                wanted@ == topic@,
                forall|j: int| 0 <= j < i ==> self.view()[j] != topic@,
            decreases self.active.len() - i,
        {
            if self.active[i] == wanted {
                return Some(i);
            }
            i = i + 1;
        }
        None
    }

    /// Whether a consumer follows `topic`.
    pub fn is_active(&self, topic: &str) -> (r: bool)
        ensures
            r == self.view().contains(topic@),
    {
        self.position(topic).is_some()
    }

    /// Asks for a consumer of `topic`. The first request starts one; a
    /// request for a topic already followed changes nothing.
    pub fn activate(&mut self, topic: &str) -> (r: Activation)
        requires
            old(self).well_formed(),
        ensures
            final(self).well_formed(),
            final(self).view() == activated(old(self).view(), topic@),
            (r == Activation::Started) == !old(self).view().contains(topic@),
    {
        if self.position(topic).is_some() {
            Activation::Reused
        } else {
            self.active.push(String::from_str(topic));
            assert(self.view() =~= old(self).view().push(topic@));
            Activation::Started
        }
    }

    /// Stops following `topic`. Returns whether it was followed.
    pub fn deactivate(&mut self, topic: &str) -> (r: bool)
        requires
            old(self).well_formed(),
        ensures
            final(self).well_formed(),
            r == old(self).view().contains(topic@),
            forall|t: Seq<char>|
                #[trigger] final(self).view().contains(t) == (old(self).view().contains(t) && t
                    != topic@),
    {
        match self.position(topic) {
            None => false,
            Some(i) => {
                let ghost old_view = self.view();
                self.active.remove(i);
                proof {
                    assert(self.view() =~= old_view.remove(i as int));
                    assert forall|t: Seq<char>|
                        #[trigger] self.view().contains(t) == (old_view.contains(t) && t
                            != topic@) by {
                        if self.view().contains(t) {
                            let k = choose|k: int| 0 <= k < self.view().len() && self.view()[k] == t;
                            if k < i {
                                assert(old_view[k] == t);
                            } else {
                                assert(old_view[k + 1] == t);
                            }
                        }
                        if old_view.contains(t) && t != topic@ {
                            let k = choose|k: int| 0 <= k < old_view.len() && old_view[k] == t;
                            if k < i {
                                assert(self.view()[k] == t);
                            } else {
                                assert(self.view()[k - 1] == t);
                            }
                        }
                    }
                }
                true
            },
        }
    }

    /// Brings the running consumers in line with the topics the screen asks
    /// for now: topics no longer asked for are stopped, newly asked ones
    /// started, and the rest left running.
    pub fn reconcile(&mut self, desired: &Vec<String>) -> (r: Plan)
        requires
            old(self).well_formed(),
        ensures
            final(self).well_formed(),
            forall|t: Seq<char>|
                #[trigger] final(self).view().contains(t) == views_of(desired@).contains(t),
            forall|t: Seq<char>|
                #[trigger] views_of(r.start@).contains(t) == (views_of(desired@).contains(t)
                    && !old(self).view().contains(t)),
            forall|t: Seq<char>|
                #[trigger] views_of(r.stop@).contains(t) == (old(self).view().contains(t)
                    && !views_of(desired@).contains(t)),
    {
        let ghost o = self.view();
        let ghost d = views_of(desired@);
        let mut stop: Vec<String> = Vec::new();
        let mut i: usize = 0;
        while i < self.active.len()
            invariant
                self.view() == o,
                d == views_of(desired@),
                i <= o.len(),
                forall|t: Seq<char>|
                    #[trigger] views_of(stop@).contains(t) == (o.subrange(0, i as int).contains(t)
                        && !d.contains(t)),
            decreases self.active.len() - i,
        {
            let ghost before = views_of(stop@);
            let present = list_contains(desired, &self.active[i]);
            assert(views_of(self.active@)[i as int] == o[i as int]);
            if !present {
                stop.push(self.active[i].clone());
                assert(views_of(stop@) =~= before.push(o[i as int]));
            } else {
                assert(views_of(stop@) =~= before);
            }
            proof {
                assert forall|t: Seq<char>|
                    #[trigger] views_of(stop@).contains(t) == (o.subrange(0, i + 1).contains(t)
                        && !d.contains(t)) by {
                    lemma_prefix_step(o, i as int, t);
                    lemma_push_contains(before, o[i as int], t);
                    if !present {
                        assert(views_of(stop@) == before.push(o[i as int]));
                    } else {
                        assert(views_of(stop@) == before);
                    }
                }
            }
            i = i + 1;
        }
        assert(o.subrange(0, o.len() as int) =~= o);
        let ghost sv = views_of(stop@);
        let mut k: usize = 0;
        while k < stop.len()
            invariant
                self.well_formed(),
                sv == views_of(stop@),
                k <= sv.len(),
                forall|t: Seq<char>|
                    #[trigger] self.view().contains(t) == (o.contains(t)
                        && !sv.subrange(0, k as int).contains(t)),
            decreases stop.len() - k,
        {
            self.deactivate(stop[k].as_str());
            proof {
                assert forall|t: Seq<char>|
                    #[trigger] self.view().contains(t) == (o.contains(t)
                        && !sv.subrange(0, k + 1).contains(t)) by {
                    lemma_prefix_step(sv, k as int, t);
                }
            }
            k = k + 1;
        }
        assert(sv.subrange(0, sv.len() as int) =~= sv);
        let mut start: Vec<String> = Vec::new();
        let mut m: usize = 0;
        while m < desired.len()
            invariant
                self.well_formed(),
                d == views_of(desired@),
                m <= d.len(),
                forall|t: Seq<char>|
                    #[trigger] self.view().contains(t) == ((o.contains(t) && d.contains(t))
                        || d.subrange(0, m as int).contains(t)),
                forall|t: Seq<char>|
                    #[trigger] views_of(start@).contains(t) == (d.subrange(0, m as int).contains(t)
                        && !o.contains(t)),
            decreases desired.len() - m,
        {
            let ghost before_start = views_of(start@);
            let ghost before_view = self.view();
            let ghost t0 = d[m as int];
            assert(d.contains(t0));
            if self.activate(desired[m].as_str()) == Activation::Started {
                start.push(desired[m].clone());
                assert(views_of(start@) =~= before_start.push(t0));
            } else {
                assert(views_of(start@) =~= before_start);
            }
            proof {
                assert forall|t: Seq<char>|
                    #[trigger] self.view().contains(t) == ((o.contains(t) && d.contains(t))
                        || d.subrange(0, m + 1).contains(t)) by {
                    lemma_prefix_step(d, m as int, t);
                    lemma_push_contains(before_view, t0, t);
                }
                assert forall|t: Seq<char>|
                    #[trigger] views_of(start@).contains(t) == (d.subrange(0, m + 1).contains(t)
                        && !o.contains(t)) by {
                    lemma_prefix_step(d, m as int, t);
                    lemma_push_contains(before_start, t0, t);
                }
            }
            m = m + 1;
        }
        assert(d.subrange(0, d.len() as int) =~= d);
        Plan { start, stop }
    }
}

/// Appending `a` adds exactly `a` to what a sequence contains.
pub proof fn lemma_push_contains(s: Seq<Seq<char>>, a: Seq<char>, x: Seq<char>)
    ensures
        s.push(a).contains(x) == (s.contains(x) || x == a),
{
    if s.contains(x) {
        let k = choose|k: int| 0 <= k < s.len() && s[k] == x;
        assert(s.push(a)[k] == x);
    }
    if x == a {
        assert(s.push(a)[s.len() as int] == x);
    }
    if s.push(a).contains(x) && x != a {
        let k = choose|k: int| 0 <= k < s.push(a).len() && s.push(a)[k] == x;
        assert(s[k] == x);
    }
}

/// The prefix of `s` one longer than `s.subrange(0, m)` adds `s[m]`.
proof fn lemma_prefix_step(s: Seq<Seq<char>>, m: int, x: Seq<char>)
    requires
        0 <= m < s.len(),
    ensures
        s.subrange(0, m + 1).contains(x) == (s.subrange(0, m).contains(x) || x == s[m]),
{
    assert(s.subrange(0, m + 1) =~= s.subrange(0, m).push(s[m]));
    lemma_push_contains(s.subrange(0, m), s[m], x);
}

/// Whether `s` holds a string with the text of `t`.
fn list_contains(v: &Vec<String>, t: &String) -> (r: bool)
    ensures
        r == views_of(v@).contains(t@),
{
    let mut i: usize = 0;
    while i < v.len()
        invariant
            i <= v@.len(),
            forall|j: int| 0 <= j < i ==> views_of(v@)[j] != t@,
        decreases v.len() - i,
    {
        if v[i] == *t {
            assert(views_of(v@)[i as int] == t@);
            return true;
        }
        i = i + 1;
    }
    false
}

/// A second activation of a topic starts nothing and leaves the active
/// topics as the first left them: however often a topic is requested in
/// succession, at most one consumer runs for it.
pub proof fn lemma_repeated_activation_reuses(v: Seq<Seq<char>>, t: Seq<char>)
    ensures
        activated(v, t).contains(t),
        activated(activated(v, t), t) == activated(v, t),
{
    if !v.contains(t) {
        assert(v.push(t)[v.len() as int] == t);
    }
}

} // verus!
