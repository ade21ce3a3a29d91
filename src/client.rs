use vstd::prelude::*;

verus! {

/// The views of a list of strings, in order.
pub open spec fn views_of(v: Seq<String>) -> Seq<Seq<char>> {
    v.map_values(|s: String| s@)
}

/// The strings of `parts` joined by single commas.
pub open spec fn comma_joined(parts: Seq<Seq<char>>) -> Seq<char>
    decreases parts.len(),
{
    if parts.len() == 0 {
        Seq::empty()
    } else if parts.len() == 1 {
        parts[0]
    } else {
        comma_joined(parts.drop_last()) + seq![','] + parts.last()
    }
}

/// Joins `parts` with commas, the form a bootstrap-server list takes.
pub fn join_with_commas(parts: &Vec<String>) -> (r: String)
    ensures
        r@ == comma_joined(views_of(parts@)),
{
    let mut r = String::new();
    let mut i: usize = 0;
    while i < parts.len()
        invariant
            i <= parts.len(),
            r@ == comma_joined(views_of(parts@.subrange(0, i as int))),
        decreases parts.len() - i,
    {
        if i > 0 {
            r.append(",");
            proof {
                reveal_strlit(",");
            }
        }
        r.append(parts[i].as_str());
        proof {
            let pre = views_of(parts@.subrange(0, i as int));
            let post = views_of(parts@.subrange(0, i + 1));
            assert(post.drop_last() =~= pre);
            assert(post.last() == parts@[i as int]@);
            if i == 0 {
                assert(post =~= seq![parts@[0]@]);
            }
        }
        i = i + 1;
    }
    assert(parts@.subrange(0, i as int) =~= parts@);
    r
}

/// A handle on the broker cluster: the addresses it is reached at.
#[derive(Clone)]
pub struct BoudinClient {
    hosts: Vec<String>,
}

impl BoudinClient {
    /// The addresses, as text.
    pub closed spec fn hosts_view(&self) -> Seq<Seq<char>> {
        views_of(self.hosts@)
    }

    /// A client for the broker list `broker`. Nothing is contacted yet.
    pub fn new(broker: &str) -> (r: Self)
        ensures
            r.hosts_view() == seq![broker@],
    {
        let hosts = vec![String::from_str(broker)];
        let r = BoudinClient { hosts };
        assert(r.hosts_view() =~= seq![broker@]);
        r
    }

    /// The addresses this client was made with.
    pub fn hosts(&self) -> (r: &Vec<String>)
        ensures
            views_of(r@) == self.hosts_view(),
    {
        &self.hosts
    }

    /// The bootstrap-server setting: the addresses joined by commas.
    pub fn bootstrap_servers(&self) -> (r: String)
        ensures
            r@ == comma_joined(self.hosts_view()),
    {
        join_with_commas(&self.hosts)
    }
}

} // verus!

verus! {

/// A topic as the broker's catalog describes it.
pub struct TopicDescriptor {
    pub name: String,
    pub partitions: Vec<i32>,
}

/// Why talking to the brokers failed.
#[derive(Clone, Copy, Debug, PartialEq, Eq, Structural)]
pub enum BrokerError {
    /// The brokers could not be reached, or the catalog did not come in time.
    Unreachable,
    /// A consumer could not be created.
    ConsumerInit,
}

/// The names of a catalog's topics, in the broker's order.
pub open spec fn names_of(topics: Seq<TopicDescriptor>) -> Seq<Seq<char>> {
    topics.map_values(|t: TopicDescriptor| t.name@)
}

/// The topic names of a catalog, in the order the broker gave them.
pub fn topic_names(topics: &Vec<TopicDescriptor>) -> (r: Vec<String>)
    ensures
        views_of(r@) == names_of(topics@),
{
    let mut r: Vec<String> = Vec::new();
    let mut i: usize = 0;
    while i < topics.len()
        invariant
            i <= topics@.len(),
            views_of(r@) == names_of(topics@.subrange(0, i as int)),
        decreases topics.len() - i,
    {
        let ghost before = r@;
        let name = topics[i].name.clone();
        r.push(name);
        assert(r@ == before.push(name));
        assert(views_of(r@) =~= views_of(before).push(topics@[i as int].name@));
        assert(names_of(topics@.subrange(0, i + 1)) =~= names_of(topics@.subrange(0, i as int)).push(
            topics@[i as int].name@,
        ));
        i = i + 1;
    }
    assert(topics@.subrange(0, i as int) =~= topics@);
    r
}

/// Listing topics is idempotent: two catalogs that name the same topics in
/// the same order give the same list, whatever their partitions.
pub proof fn lemma_listing_idempotent(a: Seq<TopicDescriptor>, b: Seq<TopicDescriptor>)
    requires
        a.len() == b.len(),
        forall|i: int| 0 <= i < a.len() ==> #[trigger] a[i].name@ == b[i].name@,
    ensures
        names_of(a) == names_of(b),
{
    assert(names_of(a) =~= names_of(b));
}

} // verus!
