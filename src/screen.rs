use vstd::prelude::*;
use crate::client::{comma_joined, views_of, BoudinClient};

verus! {

/// The events the screen receives.
#[derive(Clone, Debug)]
pub enum Message {
    /// The broker-address input was edited.
    HostInputChanged(String),
    /// The broker addresses were submitted.
    ConnectToHosts(String),
    /// The broker's topic list arrived.
    Topics(Vec<String>),
    /// A topic was opened.
    OpenTopic(String),
    /// A decoded record of the open topic arrived.
    TopicMessage(String),
}

/// A message, as text.
pub ghost enum MessageView {
    HostInputChanged(Seq<char>),
    ConnectToHosts(Seq<char>),
    Topics(Seq<Seq<char>>),
    OpenTopic(Seq<char>),
    TopicMessage(Seq<char>),
}

impl Message {
    pub open spec fn view(&self) -> MessageView {
        match self {
            Message::HostInputChanged(s) => MessageView::HostInputChanged(s@),
            Message::ConnectToHosts(s) => MessageView::ConnectToHosts(s@),
            Message::Topics(v) => MessageView::Topics(views_of(v@)),
            Message::OpenTopic(s) => MessageView::OpenTopic(s@),
            Message::TopicMessage(s) => MessageView::TopicMessage(s@),
        }
    }
}

/// What the screen shows, and the data it holds.
pub enum Boudin {
    /// Waiting for broker addresses.
    Connecting { input_value: String },
    /// Connected: the addresses and the topics discovered so far.
    Connected { connected_to: Vec<String>, topics: Vec<String> },
    /// Following one topic: the lines received, oldest first.
    TopicView { topic: String, messages: Vec<String> },
}

/// A screen state, as text.
pub ghost enum ScreenView {
    Connecting { input_value: Seq<char> },
    Connected { connected_to: Seq<Seq<char>>, topics: Seq<Seq<char>> },
    TopicView { topic: Seq<char>, messages: Seq<Seq<char>> },
}

/// Work the screen hands out after an event.
pub enum Command {
    /// Nothing to do.
    Nothing,
    /// Connect with this client and fetch the topic list.
    FetchTopics(BoudinClient),
}

/// The pieces of `s` between commas, empty pieces included.
pub open spec fn split_commas(s: Seq<char>) -> Seq<Seq<char>>
    decreases s.len(),
{
    if s.len() == 0 {
        seq![Seq::empty()]
    } else {
        let p = split_commas(s.drop_last());
        if s.last() == ',' {
            p.push(Seq::empty())
        } else {
            p.update(p.len() - 1, p.last().push(s.last()))
        }
    }
}

/// Splits a broker list at its commas.
pub fn split_hosts(s: &str) -> (r: Vec<String>)
    ensures
        views_of(r@) == split_commas(s@),
{
    let n = s.unicode_len();
    let mut pieces: Vec<String> = Vec::new();
    let mut start: usize = 0;
    let mut i: usize = 0;
    assert(s@.subrange(0, 0) =~= Seq::<char>::empty());
    assert(views_of(pieces@) =~= Seq::<Seq<char>>::empty());
    assert(split_commas(Seq::<char>::empty()) == seq![Seq::<char>::empty()]);
    assert(seq![Seq::<char>::empty()] =~= views_of(pieces@).push(s@.subrange(0, 0)));
    while i < n
        invariant
            n == s@.len(),
            start <= i <= n,
            split_commas(s@.subrange(0, i as int)) == views_of(pieces@).push(
                s@.subrange(start as int, i as int),
            ),
        decreases n - i,
    {
        let c = s.get_char(i);
        let ghost pre = s@.subrange(0, i as int);
        let ghost cur = s@.subrange(0, i + 1);
        assert(cur.drop_last() =~= pre);
        assert(cur.last() == c);
        let ghost pv = views_of(pieces@);
        let ghost piece = s@.subrange(start as int, i as int);
        assert(split_commas(pre) == pv.push(piece));
        if c == ',' {
            let ghost before = pieces@;
            pieces.push(String::from_str(s.substring_char(start, i)));
            assert(views_of(pieces@) =~= views_of(before).push(
                s@.subrange(start as int, i as int),
            ));
            start = i + 1;
            assert(split_commas(cur) == pv.push(piece).push(Seq::<char>::empty()));
            assert(s@.subrange(start as int, i + 1) =~= Seq::<char>::empty());
        } else {
            assert(split_commas(cur) == pv.push(piece).update(pv.len() as int, piece.push(c)));
            assert(piece.push(c) =~= s@.subrange(start as int, i + 1));
            assert(pv.push(piece).update(pv.len() as int, piece.push(c)) =~= views_of(pieces@).push(
                s@.subrange(start as int, i + 1),
            ));
        }
        i = i + 1;
    }
    pieces.push(String::from_str(s.substring_char(start, n)));
    assert(s@.subrange(0, n as int) =~= s@);
    assert(views_of(pieces@) =~= split_commas(s@));
    pieces
}

/// The screen after `m` arrives in screen state `s`.
pub open spec fn step(s: ScreenView, m: MessageView) -> ScreenView {
    match m {
        MessageView::ConnectToHosts(h) => ScreenView::Connected {
            connected_to: split_commas(h),
            topics: Seq::empty(),
        },
        MessageView::Topics(t) => match s {
            ScreenView::Connected { connected_to, .. } => ScreenView::Connected {
                connected_to,
                topics: t,
            },
            _ => s,
        },
        MessageView::HostInputChanged(h) => match s {
            ScreenView::Connecting { .. } => ScreenView::Connecting { input_value: h },
            _ => s,
        },
        MessageView::OpenTopic(t) => ScreenView::TopicView { topic: t, messages: Seq::empty() },
        MessageView::TopicMessage(line) => match s {
            ScreenView::TopicView { topic, messages } => ScreenView::TopicView {
                topic,
                messages: messages.push(line),
            },
            _ => s,
        },
    }
}

/// The topics the screen wants followed in state `s`.
pub open spec fn wanted_topics(s: ScreenView) -> Seq<Seq<char>> {
    match s {
        ScreenView::TopicView { topic, .. } => seq![topic],
        _ => Seq::empty(),
    }
}

impl Boudin {
    pub open spec fn view(&self) -> ScreenView {
        match self {
            Boudin::Connecting { input_value } => ScreenView::Connecting {
                input_value: input_value@,
            },
            Boudin::Connected { connected_to, topics } => ScreenView::Connected {
                connected_to: views_of(connected_to@),
                topics: views_of(topics@),
            },
            Boudin::TopicView { topic, messages } => ScreenView::TopicView {
                topic: topic@,
                messages: views_of(messages@),
            },
        }
    }

    /// The first screen: an address input holding a prompt.
    pub fn new() -> (r: Self)
        ensures
            r.view() == (ScreenView::Connecting { input_value: "Enter hosts"@ }),
    {
        Boudin::Connecting { input_value: String::from_str("Enter hosts") }
    }

    /// The window title.
    pub fn title(&self) -> (r: String)
        ensures
            r@ == "Counter - Iced"@,
    {
        String::from_str("Counter - Iced")
    }

    /// Handles one event. Submitting addresses moves to the connected screen
    /// and asks for the topic list from a client of those addresses; opening a
    /// topic moves to its view; the other events fill in the current screen
    /// and are ignored by screens they do not concern.
    pub fn update(&mut self, message: Message) -> (r: Command)
        ensures
            final(self).view() == step(old(self).view(), message.view()),
            match message {
                Message::ConnectToHosts(h) => match r {
                    Command::FetchTopics(c) => c.hosts_view() == seq![
                        comma_joined(split_commas(h@)),
                    ],
                    Command::Nothing => false,
                },
                _ => r is Nothing,
            },
    {
        let ghost mv = message.view();
        match message {
            Message::ConnectToHosts(hosts) => {
                let list = split_hosts(hosts.as_str());
                let joined = crate::client::join_with_commas(&list);
                let client = BoudinClient::new(joined.as_str());
                let none: Vec<String> = Vec::new();
                assert(views_of(none@) =~= Seq::<Seq<char>>::empty());
                *self = Boudin::Connected { connected_to: list, topics: none };
                Command::FetchTopics(client)
            },
            Message::Topics(host_topics) => {
                if let Boudin::Connected { topics, .. } = self {
                    *topics = host_topics;
                }
                Command::Nothing
            },
            Message::HostInputChanged(hosts) => {
                if let Boudin::Connecting { .. } = self {
                    *self = Boudin::Connecting { input_value: hosts };
                }
                Command::Nothing
            },
            Message::OpenTopic(topic) => {
                let none: Vec<String> = Vec::new();
                assert(views_of(none@) =~= Seq::<Seq<char>>::empty());
                *self = Boudin::TopicView { topic, messages: none };
                Command::Nothing
            },
            Message::TopicMessage(line) => {
                if let Boudin::TopicView { messages, .. } = self {
                    let ghost before = messages@;
                    messages.push(line);
                    assert(views_of(messages@) =~= views_of(before).push(mv->TopicMessage_0));
                }
                Command::Nothing
            },
        }
    }

    /// The topics this screen wants followed: the open topic, if any.
    pub fn subscriptions(&self) -> (r: Vec<String>)
        ensures
            views_of(r@) == wanted_topics(self.view()),
    {
        match self {
            Boudin::TopicView { topic, .. } => {
                let r = vec![topic.clone()];
                assert(views_of(r@) =~= seq![topic@]);
                r
            },
            _ => {
                let r: Vec<String> = Vec::new();
                assert(views_of(r@) =~= Seq::<Seq<char>>::empty());
                r
            },
        }
    }
}

} // verus!
