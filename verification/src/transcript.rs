//! Reading a transcript: finding its lines with a regular expression and
//! turning what was found into a conversation.

use crate::conversation::{Conversation, ConversationView};
use crate::datetime::parsed_datetime;
use crate::message::{
    message_of, message_views, Message, MessageError, MessageErrorKind, MessageView,
    DATETIME_FORMAT,
};
use crate::text::{chars_of, contains, find, string_of, texts, trim, trimmed};
use regex::Regex;
use vstd::prelude::*;

verus! {

/// The regular expression that one line of a transcript matches. Its three
/// groups hold the date and time, the author and the body, in this order.
pub const LINE_PATTERN: &'static str =
    r"\[(?P<datetime>\d{4}-\d{2}-\d{2},\s\d{2}:\d{2}:\d{2})\]\s(?P<author>.*?):\s(?P<text>.*)";

/// The notice that a transcript holds in place of a message where
/// encryption was switched on.
pub const ENCRYPTION_NOTICE: &'static str =
    "Messages to this group are now secured with end-to-end encryption";

/// What the `regex` crate finds of `pattern` in `text`: for each match, from
/// left to right and without overlap, the text of each of its groups (group
/// 0 is the whole match; a group that took no part is `None`). `None` where
/// the crate refuses the pattern.
pub uninterp spec fn pattern_matches(pattern: Seq<char>, text: Seq<char>) -> Option<
    Seq<Seq<Option<Seq<char>>>>,
>;

/// The texts of the groups of one match.
pub open spec fn group_texts(groups: Seq<Option<String>>) -> Seq<Option<Seq<char>>> {
    groups.map_values(
        |g: Option<String>|
            match g {
                Some(s) => Some(s@),
                None => None,
            },
    )
}

/// The texts of the groups of each match.
pub open spec fn match_texts(found: Seq<Vec<Option<String>>>) -> Seq<Seq<Option<Seq<char>>>> {
    found.map_values(|groups: Vec<Option<String>>| group_texts(groups@))
}

/// Calls `regex::Regex::new` and `Regex::captures_iter`, and copies out the
/// text of every group (`Captures::iter`, `Match::as_str`) of every match
/// that the iterator yields. The result is what the crate finds, named and
/// not described, or `None` where `Regex::new` returns an error.
#[verifier::external_body]
fn find_matches(pattern: &str, text: &str) -> (r: Option<Vec<Vec<Option<String>>>>)
    ensures
        match r {
            Some(found) => pattern_matches(pattern@, text@) == Some(match_texts(found@)),
            None => pattern_matches(pattern@, text@) is None,
        },
{
    let re = match Regex::new(pattern) {
        Ok(re) => re,
        Err(_) => return None,
    };
    let mut found = Vec::new();
    for groups in re.captures_iter(text) {
        found.push(groups.iter().map(|g| g.map(|m| m.as_str().to_owned())).collect());
    }
    Some(found)
}

/// The date and time, the author and the body that a match holds in its
/// groups 1 to 3; `None` where one of them is missing.
pub open spec fn line_parts(groups: Seq<Option<Seq<char>>>) -> Option<
    (Seq<char>, Seq<char>, Seq<char>),
> {
    if groups.len() >= 4 && groups[1] is Some && groups[2] is Some && groups[3] is Some {
        Some((groups[1]->0, groups[2]->0, groups[3]->0))
    } else {
        None
    }
}

/// The conversation that is `so_far` and then the line held by `groups`.
/// A match without its three parts, and a line whose body holds the
/// encryption notice, add nothing. A date and time that cannot be read
/// fail the whole.
pub open spec fn with_line(so_far: ConversationView, groups: Seq<Option<Seq<char>>>) -> Result<
    ConversationView,
    MessageError,
> {
    match line_parts(groups) {
        None => Ok(so_far),
        Some((datetime, author, text)) => if contains(text, ENCRYPTION_NOTICE@) {
            Ok(so_far)
        } else {
            match parsed_datetime(datetime, DATETIME_FORMAT@) {
                None => Err(MessageError(MessageErrorKind::InvalidDate)),
                Some(at) => Ok(
                    ConversationView {
                        messages: so_far.messages.push(message_of(at, author, trimmed(text))),
                        participants: if so_far.participants.contains(author) {
                            so_far.participants
                        } else {
                            so_far.participants.push(author)
                        },
                    },
                ),
            }
        },
    }
}

/// The conversation that the matches of a transcript's lines make, read in
/// order: each line adds its message, and its author where the name is new.
/// The first line that fails, fails the whole.
pub open spec fn conversation_of(found: Seq<Seq<Option<Seq<char>>>>) -> Result<
    ConversationView,
    MessageError,
>
    decreases found.len(),
{
    if found.len() == 0 {
        Ok(ConversationView { messages: Seq::empty(), participants: Seq::empty() })
    } else {
        match conversation_of(found.drop_last()) {
            Err(e) => Err(e),
            Ok(so_far) => with_line(so_far, found.last()),
        }
    }
}

/// Once the lines read so far have failed, the whole has failed.
pub proof fn lemma_failure_stays(found: Seq<Seq<Option<Seq<char>>>>, upto: int)
    requires
        0 <= upto <= found.len(),
        conversation_of(found.take(upto)) is Err,
    ensures
        conversation_of(found) == conversation_of(found.take(upto)),
    decreases found.len() - upto,
{
    if upto < found.len() {
        assert(found.take(upto + 1).drop_last() == found.take(upto));
        lemma_failure_stays(found, upto + 1);
    } else {
        assert(found.take(upto) == found);
    }
}

/// The matches of [`LINE_PATTERN`] in a transcript; none where the pattern
/// is refused.
pub open spec fn transcript_lines(raw: Seq<char>) -> Seq<Seq<Option<Seq<char>>>> {
    match pattern_matches(LINE_PATTERN@, raw) {
        Some(found) => found,
        None => Seq::empty(),
    }
}

/// Whether `r` is what the matches `found` make: their conversation, or the
/// error of the first line that fails.
pub open spec fn is_conversation_of(
    r: Result<Conversation, MessageError>,
    found: Seq<Seq<Option<Seq<char>>>>,
) -> bool {
    match r {
        Ok(c) => conversation_of(found) == Ok::<ConversationView, MessageError>(c@),
        Err(e) => conversation_of(found) == Err::<ConversationView, MessageError>(e),
    }
}

/// Whether `r` is what reading the transcript `raw` gives: the conversation
/// of its lines, or the error of the first line that fails.
pub open spec fn is_reading_of(r: Result<Conversation, MessageError>, raw: Seq<char>) -> bool {
    is_conversation_of(r, transcript_lines(raw))
}

/// Reading the same transcript twice gives the same conversation, or the
/// same error.
pub proof fn law_reading_is_deterministic(
    raw: Seq<char>,
    a: Result<Conversation, MessageError>,
    b: Result<Conversation, MessageError>,
)
    requires
        is_reading_of(a, raw),
        is_reading_of(b, raw),
    ensures
        match (a, b) {
            (Ok(x), Ok(y)) => x@ == y@,
            (Err(e), Err(f)) => e == f,
            _ => false,
        },
{
}

/// Whether `name` wrote one of the messages.
pub open spec fn wrote(messages: Seq<MessageView>, name: Seq<char>) -> bool {
    exists|k: int| 0 <= k < messages.len() && (#[trigger] messages[k]).author == name
}

/// Whether `earlier` wrote a message before `later` wrote any.
pub open spec fn wrote_before(
    messages: Seq<MessageView>,
    earlier: Seq<char>,
    later: Seq<char>,
) -> bool {
    exists|k: int|
        0 <= k < messages.len() && (#[trigger] messages[k]).author == earlier && !wrote(
            messages.take(k),
            later,
        )
}

/// Whether the participants of a conversation are the authors of its
/// messages, each named once, in the order of their first messages.
pub open spec fn participants_are_authors(c: ConversationView) -> bool {
    &&& c.participants.no_duplicates()
    &&& forall|name: Seq<char>| #[trigger]
        c.participants.contains(name) <==> wrote(c.messages, name)
    &&& forall|i: int, j: int|
        0 <= i < j < c.participants.len() ==> wrote_before(
            c.messages,
            #[trigger] c.participants[i],
            #[trigger] c.participants[j],
        )
}

/// One more line keeps the participants the authors of the messages.
proof fn lemma_line_keeps_authors(so_far: ConversationView, groups: Seq<Option<Seq<char>>>)
    requires
        participants_are_authors(so_far),
        with_line(so_far, groups) is Ok,
    ensures
        participants_are_authors(with_line(so_far, groups)->Ok_0),
{
    let next = with_line(so_far, groups)->Ok_0;
    if next != so_far {
        let parts = line_parts(groups).unwrap();
        let author = parts.1;
        let n = so_far.messages.len() as int;
        assert(next.messages.len() == n + 1);
        assert(next.messages[n].author == author);
        assert(next.messages.take(n) == so_far.messages);
        assert forall|name: Seq<char>| #[trigger]
            next.participants.contains(name) <==> wrote(next.messages, name) by {
            if wrote(next.messages, name) {
                let k = choose|k: int|
                    0 <= k < next.messages.len() && (#[trigger] next.messages[k]).author == name;
                if k < n {
                    assert(so_far.messages[k].author == name);
                    assert(so_far.participants.contains(name));
                    let at = choose|at: int|
                        0 <= at < so_far.participants.len() && so_far.participants[at] == name;
                    assert(next.participants[at] == name);
                } else {
                    if !so_far.participants.contains(author) {
                        assert(next.participants[so_far.participants.len() as int] == author);
                    }
                }
            }
            if next.participants.contains(name) {
                let at = choose|at: int|
                    0 <= at < next.participants.len() && next.participants[at] == name;
                if at < so_far.participants.len() {
                    assert(so_far.participants[at] == name);
                    assert(so_far.participants.contains(name));
                    let k = choose|k: int|
                        0 <= k < so_far.messages.len() && (#[trigger] so_far.messages[k]).author
                            == name;
                    assert(next.messages[k].author == name);
                } else {
                    assert(next.messages[n].author == name);
                }
            }
        }
        assert forall|i: int, j: int| 0 <= i < j < next.participants.len() implies wrote_before(
            next.messages,
            #[trigger] next.participants[i],
            #[trigger] next.participants[j],
        ) by {
            let a = next.participants[i];
            let b = next.participants[j];
            if j < so_far.participants.len() {
                assert(wrote_before(so_far.messages, so_far.participants[i], so_far.participants[j]));
                let k = choose|k: int|
                    0 <= k < so_far.messages.len() && (#[trigger] so_far.messages[k]).author == a
                        && !wrote(so_far.messages.take(k), b);
                assert(next.messages[k].author == a);
                assert(next.messages.take(k) == so_far.messages.take(k));
            } else {
                assert(b == author);
                assert(!so_far.participants.contains(author));
                assert(so_far.participants[i] == a);
                assert(so_far.participants.contains(a));
                let k = choose|k: int|
                    0 <= k < so_far.messages.len() && (#[trigger] so_far.messages[k]).author == a;
                assert(next.messages[k].author == a);
                if wrote(next.messages.take(k), b) {
                    let l = choose|l: int|
                        0 <= l < next.messages.take(k).len() && (#[trigger] next.messages.take(
                            k,
                        )[l]).author == b;
                    assert(so_far.messages[l].author == b);
                    assert(wrote(so_far.messages, b));
                }
            }
        }
    }
}

/// In a conversation read from a transcript the participants are the
/// authors of the messages, each named once, in the order of their first
/// messages.
pub proof fn law_participants_are_the_authors(found: Seq<Seq<Option<Seq<char>>>>)
    requires
        conversation_of(found) is Ok,
    ensures
        participants_are_authors(conversation_of(found)->Ok_0),
    decreases found.len(),
{
    if found.len() > 0 {
        law_participants_are_the_authors(found.drop_last());
        lemma_line_keeps_authors(conversation_of(found.drop_last())->Ok_0, found.last());
    }
}

/// Whether `names` holds `name`.
fn holds_name(names: &Vec<String>, name: &String) -> (r: bool)
    ensures
        r == texts(names@).contains(name@),
{
    let mut i: usize = 0;
    while i < names.len()
        invariant
            i <= names.len(),
            forall|k: int| 0 <= k < i ==> texts(names@)[k] != name@,
        decreases names.len() - i,
    {
        if names[i] == *name {
            proof {
                assert(texts(names@)[i as int] == name@);
            }
            return true;
        }
        i = i + 1;
    }
    false
}

impl Conversation {
    /// The conversation that the matches of a transcript's lines make. Each
    /// match holds, in its groups 1 to 3, the date and time, the author and
    /// the body of one line.
    pub fn from_matches(found: &Vec<Vec<Option<String>>>) -> (r: Result<
        Conversation,
        MessageError,
    >)
        ensures
            is_conversation_of(r, match_texts(found@)),
    {
        let mut messages: Vec<Message> = Vec::new();
        let mut participants: Vec<String> = Vec::new();
        let notice = chars_of(ENCRYPTION_NOTICE);
        let mut i: usize = 0;
        proof {
            assert(message_views(messages@) =~= Seq::<MessageView>::empty());
            assert(texts(participants@) =~= Seq::<Seq<char>>::empty());
        }
        while i < found.len()
            invariant
                i <= found.len(),
                notice@ == ENCRYPTION_NOTICE@,
                conversation_of(match_texts(found@).take(i as int)) == Ok::<
                    ConversationView,
                    MessageError,
                >(
                    ConversationView {
                        messages: message_views(messages@),
                        participants: texts(participants@),
                    },
                ),
            decreases found.len() - i,
        {
            let groups = &found[i];
            proof {
                let seen = match_texts(found@).take(i + 1);
                assert(seen.drop_last() == match_texts(found@).take(i as int));
            }
            if groups.len() >= 4 {
                match (&groups[1], &groups[2], &groups[3]) {
                    (Some(datetime), Some(author), Some(text)) => {
                        let body = chars_of(text.as_str());
                        if !find(&body, &notice) {
                            let trimmed_body = string_of(&trim(&body));
                            match Message::from_str(
                                datetime.as_str(),
                                author.as_str(),
                                trimmed_body.as_str(),
                            ) {
                                Ok(message) => {
                                    let ghost names = texts(participants@);
                                    let ghost before = message_views(messages@);
                                    if !holds_name(&participants, &message.author) {
                                        participants.push(message.author.clone());
                                        proof {
                                            assert(texts(participants@) =~= names.push(author@));
                                        }
                                    }
                                    messages.push(message);
                                    proof {
                                        assert(message_views(messages@) =~= before.push(
                                            message@,
                                        ));
                                    }
                                },
                                Err(e) => {
                                    proof {
                                        lemma_failure_stays(match_texts(found@), i + 1);
                                    }
                                    return Err(e);
                                },
                            }
                        }
                    },
                    _ => {},
                }
            }
            i = i + 1;
        }
        proof {
            assert(match_texts(found@).take(found.len() as int) == match_texts(found@));
        }
        Ok(Conversation::new(messages, participants))
    }

    /// Reads a transcript. Each part of `raw` that the `regex` crate finds to
    /// match [`LINE_PATTERN`] is a line; the rest is passed over. Should the
    /// crate refuse the pattern, nothing is found and the conversation is
    /// empty.
    pub fn from_str(raw: &str) -> (r: Result<Conversation, MessageError>)
        ensures
            is_reading_of(r, raw@),
    {
        match find_matches(LINE_PATTERN, raw) {
            Some(found) => Conversation::from_matches(&found),
            None => Conversation::from_matches(&Vec::new()),
        }
    }
}


} // verus!
