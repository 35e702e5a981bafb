//! A conversation: the messages of a transcript in the order in which they
//! stand there, and the people who wrote them.

use crate::datetime::{DateTime, Duration};
use crate::emoji::{emoji_counts, EmojiTable, Emojis};
use crate::message::{
    message_views, plain_words, Message, MessageError, MessageErrorKind, MessageView,
};
use crate::text::{
    alphanumeric_chars, ascii_chars, chars_of, count_solid, keep_ascii, solid_chars,
    split_whitespace, string_of, texts, trim, trimmed, words,
};
use vstd::prelude::*;

verus! {

/// The bodies of the messages, joined without anything between them.
pub open spec fn raw_text(messages: Seq<MessageView>) -> Seq<char>
    decreases messages.len(),
{
    if messages.len() == 0 {
        Seq::empty()
    } else {
        raw_text(messages.drop_last()) + messages.last().text
    }
}

/// The text that the word and letter counts of a conversation are taken
/// from: the joined bodies without their characters outside ASCII, and
/// without the white space around what is left.
pub open spec fn combined_text(messages: Seq<MessageView>) -> Seq<char> {
    trimmed(ascii_chars(raw_text(messages)))
}

/// The number of words in the combined text.
pub open spec fn word_count(messages: Seq<MessageView>) -> nat {
    words(combined_text(messages)).len()
}

/// The number of characters of the combined text that are not white space.
pub open spec fn letter_count(messages: Seq<MessageView>) -> nat {
    solid_chars(combined_text(messages)).len()
}

/// The messages written by `author`, in order.
pub open spec fn sent_by(messages: Seq<MessageView>, author: Seq<char>) -> Seq<MessageView> {
    messages.filter(|m: MessageView| m.author == author)
}

/// The messages sent at or after the instant `start` and before the instant
/// `end`, in order.
pub open spec fn sent_within(messages: Seq<MessageView>, start: int, end: int) -> Seq<
    MessageView,
> {
    messages.filter(|m: MessageView| start <= m.datetime.instant() < end)
}

/// The messages sent in hour `hour` of some day.
pub open spec fn sent_in_hour(messages: Seq<MessageView>, hour: int) -> Seq<MessageView> {
    messages.filter(|m: MessageView| m.datetime.hour == hour)
}

/// The number of messages sent in each of the 24 hours of the day.
pub open spec fn hourly_counts(messages: Seq<MessageView>) -> Seq<nat> {
    Seq::new(24, |hour: int| sent_in_hour(messages, hour).len())
}

/// The number of ASCII letters and digits in the bodies of the messages,
/// each body counted by itself.
pub open spec fn letters_in_bodies(messages: Seq<MessageView>) -> nat
    decreases messages.len(),
{
    if messages.len() == 0 {
        0
    } else {
        letters_in_bodies(messages.drop_last()) + alphanumeric_chars(messages.last().text).len()
    }
}

/// The number of words that are not emoji glyphs in the bodies of the
/// messages, each body counted by itself.
pub open spec fn words_in_bodies(messages: Seq<MessageView>, emoji: Seq<Seq<char>>) -> nat
    decreases messages.len(),
{
    if messages.len() == 0 {
        0
    } else {
        words_in_bodies(messages.drop_last(), emoji) + plain_words(
            words(messages.last().text),
            emoji,
        ).len()
    }
}

/// Two ranges of time that meet split the range that they cover: each
/// message of the whole is in exactly one of the parts, so the counts add
/// up and nothing is lost or taken twice.
pub proof fn law_ranges_partition(messages: Seq<MessageView>, a: int, b: int, c: int)
    requires
        a <= b <= c,
    ensures
        sent_within(messages, a, c).len() == sent_within(messages, a, b).len() + sent_within(
            messages,
            b,
            c,
        ).len(),
        sent_within(messages, a, c).to_multiset() == sent_within(messages, a, b).to_multiset().add(
            sent_within(messages, b, c).to_multiset(),
        ),
        forall|m: MessageView|
            sent_within(messages, a, b).contains(m) ==> !sent_within(messages, b, c).contains(m),
    decreases messages.len(),
{
    broadcast use vstd::seq_lib::group_to_multiset_ensures;

    let whole = |m: MessageView| a <= m.datetime.instant() < c;
    let left = |m: MessageView| a <= m.datetime.instant() < b;
    let right = |m: MessageView| b <= m.datetime.instant() < c;
    if messages.len() == 0 {
        assert(sent_within(messages, a, c).to_multiset() =~= sent_within(
            messages,
            a,
            b,
        ).to_multiset().add(sent_within(messages, b, c).to_multiset()));
    } else {
        let rest = messages.drop_last();
        let m = messages.last();
        law_ranges_partition(rest, a, b, c);
        assert(messages == rest.push(m));
        rest.lemma_filter_push(m, whole);
        rest.lemma_filter_push(m, left);
        rest.lemma_filter_push(m, right);
        assert(sent_within(messages, a, c).to_multiset() =~= sent_within(
            messages,
            a,
            b,
        ).to_multiset().add(sent_within(messages, b, c).to_multiset()));
    }
    assert forall|m: MessageView| sent_within(messages, a, b).contains(m) implies !sent_within(
        messages,
        b,
        c,
    ).contains(m) by {
        messages.lemma_filter_contains_rev(left, m);
        if sent_within(messages, b, c).contains(m) {
            messages.lemma_filter_contains_rev(right, m);
        }
    }
}

/// A quotient of two counts, kept as the two counts.
#[derive(Clone, Copy, Debug, PartialEq, Eq, Hash, Structural)]
pub struct Ratio {
    pub numerator: u128,
    pub denominator: u128,
}

/// The mathematical value of a [`Ratio`].
pub struct Quotient {
    pub numerator: nat,
    pub denominator: nat,
}

impl View for Ratio {
    type V = Quotient;

    open spec fn view(&self) -> Quotient {
        Quotient { numerator: self.numerator as nat, denominator: self.denominator as nat }
    }
}

/// How many messages were sent in each hour of the day.
#[derive(Debug)]
pub struct Frequency {
    counts: Vec<usize>,
}

impl View for Frequency {
    type V = Seq<nat>;

    closed spec fn view(&self) -> Seq<nat> {
        self.counts@.map_values(|n: usize| n as nat)
    }
}

/// The character that writes a digit from 0 to 9.
pub open spec fn digit_char(digit: int) -> char {
    ((48 + digit) as u8) as char
}

/// The label of an hour of the day: its two digits and the letter `h`.
pub open spec fn hour_label_text(hour: int) -> Seq<char> {
    seq![digit_char(hour / 10), digit_char(hour % 10), 'h']
}

/// The label of an hour of the day, from `00h` to `23h`.
pub fn hour_label(hour: u8) -> (r: String)
    requires
        hour < 24,
    ensures
        r@ == hour_label_text(hour as int),
{
    let mut r = String::new();
    r.push((48u8 + hour / 10) as char);
    r.push((48u8 + hour % 10) as char);
    r.push('h');
    r
}

impl Frequency {
    #[verifier::type_invariant]
    closed spec fn covers_the_day(self) -> bool {
        self.counts.len() == 24
    }

    /// The number of messages sent in hour `hour` of the day.
    pub fn get(&self, hour: u8) -> (r: usize)
        requires
            hour < 24,
        ensures
            self@.len() == 24,
            r == self@[hour as int],
    {
        proof {
            use_type_invariant(self);
        }
        self.counts[hour as usize]
    }

    /// The 24 hours of the day in order, each with its label and the number
    /// of messages sent in it.
    pub fn entries(&self) -> (r: Vec<(String, usize)>)
        ensures
            self@.len() == 24,
            r.len() == 24,
            forall|h: int|
                0 <= h < 24 ==> (#[trigger] r[h]).0@ == hour_label_text(h) && r[h].1 == self@[h],
    {
        proof {
            use_type_invariant(self);
        }
        let mut r: Vec<(String, usize)> = Vec::new();
        let mut hour: u8 = 0;
        while hour < 24
            invariant
                hour <= 24,
                self.counts.len() == 24,
                r.len() == hour,
                forall|h: int|
                    0 <= h < hour ==> (#[trigger] r[h]).0@ == hour_label_text(h) && r[h].1
                        == self@[h],
            decreases 24 - hour,
        {
            r.push((hour_label(hour), self.counts[hour as usize]));
            hour = hour + 1;
        }
        r
    }
}

/// The messages of a transcript, in the order in which they stand there, and
/// the names of the people who take part.
#[derive(Debug)]
pub struct Conversation {
    messages: Vec<Message>,
    participants: Vec<String>,
}

/// The mathematical value of a [`Conversation`].
pub struct ConversationView {
    pub messages: Seq<MessageView>,
    pub participants: Seq<Seq<char>>,
}

impl View for Conversation {
    type V = ConversationView;

    closed spec fn view(&self) -> ConversationView {
        ConversationView {
            messages: message_views(self.messages@),
            participants: texts(self.participants@),
        }
    }
}

/// A copy of a list of names.
fn clone_names(names: &Vec<String>) -> (r: Vec<String>)
    ensures
        r@ == names@,
{
    let mut r: Vec<String> = Vec::new();
    let mut i: usize = 0;
    while i < names.len()
        invariant
            i <= names.len(),
            r@ == names@.take(i as int),
        decreases names.len() - i,
    {
        r.push(names[i].clone());
        i = i + 1;
    }
    r
}

impl Clone for Conversation {
    fn clone(&self) -> (r: Conversation)
        ensures
            r@ == self@,
    {
        let mut messages: Vec<Message> = Vec::new();
        let mut i: usize = 0;
        while i < self.messages.len()
            invariant
                i <= self.messages.len(),
                messages@ == self.messages@.take(i as int),
            decreases self.messages.len() - i,
        {
            messages.push(self.messages[i].clone());
            proof {
                assert(self.messages@.take(i + 1) == self.messages@.take(i as int).push(
                    self.messages@[i as int],
                ));
            }
            i = i + 1;
        }
        proof {
            assert(self.messages@.take(self.messages.len() as int) == self.messages@);
        }
        Conversation { messages, participants: clone_names(&self.participants) }
    }
}

impl Conversation {
    /// The conversation of the given messages and participants.
    pub fn new(messages: Vec<Message>, participants: Vec<String>) -> (r: Conversation)
        ensures
            r@.messages == message_views(messages@),
            r@.participants == texts(participants@),
    {
        Conversation { messages, participants }
    }

    /// The message that stands first, if there is one.
    pub fn first(&self) -> (r: Option<&Message>)
        ensures
            match r {
                Some(m) => self@.messages.len() > 0 && m@ == self@.messages.first(),
                None => self@.messages.len() == 0,
            },
    {
        if self.messages.len() == 0 {
            None
        } else {
            Some(&self.messages[0])
        }
    }

    /// The message that stands last, if there is one.
    pub fn last(&self) -> (r: Option<&Message>)
        ensures
            match r {
                Some(m) => self@.messages.len() > 0 && m@ == self@.messages.last(),
                None => self@.messages.len() == 0,
            },
    {
        if self.messages.len() == 0 {
            None
        } else {
            Some(&self.messages[self.messages.len() - 1])
        }
    }

    /// The time from the first message to the last.
    pub fn duration(&self) -> (r: Result<Duration, MessageError>)
        ensures
            match r {
                Ok(d) => self@.messages.len() > 0 && d.seconds
                    == self@.messages.last().datetime.instant()
                    - self@.messages.first().datetime.instant(),
                Err(e) => self@.messages.len() == 0 && e == MessageError(
                    MessageErrorKind::EmptyMessage,
                ),
            },
    {
        let first = match self.first() {
            Some(m) => m,
            None => return Err(MessageError(MessageErrorKind::EmptyMessage)),
        };
        let last = match self.last() {
            Some(m) => m,
            None => return Err(MessageError(MessageErrorKind::EmptyMessage)),
        };
        Ok(Duration { seconds: last.datetime.seconds_since(&first.datetime) })
    }

    /// The number of messages.
    pub fn count(&self) -> (r: usize)
        ensures
            r == self@.messages.len(),
    {
        self.messages.len()
    }

    /// The messages, in order.
    pub fn messages(&self) -> (r: &Vec<Message>)
        ensures
            message_views(r@) == self@.messages,
    {
        &self.messages
    }

    /// The names of the participants, in order.
    pub fn participants(&self) -> (r: &Vec<String>)
        ensures
            texts(r@) == self@.participants,
    {
        &self.participants
    }

    /// The characters of the bodies of the messages, joined without anything
    /// between them.
    fn raw_chars(&self) -> (r: Vec<char>)
        ensures
            r@ == raw_text(self@.messages),
    {
        let mut r: Vec<char> = Vec::new();
        let mut i: usize = 0;
        while i < self.messages.len()
            invariant
                i <= self.messages.len(),
                r@ == raw_text(self@.messages.take(i as int)),
            decreases self.messages.len() - i,
        {
            let mut body = chars_of(self.messages[i].text.as_str());
            proof {
                let seen = self@.messages.take(i + 1);
                assert(seen.drop_last() == self@.messages.take(i as int));
            }
            r.append(&mut body);
            i = i + 1;
        }
        proof {
            assert(self@.messages.take(self.messages.len() as int) == self@.messages);
        }
        r
    }

    /// The bodies of the messages, joined without anything between them.
    pub fn combine_raw(&self) -> (r: String)
        ensures
            r@ == raw_text(self@.messages),
    {
        string_of(&self.raw_chars())
    }

    /// The characters of the combined text.
    fn combined_chars(&self) -> (r: Vec<char>)
        ensures
            r@ == combined_text(self@.messages),
    {
        trim(&keep_ascii(&self.raw_chars()))
    }

    /// The joined bodies without their characters outside ASCII, and without
    /// the white space around what is left.
    pub fn combine(&self) -> (r: String)
        ensures
            r@ == combined_text(self@.messages),
    {
        string_of(&self.combined_chars())
    }

    /// The number of words in the combined text.
    pub fn words(&self) -> (r: usize)
        ensures
            r == word_count(self@.messages),
    {
        split_whitespace(&self.combined_chars()).len()
    }

    /// The number of characters of the combined text that are not white
    /// space.
    pub fn letters(&self) -> (r: usize)
        ensures
            r == letter_count(self@.messages),
    {
        count_solid(&self.combined_chars())
    }

    /// The messages written by `author`, as a conversation in which only
    /// `author` takes part.
    pub fn by_author(&self, author: String) -> (r: Conversation)
        ensures
            r@.messages == sent_by(self@.messages, author@),
            r@.participants == seq![author@],
    {
        let mut messages: Vec<Message> = Vec::new();
        let mut i: usize = 0;
        while i < self.messages.len()
            invariant
                i <= self.messages.len(),
                message_views(messages@) == sent_by(self@.messages.take(i as int), author@),
            decreases self.messages.len() - i,
        {
            proof {
                let seen = self@.messages.take(i as int);
                assert(self@.messages.take(i + 1) == seen.push(self.messages[i as int]@));
                seen.lemma_filter_push(
                    self.messages[i as int]@,
                    |m: MessageView| m.author == author@,
                );
            }
            if self.messages[i].author == author {
                messages.push(self.messages[i].clone());
            }
            i = i + 1;
        }
        proof {
            assert(self@.messages.take(self.messages.len() as int) == self@.messages);
        }
        let mut participants: Vec<String> = Vec::new();
        participants.push(author);
        Conversation { messages, participants }
    }

    /// The messages sent at or after `start` and before `end`, as a
    /// conversation with the same participants.
    pub fn by_range(&self, start: DateTime, end: DateTime) -> (r: Conversation)
        ensures
            r@.messages == sent_within(self@.messages, start@.instant(), end@.instant()),
            r@.participants == self@.participants,
    {
        let mut messages: Vec<Message> = Vec::new();
        let mut i: usize = 0;
        while i < self.messages.len()
            invariant
                i <= self.messages.len(),
                message_views(messages@) == sent_within(
                    self@.messages.take(i as int),
                    start@.instant(),
                    end@.instant(),
                ),
            decreases self.messages.len() - i,
        {
            proof {
                let seen = self@.messages.take(i as int);
                assert(self@.messages.take(i + 1) == seen.push(self.messages[i as int]@));
                seen.lemma_filter_push(
                    self.messages[i as int]@,
                    |m: MessageView| start@.instant() <= m.datetime.instant() < end@.instant(),
                );
            }
            let at = &self.messages[i].datetime;
            if !at.is_before(&start) && at.is_before(&end) {
                messages.push(self.messages[i].clone());
            }
            i = i + 1;
        }
        proof {
            assert(self@.messages.take(self.messages.len() as int) == self@.messages);
        }
        Conversation { messages, participants: clone_names(&self.participants) }
    }

    /// The emoji of `emoji` that stand in the joined bodies, each with the
    /// number of its occurrences.
    pub fn emojis(&self, emoji: &EmojiTable) -> (r: Emojis)
        ensures
            r@ == emoji_counts(emoji@, raw_text(self@.messages)),
    {
        emoji.count(self.combine_raw().as_str())
    }

    /// The number of messages sent in each hour of the day.
    pub fn frequency(&self) -> (r: Frequency)
        ensures
            r@ == hourly_counts(self@.messages),
    {
        let mut counts: Vec<usize> = Vec::new();
        while counts.len() < 24
            invariant
                counts.len() <= 24,
                forall|h: int| 0 <= h < counts.len() ==> counts[h] == 0,
            decreases 24 - counts.len(),
        {
            counts.push(0);
        }
        let mut i: usize = 0;
        assert forall|h: int| 0 <= h < 24 implies counts[h] == sent_in_hour(
            self@.messages.take(0),
            h,
        ).len() by {
            reveal(Seq::filter);
        }
        while i < self.messages.len()
            invariant
                i <= self.messages.len(),
                counts.len() == 24,
                forall|h: int|
                    0 <= h < 24 ==> #[trigger] counts[h] == sent_in_hour(
                        self@.messages.take(i as int),
                        h,
                    ).len(),
            decreases self.messages.len() - i,
        {
            let hour = self.messages[i].datetime.hour() as usize;
            proof {
                let seen = self@.messages.take(i as int);
                assert(self@.messages.take(i + 1) == seen.push(self.messages[i as int]@));
                assert forall|h: int| 0 <= h < 24 implies sent_in_hour(
                    self@.messages.take(i + 1),
                    h,
                ).len() == counts[h] + if h == hour {
                    1int
                } else {
                    0int
                } by {
                    seen.lemma_filter_push(
                        self.messages[i as int]@,
                        |m: MessageView| m.datetime.hour == h,
                    );
                }
                seen.lemma_filter_len(|m: MessageView| m.datetime.hour == hour as int);
            }
            let n = counts[hour];
            counts.set(hour, n + 1);
            i = i + 1;
        }
        proof {
            assert(self@.messages.take(self.messages.len() as int) == self@.messages);
        }
        Frequency { counts }
    }

    /// The words and the letters per message, each as the quotient of a
    /// total by the number of messages. The totals count each body by
    /// itself: its words that are not emoji glyphs, and its ASCII letters
    /// and digits.
    pub fn average(&self, emoji: &EmojiTable) -> (r: Result<(Ratio, Ratio), MessageError>)
        ensures
            match r {
                Ok((w, l)) => {
                    &&& self@.messages.len() > 0
                    &&& w.numerator == words_in_bodies(self@.messages, emoji@)
                    &&& w.denominator == self@.messages.len()
                    &&& l.numerator == letters_in_bodies(self@.messages)
                    &&& l.denominator == self@.messages.len()
                },
                Err(e) => self@.messages.len() == 0 && e == MessageError(
                    MessageErrorKind::EmptyMessage,
                ),
            },
    {
        if self.messages.len() == 0 {
            return Err(MessageError(MessageErrorKind::EmptyMessage));
        }
        let mut l: u128 = 0;
        let mut w: u128 = 0;
        let mut i: usize = 0;
        while i < self.messages.len()
            invariant
                i <= self.messages.len(),
                l == letters_in_bodies(self@.messages.take(i as int)),
                w == words_in_bodies(self@.messages.take(i as int), emoji@),
                l <= i * 0xffff_ffff_ffff_ffff,
                w <= i * 0xffff_ffff_ffff_ffff,
            decreases self.messages.len() - i,
        {
            let message = &self.messages[i];
            proof {
                let seen = self@.messages.take(i + 1);
                assert(seen.drop_last() == self@.messages.take(i as int));
            }
            let letters = message.letter_count();
            let words = message.words(emoji).len();
            l = l + letters as u128;
            w = w + words as u128;
            i = i + 1;
        }
        proof {
            assert(self@.messages.take(self.messages.len() as int) == self@.messages);
        }
        let n: u128 = self.messages.len() as u128;
        Ok((Ratio { numerator: w, denominator: n }, Ratio { numerator: l, denominator: n }))
    }
}

} // verus!
