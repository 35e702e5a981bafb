//! Everything that is reported of a conversation, gathered in one value.

use crate::conversation::{
    hourly_counts, letter_count, letters_in_bodies, raw_text, sent_by, word_count,
    words_in_bodies, Conversation, Frequency, Ratio,
};
use crate::datetime::Duration;
use crate::emoji::{emoji_counts, EmojiTable, Emojis};
use crate::message::{Message, MessageError, MessageErrorKind};
use crate::period::TimelineType;
use crate::text::texts;
use crate::timeline::{buckets_of, timeline_stats, Timeline};
use vstd::prelude::*;

verus! {

/// What is reported of a conversation.
#[derive(Debug)]
pub struct Insights {
    pub first: Message,
    pub last: Message,
    pub duration: Duration,
    pub frequency: Frequency,
    pub frequency_per_participant: Vec<(String, Frequency)>,
    pub total_messages: usize,
    pub total_words: usize,
    pub total_letters: usize,
    pub avg_words_per_message: Ratio,
    pub avg_letters_per_message: Ratio,
    pub participants: Vec<String>,
    pub timeline: Timeline,
    pub emojis: Emojis,
}

impl Insights {
    /// Gathers what is reported of a conversation, with a timeline of kind
    /// `tl_type` and the emoji of `emoji`. A conversation without messages
    /// has nothing to report.
    pub fn new(cnv: &Conversation, tl_type: TimelineType, emoji: &EmojiTable) -> (r: Result<
        Insights,
        MessageError,
    >)
        requires
            cnv.timeline_fits(tl_type),
        ensures
            match r {
                Ok(i) => {
                    &&& cnv@.messages.len() > 0
                    &&& i.first@ == cnv@.messages.first()
                    &&& i.last@ == cnv@.messages.last()
                    &&& i.duration.seconds == cnv@.messages.last().datetime.instant()
                        - cnv@.messages.first().datetime.instant()
                    &&& i.frequency@ == hourly_counts(cnv@.messages)
                    &&& i.frequency_per_participant.len() == cnv@.participants.len()
                    &&& forall|k: int|
                        0 <= k < cnv@.participants.len() ==> {
                            &&& (#[trigger] i.frequency_per_participant[k]).0@
                                == cnv@.participants[k]
                            &&& i.frequency_per_participant[k].1@ == hourly_counts(
                                sent_by(cnv@.messages, cnv@.participants[k]),
                            )
                        }
                    &&& i.total_messages == cnv@.messages.len()
                    &&& i.total_words == word_count(cnv@.messages)
                    &&& i.total_letters == letter_count(cnv@.messages)
                    &&& i.avg_words_per_message.numerator == words_in_bodies(
                        cnv@.messages,
                        emoji@,
                    )
                    &&& i.avg_words_per_message.denominator == cnv@.messages.len()
                    &&& i.avg_letters_per_message.numerator == letters_in_bodies(cnv@.messages)
                    &&& i.avg_letters_per_message.denominator == cnv@.messages.len()
                    &&& texts(i.participants@) == cnv@.participants
                    &&& i.timeline@ == timeline_stats(buckets_of(cnv@, tl_type), tl_type)
                    &&& i.emojis@ == emoji_counts(emoji@, raw_text(cnv@.messages))
                },
                Err(e) => cnv@.messages.len() == 0 && e == MessageError(
                    MessageErrorKind::EmptyMessage,
                ),
            },
    {
        let first = match cnv.first() {
            Some(m) => m.clone(),
            None => return Err(MessageError(MessageErrorKind::EmptyMessage)),
        };
        let last = match cnv.last() {
            Some(m) => m.clone(),
            None => return Err(MessageError(MessageErrorKind::EmptyMessage)),
        };
        let duration = match cnv.duration() {
            Ok(d) => d,
            Err(e) => return Err(e),
        };
        let (avg_words_per_message, avg_letters_per_message) = match cnv.average(emoji) {
            Ok(pair) => pair,
            Err(e) => return Err(e),
        };
        let timeline = match cnv.timeline(tl_type) {
            Ok(t) => t,
            Err(e) => return Err(e),
        };
        let names = cnv.participants();
        let mut participants: Vec<String> = Vec::new();
        let mut frequency_per_participant: Vec<(String, Frequency)> = Vec::new();
        let mut k: usize = 0;
        while k < names.len()
            invariant
                k <= names.len(),
                texts(names@) == cnv@.participants,
                participants@ == names@.take(k as int),
                frequency_per_participant.len() == k,
                forall|j: int|
                    0 <= j < k ==> {
                        &&& (#[trigger] frequency_per_participant[j]).0@ == cnv@.participants[j]
                        &&& frequency_per_participant[j].1@ == hourly_counts(
                            sent_by(cnv@.messages, cnv@.participants[j]),
                        )
                    },
            decreases names.len() - k,
        {
            let theirs = cnv.by_author(names[k].clone());
            frequency_per_participant.push((names[k].clone(), theirs.frequency()));
            participants.push(names[k].clone());
            k = k + 1;
        }
        Ok(
            Insights {
                first,
                last,
                duration,
                frequency: cnv.frequency(),
                frequency_per_participant,
                total_messages: cnv.count(),
                total_words: cnv.words(),
                total_letters: cnv.letters(),
                avg_words_per_message,
                avg_letters_per_message,
                participants,
                timeline,
                emojis: cnv.emojis(emoji),
            },
        )
    }
}

} // verus!
