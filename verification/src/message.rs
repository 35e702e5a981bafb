//! One message of a transcript.

use crate::calendar::Civil;
use crate::datetime::{parse_with_format, parsed_datetime, DateTime};
use crate::emoji::EmojiTable;
use crate::text::{
    alphanumeric_chars, char_texts, chars_of, contains, find, keep_alphanumeric,
    split_whitespace, string_of, texts, trim, trimmed, words,
};
use vstd::prelude::*;

verus! {

/// The format in which a transcript writes the date and time of a message.
pub const DATETIME_FORMAT: &'static str = "%Y-%m-%d, %H:%M:%S";

/// What a message holds.
#[derive(Clone, Copy, Debug, PartialEq, Eq, Hash, Structural)]
pub enum MessageType {
    Image,
    Text,
    Audio,
    Video,
    Contact,
    Unknown,
}

/// Why a transcript, or a question put to it, was refused.
#[derive(Clone, Copy, Debug, PartialEq, Eq, Hash, Structural)]
pub enum MessageErrorKind {
    /// The date and time of a message are not in the transcript's format.
    InvalidDate,
    /// The conversation holds no message.
    EmptyMessage,
}

/// An error, with its kind.
#[derive(Clone, Copy, Debug, PartialEq, Eq, Hash, Structural)]
pub struct MessageError(pub MessageErrorKind);

impl MessageError {
    /// What went wrong, in words.
    pub open spec fn description_text(self) -> Seq<char> {
        match self.0 {
            MessageErrorKind::InvalidDate => "unable to parse date"@,
            MessageErrorKind::EmptyMessage => "empty message"@,
        }
    }

    /// What went wrong, in words.
    pub fn description(&self) -> (r: &'static str)
        ensures
            r@ == self.description_text(),
    {
        match self.0 {
            MessageErrorKind::InvalidDate => "unable to parse date",
            MessageErrorKind::EmptyMessage => "empty message",
        }
    }

    /// What went wrong, in words.
    pub fn to_string(&self) -> (r: String)
        ensures
            r@ == self.description_text(),
    {
        self.description().to_owned()
    }
}

/// One message: when it was sent, by whom, and what it says.
#[derive(Debug)]
pub struct Message {
    pub datetime: DateTime,
    pub author: String,
    pub text: String,
    pub kind: MessageType,
}

/// The mathematical value of a [`Message`].
pub struct MessageView {
    pub datetime: Civil,
    pub author: Seq<char>,
    pub text: Seq<char>,
    pub kind: MessageType,
}

impl View for Message {
    type V = MessageView;

    open spec fn view(&self) -> MessageView {
        MessageView {
            datetime: self.datetime@,
            author: self.author@,
            text: self.text@,
            kind: self.kind,
        }
    }
}

impl Clone for Message {
    fn clone(&self) -> (r: Message)
        ensures
            r == *self,
    {
        Message {
            datetime: self.datetime,
            author: self.author.clone(),
            text: self.text.clone(),
            kind: self.kind,
        }
    }
}

/// What the body of a message holds. A body that says that something was
/// omitted stands for an attachment, whose kind the first of the words
/// `image`, `audio`, `video` and `card` found in it tells; any other body is
/// text.
pub open spec fn message_kind(text: Seq<char>) -> MessageType {
    if !contains(text, "omitted"@) {
        MessageType::Text
    } else if contains(text, "image"@) {
        MessageType::Image
    } else if contains(text, "audio"@) {
        MessageType::Audio
    } else if contains(text, "video"@) {
        MessageType::Video
    } else if contains(text, "card"@) {
        MessageType::Contact
    } else {
        MessageType::Unknown
    }
}

/// The message sent at `datetime` by `author` with the body `text`: the
/// body is kept without the white space around it, and classified as it was
/// given.
pub open spec fn message_of(datetime: Civil, author: Seq<char>, text: Seq<char>) -> MessageView {
    MessageView { datetime, author, text: trimmed(text), kind: message_kind(text) }
}

/// Those of `tokens` that are not emoji glyphs.
pub open spec fn plain_words(tokens: Seq<Seq<char>>, emoji: Seq<Seq<char>>) -> Seq<Seq<char>> {
    tokens.filter(|w: Seq<char>| !emoji.contains(w))
}

/// The mathematical values of a sequence of messages.
pub open spec fn message_views(messages: Seq<Message>) -> Seq<MessageView> {
    messages.map_values(|m: Message| m@)
}

impl Message {
    /// The message sent at `datetime` by `author` with the body `text`.
    pub fn new(datetime: DateTime, author: &str, text: &str) -> (r: Message)
        ensures
            r@ == message_of(datetime@, author@, text@),
    {
        let body = chars_of(text);
        let kind = if !find(&body, &chars_of("omitted")) {
            MessageType::Text
        } else if find(&body, &chars_of("image")) {
            MessageType::Image
        } else if find(&body, &chars_of("audio")) {
            MessageType::Audio
        } else if find(&body, &chars_of("video")) {
            MessageType::Video
        } else if find(&body, &chars_of("card")) {
            MessageType::Contact
        } else {
            MessageType::Unknown
        };
        Message { datetime, author: author.to_owned(), text: string_of(&trim(&body)), kind }
    }

    /// Reads a message from the three parts of a transcript line. The date
    /// and time must be in [`DATETIME_FORMAT`], as `chrono` reads it.
    pub fn from_str(datetime: &str, author: &str, text: &str) -> (r: Result<Message, MessageError>)
        ensures
            match r {
                Ok(m) => parsed_datetime(datetime@, DATETIME_FORMAT@) matches Some(at) && m@
                    == message_of(at, author@, text@),
                Err(e) => parsed_datetime(datetime@, DATETIME_FORMAT@) is None && e
                    == MessageError(MessageErrorKind::InvalidDate),
            },
    {
        match parse_with_format(datetime, DATETIME_FORMAT) {
            Some(at) => Ok(Message::new(at, author, text)),
            None => Err(MessageError(MessageErrorKind::InvalidDate)),
        }
    }

    /// The ASCII letters and digits of the body, in order.
    pub fn letters(&self) -> (r: String)
        ensures
            r@ == alphanumeric_chars(self.text@),
    {
        string_of(&keep_alphanumeric(&chars_of(self.text.as_str())))
    }

    /// The number of ASCII letters and digits in the body.
    pub fn letter_count(&self) -> (r: usize)
        ensures
            r == alphanumeric_chars(self.text@).len(),
    {
        keep_alphanumeric(&chars_of(self.text.as_str())).len()
    }

    /// The words of the body, without those that are emoji glyphs.
    pub fn words(&self, emoji: &EmojiTable) -> (r: Vec<String>)
        ensures
            texts(r@) == plain_words(words(self.text@), emoji@),
    {
        let all = split_whitespace(&chars_of(self.text.as_str()));
        let mut r: Vec<String> = Vec::new();
        let mut i: usize = 0;
        while i < all.len()
            invariant
                i <= all.len(),
                char_texts(all@) == words(self.text@),
                texts(r@) == plain_words(char_texts(all@).take(i as int), emoji@),
            decreases all.len() - i,
        {
            proof {
                let seen = char_texts(all@).take(i as int);
                assert(char_texts(all@).take(i + 1) == seen.push(all[i as int]@));
                seen.lemma_filter_push(all[i as int]@, |w: Seq<char>| !emoji@.contains(w));
            }
            if !emoji.contains(&all[i]) {
                r.push(string_of(&all[i]));
            }
            i = i + 1;
        }
        proof {
            assert(char_texts(all@).take(all.len() as int) == char_texts(all@));
        }
        r
    }
}

} // verus!
