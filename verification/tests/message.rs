use insights::emoji::EmojiTable;
use insights::message::{Message, MessageError, MessageErrorKind, MessageType};

fn no_emoji() -> EmojiTable {
    EmojiTable::new(&Vec::new())
}

#[test]
fn from_str_parses_date() {
    let m = Message::from_str("2019-09-11, 01:57:17", "Foo Bar", "Baz Qux").unwrap();
    assert_eq!(format!("{}", m.datetime.to_string()), "2019-09-11 01:57:17");
}

#[test]
fn from_str_parses_author() {
    let m = Message::from_str("2019-09-11, 01:57:17", "Foo Bar", "Baz Qux").unwrap();
    assert_eq!(m.author, "Foo Bar");
}

#[test]
fn from_str_parses_text() {
    let m = Message::from_str("2019-09-11, 01:57:17", "Foo Bar", "Baz Qux").unwrap();
    assert_eq!(m.text, "Baz Qux");
}

#[test]
fn from_str_identifies_kind() {
    let m_text = Message::from_str("2019-09-11, 01:57:17", "Foo Bar", "Baz Qux").unwrap();
    assert_eq!(m_text.kind, MessageType::Text);

    let m_image =
        Message::from_str("2019-09-11, 01:57:17", "Foo Bar", "â€Žimage omitted").unwrap();
    assert_eq!(m_image.kind, MessageType::Image);

    let m_audio =
        Message::from_str("2019-09-11, 01:57:17", "Foo Bar", "audio omitted").unwrap();
    assert_eq!(m_audio.kind, MessageType::Audio);

    let m_video =
        Message::from_str("2019-09-11, 01:57:17", "Foo Bar", "video omitted").unwrap();
    assert_eq!(m_video.kind, MessageType::Video);

    let m_contact =
        Message::from_str("2019-09-11, 01:57:17", "Foo Bar", "Contact card omitted").unwrap();
    assert_eq!(m_contact.kind, MessageType::Contact);
}

#[test]
fn from_str_throw_error_on_invalid_date() {
    assert!(
        Message::from_str("", "author", "text").is_err(),
        "unable to parse date"
    );
}

#[test]
fn message_letters_works() {
    let m = Message::from_str("2019-09-11, 01:57:17", "Foo Bar", "Baz Qux").unwrap();
    assert_eq!(m.letters(), "BazQux");
}

#[test]
fn message_words_works() {
    let m = Message::from_str("2019-09-11, 01:57:17", "Foo Bar", "Baz Qux").unwrap();
    assert_eq!(m.words(&no_emoji()), vec!["Baz", "Qux"]);
}

#[test]
fn from_str_reads_every_field_of_the_date() {
    let m = Message::from_str("2019-09-11, 01:57:17", "Foo Bar", "Baz Qux").unwrap();
    assert_eq!(m.datetime.year(), 2019);
    assert_eq!(m.datetime.month(), 9);
    assert_eq!(m.datetime.day(), 11);
    assert_eq!(m.datetime.hour(), 1);
    assert_eq!(m.datetime.minute(), 57);
    assert_eq!(m.datetime.second(), 17);
}

#[test]
fn from_str_gives_invalid_date_for_a_day_that_does_not_exist() {
    let r = Message::from_str("2019-02-30, 01:57:17", "Foo", "Bar");
    assert_eq!(r.unwrap_err(), MessageError(MessageErrorKind::InvalidDate));
    let r = Message::from_str("2019-09-11 01:57:17", "Foo", "Bar");
    assert_eq!(r.unwrap_err(), MessageError(MessageErrorKind::InvalidDate));
    let r = Message::from_str("2019-09-11, 24:00:00", "Foo", "Bar");
    assert_eq!(r.unwrap_err(), MessageError(MessageErrorKind::InvalidDate));
}

#[test]
fn from_str_trims_the_body_and_keeps_the_author() {
    let m = Message::from_str("2019-09-11, 01:57:17", " Foo ", " \t Baz  Qux \u{a0}\n").unwrap();
    assert_eq!(m.author, " Foo ");
    assert_eq!(m.text, "Baz  Qux");
}

#[test]
fn kind_follows_the_order_image_audio_video_card() {
    let kind = |text: &str| Message::from_str("2019-09-11, 01:57:17", "Foo", text).unwrap().kind;
    assert_eq!(kind("image audio video card omitted"), MessageType::Image);
    assert_eq!(kind("card video audio omitted"), MessageType::Audio);
    assert_eq!(kind("card video omitted"), MessageType::Video);
    assert_eq!(kind("card omitted"), MessageType::Contact);
    assert_eq!(kind("sticker omitted"), MessageType::Unknown);
    assert_eq!(kind("an image of a card"), MessageType::Text);
    assert_eq!(kind("Omitted image"), MessageType::Text);
    assert_eq!(kind(""), MessageType::Text);
}

#[test]
fn letters_leaves_out_what_is_not_an_ascii_letter_or_digit() {
    let m = Message::from_str("2019-09-11, 01:57:17", "Foo", "Héllo, wörld 42! 💩 _x").unwrap();
    assert_eq!(m.letters(), "Hllowrld42x");
    assert_eq!(m.letter_count(), 11);
}

#[test]
fn words_leaves_out_emoji_tokens_only() {
    let table = EmojiTable::new(&vec![String::from("💩"), String::from("🎉")]);
    let m = Message::from_str("2019-09-11, 01:57:17", "Foo", "Hey! 💩 party🎉 \u{2003}🎉\t💩💩")
        .unwrap();
    assert_eq!(m.words(&table), vec!["Hey!", "party🎉", "💩💩"]);
    assert_eq!(m.words(&no_emoji()), vec!["Hey!", "💩", "party🎉", "🎉", "💩💩"]);
}

#[test]
fn new_builds_the_message_that_from_str_builds() {
    let a = Message::from_str("2019-09-11, 01:57:17", "Foo", " video omitted ").unwrap();
    let b = Message::new(a.datetime, "Foo", " video omitted ");
    assert_eq!(a.datetime, b.datetime);
    assert_eq!(a.author, b.author);
    assert_eq!(a.text, b.text);
    assert_eq!(a.kind, b.kind);
    assert_eq!(b.text, "video omitted");
    assert_eq!(b.kind, MessageType::Video);
}

#[test]
fn errors_describe_themselves() {
    let invalid = MessageError(MessageErrorKind::InvalidDate);
    let empty = MessageError(MessageErrorKind::EmptyMessage);
    assert_eq!(invalid.description(), "unable to parse date");
    assert_eq!(empty.description(), "empty message");
    assert_eq!(invalid.to_string(), "unable to parse date");
    assert_eq!(empty.to_string(), "empty message");
}
