use chrono::{Datelike, NaiveDateTime, Timelike};
use insights::conversation::{hour_label, Conversation};
use insights::datetime::DateTime;
use insights::emoji::EmojiTable;
use insights::message::{Message, MessageError, MessageErrorKind};
use insights::period::TimelineType;
use insights::timeline::TimelineMap;

fn mock() -> &'static str {
    r"
[2001-01-19, 02:34:56] Foo: Hey! 💩
[2001-01-21, 02:34:56] Bar Baz: heyyyyyyy, 'sup
"
}

fn table() -> EmojiTable {
    EmojiTable::new(&vec![String::from("💩")])
}

fn key(text: &str) -> DateTime {
    let t = NaiveDateTime::parse_from_str(text, "%Y-%m-%dT%H:%M:%S").unwrap();
    DateTime::new(t.year(), t.month(), t.day(), t.hour(), t.minute(), t.second()).unwrap()
}

fn assert_timeline_map_item(what: &TimelineMap, at: &str, count: usize) {
    let at = key(at);
    assert!(what.contains_key(&at), "with key: {}", at.to_string());
    let val = what.get(&at).unwrap().count();
    assert_eq!(val, count, "with key: {}", at.to_string());
}

#[test]
fn from_str_parses_messages() {
    let c = Conversation::from_str(mock()).unwrap();
    assert_eq!(c.messages().len(), 2);
}

#[test]
fn from_str_parses_partipants() {
    let c = Conversation::from_str(mock()).unwrap();
    assert_eq!(c.participants().len(), 2);
    assert_eq!(*c.participants(), vec!["Foo", "Bar Baz"]);
}

#[test]
fn first_works() {
    let c = Conversation::from_str(mock()).unwrap();
    assert_eq!(c.first().unwrap().text, "Hey! 💩");
}

#[test]
fn last_works() {
    let c = Conversation::from_str(mock()).unwrap();
    assert_eq!(c.last().unwrap().text, "heyyyyyyy, 'sup");
}

#[test]
fn duration_works() {
    let c = Conversation::from_str(mock()).unwrap();
    assert_eq!(c.duration().unwrap().num_days(), 2);
}

#[test]
fn combine_raw_works() {
    let c = Conversation::from_str(mock()).unwrap();
    assert_eq!(c.combine_raw(), "Hey! 💩heyyyyyyy, \'sup");
}

#[test]
fn combine_works() {
    let c = Conversation::from_str(mock()).unwrap();
    assert_eq!(c.combine(), "Hey! heyyyyyyy, \'sup");
}

#[test]
fn conversation_words_works() {
    let c = Conversation::from_str(mock()).unwrap();
    assert_eq!(c.words(), 3);
}

#[test]
fn conversation_letters_works() {
    let c = Conversation::from_str(mock()).unwrap();
    assert_eq!(c.letters(), 18);
}

#[test]
fn average_works() {
    let c = Conversation::from_str(mock()).unwrap();
    let (words, letters) = c.average(&table()).unwrap();
    let average = (
        words.numerator as f32 / words.denominator as f32,
        letters.numerator as f32 / letters.denominator as f32,
    );
    assert_eq!(average, (1.5, 7.5));
}

#[test]
fn by_author_works() {
    let c = Conversation::from_str(mock()).unwrap();

    let c0 = c.by_author(String::from("Foo"));
    let c1 = c.by_author(String::from("Bar Baz"));

    assert_eq!(c0.messages().len(), 1);
    assert_eq!(*c0.participants(), vec!["Foo"]);
    assert_eq!(c1.messages().len(), 1);
    assert_eq!(*c1.participants(), vec!["Bar Baz"]);
}

#[test]
fn emojis_works() {
    let c = Conversation::from_str(mock()).unwrap();

    assert_eq!(c.emojis(&table()).keys().len(), 1);
    assert_eq!(c.emojis(&table()).keys().get(0), Some(&String::from("💩")));
}

#[test]
fn frequence_works() {
    let mock_for_frequency = r"
[2001-01-19, 00:34:56] Foo: Test
[2001-01-19, 02:00:00] Bar: What?
[2001-01-19, 02:59:59] Foo: I said, test?
[2001-01-19, 03:34:56] Bar: What?
[2001-01-19, 04:34:56] Foo: Nevermind
[2001-01-19, 05:34:56] Foo: There? 
[2001-01-19, 06:34:56] Bar: Yes?
[2001-01-19, 23:34:56] Foo: What?
";
    let c = Conversation::from_str(mock_for_frequency).unwrap();

    let entries = c.frequency().entries();
    assert_eq!(entries.len(), 24);
    for (k, v) in entries {
        match k.as_str() {
            "00h" => assert_eq!(v, 1),
            "02h" => assert_eq!(v, 2),
            "03h" => assert_eq!(v, 1),
            "04h" => assert_eq!(v, 1),
            "05h" => assert_eq!(v, 1),
            "06h" => assert_eq!(v, 1),
            "23h" => assert_eq!(v, 1),
            _ => assert_eq!(v, 0),
        }
    }
}

#[test]
fn timeline_map_daily_works() {
    let mock_for_daily = r"
[2001-01-19, 00:34:56] Kendrick: Sit down!
[2001-01-19, 23:59:59] Kendrick: Bitch, be humble.
[2001-01-20, 00:34:56] Kendrick: Sit down!
[2001-01-21, 23:59:59] Kendrick: Bitch, be humble.
[2001-01-22, 00:34:56] Kendrick: Sit down!
[2001-01-23, 23:59:59] Kendrick: Bitch, be humble.
    ";
    let c = Conversation::from_str(mock_for_daily).unwrap();
    let t = c.timeline_map(TimelineType::Daily).unwrap();

    assert_eq!(t.len(), 5);

    assert_timeline_map_item(&t, "2001-01-19T00:00:00", 2);
    assert_timeline_map_item(&t, "2001-01-20T00:00:00", 1);
    assert_timeline_map_item(&t, "2001-01-21T00:00:00", 1);
    assert_timeline_map_item(&t, "2001-01-22T00:00:00", 1);
    assert_timeline_map_item(&t, "2001-01-23T00:00:00", 1);
}

#[test]
fn timeline_map_weekly_works() {
    let mock_for_weekly = r"
[2001-01-01, 00:34:56] Kendrick: Sit down!
[2001-01-02, 23:59:59] Kendrick: Bitch, be humble.
[2001-01-03, 00:34:56] Kendrick: Sit down!
[2001-01-04, 23:59:59] Kendrick: Bitch, be humble.
[2001-01-05, 00:34:56] Kendrick: Sit down!
[2001-01-06, 23:59:59] Kendrick: Bitch, be humble.
[2001-01-07, 00:34:56] Kendrick: Sit down, week's about to end.
[2001-01-08, 23:59:59] Kendrick: Bitch, be humble.
[2001-01-09, 00:34:56] Kendrick: Sit down!
[2001-01-10, 23:59:59] Kendrick: Bitch, be humble.
[2001-01-11, 00:34:56] Kendrick: Sit down!
[2001-01-12, 23:59:59] Kendrick: Bitch, be humble.
[2001-01-13, 00:34:56] Kendrick: Sit down!
[2001-01-14, 23:59:59] Kendrick: Bitch, week's about to end.
[2001-01-15, 00:34:56] Kendrick: Sit down!
[2001-01-16, 23:59:59] Kendrick: Bitch, be humble.
[2001-01-17, 00:34:56] Kendrick: Sit down!
[2001-01-18, 23:59:59] Kendrick: Bitch, be humble.";

    let c = Conversation::from_str(mock_for_weekly).unwrap();
    let t = c.timeline_map(TimelineType::Weekly).unwrap();

    assert_eq!(t.keys().len(), 3);

    assert_timeline_map_item(&t, "2001-01-01T00:00:00", 7);
    assert_timeline_map_item(&t, "2001-01-08T00:00:00", 7);
    assert_timeline_map_item(&t, "2001-01-15T00:00:00", 4);
}

#[test]
fn timeline_map_monthly_works() {
    let mock_for_monthly = r"
[2001-01-02, 00:34:56] Kendrick: Sit down!
[2001-01-02, 23:59:59] Kendrick: Bitch, be humble.
[2001-01-03, 00:34:56] Kendrick: Sit down!
[2001-01-04, 23:59:59] Kendrick: Bitch, be humble.
[2001-01-05, 00:34:56] Kendrick: Sit down, last message of month.
[2001-02-06, 23:59:59] Kendrick: Bitch, be humble.
[2001-02-07, 00:34:56] Kendrick: Sit down!
[2001-02-08, 23:59:59] Kendrick: Bitch, be humble.
[2001-02-09, 00:34:56] Kendrick: Sit down, last message of month
[2001-03-10, 23:59:59] Kendrick: Bitch, be humble.
[2001-03-11, 00:34:56] Kendrick: Sit down!
[2001-03-12, 23:59:59] Kendrick: Bitch, be humble.
[2001-03-13, 00:34:56] Kendrick: Sit down!
[2001-03-14, 23:59:59] Kendrick: Bitch, last message of month.
[2001-07-15, 00:34:56] Kendrick: Sit down!
[2001-07-16, 23:59:59] Kendrick: Bitch, be humble.
[2001-07-17, 00:34:56] Kendrick: Sit down!
[2001-07-18, 23:59:59] Kendrick: Bitch, be humble.
";

    let c = Conversation::from_str(mock_for_monthly).unwrap();
    let t = c.timeline_map(TimelineType::Monthly).unwrap();

    assert_eq!(t.keys().len(), 7);

    assert_timeline_map_item(&t, "2001-01-01T00:00:00", 5);
    assert_timeline_map_item(&t, "2001-02-01T00:00:00", 4);
    assert_timeline_map_item(&t, "2001-03-01T00:00:00", 5);
    assert_timeline_map_item(&t, "2001-04-01T00:00:00", 0);
    assert_timeline_map_item(&t, "2001-05-01T00:00:00", 0);
    assert_timeline_map_item(&t, "2001-06-01T00:00:00", 0);
    assert_timeline_map_item(&t, "2001-07-01T00:00:00", 4);
}

fn mock_for_yearly() -> &'static str {
    r"`
[2001-02-13, 00:34:56] Kendrick: Sit down!
[2001-02-14, 10:34:56] Kendrick: Aye.
[2002-07-18, 23:59:59] Kendrick: Bitch, be humble!!
[2002-08-01, 13:59:59] Kendrick: Aye.
[2003-01-27, 00:34:56] Kendrick: Sit down!
[2004-12-01, 23:59:59] Kendrick: Bitch, be humble.
[2005-09-17, 00:34:56] Kendrick: Sit down!
[2006-07-18, 23:59:59] Kendrick: Bitch, be humble.
[2007-02-17, 00:34:56] Kendrick: Sit down!
[2008-01-06, 23:59:59] Kendrick: Bitch, be humble.
"
}

#[test]
fn timeline_map_yearly_works() {
    let c = Conversation::from_str(mock_for_yearly()).unwrap();
    let t = c.timeline_map(TimelineType::Yearly).unwrap();

    assert_eq!(t.keys().len(), 8);

    assert_timeline_map_item(&t, "2001-01-01T00:00:00", 2);
    assert_timeline_map_item(&t, "2002-01-01T00:00:00", 2);
    assert_timeline_map_item(&t, "2003-01-01T00:00:00", 1);
    assert_timeline_map_item(&t, "2004-01-01T00:00:00", 1);
    assert_timeline_map_item(&t, "2005-01-01T00:00:00", 1);
    assert_timeline_map_item(&t, "2006-01-01T00:00:00", 1);
    assert_timeline_map_item(&t, "2007-01-01T00:00:00", 1);
    assert_timeline_map_item(&t, "2008-01-01T00:00:00", 1);
}

#[test]
fn timeline_yearly_works() {
    let c = Conversation::from_str(mock_for_yearly()).unwrap();
    let t = c.timeline(TimelineType::Yearly).unwrap();

    assert_eq!(t.len(), 8);
}

#[test]
fn reading_twice_gives_the_same_conversation() {
    let a = Conversation::from_str(mock()).unwrap();
    let b = Conversation::from_str(mock()).unwrap();
    assert_eq!(a.count(), b.count());
    assert_eq!(a.participants(), b.participants());
    for (x, y) in a.messages().iter().zip(b.messages().iter()) {
        assert_eq!(x.datetime, y.datetime);
        assert_eq!(x.author, y.author);
        assert_eq!(x.text, y.text);
        assert_eq!(x.kind, y.kind);
    }
}

#[test]
fn lines_that_do_not_match_are_passed_over() {
    let raw = "hello\n[2001-01-19 02:34:56] Foo: no comma\n[2001-01-19, 02:34:56] Foo: kept\n[2001-01-19, 02:34:56] Foo without colon\n2001-01-19, 02:34:56] Foo: no bracket\n";
    let c = Conversation::from_str(raw).unwrap();
    assert_eq!(c.count(), 1);
    assert_eq!(c.first().unwrap().text, "kept");
    assert_eq!(Conversation::from_str("").unwrap().count(), 0);
    assert_eq!(Conversation::from_str("").unwrap().participants().len(), 0);
}

#[test]
fn the_author_ends_at_the_first_colon_and_space() {
    let c = Conversation::from_str("[2001-01-19, 02:34:56] Foo: Bar: baz: qux\n").unwrap();
    assert_eq!(c.first().unwrap().author, "Foo");
    assert_eq!(c.first().unwrap().text, "Bar: baz: qux");
    let c = Conversation::from_str("[2001-01-19, 02:34:56] Foo:Bar: baz\n").unwrap();
    assert_eq!(c.first().unwrap().author, "Foo:Bar");
    assert_eq!(c.first().unwrap().text, "baz");
}

#[test]
fn the_encryption_notice_is_dropped() {
    let raw = "[2001-01-19, 02:34:56] Group: Messages to this group are now secured with end-to-end encryption. Tap for more info.\n[2001-01-19, 02:35:56] Foo: Hi\n";
    let c = Conversation::from_str(raw).unwrap();
    assert_eq!(c.count(), 1);
    assert_eq!(*c.participants(), vec!["Foo"]);
}

#[test]
fn the_notice_is_dropped_before_its_date_is_read() {
    let raw = "[2001-13-19, 02:34:56] Group: Messages to this group are now secured with end-to-end encryption\n";
    assert_eq!(Conversation::from_str(raw).unwrap().count(), 0);
}

#[test]
fn one_date_that_cannot_be_read_fails_the_whole() {
    let raw = "[2001-01-19, 02:34:56] Foo: Hi\n[2001-13-19, 02:34:56] Bar: Ho\n[2001-01-20, 02:34:56] Foo: Hu\n";
    let r = Conversation::from_str(raw);
    assert_eq!(r.unwrap_err(), MessageError(MessageErrorKind::InvalidDate));
}

#[test]
fn participants_come_in_the_order_of_their_first_message() {
    let raw = "[2001-01-19, 02:34:56] B: 1\n[2001-01-19, 02:34:57] A: 2\n[2001-01-19, 02:34:58] B: 3\n[2001-01-19, 02:34:59] C: 4\n[2001-01-19, 02:35:00] A: 5\n";
    let c = Conversation::from_str(raw).unwrap();
    assert_eq!(*c.participants(), vec!["B", "A", "C"]);
    assert_eq!(c.count(), 5);
}

#[test]
fn from_matches_reads_the_groups_of_each_match() {
    let line = |d: &str, a: &str, t: &str| {
        vec![None, Some(d.to_string()), Some(a.to_string()), Some(t.to_string())]
    };
    let found = vec![
        line("2001-01-19, 02:34:56", "Foo", "  image omitted  "),
        vec![None, Some(String::from("2001-01-19, 02:34:56")), None, Some(String::from("x"))],
        vec![None, Some(String::from("2001-01-19, 02:34:56"))],
        line("2001-01-20, 02:34:56", "Bar", "Hi"),
        line("2001-01-21, 02:34:56", "Foo", "Ho"),
    ];
    let c = Conversation::from_matches(&found).unwrap();
    assert_eq!(c.count(), 3);
    assert_eq!(*c.participants(), vec!["Foo", "Bar"]);
    assert_eq!(c.first().unwrap().text, "image omitted");
    assert_eq!(c.first().unwrap().kind, insights::message::MessageType::Image);
    let failing = vec![line("2001-01-19, 02:34:56", "Foo", "Hi"), line("nonsense", "Bar", "Ho")];
    assert_eq!(
        Conversation::from_matches(&failing).unwrap_err(),
        MessageError(MessageErrorKind::InvalidDate)
    );
}

#[test]
fn an_empty_conversation_has_no_duration_and_no_average() {
    let c = Conversation::from_str("nothing here").unwrap();
    assert!(c.first().is_none());
    assert!(c.last().is_none());
    assert_eq!(c.duration().unwrap_err(), MessageError(MessageErrorKind::EmptyMessage));
    assert_eq!(c.average(&table()).unwrap_err(), MessageError(MessageErrorKind::EmptyMessage));
    assert_eq!(
        c.timeline_map(TimelineType::Daily).unwrap_err(),
        MessageError(MessageErrorKind::EmptyMessage)
    );
    assert_eq!(
        c.timeline(TimelineType::Monthly).unwrap_err(),
        MessageError(MessageErrorKind::EmptyMessage)
    );
    assert_eq!(c.words(), 0);
    assert_eq!(c.letters(), 0);
    assert_eq!(c.combine(), "");
}

#[test]
fn duration_is_the_last_less_the_first_in_seconds() {
    let raw = "[2001-01-19, 02:34:56] Foo: a\n[2001-01-21, 03:35:57] Bar: b\n";
    let c = Conversation::from_str(raw).unwrap();
    assert_eq!(c.duration().unwrap().num_seconds(), 2 * 86400 + 3600 + 60 + 1);
    let backwards = "[2001-01-21, 03:35:57] Bar: b\n[2001-01-19, 02:34:56] Foo: a\n";
    let c = Conversation::from_str(backwards).unwrap();
    assert_eq!(c.duration().unwrap().num_seconds(), -(2 * 86400 + 3600 + 60 + 1));
    assert_eq!(c.duration().unwrap().num_days(), -2);
}

#[test]
fn by_author_of_a_stranger_is_empty_with_that_one_participant() {
    let c = Conversation::from_str(mock()).unwrap();
    let nobody = c.by_author(String::from("Qux"));
    assert_eq!(nobody.count(), 0);
    assert_eq!(*nobody.participants(), vec!["Qux"]);
}

#[test]
fn by_range_takes_the_start_and_leaves_the_end() {
    let c = Conversation::from_str(mock()).unwrap();
    let first = key("2001-01-19T02:34:56");
    let last = key("2001-01-21T02:34:56");
    let after = key("2001-01-21T02:34:57");
    assert_eq!(c.by_range(first, last).count(), 1);
    assert_eq!(c.by_range(first, last).first().unwrap().author, "Foo");
    assert_eq!(c.by_range(first, after).count(), 2);
    assert_eq!(c.by_range(last, after).count(), 1);
    assert_eq!(c.by_range(last, last).count(), 0);
    assert_eq!(c.by_range(after, first).count(), 0);
    assert_eq!(*c.by_range(last, last).participants(), vec!["Foo", "Bar Baz"]);
}

#[test]
fn two_ranges_that_meet_split_the_range_they_cover() {
    let c = Conversation::from_str(mock_for_yearly()).unwrap();
    let a = key("2001-02-14T10:34:56");
    let b = key("2004-12-01T23:59:59");
    let d = key("2008-01-06T23:59:59");
    let whole = c.by_range(a, d);
    let left = c.by_range(a, b);
    let right = c.by_range(b, d);
    assert_eq!(whole.count(), 8);
    assert_eq!(left.count(), 4);
    assert_eq!(right.count(), 4);
    let mut joined: Vec<&Message> = left.messages().iter().collect();
    joined.extend(right.messages().iter());
    for (x, y) in whole.messages().iter().zip(joined) {
        assert_eq!(x.datetime, y.datetime);
        assert_eq!(x.text, y.text);
    }
}

#[test]
fn words_and_letters_are_counted_on_the_joined_ascii_text() {
    let raw = "[2001-01-19, 02:34:56] Foo: one\n[2001-01-19, 02:34:57] Foo: two three\n[2001-01-19, 02:34:58] Foo: é four💩\n";
    let c = Conversation::from_str(raw).unwrap();
    assert_eq!(c.combine_raw(), "onetwo threeé four💩");
    assert_eq!(c.combine(), "onetwo three four");
    assert_eq!(c.words(), 3);
    assert_eq!(c.letters(), 15);
    let (words, letters) = c.average(&table()).unwrap();
    assert_eq!((words.numerator, words.denominator), (5, 3));
    assert_eq!((letters.numerator, letters.denominator), (15, 3));
}

#[test]
fn emojis_count_every_occurrence_in_the_joined_bodies() {
    let raw = "[2001-01-19, 02:34:56] Foo: 💩💩 a🎉\n[2001-01-19, 02:34:57] Bar: 💩\n";
    let c = Conversation::from_str(raw).unwrap();
    let table = EmojiTable::new(&vec![
        String::from("🎉"),
        String::from("🚀"),
        String::from("💩"),
        String::from("🎉"),
    ]);
    let found = c.emojis(&table);
    assert_eq!(found.len(), 2);
    assert_eq!(found.keys(), vec!["🎉", "💩"]);
    assert_eq!(found.entries[0].count, 1);
    assert_eq!(found.entries[1].count, 3);
    assert_eq!(c.emojis(&EmojiTable::new(&Vec::new())).len(), 0);
}

#[test]
fn frequency_of_nothing_is_zero_in_every_hour() {
    let c = Conversation::from_str("").unwrap();
    let f = c.frequency();
    for hour in 0..24u8 {
        assert_eq!(f.get(hour), 0);
    }
    let labels: Vec<String> = f.entries().into_iter().map(|e| e.0).collect();
    assert_eq!(labels[0], "00h");
    assert_eq!(labels[9], "09h");
    assert_eq!(labels[10], "10h");
    assert_eq!(labels[23], "23h");
    assert_eq!(hour_label(7), "07h");
}

#[test]
fn new_keeps_what_it_is_given() {
    let m = Message::from_str("2019-09-11, 01:57:17", "Foo", "Bar").unwrap();
    let c = Conversation::new(vec![m.clone(), m], vec![String::from("X"), String::from("Y")]);
    assert_eq!(c.count(), 2);
    assert_eq!(*c.participants(), vec!["X", "Y"]);
    let d = c.clone();
    assert_eq!(d.count(), 2);
    assert_eq!(d.participants(), c.participants());
}
