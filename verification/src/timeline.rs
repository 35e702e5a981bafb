//! The timeline of a conversation: its messages cut into the buckets of a
//! period kind, from the bucket of the first message to that of the last.

use crate::calendar::{lemma_order_is_instant_order, representable, Civil, MAX_YEAR};
use crate::conversation::{
    letter_count, sent_by, sent_within, word_count, Conversation, ConversationView, Quotient,
    Ratio,
};
use crate::datetime::DateTime;
use crate::message::{MessageError, MessageErrorKind, MessageView};
use crate::period::{
    lemma_bucket_end_after, lemma_bucket_end_fits, lemma_bucket_start_valid, TimelineType,
};
use crate::text::texts;
use vstd::prelude::*;

verus! {

/// How far `cursor` is from having passed `last`: the number of seconds up
/// to and with that of `last`, or nothing once it is past.
pub open spec fn span_left(cursor: Civil, last: Civil) -> nat {
    if cursor.instant() <= last.instant() {
        (last.instant() - cursor.instant() + 1) as nat
    } else {
        0
    }
}

/// The bucket that starts at `start`: the start, and the messages sent from
/// it up to the start of the next bucket, with all the participants.
pub open spec fn bucket_at(c: ConversationView, kind: TimelineType, start: Civil) -> (
    Civil,
    ConversationView,
) {
    (
        start,
        ConversationView {
            messages: sent_within(c.messages, start.instant(), kind.bucket_end(start).instant()),
            participants: c.participants,
        },
    )
}

/// The buckets from the one that starts at `cursor` on, as long as they
/// start at or before `last`.
pub open spec fn buckets_from(
    c: ConversationView,
    kind: TimelineType,
    cursor: Civil,
    last: Civil,
) -> Seq<(Civil, ConversationView)>
    decreases span_left(cursor, last),
{
    if cursor.valid() && cursor.instant() <= last.instant() {
        proof {
            lemma_bucket_end_after(kind, cursor);
        }
        seq![bucket_at(c, kind, cursor)] + buckets_from(c, kind, kind.bucket_end(cursor), last)
    } else {
        Seq::empty()
    }
}

/// The start of the first bucket, from `cursor` on, that starts after
/// `last`: where the timeline ends.
pub open spec fn end_of_buckets(kind: TimelineType, cursor: Civil, last: Civil) -> Civil
    decreases span_left(cursor, last),
{
    if cursor.valid() && cursor.instant() <= last.instant() {
        proof {
            lemma_bucket_end_after(kind, cursor);
        }
        end_of_buckets(kind, kind.bucket_end(cursor), last)
    } else {
        cursor
    }
}

/// The buckets of a conversation: from the bucket of its first message to
/// the last bucket that starts at or before its last message. None for a
/// conversation without messages.
pub open spec fn buckets_of(c: ConversationView, kind: TimelineType) -> Seq<
    (Civil, ConversationView),
> {
    if c.messages.len() == 0 {
        Seq::empty()
    } else {
        buckets_from(
            c,
            kind,
            kind.bucket_start(c.messages.first().datetime),
            c.messages.last().datetime,
        )
    }
}

/// The number of messages in all the buckets together.
pub open spec fn messages_in(buckets: Seq<(Civil, ConversationView)>) -> nat
    decreases buckets.len(),
{
    if buckets.len() == 0 {
        0
    } else {
        messages_in(buckets.drop_first()) + buckets.first().1.messages.len()
    }
}

/// The buckets hold, between them, each message sent from the start of the
/// first bucket up to the end of the last bucket once, and no other.
pub proof fn law_buckets_partition(
    c: ConversationView,
    kind: TimelineType,
    cursor: Civil,
    last: Civil,
)
    requires
        cursor.valid(),
    ensures
        cursor.instant() <= end_of_buckets(kind, cursor, last).instant(),
        last.instant() < end_of_buckets(kind, cursor, last).instant(),
        messages_in(buckets_from(c, kind, cursor, last)) == sent_within(
            c.messages,
            cursor.instant(),
            end_of_buckets(kind, cursor, last).instant(),
        ).len(),
    decreases span_left(cursor, last),
{
    if cursor.instant() <= last.instant() {
        lemma_bucket_end_after(kind, cursor);
        let next = kind.bucket_end(cursor);
        law_buckets_partition(c, kind, next, last);
        let all = buckets_from(c, kind, cursor, last);
        assert(all.drop_first() == buckets_from(c, kind, next, last));
        crate::conversation::law_ranges_partition(
            c.messages,
            cursor.instant(),
            next.instant(),
            end_of_buckets(kind, cursor, last).instant(),
        );
    } else {
        c.messages.lemma_all_neg_filter_empty(
            |m: MessageView| cursor.instant() <= m.datetime.instant() < cursor.instant(),
        );
    }
}

/// The buckets start one after the other: each at the end of the one
/// before, and so later than it.
pub proof fn law_buckets_ascend(
    c: ConversationView,
    kind: TimelineType,
    cursor: Civil,
    last: Civil,
)
    ensures
        forall|i: int|
            0 <= i < buckets_from(c, kind, cursor, last).len() ==> {
                let b = #[trigger] buckets_from(c, kind, cursor, last)[i];
                b == bucket_at(c, kind, b.0) && b.0.valid() && cursor.instant() <= b.0.instant()
                    <= last.instant()
            },
        forall|i: int, j: int|
            0 <= i < j < buckets_from(c, kind, cursor, last).len() ==> (
            #[trigger] buckets_from(c, kind, cursor, last)[i]).0.instant() < (
            #[trigger] buckets_from(c, kind, cursor, last)[j]).0.instant(),
        forall|i: int|
            0 <= i < buckets_from(c, kind, cursor, last).len() - 1 ==> (#[trigger] buckets_from(
                c,
                kind,
                cursor,
                last,
            )[i + 1]).0 == kind.bucket_end(buckets_from(c, kind, cursor, last)[i].0),
    decreases span_left(cursor, last),
{
    if cursor.valid() && cursor.instant() <= last.instant() {
        lemma_bucket_end_after(kind, cursor);
        let next = kind.bucket_end(cursor);
        law_buckets_ascend(c, kind, next, last);
        let all = buckets_from(c, kind, cursor, last);
        let rest = buckets_from(c, kind, next, last);
        assert forall|i: int| 0 <= i < all.len() - 1 implies (#[trigger] all[i + 1]).0
            == kind.bucket_end(all[i].0) by {
            if i > 0 {
                assert(all[i + 1] == rest[i - 1 + 1]);
            }
        }
    }
}

/// Every message sent no earlier than the start of the first bucket, and no
/// later than the last message, is in some bucket: where that holds of all
/// the messages, the buckets hold as many messages as the conversation.
pub proof fn law_timeline_counts_every_message(c: ConversationView, kind: TimelineType)
    requires
        c.messages.len() > 0,
        c.messages.first().datetime.valid(),
        forall|i: int|
            0 <= i < c.messages.len() ==> kind.bucket_start(
                c.messages.first().datetime,
            ).instant() <= (#[trigger] c.messages[i]).datetime.instant()
                <= c.messages.last().datetime.instant(),
    ensures
        messages_in(buckets_of(c, kind)) == c.messages.len(),
{
    let start = kind.bucket_start(c.messages.first().datetime);
    let last = c.messages.last().datetime;
    lemma_bucket_start_valid(kind, c.messages.first().datetime);
    law_buckets_partition(c, kind, start, last);
    let end = end_of_buckets(kind, start, last);
    let within = |m: MessageView| start.instant() <= m.datetime.instant() < end.instant();
    assert(c.messages.filter(within) == c.messages) by {
        lemma_filter_keeps_all(c.messages, within);
    }
}

/// Whether no message was sent before one that stands earlier.
pub open spec fn chronological(messages: Seq<MessageView>) -> bool {
    forall|i: int, j: int|
        0 <= i <= j < messages.len() ==> (#[trigger] messages[i]).datetime.instant() <= (
        #[trigger] messages[j]).datetime.instant()
}

/// The buckets of a conversation whose messages stand in the order of time
/// hold as many messages as the conversation: every message is in exactly
/// one bucket. The one exception is the yearly timeline of a conversation
/// that begins in December, whose first bucket starts after the first
/// message.
pub proof fn law_timeline_counts_chronological(c: ConversationView, kind: TimelineType)
    requires
        c.messages.len() > 0,
        c.messages.first().datetime.valid(),
        chronological(c.messages),
        !(kind == TimelineType::Yearly && c.messages.first().datetime.month == 12),
    ensures
        messages_in(buckets_of(c, kind)) == c.messages.len(),
{
    crate::period::law_start_of_not_after(kind, c.messages.first().datetime);
    law_timeline_counts_every_message(c, kind);
}

/// A filter that every item passes keeps the sequence as it is.
pub proof fn lemma_filter_keeps_all<A>(s: Seq<A>, pred: spec_fn(A) -> bool)
    requires
        forall|i: int| 0 <= i < s.len() ==> pred(#[trigger] s[i]),
    ensures
        s.filter(pred) == s,
    decreases s.len(),
{
    reveal(Seq::filter);
    if s.len() > 0 {
        lemma_filter_keeps_all(s.drop_last(), pred);
    }
}

/// One bucket of a timeline: where it starts, and the part of the
/// conversation that falls into it.
#[derive(Debug)]
pub struct Bucket {
    pub start: DateTime,
    pub conversation: Conversation,
}

/// The buckets of a conversation, in the order of time, each under the
/// date-time at which it starts.
#[derive(Debug)]
pub struct TimelineMap {
    pub buckets: Vec<Bucket>,
}

/// The mathematical values of a sequence of buckets.
pub open spec fn bucket_views(buckets: Seq<Bucket>) -> Seq<(Civil, ConversationView)> {
    buckets.map_values(|b: Bucket| (b.start@, b.conversation@))
}

impl View for TimelineMap {
    type V = Seq<(Civil, ConversationView)>;

    open spec fn view(&self) -> Seq<(Civil, ConversationView)> {
        bucket_views(self.buckets@)
    }
}

impl TimelineMap {
    /// The number of buckets.
    pub fn len(&self) -> (r: usize)
        ensures
            r == self@.len(),
    {
        self.buckets.len()
    }

    /// The starts of the buckets, in order.
    pub fn keys(&self) -> (r: Vec<DateTime>)
        ensures
            r.len() == self@.len(),
            forall|i: int| 0 <= i < r.len() ==> (#[trigger] r[i])@ == self@[i].0,
    {
        let mut r: Vec<DateTime> = Vec::new();
        let mut i: usize = 0;
        while i < self.buckets.len()
            invariant
                i <= self.buckets.len(),
                r.len() == i,
                forall|k: int| 0 <= k < i ==> (#[trigger] r[k])@ == self@[k].0,
            decreases self.buckets.len() - i,
        {
            r.push(self.buckets[i].start);
            i = i + 1;
        }
        r
    }

    /// The first bucket that starts at `start`, if there is one.
    pub fn get(&self, start: &DateTime) -> (r: Option<&Conversation>)
        ensures
            match r {
                Some(c) => exists|i: int|
                    0 <= i < self@.len() && (#[trigger] self@[i]).0 == start@ && self@[i].1 == c@
                        && forall|k: int| 0 <= k < i ==> (#[trigger] self@[k]).0 != start@,
                None => forall|i: int| 0 <= i < self@.len() ==> (#[trigger] self@[i]).0 != start@,
            },
    {
        let mut i: usize = 0;
        while i < self.buckets.len()
            invariant
                i <= self.buckets.len(),
                forall|k: int| 0 <= k < i ==> (#[trigger] self@[k]).0 != start@,
            decreases self.buckets.len() - i,
        {
            let same = !self.buckets[i].start.is_before(start) && !start.is_before(
                &self.buckets[i].start,
            );
            proof {
                lemma_order_is_instant_order(self.buckets[i as int].start@, start@);
            }
            if same {
                proof {
                    assert(self@[i as int].0 == start@ && self@[i as int].1
                        == self.buckets[i as int].conversation@);
                }
                return Some(&self.buckets[i].conversation);
            }
            i = i + 1;
        }
        None
    }

    /// Whether a bucket starts at `start`.
    pub fn contains_key(&self, start: &DateTime) -> (r: bool)
        ensures
            r == exists|i: int| 0 <= i < self@.len() && (#[trigger] self@[i]).0 == start@,
    {
        self.get(start).is_some()
    }
}

impl Conversation {
    /// Whether the timeline of the conversation stays within the years that
    /// a date-time can hold: the bucket of the first message starts within
    /// them, and the last message is at least two years short of their end.
    pub open spec fn timeline_fits(self, kind: TimelineType) -> bool {
        self@.messages.len() > 0 ==> {
            &&& representable(kind.bucket_start(self@.messages.first().datetime))
            &&& self@.messages.last().datetime.year + 2 <= MAX_YEAR
        }
    }

    /// Whether the timeline of the conversation stays within the years that
    /// a date-time can hold.
    pub fn fits_timeline(&self, kind: TimelineType) -> (r: bool)
        ensures
            r == self.timeline_fits(kind),
    {
        let first = match self.first() {
            Some(m) => m.datetime,
            None => return true,
        };
        let last = match self.last() {
            Some(m) => m.datetime,
            None => return true,
        };
        kind.can_start(&first) && last.year() <= MAX_YEAR - 2
    }

    /// The buckets of the conversation: from the bucket of its first
    /// message to the last bucket that starts at or before its last message,
    /// each with the messages that fall into it.
    pub fn timeline_map(&self, kind: TimelineType) -> (r: Result<TimelineMap, MessageError>)
        requires
            self.timeline_fits(kind),
        ensures
            match r {
                Ok(t) => {
                    &&& self@.messages.len() > 0
                    &&& t@ == buckets_of(self@, kind)
                    &&& forall|i: int, j: int|
                        0 <= i < j < t@.len() ==> (#[trigger] t@[i]).0.instant() < (
                        #[trigger] t@[j]).0.instant()
                },
                Err(e) => self@.messages.len() == 0 && e == MessageError(
                    MessageErrorKind::EmptyMessage,
                ),
            },
    {
        let first = match self.first() {
            Some(m) => m.datetime,
            None => return Err(MessageError(MessageErrorKind::EmptyMessage)),
        };
        let last = match self.last() {
            Some(m) => m.datetime,
            None => return Err(MessageError(MessageErrorKind::EmptyMessage)),
        };
        let mut cursor = kind.start_of(&first);
        let mut buckets: Vec<Bucket> = Vec::new();
        let ghost start = cursor@;
        while !last.is_before(&cursor)
            invariant
                last@ == self@.messages.last().datetime,
                last@.year + 2 <= MAX_YEAR,
                representable(cursor@),
                bucket_views(buckets@) + buckets_from(self@, kind, cursor@, last@) == buckets_from(
                    self@,
                    kind,
                    start,
                    last@,
                ),
            decreases span_left(cursor@, last@),
        {
            proof {
                lemma_bucket_end_fits(kind, cursor@, last@);
                lemma_bucket_end_after(kind, cursor@);
            }
            let stepped = match cursor.plus_days(kind.as_days() as i64) {
                Some(t) => t,
                None => vstd::pervasive::unreached(),
            };
            let next = kind.start_of(&stepped);
            let ghost before = bucket_views(buckets@);
            buckets.push(Bucket { start: cursor, conversation: self.by_range(cursor, next) });
            proof {
                assert(before.push(bucket_at(self@, kind, cursor@)) + buckets_from(
                    self@,
                    kind,
                    next@,
                    last@,
                ) =~= before + buckets_from(self@, kind, cursor@, last@));
            }
            cursor = next;
        }
        proof {
            law_buckets_ascend(self@, kind, start, last@);
        }
        Ok(TimelineMap { buckets })
    }
}

/// Three figures on a set of messages: how many messages, how many words,
/// how many letters.
#[derive(Debug)]
pub struct Stats<T> {
    pub messages: T,
    pub words: T,
    pub letters: T,
}

impl View for Stats<usize> {
    type V = Stats<nat>;

    open spec fn view(&self) -> Stats<nat> {
        Stats {
            messages: self.messages as nat,
            words: self.words as nat,
            letters: self.letters as nat,
        }
    }
}

impl View for Stats<Ratio> {
    type V = Stats<Quotient>;

    open spec fn view(&self) -> Stats<Quotient> {
        Stats { messages: self.messages@, words: self.words@, letters: self.letters@ }
    }
}

/// The totals of a set of messages: their number, and the words and
/// letters of their combined text.
pub open spec fn total_of(messages: Seq<MessageView>) -> Stats<nat> {
    Stats {
        messages: messages.len(),
        words: word_count(messages),
        letters: letter_count(messages),
    }
}

/// The averages of a set of messages per day of a period: each total over
/// the nominal number of days of the period kind.
pub open spec fn average_of(messages: Seq<MessageView>, kind: TimelineType) -> Stats<Quotient> {
    let days = kind.nominal_days() as nat;
    Stats {
        messages: Quotient { numerator: total_of(messages).messages, denominator: days },
        words: Quotient { numerator: total_of(messages).words, denominator: days },
        letters: Quotient { numerator: total_of(messages).letters, denominator: days },
    }
}

impl Stats<usize> {
    /// The totals of a conversation.
    pub fn calc_total(cnv: &Conversation) -> (r: Stats<usize>)
        ensures
            r@ == total_of(cnv@.messages),
    {
        Stats { messages: cnv.count(), words: cnv.words(), letters: cnv.letters() }
    }
}

impl Stats<Ratio> {
    /// The averages of a conversation per day of a period of kind `period`.
    pub fn calc_average(cnv: &Conversation, period: TimelineType) -> (r: Stats<Ratio>)
        ensures
            r@ == average_of(cnv@.messages, period),
    {
        let days: u128 = period.as_days() as u128;
        Stats {
            messages: Ratio { numerator: cnv.count() as u128, denominator: days },
            words: Ratio { numerator: cnv.words() as u128, denominator: days },
            letters: Ratio { numerator: cnv.letters() as u128, denominator: days },
        }
    }
}

/// The figures of one participant in one bucket.
#[derive(Debug)]
pub struct ParticipantStats {
    pub total: Stats<usize>,
    pub average: Stats<Ratio>,
}

/// The mathematical value of a [`ParticipantStats`].
pub struct ParticipantStatsView {
    pub total: Stats<nat>,
    pub average: Stats<Quotient>,
}

impl View for ParticipantStats {
    type V = ParticipantStatsView;

    open spec fn view(&self) -> ParticipantStatsView {
        ParticipantStatsView { total: self.total@, average: self.average@ }
    }
}

/// The figures of one bucket: of all its messages, and of the messages of
/// each participant.
#[derive(Debug)]
pub struct TimelineStats {
    pub total: Stats<usize>,
    pub average: Stats<Ratio>,
    pub period: TimelineType,
    pub participants: Vec<(String, ParticipantStats)>,
}

/// The mathematical value of a [`TimelineStats`].
pub struct TimelineStatsView {
    pub total: Stats<nat>,
    pub average: Stats<Quotient>,
    pub period: TimelineType,
    pub participants: Seq<(Seq<char>, ParticipantStatsView)>,
}

/// The mathematical values of the figures of a list of participants.
pub open spec fn participant_views(participants: Seq<(String, ParticipantStats)>) -> Seq<
    (Seq<char>, ParticipantStatsView),
> {
    participants.map_values(|p: (String, ParticipantStats)| (p.0@, p.1@))
}

impl View for TimelineStats {
    type V = TimelineStatsView;

    open spec fn view(&self) -> TimelineStatsView {
        TimelineStatsView {
            total: self.total@,
            average: self.average@,
            period: self.period,
            participants: participant_views(self.participants@),
        }
    }
}

/// The figures of the messages that `name` wrote among `messages`.
pub open spec fn participant_stats_of(
    messages: Seq<MessageView>,
    kind: TimelineType,
    name: Seq<char>,
) -> (Seq<char>, ParticipantStatsView) {
    (
        name,
        ParticipantStatsView {
            total: total_of(sent_by(messages, name)),
            average: average_of(sent_by(messages, name), kind),
        },
    )
}

/// The figures of a bucket: of all its messages, and of each participant of
/// the conversation, whether or not the participant wrote in the bucket.
pub open spec fn stats_of(c: ConversationView, kind: TimelineType) -> TimelineStatsView {
    TimelineStatsView {
        total: total_of(c.messages),
        average: average_of(c.messages, kind),
        period: kind,
        participants: c.participants.map_values(
            |name: Seq<char>| participant_stats_of(c.messages, kind, name),
        ),
    }
}

/// The figures of each bucket, under the start of the bucket.
pub open spec fn timeline_stats(buckets: Seq<(Civil, ConversationView)>, kind: TimelineType) -> Seq<
    (Civil, TimelineStatsView),
> {
    buckets.map_values(|b: (Civil, ConversationView)| (b.0, stats_of(b.1, kind)))
}

/// The figures of one bucket, under the date-time at which it starts.
#[derive(Debug)]
pub struct TimelineEntry {
    pub start: DateTime,
    pub stats: TimelineStats,
}

/// The timeline of a conversation: the figures of each of its buckets, in
/// the order of time.
#[derive(Debug)]
pub struct Timeline {
    pub entries: Vec<TimelineEntry>,
}

impl View for Timeline {
    type V = Seq<(Civil, TimelineStatsView)>;

    open spec fn view(&self) -> Seq<(Civil, TimelineStatsView)> {
        self.entries@.map_values(|e: TimelineEntry| (e.start@, e.stats@))
    }
}

impl TimelineStats {
    /// The figures of the conversation of one bucket.
    pub fn new(cnv: &Conversation, period: TimelineType) -> (r: TimelineStats)
        ensures
            r@ == stats_of(cnv@, period),
    {
        let names = cnv.participants();
        let mut participants: Vec<(String, ParticipantStats)> = Vec::new();
        let mut i: usize = 0;
        while i < names.len()
            invariant
                i <= names.len(),
                texts(names@) == cnv@.participants,
                participants.len() == i,
                forall|k: int|
                    0 <= k < i ==> ((#[trigger] participants[k]).0@, participants[k].1@)
                        == participant_stats_of(cnv@.messages, period, cnv@.participants[k]),
            decreases names.len() - i,
        {
            let name = names[i].clone();
            let theirs = cnv.by_author(names[i].clone());
            let stats = ParticipantStats {
                total: Stats::<usize>::calc_total(&theirs),
                average: Stats::<Ratio>::calc_average(&theirs, period),
            };
            participants.push((name, stats));
            i = i + 1;
        }
        let r = TimelineStats {
            total: Stats::<usize>::calc_total(cnv),
            average: Stats::<Ratio>::calc_average(cnv, period),
            period,
            participants,
        };
        proof {
            assert(r@.participants =~= stats_of(cnv@, period).participants);
        }
        r
    }
}

impl Timeline {
    /// The figures of each bucket of `src`, for a period of kind `period`.
    pub fn new(src: TimelineMap, period: TimelineType) -> (r: Timeline)
        ensures
            r@ == timeline_stats(src@, period),
    {
        let mut entries: Vec<TimelineEntry> = Vec::new();
        let mut i: usize = 0;
        while i < src.buckets.len()
            invariant
                i <= src.buckets.len(),
                entries.len() == i,
                forall|k: int|
                    0 <= k < i ==> (#[trigger] entries[k]).start@ == src@[k].0 && entries[k].stats@
                        == stats_of(src@[k].1, period),
            decreases src.buckets.len() - i,
        {
            let bucket = &src.buckets[i];
            entries.push(
                TimelineEntry {
                    start: bucket.start,
                    stats: TimelineStats::new(&bucket.conversation, period),
                },
            );
            i = i + 1;
        }
        let r = Timeline { entries };
        r
    }

    /// The number of buckets.
    pub fn len(&self) -> (r: usize)
        ensures
            r == self@.len(),
    {
        self.entries.len()
    }
}

impl Conversation {
    /// The timeline of the conversation for a period kind: the figures of
    /// each bucket from that of the first message to that of the last.
    pub fn timeline(&self, kind: TimelineType) -> (r: Result<Timeline, MessageError>)
        requires
            self.timeline_fits(kind),
        ensures
            match r {
                Ok(t) => self@.messages.len() > 0 && t@ == timeline_stats(
                    buckets_of(self@, kind),
                    kind,
                ),
                Err(e) => self@.messages.len() == 0 && e == MessageError(
                    MessageErrorKind::EmptyMessage,
                ),
            },
    {
        match self.timeline_map(kind) {
            Ok(map) => Ok(Timeline::new(map, kind)),
            Err(e) => Err(e),
        }
    }
}

} // verus!
