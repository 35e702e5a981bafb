//! Emoji glyphs: a table of the glyphs to look for, and how often each of
//! them stands in a text.

use crate::text::{
    char_texts, chars_of, occurs_at, same_text, stands_at, string_of, texts,
};
use vstd::prelude::*;

verus! {

/// The glyphs of `glyphs` without repetitions: each glyph stays where it
/// stands first.
pub open spec fn first_occurrences(glyphs: Seq<Seq<char>>) -> Seq<Seq<char>>
    decreases glyphs.len(),
{
    if glyphs.len() == 0 {
        glyphs
    } else if glyphs.drop_last().contains(glyphs.last()) {
        first_occurrences(glyphs.drop_last())
    } else {
        first_occurrences(glyphs.drop_last()).push(glyphs.last())
    }
}

/// The number of indices below `end` at which `glyph` stands in `text`.
pub open spec fn occurrences_before(text: Seq<char>, glyph: Seq<char>, end: int) -> nat
    decreases end,
{
    if end <= 0 {
        0
    } else {
        let here: nat = if occurs_at(text, glyph, end - 1) {
            1
        } else {
            0
        };
        occurrences_before(text, glyph, end - 1) + here
    }
}

/// The number of indices of `text` at which `glyph` stands.
pub open spec fn occurrences(text: Seq<char>, glyph: Seq<char>) -> nat {
    occurrences_before(text, glyph, text.len() as int)
}

/// The glyphs of `table` that stand in `text`, each with the number of its
/// occurrences, in the order of the table.
pub open spec fn emoji_counts(table: Seq<Seq<char>>, text: Seq<char>) -> Seq<(Seq<char>, nat)>
    decreases table.len(),
{
    if table.len() == 0 {
        Seq::empty()
    } else if occurrences(text, table.last()) > 0 {
        emoji_counts(table.drop_last(), text).push((table.last(), occurrences(text, table.last())))
    } else {
        emoji_counts(table.drop_last(), text)
    }
}

/// The glyphs that count as emoji.
#[derive(Debug)]
pub struct EmojiTable {
    glyphs: Vec<Vec<char>>,
}

impl View for EmojiTable {
    type V = Seq<Seq<char>>;

    closed spec fn view(&self) -> Seq<Seq<char>> {
        char_texts(self.glyphs@)
    }
}

/// One glyph and the number of times it was found.
#[derive(Debug)]
pub struct EmojiCount {
    pub glyph: String,
    pub count: usize,
}

/// The emoji found in a text: each glyph once, with its count.
#[derive(Debug)]
pub struct Emojis {
    pub entries: Vec<EmojiCount>,
}

impl View for Emojis {
    type V = Seq<(Seq<char>, nat)>;

    open spec fn view(&self) -> Seq<(Seq<char>, nat)> {
        self.entries@.map_values(|e: EmojiCount| (e.glyph@, e.count as nat))
    }
}

impl Emojis {
    /// The number of different glyphs found.
    pub fn len(&self) -> (r: usize)
        ensures
            r == self@.len(),
    {
        self.entries.len()
    }

    /// The glyphs found, in order.
    pub fn keys(&self) -> (r: Vec<String>)
        ensures
            texts(r@) == self@.map_values(|e: (Seq<char>, nat)| e.0),
    {
        let mut r: Vec<String> = Vec::new();
        let mut i: usize = 0;
        while i < self.entries.len()
            invariant
                i <= self.entries.len(),
                r.len() == i,
                forall|k: int| 0 <= k < i ==> (#[trigger] r[k])@ == self.entries[k].glyph@,
            decreases self.entries.len() - i,
        {
            r.push(self.entries[i].glyph.clone());
            i = i + 1;
        }
        r
    }
}

/// The number of indices of `text` at which `glyph` stands.
fn count_occurrences(text: &Vec<char>, glyph: &Vec<char>) -> (r: usize)
    ensures
        r == occurrences(text@, glyph@),
{
    let mut r: usize = 0;
    let mut at: usize = 0;
    while at < text.len()
        invariant
            at <= text.len(),
            r <= at,
            r == occurrences_before(text@, glyph@, at as int),
        decreases text.len() - at,
    {
        if stands_at(text, glyph, at) {
            r = r + 1;
        }
        at = at + 1;
    }
    r
}

impl EmojiTable {
    /// The table of the given glyphs. A glyph that is given more than once
    /// is kept where it stands first.
    pub fn new(glyphs: &Vec<String>) -> (r: EmojiTable)
        ensures
            r@ == first_occurrences(texts(glyphs@)),
    {
        let mut kept: Vec<Vec<char>> = Vec::new();
        let mut i: usize = 0;
        while i < glyphs.len()
            invariant
                i <= glyphs.len(),
                char_texts(kept@) == first_occurrences(texts(glyphs@).take(i as int)),
            decreases glyphs.len() - i,
        {
            let glyph = chars_of(glyphs[i].as_str());
            let mut seen: bool = false;
            let mut j: usize = 0;
            while j < i
                invariant
                    j <= i <= glyphs.len(),
                    glyph@ == glyphs[i as int]@,
                    seen == exists|k: int| 0 <= k < j && #[trigger] glyphs[k]@ == glyph@,
                decreases i - j,
            {
                let other = chars_of(glyphs[j].as_str());
                if same_text(&other, &glyph) {
                    seen = true;
                }
                j = j + 1;
            }
            proof {
                let all = texts(glyphs@);
                let before = all.take(i as int);
                assert(all.take(i + 1).drop_last() == before);
                if seen {
                    let k = choose|k: int| 0 <= k < i && #[trigger] glyphs[k]@ == glyph@;
                    assert(before[k] == glyph@);
                }
            }
            if !seen {
                kept.push(glyph);
            }
            i = i + 1;
        }
        proof {
            assert(texts(glyphs@).take(glyphs.len() as int) == texts(glyphs@));
        }
        EmojiTable { glyphs: kept }
    }

    /// Whether `token` is one of the glyphs of the table.
    pub fn contains(&self, token: &Vec<char>) -> (r: bool)
        ensures
            r == self@.contains(token@),
    {
        let mut i: usize = 0;
        while i < self.glyphs.len()
            invariant
                i <= self.glyphs.len(),
                forall|k: int| 0 <= k < i ==> self@[k] != token@,
            decreases self.glyphs.len() - i,
        {
            if same_text(&self.glyphs[i], token) {
                proof {
                    assert(self@[i as int] == token@);
                }
                return true;
            }
            i = i + 1;
        }
        false
    }

    /// The glyphs of the table that stand in `text`, each with the number of
    /// indices at which it stands, in the order of the table.
    pub fn count(&self, text: &str) -> (r: Emojis)
        ensures
            r@ == emoji_counts(self@, text@),
    {
        let chars = chars_of(text);
        let mut entries: Vec<EmojiCount> = Vec::new();
        let mut i: usize = 0;
        while i < self.glyphs.len()
            invariant
                i <= self.glyphs.len(),
                chars@ == text@,
                entries@.map_values(|e: EmojiCount| (e.glyph@, e.count as nat)) == emoji_counts(
                    self@.take(i as int),
                    text@,
                ),
            decreases self.glyphs.len() - i,
        {
            let n = count_occurrences(&chars, &self.glyphs[i]);
            proof {
                assert(self@.take(i + 1).drop_last() == self@.take(i as int));
            }
            if n > 0 {
                let ghost before = entries@.map_values(|e: EmojiCount| (e.glyph@, e.count as nat));
                entries.push(EmojiCount { glyph: string_of(&self.glyphs[i]), count: n });
                proof {
                    assert(entries@.map_values(|e: EmojiCount| (e.glyph@, e.count as nat))
                        =~= before.push((self.glyphs[i as int]@, n as nat)));
                }
            }
            i = i + 1;
        }
        proof {
            assert(self@.take(self.glyphs.len() as int) == self@);
        }
        Emojis { entries }
    }
}

} // verus!
