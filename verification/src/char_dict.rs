//! The glyphs of the screen: for a character, the columns of lamps that draw it.
use vstd::prelude::*;

verus! {

/// What a list of glyphs says of each character: the entry that was added last counts.
pub open spec fn glyph_map(glyphs: Seq<(char, Vec<u8>)>) -> Map<char, Seq<u8>>
    decreases glyphs.len(),
{
    if glyphs.len() == 0 {
        Map::empty()
    } else {
        glyph_map(glyphs.drop_last()).insert(glyphs.last().0, glyphs.last().1@)
    }
}

/// A dictionary from characters to columns, each column a byte with the top lamp in bit 0.
pub struct CharDict {
    glyphs: Vec<(char, Vec<u8>)>,
}

impl View for CharDict {
    type V = Map<char, Seq<u8>>;

    closed spec fn view(&self) -> Map<char, Seq<u8>> {
        glyph_map(self.glyphs@)
    }
}

impl CharDict {
    /// A dictionary without glyphs.
    pub fn new() -> (d: CharDict)
        ensures
            d@ == Map::<char, Seq<u8>>::empty(),
    {
        CharDict { glyphs: Vec::new() }
    }

    /// Sets the columns that draw a character.
    pub fn insert(&mut self, c: char, columns: Vec<u8>)
        ensures
            final(self)@ == old(self)@.insert(c, columns@),
    {
        let ghost before = self.glyphs@;
        self.glyphs.push((c, columns));
        assert(self.glyphs@.drop_last() == before);
    }

    /// The columns that draw a character.
    pub fn get(&self, c: char) -> (r: Option<&Vec<u8>>)
        ensures
            match r {
                Some(columns) => self@.contains_key(c) && self@[c] == columns@,
                None => !self@.contains_key(c),
            },
    {
        let mut n: usize = self.glyphs.len();
        proof {
            assert(self.glyphs@.take(n as int) == self.glyphs@);
        }
        while n > 0
            invariant
                n <= self.glyphs.len(),
                self@.contains_key(c) <==> glyph_map(self.glyphs@.take(n as int)).contains_key(c),
                self@.contains_key(c) ==> self@[c] == glyph_map(self.glyphs@.take(n as int))[c],
            decreases n,
        {
            proof {
                let t = self.glyphs@.take(n as int);
                assert(t.drop_last() == self.glyphs@.take(n - 1));
                assert(t.last() == self.glyphs@[n - 1]);
            }
            let entry = &self.glyphs[n - 1];
            if entry.0 == c {
                return Some(&entry.1);
            }
            n -= 1;
        }
        None
    }
}

/// The dictionary of a screen without lamps, which knows no character.
pub struct SimDict;

impl SimDict {
    /// The columns that draw a character: none.
    pub fn get(&self, _k: &char) -> (r: Option<&[u8; 5]>)
        ensures
            r is None,
    {
        None
    }
}

} // verus!
