use vstd::prelude::*;

verus! {

/// A 5x7 pixel font for card ranks: the court letters and the digits.
pub struct BitmapFont5x7 {
    glyphs: Vec<(char, [[u8; 5]; 7])>,
}

/// The characters of `BitmapFont5x7`, in the order its glyphs are stored.
pub open spec fn bitmapfont5x7_chars() -> Seq<char> {
    seq!['A', 'K', 'Q', 'J', '1', '2', '3', '4', '5', '6', '7', '8', '9', '0']
}

/// The rows of a 5x7 glyph as sequences.
pub open spec fn rows_5x7(g: [[u8; 5]; 7]) -> Seq<Seq<u8>> {
    g@.map_values(|row: [u8; 5]| row@)
}

/// The glyph of `c` in `BitmapFont5x7`, row by row (empty for a character it lacks).
pub open spec fn glyph_5x7(c: char) -> Seq<Seq<u8>> {
    if c == 'A' {
        seq![
            seq![0u8, 1, 1, 1, 0],
            seq![1u8, 0, 0, 0, 1],
            seq![1u8, 0, 0, 0, 1],
            seq![1u8, 1, 1, 1, 1],
            seq![1u8, 0, 0, 0, 1],
            seq![1u8, 0, 0, 0, 1],
            seq![0u8, 0, 0, 0, 0],
        ]
    } else if c == 'K' {
        seq![
            seq![1u8, 0, 0, 0, 1],
            seq![1u8, 0, 0, 1, 0],
            seq![1u8, 0, 1, 0, 0],
            seq![1u8, 1, 0, 0, 0],
            seq![1u8, 0, 1, 0, 0],
            seq![1u8, 0, 0, 1, 0],
            seq![1u8, 0, 0, 0, 1],
        ]
    } else if c == 'Q' {
        seq![
            seq![0u8, 1, 1, 1, 0],
            seq![1u8, 0, 0, 0, 1],
            seq![1u8, 0, 0, 0, 1],
            seq![1u8, 0, 0, 0, 1],
            seq![1u8, 0, 1, 0, 1],
            seq![1u8, 0, 0, 1, 0],
            seq![0u8, 1, 1, 0, 1],
        ]
    } else if c == 'J' {
        seq![
            seq![0u8, 0, 1, 1, 1],
            seq![0u8, 0, 0, 1, 0],
            seq![0u8, 0, 0, 1, 0],
            seq![0u8, 0, 0, 1, 0],
            seq![0u8, 0, 0, 1, 0],
            seq![1u8, 0, 0, 1, 0],
            seq![0u8, 1, 1, 0, 0],
        ]
    } else if c == '1' {
        seq![
            seq![0u8, 0, 1, 0, 0],
            seq![0u8, 1, 1, 0, 0],
            seq![0u8, 0, 1, 0, 0],
            seq![0u8, 0, 1, 0, 0],
            seq![0u8, 0, 1, 0, 0],
            seq![0u8, 0, 1, 0, 0],
            seq![0u8, 1, 1, 1, 0],
        ]
    } else if c == '2' {
        seq![
            seq![0u8, 1, 1, 1, 0],
            seq![1u8, 0, 0, 0, 1],
            seq![0u8, 0, 0, 0, 1],
            seq![0u8, 0, 0, 1, 0],
            seq![0u8, 0, 1, 0, 0],
            seq![0u8, 1, 0, 0, 0],
            seq![1u8, 1, 1, 1, 1],
        ]
    } else if c == '3' {
        seq![
            seq![0u8, 1, 1, 1, 0],
            seq![1u8, 0, 0, 0, 1],
            seq![0u8, 0, 0, 0, 1],
            seq![0u8, 0, 1, 1, 0],
            seq![0u8, 0, 0, 0, 1],
            seq![1u8, 0, 0, 0, 1],
            seq![0u8, 1, 1, 1, 0],
        ]
    } else if c == '4' {
        seq![
            seq![0u8, 0, 0, 1, 0],
            seq![0u8, 0, 1, 1, 0],
            seq![0u8, 1, 0, 1, 0],
            seq![1u8, 0, 0, 1, 0],
            seq![1u8, 1, 1, 1, 1],
            seq![0u8, 0, 0, 1, 0],
            seq![0u8, 0, 0, 1, 0],
        ]
    } else if c == '5' {
        seq![
            seq![1u8, 1, 1, 1, 1],
            seq![1u8, 0, 0, 0, 0],
            seq![1u8, 1, 1, 1, 0],
            seq![0u8, 0, 0, 0, 1],
            seq![0u8, 0, 0, 0, 1],
            seq![1u8, 0, 0, 0, 1],
            seq![0u8, 1, 1, 1, 0],
        ]
    } else if c == '6' {
        seq![
            seq![0u8, 1, 1, 1, 0],
            seq![1u8, 0, 0, 0, 1],
            seq![1u8, 0, 0, 0, 0],
            seq![1u8, 1, 1, 1, 0],
            seq![1u8, 0, 0, 0, 1],
            seq![1u8, 0, 0, 0, 1],
            seq![0u8, 1, 1, 1, 0],
        ]
    } else if c == '7' {
        seq![
            seq![1u8, 1, 1, 1, 1],
            seq![0u8, 0, 0, 0, 1],
            seq![0u8, 0, 0, 1, 0],
            seq![0u8, 0, 1, 0, 0],
            seq![0u8, 0, 1, 0, 0],
            seq![0u8, 0, 1, 0, 0],
            seq![0u8, 0, 1, 0, 0],
        ]
    } else if c == '8' {
        seq![
            seq![0u8, 1, 1, 1, 0],
            seq![1u8, 0, 0, 0, 1],
            seq![1u8, 0, 0, 0, 1],
            seq![0u8, 1, 1, 1, 0],
            seq![1u8, 0, 0, 0, 1],
            seq![1u8, 0, 0, 0, 1],
            seq![0u8, 1, 1, 1, 0],
        ]
    } else if c == '9' {
        seq![
            seq![0u8, 1, 1, 1, 0],
            seq![1u8, 0, 0, 0, 1],
            seq![1u8, 0, 0, 0, 1],
            seq![0u8, 1, 1, 1, 1],
            seq![0u8, 0, 0, 0, 1],
            seq![1u8, 0, 0, 0, 1],
            seq![0u8, 1, 1, 1, 0],
        ]
    } else if c == '0' {
        seq![
            seq![0u8, 1, 1, 1, 0],
            seq![1u8, 0, 0, 0, 1],
            seq![1u8, 0, 0, 1, 1],
            seq![1u8, 0, 1, 0, 1],
            seq![1u8, 1, 0, 0, 1],
            seq![1u8, 0, 0, 0, 1],
            seq![0u8, 1, 1, 1, 0],
        ]
    } else {
        Seq::empty()
    }
}

impl BitmapFont5x7 {
    /// The characters this font holds a glyph for, in order.
    pub closed spec fn chars(&self) -> Seq<char> {
        self.glyphs@.map_values(|e: (char, [[u8; 5]; 7])| e.0)
    }

    /// Each stored glyph is the one its character has.
    pub closed spec fn wf(&self) -> bool {
        forall|i: int|
            0 <= i < self.glyphs@.len() ==> rows_5x7(#[trigger] self.glyphs@[i].1) == glyph_5x7(
                self.glyphs@[i].0,
            )
    }

    /// A font with one glyph for each of its characters.
    pub fn new() -> (r: BitmapFont5x7)
        ensures
            r.wf(),
            r.chars() == bitmapfont5x7_chars(),
    {
        let mut glyphs: Vec<(char, [[u8; 5]; 7])> = Vec::new();
        let g: [[u8; 5]; 7] = [
            [0, 1, 1, 1, 0],
            [1, 0, 0, 0, 1],
            [1, 0, 0, 0, 1],
            [1, 1, 1, 1, 1],
            [1, 0, 0, 0, 1],
            [1, 0, 0, 0, 1],
            [0, 0, 0, 0, 0],
        ];
        proof {
            assert(g@[0]@ =~= glyph_5x7('A')[0]);
            assert(g@[1]@ =~= glyph_5x7('A')[1]);
            assert(g@[2]@ =~= glyph_5x7('A')[2]);
            assert(g@[3]@ =~= glyph_5x7('A')[3]);
            assert(g@[4]@ =~= glyph_5x7('A')[4]);
            assert(g@[5]@ =~= glyph_5x7('A')[5]);
            assert(g@[6]@ =~= glyph_5x7('A')[6]);
            assert(rows_5x7(g) =~= glyph_5x7('A'));
        }
        glyphs.push(('A', g));
        let g: [[u8; 5]; 7] = [
            [1, 0, 0, 0, 1],
            [1, 0, 0, 1, 0],
            [1, 0, 1, 0, 0],
            [1, 1, 0, 0, 0],
            [1, 0, 1, 0, 0],
            [1, 0, 0, 1, 0],
            [1, 0, 0, 0, 1],
        ];
        proof {
            assert(g@[0]@ =~= glyph_5x7('K')[0]);
            assert(g@[1]@ =~= glyph_5x7('K')[1]);
            assert(g@[2]@ =~= glyph_5x7('K')[2]);
            assert(g@[3]@ =~= glyph_5x7('K')[3]);
            assert(g@[4]@ =~= glyph_5x7('K')[4]);
            assert(g@[5]@ =~= glyph_5x7('K')[5]);
            assert(g@[6]@ =~= glyph_5x7('K')[6]);
            assert(rows_5x7(g) =~= glyph_5x7('K'));
        }
        glyphs.push(('K', g));
        let g: [[u8; 5]; 7] = [
            [0, 1, 1, 1, 0],
            [1, 0, 0, 0, 1],
            [1, 0, 0, 0, 1],
            [1, 0, 0, 0, 1],
            [1, 0, 1, 0, 1],
            [1, 0, 0, 1, 0],
            [0, 1, 1, 0, 1],
        ];
        proof {
            assert(g@[0]@ =~= glyph_5x7('Q')[0]);
            assert(g@[1]@ =~= glyph_5x7('Q')[1]);
            assert(g@[2]@ =~= glyph_5x7('Q')[2]);
            assert(g@[3]@ =~= glyph_5x7('Q')[3]);
            assert(g@[4]@ =~= glyph_5x7('Q')[4]);
            assert(g@[5]@ =~= glyph_5x7('Q')[5]);
            assert(g@[6]@ =~= glyph_5x7('Q')[6]);
            assert(rows_5x7(g) =~= glyph_5x7('Q'));
        }
        glyphs.push(('Q', g));
        let g: [[u8; 5]; 7] = [
            [0, 0, 1, 1, 1],
            [0, 0, 0, 1, 0],
            [0, 0, 0, 1, 0],
            [0, 0, 0, 1, 0],
            [0, 0, 0, 1, 0],
            [1, 0, 0, 1, 0],
            [0, 1, 1, 0, 0],
        ];
        proof {
            assert(g@[0]@ =~= glyph_5x7('J')[0]);
            assert(g@[1]@ =~= glyph_5x7('J')[1]);
            assert(g@[2]@ =~= glyph_5x7('J')[2]);
            assert(g@[3]@ =~= glyph_5x7('J')[3]);
            assert(g@[4]@ =~= glyph_5x7('J')[4]);
            assert(g@[5]@ =~= glyph_5x7('J')[5]);
            assert(g@[6]@ =~= glyph_5x7('J')[6]);
            assert(rows_5x7(g) =~= glyph_5x7('J'));
        }
        glyphs.push(('J', g));
        let g: [[u8; 5]; 7] = [
            [0, 0, 1, 0, 0],
            [0, 1, 1, 0, 0],
            [0, 0, 1, 0, 0],
            [0, 0, 1, 0, 0],
            [0, 0, 1, 0, 0],
            [0, 0, 1, 0, 0],
            [0, 1, 1, 1, 0],
        ];
        proof {
            assert(g@[0]@ =~= glyph_5x7('1')[0]);
            assert(g@[1]@ =~= glyph_5x7('1')[1]);
            assert(g@[2]@ =~= glyph_5x7('1')[2]);
            assert(g@[3]@ =~= glyph_5x7('1')[3]);
            assert(g@[4]@ =~= glyph_5x7('1')[4]);
            assert(g@[5]@ =~= glyph_5x7('1')[5]);
            assert(g@[6]@ =~= glyph_5x7('1')[6]);
            assert(rows_5x7(g) =~= glyph_5x7('1'));
        }
        glyphs.push(('1', g));
        let g: [[u8; 5]; 7] = [
            [0, 1, 1, 1, 0],
            [1, 0, 0, 0, 1],
            [0, 0, 0, 0, 1],
            [0, 0, 0, 1, 0],
            [0, 0, 1, 0, 0],
            [0, 1, 0, 0, 0],
            [1, 1, 1, 1, 1],
        ];
        proof {
            assert(g@[0]@ =~= glyph_5x7('2')[0]);
            assert(g@[1]@ =~= glyph_5x7('2')[1]);
            assert(g@[2]@ =~= glyph_5x7('2')[2]);
            assert(g@[3]@ =~= glyph_5x7('2')[3]);
            assert(g@[4]@ =~= glyph_5x7('2')[4]);
            assert(g@[5]@ =~= glyph_5x7('2')[5]);
            assert(g@[6]@ =~= glyph_5x7('2')[6]);
            assert(rows_5x7(g) =~= glyph_5x7('2'));
        }
        glyphs.push(('2', g));
        let g: [[u8; 5]; 7] = [
            [0, 1, 1, 1, 0],
            [1, 0, 0, 0, 1],
            [0, 0, 0, 0, 1],
            [0, 0, 1, 1, 0],
            [0, 0, 0, 0, 1],
            [1, 0, 0, 0, 1],
            [0, 1, 1, 1, 0],
        ];
        proof {
            assert(g@[0]@ =~= glyph_5x7('3')[0]);
            assert(g@[1]@ =~= glyph_5x7('3')[1]);
            assert(g@[2]@ =~= glyph_5x7('3')[2]);
            assert(g@[3]@ =~= glyph_5x7('3')[3]);
            assert(g@[4]@ =~= glyph_5x7('3')[4]);
            assert(g@[5]@ =~= glyph_5x7('3')[5]);
            assert(g@[6]@ =~= glyph_5x7('3')[6]);
            assert(rows_5x7(g) =~= glyph_5x7('3'));
        }
        glyphs.push(('3', g));
        let g: [[u8; 5]; 7] = [
            [0, 0, 0, 1, 0],
            [0, 0, 1, 1, 0],
            [0, 1, 0, 1, 0],
            [1, 0, 0, 1, 0],
            [1, 1, 1, 1, 1],
            [0, 0, 0, 1, 0],
            [0, 0, 0, 1, 0],
        ];
        proof {
            assert(g@[0]@ =~= glyph_5x7('4')[0]);
            assert(g@[1]@ =~= glyph_5x7('4')[1]);
            assert(g@[2]@ =~= glyph_5x7('4')[2]);
            assert(g@[3]@ =~= glyph_5x7('4')[3]);
            assert(g@[4]@ =~= glyph_5x7('4')[4]);
            assert(g@[5]@ =~= glyph_5x7('4')[5]);
            assert(g@[6]@ =~= glyph_5x7('4')[6]);
            assert(rows_5x7(g) =~= glyph_5x7('4'));
        }
        glyphs.push(('4', g));
        let g: [[u8; 5]; 7] = [
            [1, 1, 1, 1, 1],
            [1, 0, 0, 0, 0],
            [1, 1, 1, 1, 0],
            [0, 0, 0, 0, 1],
            [0, 0, 0, 0, 1],
            [1, 0, 0, 0, 1],
            [0, 1, 1, 1, 0],
        ];
        proof {
            assert(g@[0]@ =~= glyph_5x7('5')[0]);
            assert(g@[1]@ =~= glyph_5x7('5')[1]);
            assert(g@[2]@ =~= glyph_5x7('5')[2]);
            assert(g@[3]@ =~= glyph_5x7('5')[3]);
            assert(g@[4]@ =~= glyph_5x7('5')[4]);
            assert(g@[5]@ =~= glyph_5x7('5')[5]);
            assert(g@[6]@ =~= glyph_5x7('5')[6]);
            assert(rows_5x7(g) =~= glyph_5x7('5'));
        }
        glyphs.push(('5', g));
        let g: [[u8; 5]; 7] = [
            [0, 1, 1, 1, 0],
            [1, 0, 0, 0, 1],
            [1, 0, 0, 0, 0],
            [1, 1, 1, 1, 0],
            [1, 0, 0, 0, 1],
            [1, 0, 0, 0, 1],
            [0, 1, 1, 1, 0],
        ];
        proof {
            assert(g@[0]@ =~= glyph_5x7('6')[0]);
            assert(g@[1]@ =~= glyph_5x7('6')[1]);
            assert(g@[2]@ =~= glyph_5x7('6')[2]);
            assert(g@[3]@ =~= glyph_5x7('6')[3]);
            assert(g@[4]@ =~= glyph_5x7('6')[4]);
            assert(g@[5]@ =~= glyph_5x7('6')[5]);
            assert(g@[6]@ =~= glyph_5x7('6')[6]);
            assert(rows_5x7(g) =~= glyph_5x7('6'));
        }
        glyphs.push(('6', g));
        let g: [[u8; 5]; 7] = [
            [1, 1, 1, 1, 1],
            [0, 0, 0, 0, 1],
            [0, 0, 0, 1, 0],
            [0, 0, 1, 0, 0],
            [0, 0, 1, 0, 0],
            [0, 0, 1, 0, 0],
            [0, 0, 1, 0, 0],
        ];
        proof {
            assert(g@[0]@ =~= glyph_5x7('7')[0]);
            assert(g@[1]@ =~= glyph_5x7('7')[1]);
            assert(g@[2]@ =~= glyph_5x7('7')[2]);
            assert(g@[3]@ =~= glyph_5x7('7')[3]);
            assert(g@[4]@ =~= glyph_5x7('7')[4]);
            assert(g@[5]@ =~= glyph_5x7('7')[5]);
            assert(g@[6]@ =~= glyph_5x7('7')[6]);
            assert(rows_5x7(g) =~= glyph_5x7('7'));
        }
        glyphs.push(('7', g));
        let g: [[u8; 5]; 7] = [
            [0, 1, 1, 1, 0],
            [1, 0, 0, 0, 1],
            [1, 0, 0, 0, 1],
            [0, 1, 1, 1, 0],
            [1, 0, 0, 0, 1],
            [1, 0, 0, 0, 1],
            [0, 1, 1, 1, 0],
        ];
        proof {
            assert(g@[0]@ =~= glyph_5x7('8')[0]);
            assert(g@[1]@ =~= glyph_5x7('8')[1]);
            assert(g@[2]@ =~= glyph_5x7('8')[2]);
            assert(g@[3]@ =~= glyph_5x7('8')[3]);
            assert(g@[4]@ =~= glyph_5x7('8')[4]);
            assert(g@[5]@ =~= glyph_5x7('8')[5]);
            assert(g@[6]@ =~= glyph_5x7('8')[6]);
            assert(rows_5x7(g) =~= glyph_5x7('8'));
        }
        glyphs.push(('8', g));
        let g: [[u8; 5]; 7] = [
            [0, 1, 1, 1, 0],
            [1, 0, 0, 0, 1],
            [1, 0, 0, 0, 1],
            [0, 1, 1, 1, 1],
            [0, 0, 0, 0, 1],
            [1, 0, 0, 0, 1],
            [0, 1, 1, 1, 0],
        ];
        proof {
            assert(g@[0]@ =~= glyph_5x7('9')[0]);
            assert(g@[1]@ =~= glyph_5x7('9')[1]);
            assert(g@[2]@ =~= glyph_5x7('9')[2]);
            assert(g@[3]@ =~= glyph_5x7('9')[3]);
            assert(g@[4]@ =~= glyph_5x7('9')[4]);
            assert(g@[5]@ =~= glyph_5x7('9')[5]);
            assert(g@[6]@ =~= glyph_5x7('9')[6]);
            assert(rows_5x7(g) =~= glyph_5x7('9'));
        }
        glyphs.push(('9', g));
        let g: [[u8; 5]; 7] = [
            [0, 1, 1, 1, 0],
            [1, 0, 0, 0, 1],
            [1, 0, 0, 1, 1],
            [1, 0, 1, 0, 1],
            [1, 1, 0, 0, 1],
            [1, 0, 0, 0, 1],
            [0, 1, 1, 1, 0],
        ];
        proof {
            assert(g@[0]@ =~= glyph_5x7('0')[0]);
            assert(g@[1]@ =~= glyph_5x7('0')[1]);
            assert(g@[2]@ =~= glyph_5x7('0')[2]);
            assert(g@[3]@ =~= glyph_5x7('0')[3]);
            assert(g@[4]@ =~= glyph_5x7('0')[4]);
            assert(g@[5]@ =~= glyph_5x7('0')[5]);
            assert(g@[6]@ =~= glyph_5x7('0')[6]);
            assert(rows_5x7(g) =~= glyph_5x7('0'));
        }
        glyphs.push(('0', g));
        let r = BitmapFont5x7 { glyphs };
        proof {
            assert(r.chars() =~= bitmapfont5x7_chars());
        }
        r
    }

    /// The glyph of `c`, row by row; none when the font has no glyph for it.
    pub fn glyph(&self, c: char) -> (r: Option<[[u8; 5]; 7]>)
        requires
            self.wf(),
        ensures
            r.is_some() == self.chars().contains(c),
            r matches Some(g) ==> rows_5x7(g) == glyph_5x7(c),
    {
        let mut i: usize = 0;
        while i < self.glyphs.len()
            invariant
                self.wf(),
                i <= self.glyphs@.len(),
                forall|j: int| 0 <= j < i ==> self.glyphs@[j].0 != c,
            decreases self.glyphs@.len() - i,
        {
            if self.glyphs[i].0 == c {
                proof {
                    assert(self.chars()[i as int] == c);
                    assert(rows_5x7(self.glyphs@[i as int].1) == glyph_5x7(self.glyphs@[i as int].0));
                }
                return Some(self.glyphs[i].1);
            }
            i = i + 1;
        }
        proof {
            if self.chars().contains(c) {
                let k = choose|k: int| 0 <= k < self.chars().len() && self.chars()[k] == c;
                assert(self.glyphs@[k].0 == c);
            }
        }
        None
    }
}

/// A compact 3x5 pixel font for corner indices.
pub struct BitmapFont3x5 {
    glyphs: Vec<(char, [[u8; 3]; 5])>,
}

/// The characters of `BitmapFont3x5`, in the order its glyphs are stored.
pub open spec fn bitmapfont3x5_chars() -> Seq<char> {
    seq!['A', 'K', 'Q', 'J', '2', '3', '4', '5', '6', '7', '8', '9', '0']
}

/// The rows of a 3x5 glyph as sequences.
pub open spec fn rows_3x5(g: [[u8; 3]; 5]) -> Seq<Seq<u8>> {
    g@.map_values(|row: [u8; 3]| row@)
}

/// The glyph of `c` in `BitmapFont3x5`, row by row (empty for a character it lacks).
pub open spec fn glyph_3x5(c: char) -> Seq<Seq<u8>> {
    if c == 'A' {
        seq![
            seq![0u8, 1, 0],
            seq![1u8, 0, 1],
            seq![1u8, 1, 1],
            seq![1u8, 0, 1],
            seq![1u8, 0, 1],
        ]
    } else if c == 'K' {
        seq![
            seq![1u8, 0, 1],
            seq![1u8, 1, 0],
            seq![1u8, 0, 0],
            seq![1u8, 1, 0],
            seq![1u8, 0, 1],
        ]
    } else if c == 'Q' {
        seq![
            seq![0u8, 1, 0],
            seq![1u8, 0, 1],
            seq![1u8, 0, 1],
            seq![1u8, 1, 1],
            seq![0u8, 1, 1],
        ]
    } else if c == 'J' {
        seq![
            seq![0u8, 1, 1],
            seq![0u8, 0, 1],
            seq![0u8, 0, 1],
            seq![1u8, 0, 1],
            seq![0u8, 1, 0],
        ]
    } else if c == '2' {
        seq![
            seq![1u8, 1, 0],
            seq![0u8, 0, 1],
            seq![0u8, 1, 0],
            seq![1u8, 0, 0],
            seq![1u8, 1, 1],
        ]
    } else if c == '3' {
        seq![
            seq![1u8, 1, 0],
            seq![0u8, 0, 1],
            seq![0u8, 1, 0],
            seq![0u8, 0, 1],
            seq![1u8, 1, 0],
        ]
    } else if c == '4' {
        seq![
            seq![1u8, 0, 1],
            seq![1u8, 0, 1],
            seq![1u8, 1, 1],
            seq![0u8, 0, 1],
            seq![0u8, 0, 1],
        ]
    } else if c == '5' {
        seq![
            seq![1u8, 1, 1],
            seq![1u8, 0, 0],
            seq![1u8, 1, 0],
            seq![0u8, 0, 1],
            seq![1u8, 1, 0],
        ]
    } else if c == '6' {
        seq![
            seq![0u8, 1, 1],
            seq![1u8, 0, 0],
            seq![1u8, 1, 0],
            seq![1u8, 0, 1],
            seq![1u8, 1, 0],
        ]
    } else if c == '7' {
        seq![
            seq![1u8, 1, 1],
            seq![0u8, 0, 1],
            seq![0u8, 1, 0],
            seq![0u8, 1, 0],
            seq![0u8, 1, 0],
        ]
    } else if c == '8' {
        seq![
            seq![0u8, 1, 0],
            seq![1u8, 0, 1],
            seq![0u8, 1, 0],
            seq![1u8, 0, 1],
            seq![0u8, 1, 0],
        ]
    } else if c == '9' {
        seq![
            seq![0u8, 1, 0],
            seq![1u8, 0, 1],
            seq![0u8, 1, 1],
            seq![0u8, 0, 1],
            seq![1u8, 1, 0],
        ]
    } else if c == '0' {
        seq![
            seq![0u8, 1, 0],
            seq![1u8, 0, 1],
            seq![1u8, 0, 1],
            seq![1u8, 0, 1],
            seq![0u8, 1, 0],
        ]
    } else {
        Seq::empty()
    }
}

impl BitmapFont3x5 {
    /// The characters this font holds a glyph for, in order.
    pub closed spec fn chars(&self) -> Seq<char> {
        self.glyphs@.map_values(|e: (char, [[u8; 3]; 5])| e.0)
    }

    /// Each stored glyph is the one its character has.
    pub closed spec fn wf(&self) -> bool {
        forall|i: int|
            0 <= i < self.glyphs@.len() ==> rows_3x5(#[trigger] self.glyphs@[i].1) == glyph_3x5(
                self.glyphs@[i].0,
            )
    }

    /// A font with one glyph for each of its characters.
    pub fn new() -> (r: BitmapFont3x5)
        ensures
            r.wf(),
            r.chars() == bitmapfont3x5_chars(),
    {
        let mut glyphs: Vec<(char, [[u8; 3]; 5])> = Vec::new();
        let g: [[u8; 3]; 5] = [
            [0, 1, 0],
            [1, 0, 1],
            [1, 1, 1],
            [1, 0, 1],
            [1, 0, 1],
        ];
        proof {
            assert(g@[0]@ =~= glyph_3x5('A')[0]);
            assert(g@[1]@ =~= glyph_3x5('A')[1]);
            assert(g@[2]@ =~= glyph_3x5('A')[2]);
            assert(g@[3]@ =~= glyph_3x5('A')[3]);
            assert(g@[4]@ =~= glyph_3x5('A')[4]);
            assert(rows_3x5(g) =~= glyph_3x5('A'));
        }
        glyphs.push(('A', g));
        let g: [[u8; 3]; 5] = [
            [1, 0, 1],
            [1, 1, 0],
            [1, 0, 0],
            [1, 1, 0],
            [1, 0, 1],
        ];
        proof {
            assert(g@[0]@ =~= glyph_3x5('K')[0]);
            assert(g@[1]@ =~= glyph_3x5('K')[1]);
            assert(g@[2]@ =~= glyph_3x5('K')[2]);
            assert(g@[3]@ =~= glyph_3x5('K')[3]);
            assert(g@[4]@ =~= glyph_3x5('K')[4]);
            assert(rows_3x5(g) =~= glyph_3x5('K'));
        }
        glyphs.push(('K', g));
        let g: [[u8; 3]; 5] = [
            [0, 1, 0],
            [1, 0, 1],
            [1, 0, 1],
            [1, 1, 1],
            [0, 1, 1],
        ];
        proof {
            assert(g@[0]@ =~= glyph_3x5('Q')[0]);
            assert(g@[1]@ =~= glyph_3x5('Q')[1]);
            assert(g@[2]@ =~= glyph_3x5('Q')[2]);
            assert(g@[3]@ =~= glyph_3x5('Q')[3]);
            assert(g@[4]@ =~= glyph_3x5('Q')[4]);
            assert(rows_3x5(g) =~= glyph_3x5('Q'));
        }
        glyphs.push(('Q', g));
        let g: [[u8; 3]; 5] = [
            [0, 1, 1],
            [0, 0, 1],
            [0, 0, 1],
            [1, 0, 1],
            [0, 1, 0],
        ];
        proof {
            assert(g@[0]@ =~= glyph_3x5('J')[0]);
            assert(g@[1]@ =~= glyph_3x5('J')[1]);
            assert(g@[2]@ =~= glyph_3x5('J')[2]);
            assert(g@[3]@ =~= glyph_3x5('J')[3]);
            assert(g@[4]@ =~= glyph_3x5('J')[4]);
            assert(rows_3x5(g) =~= glyph_3x5('J'));
        }
        glyphs.push(('J', g));
        let g: [[u8; 3]; 5] = [
            [1, 1, 0],
            [0, 0, 1],
            [0, 1, 0],
            [1, 0, 0],
            [1, 1, 1],
        ];
        proof {
            assert(g@[0]@ =~= glyph_3x5('2')[0]);
            assert(g@[1]@ =~= glyph_3x5('2')[1]);
            assert(g@[2]@ =~= glyph_3x5('2')[2]);
            assert(g@[3]@ =~= glyph_3x5('2')[3]);
            assert(g@[4]@ =~= glyph_3x5('2')[4]);
            assert(rows_3x5(g) =~= glyph_3x5('2'));
        }
        glyphs.push(('2', g));
        let g: [[u8; 3]; 5] = [
            [1, 1, 0],
            [0, 0, 1],
            [0, 1, 0],
            [0, 0, 1],
            [1, 1, 0],
        ];
        proof {
            assert(g@[0]@ =~= glyph_3x5('3')[0]);
            assert(g@[1]@ =~= glyph_3x5('3')[1]);
            assert(g@[2]@ =~= glyph_3x5('3')[2]);
            assert(g@[3]@ =~= glyph_3x5('3')[3]);
            assert(g@[4]@ =~= glyph_3x5('3')[4]);
            assert(rows_3x5(g) =~= glyph_3x5('3'));
        }
        glyphs.push(('3', g));
        let g: [[u8; 3]; 5] = [
            [1, 0, 1],
            [1, 0, 1],
            [1, 1, 1],
            [0, 0, 1],
            [0, 0, 1],
        ];
        proof {
            assert(g@[0]@ =~= glyph_3x5('4')[0]);
            assert(g@[1]@ =~= glyph_3x5('4')[1]);
            assert(g@[2]@ =~= glyph_3x5('4')[2]);
            assert(g@[3]@ =~= glyph_3x5('4')[3]);
            assert(g@[4]@ =~= glyph_3x5('4')[4]);
            assert(rows_3x5(g) =~= glyph_3x5('4'));
        }
        glyphs.push(('4', g));
        let g: [[u8; 3]; 5] = [
            [1, 1, 1],
            [1, 0, 0],
            [1, 1, 0],
            [0, 0, 1],
            [1, 1, 0],
        ];
        proof {
            assert(g@[0]@ =~= glyph_3x5('5')[0]);
            assert(g@[1]@ =~= glyph_3x5('5')[1]);
            assert(g@[2]@ =~= glyph_3x5('5')[2]);
            assert(g@[3]@ =~= glyph_3x5('5')[3]);
            assert(g@[4]@ =~= glyph_3x5('5')[4]);
            assert(rows_3x5(g) =~= glyph_3x5('5'));
        }
        glyphs.push(('5', g));
        let g: [[u8; 3]; 5] = [
            [0, 1, 1],
            [1, 0, 0],
            [1, 1, 0],
            [1, 0, 1],
            [1, 1, 0],
        ];
        proof {
            assert(g@[0]@ =~= glyph_3x5('6')[0]);
            assert(g@[1]@ =~= glyph_3x5('6')[1]);
            assert(g@[2]@ =~= glyph_3x5('6')[2]);
            assert(g@[3]@ =~= glyph_3x5('6')[3]);
            assert(g@[4]@ =~= glyph_3x5('6')[4]);
            assert(rows_3x5(g) =~= glyph_3x5('6'));
        }
        glyphs.push(('6', g));
        let g: [[u8; 3]; 5] = [
            [1, 1, 1],
            [0, 0, 1],
            [0, 1, 0],
            [0, 1, 0],
            [0, 1, 0],
        ];
        proof {
            assert(g@[0]@ =~= glyph_3x5('7')[0]);
            assert(g@[1]@ =~= glyph_3x5('7')[1]);
            assert(g@[2]@ =~= glyph_3x5('7')[2]);
            assert(g@[3]@ =~= glyph_3x5('7')[3]);
            assert(g@[4]@ =~= glyph_3x5('7')[4]);
            assert(rows_3x5(g) =~= glyph_3x5('7'));
        }
        glyphs.push(('7', g));
        let g: [[u8; 3]; 5] = [
            [0, 1, 0],
            [1, 0, 1],
            [0, 1, 0],
            [1, 0, 1],
            [0, 1, 0],
        ];
        proof {
            assert(g@[0]@ =~= glyph_3x5('8')[0]);
            assert(g@[1]@ =~= glyph_3x5('8')[1]);
            assert(g@[2]@ =~= glyph_3x5('8')[2]);
            assert(g@[3]@ =~= glyph_3x5('8')[3]);
            assert(g@[4]@ =~= glyph_3x5('8')[4]);
            assert(rows_3x5(g) =~= glyph_3x5('8'));
        }
        glyphs.push(('8', g));
        let g: [[u8; 3]; 5] = [
            [0, 1, 0],
            [1, 0, 1],
            [0, 1, 1],
            [0, 0, 1],
            [1, 1, 0],
        ];
        proof {
            assert(g@[0]@ =~= glyph_3x5('9')[0]);
            assert(g@[1]@ =~= glyph_3x5('9')[1]);
            assert(g@[2]@ =~= glyph_3x5('9')[2]);
            assert(g@[3]@ =~= glyph_3x5('9')[3]);
            assert(g@[4]@ =~= glyph_3x5('9')[4]);
            assert(rows_3x5(g) =~= glyph_3x5('9'));
        }
        glyphs.push(('9', g));
        let g: [[u8; 3]; 5] = [
            [0, 1, 0],
            [1, 0, 1],
            [1, 0, 1],
            [1, 0, 1],
            [0, 1, 0],
        ];
        proof {
            assert(g@[0]@ =~= glyph_3x5('0')[0]);
            assert(g@[1]@ =~= glyph_3x5('0')[1]);
            assert(g@[2]@ =~= glyph_3x5('0')[2]);
            assert(g@[3]@ =~= glyph_3x5('0')[3]);
            assert(g@[4]@ =~= glyph_3x5('0')[4]);
            assert(rows_3x5(g) =~= glyph_3x5('0'));
        }
        glyphs.push(('0', g));
        let r = BitmapFont3x5 { glyphs };
        proof {
            assert(r.chars() =~= bitmapfont3x5_chars());
        }
        r
    }

    /// The glyph of `c`, row by row; none when the font has no glyph for it.
    pub fn glyph(&self, c: char) -> (r: Option<[[u8; 3]; 5]>)
        requires
            self.wf(),
        ensures
            r.is_some() == self.chars().contains(c),
            r matches Some(g) ==> rows_3x5(g) == glyph_3x5(c),
    {
        let mut i: usize = 0;
        while i < self.glyphs.len()
            invariant
                self.wf(),
                i <= self.glyphs@.len(),
                forall|j: int| 0 <= j < i ==> self.glyphs@[j].0 != c,
            decreases self.glyphs@.len() - i,
        {
            if self.glyphs[i].0 == c {
                proof {
                    assert(self.chars()[i as int] == c);
                    assert(rows_3x5(self.glyphs@[i as int].1) == glyph_3x5(self.glyphs@[i as int].0));
                }
                return Some(self.glyphs[i].1);
            }
            i = i + 1;
        }
        proof {
            if self.chars().contains(c) {
                let k = choose|k: int| 0 <= k < self.chars().len() && self.chars()[k] == c;
                assert(self.glyphs@[k].0 == c);
            }
        }
        None
    }
}

} // verus!
