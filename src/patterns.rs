use vstd::prelude::*;

verus! {

/// Pixel patterns in the Greek style for card art.
pub struct PatternGenerator;

/// A corner of a rectangle.
#[derive(Debug, Clone, Copy, PartialEq, Eq, Structural)]
pub enum Corner {
    TopLeft,
    TopRight,
    BottomLeft,
    BottomRight,
}

/// The 6x6 unit of the meander (Greek key), row by row.
pub open spec fn meander_unit() -> Seq<Seq<u8>> {
    seq![
        seq![1u8, 1, 1, 1, 0, 0],
        seq![1u8, 0, 0, 1, 0, 0],
        seq![1u8, 0, 1, 1, 1, 1],
        seq![1u8, 0, 1, 0, 0, 1],
        seq![1u8, 1, 1, 0, 0, 1],
        seq![0u8, 0, 0, 0, 0, 1],
    ]
}

/// Whether the cell in column `x`, row `y` of the unit is set.
fn meander_cell(x: usize, y: usize) -> (r: bool)
    requires
        x < 6,
        y < 6,
    ensures
        r == (meander_unit()[y as int][x as int] == 1),
{
    let unit: [[u8; 6]; 6] = [
        [1, 1, 1, 1, 0, 0],
        [1, 0, 0, 1, 0, 0],
        [1, 0, 1, 1, 1, 1],
        [1, 0, 1, 0, 0, 1],
        [1, 1, 1, 0, 0, 1],
        [0, 0, 0, 0, 0, 1],
    ];
    proof {
        assert(unit@[0]@ =~= meander_unit()[0]);
        assert(unit@[1]@ =~= meander_unit()[1]);
        assert(unit@[2]@ =~= meander_unit()[2]);
        assert(unit@[3]@ =~= meander_unit()[3]);
        assert(unit@[4]@ =~= meander_unit()[4]);
        assert(unit@[5]@ =~= meander_unit()[5]);
    }
    unit[y][x] == 1
}

/// The column figure, row by row: capital, shaft and base.
pub open spec fn column_figure() -> Seq<Seq<u8>> {
    seq![
        seq![1u8, 1, 1, 1, 1, 1, 1, 1],
        seq![1u8, 0, 0, 0, 0, 0, 0, 1],
        seq![1u8, 1, 1, 1, 1, 1, 1, 1],
        seq![0u8, 1, 0, 0, 0, 0, 1, 0],
        seq![0u8, 1, 0, 0, 0, 0, 1, 0],
        seq![0u8, 1, 0, 0, 0, 0, 1, 0],
        seq![0u8, 1, 0, 0, 0, 0, 1, 0],
        seq![0u8, 1, 0, 0, 0, 0, 1, 0],
        seq![0u8, 1, 0, 0, 0, 0, 1, 0],
        seq![0u8, 1, 0, 0, 0, 0, 1, 0],
        seq![0u8, 1, 0, 0, 0, 0, 1, 0],
        seq![0u8, 1, 0, 0, 0, 0, 1, 0],
        seq![0u8, 1, 0, 0, 0, 0, 1, 0],
        seq![1u8, 1, 1, 1, 1, 1, 1, 1],
        seq![1u8, 0, 0, 0, 0, 0, 0, 1],
        seq![1u8, 1, 1, 1, 1, 1, 1, 1],
    ]
}

/// The amphora figure, row by row: rim, neck, handles, body and base.
pub open spec fn amphora_figure() -> Seq<Seq<u8>> {
    seq![
        seq![0u8, 0, 0, 1, 1, 1, 1, 1, 1, 0, 0, 0],
        seq![0u8, 0, 1, 0, 0, 0, 0, 0, 0, 1, 0, 0],
        seq![0u8, 0, 1, 0, 0, 0, 0, 0, 0, 1, 0, 0],
        seq![0u8, 0, 0, 1, 0, 0, 0, 0, 1, 0, 0, 0],
        seq![0u8, 1, 1, 0, 1, 0, 0, 1, 0, 1, 1, 0],
        seq![1u8, 0, 0, 0, 0, 1, 1, 0, 0, 0, 0, 1],
        seq![1u8, 0, 0, 0, 0, 0, 0, 0, 0, 0, 0, 1],
        seq![1u8, 0, 0, 0, 0, 0, 0, 0, 0, 0, 0, 1],
        seq![1u8, 0, 0, 0, 0, 0, 0, 0, 0, 0, 0, 1],
        seq![1u8, 0, 0, 0, 0, 0, 0, 0, 0, 0, 0, 1],
        seq![1u8, 0, 0, 0, 0, 0, 0, 0, 0, 0, 0, 1],
        seq![1u8, 0, 0, 0, 0, 0, 0, 0, 0, 0, 0, 1],
        seq![0u8, 1, 0, 0, 0, 0, 0, 0, 0, 0, 1, 0],
        seq![0u8, 0, 1, 0, 0, 0, 0, 0, 0, 1, 0, 0],
        seq![0u8, 0, 0, 1, 1, 0, 0, 1, 1, 0, 0, 0],
        seq![0u8, 0, 0, 0, 0, 1, 1, 0, 0, 0, 0, 0],
    ]
}

impl PatternGenerator {
    /// The meander tiled over `height` rows of `width` cells: the cell in column `x`, row `y`
    /// is the unit's cell in column `x % 6`, row `y % 6`.
    pub fn generate_meander_pattern(width: u32, height: u32) -> (r: Vec<Vec<bool>>)
        ensures
            r@.len() == height,
            forall|y: int| 0 <= y < height ==> (#[trigger] r@[y])@.len() == width,
            forall|y: int, x: int|
                0 <= y < height && 0 <= x < width ==> #[trigger] r@[y]@[x] == (meander_unit()[y % 6][x % 6] == 1),
    {
        let mut pattern: Vec<Vec<bool>> = Vec::with_capacity(height as usize);
        let mut y: u32 = 0;
        while y < height
            invariant
                y <= height,
                pattern@.len() == y,
                forall|j: int| 0 <= j < y ==> (#[trigger] pattern@[j])@.len() == width,
                forall|j: int, x: int|
                    0 <= j < y && 0 <= x < width ==> #[trigger] pattern@[j]@[x] == (meander_unit()[j % 6][x % 6] == 1),
            decreases height - y,
        {
            let mut row: Vec<bool> = Vec::with_capacity(width as usize);
            let mut x: u32 = 0;
            while x < width
                invariant
                    x <= width,
                    y < height,
                    row@.len() == x,
                    forall|i: int| 0 <= i < x ==> #[trigger] row@[i] == (meander_unit()[y as int % 6][i % 6] == 1),
                decreases width - x,
            {
                let cell = meander_cell((x % 6) as usize, (y % 6) as usize);
                row.push(cell);
                x = x + 1;
            }
            pattern.push(row);
            y = y + 1;
        }
        pattern
    }

    /// A Greek column, 8 cells wide and 16 high: `column_figure`. Every cell is 0 or 1 and the
    /// figure is symmetric left to right.
    pub fn generate_column_pattern() -> (r: [[u8; 8]; 16])
        ensures
            forall|y: int| 0 <= y < 16 ==> #[trigger] r@[y]@ == column_figure()[y],
            forall|y: int, x: int| 0 <= y < 16 && 0 <= x < 8 ==> #[trigger] r@[y]@[x] <= 1,
            forall|y: int, x: int| 0 <= y < 16 && 0 <= x < 8 ==> #[trigger] r@[y]@[x] == r@[y]@[7 - x],
    {
        let capital: [u8; 8] = [1, 1, 1, 1, 1, 1, 1, 1];
        let band: [u8; 8] = [1, 0, 0, 0, 0, 0, 0, 1];
        let shaft: [u8; 8] = [0, 1, 0, 0, 0, 0, 1, 0];
        let r: [[u8; 8]; 16] = [
            capital, band, capital, shaft, shaft, shaft, shaft, shaft, shaft, shaft, shaft, shaft, shaft,
            capital, band, capital,
        ];
        proof {
            assert(capital@ =~= seq![1u8, 1, 1, 1, 1, 1, 1, 1]);
            assert(band@ =~= seq![1u8, 0, 0, 0, 0, 0, 0, 1]);
            assert(shaft@ =~= seq![0u8, 1, 0, 0, 0, 0, 1, 0]);
            assert forall|y: int| 0 <= y < 16 implies r@[y] == capital || r@[y] == band || r@[y] == shaft by {}
            assert forall|y: int| 0 <= y < 16 implies #[trigger] r@[y]@ == column_figure()[y] by {}
        }
        r
    }

    /// An amphora, 12 cells wide and 16 high: `amphora_figure`. Every cell is 0 or 1 and the
    /// figure is symmetric left to right.
    pub fn generate_amphora_motif() -> (r: [[u8; 12]; 16])
        ensures
            forall|y: int| 0 <= y < 16 ==> #[trigger] r@[y]@ == amphora_figure()[y],
            forall|y: int, x: int| 0 <= y < 16 && 0 <= x < 12 ==> #[trigger] r@[y]@[x] <= 1,
            forall|y: int, x: int| 0 <= y < 16 && 0 <= x < 12 ==> #[trigger] r@[y]@[x] == r@[y]@[11 - x],
    {
        let rim: [u8; 12] = [0, 0, 0, 1, 1, 1, 1, 1, 1, 0, 0, 0];
        let neck: [u8; 12] = [0, 0, 1, 0, 0, 0, 0, 0, 0, 1, 0, 0];
        let throat: [u8; 12] = [0, 0, 0, 1, 0, 0, 0, 0, 1, 0, 0, 0];
        let handles: [u8; 12] = [0, 1, 1, 0, 1, 0, 0, 1, 0, 1, 1, 0];
        let shoulder: [u8; 12] = [1, 0, 0, 0, 0, 1, 1, 0, 0, 0, 0, 1];
        let body: [u8; 12] = [1, 0, 0, 0, 0, 0, 0, 0, 0, 0, 0, 1];
        let hip: [u8; 12] = [0, 1, 0, 0, 0, 0, 0, 0, 0, 0, 1, 0];
        let foot: [u8; 12] = [0, 0, 0, 1, 1, 0, 0, 1, 1, 0, 0, 0];
        let sole: [u8; 12] = [0, 0, 0, 0, 0, 1, 1, 0, 0, 0, 0, 0];
        let r: [[u8; 12]; 16] = [
            rim, neck, neck, throat, handles, shoulder, body, body, body, body, body, body, hip, neck, foot,
            sole,
        ];
        proof {
            assert(rim@ =~= seq![0u8, 0, 0, 1, 1, 1, 1, 1, 1, 0, 0, 0]);
            assert(neck@ =~= seq![0u8, 0, 1, 0, 0, 0, 0, 0, 0, 1, 0, 0]);
            assert(throat@ =~= seq![0u8, 0, 0, 1, 0, 0, 0, 0, 1, 0, 0, 0]);
            assert(handles@ =~= seq![0u8, 1, 1, 0, 1, 0, 0, 1, 0, 1, 1, 0]);
            assert(shoulder@ =~= seq![1u8, 0, 0, 0, 0, 1, 1, 0, 0, 0, 0, 1]);
            assert(body@ =~= seq![1u8, 0, 0, 0, 0, 0, 0, 0, 0, 0, 0, 1]);
            assert(hip@ =~= seq![0u8, 1, 0, 0, 0, 0, 0, 0, 0, 0, 1, 0]);
            assert(foot@ =~= seq![0u8, 0, 0, 1, 1, 0, 0, 1, 1, 0, 0, 0]);
            assert(sole@ =~= seq![0u8, 0, 0, 0, 0, 1, 1, 0, 0, 0, 0, 0]);
            assert forall|y: int| 0 <= y < 16 implies r@[y] == rim || r@[y] == neck || r@[y] == throat
                || r@[y] == handles || r@[y] == shoulder || r@[y] == body || r@[y] == hip || r@[y] == foot
                || r@[y] == sole by {}
            assert forall|y: int| 0 <= y < 16 implies #[trigger] r@[y]@ == amphora_figure()[y] by {}
        }
        r
    }
}

/// States of an on-screen button.
#[derive(Debug, Clone, Copy, PartialEq, Eq, Structural)]
pub enum ButtonState {
    Normal,
    Hover,
    Pressed,
}

} // verus!
