use vstd::prelude::*;
use vstd::string::StringSliceAdditionalSpecFns;

verus! {

/// One straight stroke of the lettering, from one end point to the other.
/// Coordinates count half units of the scene, so that the point
/// `(from_x, from_y)` lies at `(from_x / 2, from_y / 2)`, in the plane in
/// which the lettering is drawn.
#[derive(Clone, Copy, Debug, PartialEq, Eq, Structural)]
pub struct Stroke {
    pub from_x: i32,
    pub from_y: i32,
    pub to_x: i32,
    pub to_y: i32,
}

impl Stroke {
    /// The stroke between two points given in half units.
    pub open spec fn between(from_x: int, from_y: int, to_x: int, to_y: int) -> Stroke {
        Stroke {
            from_x: from_x as i32,
            from_y: from_y as i32,
            to_x: to_x as i32,
            to_y: to_y as i32,
        }
    }

    /// The stroke has two different end points, so its length is not zero.
    pub open spec fn is_proper(self) -> bool {
        self.from_x != self.to_x || self.from_y != self.to_y
    }

    /// Every coordinate is one that a character of a text can stand for.
    pub open spec fn is_encodable(self) -> bool {
        &&& coordinate(u8::MIN) <= self.from_x <= coordinate(u8::MAX)
        &&& coordinate(u8::MIN) <= self.from_y <= coordinate(u8::MAX)
        &&& coordinate(u8::MIN) <= self.to_x <= coordinate(u8::MAX)
        &&& coordinate(u8::MIN) <= self.to_y <= coordinate(u8::MAX)
    }

    /// The stroke as the distance field reads it: where it begins, the way
    /// to its other end, and the square of its length.
    pub open spec fn segment_spec(self) -> Segment {
        let dir_x = self.to_x - self.from_x;
        let dir_y = self.to_y - self.from_y;
        Segment {
            begin_x: self.from_x,
            begin_y: self.from_y,
            dir_x: dir_x as i32,
            dir_y: dir_y as i32,
            len_sq: (dir_x * dir_x + dir_y * dir_y) as i32,
        }
    }

    /// The stroke as the distance field reads it.
    pub fn segment(&self) -> (segment: Segment)
        requires
            self.is_encodable(),
        ensures
            segment == self.segment_spec(),
            segment.is_sound(),
            self.is_proper() ==> segment.len_sq > 0,
    {
        let dir_x: i32 = self.to_x - self.from_x;
        let dir_y: i32 = self.to_y - self.from_y;
        assert(0 <= dir_x * dir_x <= 65025 && 0 <= dir_y * dir_y <= 65025) by (nonlinear_arith)
            requires
                -255 <= dir_x <= 255,
                -255 <= dir_y <= 255,
        ;
        assert(dir_x != 0 ==> dir_x * dir_x > 0) by (nonlinear_arith);
        assert(dir_y != 0 ==> dir_y * dir_y > 0) by (nonlinear_arith);
        Segment {
            begin_x: self.from_x,
            begin_y: self.from_y,
            dir_x,
            dir_y,
            len_sq: dir_x * dir_x + dir_y * dir_y,
        }
    }
}

/// A stroke as the distance field reads it: the point where it begins, the
/// vector from there to its other end, and the square of its length.
/// Coordinates count half units of the scene, and the squared length counts
/// squares of half units.
#[derive(Clone, Copy, Debug, PartialEq, Eq, Structural)]
pub struct Segment {
    pub begin_x: i32,
    pub begin_y: i32,
    pub dir_x: i32,
    pub dir_y: i32,
    pub len_sq: i32,
}

impl Segment {
    /// The squared length is that of the direction.
    pub open spec fn is_sound(self) -> bool {
        self.len_sq == self.dir_x * self.dir_x + self.dir_y * self.dir_y
    }
}

/// The code of the letter `O`, which stands for the coordinate zero.
pub const ORIGIN_CODE: u8 = 79;

/// The strokes of the lettering, four characters each: the two coordinates
/// of the first end point, then those of the second.
pub const STROKE_TEXT: &'static str =
    "5O5_5W9W5_9_AOEOCOC_A_E_IOQ_I_QOUOY_Y_]OWW[WaOa_aWeWa_e_cWiO";

/// The coordinate that one character of the text stands for.
pub open spec fn coordinate(code: u8) -> int {
    code as int - ORIGIN_CODE as int
}

/// The stroke that the four characters from position `4 * index` encode.
pub open spec fn stroke_at(text: Seq<u8>, index: int) -> Stroke {
    Stroke::between(
        coordinate(text[4 * index]),
        coordinate(text[4 * index + 1]),
        coordinate(text[4 * index + 2]),
        coordinate(text[4 * index + 3]),
    )
}

/// All the strokes that a text encodes, in the order of the text.
pub open spec fn strokes_of(text: Seq<u8>) -> Seq<Stroke> {
    Seq::new((text.len() / 4) as nat, |index: int| stroke_at(text, index))
}

/// The fifteen strokes of the lettering, written out.
pub open spec fn letter_strokes() -> Seq<Stroke> {
    seq![
        Stroke::between(-26, 0, -26, 16),
        Stroke::between(-26, 8, -22, 8),
        Stroke::between(-26, 16, -22, 16),
        Stroke::between(-14, 0, -10, 0),
        Stroke::between(-12, 0, -12, 16),
        Stroke::between(-14, 16, -10, 16),
        Stroke::between(-6, 0, 2, 16),
        Stroke::between(-6, 16, 2, 0),
        Stroke::between(6, 0, 10, 16),
        Stroke::between(10, 16, 14, 0),
        Stroke::between(8, 8, 12, 8),
        Stroke::between(18, 0, 18, 16),
        Stroke::between(18, 8, 22, 8),
        Stroke::between(18, 16, 22, 16),
        Stroke::between(20, 8, 26, 0),
    ]
}

/// The segments of the lettering: those of `letter_strokes`, in order.
pub open spec fn letter_segments() -> Seq<Segment> {
    letter_strokes().map_values(|stroke: Stroke| stroke.segment_spec())
}

/// Decodes a text of strokes, four characters a stroke.
pub fn decode_strokes(text: &[u8]) -> (strokes: Vec<Stroke>)
    requires
        text@.len() % 4 == 0,
    ensures
        strokes@ == strokes_of(text@),
        forall|i: int| 0 <= i < strokes@.len() ==> (#[trigger] strokes@[i]).is_encodable(),
{
    let length: usize = text.len();
    let count: usize = length / 4;
    let mut strokes: Vec<Stroke> = Vec::with_capacity(count);
    let mut index: usize = 0;
    while index < count
        invariant
            text@.len() % 4 == 0,
            length == text@.len(),
            count == length / 4,
            index <= count,
            strokes@ == Seq::new(index as nat, |i: int| stroke_at(text@, i)),
            forall|i: int| 0 <= i < strokes@.len() ==> (#[trigger] strokes@[i]).is_encodable(),
        decreases count - index,
    {
        assert(4 * index + 3 < text@.len());
        let at: usize = 4 * index;
        let stroke = Stroke {
            from_x: text[at] as i32 - ORIGIN_CODE as i32,
            from_y: text[at + 1] as i32 - ORIGIN_CODE as i32,
            to_x: text[at + 2] as i32 - ORIGIN_CODE as i32,
            to_y: text[at + 3] as i32 - ORIGIN_CODE as i32,
        };
        strokes.push(stroke);
        index = index + 1;
        assert(strokes@ =~= Seq::new(index as nat, |i: int| stroke_at(text@, i)));
    }
    assert(strokes@ =~= strokes_of(text@));
    strokes
}

/// The segments of the lettering, from the strokes that `STROKE_TEXT`
/// encodes. None of them has length zero.
pub fn letters() -> (table: Vec<Segment>)
    ensures
        table@ == strokes_of(STROKE_TEXT.spec_bytes()).map_values(
            |stroke: Stroke| stroke.segment_spec(),
        ),
        table@ == letter_segments(),
        forall|i: int|
            0 <= i < table@.len() ==> (#[trigger] table@[i]).is_sound() && table@[i].len_sq > 0,
{
    proof {
        lemma_stroke_text();
        lemma_letter_strokes_proper();
    }
    let strokes = decode_strokes(STROKE_TEXT.as_bytes());
    let mut table: Vec<Segment> = Vec::with_capacity(strokes.len());
    let mut index: usize = 0;
    while index < strokes.len()
        invariant
            index <= strokes@.len(),
            strokes@ == letter_strokes(),
            forall|i: int| 0 <= i < strokes@.len() ==> (#[trigger] strokes@[i]).is_encodable(),
            forall|i: int| 0 <= i < strokes@.len() ==> (#[trigger] strokes@[i]).is_proper(),
            table@.len() == index,
            forall|i: int| 0 <= i < index ==> #[trigger] table@[i] == strokes@[i].segment_spec(),
            forall|i: int|
                0 <= i < index ==> (#[trigger] table@[i]).is_sound() && table@[i].len_sq > 0,
        decreases strokes@.len() - index,
    {
        let segment = strokes[index].segment();
        table.push(segment);
        index = index + 1;
    }
    assert(table@ =~= letter_segments());
    table
}

/// `STROKE_TEXT` encodes exactly the strokes of `letter_strokes`.
pub proof fn lemma_stroke_text()
    ensures
        STROKE_TEXT.spec_bytes().len() == 60,
        strokes_of(STROKE_TEXT.spec_bytes()) == letter_strokes(),
{
    reveal_strlit("5O5_5W9W5_9_AOEOCOC_A_E_IOQ_I_QOUOY_Y_]OWW[WaOa_aWeWa_e_cWiO");
    let text = STROKE_TEXT;
    assert(vstd::string::is_ascii(text));
    vstd::string::is_ascii_spec_bytes(text);
    assert(strokes_of(text.spec_bytes()) =~= letter_strokes());
}

/// No stroke of the lettering has length zero.
pub proof fn lemma_letter_strokes_proper()
    ensures
        letter_strokes().len() == 15,
        forall|i: int| 0 <= i < 15 ==> (#[trigger] letter_strokes()[i]).is_proper(),
{
}

} // verus!
