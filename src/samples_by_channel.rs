use vstd::prelude::*;

verus! {

/// One optional value per speaker position, in canonical order. In a frame read
/// from or written to a file, exactly the positions present in the file hold a
/// value.
#[derive(Debug, Clone, Copy, PartialEq, Eq)]
pub struct SamplesByChannel<T> {
    pub front_left: Option<T>,
    pub front_right: Option<T>,
    pub front_center: Option<T>,
    pub low_frequency: Option<T>,
    pub back_left: Option<T>,
    pub back_right: Option<T>,
    pub front_left_of_center: Option<T>,
    pub front_right_of_center: Option<T>,
    pub back_center: Option<T>,
    pub side_left: Option<T>,
    pub side_right: Option<T>,
    pub top_center: Option<T>,
    pub top_front_left: Option<T>,
    pub top_front_center: Option<T>,
    pub top_front_right: Option<T>,
    pub top_back_left: Option<T>,
    pub top_back_center: Option<T>,
    pub top_back_right: Option<T>,
}

/// The values held in `s`, in order.
pub open spec fn present_values<T>(s: Seq<Option<T>>) -> Seq<T>
    decreases s.len(),
{
    if s.len() == 0 {
        Seq::empty()
    } else {
        present_values(s.drop_last()) + match s.last() {
            Some(v) => seq![v],
            None => Seq::empty(),
        }
    }
}

impl<T: Copy> SamplesByChannel<T> {
    /// The slots in canonical order.
    pub open spec fn slots(self) -> Seq<Option<T>> {
        seq![
            self.front_left,
            self.front_right,
            self.front_center,
            self.low_frequency,
            self.back_left,
            self.back_right,
            self.front_left_of_center,
            self.front_right_of_center,
            self.back_center,
            self.side_left,
            self.side_right,
            self.top_center,
            self.top_front_left,
            self.top_front_center,
            self.top_front_right,
            self.top_back_left,
            self.top_back_center,
            self.top_back_right,
        ]
    }

    /// A frame with no value in any position.
    pub fn new() -> (r: SamplesByChannel<T>)
        ensures
            forall|i: int| 0 <= i < 18 ==> #[trigger] r.slots()[i] is None,
    {
        SamplesByChannel {
            front_left: None,
            front_right: None,
            front_center: None,
            low_frequency: None,
            back_left: None,
            back_right: None,
            front_left_of_center: None,
            front_right_of_center: None,
            back_center: None,
            side_left: None,
            side_right: None,
            top_center: None,
            top_front_left: None,
            top_front_center: None,
            top_front_right: None,
            top_back_left: None,
            top_back_center: None,
            top_back_right: None,
        }
    }

    /// Sets the front left value.
    pub fn front_left(self, sample: T) -> (r: SamplesByChannel<T>)
        ensures
            r.slots() == self.slots().update(0, Some(sample)),
    {
        let mut r = self;
        r.front_left = Some(sample);
        assert(r.slots() =~= self.slots().update(0, Some(sample)));
        r
    }

    /// Sets the front right value.
    pub fn front_right(self, sample: T) -> (r: SamplesByChannel<T>)
        ensures
            r.slots() == self.slots().update(1, Some(sample)),
    {
        let mut r = self;
        r.front_right = Some(sample);
        assert(r.slots() =~= self.slots().update(1, Some(sample)));
        r
    }

    /// Sets the front center value.
    pub fn front_center(self, sample: T) -> (r: SamplesByChannel<T>)
        ensures
            r.slots() == self.slots().update(2, Some(sample)),
    {
        let mut r = self;
        r.front_center = Some(sample);
        assert(r.slots() =~= self.slots().update(2, Some(sample)));
        r
    }

    /// Sets the low frequency value.
    pub fn low_frequency(self, sample: T) -> (r: SamplesByChannel<T>)
        ensures
            r.slots() == self.slots().update(3, Some(sample)),
    {
        let mut r = self;
        r.low_frequency = Some(sample);
        assert(r.slots() =~= self.slots().update(3, Some(sample)));
        r
    }

    /// Sets the back left value.
    pub fn back_left(self, sample: T) -> (r: SamplesByChannel<T>)
        ensures
            r.slots() == self.slots().update(4, Some(sample)),
    {
        let mut r = self;
        r.back_left = Some(sample);
        assert(r.slots() =~= self.slots().update(4, Some(sample)));
        r
    }

    /// Sets the back right value.
    pub fn back_right(self, sample: T) -> (r: SamplesByChannel<T>)
        ensures
            r.slots() == self.slots().update(5, Some(sample)),
    {
        let mut r = self;
        r.back_right = Some(sample);
        assert(r.slots() =~= self.slots().update(5, Some(sample)));
        r
    }

    /// Sets the front left of center value.
    pub fn front_left_of_center(self, sample: T) -> (r: SamplesByChannel<T>)
        ensures
            r.slots() == self.slots().update(6, Some(sample)),
    {
        let mut r = self;
        r.front_left_of_center = Some(sample);
        assert(r.slots() =~= self.slots().update(6, Some(sample)));
        r
    }

    /// Sets the front right of center value.
    pub fn front_right_of_center(self, sample: T) -> (r: SamplesByChannel<T>)
        ensures
            r.slots() == self.slots().update(7, Some(sample)),
    {
        let mut r = self;
        r.front_right_of_center = Some(sample);
        assert(r.slots() =~= self.slots().update(7, Some(sample)));
        r
    }

    /// Sets the back center value.
    pub fn back_center(self, sample: T) -> (r: SamplesByChannel<T>)
        ensures
            r.slots() == self.slots().update(8, Some(sample)),
    {
        let mut r = self;
        r.back_center = Some(sample);
        assert(r.slots() =~= self.slots().update(8, Some(sample)));
        r
    }

    /// Sets the side left value.
    pub fn side_left(self, sample: T) -> (r: SamplesByChannel<T>)
        ensures
            r.slots() == self.slots().update(9, Some(sample)),
    {
        let mut r = self;
        r.side_left = Some(sample);
        assert(r.slots() =~= self.slots().update(9, Some(sample)));
        r
    }

    /// Sets the side right value.
    pub fn side_right(self, sample: T) -> (r: SamplesByChannel<T>)
        ensures
            r.slots() == self.slots().update(10, Some(sample)),
    {
        let mut r = self;
        r.side_right = Some(sample);
        assert(r.slots() =~= self.slots().update(10, Some(sample)));
        r
    }

    /// Sets the top center value.
    pub fn top_center(self, sample: T) -> (r: SamplesByChannel<T>)
        ensures
            r.slots() == self.slots().update(11, Some(sample)),
    {
        let mut r = self;
        r.top_center = Some(sample);
        assert(r.slots() =~= self.slots().update(11, Some(sample)));
        r
    }

    /// Sets the top front left value.
    pub fn top_front_left(self, sample: T) -> (r: SamplesByChannel<T>)
        ensures
            r.slots() == self.slots().update(12, Some(sample)),
    {
        let mut r = self;
        r.top_front_left = Some(sample);
        assert(r.slots() =~= self.slots().update(12, Some(sample)));
        r
    }

    /// Sets the top front center value.
    pub fn top_front_center(self, sample: T) -> (r: SamplesByChannel<T>)
        ensures
            r.slots() == self.slots().update(13, Some(sample)),
    {
        let mut r = self;
        r.top_front_center = Some(sample);
        assert(r.slots() =~= self.slots().update(13, Some(sample)));
        r
    }

    /// Sets the top front right value.
    pub fn top_front_right(self, sample: T) -> (r: SamplesByChannel<T>)
        ensures
            r.slots() == self.slots().update(14, Some(sample)),
    {
        let mut r = self;
        r.top_front_right = Some(sample);
        assert(r.slots() =~= self.slots().update(14, Some(sample)));
        r
    }

    /// Sets the top back left value.
    pub fn top_back_left(self, sample: T) -> (r: SamplesByChannel<T>)
        ensures
            r.slots() == self.slots().update(15, Some(sample)),
    {
        let mut r = self;
        r.top_back_left = Some(sample);
        assert(r.slots() =~= self.slots().update(15, Some(sample)));
        r
    }

    /// Sets the top back center value.
    pub fn top_back_center(self, sample: T) -> (r: SamplesByChannel<T>)
        ensures
            r.slots() == self.slots().update(16, Some(sample)),
    {
        let mut r = self;
        r.top_back_center = Some(sample);
        assert(r.slots() =~= self.slots().update(16, Some(sample)));
        r
    }

    /// Sets the top back right value.
    pub fn top_back_right(self, sample: T) -> (r: SamplesByChannel<T>)
        ensures
            r.slots() == self.slots().update(17, Some(sample)),
    {
        let mut r = self;
        r.top_back_right = Some(sample);
        assert(r.slots() =~= self.slots().update(17, Some(sample)));
        r
    }

    /// The slots as an array, in canonical order.
    pub fn to_slots(&self) -> (r: [Option<T>; 18])
        ensures
            r@ == self.slots(),
    {
        let r = [
            self.front_left,
            self.front_right,
            self.front_center,
            self.low_frequency,
            self.back_left,
            self.back_right,
            self.front_left_of_center,
            self.front_right_of_center,
            self.back_center,
            self.side_left,
            self.side_right,
            self.top_center,
            self.top_front_left,
            self.top_front_center,
            self.top_front_right,
            self.top_back_left,
            self.top_back_center,
            self.top_back_right,
        ];
        assert(r@ =~= self.slots());
        r
    }

    /// The frame whose slots are `slots`.
    pub fn from_slots(slots: [Option<T>; 18]) -> (r: SamplesByChannel<T>)
        ensures
            r.slots() == slots@,
    {
        let r = SamplesByChannel {
            front_left: slots[0],
            front_right: slots[1],
            front_center: slots[2],
            low_frequency: slots[3],
            back_left: slots[4],
            back_right: slots[5],
            front_left_of_center: slots[6],
            front_right_of_center: slots[7],
            back_center: slots[8],
            side_left: slots[9],
            side_right: slots[10],
            top_center: slots[11],
            top_front_left: slots[12],
            top_front_center: slots[13],
            top_front_right: slots[14],
            top_back_left: slots[15],
            top_back_center: slots[16],
            top_back_right: slots[17],
        };
        assert(r.slots() =~= slots@);
        r
    }

    /// The values present, in canonical order.
    pub fn to_vec(&self) -> (r: Vec<T>)
        ensures
            r@ == present_values(self.slots()),
    {
        let slots = self.to_slots();
        let mut vec: Vec<T> = Vec::new();
        let mut i: usize = 0;
        while i < 18
            invariant
                i <= 18,
                slots@ == self.slots(),
                vec@ == present_values(slots@.subrange(0, i as int)),
            decreases 18 - i,
        {
            assert(slots@.subrange(0, i + 1).drop_last() =~= slots@.subrange(0, i as int));
            match slots[i] {
                Some(sample) => vec.push(sample),
                None => {},
            }
            i = i + 1;
        }
        assert(slots@.subrange(0, 18) =~= slots@);
        vec
    }
}

} // verus!
