use crate::calendar::Fields;
use crate::convert::{decimal, is_digit, lemma_decimal_is_digits, Serialize};
use crate::rand::{draw, xorshift_nth, XorShift};
use vstd::prelude::*;

verus! {

/// The number of characters on the display.
pub const DISPLAY_WIDTH: usize = 17;

/// The number of fields on the display.
pub const FIELD_COUNT: usize = 7;

/// The place of the first character of the field `field`; for the count of
/// fields, the width of the display.
pub open spec fn field_start(field: int) -> int {
    if field <= 0 {
        0
    } else if field == 1 {
        4
    } else if field == 2 {
        6
    } else if field == 3 {
        8
    } else if field == 4 {
        10
    } else if field == 5 {
        12
    } else if field == 6 {
        14
    } else {
        17
    }
}

/// The number of characters of the field `field`.
pub open spec fn field_width(field: int) -> int {
    field_start(field + 1) - field_start(field)
}

/// The field that the character at `place` belongs to.
pub open spec fn field_of(place: int) -> int {
    if place < 4 {
        0
    } else if place < 6 {
        1
    } else if place < 8 {
        2
    } else if place < 10 {
        3
    } else if place < 12 {
        4
    } else if place < 14 {
        5
    } else {
        6
    }
}

/// The bound below which the noise of the field `field` is drawn: the draws
/// come from 1 up to, and without, this bound.
pub open spec fn noise_bound(field: int) -> int {
    if field <= 0 {
        9999
    } else if field == 1 {
        12
    } else if field == 2 {
        30
    } else if field == 3 {
        24
    } else if field == 4 {
        60
    } else if field == 5 {
        60
    } else {
        999
    }
}

/// The character that stands at `place` once the fields from `first` on have
/// been redrawn, one draw for each in display order, by a generator that
/// starts in `state`.
pub open spec fn noise_at(state: u32, first: int, place: int) -> u8 {
    let field = field_of(place);
    let value = draw(xorshift_nth(state, (field - first) as nat), 1, noise_bound(field) as u32);
    decimal(value as nat, field_width(field) as nat)[place - field_start(field)]
}

/// The display `before` with the fields from `first` on redrawn by a
/// generator that starts in `state`.
pub open spec fn scrambled(before: Seq<u8>, state: u32, first: int) -> Seq<u8> {
    Seq::new(
        DISPLAY_WIDTH as nat,
        |place: int|
            if place < field_start(first) {
                before[place]
            } else {
                noise_at(state, first, place)
            },
    )
}

/// The display `before` with its first `count` characters taken from `target`.
pub open spec fn unveiled(before: Seq<u8>, target: Seq<u8>, count: int) -> Seq<u8> {
    Seq::new(
        DISPLAY_WIDTH as nat,
        |place: int|
            if place < count {
                target[place]
            } else {
                before[place]
            },
    )
}

fn start_of(field: usize) -> (start: usize)
    requires
        field <= FIELD_COUNT,
    ensures
        start == field_start(field as int),
{
    if field == 0 {
        0
    } else if field == 1 {
        4
    } else if field == 2 {
        6
    } else if field == 3 {
        8
    } else if field == 4 {
        10
    } else if field == 5 {
        12
    } else if field == 6 {
        14
    } else {
        17
    }
}

fn bound_of(field: usize) -> (bound: u32)
    requires
        field < FIELD_COUNT,
    ensures
        bound == noise_bound(field as int),
{
    if field == 0 {
        9999
    } else if field == 1 {
        12
    } else if field == 2 {
        30
    } else if field == 3 {
        24
    } else if field == 4 {
        60
    } else if field == 5 {
        60
    } else {
        999
    }
}

/// The display: seventeen ASCII digits in seven fields, year (4), month (2),
/// day (2), hour (2), minute (2), second (2) and millisecond (3).
#[derive(Debug)]
pub struct Device {
    data: [u8; 17],
}

impl View for Device {
    type V = Seq<u8>;

    closed spec fn view(&self) -> Seq<u8> {
        self.data@
    }
}

impl Device {
    /// Every character on the display is a digit.
    pub open spec fn wf(&self) -> bool {
        &&& self@.len() == DISPLAY_WIDTH
        &&& forall|i: int| 0 <= i < DISPLAY_WIDTH ==> is_digit(#[trigger] self@[i])
    }

    /// The characters on the display.
    pub fn data(&self) -> (data: &[u8; 17])
        ensures
            data@ == self@,
    {
        &self.data
    }

    /// Shows the seven fields, each as a numeral of its field's width.
    pub fn show(&mut self, fields: &Fields)
        requires
            fields.year >= 0,
        ensures
            final(self)@ == fields.numeral(),
            final(self).wf(),
    {
        let (year, rest) = self.data.split_at_mut(4);
        let (month, rest) = rest.split_at_mut(2);
        let (day, rest) = rest.split_at_mut(2);
        let (hour, rest) = rest.split_at_mut(2);
        let (minute, rest) = rest.split_at_mut(2);
        let (second, millisecond) = rest.split_at_mut(2);
        fields.year.serialize(year);
        fields.month.serialize(month);
        fields.day.serialize(day);
        fields.hour.serialize(hour);
        fields.minute.serialize(minute);
        fields.second.serialize(second);
        fields.millisecond.serialize(millisecond);
        proof {
            fields.lemma_numeral_is_digits();
        }
    }
}

impl Device {
    /// Redraws the fields from `first` on with noise: one draw for each field,
    /// in display order, shown as a numeral of the field's width.
    pub fn scramble(&mut self, rng: &mut XorShift, first: usize)
        requires
            old(self).wf(),
            old(rng).wf(),
            first <= FIELD_COUNT,
        ensures
            final(self)@ == scrambled(old(self)@, old(rng).state(), first as int),
            final(self).wf(),
            final(rng).state() == xorshift_nth(old(rng).state(), (FIELD_COUNT - first) as nat),
            final(rng).wf(),
    {
        let ghost before = self@;
        let ghost state = rng.state();
        let mut field = first;
        while field < FIELD_COUNT
            invariant
                first <= field <= FIELD_COUNT,
                self.wf(),
                rng.wf(),
                rng.state() == xorshift_nth(state, (field - first) as nat),
                forall|place: int|
                    0 <= place < field_start(first as int) ==> self@[place] == before[place],
                forall|place: int|
                    field_start(first as int) <= place < field_start(field as int) ==> self@[place]
                        == noise_at(state, first as int, place),
            decreases FIELD_COUNT - field,
        {
            let start = start_of(field);
            let width = start_of(field + 1) - start;
            let value = rng.rand_range(1..bound_of(field));
            let ghost shown = self@;
            let (_, tail) = self.data.split_at_mut(start);
            let (window, _) = tail.split_at_mut(width);
            value.serialize(window);
            proof {
                lemma_decimal_is_digits(value as nat, width as nat);
                assert forall|place: int| 0 <= place < DISPLAY_WIDTH implies self@[place] == (if start
                    <= place < start + width {
                    decimal(value as nat, width as nat)[place - start]
                } else {
                    shown[place]
                }) by {}
                assert forall|place: int| start <= place < start + width implies field_of(place)
                    == field by {}
            }
            field += 1;
        }
        assert(self@ =~= scrambled(before, state, first as int));
    }

    /// Takes the first `count` characters over from `target`.
    pub fn unveil(&mut self, target: &Device, count: usize)
        requires
            old(self).wf(),
            target.wf(),
            count <= DISPLAY_WIDTH,
        ensures
            final(self)@ == unveiled(old(self)@, target@, count as int),
            final(self).wf(),
    {
        let ghost before = self@;
        let mut place: usize = 0;
        while place < count
            invariant
                place <= count <= DISPLAY_WIDTH,
                target.wf(),
                self@.len() == DISPLAY_WIDTH,
                forall|i: int| 0 <= i < place ==> self@[i] == target@[i],
                forall|i: int| place <= i < DISPLAY_WIDTH ==> self@[i] == before[i],
            decreases count - place,
        {
            self.data[place] = target.data[place];
            place += 1;
        }
        assert(self@ =~= unveiled(before, target@, count as int));
    }
}

impl Default for Device {
    /// A display that shows zeros.
    fn default() -> (device: Self)
        ensures
            device@ == Seq::new(DISPLAY_WIDTH as nat, |i: int| 48u8),
            device.wf(),
    {
        Device { data: [48u8; 17] }
    }
}

} // verus!
