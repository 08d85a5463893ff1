//! The numeric parameters of a control sequence.

use vstd::prelude::*;

verus! {

/// At most this many parameters are kept; what follows is discarded.
pub const PARAMS_MAX: usize = 17;

/// A parameter list as a mathematical value.
pub struct ParamsModel {
    pub ints: Seq<i32>,
    /// Whether the last number is still accumulating digits.
    pub open: bool,
}

impl ParamsModel {
    pub open spec fn wf(self) -> bool {
        &&& self.ints.len() <= PARAMS_MAX
        &&& forall|i: int| 0 <= i < self.ints.len() ==> #[trigger] self.ints[i] >= 0
        &&& self.open ==> self.ints.len() > 0
    }

    pub open spec fn empty() -> ParamsModel {
        ParamsModel { ints: Seq::empty(), open: false }
    }

    /// `last` with one more decimal digit, unless that overflows.
    pub open spec fn with_digit(last: i32, digit: u8) -> i32 {
        if last * 10 + digit <= i32::MAX {
            (last * 10 + digit) as i32
        } else {
            last
        }
    }

    /// A digit extends the number that is accumulating, or starts a new one.
    /// Once the list is full, digits are dropped.
    pub open spec fn push_digit(self, digit: u8) -> ParamsModel {
        if self.ints.len() >= PARAMS_MAX {
            self
        } else {
            let ints = if self.open {
                self.ints
            } else {
                self.ints.push(0)
            };
            let last = ints.len() - 1;
            ParamsModel { ints: ints.update(last, Self::with_digit(ints[last], digit)), open: true }
        }
    }

    /// A separator closes the number that is accumulating.
    pub open spec fn next(self) -> ParamsModel {
        if self.open && self.ints.len() < PARAMS_MAX {
            ParamsModel { ints: self.ints, open: false }
        } else {
            self
        }
    }

    /// The parameter at `index`; `default` where it is absent or zero.
    pub open spec fn get(self, index: int, default: i32) -> i32 {
        if 0 <= index < self.ints.len() && self.ints[index] != 0 {
            self.ints[index]
        } else {
            default
        }
    }
}

#[derive(Debug)]
pub struct Params {
    ints: Vec<i32>,
    open: bool,
}

impl View for Params {
    type V = ParamsModel;

    closed spec fn view(&self) -> ParamsModel {
        ParamsModel { ints: self.ints@, open: self.open }
    }
}

impl Params {
    pub fn new() -> (p: Params)
        ensures
            p@ == ParamsModel::empty(),
    {
        Params { ints: Vec::new(), open: false }
    }

    pub fn push_digit(&mut self, digit: u8)
        requires
            old(self)@.wf(),
            digit <= 9,
        ensures
            final(self)@ == old(self)@.push_digit(digit),
            final(self)@.wf(),
    {
        if self.ints.len() > 16 {
            return ;
        }
        if !self.open {
            self.ints.push(0);
        }
        let at = self.ints.len() - 1;
        let last = self.ints[at];
        if last <= (i32::MAX - 9) / 10 {
            self.ints[at] = last * 10 + digit as i32;
        } else if last == i32::MAX / 10 && digit <= 7 {
            self.ints[at] = last * 10 + digit as i32;
        }
        self.open = true;
        proof {
            assert(final(self)@.ints =~= old(self)@.push_digit(digit).ints);
        }
    }

    pub fn next(&mut self)
        ensures
            final(self)@ == old(self)@.next(),
            old(self)@.wf() ==> final(self)@.wf(),
    {
        if self.open && self.ints.len() <= 16 {
            self.open = false;
        }
    }

    pub fn get(&self, index: usize, default: i32) -> (r: i32)
        ensures
            r == self@.get(index as int, default),
    {
        if index < self.ints.len() && self.ints[index] != 0 {
            self.ints[index]
        } else {
            default
        }
    }

    pub fn len(&self) -> (n: usize)
        ensures
            n == self@.ints.len(),
    {
        self.ints.len()
    }

    /// The parameter at `index`, as written.
    pub fn at(&self, index: usize) -> (r: i32)
        requires
            index < self@.ints.len(),
        ensures
            r == self@.ints[index as int],
    {
        self.ints[index]
    }

    pub fn clear(&mut self)
        ensures
            final(self)@ == ParamsModel::empty(),
    {
        self.ints.clear();
        self.open = false;
    }
}

} // verus!
