use vstd::prelude::*;

verus! {

/// A value that is copied and compared as a whole, through a mathematical
/// model: two values are field-for-field identical exactly when their models
/// are equal.
pub trait Snapshot: Sized {
    type M;

    spec fn model(&self) -> Self::M;

    /// A deep copy.
    fn duplicate(&self) -> (r: Self)
        ensures
            r.model() == self.model(),
    ;

    /// Field-for-field comparison.
    fn is_same(&self, other: &Self) -> (r: bool)
        ensures
            r == (self.model() == other.model()),
    ;
}

impl Snapshot for String {
    type M = Seq<char>;

    open spec fn model(&self) -> Seq<char> {
        self@
    }

    fn duplicate(&self) -> (r: String) {
        self.clone()
    }

    fn is_same(&self, other: &String) -> (r: bool) {
        self.eq(other)
    }
}

impl Snapshot for i64 {
    type M = i64;

    open spec fn model(&self) -> i64 {
        *self
    }

    fn duplicate(&self) -> (r: i64) {
        *self
    }

    fn is_same(&self, other: &i64) -> (r: bool) {
        *self == *other
    }
}

impl Snapshot for i32 {
    type M = i32;

    open spec fn model(&self) -> i32 {
        *self
    }

    fn duplicate(&self) -> (r: i32) {
        *self
    }

    fn is_same(&self, other: &i32) -> (r: bool) {
        *self == *other
    }
}

impl Snapshot for u32 {
    type M = u32;

    open spec fn model(&self) -> u32 {
        *self
    }

    fn duplicate(&self) -> (r: u32) {
        *self
    }

    fn is_same(&self, other: &u32) -> (r: bool) {
        *self == *other
    }
}

impl Snapshot for bool {
    type M = bool;

    open spec fn model(&self) -> bool {
        *self
    }

    fn duplicate(&self) -> (r: bool) {
        *self
    }

    fn is_same(&self, other: &bool) -> (r: bool) {
        *self == *other
    }
}

impl<T: Snapshot> Snapshot for Option<T> {
    type M = Option<T::M>;

    open spec fn model(&self) -> Option<T::M> {
        match self {
            Some(x) => Some(x.model()),
            None => None,
        }
    }

    fn duplicate(&self) -> (r: Option<T>) {
        match self {
            Some(x) => Some(x.duplicate()),
            None => None,
        }
    }

    fn is_same(&self, other: &Option<T>) -> (r: bool) {
        match (self, other) {
            (Some(x), Some(y)) => x.is_same(y),
            (None, None) => true,
            _ => false,
        }
    }
}

impl<A: Snapshot, B: Snapshot> Snapshot for (A, B) {
    type M = (A::M, B::M);

    open spec fn model(&self) -> (A::M, B::M) {
        (self.0.model(), self.1.model())
    }

    fn duplicate(&self) -> (r: (A, B)) {
        (self.0.duplicate(), self.1.duplicate())
    }

    fn is_same(&self, other: &(A, B)) -> (r: bool) {
        self.0.is_same(&other.0) && self.1.is_same(&other.1)
    }
}

/// The models of a sequence of values, in order.
pub open spec fn models<T: Snapshot>(s: Seq<T>) -> Seq<T::M> {
    s.map_values(|x: T| x.model())
}

impl<T: Snapshot> Snapshot for Vec<T> {
    type M = Seq<T::M>;

    open spec fn model(&self) -> Seq<T::M> {
        models(self@)
    }

    fn duplicate(&self) -> (r: Vec<T>) {
        let mut r: Vec<T> = Vec::new();
        let mut i: usize = 0;
        while i < self.len()
            invariant
                i <= self@.len(),
                r@.len() == i,
                forall|j: int| 0 <= j < i ==> r@[j].model() == self@[j].model(),
            decreases self@.len() - i,
        {
            r.push(self[i].duplicate());
            i = i + 1;
        }
        proof {
            assert(models(r@) =~= models(self@));
        }
        r
    }

    fn is_same(&self, other: &Vec<T>) -> (r: bool) {
        if self.len() != other.len() {
            proof {
                assert(models(self@).len() != models(other@).len());
            }
            return false;
        }
        let mut i: usize = 0;
        while i < self.len()
            invariant
                i <= self@.len(),
                self@.len() == other@.len(),
                forall|j: int| 0 <= j < i ==> self@[j].model() == other@[j].model(),
            decreases self@.len() - i,
        {
            if !self[i].is_same(&other[i]) {
                proof {
                    assert(models(self@)[i as int] != models(other@)[i as int]);
                }
                return false;
            }
            i = i + 1;
        }
        proof {
            assert(models(self@) =~= models(other@));
        }
        true
    }
}

} // verus!
