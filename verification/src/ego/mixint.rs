//! Mixed variables: from the values that the caller works with to the
//! coordinates that the surrogates work with, and back.
//!
//! A real variable keeps its value. A variable of any other type has a
//! finite number of levels, and its value is carried as the number of its
//! level: the distance to the lower bound for an integer, the place in the
//! list for an ordered value, the place of the label for a label.
use crate::ego::types::increasing;
use crate::ego::types::Xtype;
use crate::moe::clustering::argmax;
use crate::moe::clustering::argmax_upto;
use crate::moe::clustering::spec_argmax;
use crate::scalar::Scalar;
use crate::scalar::ONE_BITS;
use vstd::prelude::*;

verus! {

/// A value of one variable, as the caller sees it.
#[derive(Clone, Copy, Debug, PartialEq, Eq, Structural)]
pub enum XValue {
    /// A real number.
    Cont(Scalar),
    /// An integer.
    Int(i32),
    /// One of the integers of an ordered list.
    Ord(i32),
    /// A label, by its place in the list of labels.
    Enum(usize),
}

/// A value of one variable, as the surrogates see it.
#[derive(Clone, Copy, Debug, PartialEq, Eq, Structural)]
pub enum Coord {
    /// A real number.
    Real(Scalar),
    /// The level of a variable that has levels, counted from zero.
    Level(usize),
}

/// The first place at or after `from` where `list` holds `v`; the length of
/// `list` where there is none.
pub open spec fn position(list: Seq<i32>, v: i32, from: int) -> int
    decreases list.len() - from,
{
    if from < 0 || from >= list.len() {
        list.len() as int
    } else if list[from] == v {
        from
    } else {
        position(list, v, from + 1)
    }
}

/// `position` finds `v` where `list` holds it, and nothing before.
pub proof fn lemma_position(list: Seq<i32>, v: i32, from: int)
    requires
        0 <= from <= list.len(),
    ensures
        from <= position(list, v, from) <= list.len(),
        position(list, v, from) < list.len() ==> list[position(list, v, from)] == v,
        forall|j: int| from <= j < position(list, v, from) ==> list[j] != v,
    decreases list.len() - from,
{
    if from < list.len() && list[from] != v {
        lemma_position(list, v, from + 1);
    }
}

/// In a list that increases, a value stands at one place only.
pub proof fn lemma_position_of_entry(list: Seq<i32>, k: int)
    requires
        increasing(list),
        0 <= k < list.len(),
    ensures
        position(list, list[k], 0) == k,
{
    lemma_position(list, list[k], 0);
    let p = position(list, list[k], 0);
    if p < k {
        assert(list[p] < list[k]);
    } else if p > k {
        assert(list[k] != list[k]);
    }
}

impl Xtype {
    /// Number of levels of the variable; a real variable has none.
    pub open spec fn levels(self) -> nat {
        match self {
            Xtype::Cont(lo, hi) => 0,
            Xtype::Int(lo, hi) => if lo <= hi {
                (hi - lo + 1) as nat
            } else {
                0
            },
            Xtype::Ord(list) => list@.len(),
            Xtype::Enum(tags) => tags@.len(),
        }
    }

    /// The variable may take the value `v`.
    pub open spec fn admits(self, v: XValue) -> bool {
        match (self, v) {
            (Xtype::Cont(lo, hi), XValue::Cont(x)) => lo.spec_le(x) && x.spec_le(hi),
            (Xtype::Int(lo, hi), XValue::Int(k)) => lo <= k <= hi,
            (Xtype::Ord(list), XValue::Ord(k)) => list@.contains(k),
            (Xtype::Enum(tags), XValue::Enum(i)) => i < tags@.len(),
            _ => false,
        }
    }

    /// The variable has the coordinate `c`.
    pub open spec fn has_coord(self, c: Coord) -> bool {
        match (self, c) {
            (Xtype::Cont(lo, hi), Coord::Real(x)) => lo.spec_le(x) && x.spec_le(hi),
            (Xtype::Cont(lo, hi), Coord::Level(k)) => false,
            (_, Coord::Level(k)) => k < self.levels(),
            _ => false,
        }
    }

    /// The coordinate of a value that the variable may take.
    pub open spec fn spec_encode(self, v: XValue) -> Coord {
        match (self, v) {
            (Xtype::Int(lo, hi), XValue::Int(k)) => Coord::Level((k - lo) as usize),
            (Xtype::Ord(list), XValue::Ord(k)) => Coord::Level(position(list@, k, 0) as usize),
            (_, XValue::Enum(i)) => Coord::Level(i),
            (_, XValue::Cont(x)) => Coord::Real(x),
            (_, XValue::Int(k)) => Coord::Level(0),
            (_, XValue::Ord(k)) => Coord::Level(0),
        }
    }

    /// The value that a coordinate of the variable stands for.
    pub open spec fn spec_decode(self, c: Coord) -> XValue {
        match (self, c) {
            (Xtype::Int(lo, hi), Coord::Level(k)) => XValue::Int((lo + k) as i32),
            (Xtype::Ord(list), Coord::Level(k)) => XValue::Ord(list@[k as int]),
            (_, Coord::Level(k)) => XValue::Enum(k),
            (_, Coord::Real(x)) => XValue::Cont(x),
        }
    }

    /// The coordinate of the value `v`; `None` when the variable may not
    /// take it.
    pub fn encode(&self, v: &XValue) -> (r: Option<Coord>)
        ensures
            r.is_some() <==> self.admits(*v),
            r.is_some() ==> r.unwrap() == self.spec_encode(*v) && self.has_coord(r.unwrap()),
    {
        match (self, v) {
            (Xtype::Cont(lo, hi), XValue::Cont(x)) => {
                if lo.le(x) && x.le(hi) {
                    Some(Coord::Real(*x))
                } else {
                    None
                }
            },
            (Xtype::Int(lo, hi), XValue::Int(k)) => {
                if *lo <= *k && *k <= *hi {
                    let level: i64 = *k as i64 - *lo as i64;
                    Some(Coord::Level(level as usize))
                } else {
                    None
                }
            },
            (Xtype::Ord(list), XValue::Ord(k)) => {
                let mut i: usize = 0;
                while i < list.len()
                    invariant
                        *self == Xtype::Ord(*list),
                        *v == XValue::Ord(*k),
                        i <= list.len(),
                        position(list@, *k, 0) == position(list@, *k, i as int),
                        forall|j: int| 0 <= j < i ==> list@[j] != *k,
                    decreases list.len() - i,
                {
                    if list[i] == *k {
                        assert(list@.contains(*k));
                        return Some(Coord::Level(i));
                    }
                    i = i + 1;
                }
                None
            },
            (Xtype::Enum(tags), XValue::Enum(i)) => {
                if *i < tags.len() {
                    Some(Coord::Level(*i))
                } else {
                    None
                }
            },
            _ => None,
        }
    }

    /// The value that the coordinate `c` stands for; `None` when the
    /// variable has no such coordinate.
    pub fn decode(&self, c: &Coord) -> (r: Option<XValue>)
        ensures
            r.is_some() <==> self.has_coord(*c),
            r.is_some() ==> r.unwrap() == self.spec_decode(*c) && self.admits(r.unwrap()),
    {
        match (self, c) {
            (Xtype::Cont(lo, hi), Coord::Real(x)) => {
                if lo.le(x) && x.le(hi) {
                    Some(XValue::Cont(*x))
                } else {
                    None
                }
            },
            (Xtype::Int(lo, hi), Coord::Level(k)) => {
                if *lo <= *hi && (*k as u64) <= (*hi as i64 - *lo as i64) as u64 {
                    let value: i64 = *lo as i64 + *k as i64;
                    Some(XValue::Int(value as i32))
                } else {
                    None
                }
            },
            (Xtype::Ord(list), Coord::Level(k)) => {
                if *k < list.len() {
                    assert(list@.contains(list@[*k as int]));
                    Some(XValue::Ord(list[*k]))
                } else {
                    None
                }
            },
            (Xtype::Enum(tags), Coord::Level(k)) => {
                if *k < tags.len() {
                    Some(XValue::Enum(*k))
                } else {
                    None
                }
            },
            _ => None,
        }
    }
}

/// Decoding undoes encoding: a value that the variable may take comes back
/// from its coordinate as it went in.
pub proof fn lemma_decode_encode(xtype: Xtype, v: XValue)
    requires
        xtype.admits(v),
    ensures
        xtype.has_coord(xtype.spec_encode(v)),
        xtype.spec_decode(xtype.spec_encode(v)) == v,
{
    match (xtype, v) {
        (Xtype::Ord(list), XValue::Ord(k)) => {
            lemma_position(list@, k, 0);
            let j = choose|j: int| 0 <= j < list@.len() && list@[j] == k;
            assert(position(list@, k, 0) <= j);
            assert(list.len() == list@.len());
        },
        _ => {},
    }
}

/// Encoding undoes decoding, for a variable that has a value to take: a
/// coordinate of the variable comes back from its value as it went in.
pub proof fn lemma_encode_decode(xtype: Xtype, c: Coord)
    requires
        xtype.valid(),
        xtype.has_coord(c),
    ensures
        xtype.admits(xtype.spec_decode(c)),
        xtype.spec_encode(xtype.spec_decode(c)) == c,
{
    match (xtype, c) {
        (Xtype::Ord(list), Coord::Level(k)) => {
            lemma_position_of_entry(list@, k as int);
            assert(list@.contains(list@[k as int]));
            assert(list.len() == list@.len());
        },
        _ => {},
    }
}

/// The coordinates of level `level` of a variable that takes one of `n`
/// labels: one in the place of the level, zero in every other place.
pub open spec fn spec_one_hot(level: nat, n: nat) -> Seq<Scalar> {
    Seq::new(
        n,
        |i: int|
            if i == level {
                Scalar::pattern(ONE_BITS)
            } else {
                Scalar::origin()
            },
    )
}

/// The coordinates of level `level` of a variable that takes one of `n`
/// labels; `None` when there is no such level.
pub fn one_hot(level: usize, n: usize) -> (r: Option<Vec<Scalar>>)
    ensures
        r.is_some() <==> level < n,
        r.is_some() ==> r.unwrap()@ == spec_one_hot(level as nat, n as nat),
{
    if level >= n {
        return None;
    }
    let mut coords: Vec<Scalar> = Vec::new();
    let mut i: usize = 0;
    while i < n
        invariant
            i <= n,
            coords@ == spec_one_hot(level as nat, i as nat),
        decreases n - i,
    {
        if i == level {
            coords.push(Scalar { bits: ONE_BITS });
        } else {
            coords.push(Scalar { bits: 0 });
        }
        i = i + 1;
        assert(coords@ =~= spec_one_hot(level as nat, i as nat));
    }
    Some(coords)
}

/// The level that the coordinates of a variable that takes labels stand
/// for: the place of the largest of them, the first one where several are
/// largest. `None` when there is no coordinate.
pub fn hot_level(coords: &Vec<Scalar>) -> (r: Option<usize>)
    ensures
        r.is_some() <==> coords@.len() > 0,
        r.is_some() ==> r.unwrap() == spec_argmax(coords@) && r.unwrap() < coords@.len(),
{
    argmax(coords)
}

/// Among the first `upto` coordinates of a level, the largest stands in the
/// place of the level once that place is among them.
pub proof fn lemma_one_hot_upto(level: nat, n: nat, upto: nat)
    requires
        level < n,
        upto <= n,
    ensures
        argmax_upto(spec_one_hot(level, n), upto) == (if upto > level {
            level as int
        } else {
            0
        }),
    decreases upto,
{
    if upto > 1 {
        lemma_one_hot_upto(level, n, (upto - 1) as nat);
    }
}

/// The level comes back from its coordinates.
pub proof fn lemma_hot_level_of_one_hot(level: nat, n: nat)
    requires
        level < n,
    ensures
        spec_argmax(spec_one_hot(level, n)) == level,
{
    lemma_one_hot_upto(level, n, n);
}

} // verus!
