//! Summaries and generic containers: a trait whose implementations state
//! exactly what text they produce, generic points, a generic maximum, and
//! an ordered number.

use core::cmp::Ordering;
use vstd::prelude::*;
use vstd::std_specs::cmp::PartialOrdSpec;
use vstd::string::StringExecFns;

verus! {

/// Something that can announce itself in one line. Each implementation
/// says, through the two specification hooks, exactly what text it
/// produces.
pub trait Summary {
    /// The summary line's text.
    spec fn spec_summary(&self) -> Seq<char>;

    /// The author credit's text.
    spec fn spec_author(&self) -> Seq<char>;

    /// The one-line summary.
    fn summarize(&self) -> (r: String)
        ensures
            r@ == self.spec_summary(),
    ;

    /// The author credit.
    fn summarize_author(&self) -> (r: String)
        ensures
            r@ == self.spec_author(),
    ;
}

/// A news story.
#[derive(Debug)]
pub struct NewsArticle {
    pub headline: String,
    pub location: String,
    pub author: String,
    pub content: String,
}

impl Summary for NewsArticle {
    open spec fn spec_summary(&self) -> Seq<char> {
        self.headline@ + ", by "@ + self.author@ + " ("@ + self.location@ + ")"@
    }

    open spec fn spec_author(&self) -> Seq<char> {
        "@"@ + self.author@
    }

    fn summarize(&self) -> (r: String) {
        let mut r = self.headline.clone();
        r.append(", by ");
        r.append(self.author.as_str());
        r.append(" (");
        r.append(self.location.as_str());
        r.append(")");
        proof {
            assert(r@ =~= self.spec_summary());
        }
        r
    }

    fn summarize_author(&self) -> (r: String) {
        let mut r = "@".to_owned();
        r.append(self.author.as_str());
        proof {
            assert(r@ =~= self.spec_author());
        }
        r
    }
}

/// A short post.
#[derive(Debug)]
pub struct Tweet {
    pub username: String,
    pub content: String,
    pub reply: bool,
    pub retweet: bool,
}

impl Summary for Tweet {
    open spec fn spec_summary(&self) -> Seq<char> {
        self.username@ + ": "@ + self.content@
    }

    open spec fn spec_author(&self) -> Seq<char> {
        "(Read more...)"@
    }

    fn summarize(&self) -> (r: String) {
        let mut r = self.username.clone();
        r.append(": ");
        r.append(self.content.as_str());
        proof {
            assert(r@ =~= self.spec_summary());
        }
        r
    }

    fn summarize_author(&self) -> (r: String) {
        "(Read more...)".to_owned()
    }
}

/// A short post with fixed example text.
pub fn returns_summarizable() -> (r: Tweet)
    ensures
        r.username@ == "horse_ebooks"@,
        r.content@ == "of course, as you probably already know, people"@,
        !r.reply,
        !r.retweet,
{
    Tweet {
        username: "horse_ebooks".to_owned(),
        content: "of course, as you probably already know, people".to_owned(),
        reply: false,
        retweet: false,
    }
}

/// A point with both coordinates of one type.
#[derive(Debug)]
pub struct Point<T> {
    pub x: T,
    pub y: T,
}

impl<T> Point<T> {
    /// The point with the given coordinates.
    pub fn new(x: T, y: T) -> (p: Point<T>)
        ensures
            p.x == x,
            p.y == y,
    {
        Point { x, y }
    }

    /// The first coordinate.
    pub fn x(&self) -> (r: &T)
        ensures
            *r == self.x,
    {
        &self.x
    }
}

/// A point whose two coordinates may differ in type.
#[derive(Debug)]
pub struct MixedPoint<T, U> {
    pub x: T,
    pub y: U,
}

impl<T, U> MixedPoint<T, U> {
    /// Crosses two points: this point's first coordinate with the other
    /// point's second.
    pub fn mixup<V, W>(self, other: MixedPoint<V, W>) -> (r: MixedPoint<T, W>)
        ensures
            r.x == self.x,
            r.y == other.y,
    {
        MixedPoint { x: self.x, y: other.y }
    }
}

/// Whether `a` compares greater than `b` under the type's own order.
pub open spec fn strictly_greater<T: PartialOrd>(a: T, b: T) -> bool {
    a.partial_cmp_spec(&b) == Some(Ordering::Greater)
}

/// The little of an order that a maximum needs: nothing exceeds itself,
/// and whatever does not exceed a value is not greater than anything that
/// does exceed it.
pub open spec fn order_consistent<T: PartialOrd>() -> bool {
    &&& forall|a: T| !strictly_greater(a, a)
    &&& forall|a: T, b: T, c: T|
        !strictly_greater(a, b) && strictly_greater(c, b) ==> !strictly_greater(a, c)
}

/// The greatest element of a non-empty slice: an element of the slice that
/// no element exceeds. The element type's order must obey its
/// specification and be consistent in the sense above, as every total
/// order is.
pub fn largest<T: PartialOrd + Copy>(list: &[T]) -> (max: T)
    requires
        list@.len() > 0,
        T::obeys_partial_cmp_spec(),
        order_consistent::<T>(),
    ensures
        exists|i: int| 0 <= i < list@.len() && list@[i] == max,
        forall|i: int| 0 <= i < list@.len() ==> !strictly_greater(#[trigger] list@[i], max),
{
    let mut max: T = list[0];
    let mut i: usize = 1;
    while i < list.len()
        invariant
            1 <= i <= list@.len(),
            T::obeys_partial_cmp_spec(),
            order_consistent::<T>(),
            exists|j: int| 0 <= j < i && list@[j] == max,
            forall|j: int| 0 <= j < i ==> !strictly_greater(#[trigger] list@[j], max),
        decreases list@.len() - i,
    {
        if list[i] > max {
            let ghost previous = max;
            max = list[i];
            proof {
                assert(strictly_greater(max, previous));
                assert forall|j: int| 0 <= j < i + 1 implies !strictly_greater(
                    #[trigger] list@[j],
                    max,
                ) by {
                    if j < i {
                        assert(!strictly_greater(list@[j], previous));
                    } else {
                        assert(list@[j] == max);
                    }
                }
            }
        }
        i = i + 1;
    }
    max
}

/// A function generic over printable, copyable inputs; its answer does not
/// depend on them.
pub fn some_function<T: Clone, U: Clone + core::fmt::Debug>(t: &T, u: &U) -> (r: i32)
    ensures
        r == 42,
{
    let _ = t;
    let _ = u;
    42
}

/// An integer compared through its own method.
pub struct Number {
    pub value: i32,
}

impl Number {
    /// How this number stands to the other: less, equal or greater.
    pub fn compare(&self, other: &Number) -> (r: Ordering)
        ensures
            r is Less <==> self.value < other.value,
            r is Equal <==> self.value == other.value,
            r is Greater <==> self.value > other.value,
    {
        if self.value < other.value {
            Ordering::Less
        } else if self.value == other.value {
            Ordering::Equal
        } else {
            Ordering::Greater
        }
    }
}

} // verus!
