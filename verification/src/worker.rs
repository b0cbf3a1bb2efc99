//! Lists on the heap, a memoising cache, work that is split by ranges and
//! items, and a counter. The work is stated part by part, so that a caller
//! may give each part to a thread of its own and must end with the same
//! result; the counter is the state that such threads share behind a lock.

use vstd::prelude::*;
use std::collections::HashMap;
use std::rc::Rc;
use crate::text::string_push_str;

verus! {

/// A list of numbers, each cell owning the rest of the list.
#[derive(Debug, PartialEq)]
pub enum List {
    Cons(i32, Box<List>),
    Nil,
}

impl List {
    /// The numbers of the list, the first cell first.
    pub open spec fn numbers(&self) -> Seq<i32>
        decreases self,
    {
        match self {
            List::Cons(head, tail) => seq![*head] + tail.numbers(),
            List::Nil => Seq::empty(),
        }
    }
}

impl View for List {
    type V = Seq<i32>;

    open spec fn view(&self) -> Seq<i32> {
        self.numbers()
    }
}

/// The sum of the numbers of `s`.
pub open spec fn total(s: Seq<i32>) -> int
    decreases s.len(),
{
    if s.len() == 0 {
        0
    } else {
        s[0] + total(s.drop_first())
    }
}

/// The sum of `s` and of each of its tails fits in an `i32`.
pub open spec fn sums_fit(s: Seq<i32>) -> bool
    decreases s.len(),
{
    s.len() == 0 || (i32::MIN <= total(s) <= i32::MAX && sums_fit(s.drop_first()))
}

impl List {
    /// The empty list.
    pub fn new() -> (r: Self)
        ensures
            r@ == Seq::<i32>::empty(),
            r is Nil,
    {
        List::Nil
    }

    /// This list with `value` put in front.
    pub fn prepend(self, value: i32) -> (r: Self)
        ensures
            r == List::Cons(value, Box::new(self)),
            r@ == seq![value] + self@,
    {
        List::Cons(value, Box::new(self))
    }

    /// The number of cells.
    pub fn len(&self) -> (r: usize)
        requires
            self@.len() <= usize::MAX,
        ensures
            r == self@.len(),
        decreases self,
    {
        match self {
            List::Cons(_, tail) => 1 + tail.len(),
            List::Nil => 0,
        }
    }

    /// Whether the list has no cell.
    pub fn is_empty(&self) -> (r: bool)
        ensures
            r == (self@.len() == 0),
            r == (self is Nil),
    {
        match self {
            List::Cons(_, _) => false,
            List::Nil => true,
        }
    }

    /// The sum of the numbers, added up from the end of the list.
    pub fn sum(&self) -> (r: i32)
        requires
            sums_fit(self@),
        ensures
            r == total(self@),
        decreases self,
    {
        match self {
            List::Cons(head, tail) => {
                assert(self@.drop_first() =~= tail@);
                let rest = tail.sum();
                *head + rest
            },
            List::Nil => 0,
        }
    }
}

impl Default for List {
    fn default() -> (r: Self)
        ensures
            r@ == Seq::<i32>::empty(),
    {
        List::new()
    }
}

/// A list of numbers whose tails may be shared by several lists.
#[derive(Debug)]
pub enum SharedList {
    Cons(i32, Rc<SharedList>),
    Nil,
}

/// Calls `Rc::strong_count`, the number of owners of the allocation. The
/// reference handed in belongs to one of them, so the number is at least 1;
/// nothing more is promised, as it depends on who else holds the list.
#[verifier::external_body]
fn strong_count_of(list: &Rc<SharedList>) -> (r: usize)
    ensures
        r >= 1,
{
    Rc::strong_count(list)
}

impl SharedList {
    /// The numbers of the list, the first cell first.
    pub open spec fn numbers(&self) -> Seq<i32>
        decreases self,
    {
        match self {
            SharedList::Cons(head, tail) => seq![*head] + tail.numbers(),
            SharedList::Nil => Seq::empty(),
        }
    }

    /// The empty list.
    pub fn new() -> (r: Rc<Self>)
        ensures
            *r is Nil,
            r.numbers() == Seq::<i32>::empty(),
    {
        Rc::new(SharedList::Nil)
    }

    /// A list of `value` followed by `list`, which it shares.
    pub fn prepend(list: Rc<Self>, value: i32) -> (r: Rc<Self>)
        ensures
            *r == SharedList::Cons(value, list),
            r.numbers() == seq![value] + list.numbers(),
    {
        Rc::new(SharedList::Cons(value, list))
    }

    /// The number of owners of the first cell of `list`: the lists that
    /// start with it or go on with it, and the variables that hold it.
    pub fn ref_count(list: &Rc<Self>) -> (r: usize)
        ensures
            r >= 1,
    {
        strong_count_of(list)
    }
}

/// Remembers what a calculation gave for each argument, and runs it once
/// for each.
pub struct Cache<T> {
    calculation: T,
    values: HashMap<u32, u32>,
}

impl<T> Cache<T> where T: Fn(u32) -> u32 {
    /// The calculation that the cache remembers.
    pub closed spec fn calculation(&self) -> T {
        self.calculation
    }

    /// The results remembered, by argument.
    pub closed spec fn values(&self) -> Map<u32, u32> {
        self.values@
    }

    /// A cache of `calculation` that remembers nothing yet.
    pub fn new(calculation: T) -> (r: Self)
        ensures
            r.calculation() == calculation,
            r.values() == Map::<u32, u32>::empty(),
    {
        Cache { calculation, values: HashMap::new() }
    }

    /// The result for `arg`: the one remembered, or else what the
    /// calculation gives now, which is then remembered.
    pub fn get(&mut self, arg: u32) -> (r: u32)
        requires
            call_requires(old(self).calculation(), (arg,)),
        ensures
            final(self).calculation() == old(self).calculation(),
            old(self).values().contains_key(arg) ==> r == old(self).values()[arg] && final(self).values() == old(self).values(),
            !old(self).values().contains_key(arg) ==> call_ensures(
                old(self).calculation(),
                (arg,),
                r,
            ) && final(self).values() == old(self).values().insert(arg, r),
    {
        match self.values.get(&arg) {
            Some(v) => *v,
            None => {
                let value = (self.calculation)(arg);
                self.values.insert(arg, value);
                value
            },
        }
    }

    /// The number of results remembered.
    pub fn cached_count(&self) -> (r: usize)
        ensures
            r == self.values().len(),
    {
        self.values.len()
    }
}

/// The sum of `count` numbers in a row, the first of them `start`; zero
/// when `count` is not positive.
pub open spec fn range_sum(start: int, count: int) -> int
    decreases count,
{
    if count <= 0 {
        0
    } else {
        range_sum(start, count - 1) + start + count - 1
    }
}

/// The sum of a range in closed form.
pub proof fn lemma_range_sum_closed_form(start: int, count: int)
    requires
        count >= 0,
    ensures
        2 * range_sum(start, count) == 2 * count * start + count * (count - 1),
    decreases count,
{
    if count > 0 {
        lemma_range_sum_closed_form(start, count - 1);
        assert(2 * (count - 1) * start + (count - 1) * (count - 2) + 2 * start + 2 * count - 2 == 2
            * count * start + count * (count - 1)) by (nonlinear_arith);
    } else {
        assert(2 * count * start + count * (count - 1) == 0) by (nonlinear_arith)
            requires
                count == 0,
        ;
    }
}

/// The sum of `count` numbers in a row, the first of them `start`, in a
/// type that has room for every such sum.
pub fn range_total(start: i32, count: i32) -> (r: i64)
    ensures
        r == range_sum(start as int, count as int),
{
    let mut acc: i64 = 0;
    let mut i: i32 = 0;
    while i < count
        invariant
            0 <= i,
            count > 0 ==> i <= count,
            count <= 0 ==> i == 0,
            acc == range_sum(start as int, i as int),
            -(i as int) * 0x8000_0000 <= acc <= (i as int) * 0x1_0000_0000,
        decreases count - i,
    {
        acc = acc + (start as i64 + i as i64);
        i = i + 1;
    }
    acc
}

/// The sum of `count` numbers in a row, the first of them `start`.
pub fn sum_range(start: i32, count: i32) -> (r: i32)
    requires
        i32::MIN <= range_sum(start as int, count as int) <= i32::MAX,
    ensures
        r == range_sum(start as int, count as int),
{
    range_total(start, count) as i32
}

/// The sum of `count` numbers in a row, the first of them `start`, or
/// `None` where the sum does not fit in an `i32`.
pub fn checked_sum_range(start: i32, count: i32) -> (r: Option<i32>)
    ensures
        r is Some <==> i32::MIN <= range_sum(start as int, count as int) <= i32::MAX,
        r matches Some(sum) ==> sum == range_sum(start as int, count as int),
{
    let total = range_total(start, count);
    if -0x8000_0000 <= total && total <= 0x7fff_ffff {
        Some(total as i32)
    } else {
        None
    }
}

/// The sum of every range, in the order of the ranges. A range is given by
/// its first number and by how many numbers it has.
pub fn parallel_sum(ranges: Vec<(i32, i32)>) -> (r: Vec<i32>)
    requires
        forall|i: int|
            0 <= i < ranges@.len() ==> i32::MIN <= #[trigger] range_sum(
                ranges@[i].0 as int,
                ranges@[i].1 as int,
            ) <= i32::MAX,
    ensures
        r@.len() == ranges@.len(),
        forall|i: int|
            0 <= i < r@.len() ==> #[trigger] r@[i] == range_sum(
                ranges@[i].0 as int,
                ranges@[i].1 as int,
            ),
{
    let mut out: Vec<i32> = Vec::new();
    let mut i: usize = 0;
    while i < ranges.len()
        invariant
            i <= ranges.len(),
            out@.len() == i,
            forall|j: int|
                0 <= j < ranges@.len() ==> i32::MIN <= #[trigger] range_sum(
                    ranges@[j].0 as int,
                    ranges@[j].1 as int,
                ) <= i32::MAX,
            forall|j: int|
                0 <= j < i ==> #[trigger] out@[j] == range_sum(
                    ranges@[j].0 as int,
                    ranges@[j].1 as int,
                ),
        decreases ranges.len() - i,
    {
        let (start, count) = ranges[i];
        assert(i32::MIN <= range_sum(ranges@[i as int].0 as int, ranges@[i as int].1 as int)
            <= i32::MAX);
        out.push(sum_range(start, count));
        i += 1;
    }
    out
}

/// The greeting for `name`.
pub open spec fn greeting(name: Seq<char>) -> Seq<char> {
    "Hello, "@ + name + "!"@
}

/// Greets `name`.
pub fn thread_greeting(name: String) -> (r: String)
    ensures
        r@ == greeting(name@),
{
    let mut out = String::new();
    string_push_str(&mut out, "Hello, ");
    string_push_str(&mut out, name.as_str());
    string_push_str(&mut out, "!");
    assert(out@ =~= greeting(name@));
    out
}

/// What one consumer gets when each of `num_producers` producers sends
/// `message` once: that many copies of it.
pub fn multi_producer_single_consumer(num_producers: usize, message: &str) -> (r: Vec<String>)
    ensures
        r@.len() == num_producers,
        forall|i: int| 0 <= i < r@.len() ==> (#[trigger] r@[i])@ == message@,
{
    let mut out: Vec<String> = Vec::new();
    let mut i: usize = 0;
    while i < num_producers
        invariant
            i <= num_producers,
            out@.len() == i,
            forall|j: int| 0 <= j < i ==> (#[trigger] out@[j])@ == message@,
        decreases num_producers - i,
    {
        out.push(message.to_owned());
        i += 1;
    }
    out
}

/// The squares of the numbers of `s`, in their order.
pub open spec fn squares(s: Seq<i32>) -> Seq<int> {
    s.map_values(|n: i32| n * n)
}

/// The numbers of `s` as mathematical integers.
pub open spec fn as_ints(s: Seq<i32>) -> Seq<int> {
    s.map_values(|n: i32| n as int)
}

/// No number of `s` is followed by a smaller one.
pub open spec fn ascending(s: Seq<i32>) -> bool {
    forall|i: int, j: int| 0 <= i <= j < s.len() ==> s[i] <= s[j]
}

/// Puts `x` into the ascending `v`, before the first number that is
/// greater.
fn insert_ascending(v: &mut Vec<i32>, x: i32)
    requires
        ascending(old(v)@),
    ensures
        ascending(final(v)@),
        as_ints(final(v)@).to_multiset() == as_ints(old(v)@).to_multiset().insert(x as int),
{
    let mut pos: usize = 0;
    while pos < v.len() && v[pos] <= x
        invariant
            pos <= v.len(),
            v@ == old(v)@,
            forall|j: int| 0 <= j < pos ==> v@[j] <= x,
        decreases v.len() - pos,
    {
        pos += 1;
    }
    v.insert(pos, x);
    proof {
        let before = as_ints(old(v)@);
        let after = as_ints(v@);
        assert(after =~= before.insert(pos as int, x as int));
        assert(after.remove(pos as int) =~= before);
        assert(after[pos as int] == x as int);
        vstd::seq_lib::to_multiset_remove(after, pos as int);
        assert(after.contains(x as int));
        after.to_multiset_ensures();
        assert(after.to_multiset() =~= before.to_multiset().insert(x as int));
    }
}

/// The squares of the numbers, in ascending order.
pub fn channel_map_square(numbers: Vec<i32>) -> (r: Vec<i32>)
    requires
        forall|i: int| 0 <= i < numbers@.len() ==> #[trigger] numbers@[i] * numbers@[i] <= i32::MAX,
    ensures
        ascending(r@),
        as_ints(r@).to_multiset() == squares(numbers@).to_multiset(),
{
    let mut out: Vec<i32> = Vec::new();
    let mut i: usize = 0;
    assert(as_ints(out@) =~= squares(numbers@.subrange(0, 0)));
    while i < numbers.len()
        invariant
            i <= numbers.len(),
            ascending(out@),
            forall|j: int|
                0 <= j < numbers@.len() ==> #[trigger] numbers@[j] * numbers@[j] <= i32::MAX,
            as_ints(out@).to_multiset() == squares(numbers@.subrange(0, i as int)).to_multiset(),
        decreases numbers.len() - i,
    {
        let n = numbers[i];
        assert(numbers@[i as int] * numbers@[i as int] <= i32::MAX);
        assert(n * n >= 0) by (nonlinear_arith);
        proof {
            let head = squares(numbers@.subrange(0, i as int));
            assert(squares(numbers@.subrange(0, i + 1)) =~= head.push(n * n));
            vstd::seq_lib::to_multiset_build(head, n * n);
        }
        insert_ascending(&mut out, n * n);
        i += 1;
    }
    assert(numbers@.subrange(0, numbers@.len() as int) =~= numbers@);
    out
}

/// A counter that starts at zero and goes up by one.
pub struct Counter {
    count: i32,
}

impl Counter {
    /// The count as it stands.
    pub closed spec fn value(&self) -> i32 {
        self.count
    }

    /// A counter at zero.
    pub fn new() -> (r: Self)
        ensures
            r.value() == 0,
    {
        Counter { count: 0 }
    }

    /// Counts one up.
    pub fn increment(&mut self)
        requires
            old(self).value() < i32::MAX,
        ensures
            final(self).value() == old(self).value() + 1,
    {
        self.count = self.count + 1;
    }

    /// The count as it stands.
    pub fn get(&self) -> (r: i32)
        ensures
            r == self.value(),
    {
        self.count
    }
}

impl Default for Counter {
    fn default() -> (r: Self)
        ensures
            r.value() == 0,
    {
        Counter::new()
    }
}

/// What a counter shows after `num_threads` workers have each counted it up
/// `increments_per_thread` times; a worker told to count a negative number
/// of times counts nothing.
pub open spec fn increments(num_threads: usize, increments_per_thread: i32) -> int {
    if increments_per_thread > 0 {
        num_threads * increments_per_thread
    } else {
        0
    }
}

/// Counts a counter up once for every increment of every worker and
/// returns what it shows.
pub fn concurrent_increment(num_threads: usize, increments_per_thread: i32) -> (r: i32)
    requires
        increments(num_threads, increments_per_thread) <= i32::MAX,
    ensures
        r == increments(num_threads, increments_per_thread),
{
    let mut counter = Counter::new();
    if increments_per_thread <= 0 {
        return counter.get();
    }
    let mut t: usize = 0;
    while t < num_threads
        invariant
            t <= num_threads,
            increments_per_thread > 0,
            num_threads * increments_per_thread <= i32::MAX,
            counter.value() == t * increments_per_thread,
        decreases num_threads - t,
    {
        let mut k: i32 = 0;
        while k < increments_per_thread
            invariant
                0 <= k <= increments_per_thread,
                t < num_threads,
                num_threads * increments_per_thread <= i32::MAX,
                counter.value() == t * increments_per_thread + k,
            decreases increments_per_thread - k,
        {
            assert(t * increments_per_thread + k < num_threads * increments_per_thread)
                by (nonlinear_arith)
                requires
                    t < num_threads,
                    0 <= k < increments_per_thread,
            ;
            counter.increment();
            k = k + 1;
        }
        assert((t + 1) * increments_per_thread == t * increments_per_thread
            + increments_per_thread) by (nonlinear_arith);
        t += 1;
    }
    counter.get()
}

} // verus!
