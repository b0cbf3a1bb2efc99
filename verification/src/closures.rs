//! Functions that take functions: what may be called once, what may be
//! called again with its state changed, and what may be called again and
//! again; and values of several kinds kept behind one interface.

use vstd::prelude::*;
use crate::worker::Counter;

verus! {

/// Calls `f`, which may be called only once, and returns what it gives.
pub fn consume_and_return<F>(f: F) -> (r: String) where F: FnOnce() -> String
    requires
        call_requires(f, ()),
    ensures
        call_ensures(f, (), r),
{
    f()
}

/// Hands a string to a function that gives it away when called, and calls
/// it.
pub fn demo_fn_once() -> (r: String)
    ensures
        r@ == "I will be consumed"@,
{
    let data = "I will be consumed".to_owned();
    let consume = move || -> (s: String)
        ensures
            s == data,
        { data };
    consume_and_return(consume)
}

/// Calls `f` three times and adds up what it gives.
pub fn call_and_accumulate<F>(mut f: F) -> (r: i32) where F: FnMut() -> i32
    requires
        call_requires(f, ()),
        forall|a: i32, b: i32, c: i32|
            call_ensures(f, (), a) && call_ensures(f, (), b) && call_ensures(f, (), c) ==> {
                &&& i32::MIN <= a + b <= i32::MAX
                &&& i32::MIN <= a + b + c <= i32::MAX
            },
    ensures
        exists|a: i32, b: i32, c: i32|
            call_ensures(f, (), a) && call_ensures(f, (), b) && call_ensures(f, (), c) && r == a
                + b + c,
{
    let a = f();
    let b = f();
    let c = f();
    a + b + c
}

/// Calls `f` as many times as `times` says and returns what it gave, in the
/// order of the calls.
pub fn call_many_times<F>(f: F, times: usize) -> (r: Vec<i32>) where F: Fn() -> i32
    requires
        call_requires(f, ()),
    ensures
        r@.len() == times,
        forall|i: int| 0 <= i < r@.len() ==> call_ensures(f, (), #[trigger] r@[i]),
{
    let mut out: Vec<i32> = Vec::new();
    let mut k: usize = 0;
    while k < times
        invariant
            k <= times,
            out@.len() == k,
            call_requires(f, ()),
            forall|i: int| 0 <= i < out@.len() ==> call_ensures(f, (), #[trigger] out@[i]),
        decreases times - k,
    {
        let v = f();
        out.push(v);
        k += 1;
    }
    out
}

/// Calls three times a function that doubles a number it only reads.
pub fn demo_fn() -> (r: Vec<i32>)
    ensures
        r@ == seq![20i32, 20i32, 20i32],
{
    let multiplier: i32 = 10;
    let multiply = || -> (v: i32)
        ensures
            v == 20,
        { multiplier * 2 };
    let out = call_many_times(multiply, 3);
    assert(out@ =~= seq![20i32, 20i32, 20i32]);
    out
}

/// An action and how often to run it.
pub struct Repeater<F> {
    action: F,
    times: usize,
}

impl<F> Repeater<F> where F: Fn() -> i32 {
    /// The action that is run.
    pub closed spec fn action(&self) -> F {
        self.action
    }

    /// How often the action is run.
    pub closed spec fn times(&self) -> usize {
        self.times
    }

    pub fn new(action: F, times: usize) -> (r: Self)
        ensures
            r.action() == action,
            r.times() == times,
    {
        Repeater { action, times }
    }

    /// Runs the action as often as was said and returns what it gave, in
    /// the order of the runs.
    pub fn run(&self) -> (r: Vec<i32>)
        requires
            call_requires(self.action(), ()),
        ensures
            r@.len() == self.times(),
            forall|i: int| 0 <= i < r@.len() ==> call_ensures(self.action(), (), #[trigger] r@[i]),
    {
        let mut out: Vec<i32> = Vec::new();
        let mut k: usize = 0;
        while k < self.times
            invariant
                k <= self.times,
                out@.len() == k,
                call_requires(self.action, ()),
                forall|i: int|
                    0 <= i < out@.len() ==> call_ensures(self.action, (), #[trigger] out@[i]),
            decreases self.times - k,
        {
            let v = (self.action)();
            out.push(v);
            k += 1;
        }
        out
    }
}

/// Calls `f` once and returns what it gives.
pub fn run_once<F, R>(f: F) -> (r: R) where F: FnOnce() -> R
    requires
        call_requires(f, ()),
    ensures
        call_ensures(f, (), r),
{
    f()
}

/// Runs `f` to its end and returns what it gives. On which thread it runs
/// is for the caller to arrange.
pub fn execute_with_result<T, F>(f: F) -> (r: T) where F: FnOnce() -> T
    requires
        call_requires(f, ()),
    ensures
        call_ensures(f, (), r),
{
    f()
}

/// An animal that has a name and makes a sound.
pub trait Animal {
    /// The sound that `speak` returns.
    spec fn sound(&self) -> Seq<char>;

    /// The name that `name` returns.
    spec fn name_text(&self) -> Seq<char>;

    fn speak(&self) -> (r: &str)
        ensures
            r@ == self.sound(),
    ;

    fn name(&self) -> (r: &str)
        ensures
            r@ == self.name_text(),
    ;
}

pub struct Dog {
    pub name: String,
}

pub struct Cat {
    pub name: String,
}

impl Animal for Dog {
    open spec fn sound(&self) -> Seq<char> {
        "멍멍!"@
    }

    open spec fn name_text(&self) -> Seq<char> {
        self.name@
    }

    fn speak(&self) -> (r: &str) {
        "멍멍!"
    }

    fn name(&self) -> (r: &str) {
        self.name.as_str()
    }
}

impl Animal for Cat {
    open spec fn sound(&self) -> Seq<char> {
        "야옹~"@
    }

    open spec fn name_text(&self) -> Seq<char> {
        self.name@
    }

    fn speak(&self) -> (r: &str) {
        "야옹~"
    }

    fn name(&self) -> (r: &str) {
        self.name.as_str()
    }
}

/// What a shelter keeps of an animal.
pub struct Resident {
    pub name: String,
    pub sound: String,
}

/// A shelter for animals of any kind.
pub struct AnimalShelter {
    animals: Vec<Resident>,
}

impl AnimalShelter {
    /// The residents in the order in which they came.
    pub closed spec fn residents(&self) -> Seq<Resident> {
        self.animals@
    }

    /// A shelter without animals.
    pub fn new() -> (r: Self)
        ensures
            r.residents().len() == 0,
    {
        AnimalShelter { animals: Vec::new() }
    }

    /// Takes an animal in, after those that are there.
    pub fn add<A: Animal>(&mut self, animal: A)
        ensures
            final(self).residents().len() == old(self).residents().len() + 1,
            final(self).residents().subrange(0, old(self).residents().len() as int)
                == old(self).residents(),
            final(self).residents().last().name@ == animal.name_text(),
            final(self).residents().last().sound@ == animal.sound(),
    {
        let resident = Resident {
            name: animal.name().to_owned(),
            sound: animal.speak().to_owned(),
        };
        self.animals.push(resident);
        assert(self.animals@.subrange(0, old(self).animals@.len() as int) =~= old(self).animals@);
    }

    /// The sound of every animal, in the order in which they came.
    pub fn all_speak(&self) -> (r: Vec<String>)
        ensures
            r@.len() == self.residents().len(),
            forall|i: int| 0 <= i < r@.len() ==> (#[trigger] r@[i])@ == self.residents()[i].sound@,
    {
        let mut out: Vec<String> = Vec::new();
        let mut i: usize = 0;
        while i < self.animals.len()
            invariant
                i <= self.animals.len(),
                out@.len() == i,
                forall|j: int| 0 <= j < i ==> (#[trigger] out@[j])@ == self.animals@[j].sound@,
            decreases self.animals.len() - i,
        {
            out.push(self.animals[i].sound.clone());
            i += 1;
        }
        out
    }

    /// The number of animals.
    pub fn count(&self) -> (r: usize)
        ensures
            r == self.residents().len(),
    {
        self.animals.len()
    }
}

impl Default for AnimalShelter {
    fn default() -> (r: Self)
        ensures
            r.residents().len() == 0,
    {
        AnimalShelter::new()
    }
}

/// A string that lives as long as the program.
pub fn get_static_str() -> (r: &'static str)
    ensures
        r@ == "hello"@,
{
    "hello"
}

/// Accepts any value that may be moved to another thread.
pub fn require_send<T: Send>(_value: T) {
}

/// Accepts a reference to any value that threads may share.
pub fn require_sync<T: Sync>(_value: &T) {
}

/// What a counter shows after two workers have each counted it up once.
pub fn share_counter_between_threads() -> (r: i32)
    ensures
        r == 2,
{
    let mut counter = Counter::new();
    counter.increment();
    counter.increment();
    counter.get()
}

} // verus!
