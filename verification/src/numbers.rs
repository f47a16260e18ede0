//! Lists of the numbers that stand for threads and flags.
use vstd::prelude::*;

verus! {

/// The numbers that are not `number`, in their order.
pub open spec fn others(numbers: Seq<u64>, number: u64) -> Seq<u64> {
    numbers.filter(|other: u64| other != number)
}

/// The numbers that are not `number`, in their order.
pub fn without(numbers: &Vec<u64>, number: u64) -> (r: Vec<u64>)
    ensures
        r@ == others(numbers@, number),
{
    let mut left: Vec<u64> = Vec::new();
    let ghost all = numbers@;
    let mut i: usize = 0;
    proof {
        reveal(Seq::filter);
        assert(all.take(0) =~= Seq::<u64>::empty());
        assert(left@ =~= others(all.take(0), number));
    }
    while i < numbers.len()
        invariant
            i <= numbers@.len(),
            all == numbers@,
            left@ == others(all.take(i as int), number),
        decreases numbers@.len() - i,
    {
        proof {
            reveal(Seq::filter);
            assert(all.take(i + 1).drop_last() =~= all.take(i as int));
        }
        let other: u64 = numbers[i];
        if other != number {
            left.push(other);
        }
        i = i + 1;
    }
    assert(all.take(i as int) =~= all);
    left
}

/// Whether a number is in the list.
pub fn holds(numbers: &Vec<u64>, number: u64) -> (r: bool)
    ensures
        r == numbers@.contains(number),
{
    let mut i: usize = 0;
    while i < numbers.len()
        invariant
            i <= numbers@.len(),
            forall|j: int| 0 <= j < i ==> numbers@[j] != number,
        decreases numbers@.len() - i,
    {
        if numbers[i] == number {
            return true;
        }
        i = i + 1;
    }
    false
}

/// A list holds what was put at its end and what it held.
pub proof fn lemma_pushed(numbers: Seq<u64>, last: u64)
    ensures
        forall|number: u64| #[trigger]
            numbers.push(last).contains(number) == (numbers.contains(number) || number == last),
{
    assert forall|number: u64| #[trigger]
        numbers.push(last).contains(number) == (numbers.contains(number) || number == last) by {
        if numbers.contains(number) {
            assert(numbers.push(last)[numbers.index_of(number)] == number);
        }
        assert(numbers.push(last)[numbers.len() as int] == last);
        if numbers.push(last).contains(number) && number != last {
            assert(numbers[numbers.push(last).index_of(number)] == number);
        }
    }
}

/// What is left holds the others and not the number that was taken out.
pub proof fn lemma_others(numbers: Seq<u64>, number: u64)
    ensures
        !others(numbers, number).contains(number),
        forall|other: u64|
            other != number ==> others(numbers, number).contains(other) == numbers.contains(other),
    decreases numbers.len(),
{
    reveal(Seq::filter);
    if numbers.len() > 0 {
        let init = numbers.drop_last();
        lemma_others(init, number);
        assert(numbers =~= init.push(numbers.last()));
        lemma_pushed(init, numbers.last());
        lemma_pushed(others(init, number), numbers.last());
    }
}

/// Taking a number out leaves the others in their order: one more number at the end is one more at
/// the end, unless it is the one that is taken out.
pub proof fn law_other_numbers_stay(numbers: Seq<u64>, last: u64, number: u64)
    ensures
        others(Seq::empty(), number).len() == 0,
        last != number ==> others(numbers.push(last), number) == others(numbers, number).push(last),
        others(numbers.push(number), number) == others(numbers, number),
{
    reveal(Seq::filter);
    assert(numbers.push(last).drop_last() =~= numbers);
    assert(numbers.push(number).drop_last() =~= numbers);
}

} // verus!
