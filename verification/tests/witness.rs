use const_guards::{Guard, Protect};

fn protected<T: Protect>(_witness: T) -> bool {
    true
}

#[test]
fn the_witness_of_true_is_protected() {
    assert!(protected(Guard::<true>));
}

#[test]
fn a_bound_on_the_witness_of_a_true_constant_holds() {
    fn checked<const N: usize>() -> usize
    where
        Guard<true>: Protect,
    {
        N
    }
    assert_eq!(checked::<3>(), 3);
}
