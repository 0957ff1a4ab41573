use rsground::optional::Optional;

#[test]
fn missing_values_take_the_default() {
    assert_eq!(Some(5u32).or_default(), 5);
    assert_eq!(None::<u32>.or_default(), 0);
    assert_eq!(None::<String>.or_default(), "");
}
