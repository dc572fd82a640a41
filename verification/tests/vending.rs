use dl_list::vending::{Coin, Price, Product, VendingMachine};

fn total(coins: &[Coin]) -> Price {
    coins.iter().map(|coin| coin.value()).fold(Price(0), |sum, value| sum + value)
}

#[test]
fn test_vending_machine() {
    let mut machine = VendingMachine::new(
        Coin::make_array(&[
            (2, 50),  // 100
            (3, 20),  // 60
            (5, 10),  // 50
            (10, 5),  // 50
            (25, 2),  // 50
            (50, 1),  // 50
        ]), // total: 360
        vec![
            Product::new("Fanta", 250),
            Product::new("Pepsi", 300),
            Product::new("Snickers", 430),
        ],
    );

    let fanta = machine.buy("Fanta", 300);
    assert!(
        matches!(
            fanta,
            Ok((
                ref product,
                ref change
            )) if *product == Product { name: "Fanta".to_string(), price: 250.into() } && *change == vec![Coin::Fifty]
        ),
        "The result of buying was: {:?}",
        fanta
    );
    assert_eq!(total(&machine.coins), 310.into());

    let pepsi = machine.buy("Pepsi", 610);
    assert!(
        matches!(
            pepsi,
            Ok((
                ref product,
                _
            )) if *product == Product { name: "Pepsi".to_string(), price: 300.into() }
        ),
        "The result of buying was: {:?}",
        pepsi
    );
    assert_eq!(total(&machine.coins), 0.into());

    let fail = machine.buy("Snickers", 431);
    assert!(
        matches!(
            fail,
            Err(())
        ),
        "The result of buying was: {:?}",
        fail
    );
}

#[test]
fn coin_values() {
    assert_eq!(Coin::One.value(), Price(1));
    assert_eq!(Coin::Two.value(), Price(2));
    assert_eq!(Coin::Five.value(), Price(5));
    assert_eq!(Coin::Ten.value(), Price(10));
    assert_eq!(Coin::Twenty.value(), Price(20));
    assert_eq!(Coin::Fifty.value(), Price(50));
}

#[test]
fn coin_from_price() {
    assert_eq!(Coin::try_from(Price(1)), Ok(Coin::One));
    assert_eq!(Coin::try_from(Price(2)), Ok(Coin::Two));
    assert_eq!(Coin::try_from(Price(5)), Ok(Coin::Five));
    assert_eq!(Coin::try_from(Price(10)), Ok(Coin::Ten));
    assert_eq!(Coin::try_from(Price(20)), Ok(Coin::Twenty));
    assert_eq!(Coin::try_from(Price(50)), Ok(Coin::Fifty));
    assert_eq!(Coin::try_from(Price(0)), Err(()));
    assert_eq!(Coin::try_from(Price(3)), Err(()));
    assert_eq!(Coin::try_from(Price(100)), Err(()));
}

#[test]
fn make_array_repeats_each_coin() {
    assert_eq!(Coin::make_array(&[]), vec![]);
    assert_eq!(Coin::make_array(&[(0, 50)]), vec![]);
    assert_eq!(
        Coin::make_array(&[(2, 50), (0, 20), (1, 1), (3, 5)]),
        vec![Coin::Fifty, Coin::Fifty, Coin::One, Coin::Five, Coin::Five, Coin::Five]
    );
}

#[test]
fn price_arithmetic() {
    assert_eq!(Price(20) + Price(5), Price(25));
    assert_eq!(Price(20) - Price(5), Price(15));
    assert_eq!(Price::from(7), Price(7));
    assert!(Price(3) < Price(4));
}

#[test]
fn product_new_takes_name_and_price() {
    let product = Product::new("Fanta", 250);
    assert_eq!(product.name, "Fanta");
    assert_eq!(product.price, Price(250));
    let other = Product::new("Pepsi", Price(300));
    assert_eq!(other, Product { name: "Pepsi".to_string(), price: Price(300) });
}

#[test]
fn change_values_go_through_the_coins_in_order() {
    let machine = VendingMachine::new(
        Coin::make_array(&[(1, 50), (2, 20), (1, 10), (3, 2)]),
        vec![],
    );
    assert_eq!(machine.get_change_values(Price(50)), Some(vec![Price(50)]));
    assert_eq!(machine.get_change_values(Price(30)), Some(vec![Price(20), Price(10)]));
    assert_eq!(
        machine.get_change_values(Price(96)),
        Some(vec![Price(50), Price(20), Price(20), Price(2), Price(2), Price(2)])
    );
    assert_eq!(machine.get_change_values(Price(0)), Some(vec![]));
    assert_eq!(machine.get_change_values(Price(1)), None);
    assert_eq!(machine.get_change_values(Price(107)), None);
}

#[test]
fn no_change_can_be_given_without_coins() {
    let machine = VendingMachine::new(vec![], vec![]);
    assert_eq!(machine.get_change_values(Price(0)), None);
    assert_eq!(machine.get_change_values(Price(5)), None);
}

#[test]
fn buy_is_turned_down_for_an_unknown_product() {
    let mut machine = VendingMachine::new(
        Coin::make_array(&[(1, 50)]),
        vec![Product::new("Fanta", 250)],
    );
    assert_eq!(machine.buy("Cola", 300), Err(()));
    assert_eq!(machine.products, vec![Product::new("Fanta", 250)]);
    assert_eq!(machine.coins, vec![Coin::Fifty]);
}

#[test]
fn buy_is_turned_down_for_too_small_a_payment() {
    let mut machine = VendingMachine::new(
        Coin::make_array(&[(1, 50)]),
        vec![Product::new("Fanta", 250)],
    );
    assert_eq!(machine.buy("Fanta", 249), Err(()));
    assert_eq!(machine.products.len(), 1);
    assert_eq!(machine.coins, vec![Coin::Fifty]);
}

#[test]
fn buy_is_turned_down_where_change_cannot_be_given() {
    let mut machine = VendingMachine::new(
        Coin::make_array(&[(1, 50)]),
        vec![Product::new("Fanta", 250)],
    );
    assert_eq!(machine.buy("Fanta", 251), Err(()));
    assert_eq!(machine.products.len(), 1);
    assert_eq!(machine.coins, vec![Coin::Fifty]);
}

#[test]
fn buy_for_the_exact_price_gives_no_change() {
    let mut machine = VendingMachine::new(
        Coin::make_array(&[(1, 50), (1, 20)]),
        vec![Product::new("Fanta", 250), Product::new("Pepsi", 300), Product::new("Mars", 100)],
    );
    assert_eq!(machine.buy("Fanta", 250), Ok((Product::new("Fanta", 250), vec![])));
    assert_eq!(machine.coins, vec![Coin::Fifty, Coin::Twenty]);
    assert_eq!(
        machine.products,
        vec![Product::new("Mars", 100), Product::new("Pepsi", 300)]
    );
}

#[test]
fn purchase_hands_out_the_coins_that_match_side_by_side() {
    let mut machine = VendingMachine::new(
        Coin::make_array(&[(1, 20), (1, 10), (2, 5)]),
        vec![Product::new("Mars", 100)],
    );
    assert_eq!(
        machine.purchase("Mars", Price(135)),
        Ok((Product::new("Mars", 100), vec![Coin::Twenty, Coin::Ten, Coin::Five]))
    );
    assert_eq!(machine.coins, vec![Coin::Five]);
    assert!(machine.products.is_empty());
}

#[test]
fn purchase_keeps_the_coins_that_do_not_match_side_by_side() {
    let mut machine = VendingMachine::new(
        Coin::make_array(&[(2, 20), (1, 10), (2, 5)]),
        vec![Product::new("Mars", 100)],
    );
    assert_eq!(
        machine.purchase("Mars", Price(135)),
        Ok((Product::new("Mars", 100), vec![Coin::Twenty]))
    );
    assert_eq!(machine.coins, vec![Coin::Twenty, Coin::Ten, Coin::Five, Coin::Five]);
    assert!(machine.products.is_empty());
}

#[test]
fn a_coin_that_is_passed_over_uses_up_a_value() {
    let mut machine = VendingMachine::new(
        Coin::make_array(&[(1, 50), (1, 20)]),
        vec![Product::new("Mars", 100)],
    );
    assert_eq!(machine.get_change_values(Price(20)), Some(vec![Price(20)]));
    assert_eq!(machine.buy("Mars", 120), Ok((Product::new("Mars", 100), vec![])));
    assert_eq!(machine.coins, vec![Coin::Fifty, Coin::Twenty]);
}

#[test]
fn buy_takes_the_first_product_of_a_name() {
    let mut machine = VendingMachine::new(
        Coin::make_array(&[(1, 10)]),
        vec![Product::new("Mars", 100), Product::new("Mars", 90)],
    );
    assert_eq!(machine.buy("Mars", 100), Ok((Product::new("Mars", 100), vec![])));
    assert_eq!(machine.buy("Mars", 100), Ok((Product::new("Mars", 90), vec![Coin::Ten])));
    assert!(machine.coins.is_empty());
}
