use vstd::prelude::*;
use vstd::std_specs::convert::{FromSpecImpl, IntoSpec, TryFromSpecImpl};

verus! {

/// An amount of money in the smallest unit.
#[derive(Debug, PartialEq, Eq, Structural, PartialOrd, Ord, Clone, Copy)]
pub struct Price(pub u64);

impl From<u64> for Price {
    fn from(value: u64) -> (res: Self) {
        Price(value)
    }
}

impl FromSpecImpl<u64> for Price {
    open spec fn obeys_from_spec() -> bool {
        true
    }

    open spec fn from_spec(value: u64) -> Self {
        Price(value)
    }
}

impl core::ops::Add for Price {
    type Output = Price;

    fn add(self, rhs: Price) -> (res: Price) {
        Price(self.0 + rhs.0)
    }
}

impl vstd::std_specs::ops::AddSpecImpl for Price {
    open spec fn obeys_add_spec() -> bool {
        true
    }

    open spec fn add_req(self, rhs: Price) -> bool {
        self.0 + rhs.0 <= u64::MAX
    }

    open spec fn add_spec(self, rhs: Price) -> Price {
        Price((self.0 + rhs.0) as u64)
    }
}

impl core::ops::Sub for Price {
    type Output = Price;

    fn sub(self, rhs: Price) -> (res: Price) {
        Price(self.0 - rhs.0)
    }
}

impl vstd::std_specs::ops::SubSpecImpl for Price {
    open spec fn obeys_sub_spec() -> bool {
        true
    }

    open spec fn sub_req(self, rhs: Price) -> bool {
        self.0 >= rhs.0
    }

    open spec fn sub_spec(self, rhs: Price) -> Price {
        Price((self.0 - rhs.0) as u64)
    }
}

/// The coins that the machine knows.
#[derive(Debug, PartialEq, Eq, Structural, PartialOrd, Ord, Clone, Copy)]
pub enum Coin {
    One,
    Two,
    Five,
    Ten,
    Twenty,
    Fifty,
}

impl TryFrom<Price> for Coin {
    type Error = ();

    /// The coin that is worth `value`, or the error where no coin is.
    fn try_from(value: Price) -> (res: Result<Self, ()>) {
        match value.0 {
            1 => Ok(Coin::One),
            2 => Ok(Coin::Two),
            5 => Ok(Coin::Five),
            10 => Ok(Coin::Ten),
            20 => Ok(Coin::Twenty),
            50 => Ok(Coin::Fifty),
            _ => Err(()),
        }
    }
}

impl TryFromSpecImpl<Price> for Coin {
    open spec fn obeys_try_from_spec() -> bool {
        true
    }

    open spec fn try_from_spec(value: Price) -> Result<Self, ()> {
        match Coin::spec_of_value(value.0) {
            Some(coin) => Ok(coin),
            None => Err(()),
        }
    }
}

impl Coin {
    /// What the coin is worth.
    pub open spec fn spec_value(&self) -> u64 {
        match self {
            Coin::One => 1,
            Coin::Two => 2,
            Coin::Five => 5,
            Coin::Ten => 10,
            Coin::Twenty => 20,
            Coin::Fifty => 50,
        }
    }

    /// The coin that is worth `value`, if there is one.
    pub open spec fn spec_of_value(value: u64) -> Option<Coin> {
        if value == 1 {
            Some(Coin::One)
        } else if value == 2 {
            Some(Coin::Two)
        } else if value == 5 {
            Some(Coin::Five)
        } else if value == 10 {
            Some(Coin::Ten)
        } else if value == 20 {
            Some(Coin::Twenty)
        } else if value == 50 {
            Some(Coin::Fifty)
        } else {
            None
        }
    }

    /// `count` coins of one kind.
    pub open spec fn spec_repeat(coin: Coin, count: nat) -> Seq<Coin> {
        Seq::new(count, |i: int| coin)
    }

    /// The coins that a list of pairs of a count and a value stands for: for
    /// each pair in turn, that many coins of that value.
    pub open spec fn spec_make_array(pairs: Seq<(u64, u64)>) -> Seq<Coin>
        decreases pairs.len(),
    {
        if pairs.len() == 0 {
            Seq::empty()
        } else {
            Self::spec_make_array(pairs.drop_last()) + Self::spec_repeat(
                Self::spec_of_value(pairs.last().1).unwrap(),
                pairs.last().0 as nat,
            )
        }
    }

    /// Builds the coins that `amount_value_pairs` stands for. Every value in
    /// it has to be the value of a coin.
    pub fn make_array(amount_value_pairs: &[(u64, u64)]) -> (res: Vec<Coin>)
        requires
            forall|k: int|
                0 <= k < amount_value_pairs@.len() ==> Self::spec_of_value(
                    (#[trigger] amount_value_pairs@[k]).1,
                ) is Some,
        ensures
            res@ == Self::spec_make_array(amount_value_pairs@),
    {
        let mut res: Vec<Coin> = Vec::new();
        let mut k: usize = 0;
        while k < amount_value_pairs.len()
            invariant
                0 <= k <= amount_value_pairs@.len(),
                forall|j: int|
                    0 <= j < amount_value_pairs@.len() ==> Self::spec_of_value(
                        (#[trigger] amount_value_pairs@[j]).1,
                    ) is Some,
                res@ == Self::spec_make_array(amount_value_pairs@.take(k as int)),
            decreases amount_value_pairs@.len() - k,
        {
            let pair = &amount_value_pairs[k];
            let price: Price = pair.1.into();
            let ghost coin = Self::spec_of_value(pair.1).unwrap();
            let ghost before = res@;
            let mut n: u64 = 0;
            while n < pair.0
                invariant
                    0 <= n <= pair.0,
                    price.0 == pair.1,
                    Self::spec_of_value(pair.1) == Some(coin),
                    res@ == before + Self::spec_repeat(coin, n as nat),
                decreases pair.0 - n,
            {
                match Coin::try_from(price) {
                    Ok(c) => {
                        res.push(c);
                    },
                    Err(_) => {},
                }
                n = n + 1;
                assert(res@ =~= before + Self::spec_repeat(coin, n as nat));
            }
            proof {
                let upto = amount_value_pairs@.take(k as int + 1);
                assert(upto.drop_last() =~= amount_value_pairs@.take(k as int));
                assert(upto.last() == amount_value_pairs@[k as int]);
            }
            k = k + 1;
        }
        assert(amount_value_pairs@.take(k as int) =~= amount_value_pairs@);
        res
    }

    /// What the coin is worth.
    pub fn value(&self) -> (res: Price)
        ensures
            res.0 == self.spec_value(),
    {
        match self {
            Coin::One => 1.into(),
            Coin::Two => 2.into(),
            Coin::Five => 5.into(),
            Coin::Ten => 10.into(),
            Coin::Twenty => 20.into(),
            Coin::Fifty => 50.into(),
        }
    }
}

/// Something the machine sells.
#[derive(Debug, PartialEq)]
pub struct Product {
    pub name: String,
    pub price: Price,
}

impl Product {
    /// A product called `name` that costs `price`.
    pub fn new<P: Into<Price>>(name: &str, price: P) -> (res: Self)
        ensures
            res.name@ == name@,
            P::obeys_into_spec() ==> res.price == price.into_spec(),
    {
        Product { name: name.to_owned(), price: price.into() }
    }
}

/// The amounts that `prices` stand for.
pub open spec fn spec_amounts(prices: Seq<Price>) -> Seq<u64> {
    Seq::new(prices.len(), |i: int| prices[i].0)
}

/// The values of the coins that make up the change, and what is left over.
///
/// The coins are gone through once, in their order. A coin is taken where the
/// amount still due is at least its value; the walk ends, with the values
/// taken so far, as soon as nothing is due after a coin. Where the coins run
/// out first, no change can be given.
pub open spec fn spec_change_values(coins: Seq<Coin>, change: u64) -> Option<Seq<u64>>
    decreases coins.len(),
{
    if coins.len() == 0 {
        None
    } else {
        let value = coins[0].spec_value();
        let taken = if change >= value {
            seq![value]
        } else {
            Seq::empty()
        };
        let due = if change >= value {
            (change - value) as u64
        } else {
            change
        };
        if due == 0 {
            Some(taken)
        } else {
            match spec_change_values(coins.drop_first(), due) {
                Some(rest) => Some(taken + rest),
                None => None,
            }
        }
    }
}

/// The coins that are handed out as change, given the values to hand out.
///
/// The coins and the values are gone through side by side: a coin is handed
/// out where a value is left and the coin is worth it; each coin uses up one
/// value, whether it is handed out or not.
pub open spec fn spec_given(coins: Seq<Coin>, values: Seq<u64>) -> Seq<Coin>
    decreases coins.len(),
{
    if coins.len() == 0 {
        Seq::empty()
    } else if values.len() > 0 && coins[0].spec_value() == values[0] {
        seq![coins[0]] + spec_given(coins.drop_first(), values.drop_first())
    } else if values.len() > 0 {
        spec_given(coins.drop_first(), values.drop_first())
    } else {
        spec_given(coins.drop_first(), values)
    }
}

/// The coins that stay in the machine, given the values to hand out.
pub open spec fn spec_kept(coins: Seq<Coin>, values: Seq<u64>) -> Seq<Coin>
    decreases coins.len(),
{
    if coins.len() == 0 {
        Seq::empty()
    } else if values.len() > 0 && coins[0].spec_value() == values[0] {
        spec_kept(coins.drop_first(), values.drop_first())
    } else if values.len() > 0 {
        seq![coins[0]] + spec_kept(coins.drop_first(), values.drop_first())
    } else {
        seq![coins[0]] + spec_kept(coins.drop_first(), values)
    }
}

/// The position of the first product called `name`, if there is one.
pub open spec fn spec_position(products: Seq<Product>, name: Seq<char>) -> Option<int>
    decreases products.len(),
{
    if products.len() == 0 {
        None
    } else if products[0].name@ == name {
        Some(0)
    } else {
        match spec_position(products.drop_first(), name) {
            Some(i) => Some(i + 1),
            None => None,
        }
    }
}

/// What a purchase comes to: the position of the product and the values of the
/// coins to give change with, or `None` where the purchase is turned down.
///
/// It is turned down where no product is called `name`, where `payment` is
/// less than the product's price, and where the machine's coins do not make up
/// the difference.
pub open spec fn spec_sale(
    products: Seq<Product>,
    coins: Seq<Coin>,
    name: Seq<char>,
    payment: u64,
) -> Option<(int, Seq<u64>)> {
    match spec_position(products, name) {
        None => None,
        Some(i) => {
            if payment < products[i].price.0 {
                None
            } else {
                match spec_change_values(coins, (payment - products[i].price.0) as u64) {
                    None => None,
                    Some(values) => Some((i, values)),
                }
            }
        },
    }
}

/// The sum of `values`.
pub open spec fn spec_sum(values: Seq<u64>) -> nat
    decreases values.len(),
{
    if values.len() == 0 {
        0
    } else {
        values[0] as nat + spec_sum(values.drop_first())
    }
}

/// The sum of what `coins` are worth.
pub open spec fn spec_total(coins: Seq<Coin>) -> nat
    decreases coins.len(),
{
    if coins.len() == 0 {
        0
    } else {
        coins[0].spec_value() as nat + spec_total(coins.drop_first())
    }
}

/// A machine that holds products and the coins to give change with.
#[derive(Debug)]
pub struct VendingMachine {
    pub products: Vec<Product>,
    pub coins: Vec<Coin>,
}

/// How a purchase of the product called `name` for `payment` turns the
/// machine `before` into the machine `after`, and what it returns.
///
/// A purchase that is turned down returns the error and leaves the machine as
/// it was. Otherwise it returns the product and the coins handed out; the
/// product's place is taken by the last product, and the coins that were not
/// handed out stay in their order.
pub open spec fn spec_sold(
    before: VendingMachine,
    after: VendingMachine,
    name: Seq<char>,
    payment: u64,
    res: Result<(Product, Vec<Coin>), ()>,
) -> bool {
    match spec_sale(before.products@, before.coins@, name, payment) {
        None => res is Err && after == before,
        Some((i, values)) => {
            &&& res is Ok
            &&& res.unwrap().0 == before.products@[i]
            &&& res.unwrap().1@ == spec_given(before.coins@, values)
            &&& after.coins@ == spec_kept(before.coins@, values)
            &&& after.products@ == before.products@.update(i, before.products@.last()).drop_last()
        },
    }
}

impl VendingMachine {
    /// A machine that holds `available_coins`, in their order, and `products`.
    pub fn new(available_coins: Vec<Coin>, products: Vec<Product>) -> (res: Self)
        ensures
            res.coins == available_coins,
            res.products == products,
    {
        VendingMachine { products, coins: available_coins }
    }

    /// The values of the coins to give `change` with, or `None` where the
    /// machine's coins, taken in their order, do not make it up.
    pub fn get_change_values(&self, change: Price) -> (res: Option<Vec<Price>>)
        ensures
            match res {
                Some(values) => spec_change_values(self.coins@, change.0) == Some(
                    spec_amounts(values@),
                ),
                None => spec_change_values(self.coins@, change.0) is None,
            },
    {
        let mut due: u64 = change.0;
        let mut coin_values: Vec<Price> = Vec::new();
        let mut k: usize = 0;
        proof {
            assert(self.coins@.skip(0) =~= self.coins@);
            match spec_change_values(self.coins@, change.0) {
                Some(rest) => {
                    assert(spec_amounts(coin_values@) + rest =~= rest);
                },
                None => {},
            }
        }
        while k < self.coins.len()
            invariant
                0 <= k <= self.coins@.len(),
                spec_change_values(self.coins@, change.0) == (match spec_change_values(
                    self.coins@.skip(k as int),
                    due,
                ) {
                    Some(rest) => Some(spec_amounts(coin_values@) + rest),
                    None => None,
                }),
            decreases self.coins@.len() - k,
        {
            let ghost taken_before = spec_amounts(coin_values@);
            let ghost due_before = due;
            let ghost rest_coins = self.coins@.skip(k as int);
            proof {
                assert(rest_coins[0] == self.coins@[k as int]);
                assert(rest_coins.drop_first() =~= self.coins@.skip(k as int + 1));
            }
            let coin_val = self.coins[k].value();
            if due >= coin_val.0 {
                due = due - coin_val.0;
                coin_values.push(coin_val);
                assert(spec_amounts(coin_values@) =~= taken_before + seq![coin_val.0]);
            }
            if due == 0 {
                proof {
                    let taken = spec_amounts(coin_values@);
                    if due_before >= coin_val.0 {
                        assert(spec_change_values(rest_coins, due_before) == Some(seq![coin_val.0]));
                        assert(taken == taken_before + seq![coin_val.0]);
                    } else {
                        assert(spec_change_values(rest_coins, due_before) == Some(
                            Seq::<u64>::empty(),
                        ));
                        assert(taken_before + Seq::<u64>::empty() =~= taken);
                    }
                    assert(spec_change_values(self.coins@, change.0) == Some(taken));
                }
                return Some(coin_values);
            }
            proof {
                let taken = spec_amounts(coin_values@);
                match spec_change_values(self.coins@.skip(k as int + 1), due) {
                    Some(rest) => {
                        if due_before >= coin_val.0 {
                            assert(taken_before + (seq![coin_val.0] + rest) =~= taken + rest);
                        } else {
                            assert(taken_before + (Seq::<u64>::empty() + rest) =~= taken + rest);
                        }
                    },
                    None => {},
                }
            }
            k = k + 1;
        }
        proof {
            assert(self.coins@.skip(k as int).len() == 0);
        }
        None
    }

    /// The position of the first product called `product_name`.
    fn position(&self, product_name: &str) -> (res: Option<usize>)
        ensures
            match res {
                Some(i) => spec_position(self.products@, product_name@) == Some(i as int) && i
                    < self.products@.len(),
                None => spec_position(self.products@, product_name@) is None,
            },
    {
        let wanted = product_name.to_owned();
        let mut k: usize = 0;
        proof {
            assert(self.products@.skip(0) =~= self.products@);
        }
        while k < self.products.len()
            invariant
                0 <= k <= self.products@.len(),
                wanted@ == product_name@,
                spec_position(self.products@, product_name@) == (match spec_position(
                    self.products@.skip(k as int),
                    product_name@,
                ) {
                    Some(i) => Some(i + k),
                    None => None,
                }),
            decreases self.products@.len() - k,
        {
            proof {
                let rest = self.products@.skip(k as int);
                assert(rest[0] == self.products@[k as int]);
                assert(rest.drop_first() =~= self.products@.skip(k as int + 1));
            }
            if self.products[k].name == wanted {
                return Some(k);
            }
            k = k + 1;
        }
        None
    }

    /// Splits the machine's coins into those handed out for `values` and those
    /// that stay, and keeps the latter.
    fn hand_out(&mut self, values: &Vec<Price>) -> (given: Vec<Coin>)
        ensures
            given@ == spec_given(old(self).coins@, spec_amounts(values@)),
            final(self).coins@ == spec_kept(old(self).coins@, spec_amounts(values@)),
            final(self).products == old(self).products,
    {
        let mut coins: Vec<Coin> = Vec::new();
        core::mem::swap(&mut self.coins, &mut coins);
        let mut given: Vec<Coin> = Vec::new();
        let ghost amounts = spec_amounts(values@);
        let mut k: usize = 0;
        proof {
            assert(coins@.skip(0) =~= coins@);
            assert(amounts.skip(0) =~= amounts);
            assert(given@ + spec_given(coins@, amounts) =~= spec_given(coins@, amounts));
            assert(self.coins@ + spec_kept(coins@, amounts) =~= spec_kept(coins@, amounts));
        }
        while k < coins.len()
            invariant
                0 <= k <= coins@.len(),
                coins@ == old(self).coins@,
                amounts == spec_amounts(values@),
                self.products == old(self).products,
                spec_given(coins@, amounts) == given@ + spec_given(
                    coins@.skip(k as int),
                    amounts.skip(if k <= amounts.len() {
                        k as int
                    } else {
                        amounts.len() as int
                    }),
                ),
                spec_kept(coins@, amounts) == self.coins@ + spec_kept(
                    coins@.skip(k as int),
                    amounts.skip(if k <= amounts.len() {
                        k as int
                    } else {
                        amounts.len() as int
                    }),
                ),
            decreases coins@.len() - k,
        {
            let coin = coins[k];
            let ghost at = if k <= amounts.len() {
                k as int
            } else {
                amounts.len() as int
            };
            let ghost rest_coins = coins@.skip(k as int);
            let ghost rest_amounts = amounts.skip(at);
            let ghost given_before = given@;
            let ghost kept_before = self.coins@;
            proof {
                assert(rest_coins[0] == coin);
                assert(rest_coins.drop_first() =~= coins@.skip(k as int + 1));
                if k < amounts.len() {
                    assert(rest_amounts[0] == values@[k as int].0);
                    assert(rest_amounts.drop_first() =~= amounts.skip(k as int + 1));
                } else {
                    assert(rest_amounts.len() == 0);
                }
            }
            if k < values.len() && coin.value().0 == values[k].0 {
                given.push(coin);
                proof {
                    let next = spec_given(rest_coins.drop_first(), rest_amounts.drop_first());
                    assert(given_before + (seq![coin] + next) =~= given@ + next);
                }
            } else {
                self.coins.push(coin);
                proof {
                    let next = if k < amounts.len() {
                        spec_kept(rest_coins.drop_first(), rest_amounts.drop_first())
                    } else {
                        spec_kept(rest_coins.drop_first(), rest_amounts)
                    };
                    assert(kept_before + (seq![coin] + next) =~= self.coins@ + next);
                }
            }
            k = k + 1;
        }
        proof {
            assert(coins@.skip(k as int).len() == 0);
            assert(given@ + Seq::<Coin>::empty() =~= given@);
            assert(self.coins@ + Seq::<Coin>::empty() =~= self.coins@);
        }
        given
    }

    /// Sells the first product called `product_name` for `payment`.
    ///
    /// On success the product leaves the machine, its place taken by the last
    /// product, and the change is handed out from the machine's coins. Where
    /// the purchase is turned down the machine stays as it was.
    pub fn purchase(&mut self, product_name: &str, payment: Price) -> (res: Result<
        (Product, Vec<Coin>),
        (),
    >)
        ensures
            spec_sold(*old(self), *final(self), product_name@, payment.0, res),
    {
        let product_index = match self.position(product_name) {
            Some(i) => i,
            None => {
                return Err(());
            },
        };
        let price = self.products[product_index].price;
        if payment.0 < price.0 {
            return Err(());
        }
        let change_amount = payment - price;
        let change_values = match self.get_change_values(change_amount) {
            Some(values) => values,
            None => {
                return Err(());
            },
        };
        let giving_change = self.hand_out(&change_values);
        let product = self.products.swap_remove(product_index);
        Ok((product, giving_change))
    }

    /// Sells the first product called `product_name` for `payment`, which is
    /// first turned into a price.
    pub fn buy<P: Into<Price>>(&mut self, product_name: &str, payment: P) -> (res: Result<
        (Product, Vec<Coin>),
        (),
    >)
        ensures
            P::obeys_into_spec() ==> spec_sold(
                *old(self),
                *final(self),
                product_name@,
                payment.into_spec().0,
                res,
            ),
    {
        let payment: Price = payment.into();
        self.purchase(product_name, payment)
    }
}

/// A purchase neither makes nor loses coins: each coin of the machine is
/// either handed out or kept, so the two parts together hold as many coins,
/// worth as much, as the machine held before.
pub proof fn law_coins_are_conserved(coins: Seq<Coin>, values: Seq<u64>)
    ensures
        spec_given(coins, values).len() + spec_kept(coins, values).len() == coins.len(),
        spec_total(spec_given(coins, values)) + spec_total(spec_kept(coins, values)) == spec_total(
            coins,
        ),
    decreases coins.len(),
{
    if coins.len() > 0 {
        let rest = coins.drop_first();
        if values.len() > 0 {
            law_coins_are_conserved(rest, values.drop_first());
            let given = spec_given(rest, values.drop_first());
            let kept = spec_kept(rest, values.drop_first());
            assert((seq![coins[0]] + given).drop_first() =~= given);
            assert((seq![coins[0]] + kept).drop_first() =~= kept);
        } else {
            law_coins_are_conserved(rest, values);
            let kept = spec_kept(rest, values);
            assert((seq![coins[0]] + kept).drop_first() =~= kept);
        }
    }
}

/// Change that can be given adds up to the amount due: the values that the
/// walk through the coins takes are worth exactly `change`.
pub proof fn law_change_values_add_up(coins: Seq<Coin>, change: u64)
    requires
        spec_change_values(coins, change) is Some,
    ensures
        spec_sum(spec_change_values(coins, change).unwrap()) == change,
    decreases coins.len(),
{
    let value = coins[0].spec_value();
    let due = if change >= value {
        (change - value) as u64
    } else {
        change
    };
    let taken = if change >= value {
        seq![value]
    } else {
        Seq::<u64>::empty()
    };
    assert(spec_sum(Seq::<u64>::empty()) == 0);
    if due == 0 {
        if change >= value {
            assert(taken.drop_first() =~= Seq::<u64>::empty());
            assert(spec_sum(taken) == value + spec_sum(taken.drop_first()));
        }
    } else {
        law_change_values_add_up(coins.drop_first(), due);
        let rest = spec_change_values(coins.drop_first(), due).unwrap();
        if change >= value {
            assert((taken + rest).drop_first() =~= rest);
            assert(spec_sum(taken + rest) == value + spec_sum(rest));
        } else {
            assert(taken + rest =~= rest);
        }
    }
}

} // verus!
