use refuel::parse::PriceChange;
use refuel::price::{convert_price, to_amount, RangeError};

#[test]
fn price_test() {
    assert_eq!(convert_price(1234), Ok([1, 23, 4]));
    assert_eq!(convert_price(4321), Ok([4, 32, 1]));
    assert_eq!(convert_price(1879), Ok([1, 87, 9]));
    assert_eq!(convert_price(1000), Ok([1, 0, 0]));
    assert_eq!(convert_price(9999), Ok([9, 99, 9]));
    assert_eq!(convert_price(0), Ok([0, 0, 0]));
}

#[test]
fn to_amount_examples() {
    assert_eq!(to_amount([1, 78, 9]), 1789);
    assert_eq!(to_amount([0, 0, 0]), 0);
    assert_eq!(to_amount([9, 99, 9]), 9999);
    assert_eq!(to_amount([255, 99, 9]), 255999);
}

#[test]
fn round_trip_over_all_small_prices() {
    for major in 0..=9u8 {
        for minor in 0..=99u8 {
            for sub in 0..=9u8 {
                let p = [major, minor, sub];
                assert_eq!(convert_price(to_amount(p)), Ok(p));
            }
        }
    }
}

#[test]
fn convert_to_subcent_of_price_change() {
    let pc = PriceChange { price: [1, 78, 9], updated: 0 };
    assert_eq!(pc.convert_to_subcent(), 1789);
}

#[test]
fn amounts_out_of_byte_range_are_range_errors() {
    assert_eq!(convert_price(255999), Ok([255, 99, 9]));
    assert_eq!(convert_price(256000), Err(RangeError { amount: 256000 }));
    assert_eq!(convert_price(-1), Err(RangeError { amount: -1 }));
    assert_eq!(convert_price(-1000), Err(RangeError { amount: -1000 }));
}
