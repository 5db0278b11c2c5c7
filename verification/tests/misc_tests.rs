use relay::beer::{beer_brand_list_to_beer_list, Beer, BeerBrand};
use relay::complex::{do_complex, get_string_result, NumberError};
use relay::queue::{create_queue, create_queue_from_flags, QueueOptions};
use relay::workers::worker_ids;

#[test]
fn beers_flatten_in_brand_order() {
    let brands = vec![
        BeerBrand { name: "Alpha".to_string(), beers: vec![Beer { id: 1 }, Beer { id: 2 }] },
        BeerBrand { name: "Beta".to_string(), beers: vec![] },
        BeerBrand { name: "Gamma".to_string(), beers: vec![Beer { id: 3 }] },
    ];
    let beers = beer_brand_list_to_beer_list(&brands);
    assert_eq!(beers, vec![Beer { id: 1 }, Beer { id: 2 }, Beer { id: 3 }]);
}

#[test]
fn no_brands_mean_no_beers() {
    assert!(beer_brand_list_to_beer_list(&[]).is_empty());
}

#[test]
fn queue_options_default_is_the_conventional_queue() {
    let options = QueueOptions::default();
    assert_eq!(options.name, "default");
    assert!(!options.durable);
    assert!(!options.delete_on_exit);
    assert!(!options.exclusive);
    assert!(!options.no_wait);
    assert!(options.arguments.is_none());
}

#[test]
fn every_queue_declaration_is_accepted() {
    assert!(create_queue(QueueOptions::default()).is_ok());
    let arguments = [("x-message-ttl", "60000")];
    assert!(create_queue_from_flags("jobs", true, false, false, true, Some(&arguments)).is_ok());
}

#[test]
fn do_complex_reports_success() {
    assert_eq!(do_complex().unwrap(), "Success");
}

#[test]
fn get_string_result_dispatches_on_the_number() {
    assert_eq!(get_string_result(16).unwrap(), "");
    assert_eq!(get_string_result(32).unwrap(), "Success");
    assert_eq!(get_string_result(64).unwrap(), "");
    assert_eq!(get_string_result(33), Err(NumberError::InvalidNumber));
    assert_eq!(get_string_result(0), Err(NumberError::InvalidNumber));
}

#[test]
fn worker_ids_count_up_from_zero() {
    assert_eq!(worker_ids(10), (0..10).collect::<Vec<u64>>());
    assert!(worker_ids(0).is_empty());
}
