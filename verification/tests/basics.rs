use soltybet::wager::state::{PlayerAccount, WagerAccount};

#[test]
fn lib_it_works() {
    let result = 2 + 2;
    assert_eq!(result, 4);
}

#[test]
fn state_it_works() {
    println!("{}", WagerAccount::LEN);
    println!("{}", PlayerAccount::LEN);
    assert_eq!(WagerAccount::LEN, 196);
    assert_eq!(PlayerAccount::LEN, 26);
}
